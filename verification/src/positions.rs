//! How the positions of a portfolio are valued: which figures each one goes by.
//!
//! The figures themselves are fractions and are worked out by the caller; what is settled here is
//! which of them count, in the same way for the overview of all positions and for the page of one.
use vstd::prelude::*;
use crate::calendar::{overseas_open, qdii_overseas_open};
use crate::date::Date;
use crate::funds::{benchmark, benchmark_for, digits_in, digits_of, follows_index, follows_pure_index, fund_type_label, index_fund, is_qdii_fund, lowercase, lowercase_of, pure_index_fund, tracked_index, tracked_index_for, type_label};
use crate::order::{stable_order, stable_order_of, Descending};
use crate::pick::{pick, picked};
use crate::symbols::is_hk_symbol;
use crate::text::{begins, digits_n, is_digits_n, same};

verus! {

/// A fund and the position in it, as far as the choice of figures goes.
pub struct FundFacts {
    pub code: String,
    pub name: String,
    pub fund_type: String,
    /// Index stored for the fund; empty where none is.
    pub track_index: String,
    /// Date of the official value per share.
    pub nav_date: String,
    /// A position's own number of shares is above zero.
    pub shares_positive: bool,
    /// The imported amount is above zero.
    pub amount_positive: bool,
    /// The official value per share is above zero.
    pub nav_positive: bool,
    /// The stored value per share of the day before is above zero.
    pub prev_nav_positive: bool,
    /// The number of shares in effect is above zero.
    pub eff_shares_positive: bool,
}

/// Where a figure comes from.
#[derive(Debug, Clone, Copy, PartialEq, Eq, Structural)]
pub enum Source {
    /// The position's own figure.
    Own,
    /// Worked out from the imported amount.
    Amount,
    /// Zero.
    Nothing,
}

/// Where the value per share of the day before comes from.
#[derive(Debug, Clone, Copy, PartialEq, Eq, Structural)]
pub enum Baseline {
    /// The one stored with the fund.
    Stored,
    /// The one before the official one in the history of values.
    History,
    /// None is needed.
    Nothing,
}

/// By which figures a position is valued.
#[derive(Debug, Clone, Copy, PartialEq, Eq, Structural)]
pub enum Branch {
    /// Shares times the official value per share; no gain of the day.
    MoneyByShares,
    /// The imported amount; no gain of the day.
    MoneyByAmount,
    /// All figures, with the gain of the day.
    Full,
    /// The imported amount and gain as they are.
    Amounts,
}

/// Where the number of shares comes from.
pub open spec fn shares_source(f: FundFacts) -> Source {
    if f.shares_positive {
        Source::Own
    } else if f.amount_positive && f.nav_positive {
        Source::Amount
    } else {
        Source::Nothing
    }
}

/// Where the cost comes from.
pub open spec fn cost_source(f: FundFacts) -> Source {
    if f.shares_positive {
        Source::Own
    } else if f.amount_positive {
        Source::Amount
    } else {
        Source::Nothing
    }
}

/// A money market fund or a wealth product, whose value per share does not move.
pub open spec fn money_or_wealth(fund_type: Seq<char>) -> bool {
    fund_type == "002"@ || fund_type == "005"@
}

/// The position has a real fund code of six digits, and shares.
pub open spec fn real_position(f: FundFacts) -> bool {
    digits_n(f.code@, 6) && f.eff_shares_positive
}

/// By which figures a position is valued.
pub open spec fn branch_of(f: FundFacts) -> Branch {
    if money_or_wealth(f.fund_type@) {
        if f.eff_shares_positive && f.nav_positive {
            Branch::MoneyByShares
        } else {
            Branch::MoneyByAmount
        }
    } else if real_position(f) {
        Branch::Full
    } else {
        Branch::Amounts
    }
}

/// Where the value per share of the day before comes from.
pub open spec fn baseline_of(f: FundFacts) -> Baseline {
    if money_or_wealth(f.fund_type@) {
        Baseline::Nothing
    } else if f.prev_nav_positive {
        Baseline::Stored
    } else {
        Baseline::History
    }
}

/// The value per share of the day before is known. `history_positive` says whether the history has
/// one above zero.
pub open spec fn baseline_known(f: FundFacts, history_positive: bool) -> bool {
    baseline_of(f) == Baseline::Stored || (baseline_of(f) == Baseline::History && history_positive)
}

/// The gain of the day is known from official values.
pub open spec fn day_actual(f: FundFacts, history_positive: bool) -> bool {
    !money_or_wealth(f.fund_type@) && real_position(f) && f.nav_positive && baseline_known(
        f,
        history_positive,
    )
}

/// A fund that invests abroad.
pub open spec fn qdii(fund_type: Seq<char>) -> bool {
    fund_type == "003"@
}

/// The note on late settlement; only funds that invest abroad bear one.
pub open spec fn note_of(fund_type: Seq<char>, open: bool) -> Option<Seq<char>> {
    if !qdii(fund_type) {
        None
    } else if open {
        Some("T+1·海外交易中"@)
    } else {
        Some("T+1·海外净值"@)
    }
}

/// The index that an index fund follows; other funds follow none. `lower` is the fund's name in
/// lower case.
pub open spec fn followed(fund_type: Seq<char>, lower: Seq<char>, stored: Seq<char>) -> Option<
    Seq<char>,
> {
    if index_fund(fund_type, lower) {
        match tracked_index(fund_type, lower, stored) {
            Some(t) => Some(t.0),
            None => Some(benchmark(fund_type, lower).0),
        }
    } else {
        None
    }
}

/// The figures that a position goes by.
pub struct PositionPlan {
    pub shares_from: Source,
    pub cost_from: Source,
    pub branch: Branch,
    pub baseline: Baseline,
    pub has_real_code: bool,
    pub is_money_or_wealth: bool,
    /// The official value is that of today.
    pub day_is_today: bool,
    /// The market abroad is trading, so that no estimate of the day is shown.
    pub suppress: bool,
    pub delay_note: Option<&'static str>,
    pub is_index: bool,
    pub pure_index: bool,
    /// Symbol of the index that the fund is measured against.
    pub benchmark: String,
    /// Symbol of the index that an index fund follows.
    pub follows: Option<String>,
}

/// The text of an optional literal.
pub open spec fn note_view(n: Option<&'static str>) -> Option<Seq<char>> {
    match n {
        Some(s) => Some(s@),
        None => None,
    }
}

/// The text of an optional string.
pub open spec fn text_view(n: Option<String>) -> Option<Seq<char>> {
    match n {
        Some(s) => Some(s@),
        None => None,
    }
}

/// `p` is how the position is valued. `lower` is the fund's name in lower case, `open` says whether
/// the market abroad is trading.
pub open spec fn plans(f: FundFacts, lower: Seq<char>, today: Seq<char>, open: bool, p: PositionPlan) -> bool {
    &&& p.shares_from == shares_source(f)
    &&& p.cost_from == cost_source(f)
    &&& p.branch == branch_of(f)
    &&& p.baseline == baseline_of(f)
    &&& p.has_real_code == real_position(f)
    &&& p.is_money_or_wealth == money_or_wealth(f.fund_type@)
    &&& p.day_is_today == (f.nav_date@ == today)
    &&& p.suppress == (qdii(f.fund_type@) && open)
    &&& note_view(p.delay_note) == note_of(f.fund_type@, open)
    &&& p.is_index == index_fund(f.fund_type@, lower)
    &&& p.pure_index == pure_index_fund(f.fund_type@, lower)
    &&& p.benchmark@ == benchmark(f.fund_type@, lower).0
    &&& text_view(p.follows) == followed(f.fund_type@, lower, f.track_index@)
}

/// Whether a fund is a money market fund or a wealth product.
pub fn is_money_or_wealth(fund_type: &str) -> (r: bool)
    ensures
        r == money_or_wealth(fund_type@),
{
    same(fund_type, "002") || same(fund_type, "005")
}

/// Where the number of shares comes from.
pub fn choose_shares(shares_positive: bool, amount_positive: bool, nav_positive: bool) -> (r: Source)
    ensures
        r == (if shares_positive {
            Source::Own
        } else if amount_positive && nav_positive {
            Source::Amount
        } else {
            Source::Nothing
        }),
{
    if shares_positive {
        Source::Own
    } else if amount_positive && nav_positive {
        Source::Amount
    } else {
        Source::Nothing
    }
}

/// The note on late settlement.
pub fn delay_note(fund_type: &str, open: bool) -> (r: Option<&'static str>)
    ensures
        note_view(r) == note_of(fund_type@, open),
{
    if !is_qdii_fund(fund_type) {
        None
    } else if open {
        Some("T+1·海外交易中")
    } else {
        Some("T+1·海外净值")
    }
}

/// The symbol of the index that an index fund follows, by the fund's name in lower case.
pub fn followed_index(fund_type: &str, lower: &str, stored: &str) -> (r: Option<String>)
    ensures
        text_view(r) == followed(fund_type@, lower@, stored@),
{
    if !follows_index(fund_type, lower) {
        return None;
    }
    match tracked_index_for(fund_type, lower, stored) {
        Some(t) => Some(t.0),
        None => Some(benchmark_for(fund_type, lower).0),
    }
}

/// How a position is valued, by the fund's name in lower case and whether the market abroad is
/// trading.
pub fn plan_for(f: &FundFacts, lower: &str, today: &str, open: bool) -> (p: PositionPlan)
    ensures
        plans(*f, lower@, today@, open, p),
        f.shares_positive ==> p.cost_from == Source::Own && p.shares_from == Source::Own,
        !f.shares_positive && f.amount_positive ==> p.cost_from == Source::Amount,
        !f.shares_positive && !f.amount_positive ==> p.cost_from == Source::Nothing
            && p.shares_from == Source::Nothing,
        !f.shares_positive && f.amount_positive && f.nav_positive ==> p.shares_from
            == Source::Amount,
        !f.shares_positive && !f.nav_positive ==> p.shares_from == Source::Nothing,
        p.is_money_or_wealth == (f.fund_type@ == "002"@ || f.fund_type@ == "005"@),
        p.suppress == (f.fund_type@ == "003"@ && open),
        p.day_is_today == (f.nav_date@ == today@),
{
    let fund_type = f.fund_type.as_str();
    let money = is_money_or_wealth(fund_type);
    let has_real_code = is_digits_n(f.code.as_str(), 6) && f.eff_shares_positive;
    let cost_from = if f.shares_positive {
        Source::Own
    } else if f.amount_positive {
        Source::Amount
    } else {
        Source::Nothing
    };
    let branch = if money {
        if f.eff_shares_positive && f.nav_positive {
            Branch::MoneyByShares
        } else {
            Branch::MoneyByAmount
        }
    } else if has_real_code {
        Branch::Full
    } else {
        Branch::Amounts
    };
    let baseline = if money {
        Baseline::Nothing
    } else if f.prev_nav_positive {
        Baseline::Stored
    } else {
        Baseline::History
    };
    PositionPlan {
        shares_from: choose_shares(f.shares_positive, f.amount_positive, f.nav_positive),
        cost_from,
        branch,
        baseline,
        has_real_code,
        is_money_or_wealth: money,
        day_is_today: same(f.nav_date.as_str(), today),
        suppress: is_qdii_fund(fund_type) && open,
        delay_note: delay_note(fund_type, open),
        is_index: follows_index(fund_type, lower),
        pure_index: follows_pure_index(fund_type, lower),
        benchmark: benchmark_for(fund_type, lower).0,
        follows: followed_index(fund_type, lower, f.track_index.as_str()),
    }
}

/// How a position is valued on a day at a minute in Beijing.
pub fn plan_position(f: &FundFacts, date: Date, minute: u32) -> (p: PositionPlan)
    requires
        date.valid(),
    ensures
        plans(
            *f,
            lowercase_of(f.name@),
            crate::date::iso_of(date.year as int, date.month as int, date.day as int),
            overseas_open(f.name@, date, minute as int),
            p,
        ),
        f.shares_positive ==> p.cost_from == Source::Own && p.shares_from == Source::Own,
        !f.shares_positive && f.amount_positive ==> p.cost_from == Source::Amount,
        !f.shares_positive && !f.amount_positive ==> p.cost_from == Source::Nothing
            && p.shares_from == Source::Nothing,
{
    let lower = lowercase(f.name.as_str());
    let today = date.iso();
    let open = qdii_overseas_open(f.name.as_str(), date, minute);
    plan_for(f, lower.as_str(), today.as_str(), open)
}

/// How each position of the overview is valued on a day at a minute in Beijing.
pub fn plan_overview(funds: &Vec<FundFacts>, date: Date, minute: u32) -> (r: Vec<PositionPlan>)
    requires
        date.valid(),
    ensures
        r@.len() == funds@.len(),
        forall|i: int|
            0 <= i < r@.len() ==> plans(
                funds@[i],
                lowercase_of(funds@[i].name@),
                crate::date::iso_of(date.year as int, date.month as int, date.day as int),
                overseas_open(funds@[i].name@, date, minute as int),
                #[trigger] r@[i],
            ),
{
    let mut r: Vec<PositionPlan> = Vec::new();
    let mut i: usize = 0;
    while i < funds.len()
        invariant
            date.valid(),
            i <= funds@.len(),
            r@.len() == i,
            forall|k: int|
                0 <= k < i ==> plans(
                    funds@[k],
                    lowercase_of(funds@[k].name@),
                    crate::date::iso_of(date.year as int, date.month as int, date.day as int),
                    overseas_open(funds@[k].name@, date, minute as int),
                    #[trigger] r@[k],
                ),
        decreases funds@.len() - i,
    {
        r.push(plan_position(&funds[i], date, minute));
        i += 1;
    }
    r
}

/// Whether the gain of the day is known from official values. `history_positive` says whether the
/// history of values has one above zero before the official one.
pub fn has_day_actual(f: &FundFacts, history_positive: bool) -> (r: bool)
    ensures
        r == day_actual(*f, history_positive),
{
    !is_money_or_wealth(f.fund_type.as_str()) && is_digits_n(f.code.as_str(), 6)
        && f.eff_shares_positive && f.nav_positive && (f.prev_nav_positive || history_positive)
}

/// Whether a position counts as estimated.
pub fn counts_as_estimated(estimated: bool, fund_type: &str) -> (r: bool)
    ensures
        r == (estimated && !money_or_wealth(fund_type@)),
{
    estimated && !is_money_or_wealth(fund_type)
}

/// Whether the page of one fund hides the estimate of the day: it has one, and the market abroad is
/// trading.
pub fn detail_suppresses(estimated: bool, fund_type: &str, open: bool) -> (r: bool)
    ensures
        r == (estimated && qdii(fund_type@) && open),
{
    estimated && is_qdii_fund(fund_type) && open
}

/// Where a valuation comes from.
pub fn valuation_source(estimated: bool) -> (r: &'static str)
    ensures
        r@ == (if estimated {
            "local"@
        } else {
            "none"@
        }),
{
    if estimated {
        "local"
    } else {
        "none"
    }
}

/// Why a fund is not valued, as the overview puts it.
pub fn overview_reason(fund_type: &str) -> (r: String)
    ensures
        r@ == "模型不适用（"@ + type_label(fund_type@)
            + "）：货币型/理财型（002/005）净值恒定≈1，不纳入本地自算估值"@,
{
    let mut s = "模型不适用（".to_owned();
    s.append(fund_type_label(fund_type));
    s.append("）：货币型/理财型（002/005）净值恒定≈1，不纳入本地自算估值");
    s
}

/// Why a fund is not valued, as the page of the fund puts it.
pub fn detail_reason(fund_type: &str) -> (r: String)
    ensures
        r@ == "模型不适用（"@ + type_label(fund_type@) + "）：债基/货基/QDII 不纳入本地自算估值"@,
{
    let mut s = "模型不适用（".to_owned();
    s.append(fund_type_label(fund_type));
    s.append("）：债基/货基/QDII 不纳入本地自算估值");
    s
}

/// Where the quote of an index is had: from the Hong Kong index service under its whole symbol, or
/// from the stock quote service under its digits.
pub fn index_route(symbol: &str) -> (r: (bool, String))
    ensures
        r.0 == begins(symbol@, "hk"@),
        r.1@ == (if r.0 {
            symbol@
        } else {
            digits_in(symbol@)
        }),
{
    if is_hk_symbol(symbol) {
        (true, symbol.to_owned())
    } else {
        (false, digits_of(symbol))
    }
}

/// How far an estimate can be trusted beside a platform's own, and whether the two have a common
/// value. `close` and `near` say how far apart they are.
pub fn confidence(platform: bool, close: bool, near: bool) -> (r: (&'static str, bool))
    ensures
        r.0@ == (if !platform {
            "none"@
        } else if close {
            "high"@
        } else if near {
            "medium"@
        } else {
            "low"@
        }),
        r.1 == (platform && near),
{
    if !platform {
        ("none", false)
    } else if close {
        ("high", near)
    } else if near {
        ("medium", true)
    } else {
        ("low", false)
    }
}

/// The order of positions by their value, the largest first. `worth` holds a number for each that
/// orders it among them.
pub fn by_worth(worth: &Vec<i64>) -> (p: Vec<usize>)
    ensures
        stable_order_of(worth@.map_values(|k: i64| (Descending { key: k })), p@),
{
    let mut keys: Vec<Descending> = Vec::new();
    let mut i: usize = 0;
    while i < worth.len()
        invariant
            i <= worth@.len(),
            keys@.len() == i,
            forall|k: int| 0 <= k < i ==> (#[trigger] keys@[k]).key == worth@[k],
        decreases worth@.len() - i,
    {
        keys.push(Descending { key: worth[i] });
        i += 1;
    }
    assert(keys@ =~= worth@.map_values(|k: i64| (Descending { key: k })));
    stable_order(&keys)
}

/// The first and the last of the positions ordered by their rate of gain, where there are any.
pub fn best_and_worst(rates: &Vec<i64>) -> (r: Option<(usize, usize)>)
    ensures
        match r {
            Some(b) => {
                &&& rates@.len() > 0
                &&& b.0 < rates@.len()
                &&& b.1 < rates@.len()
                &&& forall|i: int| 0 <= i < b.0 ==> #[trigger] rates@[i] < rates@[b.0 as int]
                &&& forall|i: int|
                    0 <= i < rates@.len() ==> #[trigger] rates@[i] <= rates@[b.0 as int]
                &&& forall|i: int|
                    0 <= i < rates@.len() ==> #[trigger] rates@[i] >= rates@[b.1 as int]
                &&& forall|i: int|
                    b.1 < i < rates@.len() ==> #[trigger] rates@[i] > rates@[b.1 as int]
            },
            None => rates@.len() == 0,
        },
{
    if rates.len() == 0 {
        return None;
    }
    let mut best: usize = 0;
    let mut worst: usize = 0;
    let mut i: usize = 1;
    while i < rates.len()
        invariant
            best < i <= rates@.len(),
            worst < i,
            forall|k: int| 0 <= k < best ==> #[trigger] rates@[k] < rates@[best as int],
            forall|k: int| 0 <= k < i ==> #[trigger] rates@[k] <= rates@[best as int],
            forall|k: int| 0 <= k < i ==> #[trigger] rates@[k] >= rates@[worst as int],
            forall|k: int| worst < k < i ==> #[trigger] rates@[k] > rates@[worst as int],
        decreases rates@.len() - i,
    {
        if rates[i] > rates[best] {
            best = i;
        }
        if rates[i] <= rates[worst] {
            worst = i;
        }
        i += 1;
    }
    Some((best, worst))
}

/// For each platform whether it is the chosen one; all are where none is chosen.
pub open spec fn platform_marks(platforms: Seq<String>, chosen: Option<String>) -> Seq<bool> {
    platforms.map_values(|p: String| chosen is None || p@ == chosen->Some_0@)
}

/// The positions on a platform; all of them where none is chosen.
pub fn of_platform(platforms: &Vec<String>, chosen: &Option<String>) -> (r: Vec<usize>)
    ensures
        r@ == picked(platform_marks(platforms@, *chosen)),
{
    let mut marks: Vec<bool> = Vec::new();
    let mut i: usize = 0;
    while i < platforms.len()
        invariant
            i <= platforms@.len(),
            marks@.len() == i,
            forall|k: int|
                0 <= k < i ==> #[trigger] marks@[k] == platform_marks(platforms@, *chosen)[k],
        decreases platforms@.len() - i,
    {
        let take = match chosen {
            Some(p) => same(platforms[i].as_str(), p.as_str()),
            None => true,
        };
        marks.push(take);
        i += 1;
    }
    assert(marks@ =~= platform_marks(platforms@, *chosen));
    pick(&marks)
}

/// Where the gain of the day of a snapshot comes from.
#[derive(Debug, Clone, Copy, PartialEq, Eq, Structural)]
pub enum DaySource {
    /// The change of the value since the snapshot before, without what was paid in or out.
    Change,
    /// The official gain of the day.
    Actual,
}

/// Where the gain of the day of a snapshot comes from: from the change since the snapshot before
/// only where that is of the trading day before. `gap` counts the trading days since it, if there is
/// one.
pub fn day_source(gap: Option<i64>) -> (r: DaySource)
    ensures
        r == (if gap == Some(1i64) {
            DaySource::Change
        } else {
            DaySource::Actual
        }),
{
    match gap {
        Some(n) => {
            if n == 1 {
                DaySource::Change
            } else {
                DaySource::Actual
            }
        },
        None => DaySource::Actual,
    }
}

/// Whether the value of the portfolio is an estimate already: while the market trades and no
/// official gain of the day is there.
pub fn value_is_estimate(phase: &str, actual_is_zero: bool) -> (r: bool)
    ensures
        r == (phase@ == "intraday"@ && actual_is_zero),
{
    same(phase, "intraday") && actual_is_zero
}

// ---------------------------------------------------------------------------
// Laws
// ---------------------------------------------------------------------------

/// The gain of the day is known only of positions that are valued by all figures, with a value of the
/// day before to compare with; a money market fund never has one.
pub proof fn law_day_actual_is_full(f: FundFacts, history_positive: bool)
    requires
        day_actual(f, history_positive),
    ensures
        branch_of(f) == Branch::Full,
        baseline_of(f) != Baseline::Nothing,
        !money_or_wealth(f.fund_type@),
{
}

/// The value of the day before never comes from anywhere else while one is stored.
pub proof fn law_stored_baseline_wins(f: FundFacts, history_positive: bool)
    requires
        f.prev_nav_positive,
        !money_or_wealth(f.fund_type@),
    ensures
        baseline_of(f) == Baseline::Stored,
        day_actual(f, history_positive) == day_actual(f, !history_positive),
{
}

/// An estimate is hidden only for funds that invest abroad, and exactly those bear a note.
pub proof fn law_notes_are_for_funds_abroad(
    f: FundFacts,
    lower: Seq<char>,
    today: Seq<char>,
    open: bool,
    p: PositionPlan,
)
    requires
        plans(f, lower, today, open, p),
    ensures
        p.suppress ==> qdii(f.fund_type@) && p.delay_note is Some,
        p.delay_note is Some <==> qdii(f.fund_type@),
        p.follows is Some <==> p.is_index,
        p.pure_index ==> p.is_index,
{
}

/// The overview and the page of one fund decide alike: the same facts at the same time give the same
/// choice of figures.
pub proof fn law_pages_agree(
    f: FundFacts,
    lower: Seq<char>,
    today: Seq<char>,
    open: bool,
    p: PositionPlan,
    q: PositionPlan,
)
    requires
        plans(f, lower, today, open, p),
        plans(f, lower, today, open, q),
    ensures
        p.branch == q.branch && p.baseline == q.baseline && p.shares_from == q.shares_from
            && p.cost_from == q.cost_from && p.suppress == q.suppress && p.has_real_code
            == q.has_real_code && p.benchmark@ == q.benchmark@,
{
}

/// What a position that is valued without a gain of the day is worth, its gain and its cost, in whole
/// numbers of some unit. `shares` and `cost` give the figure from each source.
pub open spec fn still_figures(
    p: PositionPlan,
    shares: spec_fn(Source) -> int,
    cost: spec_fn(Source) -> int,
    nav: int,
    amount: int,
) -> (int, int, int) {
    let worth = if p.branch == Branch::MoneyByShares {
        shares(p.shares_from) * nav
    } else {
        amount
    };
    let spent = cost(p.cost_from);
    (worth, if worth > 0 {
        worth - spent
    } else {
        0
    }, spent)
}

/// A money market fund or a wealth product shows the same worth, gain and cost on both pages, whenever
/// they are asked for: shares times the official value where both are there, whatever amount was
/// imported, else that amount. It has no gain of the day and nothing to compare one with.
pub proof fn law_money_pages_agree(
    f: FundFacts,
    lower: Seq<char>,
    p: PositionPlan,
    p_today: Seq<char>,
    p_open: bool,
    q: PositionPlan,
    q_today: Seq<char>,
    q_open: bool,
    shares: spec_fn(Source) -> int,
    cost: spec_fn(Source) -> int,
    nav: int,
    amount: int,
)
    requires
        money_or_wealth(f.fund_type@),
        plans(f, lower, p_today, p_open, p),
        plans(f, lower, q_today, q_open, q),
    ensures
        p.branch == q.branch,
        p.branch == Branch::MoneyByShares || p.branch == Branch::MoneyByAmount,
        still_figures(p, shares, cost, nav, amount) == still_figures(q, shares, cost, nav, amount),
        still_figures(p, shares, cost, nav, amount).0 == (if f.eff_shares_positive && f.nav_positive {
            shares(shares_source(f)) * nav
        } else {
            amount
        }),
        p.baseline == Baseline::Nothing && q.baseline == Baseline::Nothing,
        !p.suppress && !q.suppress,
        forall|history_positive: bool| !#[trigger] day_actual(f, history_positive),
{
    reveal_strlit("002");
    reveal_strlit("003");
    reveal_strlit("005");
    assert("002"@[2] != "003"@[2] && "005"@[2] != "003"@[2]);
}

} // verus!
