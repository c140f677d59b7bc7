//! The day's signals of the grid strategy.
use vstd::prelude::*;
use crate::funds::{digits_in, digits_of};
use crate::group::{group_by, group_views, grouped, label_views, Group, GroupView, Label};
use crate::order::{arranges, stable_order, stable_order_of, stably_sorted, Ranked, TextUp};
use crate::symbols::{benchmark_symbol, benchmark_symbols, push_new, with_all, FundKind};
use crate::text::{begins, is_before, lemma_lex_irreflexive, lemma_lex_total, lemma_lex_transitive, lex_lt, same, starts_with, views};

verus! {

// ---------------------------------------------------------------------------
// State of the market
// ---------------------------------------------------------------------------

/// Setting that holds the state of the market chosen by hand.
pub const REGIME_MANUAL: &'static str = "regime_manual";

/// Setting that says whether the state of the market is found out.
pub const REGIME_AUTO: &'static str = "regime_auto";

/// Number of days below which the state of the market is not found out.
pub const REGIME_DAYS: usize = 21;

/// How the state of the market is had.
#[derive(Debug, Clone, Copy, PartialEq, Eq, Structural)]
pub enum Regime {
    /// Chosen by hand.
    Bear,
    /// Chosen by hand, or neither chosen nor found out.
    Neutral,
    /// To be found out.
    Auto,
}

/// How the state of the market is had, by the two settings.
pub open spec fn regime_of(manual: Option<Seq<char>>, auto: Option<Seq<char>>) -> Regime {
    if manual == Some("bear"@) {
        Regime::Bear
    } else if manual == Some("neutral"@) || auto == Some("0"@) {
        Regime::Neutral
    } else {
        Regime::Auto
    }
}

/// The text of an optional string.
pub open spec fn text_of(o: Option<String>) -> Option<Seq<char>> {
    match o {
        Some(s) => Some(s@),
        None => None,
    }
}

/// Whether an optional text is there and is the given one.
fn is_text(o: &Option<String>, s: &str) -> (r: bool)
    ensures
        r == (text_of(*o) == Some(s@)),
{
    match o {
        Some(t) => same(t.as_str(), s),
        None => false,
    }
}

/// How the state of the market is had.
pub fn choose_regime(manual: &Option<String>, auto: &Option<String>) -> (r: Regime)
    ensures
        r == regime_of(text_of(*manual), text_of(*auto)),
{
    if is_text(manual, "bear") {
        Regime::Bear
    } else if is_text(manual, "neutral") || is_text(auto, "0") {
        Regime::Neutral
    } else {
        Regime::Auto
    }
}

/// The state of the market as it was found out: that of falling prices only where enough days are
/// known, the last twenty of them fell by more than a tenth, and the trend is downwards.
pub fn found_regime(days: usize, fell: bool, trend: &str) -> (r: &'static str)
    ensures
        r@ == (if days >= REGIME_DAYS && fell && (trend@ == "连跌"@ || trend@ == "中期走弱"@) {
            "bear"@
        } else {
            "neutral"@
        }),
{
    if days >= REGIME_DAYS && fell && (same(trend, "连跌") || same(trend, "中期走弱")) {
        "bear"
    } else {
        "neutral"
    }
}

/// The labels of changes: their dates.
pub open spec fn day_labels(dates: Seq<String>) -> Seq<Label> {
    dates.map_values(|d: String| (d@, Seq::<char>::empty()))
}

/// Groups in the order of their dates.
pub open spec fn earlier_day() -> spec_fn(GroupView, GroupView) -> bool {
    |a: GroupView, b: GroupView| lex_lt(a.label.0, b.label.0)
}

/// The changes of values by day, the days in ascending order. The members of a group are the places of
/// its changes.
pub fn changes_by_day(dates: &Vec<String>) -> (r: Vec<Group>)
    ensures
        stably_sorted(grouped(day_labels(dates@)), group_views(r@), earlier_day()),
{
    let mut labels: Vec<(String, String)> = Vec::new();
    let mut i: usize = 0;
    while i < dates.len()
        invariant
            i <= dates@.len(),
            labels@.len() == i,
            forall|k: int|
                0 <= k < i ==> ((#[trigger] labels@[k]).0@, labels@[k].1@) == day_labels(dates@)[k],
        decreases dates@.len() - i,
    {
        let none = String::new();
        assert(none@ =~= Seq::<char>::empty());
        labels.push((dates[i].clone(), none));
        i += 1;
    }
    assert(label_views(labels@) =~= day_labels(dates@));
    let groups = group_by(&labels);
    let ghost gs = grouped(day_labels(dates@));
    let mut keys: Vec<TextUp> = Vec::new();
    let mut j: usize = 0;
    while j < groups.len()
        invariant
            group_views(groups@) == gs,
            j <= groups@.len(),
            keys@.len() == j,
            forall|k: int| 0 <= k < j ==> (#[trigger] keys@[k]).text@ == gs[k].label.0,
        decreases groups@.len() - j,
    {
        assert(groups@[j as int]@ == gs[j as int]);
        keys.push(TextUp { text: groups[j].label.0.clone() });
        j += 1;
    }
    let p = stable_order(&keys);
    let mut r: Vec<Group> = Vec::new();
    let mut n: usize = 0;
    while n < p.len()
        invariant
            group_views(groups@) == gs,
            keys@.len() == gs.len(),
            stable_order_of(keys@, p@),
            n <= p@.len(),
            r@.len() == n,
            forall|k: int| 0 <= k < n ==> (#[trigger] r@[k])@ == gs[p@[k] as int],
        decreases p@.len() - n,
    {
        let g = &groups[p[n]];
        assert(groups@[p@[n as int] as int]@ == gs[p@[n as int] as int]);
        let mut members: Vec<usize> = Vec::new();
        let mut k: usize = 0;
        while k < g.members.len()
            invariant
                k <= g.members@.len(),
                members@ == g.members@.take(k as int),
            decreases g.members@.len() - k,
        {
            members.push(g.members[k]);
            k += 1;
            assert(members@ =~= g.members@.take(k as int));
        }
        assert(members@ =~= g.members@);
        let copy = Group { label: (g.label.0.clone(), g.label.1.clone()), members };
        assert(copy@ =~= g@);
        r.push(copy);
        n += 1;
    }
    proof {
        let out = group_views(r@);
        assert forall|i: int, j: int| 0 <= i < j < out.len() implies earlier_day()(
            gs[#[trigger] p@[i] as int],
            gs[#[trigger] p@[j] as int],
        ) || (!earlier_day()(gs[p@[j] as int], gs[p@[i] as int]) && p@[i] < p@[j]) by {
            assert(crate::order::precedes(keys@, p@[i] as int, p@[j] as int));
        }
        assert(arranges(gs, out, p@, earlier_day()));
    }
    r
}

/// What the two settings hold after writes that begin with the one for what was chosen by hand; `kept`
/// is what the other held before.
pub open spec fn writes_leave(
    writes: Seq<(&'static str, Option<&'static str>)>,
    kept: Option<Seq<char>>,
) -> (Option<Seq<char>>, Option<Seq<char>>) {
    (
        literal_text(writes[0].1),
        if writes.len() > 1 {
            literal_text(writes[1].1)
        } else {
            kept
        },
    )
}

/// The text of an optional literal.
pub open spec fn literal_text(o: Option<&'static str>) -> Option<Seq<char>> {
    match o {
        Some(s) => Some(s@),
        None => None,
    }
}

/// What setting the state of the market writes: names of settings with their values, or none where a
/// setting is cleared.
pub fn plan_set_regime(regime: &str, auto: Option<bool>, manual: Option<bool>) -> (r: (
    &'static str,
    Vec<(&'static str, Option<&'static str>)>,
))
    ensures
        r.0@ == (if regime@ == "bear"@ {
            "bear"@
        } else {
            "neutral"@
        }),
        if manual == Some(true) {
            &&& r.1@.len() == 1
            &&& r.1@[0].0@ == REGIME_MANUAL@
            &&& r.1@[0].1 is Some
            &&& r.1@[0].1->Some_0@ == r.0@
        } else {
            &&& r.1@.len() == 2
            &&& r.1@[0].0@ == REGIME_MANUAL@
            &&& r.1@[0].1 is None
            &&& r.1@[1].0@ == REGIME_AUTO@
            &&& r.1@[1].1 is Some
            &&& r.1@[1].1->Some_0@ == (if auto == Some(false) {
                "0"@
            } else {
                "1"@
            })
        },
        forall|kept: Option<Seq<char>>|
            writes_leave(r.1@, kept) == #[trigger] settings_after(regime@, auto, manual, kept),
{
    let value = if same(regime, "bear") {
        "bear"
    } else {
        "neutral"
    };
    let mut writes: Vec<(&'static str, Option<&'static str>)> = Vec::new();
    let by_hand = match manual {
        Some(m) => m,
        None => false,
    };
    if by_hand {
        writes.push((REGIME_MANUAL, Some(value)));
    } else {
        writes.push((REGIME_MANUAL, None));
        let on = match auto {
            Some(a) => a,
            None => true,
        };
        writes.push((REGIME_AUTO, Some(if on {
            "1"
        } else {
            "0"
        })));
    }
    (value, writes)
}

/// The two settings after the state of the market was set; `kept` is what the one for finding it out
/// held before.
pub open spec fn settings_after(
    regime: Seq<char>,
    auto: Option<bool>,
    manual: Option<bool>,
    kept: Option<Seq<char>>,
) -> (Option<Seq<char>>, Option<Seq<char>>) {
    if manual == Some(true) {
        (
            Some(
                if regime == "bear"@ {
                    "bear"@
                } else {
                    "neutral"@
                },
            ),
            kept,
        )
    } else {
        (
            None,
            Some(
                if auto == Some(false) {
                    "0"@
                } else {
                    "1"@
                },
            ),
        )
    }
}

/// What was set by hand is what holds, whatever was set before; what was set to be found out is found
/// out, and what was set not to be is taken as neutral. Where nothing was ever set it is found out.
pub proof fn law_regime_read_back(
    regime: Seq<char>,
    auto: Option<bool>,
    manual: Option<bool>,
    kept: Option<Seq<char>>,
)
    ensures
        ({
            let after = settings_after(regime, auto, manual, kept);
            regime_of(after.0, after.1) == (if manual == Some(true) {
                if regime == "bear"@ {
                    Regime::Bear
                } else {
                    Regime::Neutral
                }
            } else if auto == Some(false) {
                Regime::Neutral
            } else {
                Regime::Auto
            })
        }),
        regime_of(None, None) == Regime::Auto,
{
    reveal_strlit("bear");
    reveal_strlit("neutral");
    reveal_strlit("0");
    reveal_strlit("1");
    assert("bear"@.len() == 4 && "neutral"@.len() == 7);
    assert("0"@[0] == '0' && "1"@[0] == '1');
}

/// The settings as they are shown: the state of the market that was chosen by hand, or else neutral,
/// whether it is to be found out, and whether it was chosen by hand.
#[derive(Debug, Clone, Copy)]
pub struct GridSettings {
    pub regime: &'static str,
    pub auto: bool,
    pub manual: bool,
}

/// The settings as they are shown.
pub fn grid_get_settings(manual: &Option<String>, auto: &Option<String>) -> (r: GridSettings)
    ensures
        r.regime@ == (if text_of(*manual) == Some("bear"@) {
            "bear"@
        } else {
            "neutral"@
        }),
        r.auto == (text_of(*auto) != Some("0"@)),
        r.manual == (text_of(*manual) == Some("bear"@) || text_of(*manual) == Some("neutral"@)),
{
    let bear = is_text(manual, "bear");
    GridSettings {
        regime: if bear {
            "bear"
        } else {
            "neutral"
        },
        auto: !is_text(auto, "0"),
        manual: bear || is_text(manual, "neutral"),
    }
}

// ---------------------------------------------------------------------------
// Input
// ---------------------------------------------------------------------------

/// The sign of a number.
#[derive(Debug, Clone, Copy, PartialEq, Eq, Structural)]
pub enum Sign {
    Negative,
    Zero,
    Positive,
}

/// What an event of the ledger does to the lots of a fund.
#[derive(Debug, Clone, Copy, PartialEq, Eq, Structural)]
pub enum LotStep {
    /// A new lot.
    Add,
    /// Shares are taken from the earliest lots on.
    Take,
    /// Nothing.
    Skip,
}

/// What an event does to the lots: shares that come in make a lot, shares that go are taken from the
/// earliest lots. The shares of a sale go.
pub fn lot_step(txn_type: &str, shares: Sign) -> (r: LotStep)
    ensures
        r == (match shares {
            Sign::Zero => LotStep::Skip,
            Sign::Positive => if txn_type@ == "sell"@ {
                LotStep::Take
            } else {
                LotStep::Add
            },
            Sign::Negative => if txn_type@ == "sell"@ {
                LotStep::Add
            } else {
                LotStep::Take
            },
        }),
{
    let sold = same(txn_type, "sell");
    match shares {
        Sign::Zero => LotStep::Skip,
        Sign::Positive => if sold {
            LotStep::Take
        } else {
            LotStep::Add
        },
        Sign::Negative => if sold {
            LotStep::Add
        } else {
            LotStep::Take
        },
    }
}

/// The digits of codes, without those that have none.
pub open spec fn digit_codes(codes: Seq<String>) -> Seq<Seq<char>>
    decreases codes.len(),
{
    if codes.len() == 0 {
        Seq::empty()
    } else {
        let d = digits_in(codes.last()@);
        if d.len() == 0 {
            digit_codes(codes.drop_last())
        } else {
            digit_codes(codes.drop_last()).push(d)
        }
    }
}

/// The symbols to ask for: those of the indices, then the digits of the stocks, each once.
pub fn signal_symbols(kinds: &Vec<FundKind>, stock_codes: &Vec<String>) -> (r: Vec<String>)
    ensures
        views(r@) == with_all(
            with_all(Seq::empty(), kinds@.map_values(|f: FundKind| benchmark_symbol(f))),
            digit_codes(stock_codes@),
        ),
{
    let mut r = benchmark_symbols(kinds);
    let ghost bench = views(r@);
    let mut i: usize = 0;
    assert(stock_codes@.take(0) =~= Seq::<String>::empty());
    while i < stock_codes.len()
        invariant
            i <= stock_codes@.len(),
            views(r@) == with_all(bench, digit_codes(stock_codes@.take(i as int))),
        decreases stock_codes@.len() - i,
    {
        let ghost before = digit_codes(stock_codes@.take(i as int));
        proof {
            assert(stock_codes@.take(i + 1).drop_last() =~= stock_codes@.take(i as int));
            assert(stock_codes@.take(i + 1).last() == stock_codes@[i as int]);
        }
        let d = digits_of(stock_codes[i].as_str());
        if !d.as_str().is_empty() {
            proof {
                assert(before.push(d@).drop_last() =~= before);
                assert(before.push(d@).last() == d@);
            }
            push_new(&mut r, d);
        }
        i += 1;
    }
    assert(stock_codes@.take(stock_codes@.len() as int) =~= stock_codes@);
    r
}

/// Where the day's change of a fund comes from: an estimate, but only while the market trades and there
/// is one; else the last two official values.
pub fn change_source(phase: &str, estimated: bool) -> (r: &'static str)
    ensures
        r@ == (if phase@ == "intraday"@ && estimated {
            "estimation"@
        } else {
            "nav"@
        }),
{
    if same(phase, "intraday") && estimated {
        "estimation"
    } else {
        "nav"
    }
}

/// Whether an order to buy back can be carried out: its price and its amount are both set.
pub fn is_usable_rebuy(has_trigger: bool, has_amount: bool) -> (r: bool)
    ensures
        r == (has_trigger && has_amount),
{
    has_trigger && has_amount
}

// ---------------------------------------------------------------------------
// What follows from a signal
// ---------------------------------------------------------------------------

/// Beginning of the name of a signal to buy back later.
pub const REBUY: &'static str = "延迟回补";

/// What becomes of the orders to buy back.
pub enum RebuyAction {
    /// The order with this number was carried out.
    Triggered(i64),
    /// A new order with this label.
    Place(String),
    Nothing,
}

/// The label of an order that a signal places.
pub open spec fn rebuy_label(signal: Seq<char>) -> Seq<char> {
    if begins(signal, REBUY@) {
        signal
    } else {
        "延迟回补("@ + signal + ")"@
    }
}

/// What becomes of the orders to buy back after a signal.
pub fn after_signal(is_rebuy: bool, pending: Option<i64>, has_plan: bool, signal: &str) -> (r: RebuyAction)
    ensures
        if is_rebuy {
            match pending {
                Some(id) => r == RebuyAction::Triggered(id),
                None => r is Nothing,
            }
        } else if has_plan {
            r matches RebuyAction::Place(l) && l@ == rebuy_label(signal@)
        } else {
            r is Nothing
        },
{
    if is_rebuy {
        match pending {
            Some(id) => RebuyAction::Triggered(id),
            None => RebuyAction::Nothing,
        }
    } else if has_plan {
        if starts_with(signal, REBUY) {
            RebuyAction::Place(signal.to_owned())
        } else {
            let mut l = "延迟回补(".to_owned();
            l.append(signal);
            l.append(")");
            RebuyAction::Place(l)
        }
    } else {
        RebuyAction::Nothing
    }
}

/// A signal as it is ordered: by priority, then by the code of its fund.
pub struct SignalKey {
    pub priority: i32,
    pub code: String,
}

impl Ranked for SignalKey {
    open spec fn ahead(&self, other: &Self) -> bool {
        self.priority < other.priority || (self.priority == other.priority && lex_lt(
            self.code@,
            other.code@,
        ))
    }

    proof fn law_irreflexive(a: &Self) {
        lemma_lex_irreflexive(a.code@);
    }

    proof fn law_comparable(a: &Self, b: &Self, c: &Self) {
        lemma_lex_total(a.code@, b.code@);
        if lex_lt(b.code@, a.code@) && lex_lt(a.code@, c.code@) {
            lemma_lex_transitive(b.code@, a.code@, c.code@);
        }
    }

    proof fn law_transitive(a: &Self, b: &Self, c: &Self) {
        if lex_lt(a.code@, b.code@) && lex_lt(b.code@, c.code@) {
            lemma_lex_transitive(a.code@, b.code@, c.code@);
        }
    }

    fn is_ahead(&self, other: &Self) -> (r: bool) {
        self.priority < other.priority || (self.priority == other.priority && is_before(
            self.code.as_str(),
            other.code.as_str(),
        ))
    }
}

/// The order in which purchases share the day's budget.
pub fn budget_order(keys: &Vec<SignalKey>) -> (p: Vec<usize>)
    ensures
        stable_order_of(keys@, p@),
{
    stable_order(keys)
}

/// What the day's budget does to a signal.
#[derive(Debug, Clone, Copy, PartialEq, Eq, Structural)]
pub enum Gate {
    /// It is no purchase, or one of nothing: it stays and uses up nothing.
    Aside,
    /// It fits and uses up its amount.
    Pass,
    /// It is cut down to what is left, and the budget is used up.
    Shrink,
    /// It is put off.
    Defer,
}

/// What the day's budget does to a signal. `amount_positive` says whether it has an amount above zero,
/// `over` whether that goes beyond what is left, `room` whether what is left is worth buying for.
pub fn gate(action: &str, amount_positive: bool, over: bool, room: bool) -> (r: Gate)
    ensures
        r == (if action@ != "buy"@ || !amount_positive {
            Gate::Aside
        } else if !over {
            Gate::Pass
        } else if room {
            Gate::Shrink
        } else {
            Gate::Defer
        }),
{
    if !same(action, "buy") || !amount_positive {
        Gate::Aside
    } else if !over {
        Gate::Pass
    } else if room {
        Gate::Shrink
    } else {
        Gate::Defer
    }
}

/// A mark on a fund's row for a signal of today.
#[derive(Debug, Clone)]
pub struct GridTodayBadgeOut {
    pub fund_code: String,
    pub signal_name: Option<String>,
    pub action: String,
    pub alert: bool,
}

/// The mark for a stored signal.
pub fn badge(fund_code: String, signal_name: Option<String>, action: String, alert: i64) -> (r: GridTodayBadgeOut)
    ensures
        r == (GridTodayBadgeOut { fund_code, signal_name, action, alert: alert != 0 }),
{
    GridTodayBadgeOut { fund_code, signal_name, action, alert: alert != 0 }
}

} // verus!
