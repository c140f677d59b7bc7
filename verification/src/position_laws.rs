//! Laws of how a position is valued, stated on the fields of the plan and the facts of the fund.
use vstd::prelude::*;
use crate::funds::{benchmark, type_label};
use crate::pick::{law_picked_iff, picked};
use crate::positions::{baseline_known, day_actual, money_or_wealth, note_of, plans, platform_marks, qdii, Baseline, Branch, FundFacts, PositionPlan, Source};
use crate::text::{occurs, trimmed};
use crate::text_laws::law_digits;

verus! {

/// For a fund of any type: a position with shares of its own takes its cost from itself; without
/// shares and with an imported amount, from the amount; the cost is zero only where both are missing.
pub proof fn law_cost_comes_from_shares_then_amount(
    f: FundFacts,
    lower: Seq<char>,
    today: Seq<char>,
    open: bool,
    p: PositionPlan,
)
    requires
        plans(f, lower, today, open, p),
    ensures
        f.shares_positive ==> p.cost_from == Source::Own,
        !f.shares_positive && f.amount_positive ==> p.cost_from == Source::Amount,
        !f.shares_positive && !f.amount_positive ==> p.cost_from == Source::Nothing,
{
}

/// For a fund of any type: shares of its own count; without them an imported amount stands for them
/// where a value per share is known to divide it by; else there are none.
pub proof fn law_shares_come_from_the_position_then_amount(
    f: FundFacts,
    lower: Seq<char>,
    today: Seq<char>,
    open: bool,
    p: PositionPlan,
)
    requires
        plans(f, lower, today, open, p),
    ensures
        f.shares_positive ==> p.shares_from == Source::Own,
        !f.shares_positive && f.amount_positive && f.nav_positive ==> p.shares_from
            == Source::Amount,
        !f.shares_positive && !(f.amount_positive && f.nav_positive) ==> p.shares_from
            == Source::Nothing,
        p.shares_from == Source::Amount ==> p.cost_from == Source::Amount,
        p.cost_from == Source::Nothing ==> p.shares_from == Source::Nothing,
{
}

/// A fund of type `002` or `005`, and no other, is valued as money: by shares where there are shares
/// and a value per share, else by the imported amount, and with nothing to compare the day with.
/// Another fund is valued in full exactly where its code is six digits and it has shares, else by
/// amounts; it compares with the stored value of the day before where there is one, else with that of
/// the history.
pub proof fn law_branch_follows_type_and_code(
    f: FundFacts,
    lower: Seq<char>,
    today: Seq<char>,
    open: bool,
    p: PositionPlan,
)
    requires
        plans(f, lower, today, open, p),
    ensures
        ({
            let money = f.fund_type@ == "002"@ || f.fund_type@ == "005"@;
            let real_code = f.code@.len() == 6 && (forall|i: int|
                0 <= i < f.code@.len() ==> '0' <= (#[trigger] f.code@[i]) && f.code@[i] <= '9')
                && f.eff_shares_positive;
            &&& p.is_money_or_wealth <==> money
            &&& p.has_real_code <==> real_code
            &&& money && f.eff_shares_positive && f.nav_positive ==> p.branch
                == Branch::MoneyByShares
            &&& money && !(f.eff_shares_positive && f.nav_positive) ==> p.branch
                == Branch::MoneyByAmount
            &&& !money && real_code ==> p.branch == Branch::Full
            &&& !money && !real_code ==> p.branch == Branch::Amounts
            &&& money ==> p.baseline == Baseline::Nothing
            &&& !money && f.prev_nav_positive ==> p.baseline == Baseline::Stored
            &&& !money && !f.prev_nav_positive ==> p.baseline == Baseline::History
        }),
{
    law_digits(f.code@, 6);
}

/// The value is of today exactly where its date is today's. Only funds of type `003` bear a note on
/// late settlement, and their estimate is hidden exactly while the market abroad trades.
pub proof fn law_day_and_notes(
    f: FundFacts,
    lower: Seq<char>,
    today: Seq<char>,
    open: bool,
    p: PositionPlan,
)
    requires
        plans(f, lower, today, open, p),
    ensures
        p.day_is_today <==> f.nav_date@ == today,
        p.suppress <==> f.fund_type@ == "003"@ && open,
        f.fund_type@ != "003"@ ==> p.delay_note is None,
        f.fund_type@ == "003"@ && open ==> p.delay_note is Some && p.delay_note->Some_0@
            == "T+1·海外交易中"@,
        f.fund_type@ == "003"@ && !open ==> p.delay_note is Some && p.delay_note->Some_0@
            == "T+1·海外净值"@,
{
}

/// The gain of the day is known from official values exactly for a fund of another type than `002`
/// and `005` with a code of six digits, with shares, with a value per share, and with a value of the
/// day before that is stored or stands in the history.
pub proof fn law_day_actual(f: FundFacts, history_positive: bool)
    ensures
        day_actual(f, history_positive) <==> f.fund_type@ != "002"@ && f.fund_type@ != "005"@
            && f.code@.len() == 6 && (forall|i: int|
            0 <= i < f.code@.len() ==> '0' <= (#[trigger] f.code@[i]) && f.code@[i] <= '9')
            && f.eff_shares_positive && f.nav_positive && (f.prev_nav_positive
            || history_positive),
        baseline_known(f, history_positive) <==> f.fund_type@ != "002"@ && f.fund_type@ != "005"@
            && (f.prev_nav_positive || history_positive),
{
    law_digits(f.code@, 6);
}

/// The types of money funds and of funds abroad, and the names of all types.
pub proof fn law_fund_types(t: Seq<char>)
    ensures
        money_or_wealth(t) <==> t == "002"@ || t == "005"@,
        qdii(t) <==> t == "003"@,
        note_of(t, true) is Some <==> t == "003"@,
        note_of(t, false) is Some <==> t == "003"@,
        t == "001"@ ==> type_label(t) == "股票型"@,
        t == "002"@ ==> type_label(t) == "货币型"@,
        t == "003"@ ==> type_label(t) == "QDII"@,
        t == "004"@ ==> type_label(t) == "债券型"@,
        t == "005"@ ==> type_label(t) == "理财型"@,
        t == "006"@ ==> type_label(t) == "分级"@,
        t == "007"@ ==> type_label(t) == "混合型"@,
        t == "008"@ ==> type_label(t) == "指数型"@,
        t == "009"@ ==> type_label(t) == "ETF联接"@,
        t != "001"@ && t != "002"@ && t != "003"@ && t != "004"@ && t != "005"@ && t != "006"@ && t
            != "007"@ && t != "008"@ && t != "009"@ ==> type_label(t) == "未知"@,
{
    lemma_type_codes_differ();
}

/// The codes of the types differ.
proof fn lemma_type_codes_differ()
    ensures
        "001"@[2] == '1' && "001"@.len() == 3,
        "002"@[2] == '2' && "002"@.len() == 3,
        "003"@[2] == '3' && "003"@.len() == 3,
        "004"@[2] == '4' && "004"@.len() == 3,
        "005"@[2] == '5' && "005"@.len() == 3,
        "006"@[2] == '6' && "006"@.len() == 3,
        "007"@[2] == '7' && "007"@.len() == 3,
        "008"@[2] == '8' && "008"@.len() == 3,
        "009"@[2] == '9' && "009"@.len() == 3,
{
    reveal_strlit("001");
    reveal_strlit("002");
    reveal_strlit("003");
    reveal_strlit("004");
    reveal_strlit("005");
    reveal_strlit("006");
    reveal_strlit("007");
    reveal_strlit("008");
    reveal_strlit("009");
}

/// The positions shown for a platform are those of that platform, all of them and in their order; with
/// no platform chosen they are all positions.
pub proof fn law_positions_of_a_platform(platforms: Seq<String>, chosen: Option<String>, i: int)
    requires
        0 <= i < platforms.len() <= usize::MAX,
    ensures
        chosen is None ==> picked(platform_marks(platforms, chosen)).contains(i as usize),
        chosen is Some ==> (picked(platform_marks(platforms, chosen)).contains(i as usize)
            <==> platforms[i]@ == chosen->Some_0@),
{
    let marks = platform_marks(platforms, chosen);
    law_picked_iff(marks, i);
    assert(marks[i] == (chosen is None || platforms[i]@ == chosen->Some_0@));
}

/// A position follows an index exactly where the plan says that its fund does: the one stored with the
/// fund, white space round it left out, where there is one, else the one it is measured against.
pub proof fn law_position_follows_an_index(
    f: FundFacts,
    lower: Seq<char>,
    today: Seq<char>,
    open: bool,
    p: PositionPlan,
)
    requires
        plans(f, lower, today, open, p),
    ensures
        p.is_index <==> f.fund_type@ == "006"@ || f.fund_type@ == "008"@ || f.fund_type@ == "009"@
            || occurs(lower, "指数"@) || occurs(lower, "etf"@) || occurs(lower, "联接"@) || occurs(
            lower,
            "指数增强"@,
        ),
        p.pure_index <==> p.is_index && !occurs(lower, "指数增强"@),
        p.benchmark@ == benchmark(f.fund_type@, lower).0,
        !p.is_index ==> p.follows is None,
        p.is_index && trimmed(f.track_index@).len() > 0 ==> p.follows is Some && p.follows->Some_0@
            == trimmed(f.track_index@),
        p.is_index && trimmed(f.track_index@).len() == 0 ==> p.follows is Some && p.follows->Some_0@
            == p.benchmark@,
{
}

} // verus!
