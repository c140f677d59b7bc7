//! Signals of the grid strategy: which funds take part, what they are given, and what follows.
//!
//! The strategy's own figures are fractions and are worked out by the caller.
use vstd::prelude::*;
use crate::funds::{lowercase, lowercase_of};
use crate::group::{group_by, group_views, grouped, is_partition, label_views, law_grouped_is_partition, Group, GroupView, Label};
use crate::positions::by_worth;
use crate::order::{stable_order_of, Descending};
use crate::pick::{pick, picked};
use crate::symbols::{in_list, push_new, with_new};
use crate::text::{all_digits, begins, contains, digit, occurs, occurs_at, same, starts_with, views};

verus! {

// ---------------------------------------------------------------------------
// Funds
// ---------------------------------------------------------------------------

/// The type is the code of money market funds or of wealth products.
pub open spec fn money_code(fund_type: Seq<char>) -> bool {
    begins(fund_type, "002"@) || begins(fund_type, "005"@)
}

/// The type, in lower case, says in words that a fund is a money market fund or a wealth product.
pub open spec fn money_words(lower: Seq<char>) -> bool {
    occurs(lower, "货币"@) || occurs(lower, "理财"@) || occurs(lower, "money"@)
}

/// A fund that the strategy leaves out, by its type and its type in lower case: a money market fund or
/// a wealth product.
pub open spec fn left_out(fund_type: Seq<char>, lower: Seq<char>) -> bool {
    money_code(fund_type) || money_words(lower)
}

/// Whether the strategy leaves a fund out, by its type and its type in lower case.
pub fn is_left_out(fund_type: &str, lower: &str) -> (r: bool)
    ensures
        r == left_out(fund_type@, lower@),
{
    starts_with(fund_type, "002") || starts_with(fund_type, "005") || contains(lower, "货币")
        || contains(lower, "理财") || contains(lower, "money")
}

/// No word stands in a type that is made of digits.
proof fn lemma_digits_hold_no_words(fund_type: Seq<char>)
    requires
        all_digits(fund_type),
    ensures
        !money_words(fund_type),
{
    reveal_strlit("货币");
    reveal_strlit("理财");
    reveal_strlit("money");
    assert forall|i: int, w: Seq<char>|
        w.len() > 0 && !digit(w[0]) implies !#[trigger] occurs_at(fund_type, w, i) by {
        if occurs_at(fund_type, w, i) {
            assert(fund_type.subrange(i, i + w.len())[0] == fund_type[i]);
        }
    }
}

/// Whether the strategy leaves a fund out. Its type alone decides, whatever its own code; of a type
/// that is itself a code of digits, its beginning does.
pub fn is_money_fund(fund_type: &str, code: &str) -> (r: bool)
    ensures
        r == left_out(fund_type@, lowercase_of(fund_type@)),
        all_digits(fund_type@) ==> r == money_code(fund_type@),
{
    let lower = lowercase(fund_type);
    proof {
        if all_digits(fund_type@) {
            lemma_digits_hold_no_words(fund_type@);
        }
    }
    is_left_out(fund_type, lower.as_str())
}

/// A position, as far as the strategy goes.
pub struct HeldRow {
    pub code: String,
    pub name: String,
    pub fund_type: String,
    pub platform: String,
}

/// A fund as it is stored.
pub struct FundMeta {
    pub code: String,
    pub name: String,
    pub fund_type: String,
}

/// A fund that is held, on however many platforms.
pub struct FundAgg {
    pub code: String,
    pub name: String,
    pub fund_type: String,
    /// The stored fund, where there is one; its value counts then, else that of the first position.
    pub stored: Option<usize>,
    /// Its positions.
    pub members: Vec<usize>,
    /// The platforms it is held on, each once, without nameless ones.
    pub platforms: Vec<String>,
}

/// The first stored fund with a code, from a position on.
pub open spec fn stored_at(funds: Seq<FundMeta>, code: Seq<char>, from: int) -> Option<int>
    decreases funds.len() - from,
{
    if from >= funds.len() || from < 0 {
        None
    } else if funds[from].code@ == code {
        Some(from)
    } else {
        stored_at(funds, code, from + 1)
    }
}

/// The platforms of some positions, each once, without nameless ones.
pub open spec fn platforms_of(rows: Seq<HeldRow>, members: Seq<int>) -> Seq<Seq<char>>
    decreases members.len(),
{
    if members.len() == 0 {
        Seq::empty()
    } else {
        let rest = platforms_of(rows, members.drop_last());
        let p = rows[members.last()].platform@;
        if p.len() == 0 {
            rest
        } else {
            with_new(rest, p)
        }
    }
}

/// The labels of positions: their codes.
pub open spec fn code_labels(rows: Seq<HeldRow>) -> Seq<Label> {
    rows.map_values(|h: HeldRow| (h.code@, Seq::<char>::empty()))
}

/// `a` is what is held of a group of positions.
pub open spec fn is_agg(rows: Seq<HeldRow>, funds: Seq<FundMeta>, g: GroupView, a: FundAgg) -> bool {
    &&& a.code@ == g.label.0
    &&& a.members@.map_values(|m: usize| m as int) == g.members
    &&& views(a.platforms@) == platforms_of(rows, g.members)
    &&& match stored_at(funds, g.label.0, 0) {
        Some(i) => {
            &&& a.stored is Some
            &&& a.stored->Some_0 == i
            &&& a.name@ == funds[i].name@
            &&& a.fund_type@ == funds[i].fund_type@
        },
        None => {
            &&& a.stored is None
            &&& a.name@ == rows[g.members[0]].name@
            &&& a.fund_type@ == rows[g.members[0]].fund_type@
        },
    }
}

/// The first stored fund with a code.
fn find_stored(funds: &Vec<FundMeta>, code: &str) -> (r: Option<usize>)
    ensures
        match r {
            Some(i) => i < funds@.len() && stored_at(funds@, code@, 0) == Some(i as int),
            None => stored_at(funds@, code@, 0) is None,
        },
{
    let mut i: usize = 0;
    while i < funds.len()
        invariant
            i <= funds@.len(),
            stored_at(funds@, code@, 0) == stored_at(funds@, code@, i as int),
        decreases funds@.len() - i,
    {
        if same(funds[i].code.as_str(), code) {
            return Some(i);
        }
        i += 1;
    }
    None
}

/// What is held of one group of positions.
fn aggregate(rows: &Vec<HeldRow>, funds: &Vec<FundMeta>, g: &Group) -> (a: FundAgg)
    requires
        g.members@.len() > 0,
        forall|k: int| 0 <= k < g.members@.len() ==> (#[trigger] g.members@[k]) < rows@.len(),
    ensures
        is_agg(rows@, funds@, g@, a),
{
    let ghost gm = g@.members;
    let mut platforms: Vec<String> = Vec::new();
    let mut members: Vec<usize> = Vec::new();
    let mut i: usize = 0;
    assert(gm.take(0) =~= Seq::<int>::empty());
    assert(views(platforms@) =~= platforms_of(rows@, gm.take(0)));
    while i < g.members.len()
        invariant
            gm == g@.members,
            forall|k: int| 0 <= k < g.members@.len() ==> (#[trigger] g.members@[k]) < rows@.len(),
            i <= g.members@.len(),
            members@ == g.members@.take(i as int),
            views(platforms@) == platforms_of(rows@, gm.take(i as int)),
        decreases g.members@.len() - i,
    {
        proof {
            assert(gm.take(i + 1).drop_last() =~= gm.take(i as int));
            assert(gm.take(i + 1).last() == g.members@[i as int]);
            assert(g.members@.take(i + 1) =~= g.members@.take(i as int).push(g.members@[i as int]));
        }
        let m = g.members[i];
        if !rows[m].platform.as_str().is_empty() {
            push_new(&mut platforms, rows[m].platform.clone());
        }
        members.push(m);
        i += 1;
    }
    proof {
        assert(gm.take(gm.len() as int) =~= gm);
        assert(members@ =~= g.members@);
    }
    let stored = find_stored(funds, g.label.0.as_str());
    let (name, fund_type) = match stored {
        Some(i) => (funds[i].name.clone(), funds[i].fund_type.clone()),
        None => {
            let first = g.members[0];
            (rows[first].name.clone(), rows[first].fund_type.clone())
        },
    };
    FundAgg { code: g.label.0.clone(), name, fund_type, stored, members, platforms }
}

/// What is held of each fund: positions on several platforms are taken together.
pub fn aggregate_by_code(rows: &Vec<HeldRow>, funds: &Vec<FundMeta>) -> (r: Vec<FundAgg>)
    ensures
        r@.len() == grouped(code_labels(rows@)).len(),
        forall|i: int|
            0 <= i < r@.len() ==> is_agg(
                rows@,
                funds@,
                grouped(code_labels(rows@))[i],
                #[trigger] r@[i],
            ),
{
    let mut labels: Vec<(String, String)> = Vec::new();
    let mut i: usize = 0;
    while i < rows.len()
        invariant
            i <= rows@.len(),
            labels@.len() == i,
            forall|k: int|
                0 <= k < i ==> ((#[trigger] labels@[k]).0@, labels@[k].1@) == code_labels(rows@)[k],
        decreases rows@.len() - i,
    {
        let none = String::new();
        assert(none@ =~= Seq::<char>::empty());
        labels.push((rows[i].code.clone(), none));
        i += 1;
    }
    assert(label_views(labels@) =~= code_labels(rows@));
    let groups = group_by(&labels);
    let ghost gs = grouped(code_labels(rows@));
    proof {
        law_grouped_is_partition(code_labels(rows@));
        assert(group_views(groups@) == gs);
    }
    let mut r: Vec<FundAgg> = Vec::new();
    let mut j: usize = 0;
    while j < groups.len()
        invariant
            gs == grouped(code_labels(rows@)),
            group_views(groups@) == gs,
            is_partition(code_labels(rows@), gs),
            j <= groups@.len(),
            r@.len() == j,
            forall|k: int|
                0 <= k < j ==> is_agg(rows@, funds@, gs[k], #[trigger] r@[k]),
        decreases groups@.len() - j,
    {
        assert(groups@[j as int]@ == gs[j as int]);
        proof {
            lemma_members_in_range(code_labels(rows@), gs, j as int);
            let g = groups@[j as int];
            assert(g.members@.len() == g@.members.len());
            assert forall|k: int| 0 <= k < g.members@.len() implies (#[trigger] g.members@[k])
                < rows@.len() by {
                assert(g@.members[k] == g.members@[k]);
            }
        }
        r.push(aggregate(rows, funds, &groups[j]));
        j += 1;
    }
    r
}

/// A group has members, and each of them is a record.
proof fn lemma_members_in_range(labels: Seq<Label>, gs: Seq<GroupView>, j: int)
    requires
        gs == grouped(labels),
        is_partition(labels, gs),
        0 <= j < gs.len(),
    ensures
        gs[j].members.len() > 0,
        forall|k: int| 0 <= k < gs[j].members.len() ==> 0 <= #[trigger] gs[j].members[k] < labels.len(),
{
}

// ---------------------------------------------------------------------------
// Configuration
// ---------------------------------------------------------------------------

/// A held fund that is not configured but can be: it is none that the strategy leaves out, and some of
/// it is held.
pub open spec fn is_candidate(
    code: Seq<char>,
    fund_type: Seq<char>,
    lower: Seq<char>,
    configured: Seq<Seq<char>>,
    shares_positive: bool,
) -> bool {
    !configured.contains(code) && !left_out(fund_type, lower) && shares_positive
}

/// Which held funds can be configured. `lowers` holds their types in lower case.
pub open spec fn candidate_marks(
    codes: Seq<Seq<char>>,
    types: Seq<Seq<char>>,
    lowers: Seq<Seq<char>>,
    configured: Seq<Seq<char>>,
    held: Seq<bool>,
) -> Seq<bool> {
    Seq::new(codes.len(), |i: int| is_candidate(codes[i], types[i], lowers[i], configured, held[i]))
}

/// The held funds that can be configured. `lowers` holds their types in lower case, `held` says of
/// each whether its shares are above zero.
pub fn candidates_by(
    codes: &Vec<String>,
    types: &Vec<String>,
    lowers: &Vec<String>,
    configured: &Vec<String>,
    held: &Vec<bool>,
) -> (r: Vec<usize>)
    requires
        types@.len() == codes@.len(),
        lowers@.len() == codes@.len(),
        held@.len() == codes@.len(),
    ensures
        r@ == picked(
            candidate_marks(
                views(codes@),
                views(types@),
                views(lowers@),
                views(configured@),
                held@,
            ),
        ),
{
    let ghost want = candidate_marks(
        views(codes@),
        views(types@),
        views(lowers@),
        views(configured@),
        held@,
    );
    let mut marks: Vec<bool> = Vec::new();
    let mut i: usize = 0;
    while i < codes.len()
        invariant
            types@.len() == codes@.len(),
            lowers@.len() == codes@.len(),
            held@.len() == codes@.len(),
            want == candidate_marks(
                views(codes@),
                views(types@),
                views(lowers@),
                views(configured@),
                held@,
            ),
            i <= codes@.len(),
            marks@.len() == i,
            forall|k: int| 0 <= k < i ==> #[trigger] marks@[k] == want[k],
        decreases codes@.len() - i,
    {
        assert(views(codes@)[i as int] == codes@[i as int]@);
        assert(views(types@)[i as int] == types@[i as int]@);
        assert(views(lowers@)[i as int] == lowers@[i as int]@);
        let m = !in_list(configured, codes[i].as_str()) && !is_left_out(
            types[i].as_str(),
            lowers[i].as_str(),
        ) && held[i];
        marks.push(m);
        i += 1;
    }
    assert(marks@ =~= want);
    pick(&marks)
}

/// The types of held funds.
pub open spec fn agg_types(aggs: Seq<FundAgg>) -> Seq<Seq<char>> {
    aggs.map_values(|a: FundAgg| a.fund_type@)
}

/// The types of funds in lower case.
pub open spec fn lower_types(aggs: Seq<FundAgg>) -> Seq<Seq<char>> {
    aggs.map_values(|a: FundAgg| lowercase_of(a.fund_type@))
}

/// The codes of held funds.
pub open spec fn agg_codes(aggs: Seq<FundAgg>) -> Seq<Seq<char>> {
    aggs.map_values(|a: FundAgg| a.code@)
}

/// The costs of some funds as keys of the order.
pub open spec fn cost_keys(kept: Seq<usize>, costs: Seq<i64>) -> Seq<Descending> {
    kept.map_values(|n: usize| (Descending { key: costs[n as int] }))
}

/// `r` lists some funds by their costs, the largest first.
pub open spec fn lists_by_cost(kept: Seq<usize>, costs: Seq<i64>, r: Seq<usize>) -> bool {
    exists|p: Seq<usize>| #[trigger]
        stable_order_of(cost_keys(kept, costs), p) && r == p.map_values(|i: usize| kept[i as int])
}

/// The held funds that can be configured, those of the largest cost first. `costs` holds a number for
/// each held fund that orders it by its cost.
pub fn candidates(aggs: &Vec<FundAgg>, configured: &Vec<String>, held: &Vec<bool>, costs: &Vec<i64>) -> (r: Vec<
    usize,
>)
    requires
        held@.len() == aggs@.len(),
        costs@.len() == aggs@.len(),
    ensures
        lists_by_cost(
            picked(
                candidate_marks(
                    agg_codes(aggs@),
                    agg_types(aggs@),
                    lower_types(aggs@),
                    views(configured@),
                    held@,
                ),
            ),
            costs@,
            r@,
        ),
{
    let mut codes: Vec<String> = Vec::new();
    let mut types: Vec<String> = Vec::new();
    let mut lowers: Vec<String> = Vec::new();
    let mut i: usize = 0;
    while i < aggs.len()
        invariant
            i <= aggs@.len(),
            codes@.len() == i,
            types@.len() == i,
            lowers@.len() == i,
            forall|k: int| 0 <= k < i ==> (#[trigger] codes@[k])@ == aggs@[k].code@,
            forall|k: int| 0 <= k < i ==> (#[trigger] types@[k])@ == aggs@[k].fund_type@,
            forall|k: int|
                0 <= k < i ==> (#[trigger] lowers@[k])@ == lowercase_of(aggs@[k].fund_type@),
        decreases aggs@.len() - i,
    {
        codes.push(aggs[i].code.clone());
        types.push(aggs[i].fund_type.clone());
        lowers.push(lowercase(aggs[i].fund_type.as_str()));
        i += 1;
    }
    proof {
        assert(views(codes@) =~= agg_codes(aggs@));
        assert(views(types@) =~= agg_types(aggs@));
        assert(views(lowers@) =~= lower_types(aggs@));
    }
    let kept = candidates_by(&codes, &types, &lowers, configured, held);
    let ghost marks = candidate_marks(
        agg_codes(aggs@),
        agg_types(aggs@),
        lower_types(aggs@),
        views(configured@),
        held@,
    );
    proof {
        assert(marks.len() == aggs.len());
        crate::pick::law_picked(marks);
    }
    let mut worth: Vec<i64> = Vec::new();
    let mut j: usize = 0;
    while j < kept.len()
        invariant
            costs@.len() == aggs@.len(),
            forall|k: int| 0 <= k < kept@.len() ==> (#[trigger] kept@[k]) < aggs@.len(),
            j <= kept@.len(),
            worth@.len() == j,
            forall|k: int| 0 <= k < j ==> #[trigger] worth@[k] == costs@[kept@[k] as int],
        decreases kept@.len() - j,
    {
        worth.push(costs[kept[j]]);
        j += 1;
    }
    let p = by_worth(&worth);
    let ghost keys = cost_keys(kept@, costs@);
    proof {
        assert(worth@.map_values(|k: i64| (Descending { key: k })) =~= keys);
        assert(stable_order_of(keys, p@));
    }
    let mut r: Vec<usize> = Vec::new();
    let mut n: usize = 0;
    while n < p.len()
        invariant
            stable_order_of(keys, p@),
            keys.len() == kept@.len(),
            n <= p@.len(),
            r@.len() == n,
            forall|k: int| 0 <= k < n ==> #[trigger] r@[k] == kept@[p@[k] as int],
        decreases p@.len() - n,
    {
        r.push(kept[p[n]]);
        n += 1;
    }
    assert(r@ =~= p@.map_values(|i: usize| kept@[i as int]));
    r
}

/// What enabling a fund that the strategy leaves out is answered with.
pub open spec fn refusal(name: Seq<char>, code: Seq<char>) -> Seq<char> {
    name + "（"@ + code + "）是货币/理财基金，策略信号不适用"@
}

/// Whether a fund can be enabled; `stored` is the fund's name, its type and its type in lower case,
/// where it is stored. A fund can always be disabled.
pub fn check_enable(code: &str, enabled: bool, stored: &Option<(String, String, String)>) -> (r: Result<
    (),
    String,
>)
    ensures
        ({
            let refused = enabled && stored is Some && left_out(
                stored->Some_0.1@,
                stored->Some_0.2@,
            );
            match r {
                Ok(_) => !refused,
                Err(m) => refused && m@ == refusal(stored->Some_0.0@, code@),
            }
        }),
{
    if enabled {
        match stored {
            Some(f) => {
                if is_left_out(f.1.as_str(), f.2.as_str()) {
                    let mut m = f.0.clone();
                    m.append("（");
                    m.append(code);
                    m.append("）是货币/理财基金，策略信号不适用");
                    return Err(m);
                }
            },
            None => {},
        }
    }
    Ok(())
}

/// Whether a fund can be enabled; `stored` is the fund's name and type, where it is stored. A fund can
/// always be disabled.
pub fn grid_enable_fund(fund_code: &str, enabled: bool, stored: &Option<(String, String)>) -> (r: Result<
    (),
    String,
>)
    ensures
        ({
            let refused = enabled && stored is Some && left_out(
                stored->Some_0.1@,
                lowercase_of(stored->Some_0.1@),
            );
            match r {
                Ok(_) => !refused,
                Err(m) => refused && m@ == refusal(stored->Some_0.0@, fund_code@),
            }
        }),
        stored is Some && all_digits(stored->Some_0.1@) ==> (r is Err) == (enabled && money_code(
            stored->Some_0.1@,
        )),
{
    proof {
        if stored is Some && all_digits(stored->Some_0.1@) {
            lemma_digits_hold_no_words(stored->Some_0.1@);
        }
    }
    let lowered = match stored {
        Some(f) => Some((f.0.clone(), f.1.clone(), lowercase(f.1.as_str()))),
        None => None,
    };
    check_enable(fund_code, enabled, &lowered)
}

/// What settings out of range are answered with, the first of them.
pub fn check_settings(sensitivity_out: bool, fee_out: bool) -> (r: Result<(), String>)
    ensures
        match r {
            Ok(_) => !sensitivity_out && !fee_out,
            Err(m) => (sensitivity_out && m@ == "vol_sensitivity 须在 0.3 ~ 3.0 之间"@) || (
            !sensitivity_out && fee_out && m@ == "卖出费率须在 0 ~ 2% 之间"@),
        },
{
    if sensitivity_out {
        Err("vol_sensitivity 须在 0.3 ~ 3.0 之间".to_owned())
    } else if fee_out {
        Err("卖出费率须在 0 ~ 2% 之间".to_owned())
    } else {
        Ok(())
    }
}

/// No fund that the strategy leaves out is ever offered, and none that is configured already.
pub proof fn law_candidates_can_be_enabled(
    codes: Seq<Seq<char>>,
    types: Seq<Seq<char>>,
    lowers: Seq<Seq<char>>,
    configured: Seq<Seq<char>>,
    held: Seq<bool>,
    k: int,
)
    requires
        codes.len() <= usize::MAX,
        0 <= k < picked(candidate_marks(codes, types, lowers, configured, held)).len(),
    ensures
        ({
            let n = picked(candidate_marks(codes, types, lowers, configured, held))[k] as int;
            !left_out(types[n], lowers[n]) && !configured.contains(codes[n]) && held[n]
        }),
{
    crate::pick::law_picked(candidate_marks(codes, types, lowers, configured, held));
}

} // verus!
