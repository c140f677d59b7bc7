//! Laws of the strategy, of changes between reports, of orders and of shares by class, stated on fields,
//! places and numbers.
use vstd::prelude::*;
use crate::changes::{change_keys, change_label, gone_marks, last_place, rank_of, Change};
use crate::grid::{candidate_marks, code_labels, is_agg, is_candidate, left_out, lists_by_cost, platforms_of, refusal, stored_at, FundAgg, FundMeta, HeldRow};
use crate::group::{grouped, in_group, in_some_group, law_grouped_is_partition, Label};
use crate::order::{stable_order_of, Descending, TextUp};
use crate::pick::{law_picked_iff, picked};
use crate::replay::{body_lines, body_of, filled_lines, opens_list, table_marks};
use crate::signals::{digit_codes, rebuy_label, regime_of, settings_after, Regime, SignalKey};
use crate::stats::{asset_labels, platform_labels};
use crate::text::{begins, lemma_lex_irreflexive, lex_lt, occurs, split_seq, trim_left, trimmed, views};
use crate::funds::digits_in;
use crate::json::Doc;

verus! {

// ---------------------------------------------------------------------------
// Funds of the strategy
// ---------------------------------------------------------------------------

/// The strategy leaves out exactly the funds whose type begins with `002` or `005` or says in words that
/// they are money funds or wealth products.
pub proof fn law_left_out_funds(t: Seq<char>, lower: Seq<char>)
    ensures
        left_out(t, lower) <==> {
            ||| t.len() >= 3 && t[0] == '0' && t[1] == '0' && (t[2] == '2' || t[2] == '5')
            ||| occurs(lower, "货币"@)
            ||| occurs(lower, "理财"@)
            ||| occurs(lower, "money"@)
        },
{
    reveal_strlit("002");
    reveal_strlit("005");
    let a = "002"@;
    let b = "005"@;
    assert(a.len() == 3 && a[0] == '0' && a[1] == '0' && a[2] == '2');
    assert(b.len() == 3 && b[0] == '0' && b[1] == '0' && b[2] == '5');
    if t.len() >= 3 {
        let s = t.subrange(0, 3);
        assert(s[0] == t[0] && s[1] == t[1] && s[2] == t[2]);
        if t[0] == '0' && t[1] == '0' && t[2] == '2' {
            assert(s =~= a);
        }
        if t[0] == '0' && t[1] == '0' && t[2] == '5' {
            assert(s =~= b);
        }
    }
}

/// A fund is offered exactly where it is held, is not configured yet and is not left out.
pub proof fn law_offered_funds(
    codes: Seq<Seq<char>>,
    types: Seq<Seq<char>>,
    lowers: Seq<Seq<char>>,
    configured: Seq<Seq<char>>,
    held: Seq<bool>,
    i: int,
)
    requires
        0 <= i < codes.len() <= usize::MAX,
    ensures
        picked(candidate_marks(codes, types, lowers, configured, held)).contains(i as usize) <==> held[i]
            && !configured.contains(codes[i]) && !left_out(types[i], lowers[i]),
{
    let marks = candidate_marks(codes, types, lowers, configured, held);
    law_picked_iff(marks, i);
    assert(marks[i] == is_candidate(codes[i], types[i], lowers[i], configured, held[i]));
}

/// The funds that are offered are listed by what they cost, the dearest first, each once.
pub proof fn law_offered_by_cost(kept: Seq<usize>, costs: Seq<i64>, r: Seq<usize>, i: int, j: int)
    requires
        lists_by_cost(kept, costs, r),
        0 <= i < j < r.len(),
    ensures
        r.len() == kept.len(),
        costs[r[i] as int] >= costs[r[j] as int],
        kept.contains(r[i]),
{
    let p = choose|p: Seq<usize>| #[trigger]
        stable_order_of(crate::grid::cost_keys(kept, costs), p) && r == p.map_values(
            |i: usize| kept[i as int],
        );
    let keys = crate::grid::cost_keys(kept, costs);
    assert(crate::order::precedes(keys, p[i] as int, p[j] as int));
    assert(keys[p[i] as int].key == costs[r[i] as int]);
    assert(keys[p[j] as int].key == costs[r[j] as int]);
    assert(kept[p[i] as int] == r[i]);
}

/// What enabling a fund that is left out is answered with names the fund and its code.
pub proof fn law_refusal(name: Seq<char>, code: Seq<char>)
    ensures
        refusal(name, code) == name + "（"@ + code + "）是货币/理财基金，策略信号不适用"@,
{
}

/// The stored fund of a code is the first with that code.
pub proof fn law_stored_fund(funds: Seq<FundMeta>, code: Seq<char>, from: int, j: int)
    requires
        0 <= from <= j <= funds.len(),
        forall|i: int| from <= i < j ==> (#[trigger] funds[i]).code@ != code,
        j < funds.len() ==> funds[j].code@ == code,
    ensures
        j < funds.len() ==> stored_at(funds, code, from) == Some(j),
        j == funds.len() ==> stored_at(funds, code, from) is None,
    decreases j - from,
{
    if from < j {
        assert(funds[from].code@ != code);
        law_stored_fund(funds, code, from + 1, j);
    }
}

/// What is held of a fund is all positions with its code and none with another, on the platforms that they
/// name, each once; its name and type are the stored ones, else those of its first position.
pub proof fn law_held_of_a_fund(
    rows: Seq<HeldRow>,
    funds: Seq<FundMeta>,
    k: int,
    a: FundAgg,
    i: int,
    j: int,
)
    requires
        0 <= k < grouped(code_labels(rows)).len(),
        is_agg(rows, funds, grouped(code_labels(rows))[k], a),
        0 <= i < rows.len() <= usize::MAX,
        0 <= j <= funds.len(),
        forall|n: int| 0 <= n < j ==> (#[trigger] funds[n]).code@ != a.code@,
        j < funds.len() ==> funds[j].code@ == a.code@,
    ensures
        a.members@.contains(i as usize) <==> rows[i].code@ == a.code@,
        a.members@.len() > 0,
        rows[i].code@ == a.code@ && rows[i].platform@.len() > 0 ==> views(a.platforms@).contains(
            rows[i].platform@,
        ),
        views(a.platforms@).no_duplicates(),
        forall|q: int|
            0 <= q < a.platforms@.len() ==> exists|n: int|
                0 <= n < rows.len() && (#[trigger] rows[n]).code@ == a.code@ && rows[n].platform@ == (
                #[trigger] a.platforms@[q])@,
        j < funds.len() ==> a.stored == Some(j as usize) && a.name@ == funds[j].name@ && a.fund_type@
            == funds[j].fund_type@,
        j == funds.len() ==> a.stored is None && a.name@ == rows[a.members@[0] as int].name@
            && a.fund_type@ == rows[a.members@[0] as int].fund_type@,
{
    let labels = code_labels(rows);
    let gs = grouped(labels);
    law_grouped_is_partition(labels);
    law_stored_fund(funds, a.code@, 0, j);
    let ms = a.members@.map_values(|m: usize| m as int);
    assert(ms == gs[k].members);
    assert(gs[k].members.len() > 0);
    assert(ms[0] == a.members@[0] as int);
    assert(labels[gs[k].members[0]] == gs[k].label);
    assert(in_some_group(gs, i));
    let q = choose|q: int| 0 <= q < gs.len() && #[trigger] in_group(gs[q], i);
    let m = choose|m: int| 0 <= m < gs[q].members.len() && gs[q].members[m] == i;
    assert(labels[gs[q].members[m]] == gs[q].label);
    if rows[i].code@ == a.code@ {
        assert(gs[q].label == gs[k].label);
        if q < k {
            assert(gs[q].label != gs[k].label);
        } else if k < q {
            assert(gs[k].label != gs[q].label);
        }
        assert(ms[m] == i);
        assert(a.members@[m] == i as usize);
        lemma_platform_listed(rows, gs[k].members, m);
    }
    lemma_platforms_once(rows, gs[k].members);
    assert forall|q: int| 0 <= q < a.platforms@.len() implies exists|n: int|
        0 <= n < rows.len() && (#[trigger] rows[n]).code@ == a.code@ && rows[n].platform@ == (
        #[trigger] a.platforms@[q])@ by {
        assert(views(a.platforms@)[q] == a.platforms@[q]@);
        let w = lemma_platform_of_member(rows, gs[k].members, q);
        let n = gs[k].members[w];
        assert(labels[gs[k].members[w]] == gs[k].label);
        assert(rows[n].code@ == a.code@ && rows[n].platform@ == a.platforms@[q]@);
    }
    if a.members@.contains(i as usize) {
        let w = choose|w: int| 0 <= w < a.members@.len() && a.members@[w] == i as usize;
        assert(ms[w] == i);
        assert(labels[gs[k].members[w]] == gs[k].label);
    }
}

proof fn lemma_platform_listed(rows: Seq<HeldRow>, members: Seq<int>, m: int)
    requires
        0 <= m < members.len(),
    ensures
        rows[members[m]].platform@.len() > 0 ==> platforms_of(rows, members).contains(
            rows[members[m]].platform@,
        ),
    decreases members.len(),
{
    let rest = platforms_of(rows, members.drop_last());
    let p = rows[members.last()].platform@;
    let t = rows[members[m]].platform@;
    if m < members.len() - 1 {
        lemma_platform_listed(rows, members.drop_last(), m);
        if t.len() > 0 && p.len() > 0 && !rest.contains(p) {
            let i = choose|i: int| 0 <= i < rest.len() && rest[i] == t;
            assert(rest.push(p)[i] == t);
        }
    } else if p.len() > 0 && !rest.contains(p) {
        assert(rest.push(p)[rest.len() as int] == p);
    }
}

proof fn lemma_platforms_once(rows: Seq<HeldRow>, members: Seq<int>)
    ensures
        platforms_of(rows, members).no_duplicates(),
    decreases members.len(),
{
    if members.len() > 0 {
        lemma_platforms_once(rows, members.drop_last());
    }
}

proof fn lemma_platform_of_member(rows: Seq<HeldRow>, members: Seq<int>, q: int) -> (w: int)
    requires
        0 <= q < platforms_of(rows, members).len(),
    ensures
        0 <= w < members.len(),
        rows[members[w]].platform@ == platforms_of(rows, members)[q],
    decreases members.len(),
{
    let rest = platforms_of(rows, members.drop_last());
    if q < rest.len() {
        let w = lemma_platform_of_member(rows, members.drop_last(), q);
        assert(members.drop_last()[w] == members[w]);
        w
    } else {
        members.len() - 1
    }
}

/// The platforms of a fund are those of its positions that have a name, each once.
pub proof fn law_platforms_of_a_fund(rows: Seq<HeldRow>, members: Seq<int>, n: int)
    ensures
        platforms_of(rows, Seq::empty()).len() == 0,
        rows[n].platform@.len() == 0 ==> platforms_of(rows, members.push(n)) == platforms_of(
            rows,
            members,
        ),
        rows[n].platform@.len() > 0 && platforms_of(rows, members).contains(rows[n].platform@)
            ==> platforms_of(rows, members.push(n)) == platforms_of(rows, members),
        rows[n].platform@.len() > 0 && !platforms_of(rows, members).contains(rows[n].platform@)
            ==> platforms_of(rows, members.push(n)) == platforms_of(rows, members).push(
            rows[n].platform@,
        ),
{
    assert(members.push(n).drop_last() =~= members);
    assert(members.push(n).last() == n);
}

// ---------------------------------------------------------------------------
// Signals
// ---------------------------------------------------------------------------

/// The state of the market is the one set by hand; else, where finding it out is switched off, neutral;
/// else it is found out.
pub proof fn law_state_of_the_market(manual: Option<Seq<char>>, auto: Option<Seq<char>>)
    ensures
        manual == Some("bear"@) ==> regime_of(manual, auto) == Regime::Bear,
        manual == Some("neutral"@) ==> regime_of(manual, auto) == Regime::Neutral,
        manual != Some("bear"@) && manual != Some("neutral"@) && auto == Some("0"@) ==> regime_of(
            manual,
            auto,
        ) == Regime::Neutral,
        manual != Some("bear"@) && manual != Some("neutral"@) && auto != Some("0"@) ==> regime_of(
            manual,
            auto,
        ) == Regime::Auto,
{
    reveal_strlit("bear");
    reveal_strlit("neutral");
    assert("bear"@.len() == 4 && "neutral"@.len() == 7);
}

/// Setting the state by hand stores it and keeps the other setting; setting whether it is found out takes
/// back what was set by hand.
pub proof fn law_settings_of_the_market(
    regime: Seq<char>,
    auto: Option<bool>,
    manual: Option<bool>,
    kept: Option<Seq<char>>,
)
    ensures
        manual == Some(true) && regime == "bear"@ ==> settings_after(regime, auto, manual, kept) == (
            Some("bear"@),
            kept,
        ),
        manual == Some(true) && regime != "bear"@ ==> settings_after(regime, auto, manual, kept) == (
            Some("neutral"@),
            kept,
        ),
        manual != Some(true) && auto == Some(false) ==> settings_after(regime, auto, manual, kept) == (
            None::<Seq<char>>,
            Some("0"@),
        ),
        manual != Some(true) && auto != Some(false) ==> settings_after(regime, auto, manual, kept) == (
            None::<Seq<char>>,
            Some("1"@),
        ),
{
}

/// The order that a signal places bears its name, as a delayed one where it is not called that already.
pub proof fn law_label_of_an_order(signal: Seq<char>)
    ensures
        begins(signal, "延迟回补"@) ==> rebuy_label(signal) == signal,
        !begins(signal, "延迟回补"@) ==> rebuy_label(signal) == "延迟回补("@ + signal + ")"@,
{
}

/// Signals take their turn by priority, the smaller number first, and then by the code of the fund.
pub proof fn law_turns_of_signals(keys: Seq<SignalKey>, p: Seq<usize>, i: int, j: int)
    requires
        stable_order_of(keys, p),
        0 <= i < j < p.len(),
    ensures
        p.len() == keys.len(),
        p[i] < keys.len() && p[j] < keys.len(),
        keys[p[i] as int].priority <= keys[p[j] as int].priority,
        keys[p[i] as int].priority == keys[p[j] as int].priority ==> !lex_lt(
            keys[p[j] as int].code@,
            keys[p[i] as int].code@,
        ),
{
    assert(crate::order::precedes(keys, p[i] as int, p[j] as int));
    let a = keys[p[i] as int];
    let b = keys[p[j] as int];
    if a.priority == b.priority && lex_lt(b.code@, a.code@) && lex_lt(a.code@, b.code@) {
        crate::text::lemma_lex_transitive(a.code@, b.code@, a.code@);
        lemma_lex_irreflexive(a.code@);
    }
}

/// The codes that are asked for are the digits of the stocks' codes, those without a digit left out.
pub proof fn law_codes_asked_for(codes: Seq<String>, c: String)
    ensures
        digit_codes(Seq::empty()).len() == 0,
        digits_in(c@).len() > 0 ==> digit_codes(codes.push(c)) == digit_codes(codes).push(
            digits_in(c@),
        ),
        digits_in(c@).len() == 0 ==> digit_codes(codes.push(c)) == digit_codes(codes),
{
    assert(codes.push(c).drop_last() =~= codes);
    assert(codes.push(c).last() == c);
}

// ---------------------------------------------------------------------------
// Bodies
// ---------------------------------------------------------------------------

/// A text is a list where its first character that is no white space is a square bracket; its body is
/// that of the first row, and any other text is its own body.
pub proof fn law_body_of_a_text(raw: Seq<char>, doc: Option<Doc>)
    ensures
        opens_list(raw) <==> trim_left(raw).len() > 0 && trim_left(raw)[0] == '[',
        opens_list(raw) && doc is Some && doc->Some_0.0.contains_key("/0/body"@) ==> body_of(raw, doc)
            == doc->Some_0.0["/0/body"@],
        !opens_list(raw) || doc is None || !doc->Some_0.0.contains_key("/0/body"@) ==> body_of(raw, doc)
            == raw,
{
    reveal_strlit("[");
    let t = trim_left(raw);
    let p = "["@;
    assert(p.len() == 1 && p[0] == '[');
    if t.len() > 0 {
        assert(t.subrange(0, 1)[0] == t[0]);
        if t[0] == '[' {
            assert(t.subrange(0, 1) =~= p);
        }
    }
}

/// The lines of a body are its pieces between line feeds; the filled ones are those of which something is
/// left without white space, in their order.
pub proof fn law_lines_of_a_body(lines: Seq<Seq<char>>, l: Seq<char>, body: Seq<char>)
    ensures
        body_lines(body) == split_seq(body, "\n"@),
        filled_lines(Seq::empty()).len() == 0,
        trimmed(l).len() > 0 ==> filled_lines(lines.push(l)) == filled_lines(lines).push(trimmed(l)),
        trimmed(l).len() == 0 ==> filled_lines(lines.push(l)) == filled_lines(lines),
{
    assert(lines.push(l).drop_last() =~= lines);
    assert(lines.push(l).last() == l);
}

/// The changes of a table are exactly those that name it; all of them where no table is named.
pub proof fn law_changes_of_a_table(tables: Seq<String>, only: Option<String>, i: int)
    requires
        0 <= i < tables.len() <= usize::MAX,
    ensures
        only is None ==> picked(table_marks(tables, only)).contains(i as usize),
        only is Some ==> (picked(table_marks(tables, only)).contains(i as usize) <==> tables[i]@
            == only->Some_0@),
{
    law_picked_iff(table_marks(tables, only), i);
    assert(table_marks(tables, only)[i] == (only is None || tables[i]@ == only->Some_0@));
}

// ---------------------------------------------------------------------------
// Changes between reports
// ---------------------------------------------------------------------------

/// A stock is compared with the last row of the report before that has its code, and is new where none
/// has.
pub proof fn law_last_row_counts(v: Seq<Seq<char>>, code: Seq<char>, n: int, j: int)
    requires
        -1 <= j < n <= v.len() || (j == -1 && n == 0),
        forall|i: int| j < i < n ==> (#[trigger] v[i]) != code,
        j >= 0 ==> v[j] == code,
    ensures
        j >= 0 ==> last_place(v, code, n) == Some(j),
        j == -1 ==> last_place(v, code, n) is None,
    decreases n,
{
    if n > 0 && j < n - 1 {
        assert(v[n - 1] != code);
        law_last_row_counts(v, code, n - 1, j);
    }
}

/// A row of the report before is an exit exactly where no row of the new one has its code and no later
/// row of the old one has.
pub proof fn law_exits(curr: Seq<Seq<char>>, prev: Seq<Seq<char>>, i: int)
    requires
        0 <= i < prev.len() <= usize::MAX,
    ensures
        picked(gone_marks(curr, prev)).contains(i as usize) <==> {
            &&& forall|j: int| 0 <= j < curr.len() ==> (#[trigger] curr[j]) != prev[i]
            &&& forall|j: int| i < j < prev.len() ==> (#[trigger] prev[j]) != prev[i]
        },
{
    law_picked_iff(gone_marks(curr, prev), i);
    assert(curr.contains(prev[i]) <==> exists|j: int| 0 <= j < curr.len() && (#[trigger] curr[j]) == prev[i]);
    lemma_last_place(prev, prev[i], prev.len() as int);
    if forall|j: int| i < j < prev.len() ==> (#[trigger] prev[j]) != prev[i] {
        law_last_row_counts(prev, prev[i], prev.len() as int, i);
    }
}

proof fn lemma_last_place(v: Seq<Seq<char>>, code: Seq<char>, n: int)
    requires
        0 <= n <= v.len(),
    ensures
        last_place(v, code, n) matches Some(k) ==> 0 <= k < n && v[k] == code && forall|j: int|
            k < j < n ==> (#[trigger] v[j]) != code,
    decreases n,
{
    if n > 0 {
        lemma_last_place(v, code, n - 1);
    }
}

/// The kinds of changes bear their names and come in this order: new, increased, decreased, gone, level.
pub proof fn law_kinds_of_changes(c: Change)
    ensures
        change_label(Change::New) == "new"@ && rank_of(Change::New) == 0,
        change_label(Change::Increase) == "increase"@ && rank_of(Change::Increase) == 1,
        change_label(Change::Decrease) == "decrease"@ && rank_of(Change::Decrease) == 2,
        change_label(Change::Exit) == "exit"@ && rank_of(Change::Exit) == 3,
        change_label(Change::Flat) == "flat"@ && rank_of(Change::Flat) == 4,
        rank_of(Change::New) < rank_of(Change::Increase) < rank_of(Change::Decrease) < rank_of(
            Change::Exit,
        ) < rank_of(Change::Flat),
{
}

/// Changes are shown by their kind, and those of one kind by their size, the largest first.
pub proof fn law_order_of_changes(
    kinds: Seq<Change>,
    sizes: Seq<i64>,
    p: Seq<usize>,
    i: int,
    j: int,
)
    requires
        sizes.len() == kinds.len(),
        stable_order_of(change_keys(kinds, sizes), p),
        0 <= i < j < p.len(),
    ensures
        p.len() == kinds.len(),
        p[i] < kinds.len() && p[j] < kinds.len(),
        kinds[p[i] as int] == kinds[p[j] as int] ==> sizes[p[i] as int] >= sizes[p[j] as int],
        kinds[p[j] as int] == Change::New ==> kinds[p[i] as int] == Change::New,
        kinds[p[i] as int] == Change::Flat ==> kinds[p[j] as int] == Change::Flat,
        kinds[p[j] as int] == Change::Increase ==> kinds[p[i] as int] == Change::New || kinds[p[i] as int]
            == Change::Increase,
        kinds[p[i] as int] == Change::Exit ==> kinds[p[j] as int] == Change::Exit || kinds[p[j] as int]
            == Change::Flat,
{
    let keys = change_keys(kinds, sizes);
    assert(crate::order::precedes(keys, p[i] as int, p[j] as int));
    assert(keys[p[i] as int].change == kinds[p[i] as int] && keys[p[i] as int].size
        == sizes[p[i] as int]);
    assert(keys[p[j] as int].change == kinds[p[j] as int] && keys[p[j] as int].size
        == sizes[p[j] as int]);
}

// ---------------------------------------------------------------------------
// Orders and classes
// ---------------------------------------------------------------------------

/// Records ordered by a number stand with the largest first, and records of one number as they stood.
pub proof fn law_largest_first(worth: Seq<i64>, p: Seq<usize>, i: int, j: int)
    requires
        stable_order_of(worth.map_values(|k: i64| (Descending { key: k })), p),
        0 <= i < j < p.len(),
    ensures
        p.len() == worth.len(),
        p.no_duplicates(),
        p[i] < worth.len() && p[j] < worth.len(),
        worth[p[i] as int] > worth[p[j] as int] || (worth[p[i] as int] == worth[p[j] as int] && p[i]
            < p[j]),
{
    let keys = worth.map_values(|k: i64| (Descending { key: k }));
    assert(crate::order::precedes(keys, p[i] as int, p[j] as int));
}

/// Records ordered by a text stand with the smallest first, and records of one text as they stood.
pub proof fn law_smallest_text_first(keys: Seq<TextUp>, p: Seq<usize>, i: int, j: int)
    requires
        stable_order_of(keys, p),
        0 <= i < j < p.len(),
    ensures
        p.len() == keys.len(),
        p.no_duplicates(),
        lex_lt(keys[p[i] as int].text@, keys[p[j] as int].text@) || (keys[p[i] as int].text@
            == keys[p[j] as int].text@ && p[i] < p[j]),
{
    assert(crate::order::precedes(keys, p[i] as int, p[j] as int));
    crate::text::lemma_lex_total(keys[p[i] as int].text@, keys[p[j] as int].text@);
}

/// Two positions count for one platform exactly where their platforms are one; and for one class of assets
/// exactly where their types are of one class.
pub proof fn law_classes_of_positions(
    platforms: Seq<String>,
    types: Seq<String>,
    k: int,
    i: int,
    j: int,
)
    requires
        platforms.len() == types.len(),
        0 <= i < platforms.len(),
        0 <= j < platforms.len(),
    ensures
        ({
            let gs = grouped(platform_labels(platforms));
            0 <= k < gs.len() && gs[k].members.contains(i) ==> gs[k].label.0 == platforms[i]@ && (
            gs[k].members.contains(j) <==> platforms[i]@ == platforms[j]@)
        }),
        ({
            let gs = grouped(asset_labels(types));
            0 <= k < gs.len() && gs[k].members.contains(i) ==> gs[k].label.0 == crate::funds::category(
                types[i]@,
            ) && (gs[k].members.contains(j) <==> crate::funds::category(types[i]@)
                == crate::funds::category(types[j]@))
        }),
{
    let a = platform_labels(platforms);
    let b = asset_labels(types);
    if 0 <= k < grouped(a).len() && grouped(a)[k].members.contains(i) {
        lemma_same_group(a, k, i, j);
        assert(a[i].0 == platforms[i]@ && a[j].0 == platforms[j]@);
        if platforms[i]@ == platforms[j]@ {
            assert(a[i] == a[j]);
        }
    }
    if 0 <= k < grouped(b).len() && grouped(b)[k].members.contains(i) {
        lemma_same_group(b, k, i, j);
        assert(b[i].0 == crate::funds::category(types[i]@));
        if crate::funds::category(types[i]@) == crate::funds::category(types[j]@) {
            assert(b[i] == b[j]);
        }
    }
}

/// Two records are in one group exactly where their labels are equal.
pub proof fn lemma_same_group(labels: Seq<Label>, k: int, i: int, j: int)
    requires
        0 <= k < grouped(labels).len(),
        0 <= j < labels.len(),
        grouped(labels)[k].members.contains(i),
    ensures
        0 <= i < labels.len(),
        labels[i] == grouped(labels)[k].label,
        grouped(labels)[k].members.contains(j) <==> labels[i] == labels[j],
{
    let gs = grouped(labels);
    law_grouped_is_partition(labels);
    let m = choose|m: int| 0 <= m < gs[k].members.len() && gs[k].members[m] == i;
    assert(labels[gs[k].members[m]] == gs[k].label);
    assert(in_some_group(gs, j));
    let q = choose|q: int| 0 <= q < gs.len() && #[trigger] in_group(gs[q], j);
    let w = choose|w: int| 0 <= w < gs[q].members.len() && gs[q].members[w] == j;
    assert(labels[gs[q].members[w]] == gs[q].label);
    if q < k {
        assert(gs[q].label != gs[k].label);
    } else if k < q {
        assert(gs[k].label != gs[q].label);
    }
    if gs[k].members.contains(j) {
        let v = choose|v: int| 0 <= v < gs[k].members.len() && gs[k].members[v] == j;
        assert(labels[gs[k].members[v]] == gs[k].label);
    }
}

} // verus!
