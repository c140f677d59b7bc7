//! Laws of the ledger, stated on the fields of its transactions.
use vstd::prelude::*;
use crate::group::{grouped, in_group, in_some_group, law_grouped_is_partition};
use crate::ledger::{cost_effect_of, effect_of, fund_labels, fund_rows, is_opening, marked, of_batch, replays, twin_from, CostEffect, Effect, LedgerEntry, LedgerRow, Shares};
use crate::order::lemma_lists_all_has;
use crate::pick::{law_picked_iff, picked};
use crate::text::{lemma_lex_irreflexive, lemma_lex_transitive, lex_lt};

verus! {

/// The transaction that an imported one brings up to date came from an import itself, is of the same
/// fund, platform, type, date and time, and has an amount as good as equal; no earlier one is like
/// that, and where none is found, none is at all.
pub proof fn law_twin_agrees_in_every_field(
    entries: Seq<LedgerEntry>,
    close: Seq<bool>,
    f: LedgerEntry,
    j: int,
)
    requires
        close.len() == entries.len(),
    ensures
        ({
            let r = twin_from(entries, close, f, 0);
            let end = if r is Some {
                r->Some_0
            } else {
                entries.len() as int
            };
            &&& r matches Some(i) ==> {
                let e = entries[i];
                &&& 0 <= i < entries.len()
                &&& close[i]
                &&& e.source@ == "import_txn"@
                &&& e.fund_code is Some && f.fund_code is Some
                &&& e.fund_code->Some_0@ == f.fund_code->Some_0@
                &&& e.platform@ == f.platform@
                &&& e.txn_type@ == f.txn_type@
                &&& e.date@ == f.date@
                &&& e.time@ == f.time@
            }
            &&& 0 <= j < end && close[j] && entries[j].source@ == "import_txn"@
                && entries[j].fund_code is Some && f.fund_code is Some && entries[j].fund_code->Some_0@
                == f.fund_code->Some_0@ && entries[j].platform@ == f.platform@
                && entries[j].txn_type@ == f.txn_type@ && entries[j].date@ == f.date@ ==> entries[j].time@
                != f.time@
        }),
{
    lemma_twin(entries, close, f, 0, j);
}

proof fn lemma_twin(entries: Seq<LedgerEntry>, close: Seq<bool>, f: LedgerEntry, from: int, j: int)
    requires
        close.len() == entries.len(),
        0 <= from <= entries.len(),
    ensures
        ({
            let r = twin_from(entries, close, f, from);
            let end = if r is Some {
                r->Some_0
            } else {
                entries.len() as int
            };
            &&& r matches Some(i) ==> {
                let e = entries[i];
                &&& from <= i < entries.len()
                &&& close[i]
                &&& e.source@ == "import_txn"@
                &&& e.fund_code is Some && f.fund_code is Some
                &&& e.fund_code->Some_0@ == f.fund_code->Some_0@
                &&& e.platform@ == f.platform@
                &&& e.txn_type@ == f.txn_type@
                &&& e.date@ == f.date@
                &&& e.time@ == f.time@
            }
            &&& from <= j < end && close[j] && entries[j].source@ == "import_txn"@
                && entries[j].fund_code is Some && f.fund_code is Some && entries[j].fund_code->Some_0@
                == f.fund_code->Some_0@ && entries[j].platform@ == f.platform@
                && entries[j].txn_type@ == f.txn_type@ && entries[j].date@ == f.date@ ==> entries[j].time@
                != f.time@
        }),
    decreases entries.len() - from,
{
    if from < entries.len() {
        lemma_twin(entries, close, f, from + 1, j);
    }
}

/// Two transactions of different dates, times, platforms, types or funds are never taken for one.
pub proof fn law_different_transactions_are_never_matched(
    entries: Seq<LedgerEntry>,
    close: Seq<bool>,
    f: LedgerEntry,
    i: int,
)
    requires
        close.len() == entries.len(),
        0 <= i < entries.len(),
        entries[i].date@ != f.date@ || entries[i].time@ != f.time@ || entries[i].platform@
            != f.platform@ || entries[i].txn_type@ != f.txn_type@ || entries[i].fund_code is None
            || f.fund_code is None || entries[i].fund_code->Some_0@ != f.fund_code->Some_0@
            || entries[i].source@ != "import_txn"@ || !close[i],
    ensures
        twin_from(entries, close, f, 0) != Some(i),
{
    lemma_twin(entries, close, f, 0, i);
}

/// An imported transaction that stands in the ledger already is found.
pub proof fn law_a_twin_is_found(
    entries: Seq<LedgerEntry>,
    close: Seq<bool>,
    f: LedgerEntry,
    i: int,
)
    requires
        close.len() == entries.len(),
        0 <= i < entries.len(),
        close[i],
        entries[i].source@ == "import_txn"@,
        entries[i].fund_code is Some,
        f.fund_code is Some,
        entries[i].fund_code->Some_0@ == f.fund_code->Some_0@,
        entries[i].platform@ == f.platform@,
        entries[i].txn_type@ == f.txn_type@,
        entries[i].date@ == f.date@,
        entries[i].time@ == f.time@,
    ensures
        twin_from(entries, close, f, 0) is Some,
        twin_from(entries, close, f, 0)->Some_0 <= i,
{
    lemma_twin(entries, close, f, 0, i);
}

/// What each type of transaction does: a purchase with shares is added, one with a number of shares
/// that is not above zero sets the amount, one without does nothing; a sale needs shares and something
/// held; a dividend needs something held; a reinvested one needs shares; anything else does nothing.
pub proof fn law_effects(t: Seq<char>, shares: Shares, holds: bool)
    ensures
        t == "buy"@ && shares == Shares::Positive ==> effect_of(t, shares, holds) == Effect::Buy,
        t == "buy"@ && shares == Shares::NotPositive ==> effect_of(t, shares, holds)
            == Effect::SetAmount,
        t == "buy"@ && shares == Shares::Missing ==> effect_of(t, shares, holds)
            == Effect::Nothing,
        t == "sell"@ && shares == Shares::Positive && holds ==> effect_of(t, shares, holds)
            == Effect::Sell,
        t == "sell"@ && !(shares == Shares::Positive && holds) ==> effect_of(t, shares, holds)
            == Effect::Nothing,
        t == "dividend"@ && holds ==> effect_of(t, shares, holds) == Effect::Dividend,
        t == "dividend"@ && !holds ==> effect_of(t, shares, holds) == Effect::Nothing,
        t == "reinvest_dividend"@ && shares == Shares::Positive ==> effect_of(t, shares, holds)
            == Effect::Reinvest,
        t == "reinvest_dividend"@ && shares != Shares::Positive ==> effect_of(t, shares, holds)
            == Effect::Nothing,
        t != "buy"@ && t != "sell"@ && t != "dividend"@ && t != "reinvest_dividend"@ ==> effect_of(
            t,
            shares,
            holds,
        ) == Effect::Nothing,
{
    lemma_type_names();
}

proof fn lemma_type_names()
    ensures
        "buy"@.len() == 3,
        "sell"@.len() == 4,
        "dividend"@.len() == 8,
        "reinvest_dividend"@.len() == 17,
{
    reveal_strlit("buy");
    reveal_strlit("sell");
    reveal_strlit("dividend");
    reveal_strlit("reinvest_dividend");
}

/// On the curve of costs an opening position makes no point and sets shares and cost; every other
/// transaction makes a point. A purchase with shares, a sale, a dividend and a reinvested one do there
/// what they do to the position; a purchase that sets the amount sets the cost.
pub proof fn law_cost_effects(t: Seq<char>, date: Seq<char>, shares: Shares, holds: bool)
    ensures
        date == "1970-01-01"@ && shares == Shares::Positive ==> cost_effect_of(
            t,
            date,
            shares,
            holds,
        ) == (CostEffect::Open, false),
        date == "1970-01-01"@ && shares == Shares::NotPositive ==> cost_effect_of(
            t,
            date,
            shares,
            holds,
        ) == (CostEffect::SetCost, false),
        date == "1970-01-01"@ && shares == Shares::Missing ==> cost_effect_of(
            t,
            date,
            shares,
            holds,
        ) == (CostEffect::Same(Effect::Nothing), false),
        date != "1970-01-01"@ && t == "buy"@ && shares == Shares::NotPositive ==> cost_effect_of(
            t,
            date,
            shares,
            holds,
        ) == (CostEffect::SetCost, true),
        date != "1970-01-01"@ && t == "buy"@ && shares == Shares::Positive ==> cost_effect_of(
            t,
            date,
            shares,
            holds,
        ) == (CostEffect::Same(Effect::Buy), true),
        date != "1970-01-01"@ && t == "sell"@ && shares == Shares::Positive && holds
            ==> cost_effect_of(t, date, shares, holds) == (CostEffect::Same(Effect::Sell), true),
        date != "1970-01-01"@ && t == "dividend"@ && holds ==> cost_effect_of(
            t,
            date,
            shares,
            holds,
        ) == (CostEffect::Same(Effect::Dividend), true),
        date != "1970-01-01"@ && t == "reinvest_dividend"@ && shares == Shares::Positive
            ==> cost_effect_of(t, date, shares, holds) == (
            CostEffect::Same(Effect::Reinvest),
            true,
        ),
        date != "1970-01-01"@ && t != "buy"@ && t != "sell"@ && t != "dividend"@ && t
            != "reinvest_dividend"@ ==> cost_effect_of(t, date, shares, holds) == (
            CostEffect::Same(Effect::Nothing),
            true,
        ),
        marked(t, date) <==> date != "1970-01-01"@ && (t == "buy"@ || t == "sell"@ || t
            == "dividend"@ || t == "reinvest_dividend"@),
{
    law_effects(t, shares, holds);
}

/// A transaction goes with a batch exactly where it came from an import of transactions under the
/// name of that batch; a new import of the batch replaces these and no others.
pub proof fn law_batch_replaces_its_own(entries: Seq<LedgerEntry>, batch: Seq<char>, i: int)
    requires
        0 <= i < entries.len() <= usize::MAX,
    ensures
        picked(entries.map_values(|e: LedgerEntry| of_batch(e, batch))).contains(i as usize) <==> (
        entries[i].source@ == "import_txn"@ && entries[i].source_ref is Some
            && entries[i].source_ref->Some_0@ == batch),
{
    let marks = entries.map_values(|e: LedgerEntry| of_batch(e, batch));
    law_picked_iff(marks, i);
}

/// Real transactions of a fund on a platform replace exactly its opening positions there: those of
/// the same fund and platform that were imported as a position or set by hand.
pub proof fn law_openings_are_replaced(
    entries: Seq<LedgerEntry>,
    code: Seq<char>,
    platform: Seq<char>,
    i: int,
)
    requires
        0 <= i < entries.len() <= usize::MAX,
    ensures
        picked(entries.map_values(|e: LedgerEntry| is_opening(e, code, platform))).contains(
            i as usize,
        ) <==> (entries[i].fund_code is Some && entries[i].fund_code->Some_0@ == code
            && entries[i].platform@ == platform && (entries[i].source@ == "import"@
            || entries[i].source@ == "manual_set"@)),
{
    let marks = entries.map_values(|e: LedgerEntry| is_opening(e, code, platform));
    law_picked_iff(marks, i);
}

/// Transactions are replayed by date: one of an earlier date never comes behind one of a later date,
/// and of two on one date the one with the smaller number comes first.
pub proof fn law_replay_goes_by_date_then_number(
    rows: Seq<LedgerRow>,
    p: Seq<usize>,
    i: int,
    j: int,
)
    requires
        replays(rows, p),
        0 <= i < p.len(),
        0 <= j < p.len(),
        lex_lt(rows[p[i] as int].date@, rows[p[j] as int].date@) || (rows[p[i] as int].date@
            == rows[p[j] as int].date@ && rows[p[i] as int].id < rows[p[j] as int].id),
    ensures
        i < j,
{
    let a = rows[p[i] as int];
    let b = rows[p[j] as int];
    lemma_lex_irreflexive(a.date@);
    if j < i {
        if lex_lt(a.date@, b.date@) && lex_lt(b.date@, a.date@) {
            lemma_lex_transitive(a.date@, b.date@, a.date@);
        }
        lemma_lex_irreflexive(b.date@);
    }
}

proof fn lemma_fund_rows(rows: Seq<LedgerRow>, order: Seq<usize>, n: usize)
    ensures
        fund_rows(rows, order).contains(n) <==> order.contains(n) && rows[n as int].fund_code is Some,
    decreases order.len(),
{
    if order.len() > 0 {
        let rest = order.drop_last();
        lemma_fund_rows(rows, rest, n);
        let kept = fund_rows(rows, rest);
        if order.contains(n) {
            let q = choose|q: int| 0 <= q < order.len() && order[q] == n;
            if q < rest.len() {
                assert(rest[q] == n);
            }
        }
        if rest.contains(n) {
            let q = choose|q: int| 0 <= q < rest.len() && rest[q] == n;
            assert(order[q] == n);
        }
        if rows[order.last() as int].fund_code is Some {
            let all = kept.push(order.last());
            assert(all[kept.len() as int] == order.last());
            if kept.contains(n) {
                let q = choose|q: int| 0 <= q < kept.len() && kept[q] == n;
                assert(all[q] == n);
            }
            if all.contains(n) {
                let q = choose|q: int| 0 <= q < all.len() && all[q] == n;
                if q < kept.len() {
                    assert(kept[q] == n);
                }
            }
        }
        assert(order[order.len() - 1] == order.last());
    }
}

/// Every transaction of a fund is replayed, in the position of its fund on its platform and in no
/// other; money paid in or out is part of none.
pub proof fn law_replay_reaches_every_transaction(
    rows: Seq<LedgerRow>,
    p: Seq<usize>,
    n: int,
)
    requires
        replays(rows, p),
        0 <= n < rows.len() <= usize::MAX,
    ensures
        fund_rows(rows, p).contains(n as usize) <==> rows[n].fund_code is Some,
{
    lemma_lists_all_has(p, rows.len() as int, n);
    lemma_fund_rows(rows, p, n as usize);
}

/// The position that a replayed transaction belongs to is that of its fund on its platform, and two
/// transactions belong to one position exactly where they agree in both.
pub proof fn law_positions_by_fund_and_platform(
    rows: Seq<LedgerRow>,
    kept: Seq<usize>,
    a: int,
    b: int,
) -> (k: int)
    requires
        0 <= a < kept.len(),
        0 <= b < kept.len(),
    ensures
        ({
            let gs = grouped(fund_labels(rows, kept));
            let x = rows[kept[a] as int];
            let y = rows[kept[b] as int];
            &&& 0 <= k < gs.len()
            &&& gs[k].label.0 == x.fund_code->Some_0@
            &&& gs[k].label.1 == x.platform@
            &&& gs[k].members.contains(a)
            &&& gs[k].members.contains(b) <==> x.fund_code->Some_0@ == y.fund_code->Some_0@
                && x.platform@ == y.platform@
        }),
{
    let labels = fund_labels(rows, kept);
    let gs = grouped(labels);
    law_grouped_is_partition(labels);
    assert(in_some_group(gs, a));
    assert(in_some_group(gs, b));
    let k = choose|k: int| 0 <= k < gs.len() && #[trigger] in_group(gs[k], a);
    let l = choose|l: int| 0 <= l < gs.len() && #[trigger] in_group(gs[l], b);
    let m = choose|m: int| 0 <= m < gs[k].members.len() && gs[k].members[m] == a;
    let w = choose|w: int| 0 <= w < gs[l].members.len() && gs[l].members[w] == b;
    assert(labels[gs[k].members[m]] == gs[k].label);
    assert(labels[gs[l].members[w]] == gs[l].label);
    if k < l {
        assert(gs[k].label != gs[l].label);
    } else if l < k {
        assert(gs[l].label != gs[k].label);
    }
    if gs[k].members.contains(b) {
        let v = choose|v: int| 0 <= v < gs[k].members.len() && gs[k].members[v] == b;
        assert(labels[gs[k].members[v]] == gs[k].label);
    }
    k
}

} // verus!
