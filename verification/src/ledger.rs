//! The ledger of transactions: how positions follow from it, and what an import replaces.
//!
//! Shares and amounts are fractions and are added up by the caller; what each transaction does to
//! them is settled here.
use vstd::prelude::*;
use crate::group::{group_by, group_views, grouped, label_views, Group, Label};
use crate::order::{stable_order, Ranked};
use crate::pick::{pick, picked};
use crate::text::{is_before, lemma_lex_irreflexive, lemma_lex_total, lemma_lex_transitive, lex_lt, same};

verus! {

/// The date that stands for an opening position.
pub const OPENING_DATE: &'static str = "1970-01-01";

/// What is known of a number of shares.
#[derive(Debug, Clone, Copy, PartialEq, Eq, Structural)]
pub enum Shares {
    Missing,
    Positive,
    NotPositive,
}

/// What a transaction does to a position.
#[derive(Debug, Clone, Copy, PartialEq, Eq, Structural)]
pub enum Effect {
    /// Its shares and its amount are added to the shares and the cost.
    Buy,
    /// Its amount becomes the amount held.
    SetAmount,
    /// Its shares go, with their part of the cost; a position that is used up is cleared.
    Sell,
    /// Its amount is taken off the cost.
    Dividend,
    /// Its shares are added; the cost stays.
    Reinvest,
    /// Nothing.
    Nothing,
}

/// What a transaction does to a position, which holds shares or does not.
pub open spec fn effect_of(txn_type: Seq<char>, shares: Shares, holds: bool) -> Effect {
    if txn_type == "buy"@ {
        match shares {
            Shares::Positive => Effect::Buy,
            Shares::NotPositive => Effect::SetAmount,
            Shares::Missing => Effect::Nothing,
        }
    } else if txn_type == "sell"@ {
        if shares == Shares::Positive && holds {
            Effect::Sell
        } else {
            Effect::Nothing
        }
    } else if txn_type == "dividend"@ {
        if holds {
            Effect::Dividend
        } else {
            Effect::Nothing
        }
    } else if txn_type == "reinvest_dividend"@ && shares == Shares::Positive {
        Effect::Reinvest
    } else {
        Effect::Nothing
    }
}

/// What a transaction does to a position.
pub fn effect(txn_type: &str, shares: Shares, holds: bool) -> (r: Effect)
    ensures
        r == effect_of(txn_type@, shares, holds),
{
    if same(txn_type, "buy") {
        match shares {
            Shares::Positive => Effect::Buy,
            Shares::NotPositive => Effect::SetAmount,
            Shares::Missing => Effect::Nothing,
        }
    } else if same(txn_type, "sell") {
        if shares == Shares::Positive && holds {
            Effect::Sell
        } else {
            Effect::Nothing
        }
    } else if same(txn_type, "dividend") {
        if holds {
            Effect::Dividend
        } else {
            Effect::Nothing
        }
    } else if same(txn_type, "reinvest_dividend") && shares == Shares::Positive {
        Effect::Reinvest
    } else {
        Effect::Nothing
    }
}

/// What a transaction does to the curve of costs.
#[derive(Debug, Clone, Copy, PartialEq, Eq, Structural)]
pub enum CostEffect {
    /// An opening position: its shares and amount become the shares and the cost.
    Open,
    /// Its amount becomes the cost.
    SetCost,
    /// As it does to a position.
    Same(Effect),
}

/// What a transaction does to the curve of costs, and whether it makes a point of it.
pub open spec fn cost_effect_of(
    txn_type: Seq<char>,
    date: Seq<char>,
    shares: Shares,
    holds: bool,
) -> (CostEffect, bool) {
    if date == OPENING_DATE@ {
        (
            match shares {
                Shares::Positive => CostEffect::Open,
                Shares::NotPositive => CostEffect::SetCost,
                Shares::Missing => CostEffect::Same(Effect::Nothing),
            },
            false,
        )
    } else if effect_of(txn_type, shares, holds) == Effect::SetAmount {
        (CostEffect::SetCost, true)
    } else {
        (CostEffect::Same(effect_of(txn_type, shares, holds)), true)
    }
}

/// What a transaction does to the curve of costs, and whether it makes a point of it.
pub fn cost_effect(txn_type: &str, date: &str, shares: Shares, holds: bool) -> (r: (CostEffect, bool))
    ensures
        r == cost_effect_of(txn_type@, date@, shares, holds),
{
    if same(date, OPENING_DATE) {
        let e = match shares {
            Shares::Positive => CostEffect::Open,
            Shares::NotPositive => CostEffect::SetCost,
            Shares::Missing => CostEffect::Same(Effect::Nothing),
        };
        return (e, false);
    }
    match effect(txn_type, shares, holds) {
        Effect::SetAmount => (CostEffect::SetCost, true),
        e => (CostEffect::Same(e), true),
    }
}

/// A transaction is marked on the curve of a fund: it is a real one of a kind that touches the fund.
pub open spec fn marked(txn_type: Seq<char>, date: Seq<char>) -> bool {
    date != OPENING_DATE@ && (txn_type == "buy"@ || txn_type == "sell"@ || txn_type == "dividend"@
        || txn_type == "reinvest_dividend"@)
}

/// Whether a transaction is marked on the curve of a fund.
pub fn is_marked(txn_type: &str, date: &str) -> (r: bool)
    ensures
        r == marked(txn_type@, date@),
{
    !same(date, OPENING_DATE) && (same(txn_type, "buy") || same(txn_type, "sell") || same(
        txn_type,
        "dividend",
    ) || same(txn_type, "reinvest_dividend"))
}

/// Whether a position is kept: something is held.
pub fn is_held(shares_positive: bool, amount_positive: bool) -> (r: bool)
    ensures
        r == (shares_positive || amount_positive),
{
    shares_positive || amount_positive
}

// ---------------------------------------------------------------------------
// Replay
// ---------------------------------------------------------------------------

/// A transaction, as far as its place in the ledger goes.
pub struct LedgerRow {
    pub id: i64,
    /// The fund; none for money paid in or out.
    pub fund_code: Option<String>,
    pub platform: String,
    pub date: String,
}

/// A transaction as it is ordered: by date, then by its number.
pub struct ReplayKey {
    pub date: String,
    pub id: i64,
}

impl Ranked for ReplayKey {
    open spec fn ahead(&self, other: &Self) -> bool {
        lex_lt(self.date@, other.date@) || (self.date@ == other.date@ && self.id < other.id)
    }

    proof fn law_irreflexive(a: &Self) {
        lemma_lex_irreflexive(a.date@);
    }

    proof fn law_comparable(a: &Self, b: &Self, c: &Self) {
        lemma_lex_total(a.date@, b.date@);
        lemma_lex_total(b.date@, c.date@);
        if lex_lt(b.date@, a.date@) && lex_lt(a.date@, c.date@) {
            lemma_lex_transitive(b.date@, a.date@, c.date@);
        }
    }

    proof fn law_transitive(a: &Self, b: &Self, c: &Self) {
        if lex_lt(a.date@, b.date@) && lex_lt(b.date@, c.date@) {
            lemma_lex_transitive(a.date@, b.date@, c.date@);
        }
    }

    fn is_ahead(&self, other: &Self) -> (r: bool) {
        is_before(self.date.as_str(), other.date.as_str()) || (same(
            self.date.as_str(),
            other.date.as_str(),
        ) && self.id < other.id)
    }
}

/// `p` is the order in which transactions are replayed.
pub open spec fn replays(rows: Seq<LedgerRow>, p: Seq<usize>) -> bool {
    &&& p.len() == rows.len()
    &&& p.no_duplicates()
    &&& forall|i: int| 0 <= i < p.len() ==> (#[trigger] p[i]) < rows.len()
    &&& forall|i: int, j: int|
        0 <= i < j < p.len() ==> {
            let a = rows[#[trigger] p[i] as int];
            let b = rows[#[trigger] p[j] as int];
            ||| lex_lt(a.date@, b.date@)
            ||| (a.date@ == b.date@ && (a.id < b.id || (a.id == b.id && p[i] < p[j])))
        }
}

/// The order in which transactions are replayed: by date, then by number.
pub fn replay_order(rows: &Vec<LedgerRow>) -> (p: Vec<usize>)
    ensures
        replays(rows@, p@),
{
    let mut keys: Vec<ReplayKey> = Vec::new();
    let mut i: usize = 0;
    while i < rows.len()
        invariant
            i <= rows@.len(),
            keys@.len() == i,
            forall|k: int|
                0 <= k < i ==> (#[trigger] keys@[k]).date@ == rows@[k].date@ && keys@[k].id
                    == rows@[k].id,
        decreases rows@.len() - i,
    {
        keys.push(ReplayKey { date: rows[i].date.clone(), id: rows[i].id });
        i += 1;
    }
    let p = stable_order(&keys);
    proof {
        assert forall|i: int, j: int| 0 <= i < j < p@.len() implies ({
            let a = rows@[#[trigger] p@[i] as int];
            let b = rows@[#[trigger] p@[j] as int];
            ||| lex_lt(a.date@, b.date@)
            ||| (a.date@ == b.date@ && (a.id < b.id || (a.id == b.id && p@[i] < p@[j])))
        }) by {
            let a = p@[i] as int;
            let b = p@[j] as int;
            assert(crate::order::precedes(keys@, a, b));
            lemma_lex_total(rows@[a].date@, rows@[b].date@);
        }
    }
    p
}

/// The transactions in an order that touch a fund, by their positions in the ledger.
pub open spec fn fund_rows(rows: Seq<LedgerRow>, order: Seq<usize>) -> Seq<usize>
    decreases order.len(),
{
    if order.len() == 0 {
        Seq::empty()
    } else if rows[order.last() as int].fund_code is Some {
        fund_rows(rows, order.drop_last()).push(order.last())
    } else {
        fund_rows(rows, order.drop_last())
    }
}

/// The labels of transactions that touch a fund: fund and platform.
pub open spec fn fund_labels(rows: Seq<LedgerRow>, kept: Seq<usize>) -> Seq<Label> {
    kept.map_values(
        |n: usize| (rows[n as int].fund_code->Some_0@, rows[n as int].platform@),
    )
}

/// The transactions that touch a fund in the order of replay, and the positions that they make up: a
/// fund held on two platforms is two positions. The members of a group are places in the list.
pub fn replay_groups(rows: &Vec<LedgerRow>) -> (r: (Vec<usize>, Vec<Group>))
    ensures
        exists|p: Seq<usize>| #[trigger] replays(rows@, p) && r.0@ == fund_rows(rows@, p),
        group_views(r.1@) == grouped(fund_labels(rows@, r.0@)),
{
    let p = replay_order(rows);
    let mut kept: Vec<usize> = Vec::new();
    let mut labels: Vec<(String, String)> = Vec::new();
    let mut i: usize = 0;
    assert(p@.take(0) =~= Seq::<usize>::empty());
    while i < p.len()
        invariant
            replays(rows@, p@),
            i <= p@.len(),
            kept@ == fund_rows(rows@, p@.take(i as int)),
            labels@.len() == kept@.len(),
            forall|k: int|
                0 <= k < labels@.len() ==> ((#[trigger] labels@[k]).0@, labels@[k].1@)
                    == fund_labels(rows@, kept@)[k],
        decreases p@.len() - i,
    {
        proof {
            assert(p@.take(i + 1).drop_last() =~= p@.take(i as int));
            assert(p@.take(i + 1).last() == p@[i as int]);
        }
        let n = p[i];
        match &rows[n].fund_code {
            Some(c) => {
                let ghost kept0 = kept@;
                let ghost labels0 = labels@;
                kept.push(n);
                labels.push((c.clone(), rows[n].platform.clone()));
                assert forall|k: int| 0 <= k < labels@.len() implies (
                    (#[trigger] labels@[k]).0@,
                    labels@[k].1@,
                ) == fund_labels(rows@, kept@)[k] by {
                    if k < labels0.len() {
                        assert(labels@[k] == labels0[k]);
                        assert(fund_labels(rows@, kept@)[k] == fund_labels(rows@, kept0)[k]);
                    }
                }
            },
            None => {},
        }
        i += 1;
    }
    proof {
        assert(p@.take(p@.len() as int) =~= p@);
        assert(label_views(labels@) =~= fund_labels(rows@, kept@));
    }
    let groups = group_by(&labels);
    (kept, groups)
}

// ---------------------------------------------------------------------------
// Imports
// ---------------------------------------------------------------------------

/// A transaction, as far as imports go.
pub struct LedgerEntry {
    pub fund_code: Option<String>,
    pub platform: String,
    pub txn_type: String,
    pub date: String,
    pub time: String,
    /// Where it comes from.
    pub source: String,
    /// The batch that it came with.
    pub source_ref: Option<String>,
}

/// A transaction came with a batch.
pub open spec fn of_batch(e: LedgerEntry, batch: Seq<char>) -> bool {
    e.source@ == "import_txn"@ && e.source_ref is Some && e.source_ref->Some_0@ == batch
}

/// A transaction is an opening position of a fund on a platform, imported or set by hand.
pub open spec fn is_opening(e: LedgerEntry, code: Seq<char>, platform: Seq<char>) -> bool {
    &&& e.fund_code is Some
    &&& e.fund_code->Some_0@ == code
    &&& e.platform@ == platform
    &&& (e.source@ == "import"@ || e.source@ == "manual_set"@)
}

/// A transaction is the same as one that is imported, but for its figures.
pub open spec fn same_txn(e: LedgerEntry, f: LedgerEntry) -> bool {
    &&& e.source@ == "import_txn"@
    &&& e.fund_code is Some
    &&& f.fund_code is Some
    &&& e.fund_code->Some_0@ == f.fund_code->Some_0@
    &&& e.platform@ == f.platform@
    &&& e.txn_type@ == f.txn_type@
    &&& e.date@ == f.date@
    &&& e.time@ == f.time@
}

/// Whether an optional text is there and is the given one.
fn is_text(o: &Option<String>, s: &str) -> (r: bool)
    ensures
        r == (o is Some && o->Some_0@ == s@),
{
    match o {
        Some(t) => same(t.as_str(), s),
        None => false,
    }
}

/// Whether a transaction came with a batch.
pub fn is_of_batch(e: &LedgerEntry, batch: &str) -> (r: bool)
    ensures
        r == of_batch(*e, batch@),
{
    same(e.source.as_str(), "import_txn") && is_text(&e.source_ref, batch)
}

/// Whether a transaction is an opening position of a fund on a platform.
pub fn is_opening_of(e: &LedgerEntry, code: &str, platform: &str) -> (r: bool)
    ensures
        r == is_opening(*e, code@, platform@),
{
    is_text(&e.fund_code, code) && same(e.platform.as_str(), platform) && (same(
        e.source.as_str(),
        "import",
    ) || same(e.source.as_str(), "manual_set"))
}

/// The transactions that a new import of a batch replaces.
pub fn replaced_by_batch(entries: &Vec<LedgerEntry>, batch: &str) -> (r: Vec<usize>)
    ensures
        r@ == picked(entries@.map_values(|e: LedgerEntry| of_batch(e, batch@))),
{
    let ghost want = entries@.map_values(|e: LedgerEntry| of_batch(e, batch@));
    let mut marks: Vec<bool> = Vec::new();
    let mut i: usize = 0;
    while i < entries.len()
        invariant
            want == entries@.map_values(|e: LedgerEntry| of_batch(e, batch@)),
            i <= entries@.len(),
            marks@.len() == i,
            forall|k: int| 0 <= k < i ==> #[trigger] marks@[k] == want[k],
        decreases entries@.len() - i,
    {
        marks.push(is_of_batch(&entries[i], batch));
        i += 1;
    }
    assert(marks@ =~= want);
    pick(&marks)
}

/// The opening positions that real transactions of a fund on a platform replace.
pub fn replaced_openings(entries: &Vec<LedgerEntry>, code: &str, platform: &str) -> (r: Vec<usize>)
    ensures
        r@ == picked(entries@.map_values(|e: LedgerEntry| is_opening(e, code@, platform@))),
{
    let ghost want = entries@.map_values(|e: LedgerEntry| is_opening(e, code@, platform@));
    let mut marks: Vec<bool> = Vec::new();
    let mut i: usize = 0;
    while i < entries.len()
        invariant
            want == entries@.map_values(|e: LedgerEntry| is_opening(e, code@, platform@)),
            i <= entries@.len(),
            marks@.len() == i,
            forall|k: int| 0 <= k < i ==> #[trigger] marks@[k] == want[k],
        decreases entries@.len() - i,
    {
        marks.push(is_opening_of(&entries[i], code, platform));
        i += 1;
    }
    assert(marks@ =~= want);
    pick(&marks)
}

/// The first transaction that is the same as an imported one and whose amount is as good as equal,
/// from a position on.
pub open spec fn twin_from(
    entries: Seq<LedgerEntry>,
    close: Seq<bool>,
    f: LedgerEntry,
    from: int,
) -> Option<int>
    decreases entries.len() - from,
{
    if from >= entries.len() || from < 0 {
        None
    } else if same_txn(entries[from], f) && close[from] {
        Some(from)
    } else {
        twin_from(entries, close, f, from + 1)
    }
}

/// The transaction that an imported one brings up to date, where there is one; else it is a new one.
/// `close` says of each transaction whether its amount is as good as equal.
pub fn find_twin(entries: &Vec<LedgerEntry>, close: &Vec<bool>, f: &LedgerEntry) -> (r: Option<usize>)
    requires
        close@.len() == entries@.len(),
    ensures
        match r {
            Some(i) => twin_from(entries@, close@, *f, 0) == Some(i as int),
            None => twin_from(entries@, close@, *f, 0) is None,
        },
        r matches Some(i) ==> {
            let e = entries@[i as int];
            &&& i < entries@.len()
            &&& close@[i as int]
            &&& e.source@ == "import_txn"@
            &&& e.fund_code is Some && f.fund_code is Some
            &&& e.fund_code->Some_0@ == f.fund_code->Some_0@
            &&& e.platform@ == f.platform@
            &&& e.txn_type@ == f.txn_type@
            &&& e.date@ == f.date@
            &&& e.time@ == f.time@
        },
        forall|j: int|
            #![trigger entries@[j]]
            0 <= j < (match r {
                Some(i) => i as int,
                None => entries@.len() as int,
            }) && close@[j] && entries@[j].source@ == "import_txn"@ && entries@[j].fund_code is Some
                && f.fund_code is Some ==> entries@[j].fund_code->Some_0@ != f.fund_code->Some_0@
                || entries@[j].platform@ != f.platform@ || entries@[j].txn_type@ != f.txn_type@
                || entries@[j].date@ != f.date@ || entries@[j].time@ != f.time@,
{
    let mut i: usize = 0;
    while i < entries.len()
        invariant
            close@.len() == entries@.len(),
            i <= entries@.len(),
            forall|j: int|
                #![trigger entries@[j]]
                0 <= j < i && close@[j] && entries@[j].source@ == "import_txn"@
                    && entries@[j].fund_code is Some && f.fund_code is Some
                    ==> entries@[j].fund_code->Some_0@ != f.fund_code->Some_0@
                    || entries@[j].platform@ != f.platform@ || entries@[j].txn_type@ != f.txn_type@
                    || entries@[j].date@ != f.date@ || entries@[j].time@ != f.time@,
            twin_from(entries@, close@, *f, 0) == twin_from(entries@, close@, *f, i as int),
        decreases entries@.len() - i,
    {
        let e = &entries[i];
        let same_fund = match &f.fund_code {
            Some(c) => is_text(&e.fund_code, c.as_str()),
            None => false,
        };
        if same_fund && same(e.source.as_str(), "import_txn") && same(
            e.platform.as_str(),
            f.platform.as_str(),
        ) && same(e.txn_type.as_str(), f.txn_type.as_str()) && same(
            e.date.as_str(),
            f.date.as_str(),
        ) && same(e.time.as_str(), f.time.as_str()) && close[i] {
            return Some(i);
        }
        i += 1;
    }
    None
}

// ---------------------------------------------------------------------------
// Laws
// ---------------------------------------------------------------------------

/// Real transactions of a fund on one platform never replace anything of another platform, of another
/// fund, or of what was imported or entered as a real transaction.
pub proof fn law_other_entries_stay(e: LedgerEntry, code: Seq<char>, platform: Seq<char>)
    requires
        is_opening(e, code, platform),
    ensures
        e.platform@ == platform,
        e.fund_code->Some_0@ == code,
        e.source@ != "import_txn"@,
        e.source@ != "manual_txn"@,
{
    reveal_strlit("import");
    reveal_strlit("manual_set");
    reveal_strlit("import_txn");
    reveal_strlit("manual_txn");
    assert("import_txn"@.len() == 10);
    assert("import"@.len() == 6);
    assert("manual_set"@.len() == 10);
    assert("manual_txn"@.len() == 10);
    assert("manual_set"@[7] == 's');
    assert("manual_txn"@[7] == 't');
    assert("manual_set"@[0] == 'm');
    assert("import_txn"@[0] == 'i');
}

/// What is left of a ledger without a batch.
pub open spec fn without_batch(entries: Seq<LedgerEntry>, batch: Seq<char>) -> Seq<LedgerEntry> {
    entries.filter(|e: LedgerEntry| !of_batch(e, batch))
}

/// Importing a batch again starts from the same ledger as the first time: what the first import added
/// is all taken out, and nothing else is.
pub proof fn law_batch_again_starts_afresh(
    entries: Seq<LedgerEntry>,
    added: Seq<LedgerEntry>,
    batch: Seq<char>,
)
    requires
        forall|i: int| 0 <= i < added.len() ==> of_batch(#[trigger] added[i], batch),
    ensures
        without_batch(without_batch(entries, batch) + added, batch) == without_batch(
            entries,
            batch,
        ),
    decreases added.len(),
{
    let keep = |e: LedgerEntry| !of_batch(e, batch);
    let left = without_batch(entries, batch);
    if added.len() == 0 {
        assert(left + added =~= left);
        lemma_filter_all(left, keep, entries);
    } else {
        let rest = added.drop_last();
        law_batch_again_starts_afresh(entries, rest, batch);
        let whole = left + added;
        assert(whole.drop_last() =~= left + rest);
        assert(whole.last() == added.last());
        assert(of_batch(added[added.len() - 1], batch));
        reveal(Seq::filter);
    }
}

/// Filtering what was filtered changes nothing.
proof fn lemma_filter_all(left: Seq<LedgerEntry>, keep: spec_fn(LedgerEntry) -> bool, all: Seq<LedgerEntry>)
    requires
        left == all.filter(keep),
    ensures
        left.filter(keep) == left,
    decreases all.len(),
{
    reveal(Seq::filter);
    if all.len() > 0 {
        let rest = all.drop_last().filter(keep);
        lemma_filter_all(rest, keep, all.drop_last());
        if keep(all.last()) {
            assert(left.drop_last() =~= rest);
        }
    }
}

/// The curve of costs and the positions go by the same rules for real transactions, but for a purchase
/// without shares, whose amount is the cost there and the amount held here.
pub proof fn law_costs_follow_positions(
    txn_type: Seq<char>,
    date: Seq<char>,
    shares: Shares,
    holds: bool,
)
    requires
        date != OPENING_DATE@,
        effect_of(txn_type, shares, holds) != Effect::SetAmount,
    ensures
        cost_effect_of(txn_type, date, shares, holds) == (
            CostEffect::Same(effect_of(txn_type, shares, holds)),
            true,
        ),
{
}

/// Money paid in or out and a sale out of nothing change no position.
pub proof fn law_no_effect_without_shares(shares: Shares)
    ensures
        effect_of("deposit"@, shares, true) == Effect::Nothing,
        effect_of("withdraw"@, shares, true) == Effect::Nothing,
        effect_of("sell"@, shares, false) == Effect::Nothing,
        effect_of("dividend"@, shares, false) == Effect::Nothing,
{
    reveal_strlit("deposit");
    reveal_strlit("withdraw");
    reveal_strlit("buy");
    reveal_strlit("sell");
    reveal_strlit("dividend");
    reveal_strlit("reinvest_dividend");
    assert("deposit"@.len() == 7 && "withdraw"@.len() == 8 && "buy"@.len() == 3 && "sell"@.len()
        == 4 && "dividend"@.len() == 8 && "reinvest_dividend"@.len() == 17);
    assert("withdraw"@[0] == 'w' && "dividend"@[0] == 'd');
}

} // verus!
