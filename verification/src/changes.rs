//! What a fund's holdings have become since its last report.
use vstd::prelude::*;
use crate::order::{stable_order, stable_order_of, Ranked};
use crate::pick::{law_picked, pick, picked};
use crate::symbols::in_list;
use crate::text::{same, views};

verus! {

/// The latest report, the one before it, and whether there is one before it.
pub fn change_periods(periods: &Vec<String>) -> (r: (String, String, bool))
    ensures
        r.0@ == (if periods@.len() > 0 {
            periods@.last()@
        } else {
            Seq::empty()
        }),
        r.1@ == (if periods@.len() >= 2 {
            periods@[periods@.len() - 2]@
        } else {
            Seq::empty()
        }),
        r.2 == (r.1@.len() > 0),
{
    let n = periods.len();
    let curr = if n > 0 {
        periods[n - 1].clone()
    } else {
        String::new()
    };
    let prev = if n >= 2 {
        periods[n - 2].clone()
    } else {
        String::new()
    };
    let has_prev = !prev.as_str().is_empty();
    (curr, prev, has_prev)
}

/// The last place below `n` at which a code stands.
pub open spec fn last_place(v: Seq<Seq<char>>, code: Seq<char>, n: int) -> Option<int>
    decreases n,
{
    if n <= 0 {
        None
    } else if v[n - 1] == code {
        Some(n - 1)
    } else {
        last_place(v, code, n - 1)
    }
}

/// The last place at which a code stands in a list.
pub fn find_last(v: &Vec<String>, code: &str) -> (r: Option<usize>)
    ensures
        match r {
            Some(i) => i < v@.len() && last_place(views(v@), code@, v@.len() as int) == Some(
                i as int,
            ),
            None => last_place(views(v@), code@, v@.len() as int) is None,
        },
{
    let mut n: usize = v.len();
    while n > 0
        invariant
            n <= v@.len(),
            last_place(views(v@), code@, v@.len() as int) == last_place(
                views(v@),
                code@,
                n as int,
            ),
        decreases n,
    {
        assert(views(v@)[n - 1] == v@[n - 1]@);
        if same(v[n - 1].as_str(), code) {
            return Some(n - 1);
        }
        n -= 1;
    }
    None
}

/// A stock of the report before is gone: the latest one does not list it, and this is the last row
/// that does.
pub open spec fn is_gone(curr: Seq<Seq<char>>, prev: Seq<Seq<char>>, i: int) -> bool {
    !curr.contains(prev[i]) && last_place(prev, prev[i], prev.len() as int) == Some(i)
}

/// Which rows of the report before are gone.
pub open spec fn gone_marks(curr: Seq<Seq<char>>, prev: Seq<Seq<char>>) -> Seq<bool> {
    Seq::new(prev.len(), |i: int| is_gone(curr, prev, i))
}

/// How the rows of two reports belong together.
pub struct Matching {
    /// For each row of the latest report, the row of the one before with the same stock.
    pub matched: Vec<Option<usize>>,
    /// Rows of the report before whose stocks are gone.
    pub exits: Vec<usize>,
}

/// A position as a mathematical one.
pub open spec fn place_view(p: Option<usize>) -> Option<int> {
    match p {
        Some(i) => Some(i as int),
        None => None,
    }
}

/// How the rows of two reports belong together, by the codes of their stocks.
pub fn match_holdings(curr: &Vec<String>, prev: &Vec<String>) -> (r: Matching)
    ensures
        r.matched@.len() == curr@.len(),
        forall|i: int|
            0 <= i < curr@.len() ==> place_view(#[trigger] r.matched@[i]) == last_place(
                views(prev@),
                curr@[i]@,
                prev@.len() as int,
            ),
        r.exits@ == picked(gone_marks(views(curr@), views(prev@))),
{
    let mut matched: Vec<Option<usize>> = Vec::new();
    let mut i: usize = 0;
    while i < curr.len()
        invariant
            i <= curr@.len(),
            matched@.len() == i,
            forall|k: int|
                0 <= k < i ==> place_view(#[trigger] matched@[k]) == last_place(
                    views(prev@),
                    curr@[k]@,
                    prev@.len() as int,
                ),
        decreases curr@.len() - i,
    {
        matched.push(find_last(prev, curr[i].as_str()));
        i += 1;
    }
    let mut marks: Vec<bool> = Vec::new();
    let ghost want = gone_marks(views(curr@), views(prev@));
    let mut j: usize = 0;
    while j < prev.len()
        invariant
            want == gone_marks(views(curr@), views(prev@)),
            j <= prev@.len(),
            marks@.len() == j,
            forall|k: int| 0 <= k < j ==> #[trigger] marks@[k] == want[k],
        decreases prev@.len() - j,
    {
        assert(views(prev@)[j as int] == prev@[j as int]@);
        let listed = in_list(curr, prev[j].as_str());
        let gone = match find_last(prev, prev[j].as_str()) {
            Some(k) => k == j && !listed,
            None => false,
        };
        assert(want[j as int] == is_gone(views(curr@), views(prev@), j as int));
        marks.push(gone);
        j += 1;
    }
    assert(marks@ =~= want);
    Matching { matched, exits: pick(&marks) }
}

/// What has become of a holding.
#[derive(Debug, Clone, Copy, PartialEq, Eq, Structural)]
pub enum Change {
    New,
    Increase,
    Decrease,
    Exit,
    Flat,
}

/// What has become of a holding of the latest report. `matched` says whether the report before lists
/// it, `level` whether the weights are as good as equal, `above` whether the latest one is larger.
pub fn classify_change(matched: bool, level: bool, above: bool) -> (r: Change)
    ensures
        r == (if !matched {
            Change::New
        } else if level {
            Change::Flat
        } else if above {
            Change::Increase
        } else {
            Change::Decrease
        }),
{
    if !matched {
        Change::New
    } else if level {
        Change::Flat
    } else if above {
        Change::Increase
    } else {
        Change::Decrease
    }
}

/// The name of a change.
pub open spec fn change_label(c: Change) -> Seq<char> {
    match c {
        Change::New => "new"@,
        Change::Increase => "increase"@,
        Change::Decrease => "decrease"@,
        Change::Exit => "exit"@,
        Change::Flat => "flat"@,
    }
}

/// Place of a change among the kinds.
pub open spec fn rank_of(c: Change) -> int {
    match c {
        Change::New => 0,
        Change::Increase => 1,
        Change::Decrease => 2,
        Change::Exit => 3,
        Change::Flat => 4,
    }
}

impl Change {
    /// The name of the change.
    pub fn name(&self) -> (r: &'static str)
        ensures
            r@ == change_label(*self),
    {
        match self {
            Change::New => "new",
            Change::Increase => "increase",
            Change::Decrease => "decrease",
            Change::Exit => "exit",
            Change::Flat => "flat",
        }
    }

    /// Place of the change among the kinds.
    pub fn rank(&self) -> (r: u8)
        ensures
            r == rank_of(*self),
    {
        match self {
            Change::New => 0,
            Change::Increase => 1,
            Change::Decrease => 2,
            Change::Exit => 3,
            Change::Flat => 4,
        }
    }
}

/// A change as it is ordered: by kind, and within a kind the larger ones first.
pub struct ChangeKey {
    pub change: Change,
    pub size: i64,
}

impl Ranked for ChangeKey {
    open spec fn ahead(&self, other: &Self) -> bool {
        rank_of(self.change) < rank_of(other.change) || (rank_of(self.change) == rank_of(
            other.change,
        ) && self.size > other.size)
    }

    proof fn law_irreflexive(a: &Self) {
    }

    proof fn law_comparable(a: &Self, b: &Self, c: &Self) {
    }

    proof fn law_transitive(a: &Self, b: &Self, c: &Self) {
    }

    fn is_ahead(&self, other: &Self) -> (r: bool) {
        let a = self.change.rank();
        let b = other.change.rank();
        a < b || (a == b && self.size > other.size)
    }
}

/// The keys of changes of some kinds and sizes.
pub open spec fn change_keys(kinds: Seq<Change>, sizes: Seq<i64>) -> Seq<ChangeKey> {
    Seq::new(kinds.len(), |i: int| ChangeKey { change: kinds[i], size: sizes[i] })
}

/// The order in which changes are shown. `sizes` holds a number for each that orders it by its size.
pub fn order_changes(kinds: &Vec<Change>, sizes: &Vec<i64>) -> (p: Vec<usize>)
    requires
        sizes@.len() == kinds@.len(),
    ensures
        stable_order_of(change_keys(kinds@, sizes@), p@),
{
    let mut keys: Vec<ChangeKey> = Vec::new();
    let mut i: usize = 0;
    while i < kinds.len()
        invariant
            sizes@.len() == kinds@.len(),
            i <= kinds@.len(),
            keys@.len() == i,
            forall|k: int| 0 <= k < i ==> #[trigger] keys@[k] == change_keys(kinds@, sizes@)[k],
        decreases kinds@.len() - i,
    {
        keys.push(ChangeKey { change: kinds[i], size: sizes[i] });
        i += 1;
    }
    assert(keys@ =~= change_keys(kinds@, sizes@));
    stable_order(&keys)
}

// ---------------------------------------------------------------------------
// Laws
// ---------------------------------------------------------------------------

proof fn lemma_last_place(v: Seq<Seq<char>>, code: Seq<char>, n: int)
    requires
        0 <= n <= v.len(),
    ensures
        match last_place(v, code, n) {
            Some(i) => 0 <= i < n && v[i] == code && forall|j: int|
                i < j < n ==> #[trigger] v[j] != code,
            None => forall|j: int| 0 <= j < n ==> #[trigger] v[j] != code,
        },
    decreases n,
{
    if n > 0 && v[n - 1] != code {
        lemma_last_place(v, code, n - 1);
    }
}

/// Every stock of the report before is accounted for once: the latest report lists it, or exactly one
/// exit stands for it. And no exit stands for a stock that is still listed.
pub proof fn law_every_stock_accounted_for(curr: Seq<Seq<char>>, prev: Seq<Seq<char>>, code: Seq<char>)
    requires
        prev.len() <= usize::MAX,
        prev.contains(code),
    ensures
        !curr.contains(code) ==> exists|k: int|
            0 <= k < picked(gone_marks(curr, prev)).len() && prev[#[trigger] picked(
                gone_marks(curr, prev),
            )[k] as int] == code,
        forall|k: int|
            0 <= k < picked(gone_marks(curr, prev)).len() ==> !curr.contains(
                prev[#[trigger] picked(gone_marks(curr, prev))[k] as int],
            ),
        forall|j: int, k: int|
            0 <= j < k < picked(gone_marks(curr, prev)).len() ==> prev[#[trigger] picked(
                gone_marks(curr, prev),
            )[j] as int] != prev[#[trigger] picked(gone_marks(curr, prev))[k] as int],
{
    let marks = gone_marks(curr, prev);
    let out = picked(marks);
    law_picked(marks);
    if !curr.contains(code) {
        lemma_last_place(prev, code, prev.len() as int);
        let n = choose|n: int| 0 <= n < prev.len() && prev[n] == code;
        let i = last_place(prev, code, prev.len() as int)->Some_0;
        assert(marks[i]);
        let k = choose|k: int| 0 <= k < out.len() && out[k] == i as usize;
        assert(prev[out[k] as int] == code);
    }
    assert forall|k: int| 0 <= k < out.len() implies !curr.contains(
        prev[#[trigger] out[k] as int],
    ) by {
        assert(marks[out[k] as int]);
    }
    assert forall|j: int, k: int| 0 <= j < k < out.len() implies prev[#[trigger] out[j] as int]
        != prev[#[trigger] out[k] as int] by {
        assert(marks[out[j] as int]);
        assert(marks[out[k] as int]);
    }
}

} // verus!
