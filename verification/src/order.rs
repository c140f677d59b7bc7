//! Stable ordering of records by a key.
//!
//! The order is handed out as a list of positions, so that a caller can carry along whatever
//! stands beside the keys.
use vstd::prelude::*;
use crate::text::{is_before, lemma_lex_irreflexive, lemma_lex_total, lemma_lex_transitive, lex_lt};

verus! {

/// A key with a strict weak order.
pub trait Ranked: Sized {
    /// This key comes strictly before the other one.
    spec fn ahead(&self, other: &Self) -> bool;

    /// No key comes before itself.
    proof fn law_irreflexive(a: &Self)
        ensures
            !a.ahead(a),
    ;

    /// Whatever comes before a third key comes before or after any second one accordingly.
    proof fn law_comparable(a: &Self, b: &Self, c: &Self)
        ensures
            a.ahead(c) ==> a.ahead(b) || b.ahead(c),
    ;

    /// What comes before a key that comes before another one comes before that other one.
    proof fn law_transitive(a: &Self, b: &Self, c: &Self)
        ensures
            a.ahead(b) && b.ahead(c) ==> a.ahead(c),
    ;

    /// Decides `ahead`.
    fn is_ahead(&self, other: &Self) -> (r: bool)
        ensures
            r == self.ahead(other),
    ;
}

/// `p` lists each position below `n` once.
pub open spec fn lists_all(p: Seq<usize>, n: int) -> bool {
    &&& p.len() == n
    &&& p.no_duplicates()
    &&& forall|i: int| 0 <= i < p.len() ==> (#[trigger] p[i]) < n
}

/// The record at `i` must come before the record at `j`: its key is ahead, or the keys are level
/// and it stood first.
pub open spec fn precedes<K: Ranked>(keys: Seq<K>, i: int, j: int) -> bool {
    keys[i].ahead(&keys[j]) || (!keys[j].ahead(&keys[i]) && i < j)
}

/// `p` is the stable order of the records with these keys.
pub open spec fn stable_order_of<K: Ranked>(keys: Seq<K>, p: Seq<usize>) -> bool {
    &&& lists_all(p, keys.len() as int)
    &&& forall|i: int, j: int|
        0 <= i < j < p.len() ==> precedes(keys, #[trigger] p[i] as int, #[trigger] p[j] as int)
}

/// `p` arranges `s` into `out`: earlier comes what is ahead, and of two level records the one that
/// stood first.
pub open spec fn arranges<A>(
    s: Seq<A>,
    out: Seq<A>,
    p: Seq<usize>,
    ahead: spec_fn(A, A) -> bool,
) -> bool {
    &&& lists_all(p, s.len() as int)
    &&& out.len() == s.len()
    &&& forall|i: int| 0 <= i < out.len() ==> #[trigger] out[i] == s[p[i] as int]
    &&& forall|i: int, j: int|
        0 <= i < j < out.len() ==> ahead(s[#[trigger] p[i] as int], s[#[trigger] p[j] as int]) || (
        !ahead(s[p[j] as int], s[p[i] as int]) && p[i] < p[j])
}

/// `out` is `s` in stable order.
pub open spec fn stably_sorted<A>(s: Seq<A>, out: Seq<A>, ahead: spec_fn(A, A) -> bool) -> bool {
    exists|p: Seq<usize>| #[trigger] arranges(s, out, p, ahead)
}

/// The stable order of the records with these keys.
pub fn stable_order<K: Ranked>(keys: &Vec<K>) -> (r: Vec<usize>)
    ensures
        stable_order_of(keys@, r@),
{
    let mut r: Vec<usize> = Vec::new();
    let mut k: usize = 0;
    while k < keys.len()
        invariant
            k <= keys@.len(),
            lists_all(r@, k as int),
            forall|i: int, j: int|
                0 <= i < j < r@.len() ==> precedes(
                    keys@,
                    #[trigger] r@[i] as int,
                    #[trigger] r@[j] as int,
                ),
        decreases keys@.len() - k,
    {
        let mut p: usize = r.len();
        while p > 0 && keys[k].is_ahead(&keys[r[p - 1]])
            invariant
                k < keys@.len(),
                p <= r@.len(),
                lists_all(r@, k as int),
                forall|i: int| p <= i < r@.len() ==> keys@[k as int].ahead(&keys@[#[trigger] r@[i] as int]),
            decreases p,
        {
            p -= 1;
        }
        let ghost old_r = r@;
        proof {
            assert forall|i: int| 0 <= i < p implies !keys@[k as int].ahead(
                &keys@[#[trigger] old_r[i] as int],
            ) by {
                if i < p - 1 {
                    let a = keys@[k as int];
                    let b = keys@[old_r[p - 1] as int];
                    let c = keys@[old_r[i] as int];
                    assert(precedes(keys@, old_r[i] as int, old_r[p - 1] as int));
                    K::law_comparable(&a, &b, &c);
                    K::law_transitive(&a, &c, &b);
                    K::law_comparable(&b, &a, &c);
                    K::law_transitive(&b, &c, &b);
                    K::law_irreflexive(&b);
                }
            }
        }
        r.insert(p, k);
        proof {
            assert(r@ =~= old_r.insert(p as int, k));
            assert forall|i: int, j: int| 0 <= i < j < r@.len() implies precedes(
                keys@,
                #[trigger] r@[i] as int,
                #[trigger] r@[j] as int,
            ) by {
                let oi = if i < p { i } else { i - 1 };
                let oj = if j < p { j } else { j - 1 };
                if i != p && j != p {
                    assert(r@[i] == old_r[oi]);
                    assert(r@[j] == old_r[oj]);
                } else if i == p {
                    assert(r@[j] == old_r[j - 1]);
                } else {
                    assert(r@[i] == old_r[i]);
                }
            }
            assert forall|i: int| 0 <= i < r@.len() implies (#[trigger] r@[i]) < k + 1 by {
                if i < p {
                    assert(r@[i] == old_r[i]);
                } else if i > p {
                    assert(r@[i] == old_r[i - 1]);
                }
            }
            assert forall|i: int, j: int| 0 <= i < j < r@.len() implies r@[i] != r@[j] by {
                let oi = if i < p { i } else { i - 1 };
                let oj = if j < p { j } else { j - 1 };
                if i != p && j != p {
                    assert(r@[i] == old_r[oi] && r@[j] == old_r[oj]);
                } else if i == p {
                    assert(r@[j] == old_r[j - 1]);
                } else {
                    assert(r@[i] == old_r[i]);
                }
            }
        }
        k += 1;
    }
    r
}

/// There is only one stable order of given keys.
pub proof fn law_stable_order_unique<K: Ranked>(keys: Seq<K>, p: Seq<usize>, q: Seq<usize>)
    requires
        stable_order_of(keys, p),
        stable_order_of(keys, q),
    ensures
        p == q,
    decreases keys.len(),
{
    assert forall|n: int| 0 <= n < p.len() implies p[n] == q[n] by {
        lemma_orders_agree(keys, p, q, n);
    }
    assert(p =~= q);
}

/// A listing of all positions below `n` holds each of them.
pub proof fn lemma_lists_all_has(p: Seq<usize>, n: int, x: int)
    requires
        lists_all(p, n),
        0 <= x < n,
    ensures
        p.contains(x as usize),
{
    let s = p.to_set();
    p.unique_seq_to_set();
    let m = p.map_values(|v: usize| v as int);
    assert(m.no_duplicates()) by {
        assert forall|i: int, j: int| 0 <= i < m.len() && 0 <= j < m.len() && i != j implies m[i]
            != m[j] by {
            assert(p[i] != p[j]);
        }
    }
    m.unique_seq_to_set();
    let full = vstd::set_lib::set_int_range(0, n);
    vstd::set_lib::lemma_int_range(0, n);
    assert(m.to_set().subset_of(full)) by {
        assert forall|v: int| m.to_set().contains(v) implies full.contains(v) by {
            let i = choose|i: int| 0 <= i < m.len() && m[i] == v;
            assert(p[i] < n);
        }
    }
    vstd::set_lib::lemma_subset_equality(m.to_set(), full);
    assert(full.contains(x));
    assert(m.to_set().contains(x));
    let i = choose|i: int| 0 <= i < m.len() && m[i] == x;
    assert(p[i] == x as usize);
}

/// Two stable orders agree at every place.
proof fn lemma_orders_agree<K: Ranked>(keys: Seq<K>, p: Seq<usize>, q: Seq<usize>, n: int)
    requires
        stable_order_of(keys, p),
        stable_order_of(keys, q),
        0 <= n < p.len(),
    ensures
        p[n] == q[n],
    decreases n,
{
    if p[n] != q[n] {
        assert forall|m: int| 0 <= m < n implies p[m] == q[m] by {
            lemma_orders_agree(keys, p, q, m);
        }
        lemma_lists_all_has(q, keys.len() as int, p[n] as int);
        lemma_lists_all_has(p, keys.len() as int, q[n] as int);
        let i = choose|i: int| 0 <= i < q.len() && q[i] == p[n];
        let j = choose|j: int| 0 <= j < p.len() && p[j] == q[n];
        assert(i > n) by {
            if i < n {
                assert(p[i] == q[i]);
            }
        }
        assert(j > n) by {
            if j < n {
                assert(p[j] == q[j]);
            }
        }
        assert(precedes(keys, p[n] as int, p[j] as int));
        assert(precedes(keys, q[n] as int, q[i] as int));
        let a = keys[p[n] as int];
        let b = keys[q[n] as int];
        K::law_transitive(&a, &b, &a);
        K::law_irreflexive(&a);
    }
}

/// Texts in ascending order.
pub struct TextUp {
    pub text: String,
}

impl Ranked for TextUp {
    open spec fn ahead(&self, other: &Self) -> bool {
        lex_lt(self.text@, other.text@)
    }

    proof fn law_irreflexive(a: &Self) {
        lemma_lex_irreflexive(a.text@);
    }

    proof fn law_comparable(a: &Self, b: &Self, c: &Self) {
        if a.ahead(c) && !a.ahead(b) && !b.ahead(c) {
            lemma_lex_total(a.text@, b.text@);
            if lex_lt(b.text@, a.text@) {
                lemma_lex_transitive(b.text@, a.text@, c.text@);
            }
        }
    }

    proof fn law_transitive(a: &Self, b: &Self, c: &Self) {
        if a.ahead(b) && b.ahead(c) {
            lemma_lex_transitive(a.text@, b.text@, c.text@);
        }
    }

    fn is_ahead(&self, other: &Self) -> (r: bool) {
        is_before(self.text.as_str(), other.text.as_str())
    }
}

/// Numbers in descending order.
pub struct Descending {
    pub key: i64,
}

impl Ranked for Descending {
    open spec fn ahead(&self, other: &Self) -> bool {
        self.key > other.key
    }

    proof fn law_irreflexive(a: &Self) {
    }

    proof fn law_comparable(a: &Self, b: &Self, c: &Self) {
    }

    proof fn law_transitive(a: &Self, b: &Self, c: &Self) {
    }

    fn is_ahead(&self, other: &Self) -> (r: bool) {
        self.key > other.key
    }
}

} // verus!
