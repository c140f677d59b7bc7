//! A store that keeps its entries in memory: an empty cloud to begin with.
use vstd::prelude::*;
use crate::channel::{entry_for, message, stored_entry, PutRequest, PutView, SyncTransport};
use crate::cloud::{snap_views, RemoteSnapshot, SnapView};
use crate::text::{is_before, lemma_lex_irreflexive, lemma_lex_total, lemma_lex_transitive, lex_lt, same};

verus! {

/// An entry with its body.
pub struct StoredItem {
    pub entry: RemoteSnapshot,
    pub body: Vec<u8>,
}

/// The in-memory store. Its items stand in strictly ascending order of their keys.
pub struct MemTransport {
    items: Vec<StoredItem>,
}

/// The items stand in strictly ascending order of their keys.
spec fn key_ordered(items: Seq<StoredItem>) -> bool {
    forall|i: int, j: int|
        0 <= i < j < items.len() ==> lex_lt(
            (#[trigger] items[i]).entry.key@,
            (#[trigger] items[j]).entry.key@,
        )
}

/// Item `i` of the list bears this key.
spec fn bears(items: Seq<StoredItem>, i: int, key: Seq<char>) -> bool {
    0 <= i < items.len() && items[i].entry.key@ == key
}

/// Some item of the list bears this key.
spec fn borne(items: Seq<StoredItem>, key: Seq<char>) -> bool {
    exists|i: int| #[trigger] bears(items, i, key)
}

/// The place of a key in the list.
spec fn place(items: Seq<StoredItem>, key: Seq<char>) -> int {
    choose|i: int| #[trigger] bears(items, i, key)
}

/// What the list holds, by key.
spec fn held(items: Seq<StoredItem>) -> Map<Seq<char>, (SnapView, Seq<u8>)> {
    Map::new(
        |key: Seq<char>| borne(items, key),
        |key: Seq<char>| (items[place(items, key)].entry@, items[place(items, key)].body@),
    )
}

/// In an ordered list a key has one place.
proof fn lemma_place(items: Seq<StoredItem>, i: int)
    requires
        key_ordered(items),
        0 <= i < items.len(),
    ensures
        borne(items, items[i].entry.key@),
        place(items, items[i].entry.key@) == i,
{
    let key = items[i].entry.key@;
    assert(bears(items, i, key));
    let p = place(items, key);
    assert(bears(items, p, key));
    lemma_lex_irreflexive(key);
    if p < i {
        assert(lex_lt(items[p].entry.key@, items[i].entry.key@));
    } else if i < p {
        assert(lex_lt(items[i].entry.key@, items[p].entry.key@));
    }
}

/// An ordered list holds as many keys as it has items.
proof fn lemma_held_len(items: Seq<StoredItem>)
    requires
        key_ordered(items),
    ensures
        held(items).dom().finite(),
        held(items).dom().len() == items.len(),
    decreases items.len(),
{
    if items.len() == 0 {
        assert(held(items).dom() =~= Set::<Seq<char>>::empty());
    } else {
        let rest = items.drop_last();
        let key = items.last().entry.key@;
        lemma_held_len(rest);
        assert(!borne(rest, key)) by {
            if borne(rest, key) {
                let p = place(rest, key);
                assert(bears(rest, p, key));
                assert(lex_lt(items[p].entry.key@, items[items.len() - 1].entry.key@));
                lemma_lex_irreflexive(key);
            }
        }
        assert(held(items).dom() =~= held(rest).dom().insert(key)) by {
            assert forall|k: Seq<char>| borne(items, k) <==> borne(rest, k) || k == key by {
                if borne(items, k) {
                    let p = place(items, k);
                    assert(bears(items, p, k));
                    if p < rest.len() {
                        assert(bears(rest, p, k));
                    }
                }
                if borne(rest, k) {
                    let p = place(rest, k);
                    assert(bears(rest, p, k));
                    assert(bears(items, p, k));
                }
                if k == key {
                    assert(bears(items, items.len() - 1, k));
                }
            }
        }
    }
}

/// Copies bytes.
fn copy_bytes(b: &[u8]) -> (r: Vec<u8>)
    ensures
        r@ == b@,
{
    vstd::slice::slice_to_vec(b)
}

/// The first place whose key does not come before the given one.
fn lower_place(items: &Vec<StoredItem>, key: &str) -> (p: usize)
    requires
        key_ordered(items@),
    ensures
        p <= items@.len(),
        forall|i: int| 0 <= i < p ==> lex_lt((#[trigger] items@[i]).entry.key@, key@),
        forall|i: int| p <= i < items@.len() ==> !lex_lt((#[trigger] items@[i]).entry.key@, key@),
{
    let mut p: usize = 0;
    while p < items.len() && is_before(items[p].entry.key.as_str(), key)
        invariant
            p <= items@.len(),
            forall|i: int| 0 <= i < p ==> lex_lt((#[trigger] items@[i]).entry.key@, key@),
        decreases items@.len() - p,
    {
        p += 1;
    }
    proof {
        assert forall|i: int| p <= i < items@.len() implies !lex_lt(
            (#[trigger] items@[i]).entry.key@,
            key@,
        ) by {
            if i > p {
                assert(lex_lt(items@[p as int].entry.key@, items@[i].entry.key@));
                if lex_lt(items@[i].entry.key@, key@) {
                    lemma_lex_transitive(items@[p as int].entry.key@, items@[i].entry.key@, key@);
                }
            }
        }
    }
    p
}

impl MemTransport {
    #[verifier::type_invariant]
    spec fn wf(self) -> bool {
        key_ordered(self.items@)
    }

    /// What the store holds: under each key the entry and its body.
    pub closed spec fn contents(&self) -> Map<Seq<char>, (SnapView, Seq<u8>)> {
        held(self.items@)
    }

    /// An empty store.
    pub fn new() -> (r: Self)
        ensures
            r.contents() == Map::<Seq<char>, (SnapView, Seq<u8>)>::empty(),
    {
        let r = MemTransport { items: Vec::new() };
        assert(r.contents() =~= Map::<Seq<char>, (SnapView, Seq<u8>)>::empty());
        r
    }

    /// Number of entries.
    pub fn len(&self) -> (r: usize)
        ensures
            self.contents().dom().finite(),
            r == self.contents().dom().len(),
    {
        proof {
            use_type_invariant(self);
            lemma_held_len(self.items@);
        }
        self.items.len()
    }

    /// Removes an entry, if it is there.
    pub fn drop_key(&mut self, key: &str)
        ensures
            final(self).contents() == old(self).contents().remove(key@),
    {
        proof {
            use_type_invariant(&*self);
        }
        let mut items: Vec<StoredItem> = Vec::new();
        std::mem::swap(&mut items, &mut self.items);
        let ghost before = items@;
        let p = lower_place(&items, key);
        if p < items.len() && same(items[p].entry.key.as_str(), key) {
            items.remove(p);
            proof {
                assert(items@ =~= before.remove(p as int));
                lemma_removed(before, items@, p as int);
            }
        } else {
            proof {
                assert(!borne(before, key@)) by {
                    if borne(before, key@) {
                        let q = place(before, key@);
                        assert(bears(before, q, key@));
                        lemma_lex_irreflexive(key@);
                        if q > p {
                            assert(lex_lt(before[p as int].entry.key@, before[q].entry.key@));
                        }
                    }
                }
                assert(held(before) =~= held(before).remove(key@));
            }
        }
        self.items = items;
    }
}

/// Removing one place removes one key.
proof fn lemma_removed(before: Seq<StoredItem>, after: Seq<StoredItem>, p: int)
    requires
        key_ordered(before),
        0 <= p < before.len(),
        after == before.remove(p),
    ensures
        key_ordered(after),
        held(after) == held(before).remove(before[p].entry.key@),
{
    let key = before[p].entry.key@;
    assert forall|i: int, j: int| 0 <= i < j < after.len() implies lex_lt(
        (#[trigger] after[i]).entry.key@,
        (#[trigger] after[j]).entry.key@,
    ) by {
        let bi = if i < p { i } else { i + 1 };
        let bj = if j < p { j } else { j + 1 };
        assert(after[i] == before[bi] && after[j] == before[bj]);
        assert(lex_lt(before[bi].entry.key@, before[bj].entry.key@));
    }
    lemma_place(before, p);
    assert forall|k: Seq<char>| borne(after, k) <==> borne(before, k) && k != key by {
        if borne(after, k) {
            let q = place(after, k);
            assert(bears(after, q, k));
            let bq = if q < p { q } else { q + 1 };
            assert(after[q] == before[bq]);
            assert(bears(before, bq, k));
            if k == key {
                lemma_place(before, bq);
            }
        }
        if borne(before, k) && k != key {
            let q = place(before, k);
            assert(bears(before, q, k));
            let aq = if q < p { q } else { q - 1 };
            assert(after[aq] == before[q]);
            assert(bears(after, aq, k));
        }
    }
    assert forall|k: Seq<char>| borne(after, k) implies held(after)[k] == held(before)[k] by {
        let q = place(after, k);
        assert(bears(after, q, k));
        let bq = if q < p { q } else { q + 1 };
        assert(after[q] == before[bq]);
        lemma_place(before, bq);
        lemma_place(after, q);
    }
    assert(held(after) =~= held(before).remove(key));
}

/// Inserting a new key at its place adds it.
proof fn lemma_inserted(before: Seq<StoredItem>, after: Seq<StoredItem>, p: int, item: StoredItem)
    requires
        key_ordered(before),
        0 <= p <= before.len(),
        after == before.insert(p, item),
        forall|i: int| 0 <= i < p ==> lex_lt((#[trigger] before[i]).entry.key@, item.entry.key@),
        forall|i: int|
            p <= i < before.len() ==> lex_lt(item.entry.key@, (#[trigger] before[i]).entry.key@),
    ensures
        key_ordered(after),
        held(after) == held(before).insert(item.entry.key@, (item.entry@, item.body@)),
{
    let key = item.entry.key@;
    assert forall|i: int, j: int| 0 <= i < j < after.len() implies lex_lt(
        (#[trigger] after[i]).entry.key@,
        (#[trigger] after[j]).entry.key@,
    ) by {
        let bi = if i < p { i } else { i - 1 };
        let bj = if j < p { j } else { j - 1 };
        if i != p {
            assert(after[i] == before[bi]);
        }
        if j != p {
            assert(after[j] == before[bj]);
        }
        if i != p && j != p {
            assert(lex_lt(before[bi].entry.key@, before[bj].entry.key@));
        }
    }
    assert(after[p] == item);
    lemma_place(after, p);
    assert forall|k: Seq<char>| borne(after, k) <==> borne(before, k) || k == key by {
        if borne(after, k) {
            let q = place(after, k);
            assert(bears(after, q, k));
            if q != p {
                let bq = if q < p { q } else { q - 1 };
                assert(after[q] == before[bq]);
                assert(bears(before, bq, k));
            }
        }
        if borne(before, k) {
            let q = place(before, k);
            assert(bears(before, q, k));
            let aq = if q < p { q } else { q + 1 };
            assert(after[aq] == before[q]);
            assert(bears(after, aq, k));
        }
    }
    assert forall|k: Seq<char>| borne(after, k) && k != key implies held(after)[k] == held(before)[k] by {
        let q = place(after, k);
        assert(bears(after, q, k));
        let bq = if q < p { q } else { q - 1 };
        assert(after[q] == before[bq]);
        lemma_place(before, bq);
    }
    assert(held(after) =~= held(before).insert(key, (item.entry@, item.body@)));
}

/// The entries of a listing stand in strictly ascending order of their keys.
pub open spec fn keys_ascend(v: Seq<SnapView>) -> bool {
    forall|i: int, j: int|
        0 <= i < j < v.len() ==> lex_lt((#[trigger] v[i]).key, (#[trigger] v[j]).key)
}

/// `v` lists what the store holds, in order of the keys.
pub open spec fn lists_contents(v: Seq<SnapView>, m: Map<Seq<char>, (SnapView, Seq<u8>)>) -> bool {
    &&& keys_ascend(v)
    &&& forall|i: int|
        0 <= i < v.len() ==> m.contains_key((#[trigger] v[i]).key) && m[v[i].key].0 == v[i]
    &&& forall|k: Seq<char>| #[trigger] m.contains_key(k) ==> v.contains(m[k].0)
}

impl SyncTransport for MemTransport {
    open spec fn may_list(&self, r: Result<Seq<SnapView>, Seq<char>>) -> bool {
        r matches Ok(v) && lists_contents(v, self.contents())
    }

    open spec fn may_put(
        before: &Self,
        req: PutView,
        after: &Self,
        r: Result<SnapView, Seq<char>>,
    ) -> bool {
        &&& r == Ok::<SnapView, Seq<char>>(stored_entry(req))
        &&& after.contents() == before.contents().insert(req.key, (stored_entry(req), req.body))
    }

    open spec fn may_get(&self, key: Seq<char>, r: Result<Seq<u8>, Seq<char>>) -> bool {
        r == (if self.contents().contains_key(key) {
            Ok::<Seq<u8>, Seq<char>>(self.contents()[key].1)
        } else {
            Err("远端条目不存在: "@ + key)
        })
    }

    fn list(&self) -> (r: Result<Vec<RemoteSnapshot>, String>)
    {
        proof {
            use_type_invariant(self);
        }
        let mut out: Vec<RemoteSnapshot> = Vec::new();
        let mut i: usize = 0;
        while i < self.items.len()
            invariant
                i <= self.items@.len(),
                out@.len() == i,
                forall|k: int| 0 <= k < i ==> (#[trigger] out@[k])@ == self.items@[k].entry@,
            decreases self.items@.len() - i,
        {
            out.push(self.items[i].entry.duplicate());
            i += 1;
        }
        proof {
            let v = snap_views(out@);
            let items = self.items@;
            assert forall|a: int| 0 <= a < v.len() implies self.contents().contains_key(
                (#[trigger] v[a]).key,
            ) && self.contents()[v[a].key].0 == v[a] by {
                assert(v[a] == out@[a]@);
                lemma_place(items, a);
            }
            assert forall|a: int, b: int| 0 <= a < b < v.len() implies lex_lt(
                (#[trigger] v[a]).key,
                (#[trigger] v[b]).key,
            ) by {
                assert(v[a] == out@[a]@ && v[b] == out@[b]@);
                assert(lex_lt(items[a].entry.key@, items[b].entry.key@));
            }
            assert forall|k: Seq<char>| #[trigger] self.contents().contains_key(k) implies v.contains(
                self.contents()[k].0,
            ) by {
                let p = place(items, k);
                assert(bears(items, p, k));
                assert(v[p] == out@[p]@);
            }
        }
        Ok(out)
    }

    fn put(&mut self, req: &PutRequest) -> (r: Result<RemoteSnapshot, String>)
    {
        proof {
            use_type_invariant(&*self);
        }
        let entry = entry_for(req);
        let item = StoredItem { entry: entry.duplicate(), body: copy_bytes(req.body) };
        let mut items: Vec<StoredItem> = Vec::new();
        std::mem::swap(&mut items, &mut self.items);
        let ghost before = items@;
        let p = lower_place(&items, req.key);
        let ghost mut base = before;
        if p < items.len() && same(items[p].entry.key.as_str(), req.key) {
            items.remove(p);
            proof {
                base = before.remove(p as int);
                assert(items@ =~= base);
                lemma_removed(before, base, p as int);
                assert forall|i: int| p <= i < base.len() implies lex_lt(
                    req.key@,
                    (#[trigger] base[i]).entry.key@,
                ) by {
                    assert(base[i] == before[i + 1]);
                    assert(lex_lt(before[p as int].entry.key@, before[i + 1].entry.key@));
                }
            }
        } else {
            proof {
                assert forall|i: int| p <= i < base.len() implies lex_lt(
                    req.key@,
                    (#[trigger] base[i]).entry.key@,
                ) by {
                    lemma_lex_total(req.key@, before[i].entry.key@);
                    if i > p {
                        lemma_lex_total(req.key@, before[p as int].entry.key@);
                        assert(lex_lt(before[p as int].entry.key@, before[i].entry.key@));
                        lemma_lex_transitive(
                            req.key@,
                            before[p as int].entry.key@,
                            before[i].entry.key@,
                        );
                    }
                }
            }
        }
        items.insert(p, item);
        proof {
            assert(items@ =~= base.insert(p as int, item));
            lemma_inserted(base, items@, p as int, item);
            assert(held(items@) =~= held(before).insert(req.key@, (stored_entry(req@), req.body@)));
        }
        self.items = items;
        Ok(entry)
    }

    fn get(&self, key: &str) -> (r: Result<Vec<u8>, String>)
    {
        proof {
            use_type_invariant(self);
        }
        let mut i: usize = 0;
        while i < self.items.len()
            invariant
                key_ordered(self.items@),
                i <= self.items@.len(),
                forall|k: int| 0 <= k < i ==> (#[trigger] self.items@[k]).entry.key@ != key@,
            decreases self.items@.len() - i,
        {
            if same(self.items[i].entry.key.as_str(), key) {
                proof {
                    lemma_place(self.items@, i as int);
                }
                return Ok(copy_bytes(self.items[i].body.as_slice()));
            }
            i += 1;
        }
        proof {
            if borne(self.items@, key@) {
                let p = place(self.items@, key@);
                assert(bears(self.items@, p, key@));
            }
        }
        Err(message("远端条目不存在: ", key))
    }
}

/// A body that was put is what a get of its key hands back, whatever the store held before; the
/// other entries stand as they were.
pub proof fn law_put_then_get(
    before: MemTransport,
    req: PutView,
    after: MemTransport,
    put: Result<SnapView, Seq<char>>,
    got: Result<Seq<u8>, Seq<char>>,
    key: Seq<char>,
)
    requires
        MemTransport::may_put(&before, req, &after, put),
        after.may_get(key, got),
    ensures
        put is Ok,
        key == req.key ==> got == Ok::<Seq<u8>, Seq<char>>(req.body),
        key != req.key ==> before.may_get(key, got),
{
}

/// Putting the same request again changes nothing.
pub proof fn law_put_idempotent(
    before: MemTransport,
    req: PutView,
    once: MemTransport,
    twice: MemTransport,
    r1: Result<SnapView, Seq<char>>,
    r2: Result<SnapView, Seq<char>>,
)
    requires
        MemTransport::may_put(&before, req, &once, r1),
        MemTransport::may_put(&once, req, &twice, r2),
    ensures
        twice.contents() == once.contents(),
        r1 == r2,
{
    assert(twice.contents() =~= once.contents());
}

} // verus!
