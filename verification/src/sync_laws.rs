//! What holds of pushing and pulling together.

use vstd::prelude::*;
use vstd::utf8::*;
use crate::channel::{stored_entry, SyncTransport};
use crate::cloud::{beats, device_of, eligible, good_device, is_pull_plan, key_of, law_key_round_trip, newest, parse_key, seen_of, stamp_of, valid_stamp, SnapView};
use crate::memory::MemTransport;
use crate::pull::push_request;
use crate::text::{lemma_lex_irreflexive, lemma_lex_total, lemma_lex_transitive, lex_lt};

verus! {

/// The stamp is later than all of a device's in a store.
pub open spec fn latest_of(store: MemTransport, device: Seq<char>, stamp: Seq<char>) -> bool {
    forall|k: Seq<char>| #[trigger]
        store.contents().contains_key(k) && device_of(k) == device && parse_key(k) is Some
            ==> lex_lt(stamp_of(k), stamp)
}

/// What one device pushes, every other device that has not applied it pulls: the entry is in the
/// plan, and what is fetched under its key is the text that was pushed.
pub proof fn law_pushed_snapshot_is_pulled(
    before: MemTransport,
    after: MemTransport,
    device: Seq<char>,
    stamp: Seq<char>,
    at: Seq<char>,
    text: Seq<char>,
    put: Result<SnapView, Seq<char>>,
    listed: Seq<SnapView>,
    own: Seq<char>,
    seen: Seq<(Seq<char>, Seq<char>)>,
    plan: Seq<SnapView>,
    got: Result<Seq<u8>, Seq<char>>,
)
    requires
        good_device(device),
        valid_stamp(stamp),
        device != own,
        latest_of(before, device, stamp),
        seen_of(seen, device) matches Some(k) ==> stamp_of(k).len() == 0 || lex_lt(
            stamp_of(k),
            stamp,
        ),
        MemTransport::may_put(&before, push_request(device, stamp, at, text), &after, put),
        after.may_list(Ok(listed)),
        is_pull_plan(listed, own, seen, plan),
        after.may_get(key_of(device, stamp), got),
    ensures
        plan.contains(stored_entry(push_request(device, stamp, at, text))),
        got is Ok,
        valid_utf8(got->Ok_0),
        decode_utf8(got->Ok_0) == text,
{
    let req = push_request(device, stamp, at, text);
    let e = stored_entry(req);
    let key = key_of(device, stamp);
    law_key_round_trip(key, device, stamp);
    encode_utf8_valid_utf8(text);
    encode_utf8_decode_utf8(text);
    assert(after.contents().contains_key(key));
    assert(listed.contains(after.contents()[key].0));
    let i = choose|i: int| 0 <= i < listed.len() && listed[i] == e;
    assert(listed[i] == e);
    assert(eligible(listed[i], own, seen));
    assert forall|j: int|
        0 <= j < listed.len() && eligible(#[trigger] listed[j], own, seen) && device_of(
            listed[j].key,
        ) == device_of(listed[i].key) implies !beats(listed, j, i) by {
        let k = listed[j].key;
        assert(after.contents().contains_key(k));
        lemma_lex_irreflexive(stamp);
        if k == key {
            if j < i {
                assert(lex_lt(listed[j].key, listed[i].key));
                lemma_lex_irreflexive(key);
            }
        } else {
            assert(before.contents().contains_key(k));
            assert(lex_lt(stamp_of(k), stamp));
            lemma_lex_total(stamp_of(k), stamp);
            if lex_lt(stamp, stamp_of(k)) {
                lemma_lex_transitive(stamp, stamp_of(k), stamp);
            }
        }
    }
    assert(newest(listed, own, seen, i));
    assert(plan.contains(listed[i]));
}

} // verus!
