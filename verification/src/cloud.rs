//! Cloud synchronisation: names of remote entries, the pull plan and the channel configuration.
use vstd::prelude::*;
use vstd::utf8::*;
use crate::order::{stable_order, lists_all, precedes, Ranked};
use crate::text::{byte_edge, bytes_cut, cut_bytes, digit, is_before, lemma_ascii_bytes, lemma_lex_irreflexive, lemma_lex_total, lemma_lex_transitive, lex_lt, same, slice_text, stands_at, to_chars};

verus! {

/// Kind of an entry that holds a device snapshot.
pub const KIND_SNAPSHOT: &'static str = "snapshot";

/// Kind of an entry that holds a whole-database backup.
pub const KIND_BACKUP: &'static str = "backup";

/// Length of a time stamp `YYYYMMDD-HHMMSSmmm`.
pub const STAMP_LEN: usize = 18;

/// File suffix of a device snapshot.
pub const SNAPSHOT_SUFFIX: &'static str = ".jsonl";

// ---------------------------------------------------------------------------
// Stamps and keys
// ---------------------------------------------------------------------------

/// A time stamp: eighteen characters, the ninth a hyphen and all others digits.
pub open spec fn valid_stamp(s: Seq<char>) -> bool {
    &&& s.len() == STAMP_LEN
    &&& s[8] == '-'
    &&& forall|i: int| 0 <= i < s.len() && i != 8 ==> digit(#[trigger] s[i])
}

/// Whether `s` is a time stamp.
pub fn is_valid_stamp(s: &str) -> (r: bool)
    ensures
        r == valid_stamp(s@),
{
    let v = to_chars(s);
    if v.len() != STAMP_LEN || v[8] != '-' {
        return false;
    }
    let mut i: usize = 0;
    while i < v.len()
        invariant
            v@ == s@,
            v@.len() == STAMP_LEN,
            v@[8] == '-',
            i <= v@.len(),
            forall|j: int| 0 <= j < i && j != 8 ==> digit(#[trigger] v@[j]),
        decreases v@.len() - i,
    {
        if i != 8 && !('0' <= v[i] && v[i] <= '9') {
            assert(!digit(s@[i as int]));
            return false;
        }
        i += 1;
    }
    true
}

/// A device name that a key can carry: not empty and without a slash.
pub open spec fn good_device(d: Seq<char>) -> bool {
    d.len() > 0 && !d.contains('/')
}

/// The remote key of a device's snapshot.
pub open spec fn key_of(device: Seq<char>, stamp: Seq<char>) -> Seq<char> {
    device + "/"@ + stamp + SNAPSHOT_SUFFIX@
}

/// The remote key of a device's snapshot: `{device}/{stamp}.jsonl`.
pub fn snapshot_key(device: &str, stamp: &str) -> (r: String)
    ensures
        r@ == key_of(device@, stamp@),
{
    let mut s = device.to_owned();
    s.append("/");
    s.append(stamp);
    s.append(SNAPSHOT_SUFFIX);
    s
}

/// The device and the stamp that a key names, where it is the key of a device's snapshot.
pub open spec fn parse_key(key: Seq<char>) -> Option<(Seq<char>, Seq<char>)> {
    let d = key.take(key.len() - 25);
    let s = key.subrange(key.len() - 24, key.len() - 6);
    if key.len() > 25 && good_device(d) && valid_stamp(s) && key == key_of(d, s) {
        Some((d, s))
    } else {
        None
    }
}

/// Reading a key gives back exactly the device and the stamp it was built from, and a key that
/// reads at all is one that was built from them.
pub proof fn law_key_round_trip(key: Seq<char>, d: Seq<char>, s: Seq<char>)
    ensures
        parse_key(key) == Some((d, s)) <==> good_device(d) && valid_stamp(s) && key == key_of(d, s),
{
    reveal_strlit("/");
    reveal_strlit(".jsonl");
    if good_device(d) && valid_stamp(s) && key == key_of(d, s) {
        assert(key.len() == d.len() + 25);
        assert(key.take(key.len() - 25) =~= d);
        assert(key.subrange(key.len() - 24, key.len() - 6) =~= s);
    }
}

/// The place of the last `c` in `v`.
fn last_index_of(v: &Vec<char>, c: char) -> (r: Option<usize>)
    ensures
        match r {
            Some(i) => i < v@.len() && v@[i as int] == c && (forall|j: int|
                i < j < v@.len() ==> v@[j] != c),
            None => !v@.contains(c),
        },
{
    let mut i: usize = v.len();
    while i > 0
        invariant
            i <= v@.len(),
            forall|j: int| i <= j < v@.len() ==> v@[j] != c,
        decreases i,
    {
        if v[i - 1] == c {
            return Some(i - 1);
        }
        i -= 1;
    }
    None
}

/// Whether `c` stands among the first `n` characters of `v`.
fn has_char_before(v: &Vec<char>, c: char, n: usize) -> (r: bool)
    requires
        n <= v@.len(),
    ensures
        r == v@.take(n as int).contains(c),
{
    let mut i: usize = 0;
    while i < n
        invariant
            i <= n <= v@.len(),
            forall|j: int| 0 <= j < i ==> v@[j] != c,
        decreases n - i,
    {
        if v[i] == c {
            assert(v@.take(n as int)[i as int] == c);
            return true;
        }
        i += 1;
    }
    false
}

/// The device and the stamp that a remote key names; `None` where it is no such key.
pub fn parse_snapshot_key(key: &str) -> (r: Option<(String, String)>)
    ensures
        match r {
            Some(p) => parse_key(key@) == Some((p.0@, p.1@)),
            None => parse_key(key@) is None,
        },
{
    proof {
        reveal_strlit("/");
        reveal_strlit(".jsonl");
    }
    let v = to_chars(key);
    let ghost n = v@.len() as int;
    let cut = match last_index_of(&v, '/') {
        Some(i) => i,
        None => {
            assert(parse_key(key@) is None) by {
                if n > 25 && key@ == key_of(v@.take(n - 25), v@.subrange(n - 24, n - 6)) {
                    assert(v@[n - 25] == '/');
                }
            }
            return None;
        },
    };
    let suffix = to_chars(SNAPSHOT_SUFFIX);
    if cut == 0 || has_char_before(&v, '/', cut) || v.len() - cut - 1 < suffix.len() || !stands_at(
        &v,
        &suffix,
        v.len() - suffix.len(),
    ) {
        assert(parse_key(key@) is None) by {
            let d = v@.take(n - 25);
            let s = v@.subrange(n - 24, n - 6);
            if n > 25 && good_device(d) && valid_stamp(s) && key@ == key_of(d, s) {
                lemma_key_slash(d, s, cut as int);
                assert(v@.subrange(n - 6, n) =~= suffix@);
                assert(v@.take(cut as int) =~= d);
            }
        }
        return None;
    }
    let stamp = slice_text(&v, cut + 1, v.len() - suffix.len());
    let device = slice_text(&v, 0, cut);
    assert(v@.take(cut as int) =~= device@);
    assert(v@ =~= key_of(device@, stamp@)) by {
        assert(v@.subrange(n - 6, n) == suffix@);
        assert(v@[cut as int] == '/');
    }
    if !is_valid_stamp(stamp.as_str()) {
        assert(parse_key(key@) is None) by {
            let d = v@.take(n - 25);
            let s = v@.subrange(n - 24, n - 6);
            if n > 25 && good_device(d) && valid_stamp(s) && key@ == key_of(d, s) {
                lemma_key_slash(d, s, cut as int);
                assert(stamp@ =~= s);
            }
        }
        return None;
    }
    assert(parse_key(key@) == Some((device@, stamp@))) by {
        law_key_round_trip(key@, device@, stamp@);
    }
    Some((device, stamp))
}

/// The last slash of a well-formed key stands right after the device name.
proof fn lemma_key_slash(d: Seq<char>, s: Seq<char>, cut: int)
    requires
        valid_stamp(s),
        0 <= cut < key_of(d, s).len(),
        key_of(d, s)[cut] == '/',
        forall|j: int| cut < j < key_of(d, s).len() ==> key_of(d, s)[j] != '/',
    ensures
        cut == d.len(),
{
    reveal_strlit("/");
    reveal_strlit(".jsonl");
    let k = key_of(d, s);
    assert(k[d.len() as int] == '/');
    if cut > d.len() {
        if cut < d.len() + 19 {
            assert(k[cut] == s[cut - d.len() - 1]);
        } else {
            assert(k[cut] == SNAPSHOT_SUFFIX@[cut - d.len() - 19]);
        }
    }
}

/// A stamp has its date and its time where the ninth byte is a hyphen and six more bytes follow.
pub open spec fn stamp_shaped(s: Seq<char>) -> bool {
    encode_utf8(s).len() >= 15 && encode_utf8(s)[8] == 0x2d
}

/// The time that a stamp stands for, `YYYY-MM-DD HH:MM:SS`; what is not shaped like a stamp stands
/// for itself.
pub open spec fn stamp_at(s: Seq<char>) -> Seq<char> {
    if stamp_shaped(s) {
        bytes_cut(s, 0, 4) + "-"@ + bytes_cut(s, 4, 6) + "-"@ + bytes_cut(s, 6, 8) + " "@
            + bytes_cut(s, 9, 11) + ":"@ + bytes_cut(s, 11, 13) + ":"@ + bytes_cut(s, 13, 15)
    } else {
        s
    }
}

/// The time that a stamp stands for.
pub fn stamp_to_at(stamp: &str) -> (r: String)
    requires
        stamp_shaped(stamp@) ==> byte_edge(stamp@, 4) && byte_edge(stamp@, 6) && byte_edge(
            stamp@,
            11,
        ) && byte_edge(stamp@, 13) && byte_edge(stamp@, 15),
    ensures
        r@ == stamp_at(stamp@),
{
    let bytes = stamp.as_bytes();
    if bytes.len() < 15 || bytes[8] != 0x2d {
        return stamp.to_owned();
    }
    proof {
        let b = encode_utf8(stamp@);
        encode_utf8_valid_utf8(stamp@);
        is_char_boundary_iff_not_is_continuation_byte(b, 8);
        lemma_edge_after_ascii(stamp@, 8);
        is_char_boundary_start_end_of_seq(b);
    }
    let mut r = cut_bytes(stamp, 0, 4).to_owned();
    r.append("-");
    r.append(cut_bytes(stamp, 4, 6));
    r.append("-");
    r.append(cut_bytes(stamp, 6, 8));
    r.append(" ");
    r.append(cut_bytes(stamp, 9, 11));
    r.append(":");
    r.append(cut_bytes(stamp, 11, 13));
    r.append(":");
    r.append(cut_bytes(stamp, 13, 15));
    r
}

/// The position after a one-byte character lies between two characters.
proof fn lemma_edge_after_ascii(s: Seq<char>, i: int)
    requires
        0 <= i < encode_utf8(s).len(),
        encode_utf8(s)[i] <= 0x7f,
    ensures
        byte_edge(s, i + 1),
{
    let b = encode_utf8(s);
    encode_utf8_valid_utf8(s);
    is_char_boundary_iff_not_is_continuation_byte(b, i);
    lemma_edge_step(b, i);
}

/// Where a one-byte character begins, the next position is again between two characters.
proof fn lemma_edge_step(b: Seq<u8>, i: int)
    requires
        valid_utf8(b),
        0 <= i < b.len(),
        b[i] <= 0x7f,
        is_char_boundary(b, i),
    ensures
        is_char_boundary(b, i + 1),
    decreases b.len(),
{
    reveal_with_fuel(is_char_boundary, 2);
    if i > 0 {
        let n = length_of_first_scalar(b);
        let t = pop_first_scalar(b);
        assert(is_char_boundary(t, i - n));
        assert(0 <= i - n <= t.len());
        assert(t[i - n] == b[i]);
        lemma_edge_step(t, i - n);
    }
}

/// A time stamp stands for its own digits, read as date and time.
pub proof fn law_stamp_at(s: Seq<char>)
    requires
        valid_stamp(s),
    ensures
        stamp_at(s) == s.subrange(0, 4) + "-"@ + s.subrange(4, 6) + "-"@ + s.subrange(6, 8) + " "@
            + s.subrange(9, 11) + ":"@ + s.subrange(11, 13) + ":"@ + s.subrange(13, 15),
        byte_edge(s, 4) && byte_edge(s, 6) && byte_edge(s, 11) && byte_edge(s, 13) && byte_edge(
            s,
            15,
        ),
{
    assert(is_ascii_chars(s)) by {
        assert forall|i: int| 0 <= i < s.len() implies '\0' <= #[trigger] s[i] <= '\u{7f}' by {
            if i != 8 {
                assert(digit(s[i]));
            }
        }
    }
    is_ascii_chars_encode_utf8(s);
    lemma_ascii_bytes(s, 0, 4);
    lemma_ascii_bytes(s, 4, 6);
    lemma_ascii_bytes(s, 6, 8);
    lemma_ascii_bytes(s, 9, 11);
    lemma_ascii_bytes(s, 11, 13);
    lemma_ascii_bytes(s, 13, 15);
    lemma_ascii_bytes(s, 15, 15);
    assert(s[8] as u8 == encode_utf8(s)[8]);
}

// ---------------------------------------------------------------------------
// Remote entries
// ---------------------------------------------------------------------------

/// What is known of a remote entry without its body.
#[derive(Debug, Clone)]
pub struct RemoteSnapshot {
    /// Unique remote key, for a device snapshot `{device}/{stamp}.jsonl`.
    pub key: String,
    /// Name of the source device; empty where the listing gives none.
    pub device: String,
    /// Time of export.
    pub at: String,
    /// Number of bytes.
    pub size: i64,
    /// `snapshot` or `backup`.
    pub kind: String,
}

/// Model of a remote entry.
#[verifier::ext_equal]
pub struct SnapView {
    pub key: Seq<char>,
    pub device: Seq<char>,
    pub at: Seq<char>,
    pub size: i64,
    pub kind: Seq<char>,
}

impl View for RemoteSnapshot {
    type V = SnapView;

    open spec fn view(&self) -> SnapView {
        SnapView {
            key: self.key@,
            device: self.device@,
            at: self.at@,
            size: self.size,
            kind: self.kind@,
        }
    }
}

impl RemoteSnapshot {
    /// A copy of this entry.
    pub fn duplicate(&self) -> (r: RemoteSnapshot)
        ensures
            r@ == self@,
    {
        RemoteSnapshot {
            key: self.key.clone(),
            device: self.device.clone(),
            at: self.at.clone(),
            size: self.size,
            kind: self.kind.clone(),
        }
    }
}

/// The models of a list of entries.
pub open spec fn snap_views(v: Seq<RemoteSnapshot>) -> Seq<SnapView> {
    v.map_values(|r: RemoteSnapshot| r@)
}

/// The newest snapshot of a device that has been applied here.
#[derive(Debug, Clone)]
pub struct SeenMark {
    pub device: String,
    pub key: String,
}

/// Model of the applied marks.
pub open spec fn seen_views(v: Seq<SeenMark>) -> Seq<(Seq<char>, Seq<char>)> {
    v.map_values(|m: SeenMark| (m.device@, m.key@))
}

/// The key marked as applied for a device: that of the first mark for it.
pub open spec fn seen_of(seen: Seq<(Seq<char>, Seq<char>)>, device: Seq<char>) -> Option<Seq<char>>
    decreases seen.len(),
{
    if seen.len() == 0 {
        None
    } else if seen[0].0 == device {
        Some(seen[0].1)
    } else {
        seen_of(seen.skip(1), device)
    }
}

/// The stamp in a key, empty where the key does not read.
pub open spec fn stamp_of(key: Seq<char>) -> Seq<char> {
    match parse_key(key) {
        Some(p) => p.1,
        None => Seq::empty(),
    }
}

/// The stamp of an entry: that in its key, else its time.
pub fn entry_stamp(e: &RemoteSnapshot) -> (r: String)
    ensures
        r@ == (match parse_key(e.key@) {
            Some(p) => p.1,
            None => e.at@,
        }),
{
    match parse_snapshot_key(e.key.as_str()) {
        Some(p) => p.1,
        None => e.at.clone(),
    }
}

/// An entry may be pulled: it is a device snapshot of another device, its key reads and agrees
/// with the device that the listing declares, and it is newer than what was applied already.
pub open spec fn eligible(r: SnapView, own: Seq<char>, seen: Seq<(Seq<char>, Seq<char>)>) -> bool {
    match parse_key(r.key) {
        None => false,
        Some(p) => {
            &&& r.kind == KIND_SNAPSHOT@
            &&& r.device.len() == 0 || r.device == p.0
            &&& p.0 != own
            &&& match seen_of(seen, p.0) {
                None => true,
                Some(k) => stamp_of(k).len() == 0 || lex_lt(stamp_of(k), p.1),
            }
        },
    }
}

/// The device named by a key that reads.
pub open spec fn device_of(key: Seq<char>) -> Seq<char> {
    match parse_key(key) {
        Some(p) => p.0,
        None => Seq::empty(),
    }
}

/// Entry `i` is the newest of those of its device that may be pulled; of two with one stamp the
/// first counts.
pub open spec fn newest(
    remote: Seq<SnapView>,
    own: Seq<char>,
    seen: Seq<(Seq<char>, Seq<char>)>,
    i: int,
) -> bool {
    &&& 0 <= i < remote.len()
    &&& eligible(remote[i], own, seen)
    &&& forall|j: int|
        0 <= j < remote.len() && eligible(#[trigger] remote[j], own, seen) && device_of(
            remote[j].key,
        ) == device_of(remote[i].key) ==> !beats(remote, j, i)
}

/// Entry `j` is taken rather than entry `i` of the same device.
pub open spec fn beats(remote: Seq<SnapView>, j: int, i: int) -> bool {
    lex_lt(stamp_of(remote[i].key), stamp_of(remote[j].key)) || (stamp_of(remote[i].key)
        == stamp_of(remote[j].key) && j < i)
}

/// `x` is the newest entry of its device among those that may be pulled.
pub open spec fn is_newest_entry(
    remote: Seq<SnapView>,
    own: Seq<char>,
    seen: Seq<(Seq<char>, Seq<char>)>,
    x: SnapView,
) -> bool {
    exists|i: int| #[trigger] newest(remote, own, seen, i) && remote[i] == x
}

/// One entry is pulled before another: its time is earlier, or at the same time its key is smaller.
pub open spec fn pulled_before(a: SnapView, b: SnapView) -> bool {
    lex_lt(a.at, b.at) || (a.at == b.at && lex_lt(a.key, b.key))
}

/// `out` is the pull plan: exactly the newest entry of each device, in order of time and key.
pub open spec fn is_pull_plan(
    remote: Seq<SnapView>,
    own: Seq<char>,
    seen: Seq<(Seq<char>, Seq<char>)>,
    out: Seq<SnapView>,
) -> bool {
    &&& forall|k: int| 0 <= k < out.len() ==> is_newest_entry(remote, own, seen, #[trigger] out[k])
    &&& forall|i: int| #[trigger] newest(remote, own, seen, i) ==> out.contains(remote[i])
    &&& forall|a: int, b: int|
        0 <= a < b < out.len() ==> pulled_before(#[trigger] out[a], #[trigger] out[b])
}

/// Key under which the plan is ordered.
pub struct PullKey {
    pub at: String,
    pub key: String,
}

impl Ranked for PullKey {
    open spec fn ahead(&self, other: &Self) -> bool {
        lex_lt(self.at@, other.at@) || (self.at@ == other.at@ && lex_lt(self.key@, other.key@))
    }

    proof fn law_irreflexive(a: &Self) {
        lemma_lex_irreflexive(a.at@);
        lemma_lex_irreflexive(a.key@);
    }

    proof fn law_comparable(a: &Self, b: &Self, c: &Self) {
        lemma_lex_total(a.at@, b.at@);
        lemma_lex_total(b.at@, c.at@);
        lemma_lex_total(a.key@, b.key@);
        lemma_lex_total(b.key@, c.key@);
        if a.ahead(c) && !a.ahead(b) && !b.ahead(c) {
            if lex_lt(b.at@, a.at@) {
                if lex_lt(a.at@, c.at@) {
                    lemma_lex_transitive(b.at@, a.at@, c.at@);
                }
            } else {
                if lex_lt(c.at@, b.at@) {
                    if lex_lt(a.at@, c.at@) {
                        lemma_lex_transitive(a.at@, c.at@, b.at@);
                    }
                    lemma_lex_irreflexive(a.at@);
                } else {
                    if lex_lt(b.key@, a.key@) && lex_lt(a.key@, c.key@) {
                        lemma_lex_transitive(b.key@, a.key@, c.key@);
                    }
                    lemma_lex_irreflexive(a.at@);
                }
            }
        }
    }

    proof fn law_transitive(a: &Self, b: &Self, c: &Self) {
        if a.ahead(b) && b.ahead(c) {
            if lex_lt(a.at@, b.at@) && lex_lt(b.at@, c.at@) {
                lemma_lex_transitive(a.at@, b.at@, c.at@);
            }
            if lex_lt(a.key@, b.key@) && lex_lt(b.key@, c.key@) {
                lemma_lex_transitive(a.key@, b.key@, c.key@);
            }
        }
    }

    fn is_ahead(&self, other: &Self) -> (r: bool) {
        is_before(self.at.as_str(), other.at.as_str()) || (same(
            self.at.as_str(),
            other.at.as_str(),
        ) && is_before(self.key.as_str(), other.key.as_str()))
    }
}

/// The key marked as applied for a device.
pub fn seen_key(seen: &Vec<SeenMark>, device: &str) -> (r: Option<String>)
    ensures
        match r {
            Some(k) => seen_of(seen_views(seen@), device@) == Some(k@),
            None => seen_of(seen_views(seen@), device@) is None,
        },
{
    let mut i: usize = 0;
    let ghost all = seen_views(seen@);
    assert(all.skip(0) =~= all);
    while i < seen.len()
        invariant
            all == seen_views(seen@),
            i <= seen@.len(),
            seen_of(all, device@) == seen_of(all.skip(i as int), device@),
        decreases seen@.len() - i,
    {
        assert(all.skip(i as int).skip(1) =~= all.skip(i + 1));
        if same(seen[i].device.as_str(), device) {
            return Some(seen[i].key.clone());
        }
        i += 1;
    }
    None
}

/// Whether an entry may be pulled.
pub fn is_eligible(r: &RemoteSnapshot, own_device: &str, seen: &Vec<SeenMark>) -> (ok: bool)
    ensures
        ok == eligible(r@, own_device@, seen_views(seen@)),
{
    if !same(r.kind.as_str(), KIND_SNAPSHOT) {
        return false;
    }
    match parse_snapshot_key(r.key.as_str()) {
        None => false,
        Some(p) => {
            if !r.device.as_str().is_empty() && !same(r.device.as_str(), p.0.as_str()) {
                return false;
            }
            if same(p.0.as_str(), own_device) {
                return false;
            }
            match seen_key(seen, p.0.as_str()) {
                None => true,
                Some(k) => {
                    let prev = match parse_snapshot_key(k.as_str()) {
                        Some(q) => q.1,
                        None => String::new(),
                    };
                    prev.as_str().is_empty() || is_before(prev.as_str(), p.1.as_str())
                },
            }
        },
    }
}

/// Whether entry `i` is the newest of its device among those that may be pulled.
fn is_newest(
    remote: &Vec<RemoteSnapshot>,
    own_device: &str,
    seen: &Vec<SeenMark>,
    i: usize,
) -> (ok: bool)
    requires
        i < remote@.len(),
    ensures
        ok == newest(snap_views(remote@), own_device@, seen_views(seen@), i as int),
{
    if !is_eligible(&remote[i], own_device, seen) {
        return false;
    }
    let mine = match parse_snapshot_key(remote[i].key.as_str()) {
        Some(p) => p,
        None => return false,
    };
    let ghost rv = snap_views(remote@);
    let mut j: usize = 0;
    while j < remote.len()
        invariant
            rv == snap_views(remote@),
            i < remote@.len(),
            j <= remote@.len(),
            parse_key(rv[i as int].key) == Some((mine.0@, mine.1@)),
            forall|k: int|
                0 <= k < j && eligible(#[trigger] rv[k], own_device@, seen_views(seen@))
                    && device_of(rv[k].key) == device_of(rv[i as int].key) ==> !beats(
                    rv,
                    k,
                    i as int,
                ),
        decreases remote@.len() - j,
    {
        if is_eligible(&remote[j], own_device, seen) {
            assert(eligible(rv[j as int], own_device@, seen_views(seen@)));
            match parse_snapshot_key(remote[j].key.as_str()) {
                None => {},
                Some(q) => {
                    if same(q.0.as_str(), mine.0.as_str()) && (is_before(
                        mine.1.as_str(),
                        q.1.as_str(),
                    ) || (same(mine.1.as_str(), q.1.as_str()) && j < i)) {
                        assert(beats(rv, j as int, i as int));
                        return false;
                    }
                },
            }
        }
        j += 1;
    }
    true
}

/// The entries to pull: the newest entry of each other device, in order of export time.
pub fn plan_pull(remote: &Vec<RemoteSnapshot>, own_device: &str, seen: &Vec<SeenMark>) -> (out: Vec<
    RemoteSnapshot,
>)
    ensures
        is_pull_plan(snap_views(remote@), own_device@, seen_views(seen@), snap_views(out@)),
{
    let ghost rv = snap_views(remote@);
    let ghost sv = seen_views(seen@);
    let mut picks: Vec<usize> = Vec::new();
    let mut keys: Vec<PullKey> = Vec::new();
    let mut i: usize = 0;
    while i < remote.len()
        invariant
            rv == snap_views(remote@),
            sv == seen_views(seen@),
            i <= remote@.len(),
            picks@.len() == keys@.len(),
            forall|k: int|
                0 <= k < picks@.len() ==> newest(rv, own_device@, sv, (#[trigger] picks@[k]) as int)
                    && picks@[k] < i,
            forall|k: int|
                0 <= k < keys@.len() ==> (#[trigger] keys@[k]).at@ == rv[picks@[k] as int].at
                    && keys@[k].key@ == rv[picks@[k] as int].key,
            forall|a: int, b: int|
                0 <= a < b < picks@.len() ==> (#[trigger] picks@[a]) < (#[trigger] picks@[b]),
            forall|n: int|
                0 <= n < i && #[trigger] newest(rv, own_device@, sv, n) ==> picks@.contains(
                    n as usize,
                ),
        decreases remote@.len() - i,
    {
        if is_newest(remote, own_device, seen, i) {
            let ghost before = picks@;
            picks.push(i);
            keys.push(PullKey { at: remote[i].at.clone(), key: remote[i].key.clone() });
            proof {
                assert(picks@[before.len() as int] == i);
                assert forall|n: int|
                    0 <= n < i + 1 && #[trigger] newest(rv, own_device@, sv, n) implies picks@.contains(
                    n as usize,
                ) by {
                    if n < i {
                        let k = choose|k: int| 0 <= k < before.len() && before[k] == n as usize;
                        assert(picks@[k] == n as usize);
                    }
                }
            }
        }
        i += 1;
    }
    let order = stable_order(&keys);
    let mut out: Vec<RemoteSnapshot> = Vec::new();
    let mut k: usize = 0;
    while k < order.len()
        invariant
            rv == snap_views(remote@),
            lists_all(order@, keys@.len() as int),
            picks@.len() == keys@.len(),
            forall|a: int| 0 <= a < picks@.len() ==> (#[trigger] picks@[a]) < remote@.len(),
            k <= order@.len(),
            out@.len() == k,
            forall|a: int| 0 <= a < k ==> (#[trigger] out@[a])@ == rv[picks@[order@[a] as int] as int],
        decreases order@.len() - k,
    {
        out.push(remote[picks[order[k]]].duplicate());
        k += 1;
    }
    proof {
        let ov = snap_views(out@);
        assert forall|a: int| 0 <= a < ov.len() implies is_newest_entry(
            rv,
            own_device@,
            sv,
            #[trigger] ov[a],
        ) by {
            assert(out@[a]@ == rv[picks@[order@[a] as int] as int]);
            assert(newest(rv, own_device@, sv, picks@[order@[a] as int] as int));
        }
        assert forall|n: int| #[trigger] newest(rv, own_device@, sv, n) implies ov.contains(rv[n]) by {
            let p = choose|p: int| 0 <= p < picks@.len() && picks@[p] == n as usize;
            crate::order::lemma_lists_all_has(order@, keys@.len() as int, p);
            let a = choose|a: int| 0 <= a < order@.len() && order@[a] == p as usize;
            assert(out@[a]@ == rv[n]);
            assert(ov[a] == rv[n]);
        }
        assert forall|a: int, b: int| 0 <= a < b < ov.len() implies pulled_before(
            #[trigger] ov[a],
            #[trigger] ov[b],
        ) by {
            let x = order@[a] as int;
            let y = order@[b] as int;
            assert(precedes(keys@, x, y));
            assert(out@[a]@ == rv[picks@[x] as int] && out@[b]@ == rv[picks@[y] as int]);
            if !keys@[x].ahead(&keys@[y]) {
                // Level keys are equal keys, and then only one of the two entries is the newest.
                lemma_lex_total(keys@[x].at@, keys@[y].at@);
                lemma_lex_total(keys@[x].key@, keys@[y].key@);
                assert(x < y);
                assert(picks@[x] < picks@[y]);
                assert(newest(rv, own_device@, sv, picks@[y] as int));
                assert(newest(rv, own_device@, sv, picks@[x] as int));
                assert(eligible(rv[picks@[x] as int], own_device@, sv));
                assert(beats(rv, picks@[x] as int, picks@[y] as int));
            }
        }
    }
    out
}

// ---------------------------------------------------------------------------
// Laws of the pull plan
// ---------------------------------------------------------------------------

/// A plan never holds an entry of this device itself, nor one that is no device snapshot.
pub proof fn law_plan_skips_own(
    remote: Seq<SnapView>,
    own: Seq<char>,
    seen: Seq<(Seq<char>, Seq<char>)>,
    out: Seq<SnapView>,
    k: int,
)
    requires
        is_pull_plan(remote, own, seen, out),
        0 <= k < out.len(),
    ensures
        parse_key(out[k].key) is Some,
        device_of(out[k].key) != own,
        out[k].kind == KIND_SNAPSHOT@,
{
    assert(is_newest_entry(remote, own, seen, out[k]));
}

/// A plan holds at most one entry of each device.
pub proof fn law_plan_one_per_device(
    remote: Seq<SnapView>,
    own: Seq<char>,
    seen: Seq<(Seq<char>, Seq<char>)>,
    out: Seq<SnapView>,
    a: int,
    b: int,
)
    requires
        is_pull_plan(remote, own, seen, out),
        0 <= a < b < out.len(),
    ensures
        device_of(out[a].key) != device_of(out[b].key),
{
    assert(is_newest_entry(remote, own, seen, out[a]));
    assert(is_newest_entry(remote, own, seen, out[b]));
    let i = choose|i: int| #[trigger] newest(remote, own, seen, i) && remote[i] == out[a];
    let j = choose|j: int| #[trigger] newest(remote, own, seen, j) && remote[j] == out[b];
    if device_of(out[a].key) == device_of(out[b].key) {
        assert(eligible(remote[i], own, seen));
        assert(eligible(remote[j], own, seen));
        lemma_lex_total(stamp_of(remote[i].key), stamp_of(remote[j].key));
        assert(!beats(remote, j, i));
        assert(!beats(remote, i, j));
        assert(i == j);
        lemma_lex_irreflexive(out[a].at);
        lemma_lex_irreflexive(out[a].key);
        assert(pulled_before(out[a], out[b]));
    }
}

/// Where a device has an entry that may be pulled, one of its entries is the newest.
proof fn lemma_newest_exists(
    remote: Seq<SnapView>,
    own: Seq<char>,
    seen: Seq<(Seq<char>, Seq<char>)>,
    i: int,
    n: int,
) -> (w: int)
    requires
        0 <= i < n <= remote.len(),
        eligible(remote[i], own, seen),
    ensures
        0 <= w < n,
        eligible(remote[w], own, seen),
        device_of(remote[w].key) == device_of(remote[i].key),
        forall|j: int|
            0 <= j < n && eligible(#[trigger] remote[j], own, seen) && device_of(remote[j].key)
                == device_of(remote[w].key) ==> !beats(remote, j, w),
    decreases n,
{
    if n == i + 1 && (forall|j: int|
        0 <= j < i ==> !(eligible(#[trigger] remote[j], own, seen) && device_of(remote[j].key)
            == device_of(remote[i].key))) {
        lemma_lex_irreflexive(stamp_of(remote[i].key));
        i
    } else if n == i + 1 {
        let j = choose|j: int|
            0 <= j < i && eligible(#[trigger] remote[j], own, seen) && device_of(remote[j].key)
                == device_of(remote[i].key);
        let w = lemma_newest_exists(remote, own, seen, j, n - 1);
        lemma_extend_newest(remote, own, seen, w, n - 1)
    } else {
        let w = lemma_newest_exists(remote, own, seen, i, n - 1);
        lemma_extend_newest(remote, own, seen, w, n - 1)
    }
}

/// Taking one more entry into account gives the newest one again.
proof fn lemma_extend_newest(
    remote: Seq<SnapView>,
    own: Seq<char>,
    seen: Seq<(Seq<char>, Seq<char>)>,
    w: int,
    m: int,
) -> (r: int)
    requires
        0 <= w < m < remote.len(),
        eligible(remote[w], own, seen),
        forall|j: int|
            0 <= j < m && eligible(#[trigger] remote[j], own, seen) && device_of(remote[j].key)
                == device_of(remote[w].key) ==> !beats(remote, j, w),
    ensures
        0 <= r <= m,
        eligible(remote[r], own, seen),
        device_of(remote[r].key) == device_of(remote[w].key),
        forall|j: int|
            0 <= j <= m && eligible(#[trigger] remote[j], own, seen) && device_of(remote[j].key)
                == device_of(remote[r].key) ==> !beats(remote, j, r),
{
    if eligible(remote[m], own, seen) && device_of(remote[m].key) == device_of(remote[w].key)
        && beats(remote, m, w) {
        let sm = stamp_of(remote[m].key);
        let sw = stamp_of(remote[w].key);
        assert forall|j: int|
            0 <= j <= m && eligible(#[trigger] remote[j], own, seen) && device_of(remote[j].key)
                == device_of(remote[m].key) implies !beats(remote, j, m) by {
            let sj = stamp_of(remote[j].key);
            if j < m {
                assert(!beats(remote, j, w));
                lemma_lex_total(sj, sw);
                if lex_lt(sm, sj) {
                    lemma_lex_transitive(sw, sm, sj);
                }
                if sm == sj {
                    assert(lex_lt(sw, sj));
                }
            }
            lemma_lex_irreflexive(sm);
        }
        m
    } else {
        w
    }
}

/// Pulling is idempotent: once every entry of a plan is marked as applied, and the marks of all
/// other devices stand as they were, the next plan over the same listing is empty.
pub proof fn law_pull_idempotent(
    remote: Seq<SnapView>,
    own: Seq<char>,
    seen: Seq<(Seq<char>, Seq<char>)>,
    out: Seq<SnapView>,
    marked: Seq<(Seq<char>, Seq<char>)>,
    next: Seq<SnapView>,
)
    requires
        is_pull_plan(remote, own, seen, out),
        forall|k: int|
            0 <= k < out.len() ==> seen_of(marked, device_of((#[trigger] out[k]).key)) == Some(
                out[k].key,
            ),
        forall|d: Seq<char>|
            (forall|k: int| 0 <= k < out.len() ==> device_of((#[trigger] out[k]).key) != d)
                ==> #[trigger] seen_of(marked, d) == seen_of(seen, d),
        is_pull_plan(remote, own, marked, next),
    ensures
        next.len() == 0,
{
    if next.len() > 0 {
        assert(is_newest_entry(remote, own, marked, next[0]));
        let i = choose|i: int| #[trigger] newest(remote, own, marked, i) && remote[i] == next[0];
        let d = device_of(remote[i].key);
        if eligible(remote[i], own, seen) {
            let w = lemma_newest_exists(remote, own, seen, i, remote.len() as int);
            assert(newest(remote, own, seen, w));
            assert(out.contains(remote[w]));
            let k = choose|k: int| 0 <= k < out.len() && out[k] == remote[w];
            assert(seen_of(marked, d) == Some(remote[w].key));
            assert(!beats(remote, i, w));
            lemma_lex_total(stamp_of(remote[i].key), stamp_of(remote[w].key));
            lemma_lex_irreflexive(stamp_of(remote[w].key));
        } else {
            if exists|k: int| 0 <= k < out.len() && device_of((#[trigger] out[k]).key) == d {
                let k = choose|k: int| 0 <= k < out.len() && device_of((#[trigger] out[k]).key) == d;
                assert(is_newest_entry(remote, own, seen, out[k]));
                let w = choose|w: int| #[trigger] newest(remote, own, seen, w) && remote[w] == out[k];
                // The mark for the device is newer than the entry that was refused before.
                assert(seen_of(marked, d) == Some(out[k].key));
                let old_key = seen_of(seen, d)->0;
                assert(lex_lt(stamp_of(old_key), stamp_of(out[k].key)) || stamp_of(old_key).len()
                    == 0 || seen_of(seen, d) is None);
                lemma_lex_total(stamp_of(old_key), stamp_of(remote[i].key));
                assert(lex_lt(stamp_of(out[k].key), stamp_of(remote[i].key)));
                if lex_lt(stamp_of(old_key), stamp_of(out[k].key)) {
                    lemma_lex_transitive(
                        stamp_of(old_key),
                        stamp_of(out[k].key),
                        stamp_of(remote[i].key),
                    );
                }
            } else {
                assert(seen_of(marked, d) == seen_of(seen, d));
            }
        }
    }
}

} // verus!
