//! Cloud channels: their configuration, the addresses they use and the checks they make before
//! anything is sent.
use vstd::prelude::*;
use vstd::utf8::*;
use crate::cloud::{device_of, law_stamp_at, parse_key, parse_snapshot_key, snap_views, stamp_at, stamp_of, stamp_shaped, stamp_to_at, RemoteSnapshot, SnapView, KIND_SNAPSHOT, SNAPSHOT_SUFFIX};
use crate::order::{arranges, lists_all, precedes, stable_order, stably_sorted, TextUp};
use crate::text::{byte_edge, lex_lt, views, begins, contains, occurs, lemma_trim_idempotent, same, starts_with, trim, trimmed};

verus! {

/// Channel mode: switched off.
pub const MODE_OFF: &'static str = "off";

/// Channel mode: a local directory.
pub const MODE_DIR: &'static str = "dir";

/// Channel mode: an HTTP relay.
pub const MODE_CLOUD: &'static str = "cloud";

/// Channel mode: direct access to a PostgreSQL table over REST.
pub const MODE_PG: &'static str = "pg";

// ---------------------------------------------------------------------------
// Configuration
// ---------------------------------------------------------------------------

/// Configuration of the cloud channel.
#[derive(Debug, Clone)]
pub struct CloudConfig {
    /// `off`, `dir`, `cloud` or `pg`.
    pub mode: String,
    /// Address of the relay, or base address of the REST interface.
    pub endpoint: String,
    /// Token of the relay, or key of the REST interface.
    pub token: String,
    /// Root directory of the local channel.
    pub dir: String,
}

/// Model of a configuration.
#[verifier::ext_equal]
pub struct ConfigView {
    pub mode: Seq<char>,
    pub endpoint: Seq<char>,
    pub token: Seq<char>,
    pub dir: Seq<char>,
}

impl View for CloudConfig {
    type V = ConfigView;

    open spec fn view(&self) -> ConfigView {
        ConfigView {
            mode: self.mode@,
            endpoint: self.endpoint@,
            token: self.token@,
            dir: self.dir@,
        }
    }
}

/// A mode that is known stands; any other one means switched off.
pub open spec fn known_mode(m: Seq<char>) -> Seq<char> {
    if m == MODE_DIR@ || m == MODE_CLOUD@ || m == MODE_PG@ {
        m
    } else {
        MODE_OFF@
    }
}

/// The configuration with a known mode and without white space round any field.
pub open spec fn normal_config(c: ConfigView) -> ConfigView {
    ConfigView {
        mode: known_mode(trimmed(c.mode)),
        endpoint: trimmed(c.endpoint),
        token: trimmed(c.token),
        dir: trimmed(c.dir),
    }
}

/// A configuration has all that its mode needs.
pub open spec fn config_ready(c: ConfigView) -> bool {
    if c.mode == MODE_DIR@ {
        trimmed(c.dir).len() > 0
    } else {
        (c.mode == MODE_CLOUD@ || c.mode == MODE_PG@) && trimmed(c.endpoint).len() > 0 && trimmed(
            c.token,
        ).len() > 0
    }
}

impl Default for CloudConfig {
    fn default() -> (r: Self)
        ensures
            r@ == (ConfigView {
                mode: Seq::empty(),
                endpoint: Seq::empty(),
                token: Seq::empty(),
                dir: Seq::empty(),
            }),
    {
        CloudConfig {
            mode: String::new(),
            endpoint: String::new(),
            token: String::new(),
            dir: String::new(),
        }
    }
}

impl CloudConfig {
    /// Whether everything that the mode needs is there.
    pub fn is_ready(&self) -> (r: bool)
        ensures
            r == config_ready(self@),
    {
        if same(self.mode.as_str(), MODE_DIR) {
            !trim(self.dir.as_str()).as_str().is_empty()
        } else if same(self.mode.as_str(), MODE_CLOUD) || same(self.mode.as_str(), MODE_PG) {
            !trim(self.endpoint.as_str()).as_str().is_empty() && !trim(
                self.token.as_str(),
            ).as_str().is_empty()
        } else {
            false
        }
    }

    /// The configuration with a known mode and trimmed fields.
    pub fn normalized(self) -> (r: Self)
        ensures
            r@ == normal_config(self@),
    {
        let m = trim(self.mode.as_str());
        let mode = if same(m.as_str(), MODE_DIR) || same(m.as_str(), MODE_CLOUD) || same(
            m.as_str(),
            MODE_PG,
        ) {
            m
        } else {
            MODE_OFF.to_owned()
        };
        CloudConfig {
            mode,
            endpoint: trim(self.endpoint.as_str()),
            token: trim(self.token.as_str()),
            dir: trim(self.dir.as_str()),
        }
    }

    /// A copy of this configuration.
    pub fn duplicate(&self) -> (r: Self)
        ensures
            r@ == self@,
    {
        CloudConfig {
            mode: self.mode.clone(),
            endpoint: self.endpoint.clone(),
            token: self.token.clone(),
            dir: self.dir.clone(),
        }
    }
}

/// Normalising twice is normalising once.
pub proof fn law_normalize_idempotent(c: ConfigView)
    ensures
        normal_config(normal_config(c)) == normal_config(c),
{
    lemma_trim_idempotent(c.mode);
    lemma_trim_idempotent(c.endpoint);
    lemma_trim_idempotent(c.token);
    lemma_trim_idempotent(c.dir);
    reveal_strlit("off");
    assert(MODE_OFF@[0] == 'o');
    assert(crate::text::trim_left(MODE_OFF@) == MODE_OFF@);
    assert(crate::text::trim_right(MODE_OFF@) == MODE_OFF@);
}

// ---------------------------------------------------------------------------
// The transport and its requests
// ---------------------------------------------------------------------------

/// One upload.
pub struct PutRequest<'a> {
    /// Unique remote key.
    pub key: &'a str,
    /// Name of the source device.
    pub device: &'a str,
    /// Time of export.
    pub at: &'a str,
    /// Kind of the entry.
    pub kind: &'a str,
    /// The body as raw bytes.
    pub body: &'a [u8],
}

/// Model of an upload.
#[verifier::ext_equal]
pub struct PutView {
    pub key: Seq<char>,
    pub device: Seq<char>,
    pub at: Seq<char>,
    pub kind: Seq<char>,
    pub body: Seq<u8>,
}

impl<'a> View for PutRequest<'a> {
    type V = PutView;

    open spec fn view(&self) -> PutView {
        PutView {
            key: self.key@,
            device: self.device@,
            at: self.at@,
            kind: self.kind@,
            body: self.body@,
        }
    }
}

/// A store that can list its entries, take one and hand one back. An implementation lists without
/// reading bodies, overwrites on a key that is there already, and hands back the raw bytes. What
/// each operation may answer is the implementation's own statement; without one it may answer anything.
pub trait SyncTransport: Sized {
    /// `r` may be the answer to a listing.
    open spec fn may_list(&self, r: Result<Seq<SnapView>, Seq<char>>) -> bool {
        true
    }

    /// `r` may be the answer to an upload that takes the store from `before` to `after`.
    open spec fn may_put(
        before: &Self,
        req: PutView,
        after: &Self,
        r: Result<SnapView, Seq<char>>,
    ) -> bool {
        true
    }

    /// `r` may be the answer to a download.
    open spec fn may_get(&self, key: Seq<char>, r: Result<Seq<u8>, Seq<char>>) -> bool {
        true
    }

    /// All remote entries.
    fn list(&self) -> (r: Result<Vec<RemoteSnapshot>, String>)
        ensures
            self.may_list(
                match r {
                    Ok(v) => Ok(snap_views(v@)),
                    Err(m) => Err(m@),
                },
            ),
    ;

    /// Stores a body and returns what is then known of the entry.
    fn put(&mut self, req: &PutRequest) -> (r: Result<RemoteSnapshot, String>)
        ensures
            Self::may_put(
                old(self),
                req@,
                final(self),
                match r {
                    Ok(e) => Ok(e@),
                    Err(m) => Err(m@),
                },
            ),
    ;

    /// The body stored under a key.
    fn get(&self, key: &str) -> (r: Result<Vec<u8>, String>)
        ensures
            self.may_get(
                key@,
                match r {
                    Ok(b) => Ok(b@),
                    Err(m) => Err(m@),
                },
            ),
    ;
}

/// A message made of a fixed beginning and a detail.
pub fn message(head: &str, detail: &str) -> (r: String)
    ensures
        r@ == head@ + detail@,
{
    let mut s = head.to_owned();
    s.append(detail);
    s
}

/// A stamp whose date and time can be cut out, or that has none.
pub open spec fn stamp_cuttable(s: Seq<char>) -> bool {
    stamp_shaped(s) ==> byte_edge(s, 4) && byte_edge(s, 6) && byte_edge(s, 11) && byte_edge(s, 13)
        && byte_edge(s, 15)
}

/// The stamp of a key is always cuttable.
proof fn lemma_key_stamp_cuttable(key: Seq<char>)
    ensures
        stamp_cuttable(stamp_of(key)),
{
    match parse_key(key) {
        Some(p) => {
            law_stamp_at(p.1);
        },
        None => {
            assert(encode_utf8(Seq::<char>::empty()).len() == 0);
        },
    }
}

/// The entry that a store derives from a request: the time is read from the key.
pub open spec fn stored_entry(req: PutView) -> SnapView {
    SnapView {
        key: req.key,
        device: req.device,
        at: stamp_at(stamp_of(req.key)),
        size: req.body.len() as i64,
        kind: req.kind,
    }
}

/// The entry that a store derives from a request.
pub fn entry_for(req: &PutRequest) -> (r: RemoteSnapshot)
    ensures
        r@ == stored_entry(req@),
{
    let stamp = match parse_snapshot_key(req.key) {
        Some(p) => p.1,
        None => String::new(),
    };
    proof {
        lemma_key_stamp_cuttable(req.key@);
    }
    RemoteSnapshot {
        key: req.key.to_owned(),
        device: req.device.to_owned(),
        at: stamp_to_at(stamp.as_str()),
        size: req.body.len() as i64,
        kind: req.kind.to_owned(),
    }
}

// ---------------------------------------------------------------------------
// A directory as the remote store
// ---------------------------------------------------------------------------

/// Directory below the root that holds the snapshots.
pub const DIR_SNAPSHOT_SUBDIR: &'static str = "snapshots";

/// What a refused key is answered with.
pub const BAD_KEY: &'static str = "非法远端键: ";

/// What an entry of another kind is answered with.
pub const DIR_KIND_FAULT: &'static str = "目录通道当前仅支持设备快照，收到类型: ";

/// The directory channel. Paths are given as their segments.
pub struct DirTransport {
    pub root: String,
}

/// A key that the directory channel takes: that of a device snapshot, with nothing in it that
/// could lead out of the directory.
pub open spec fn dir_key_ok(key: Seq<char>) -> bool {
    &&& !occurs(key, "\\"@)
    &&& !begins(key, "/"@)
    &&& !occurs(key, ".."@)
    &&& parse_key(key) is Some
    &&& !occurs(device_of(key), "."@)
}

/// The segments of the file that a key stands for.
pub open spec fn dir_path(root: Seq<char>, key: Seq<char>) -> Seq<Seq<char>> {
    seq![root, DIR_SNAPSHOT_SUBDIR@, device_of(key), stamp_of(key) + SNAPSHOT_SUFFIX@]
}

/// A file found below a device directory.
pub struct FoundFile {
    pub device: String,
    pub name: String,
    pub size: i64,
}

/// The key of a found file.
pub open spec fn found_key(f: FoundFile) -> Seq<char> {
    f.device@ + "/"@ + f.name@
}

/// The entry of a found file.
pub open spec fn found_entry(f: FoundFile) -> SnapView {
    SnapView {
        key: found_key(f),
        device: device_of(found_key(f)),
        at: stamp_at(stamp_of(found_key(f))),
        size: f.size,
        kind: KIND_SNAPSHOT@,
    }
}

/// The entries of those found files whose key is that of a device snapshot.
pub open spec fn found_entries(files: Seq<FoundFile>) -> Seq<SnapView>
    decreases files.len(),
{
    if files.len() == 0 {
        Seq::empty()
    } else {
        let rest = found_entries(files.drop_last());
        if parse_key(found_key(files.last())) is Some {
            rest.push(found_entry(files.last()))
        } else {
            rest
        }
    }
}

/// Entries in ascending order of their keys.
pub open spec fn by_key() -> spec_fn(SnapView, SnapView) -> bool {
    |a: SnapView, b: SnapView| lex_lt(a.key, b.key)
}

impl DirTransport {
    /// The channel on a root directory.
    pub fn new(root: &str) -> (r: Self)
        ensures
            r.root@ == root@,
    {
        DirTransport { root: root.to_owned() }
    }

    /// Segments of the directory that holds the device directories.
    pub fn snap_root(&self) -> (r: Vec<String>)
        ensures
            views(r@) == seq![self.root@, DIR_SNAPSHOT_SUBDIR@],
    {
        let mut v: Vec<String> = Vec::new();
        v.push(self.root.clone());
        v.push(DIR_SNAPSHOT_SUBDIR.to_owned());
        assert(views(v@) =~= seq![self.root@, DIR_SNAPSHOT_SUBDIR@]);
        v
    }

    /// Segments of the file that a key stands for; a key that is no plain snapshot key is refused.
    pub fn resolve(&self, key: &str) -> (r: Result<Vec<String>, String>)
        ensures
            match r {
                Ok(p) => dir_key_ok(key@) && views(p@) == dir_path(self.root@, key@),
                Err(m) => !dir_key_ok(key@) && m@ == BAD_KEY@ + key@,
            },
    {
        if contains(key, "\\") || starts_with(key, "/") || contains(key, "..") {
            return Err(message(BAD_KEY, key));
        }
        match parse_snapshot_key(key) {
            None => Err(message(BAD_KEY, key)),
            Some(p) => {
                if contains(p.0.as_str(), ".") {
                    return Err(message(BAD_KEY, key));
                }
                let mut v = self.snap_root();
                let ghost base = v@;
                let file = message(p.1.as_str(), SNAPSHOT_SUFFIX);
                v.push(p.0);
                v.push(file);
                assert(views(v@) =~= views(base).push(p.0@).push(file@));
                assert(views(v@) =~= dir_path(self.root@, key@));
                Ok(v)
            },
        }
    }

    /// The entries of the files found below the device directories, in order of their keys.
    pub fn entries(&self, files: &Vec<FoundFile>) -> (out: Vec<RemoteSnapshot>)
        ensures
            stably_sorted(found_entries(files@), snap_views(out@), by_key()),
    {
        let mut kept: Vec<RemoteSnapshot> = Vec::new();
        let mut i: usize = 0;
        assert(snap_views(kept@) =~= found_entries(files@.take(0)));
        while i < files.len()
            invariant
                i <= files@.len(),
                snap_views(kept@) == found_entries(files@.take(i as int)),
            decreases files@.len() - i,
        {
            let f = &files[i];
            let mut key = f.device.clone();
            key.append("/");
            key.append(f.name.as_str());
            let ghost before = kept@;
            assert(files@.take(i + 1).drop_last() =~= files@.take(i as int));
            proof {
                lemma_key_stamp_cuttable(key@);
            }
            match parse_snapshot_key(key.as_str()) {
                None => {},
                Some(p) => {
                    let e = RemoteSnapshot {
                        key,
                        device: p.0,
                        at: stamp_to_at(p.1.as_str()),
                        size: f.size,
                        kind: KIND_SNAPSHOT.to_owned(),
                    };
                    kept.push(e);
                    assert(snap_views(kept@) =~= snap_views(before).push(e@));
                },
            }
            i += 1;
        }
        assert(files@.take(files@.len() as int) =~= files@);
        sort_by_key(kept)
    }

    /// Where an upload goes and what is then known of it.
    pub fn put_plan(&self, req: &PutRequest) -> (r: Result<(Vec<String>, RemoteSnapshot), String>)
        ensures
            match r {
                Ok(p) => req.kind@ == KIND_SNAPSHOT@ && dir_key_ok(req.key@) && views(p.0@)
                    == dir_path(self.root@, req.key@) && p.1@ == stored_entry(req@),
                Err(m) => if req.kind@ != KIND_SNAPSHOT@ {
                    m@ == DIR_KIND_FAULT@ + req.kind@
                } else {
                    !dir_key_ok(req.key@) && m@ == BAD_KEY@ + req.key@
                },
            },
    {
        if !same(req.kind, KIND_SNAPSHOT) {
            return Err(message(DIR_KIND_FAULT, req.kind));
        }
        match self.resolve(req.key) {
            Err(m) => Err(m),
            Ok(path) => Ok((path, entry_for(req))),
        }
    }
}

/// The entries in stable order of their keys.
pub fn sort_by_key(kept: Vec<RemoteSnapshot>) -> (out: Vec<RemoteSnapshot>)
    ensures
        stably_sorted(snap_views(kept@), snap_views(out@), by_key()),
{
    let mut keys: Vec<TextUp> = Vec::new();
    let mut i: usize = 0;
    while i < kept.len()
        invariant
            i <= kept@.len(),
            keys@.len() == i,
            forall|k: int| 0 <= k < i ==> (#[trigger] keys@[k]).text@ == kept@[k]@.key,
        decreases kept@.len() - i,
    {
        keys.push(TextUp { text: kept[i].key.clone() });
        i += 1;
    }
    let order = stable_order(&keys);
    let mut out: Vec<RemoteSnapshot> = Vec::new();
    let mut k: usize = 0;
    while k < order.len()
        invariant
            lists_all(order@, kept@.len() as int),
            k <= order@.len(),
            out@.len() == k,
            forall|a: int| 0 <= a < k ==> (#[trigger] out@[a])@ == kept@[order@[a] as int]@,
        decreases order@.len() - k,
    {
        out.push(kept[order[k]].duplicate());
        k += 1;
    }
    proof {
        let s = snap_views(kept@);
        let o = snap_views(out@);
        assert forall|a: int, b: int| 0 <= a < b < o.len() implies by_key()(
            s[#[trigger] order@[a] as int],
            s[#[trigger] order@[b] as int],
        ) || (!by_key()(s[order@[b] as int], s[order@[a] as int]) && order@[a] < order@[b]) by {
            assert(precedes(keys@, order@[a] as int, order@[b] as int));
        }
        assert(arranges(s, o, order@, by_key()));
    }
    out
}

} // verus!
