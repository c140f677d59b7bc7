//! Pushing this device's snapshot and pulling those of the others.
//!
//! A pull is a run of small steps. Whoever drives it fetches, parses and applies as it is told and
//! hands back what came of it; which step comes next, and what is counted, is decided here.
use vstd::prelude::*;
use vstd::utf8::*;
use crate::channel::{message, normal_config, CloudConfig, ConfigView, PutRequest, PutView, SyncTransport};
use crate::cloud::{is_pull_plan, key_of, parse_key, parse_snapshot_key, plan_pull, seen_of, seen_views, snap_views, snapshot_key, RemoteSnapshot, SeenMark, SnapView, KIND_SNAPSHOT};
use crate::text::{begins, same, slice_text, stands_at, to_chars, utf8_fault, utf8_text};

verus! {

/// Prefix of the entries that keep the applied marks.
pub const SEEN_PREFIX: &'static str = "cloud_seen:";

/// Entry that keeps the time of the last push.
pub const META_LAST_PUSH: &'static str = "cloud_last_push";

/// Entry that keeps the time of the last pull.
pub const META_LAST_PULL: &'static str = "cloud_last_pull";

/// Entry that keeps the channel mode.
pub const META_MODE: &'static str = "cloud_mode";

/// Entry that keeps the channel address.
pub const META_ENDPOINT: &'static str = "cloud_endpoint";

/// Entry that keeps the channel token.
pub const META_TOKEN: &'static str = "cloud_token";

/// Entry that keeps the channel directory.
pub const META_DIR: &'static str = "cloud_dir";

// ---------------------------------------------------------------------------
// Applied marks
// ---------------------------------------------------------------------------

/// The applied marks in a list of named entries: those whose name is the prefix and a device.
pub open spec fn marks_in(rows: Seq<(Seq<char>, Seq<char>)>) -> Seq<(Seq<char>, Seq<char>)>
    decreases rows.len(),
{
    if rows.len() == 0 {
        Seq::empty()
    } else {
        let rest = marks_in(rows.drop_last());
        let name = rows.last().0;
        if begins(name, SEEN_PREFIX@) && name.len() > SEEN_PREFIX@.len() {
            rest.push((name.skip(SEEN_PREFIX@.len() as int), rows.last().1))
        } else {
            rest
        }
    }
}

/// The applied marks in a list of named entries.
pub fn seen_keys(rows: &Vec<(String, String)>) -> (out: Vec<SeenMark>)
    ensures
        seen_views(out@) == marks_in(crate::relay::pair_views(rows@)),
{
    let mut out: Vec<SeenMark> = Vec::new();
    let prefix = to_chars(SEEN_PREFIX);
    let ghost all = crate::relay::pair_views(rows@);
    let mut i: usize = 0;
    assert(seen_views(out@) =~= marks_in(all.take(0)));
    while i < rows.len()
        invariant
            all == crate::relay::pair_views(rows@),
            prefix@ == SEEN_PREFIX@,
            i <= rows@.len(),
            seen_views(out@) == marks_in(all.take(i as int)),
        decreases rows@.len() - i,
    {
        assert(all.take(i + 1).drop_last() =~= all.take(i as int));
        let name = to_chars(rows[i].0.as_str());
        if stands_at(&name, &prefix, 0) && name.len() > prefix.len() {
            let device = slice_text(&name, prefix.len(), name.len());
            assert(device@ =~= name@.skip(SEEN_PREFIX@.len() as int));
            let ghost before = out@;
            let mark = SeenMark { device, key: rows[i].1.clone() };
            out.push(mark);
            assert(seen_views(out@) =~= seen_views(before).push((mark.device@, mark.key@)));
        }
        i += 1;
    }
    assert(all.take(all.len() as int) =~= all);
    out
}

/// The named entry that marks a device's snapshot as applied.
pub fn mark_seen(device: &str, key: &str) -> (r: (String, String))
    ensures
        r.0@ == SEEN_PREFIX@ + device@,
        r.1@ == key@,
{
    (message(SEEN_PREFIX, device), key.to_owned())
}

/// A mark that was written is read back as the key of its device.
pub proof fn law_mark_read_back(device: Seq<char>, key: Seq<char>)
    requires
        device.len() > 0,
    ensures
        seen_of(marks_in(seq![(SEEN_PREFIX@ + device, key)]), device) == Some(key),
{
    let name = SEEN_PREFIX@ + device;
    let rows = seq![(name, key)];
    assert(name.subrange(0, SEEN_PREFIX@.len() as int) =~= SEEN_PREFIX@);
    assert(name.skip(SEEN_PREFIX@.len() as int) =~= device);
    assert(rows.drop_last() =~= Seq::<(Seq<char>, Seq<char>)>::empty());
    assert(marks_in(rows.drop_last()) =~= Seq::<(Seq<char>, Seq<char>)>::empty());
    assert(rows.last() == (name, key));
    assert(marks_in(rows) =~= seq![(device, key)]);
}

// ---------------------------------------------------------------------------
// Stored configuration
// ---------------------------------------------------------------------------

/// A stored text, empty where there is none.
pub open spec fn or_empty(s: Option<String>) -> Seq<char> {
    match s {
        Some(t) => t@,
        None => Seq::empty(),
    }
}

/// A stored text, empty where there is none.
fn text_or_empty(s: Option<String>) -> (r: String)
    ensures
        r@ == or_empty(s),
{
    match s {
        Some(t) => t,
        None => String::new(),
    }
}

/// The channel configuration from its stored fields; what is missing counts as empty.
pub fn load_config(
    mode: Option<String>,
    endpoint: Option<String>,
    token: Option<String>,
    dir: Option<String>,
) -> (r: CloudConfig)
    ensures
        r@ == normal_config(
            ConfigView {
                mode: or_empty(mode),
                endpoint: or_empty(endpoint),
                token: or_empty(token),
                dir: or_empty(dir),
            },
        ),
{
    let c = CloudConfig {
        mode: text_or_empty(mode),
        endpoint: text_or_empty(endpoint),
        token: text_or_empty(token),
        dir: text_or_empty(dir),
    };
    c.normalized()
}

/// The configuration as it is kept, with the named entries that keep it.
pub fn save_config(cfg: &CloudConfig) -> (r: (CloudConfig, Vec<(String, String)>))
    ensures
        r.0@ == normal_config(cfg@),
        crate::relay::pair_views(r.1@) == seq![
            (META_MODE@, r.0@.mode),
            (META_ENDPOINT@, r.0@.endpoint),
            (META_TOKEN@, r.0@.token),
            (META_DIR@, r.0@.dir),
        ],
{
    let c = cfg.duplicate().normalized();
    let mut rows: Vec<(String, String)> = Vec::new();
    rows.push((META_MODE.to_owned(), c.mode.clone()));
    rows.push((META_ENDPOINT.to_owned(), c.endpoint.clone()));
    rows.push((META_TOKEN.to_owned(), c.token.clone()));
    rows.push((META_DIR.to_owned(), c.dir.clone()));
    assert(crate::relay::pair_views(rows@) =~= seq![
        (META_MODE@, c@.mode),
        (META_ENDPOINT@, c@.endpoint),
        (META_TOKEN@, c@.token),
        (META_DIR@, c@.dir),
    ]);
    (c, rows)
}

// ---------------------------------------------------------------------------
// Push
// ---------------------------------------------------------------------------

/// What came of a push.
#[derive(Debug, Clone)]
pub struct PushOutcome {
    /// Remote key.
    pub key: String,
    /// Number of changes in the snapshot.
    pub count: usize,
    /// Number of bytes of the snapshot.
    pub size: i64,
    /// Time of completion.
    pub at: String,
}

/// The upload of a device's snapshot.
pub open spec fn push_request(
    device: Seq<char>,
    stamp: Seq<char>,
    at: Seq<char>,
    text: Seq<char>,
) -> PutView {
    PutView {
        key: key_of(device, stamp),
        device,
        at,
        kind: KIND_SNAPSHOT@,
        body: encode_utf8(text),
    }
}

/// Pushes this device's snapshot, whose text holds `count` changes, through a store.
pub fn push<T: SyncTransport>(
    transport: &mut T,
    device: &str,
    stamp: &str,
    at: &str,
    text: &str,
    count: usize,
) -> (r: Result<PushOutcome, String>)
    ensures
        match r {
            Ok(o) => exists|e: SnapView|
                {
                    &&& #[trigger] T::may_put(
                        old(transport),
                        push_request(device@, stamp@, at@, text@),
                        final(transport),
                        Ok(e),
                    )
                    &&& o.key@ == e.key
                    &&& o.count == count
                    &&& o.size == encode_utf8(text@).len() as i64
                    &&& o.at@ == at@
                },
            Err(m) => T::may_put(
                old(transport),
                push_request(device@, stamp@, at@, text@),
                final(transport),
                Err(m@),
            ),
        },
{
    let key = snapshot_key(device, stamp);
    let req = PutRequest {
        key: key.as_str(),
        device,
        at,
        kind: KIND_SNAPSHOT,
        body: text.as_bytes(),
    };
    assert(req@ =~= push_request(device@, stamp@, at@, text@));
    match transport.put(&req) {
        Ok(e) => {
            let size = text.as_bytes().len() as i64;
            assert(T::may_put(
                old(transport),
                push_request(device@, stamp@, at@, text@),
                transport,
                Ok(e@),
            ));
            Ok(PushOutcome { key: e.key, count, size, at: at.to_owned() })
        },
        Err(m) => Err(m),
    }
}

/// What a pull would fetch from a store now.
pub fn pull_plan<T: SyncTransport>(transport: &T, own: &str, seen: &Vec<SeenMark>) -> (r: Result<
    Vec<RemoteSnapshot>,
    String,
>)
    ensures
        match r {
            Ok(out) => exists|v: Seq<SnapView>|
                #[trigger] transport.may_list(Ok(v)) && is_pull_plan(
                    v,
                    own@,
                    seen_views(seen@),
                    snap_views(out@),
                ),
            Err(m) => transport.may_list(Err(m@)),
        },
{
    match transport.list() {
        Err(m) => Err(m),
        Ok(remote) => {
            assert(transport.may_list(Ok(snap_views(remote@))));
            Ok(plan_pull(&remote, own, seen))
        },
    }
}

// ---------------------------------------------------------------------------
// Pull
// ---------------------------------------------------------------------------

/// What was pulled from one device.
#[derive(Debug, Clone)]
pub struct PullDetail {
    pub device: String,
    pub key: String,
    /// Number of changes applied.
    pub applied: usize,
    /// Number of changes set aside because the local ones were newer.
    pub conflicts: usize,
    /// Time of export of the snapshot.
    pub at: String,
}

/// What came of a pull.
#[derive(Debug, Clone)]
pub struct PullOutcome {
    /// Number of snapshots in the plan.
    pub planned: usize,
    /// Number of snapshots applied.
    pub pulled: usize,
    /// Number of snapshots left out because they turned out to be this device's own.
    pub skipped_own: usize,
    /// Number of changes applied in all.
    pub applied: usize,
    /// Number of conflicts in all.
    pub conflicts: usize,
    /// One detail for each snapshot applied.
    pub details: Vec<PullDetail>,
    /// Time of completion.
    pub at: String,
}

/// What the run waits for.
#[derive(Debug, Clone, Copy, PartialEq, Eq, Structural)]
pub enum Phase {
    Fetching,
    Parsing,
    Applying,
    Marking,
    Over,
}

/// What is to be done next.
pub enum PullAction {
    /// Fetch the body under this key.
    Fetch(String),
    /// Parse this text as a snapshot.
    Parse(String),
    /// Apply the parsed changes as coming from this device, in one transaction.
    Apply(String),
    /// Write this applied mark.
    Mark(String, String),
    /// All is done.
    Finish,
    /// Give up with this message.
    Fail(String),
}

/// What came of the last action.
pub enum PullEvent {
    Fetched(Vec<u8>),
    /// The source device that the snapshot's own header names, if it has one.
    Parsed(Option<String>),
    ParseFailed(String),
    /// Numbers of changes applied and of conflicts.
    Applied(usize, usize),
    ApplyFailed(String),
    Marked,
    /// Any other failure, with its whole message.
    Failed(String),
}

/// A pull under way.
pub struct PullRun {
    pub own: String,
    pub plan: Vec<RemoteSnapshot>,
    /// The snapshot of the plan that is being worked on.
    pub next: usize,
    pub phase: Phase,
    /// The device that the current snapshot comes from.
    pub from: String,
    /// What applying the current snapshot gave.
    pub pending: (usize, usize),
    pub outcome: PullOutcome,
}

/// Sum of the changes applied.
pub open spec fn total_applied(d: Seq<PullDetail>) -> int
    decreases d.len(),
{
    if d.len() == 0 {
        0
    } else {
        total_applied(d.drop_last()) + d.last().applied
    }
}

/// Sum of the conflicts.
pub open spec fn total_conflicts(d: Seq<PullDetail>) -> int
    decreases d.len(),
{
    if d.len() == 0 {
        0
    } else {
        total_conflicts(d.drop_last()) + d.last().conflicts
    }
}

/// The device that a listing gives for an entry: the one it names, or else the one in the key.
pub open spec fn listed_device(e: SnapView) -> Seq<char> {
    if e.device.len() > 0 {
        e.device
    } else {
        match parse_key(e.key) {
            Some(p) => p.0,
            None => Seq::empty(),
        }
    }
}

/// The device that a listing gives for an entry.
pub fn device_listed(e: &RemoteSnapshot) -> (r: String)
    ensures
        r@ == listed_device(e@),
{
    if !e.device.as_str().is_empty() {
        return e.device.clone();
    }
    match parse_snapshot_key(e.key.as_str()) {
        Some(p) => p.0,
        None => String::new(),
    }
}

/// The source of a snapshot: the device that its header names, or else the one listed.
pub open spec fn source_device(header: Option<String>, listed: Seq<char>) -> Seq<char> {
    match header {
        Some(d) => if d@.len() > 0 {
            d@
        } else {
            listed
        },
        None => listed,
    }
}

/// The source of a snapshot.
pub fn snapshot_source(header: Option<String>, listed: &str) -> (r: String)
    ensures
        r@ == source_device(header, listed@),
{
    match header {
        Some(d) => {
            if d.as_str().is_empty() {
                listed.to_owned()
            } else {
                d
            }
        },
        None => listed.to_owned(),
    }
}

/// A message about the remote snapshot under a key.
pub open spec fn about_snapshot(head: Seq<char>, key: Seq<char>, tail: Seq<char>, e: Seq<char>) -> Seq<
    char,
> {
    head + key + tail + e
}

/// A message about the remote snapshot under a key.
fn snapshot_message(head: &str, key: &str, tail: &str, e: &str) -> (r: String)
    ensures
        r@ == about_snapshot(head@, key@, tail@, e@),
{
    let mut m = message(head, key);
    m.append(tail);
    m.append(e);
    m
}

/// `places` are the places in the plan, in ascending order and all before `next`, of the snapshots that
/// were applied: what is told of each bears its key and its time.
pub open spec fn at_places(
    details: Seq<PullDetail>,
    plan: Seq<RemoteSnapshot>,
    next: int,
    places: Seq<int>,
) -> bool {
    &&& places.len() == details.len()
    &&& forall|i: int|
        0 <= i < places.len() ==> {
            &&& 0 <= #[trigger] places[i] < next
            &&& details[i].key@ == plan[places[i]].key@
            &&& details[i].at@ == plan[places[i]].at@
        }
    &&& forall|i: int, j: int|
        0 <= i < j < places.len() ==> #[trigger] places[i] < #[trigger] places[j]
}

/// What was applied are snapshots of the plan before `next`, each at most once and in the plan's order.
pub open spec fn follows_plan(
    details: Seq<PullDetail>,
    plan: Seq<RemoteSnapshot>,
    next: int,
) -> bool {
    exists|places: Seq<int>| #[trigger] at_places(details, plan, next, places)
}

/// Passing over a snapshot of the plan keeps to it.
proof fn lemma_passed_over(details: Seq<PullDetail>, plan: Seq<RemoteSnapshot>, next: int)
    requires
        follows_plan(details, plan, next),
    ensures
        follows_plan(details, plan, next + 1),
{
    let p = choose|p: Seq<int>| #[trigger] at_places(details, plan, next, p);
    assert(at_places(details, plan, next + 1, p));
}

/// Applying a snapshot of the plan keeps to it.
proof fn lemma_applied(
    details: Seq<PullDetail>,
    plan: Seq<RemoteSnapshot>,
    next: int,
    more: PullDetail,
)
    requires
        follows_plan(details, plan, next),
        0 <= next,
        more.key@ == plan[next].key@,
        more.at@ == plan[next].at@,
    ensures
        follows_plan(details.push(more), plan, next + 1),
{
    let p = choose|p: Seq<int>| #[trigger] at_places(details, plan, next, p);
    assert(at_places(details.push(more), plan, next + 1, p.push(next)));
}

impl PullRun {
    /// The counts agree with each other and with the place in the plan, and what was applied follows the
    /// plan.
    pub open spec fn wf(&self) -> bool {
        &&& self.outcome.planned == self.plan@.len()
        &&& self.outcome.pulled + self.outcome.skipped_own == self.next
        &&& self.outcome.details@.len() == self.outcome.pulled
        &&& self.outcome.applied == total_applied(self.outcome.details@)
        &&& self.outcome.conflicts == total_conflicts(self.outcome.details@)
        &&& follows_plan(self.outcome.details@, self.plan@, self.next as int)
        &&& self.next <= self.plan@.len()
        &&& self.phase != Phase::Over ==> self.next < self.plan@.len()
    }

    /// The event answers what the run waits for.
    pub open spec fn awaits(&self, e: PullEvent) -> bool {
        match e {
            PullEvent::Fetched(_) => self.phase == Phase::Fetching,
            PullEvent::Parsed(_) => self.phase == Phase::Parsing,
            PullEvent::ParseFailed(_) => self.phase == Phase::Parsing,
            PullEvent::Applied(a, c) => self.phase == Phase::Applying && self.outcome.applied + a
                <= usize::MAX && self.outcome.conflicts + c <= usize::MAX,
            PullEvent::ApplyFailed(_) => self.phase == Phase::Applying,
            PullEvent::Marked => self.phase == Phase::Marking,
            PullEvent::Failed(_) => self.phase != Phase::Over,
        }
    }

    /// Applying the current snapshot keeps the totals within range.
    pub open spec fn pending_fits(&self) -> bool {
        self.phase == Phase::Marking ==> self.outcome.applied + self.pending.0 <= usize::MAX
            && self.outcome.conflicts + self.pending.1 <= usize::MAX
    }

    /// Nothing but what the run waits for has changed.
    pub open spec fn only_phase(&self, before: &PullRun) -> bool {
        &&& self.own == before.own
        &&& self.plan == before.plan
        &&& self.next == before.next
        &&& self.outcome == before.outcome
    }

    /// The run has gone on to the next snapshot of the plan, or is over after the last one.
    pub open spec fn moved_on(&self, before: &PullRun, action: PullAction) -> bool {
        &&& self.own == before.own
        &&& self.plan == before.plan
        &&& self.next == before.next + 1
        &&& if self.next < self.plan@.len() {
            self.phase == Phase::Fetching && (action matches PullAction::Fetch(k) && k@
                == self.plan@[self.next as int]@.key)
        } else {
            self.phase == Phase::Over && action is Finish
        }
    }

    /// Begins a pull of the given plan.
    pub fn start(own: &str, plan: Vec<RemoteSnapshot>) -> (r: (PullRun, PullAction))
        ensures
            r.0.wf(),
            r.0.pending_fits(),
            r.0.own@ == own@,
            r.0.plan == plan,
            r.0.next == 0,
            r.0.outcome.planned == plan@.len(),
            r.0.outcome.pulled == 0,
            r.0.outcome.skipped_own == 0,
            r.0.outcome.at@.len() == 0,
            if plan@.len() > 0 {
                r.0.phase == Phase::Fetching && (r.1 matches PullAction::Fetch(k) && k@
                    == plan@[0]@.key)
            } else {
                r.0.phase == Phase::Over && r.1 is Finish
            },
    {
        let planned = plan.len();
        let (phase, action) = if planned > 0 {
            (Phase::Fetching, PullAction::Fetch(plan[0].key.clone()))
        } else {
            (Phase::Over, PullAction::Finish)
        };
        let run = PullRun {
            own: own.to_owned(),
            plan,
            next: 0,
            phase,
            from: String::new(),
            pending: (0, 0),
            outcome: PullOutcome {
                planned,
                pulled: 0,
                skipped_own: 0,
                applied: 0,
                conflicts: 0,
                details: Vec::new(),
                at: String::new(),
            },
        };
        assert(at_places(run.outcome.details@, run.plan@, 0, Seq::empty()));
        (run, action)
    }

    /// Goes on to the next snapshot of the plan.
    fn advance(&mut self) -> (action: PullAction)
        requires
            old(self).next < old(self).plan@.len(),
        ensures
            final(self).moved_on(old(self), action),
            final(self).outcome == old(self).outcome,
            final(self).phase != Phase::Marking,
    {
        assert(self.next < self.plan.len());
        self.next = self.next + 1;
        if self.next < self.plan.len() {
            self.phase = Phase::Fetching;
            PullAction::Fetch(self.plan[self.next].key.clone())
        } else {
            self.phase = Phase::Over;
            PullAction::Finish
        }
    }

    /// Takes in what came of the last action and says what to do next.
    pub fn step(&mut self, event: PullEvent) -> (action: PullAction)
        requires
            old(self).wf(),
            old(self).pending_fits(),
            old(self).awaits(event),
        ensures
            final(self).wf(),
            final(self).pending_fits(),
            match event {
                PullEvent::Fetched(b) => {
                    &&& final(self).only_phase(old(self))
                    &&& if valid_utf8(b@) {
                        final(self).phase == Phase::Parsing && (action matches PullAction::Parse(t)
                            && encode_utf8(t@) == b@)
                    } else {
                        final(self).phase == Phase::Over && (action matches PullAction::Fail(m)
                            && m@ == about_snapshot(
                            "远端快照 "@,
                            old(self).plan@[old(self).next as int]@.key,
                            " 不是合法 UTF-8: "@,
                            utf8_fault(b@),
                        ))
                    }
                },
                PullEvent::Parsed(h) => {
                    let item = old(self).plan@[old(self).next as int]@;
                    let from = source_device(h, listed_device(item));
                    if from == old(self).own@ {
                        &&& final(self).moved_on(old(self), action)
                        &&& final(self).outcome == (PullOutcome {
                            skipped_own: (old(self).outcome.skipped_own + 1) as usize,
                            ..old(self).outcome
                        })
                    } else {
                        &&& final(self).only_phase(old(self))
                        &&& final(self).phase == Phase::Applying
                        &&& final(self).from@ == from
                        &&& action matches PullAction::Apply(d) && d@ == from
                    }
                },
                PullEvent::ParseFailed(e) => {
                    &&& final(self).only_phase(old(self))
                    &&& final(self).phase == Phase::Over
                    &&& action matches PullAction::Fail(m) && m@ == about_snapshot(
                        "远端快照 "@,
                        old(self).plan@[old(self).next as int]@.key,
                        " 解析失败: "@,
                        e@,
                    )
                },
                PullEvent::Applied(a, c) => {
                    &&& final(self).only_phase(old(self))
                    &&& final(self).phase == Phase::Marking
                    &&& final(self).from == old(self).from
                    &&& final(self).pending == (a, c)
                    &&& action matches PullAction::Mark(d, k) && d@ == old(self).from@ && k@
                        == old(self).plan@[old(self).next as int]@.key
                },
                PullEvent::ApplyFailed(e) => {
                    &&& final(self).only_phase(old(self))
                    &&& final(self).phase == Phase::Over
                    &&& action matches PullAction::Fail(m) && m@ == about_snapshot(
                        "回放远端快照 "@,
                        old(self).plan@[old(self).next as int]@.key,
                        " 失败: "@,
                        e@,
                    )
                },
                PullEvent::Marked => {
                    let item = old(self).plan@[old(self).next as int]@;
                    let o = old(self).outcome;
                    let n = final(self).outcome;
                    &&& final(self).moved_on(old(self), action)
                    &&& n.planned == o.planned
                    &&& n.pulled == o.pulled + 1
                    &&& n.skipped_own == o.skipped_own
                    &&& n.applied == o.applied + old(self).pending.0
                    &&& n.conflicts == o.conflicts + old(self).pending.1
                    &&& n.at == o.at
                    &&& n.details@.len() == o.details@.len() + 1
                    &&& n.details@.drop_last() == o.details@
                    &&& n.details@.last().device@ == old(self).from@
                    &&& n.details@.last().key@ == item.key
                    &&& n.details@.last().applied == old(self).pending.0
                    &&& n.details@.last().conflicts == old(self).pending.1
                    &&& n.details@.last().at@ == item.at
                },
                PullEvent::Failed(m) => {
                    &&& final(self).only_phase(old(self))
                    &&& final(self).phase == Phase::Over
                    &&& action matches PullAction::Fail(t) && t@ == m@
                },
            },
    {
        match event {
            PullEvent::Fetched(b) => match utf8_text(b.as_slice()) {
                Ok(t) => {
                    self.phase = Phase::Parsing;
                    PullAction::Parse(t)
                },
                Err(e) => {
                    self.phase = Phase::Over;
                    PullAction::Fail(
                        snapshot_message(
                            "远端快照 ",
                            self.plan[self.next].key.as_str(),
                            " 不是合法 UTF-8: ",
                            e.as_str(),
                        ),
                    )
                },
            },
            PullEvent::Parsed(h) => {
                let listed = device_listed(&self.plan[self.next]);
                let from = snapshot_source(h, listed.as_str());
                if same(from.as_str(), self.own.as_str()) {
                    self.outcome.skipped_own = self.outcome.skipped_own + 1;
                    proof {
                        lemma_passed_over(self.outcome.details@, self.plan@, self.next as int);
                    }
                    self.advance()
                } else {
                    self.from = from.clone();
                    self.phase = Phase::Applying;
                    PullAction::Apply(from)
                }
            },
            PullEvent::ParseFailed(e) => {
                self.phase = Phase::Over;
                PullAction::Fail(
                    snapshot_message(
                        "远端快照 ",
                        self.plan[self.next].key.as_str(),
                        " 解析失败: ",
                        e.as_str(),
                    ),
                )
            },
            PullEvent::Applied(a, c) => {
                self.pending = (a, c);
                self.phase = Phase::Marking;
                PullAction::Mark(self.from.clone(), self.plan[self.next].key.clone())
            },
            PullEvent::ApplyFailed(e) => {
                self.phase = Phase::Over;
                PullAction::Fail(
                    snapshot_message(
                        "回放远端快照 ",
                        self.plan[self.next].key.as_str(),
                        " 失败: ",
                        e.as_str(),
                    ),
                )
            },
            PullEvent::Marked => {
                let ghost before = self.outcome.details@;
                let detail = PullDetail {
                    device: self.from.clone(),
                    key: self.plan[self.next].key.clone(),
                    applied: self.pending.0,
                    conflicts: self.pending.1,
                    at: self.plan[self.next].at.clone(),
                };
                self.outcome.pulled = self.outcome.pulled + 1;
                self.outcome.applied = self.outcome.applied + self.pending.0;
                self.outcome.conflicts = self.outcome.conflicts + self.pending.1;
                self.outcome.details.push(detail);
                proof {
                    lemma_applied(before, self.plan@, self.next as int, detail);
                }
                assert(self.outcome.details@.drop_last() =~= before);
                self.advance()
            },
            PullEvent::Failed(m) => {
                self.phase = Phase::Over;
                PullAction::Fail(m)
            },
        }
    }

    /// Ends a finished pull at a given time; says whether that time is to be kept as the time of
    /// the last pull.
    pub fn finish(self, at: &str) -> (r: (PullOutcome, bool))
        ensures
            r.0 == (PullOutcome { at: r.0.at, ..self.outcome }),
            r.0.at@ == at@,
            r.1 == (self.outcome.pulled > 0),
    {
        let keep = self.outcome.pulled > 0;
        let mut o = self.outcome;
        o.at = at.to_owned();
        (o, keep)
    }
}

/// A pull that has come to its end has dealt with every snapshot of its plan, once each: it was
/// applied or it was this device's own. What was applied are snapshots of the plan, in its order.
pub proof fn law_finished_pull_covers_plan(run: PullRun)
    requires
        run.wf(),
        run.next == run.plan@.len(),
    ensures
        run.outcome.pulled + run.outcome.skipped_own == run.outcome.planned,
        run.outcome.details@.len() == run.outcome.pulled,
        run.outcome.applied == total_applied(run.outcome.details@),
        run.outcome.conflicts == total_conflicts(run.outcome.details@),
        follows_plan(run.outcome.details@, run.plan@, run.plan@.len() as int),
{
}

} // verus!
