//! Laws of the exchange with other devices, stated on the characters of keys and on the fields of
//! entries, marks and settings.
use vstd::prelude::*;
use crate::backup::short_at;
use crate::channel::{by_key, config_ready, dir_key_ok, dir_path, found_entries, found_key, normal_config, stored_entry, ConfigView, FoundFile};
use crate::cloud::{device_of, eligible, is_pull_plan, key_of, law_key_round_trip, law_stamp_at, newest, parse_key, pulled_before, seen_of, stamp_at, stamp_of, valid_stamp, SnapView};
use crate::json::Doc;
use crate::memory::lists_contents;
use crate::order::{arranges, stably_sorted};
use crate::percent::{law_percent_decodes, percent_bytes, percent_decode, percent_of, percent_text};
use crate::pull::{about_snapshot, listed_device, marks_in, push_request, source_device, total_applied, total_conflicts, PullAction, PullDetail, PullRun, Phase};
use crate::relay::{action_url, bare_address, envelope_fault, http_fault, pg_error_text, pg_fault, pg_url, query_rest, query_whole, request_entry, route_fault, routed, row_entry, rows_in, Channel, PgRow};
use crate::text::{begins, digit, lemma_ascii_bytes, lemma_lex_irreflexive, lemma_lex_transitive, lex_lt, occurs, trimmed, white, without_trailing};
use crate::text_laws::law_trim_takes_the_ends;
use vstd::utf8::{encode_utf8, is_ascii_chars, is_ascii_chars_encode_utf8};

verus! {

/// A time stamp is eighteen characters: eight digits, a hyphen and nine more digits.
pub proof fn law_stamp_shape(s: Seq<char>)
    ensures
        valid_stamp(s) <==> s.len() == 18 && s[8] == '-' && (forall|i: int|
            0 <= i < 18 && i != 8 ==> '0' <= (#[trigger] s[i]) && s[i] <= '9'),
{
    if valid_stamp(s) {
        assert forall|i: int| 0 <= i < 18 && i != 8 implies '0' <= (#[trigger] s[i]) && s[i]
            <= '9' by {
            assert(digit(s[i]));
        }
    }
}

/// The key of a snapshot is read back as its device and its stamp, for every device name that is not
/// empty and holds no slash and for every stamp of the right shape; and whatever reads as a key is
/// made like that.
pub proof fn law_key_is_device_and_stamp(key: Seq<char>, d: Seq<char>, s: Seq<char>)
    ensures
        parse_key(key) == Some((d, s)) <==> {
            &&& d.len() > 0
            &&& forall|i: int| 0 <= i < d.len() ==> (#[trigger] d[i]) != '/'
            &&& s.len() == 18
            &&& s[8] == '-'
            &&& forall|i: int| 0 <= i < 18 && i != 8 ==> '0' <= (#[trigger] s[i]) && s[i] <= '9'
            &&& key == d + seq!['/'] + s + seq!['.', 'j', 's', 'o', 'n', 'l']
        },
{
    law_key_round_trip(key, d, s);
    law_stamp_shape(s);
    reveal_strlit("/");
    reveal_strlit(".jsonl");
    assert("/"@ =~= seq!['/']);
    assert(".jsonl"@ =~= seq!['.', 'j', 's', 'o', 'n', 'l']);
    if forall|i: int| 0 <= i < d.len() ==> (#[trigger] d[i]) != '/' {
        assert(!d.contains('/'));
    }
    if !d.contains('/') {
        assert forall|i: int| 0 <= i < d.len() implies (#[trigger] d[i]) != '/' by {
            if d[i] == '/' {
                assert(d.contains('/'));
            }
        }
    }
}

/// The time that a stamp stands for: its first fourteen digits, with separators between them.
pub proof fn law_time_of_a_stamp(s: Seq<char>)
    requires
        s.len() == 18,
        s[8] == '-',
        forall|i: int| 0 <= i < 18 && i != 8 ==> '0' <= (#[trigger] s[i]) && s[i] <= '9',
    ensures
        stamp_at(s) == seq![
            s[0],
            s[1],
            s[2],
            s[3],
            '-',
            s[4],
            s[5],
            '-',
            s[6],
            s[7],
            ' ',
            s[9],
            s[10],
            ':',
            s[11],
            s[12],
            ':',
            s[13],
            s[14],
        ],
{
    law_stamp_shape(s);
    law_stamp_at(s);
    reveal_strlit("-");
    reveal_strlit(" ");
    reveal_strlit(":");
    assert(stamp_at(s) =~= seq![
        s[0],
        s[1],
        s[2],
        s[3],
        '-',
        s[4],
        s[5],
        '-',
        s[6],
        s[7],
        ' ',
        s[9],
        s[10],
        ':',
        s[11],
        s[12],
        ':',
        s[13],
        s[14],
    ]);
}

/// The first mark of a device is the one that counts; a device without a mark has none.
pub proof fn law_first_mark_counts(seen: Seq<(Seq<char>, Seq<char>)>, device: Seq<char>, j: int)
    requires
        0 <= j <= seen.len(),
        j < seen.len() ==> seen[j].0 == device,
        forall|i: int| 0 <= i < j ==> (#[trigger] seen[i]).0 != device,
    ensures
        j < seen.len() ==> seen_of(seen, device) == Some(seen[j].1),
        j == seen.len() ==> seen_of(seen, device) is None,
    decreases seen.len(),
{
    if seen.len() > 0 && j > 0 {
        assert(seen[0].0 != device);
        assert forall|i: int| 0 <= i < j - 1 implies (#[trigger] seen.skip(1)[i]).0 != device by {
            assert(seen.skip(1)[i] == seen[i + 1]);
        }
        law_first_mark_counts(seen.skip(1), device, j - 1);
    }
}

/// An entry may be pulled exactly where its key is that of a device's snapshot, its kind says so, the
/// listing names that device or none, the device is not this one, and nothing of the device was
/// applied yet or only something with an earlier stamp.
pub proof fn law_what_may_be_pulled(
    r: SnapView,
    own: Seq<char>,
    seen: Seq<(Seq<char>, Seq<char>)>,
    d: Seq<char>,
    s: Seq<char>,
)
    requires
        d.len() > 0,
        forall|i: int| 0 <= i < d.len() ==> (#[trigger] d[i]) != '/',
        s.len() == 18,
        s[8] == '-',
        forall|i: int| 0 <= i < 18 && i != 8 ==> '0' <= (#[trigger] s[i]) && s[i] <= '9',
        r.key == d + seq!['/'] + s + seq!['.', 'j', 's', 'o', 'n', 'l'],
    ensures
        r.kind != "snapshot"@ ==> !eligible(r, own, seen),
        r.device.len() > 0 && r.device != d ==> !eligible(r, own, seen),
        d == own ==> !eligible(r, own, seen),
        r.kind == "snapshot"@ && (r.device.len() == 0 || r.device == d) && d != own && seen_of(
            seen,
            d,
        ) is None ==> eligible(r, own, seen),
        forall|t: Seq<char>|
            #![trigger key_of(d, t)]
            r.kind == "snapshot"@ && (r.device.len() == 0 || r.device == d) && d != own && valid_stamp(
                t,
            ) && seen_of(seen, d) == Some(key_of(d, t)) ==> (eligible(r, own, seen) <==> lex_lt(
                t,
                s,
            )),
{
    law_key_is_device_and_stamp(r.key, d, s);
    assert forall|t: Seq<char>|
        #![trigger key_of(d, t)]
        r.kind == "snapshot"@ && (r.device.len() == 0 || r.device == d) && d != own && valid_stamp(
            t,
        ) && seen_of(seen, d) == Some(key_of(d, t)) implies (eligible(r, own, seen) <==> lex_lt(
        t,
        s,
    )) by {
        law_key_round_trip(key_of(d, t), d, t);
        assert(!d.contains('/')) by {
            if d.contains('/') {
                let i = choose|i: int| 0 <= i < d.len() && d[i] == '/';
                assert(d[i] != '/');
            }
        }
        assert(stamp_of(key_of(d, t)) == t);
    }
}

/// A plan to pull holds nothing but entries of the listing that are snapshots of other devices, none
/// of which was applied before, each the latest of its device; and they come in the order of their
/// times and keys.
pub proof fn law_plan_holds_the_latest(
    remote: Seq<SnapView>,
    own: Seq<char>,
    seen: Seq<(Seq<char>, Seq<char>)>,
    out: Seq<SnapView>,
    k: int,
    l: int,
) -> (i: int)
    requires
        is_pull_plan(remote, own, seen, out),
        0 <= k < out.len(),
    ensures
        0 <= i < remote.len(),
        remote[i] == out[k],
        out[k].kind == "snapshot"@,
        parse_key(out[k].key) is Some,
        parse_key(out[k].key)->Some_0.0 != own,
        out[k].device.len() == 0 || out[k].device == parse_key(out[k].key)->Some_0.0,
        forall|j: int|
            0 <= j < remote.len() && eligible(#[trigger] remote[j], own, seen) && parse_key(
                remote[j].key,
            )->Some_0.0 == parse_key(out[k].key)->Some_0.0 ==> !lex_lt(
                parse_key(out[k].key)->Some_0.1,
                parse_key(remote[j].key)->Some_0.1,
            ),
        k < l < out.len() ==> lex_lt(out[k].at, out[l].at) || (out[k].at == out[l].at && lex_lt(
            out[k].key,
            out[l].key,
        )),
{
    assert(crate::cloud::is_newest_entry(remote, own, seen, out[k]));
    let i = choose|i: int| #[trigger] newest(remote, own, seen, i) && remote[i] == out[k];
    assert forall|j: int|
        0 <= j < remote.len() && eligible(#[trigger] remote[j], own, seen) && parse_key(
            remote[j].key,
        )->Some_0.0 == parse_key(out[k].key)->Some_0.0 implies !lex_lt(
        parse_key(out[k].key)->Some_0.1,
        parse_key(remote[j].key)->Some_0.1,
    ) by {
        assert(!crate::cloud::beats(remote, j, i));
    }
    if k < l < out.len() {
        assert(pulled_before(out[k], out[l]));
    }
    i
}

/// An entry that may be pulled, and than which the listing has no later one of its device, is in the
/// plan, or an earlier one of the listing with the same stamp is.
pub proof fn law_plan_misses_nothing(
    remote: Seq<SnapView>,
    own: Seq<char>,
    seen: Seq<(Seq<char>, Seq<char>)>,
    out: Seq<SnapView>,
    i: int,
)
    requires
        is_pull_plan(remote, own, seen, out),
        0 <= i < remote.len(),
        eligible(remote[i], own, seen),
        forall|j: int|
            0 <= j < remote.len() && j != i && eligible(#[trigger] remote[j], own, seen)
                && parse_key(remote[j].key)->Some_0.0 == parse_key(remote[i].key)->Some_0.0 ==> lex_lt(
                parse_key(remote[j].key)->Some_0.1,
                parse_key(remote[i].key)->Some_0.1,
            ),
    ensures
        out.contains(remote[i]),
{
    assert forall|j: int|
        0 <= j < remote.len() && eligible(#[trigger] remote[j], own, seen) && device_of(
            remote[j].key,
        ) == device_of(remote[i].key) implies !crate::cloud::beats(remote, j, i) by {
        let a = stamp_of(remote[i].key);
        let b = stamp_of(remote[j].key);
        lemma_lex_irreflexive(a);
        if j != i {
            assert(lex_lt(b, a));
            if lex_lt(a, b) {
                lemma_lex_transitive(a, b, a);
            }
        }
    }
    assert(newest(remote, own, seen, i));
}

/// A stored entry named `cloud_seen:` and a device is the mark of that device; an entry with another
/// name, or with no device behind the prefix, is no mark.
pub proof fn law_marks_are_named_by_prefix(
    rows: Seq<(Seq<char>, Seq<char>)>,
    device: Seq<char>,
    key: Seq<char>,
    other: Seq<char>,
)
    requires
        device.len() > 0,
        !begins(other, "cloud_seen:"@) || other == "cloud_seen:"@,
    ensures
        marks_in(rows.push(("cloud_seen:"@ + device, key))) == marks_in(rows).push((device, key)),
        marks_in(rows.push((other, key))) == marks_in(rows),
        marks_in(Seq::empty()).len() == 0,
{
    let p = "cloud_seen:"@;
    let a = rows.push((p + device, key));
    let b = rows.push((other, key));
    assert(a.drop_last() =~= rows && b.drop_last() =~= rows);
    assert((p + device).subrange(0, p.len() as int) =~= p);
    assert((p + device).skip(p.len() as int) =~= device);
}

/// A snapshot is pushed under the key of its device and stamp, as a snapshot, with the text as its
/// body; and a store of files or in memory reads its time from the key.
pub proof fn law_pushed_entry(device: Seq<char>, stamp: Seq<char>, at: Seq<char>, text: Seq<char>)
    requires
        device.len() > 0,
        forall|i: int| 0 <= i < device.len() ==> (#[trigger] device[i]) != '/',
        valid_stamp(stamp),
    ensures
        ({
            let req = push_request(device, stamp, at, text);
            let e = stored_entry(req);
            &&& req.key == device + "/"@ + stamp + ".jsonl"@
            &&& req.device == device
            &&& req.at == at
            &&& req.kind == "snapshot"@
            &&& req.body == vstd::utf8::encode_utf8(text)
            &&& e.key == req.key
            &&& e.device == device
            &&& e.at == stamp_at(stamp)
            &&& e.kind == "snapshot"@
            &&& request_entry(req).at == at
            &&& request_entry(req).key == req.key
            &&& request_entry(req).device == device
            &&& request_entry(req).kind == "snapshot"@
        }),
{
    law_key_round_trip(key_of(device, stamp), device, stamp);
    assert(!device.contains('/')) by {
        if device.contains('/') {
            let i = choose|i: int| 0 <= i < device.len() && device[i] == '/';
            assert(device[i] != '/');
        }
    }
}

/// The device of an entry is the one that the listing names, else the one in its key; the source of a
/// snapshot is the device in its header, else that one.
pub proof fn law_source_of_a_snapshot(e: SnapView, header: Option<String>)
    ensures
        e.device.len() > 0 ==> listed_device(e) == e.device,
        e.device.len() == 0 && parse_key(e.key) is Some ==> listed_device(e) == parse_key(
            e.key,
        )->Some_0.0,
        e.device.len() == 0 && parse_key(e.key) is None ==> listed_device(e).len() == 0,
        header is Some && header->Some_0@.len() > 0 ==> source_device(header, listed_device(e))
            == header->Some_0@,
        header is None || header->Some_0@.len() == 0 ==> source_device(header, listed_device(e))
            == listed_device(e),
{
}

/// A step that only changes what a run waits for keeps its plan, its place and its outcome; one that
/// moves on goes to the next snapshot of the plan and fetches it, or finishes behind the last.
pub proof fn law_steps_of_a_pull(r: PullRun, before: PullRun, action: PullAction, d: Seq<PullDetail>, x: PullDetail)
    ensures
        r.only_phase(&before) ==> r.own == before.own && r.plan == before.plan && r.next
            == before.next && r.outcome == before.outcome,
        r.moved_on(&before, action) ==> r.own == before.own && r.plan == before.plan && r.next
            == before.next + 1,
        r.moved_on(&before, action) && r.next < r.plan@.len() ==> r.phase == Phase::Fetching && (
        action matches PullAction::Fetch(k) && k@ == r.plan@[r.next as int].key@),
        r.moved_on(&before, action) && r.next >= r.plan@.len() ==> r.phase == Phase::Over
            && action is Finish,
        total_applied(d.push(x)) == total_applied(d) + x.applied,
        total_conflicts(d.push(x)) == total_conflicts(d) + x.conflicts,
        total_applied(Seq::empty()) == 0,
        total_conflicts(Seq::empty()) == 0,
{
    assert(d.push(x).drop_last() =~= d);
}

/// The state of a run agrees with its counts: what was pulled and what was skipped are the snapshots
/// behind it, and the totals are those of the single ones.
pub proof fn law_run_counts(run: PullRun)
    requires
        run.wf(),
    ensures
        run.outcome.planned == run.plan@.len(),
        run.outcome.pulled + run.outcome.skipped_own == run.next,
        run.outcome.details@.len() == run.outcome.pulled,
        run.outcome.applied == total_applied(run.outcome.details@),
        run.outcome.conflicts == total_conflicts(run.outcome.details@),
        run.next <= run.plan@.len(),
        run.phase != Phase::Over ==> run.next < run.plan@.len(),
{
}

// ---------------------------------------------------------------------------
// Settings
// ---------------------------------------------------------------------------

/// Settings lose the white space round each field; the three known modes stand, every other one
/// switches the exchange off.
pub proof fn law_settings_are_normalised(c: ConfigView)
    ensures
        normal_config(c).endpoint == trimmed(c.endpoint),
        normal_config(c).token == trimmed(c.token),
        normal_config(c).dir == trimmed(c.dir),
        trimmed(c.mode) == "dir"@ ==> normal_config(c).mode == "dir"@,
        trimmed(c.mode) == "cloud"@ ==> normal_config(c).mode == "cloud"@,
        trimmed(c.mode) == "pg"@ ==> normal_config(c).mode == "pg"@,
        trimmed(c.mode) != "dir"@ && trimmed(c.mode) != "cloud"@ && trimmed(c.mode) != "pg"@
            ==> normal_config(c).mode == "off"@,
{
}

/// Settings are complete for the mode of a directory where there is a directory, for the other two
/// where there are an address and a token, and never for any other mode.
pub proof fn law_settings_are_complete(c: ConfigView)
    ensures
        c.mode == "dir"@ ==> (config_ready(c) <==> trimmed(c.dir).len() > 0),
        c.mode == "cloud"@ || c.mode == "pg"@ ==> (config_ready(c) <==> trimmed(c.endpoint).len() > 0
            && trimmed(c.token).len() > 0),
        c.mode != "dir"@ && c.mode != "cloud"@ && c.mode != "pg"@ ==> !config_ready(c),
{
    lemma_modes_differ();
}

proof fn lemma_modes_differ()
    ensures
        "dir"@.len() == 3,
        "cloud"@.len() == 5,
        "pg"@.len() == 2,
{
    reveal_strlit("dir");
    reveal_strlit("cloud");
    reveal_strlit("pg");
}

/// Settings without a mode select no channel; those of a directory need one; those of the other two
/// modes need an address, then a token, then an address of the web. What they select is the channel
/// of their mode with their address and token.
pub proof fn law_settings_select_a_channel(c: ConfigView, ch: Channel)
    ensures
        c.mode != "dir"@ && c.mode != "cloud"@ && c.mode != "pg"@ ==> route_fault(c) == Some(
            "云通道未启用"@,
        ),
        c.mode == "dir"@ && c.dir.len() == 0 ==> route_fault(c) == Some("尚未设置本地目录通道的目录"@),
        c.mode == "dir"@ && c.dir.len() > 0 ==> route_fault(c) is None,
        c.mode == "cloud"@ && c.endpoint.len() == 0 ==> route_fault(c) == Some("尚未设置云通道地址"@),
        c.mode == "cloud"@ && c.endpoint.len() > 0 && c.token.len() == 0 ==> route_fault(c) == Some(
            "尚未设置云通道令牌"@,
        ),
        c.mode == "pg"@ && c.endpoint.len() == 0 ==> route_fault(c) == Some("尚未设置 CloudBase REST 基址"@),
        c.mode == "pg"@ && c.endpoint.len() > 0 && c.token.len() == 0 ==> route_fault(c) == Some(
            "尚未设置 CloudBase API Key"@,
        ),
        (c.mode == "cloud"@ || c.mode == "pg"@) && route_fault(c) is None ==> begins(
            bare_address(c.endpoint),
            "http://"@,
        ) || begins(bare_address(c.endpoint), "https://"@),
        c.mode == "cloud"@ && c.endpoint.len() > 0 && c.token.len() > 0 && (begins(
            bare_address(c.endpoint),
            "http://"@,
        ) || begins(bare_address(c.endpoint), "https://"@)) && !occurs(
            bare_address(c.endpoint),
            "?"@,
        ) ==> route_fault(c) is None,
        c.mode == "pg"@ && c.endpoint.len() > 0 && trimmed(c.token).len() > 0 && c.token.len() > 0 && (
        begins(bare_address(c.endpoint), "http://"@) || begins(
            bare_address(c.endpoint),
            "https://"@,
        )) ==> route_fault(c) is None,
        routed(c, ch) ==> match ch {
            Channel::Dir(d) => c.mode == "dir"@ && d.root@ == c.dir,
            Channel::Http(h) => c.mode == "cloud"@ && h.endpoint@ == bare_address(c.endpoint)
                && h.token@ == c.token,
            Channel::Pg(p) => c.mode == "pg"@ && p.base@ == bare_address(c.endpoint) && p.token@
                == trimmed(c.token),
        },
{
    lemma_modes_differ();
    reveal_strlit("http://");
    reveal_strlit("https://");
}

/// An address loses the white space round it and the slashes behind it, and nothing else.
pub proof fn law_address_is_bared(l: Seq<char>, s: Seq<char>, slashes: Seq<char>, r: Seq<char>)
    requires
        s.len() > 0,
        !white(s[0]),
        !white(s.last()),
        s.last() != '/',
        forall|i: int| 0 <= i < l.len() ==> white(#[trigger] l[i]),
        forall|i: int| 0 <= i < r.len() ==> white(#[trigger] r[i]),
        forall|i: int| 0 <= i < slashes.len() ==> (#[trigger] slashes[i]) == '/',
    ensures
        bare_address(l + (s + slashes) + r) == s,
{
    let t = s + slashes;
    if slashes.len() > 0 {
        assert(slashes[slashes.len() - 1] == '/');
        assert(t.last() == '/');
    } else {
        assert(t.last() == s.last());
    }
    assert(t[0] == s[0]);
    law_trim_takes_the_ends(l, t, r);
    lemma_slashes_go(s, slashes);
}

proof fn lemma_slashes_go(s: Seq<char>, slashes: Seq<char>)
    requires
        s.len() > 0,
        s.last() != '/',
        forall|i: int| 0 <= i < slashes.len() ==> (#[trigger] slashes[i]) == '/',
    ensures
        without_trailing(s + slashes, '/') == s,
    decreases slashes.len(),
{
    let t = s + slashes;
    if slashes.len() > 0 {
        assert(slashes[slashes.len() - 1] == '/');
        assert(t.drop_last() =~= s + slashes.drop_last());
        lemma_slashes_go(s, slashes.drop_last());
    } else {
        assert(t =~= s);
    }
}

/// An address of the relay is refused exactly where it is empty, where it does not name a protocol of
/// the web, or where it holds a query, in this order; that of the table service where it is empty,
/// where it names no such protocol, or where the key is blank.
pub proof fn law_bad_addresses(e: Seq<char>, token: Seq<char>)
    ensures
        e.len() == 0 ==> http_fault(e) == Some("云通道地址为空"@) && pg_fault(e, token) == Some(
            "CloudBase REST 基址为空"@,
        ),
        e.len() > 0 && !begins(e, "http://"@) && !begins(e, "https://"@) ==> http_fault(e) == Some(
            "云通道地址必须以 http(s):// 开头: "@ + e,
        ) && pg_fault(e, token) == Some("CloudBase REST 基址必须以 http(s):// 开头: "@ + e),
        e.len() > 0 && (begins(e, "http://"@) || begins(e, "https://"@)) && occurs(e, "?"@)
            ==> http_fault(e) == Some("云通道地址不应包含查询串: "@ + e),
        e.len() > 0 && (begins(e, "http://"@) || begins(e, "https://"@)) && !occurs(e, "?"@)
            ==> http_fault(e) is None,
        e.len() > 0 && (begins(e, "http://"@) || begins(e, "https://"@)) ==> (pg_fault(
            e,
            token,
        ) is None <==> trimmed(token).len() > 0),
        e.len() > 0 && (begins(e, "http://"@) || begins(e, "https://"@)) && trimmed(token).len()
            == 0 ==> pg_fault(e, token) == Some("CloudBase API Key 为空"@),
{
}

/// A query carries every named value once, in order, percent-encoded: the first of a whole query
/// behind a question mark, all others behind an ampersand.
pub proof fn law_queries_carry_their_values(
    q: Seq<(Seq<char>, Seq<char>)>,
    name: Seq<char>,
    value: Seq<char>,
)
    ensures
        query_rest(Seq::empty()).len() == 0,
        query_whole(Seq::empty()).len() == 0,
        query_rest(q.push((name, value))) == query_rest(q) + "&"@ + name + "="@ + percent_text(value),
        q.len() == 0 ==> query_whole(q.push((name, value))) == "?"@ + name + "="@ + percent_text(
            value,
        ),
        q.len() > 0 ==> query_whole(q.push((name, value))) == query_whole(q) + "&"@ + name + "="@
            + percent_text(value),
        percent_decode(percent_text(value)) == vstd::utf8::encode_utf8(value),
{
    let all = q.push((name, value));
    assert(all.drop_last() =~= q);
    assert(all.last() == (name, value));
    law_percent_decodes(vstd::utf8::encode_utf8(value));
    assert(query_rest(all) =~= query_rest(q) + "&"@ + name + "="@ + percent_text(value));
    if q.len() == 0 {
        assert(query_whole(q) =~= Seq::<char>::empty());
        assert(query_whole(all) =~= "?"@ + name + "="@ + percent_text(value));
    } else {
        assert(query_whole(all) =~= query_whole(q) + "&"@ + name + "="@ + percent_text(value));
    }
}

/// The address of an action begins with that of the relay and names the action; that of a query on the
/// table begins with the base and names the table.
pub proof fn law_addresses(
    endpoint: Seq<char>,
    action: Seq<char>,
    extra: Seq<(Seq<char>, Seq<char>)>,
)
    ensures
        action_url(endpoint, action, extra) == endpoint + "?action="@ + percent_text(action)
            + query_rest(extra),
        pg_url(endpoint, extra) == endpoint + "/fl_sync"@ + query_whole(extra),
{
    reveal_strlit("/");
    reveal_strlit("fl_sync");
    reveal_strlit("/fl_sync");
    assert("/"@ + "fl_sync"@ =~= "/fl_sync"@);
    assert(endpoint + "/"@ + "fl_sync"@ =~= endpoint + ("/"@ + "fl_sync"@));
}

/// A byte is written as it is exactly where it is an ASCII letter, a digit or one of `-._~`, and as a
/// percent sign and two digits otherwise, one byte after the other.
pub proof fn law_percent_encoding(b: u8, rest: Seq<u8>)
    ensures
        65 <= b <= 90 || 97 <= b <= 122 || 48 <= b <= 57 || b == 45 || b == 46 || b == 95 || b == 126
            ==> percent_of(b).len() == 1 && percent_of(b)[0] as u32 == b,
        !(65 <= b <= 90 || 97 <= b <= 122 || 48 <= b <= 57 || b == 45 || b == 46 || b == 95 || b
            == 126) ==> percent_of(b).len() == 3 && percent_of(b)[0] == '%',
        percent_bytes(seq![b] + rest) == percent_of(b) + percent_bytes(rest),
{
    assert((seq![b] + rest).skip(1) =~= rest);
}

/// A reply of the relay is an error exactly where it says so or where its status does; its own words
/// go first, its status stands in for them.
pub proof fn law_replies(status_ok: bool, status: Seq<char>, ok: bool, error: Seq<char>)
    ensures
        envelope_fault(status_ok, status, ok, error) is None <==> ok && status_ok,
        !ok && error.len() > 0 ==> envelope_fault(status_ok, status, ok, error) == Some(
            "云通道返回错误: "@ + error,
        ),
        !ok && error.len() == 0 ==> envelope_fault(status_ok, status, ok, error) == Some(
            "云通道返回错误: "@ + ("HTTP "@ + status),
        ),
        ok && !status_ok ==> envelope_fault(status_ok, status, ok, error) == Some(
            "云通道返回 HTTP "@ + status,
        ),
{
}

/// An error reply of the table service is told by its message, with the code where there is one; by the
/// code alone where there is no message; else by at most three hundred characters of its text.
pub proof fn law_table_errors(code: Seq<char>, msg: Seq<char>, text: Seq<char>)
    ensures
        msg.len() > 0 && code.len() == 0 ==> pg_error_text(Some((code, msg)), text) == msg,
        msg.len() > 0 && code.len() > 0 ==> pg_error_text(Some((code, msg)), text) == msg + " ("@
            + code + ")"@,
        msg.len() == 0 && code.len() > 0 ==> pg_error_text(Some((code, msg)), text) == code,
        trimmed(text).len() == 0 ==> pg_error_text(None, text) == "（无响应体）"@,
        0 < trimmed(text).len() <= 300 ==> pg_error_text(None, text) == trimmed(text),
        trimmed(text).len() > 300 ==> pg_error_text(None, text).len() == 300 && pg_error_text(
            None,
            text,
        ) == trimmed(text).take(300),
        msg.len() == 0 && code.len() == 0 ==> pg_error_text(Some((code, msg)), text)
            == pg_error_text(None, text),
{
}

/// The entry of a row of the table bears the key of its device and stamp, and what the row tells.
pub proof fn law_entry_of_a_row(r: PgRow)
    ensures
        row_entry(r).key == r.device@ + "/"@ + r.stamp@ + ".jsonl"@,
        row_entry(r).device == r.device@,
        row_entry(r).at == stamp_at(r.stamp@),
        row_entry(r).size == r.size,
        row_entry(r).kind == r.kind@,
{
}

// ---------------------------------------------------------------------------
// The directory
// ---------------------------------------------------------------------------

/// A key names a file of the directory only where it is that of a device's snapshot, holds no
/// backslash and no two dots in a row, and where the device holds no dot; the file stands under the
/// directory of snapshots, in that of its device.
pub proof fn law_keys_stay_in_the_directory(root: Seq<char>, key: Seq<char>)
    ensures
        dir_key_ok(key) <==> {
            &&& parse_key(key) is Some
            &&& !occurs(key, "\\"@)
            &&& !begins(key, "/"@)
            &&& !occurs(key, ".."@)
            &&& !occurs(parse_key(key)->Some_0.0, "."@)
        },
        dir_key_ok(key) ==> dir_path(root, key) == seq![
            root,
            "snapshots"@,
            parse_key(key)->Some_0.0,
            parse_key(key)->Some_0.1 + ".jsonl"@,
        ],
{
}

/// Every found file whose key is that of a device's snapshot is listed, with its size and with the
/// device and the time that its key gives; any other file is not.
pub proof fn law_found_files_are_listed(files: Seq<FoundFile>, f: FoundFile)
    ensures
        found_key(f) == f.device@ + "/"@ + f.name@,
        parse_key(found_key(f)) is None ==> found_entries(files.push(f)) == found_entries(files),
        parse_key(found_key(f)) matches Some(p) ==> found_entries(files.push(f)) == found_entries(
            files,
        ).push(
            SnapView {
                key: f.device@ + "/"@ + f.name@,
                device: p.0,
                at: stamp_at(p.1),
                size: f.size,
                kind: "snapshot"@,
            },
        ),
        found_entries(Seq::empty()).len() == 0,
{
    assert(files.push(f).drop_last() =~= files);
    assert(files.push(f).last() == f);
}

/// What a directory lists stands in the order of the keys, each entry once.
pub proof fn law_listing_by_key(found: Seq<SnapView>, out: Seq<SnapView>, i: int, j: int)
    requires
        stably_sorted(found, out, by_key()),
        0 <= i < j < out.len(),
    ensures
        out.len() == found.len(),
        found.contains(out[i]),
        !lex_lt(out[j].key, out[i].key),
{
    let p = choose|p: Seq<usize>| #[trigger] arranges(found, out, p, by_key());
    assert(out[i] == found[p[i] as int] && out[j] == found[p[j] as int]);
    assert(p[i] < found.len());
    let a = out[i].key;
    let b = out[j].key;
    if lex_lt(a, b) && lex_lt(b, a) {
        lemma_lex_transitive(a, b, a);
        lemma_lex_irreflexive(a);
    }
}

/// The time of any stamp of ASCII characters that has a hyphen at its ninth place and six more characters
/// behind it is cut out of it in the same way; any other such text stands for itself.
pub proof fn law_time_of_any_stamp(s: Seq<char>)
    requires
        forall|i: int| 0 <= i < s.len() ==> '\0' <= (#[trigger] s[i]) && s[i] <= '\u{7f}',
    ensures
        s.len() >= 15 && s[8] == '-' ==> stamp_at(s) == s.subrange(0, 4) + "-"@ + s.subrange(4, 6) + "-"@
            + s.subrange(6, 8) + " "@ + s.subrange(9, 11) + ":"@ + s.subrange(11, 13) + ":"@
            + s.subrange(13, 15),
        s.len() < 15 || s[8] != '-' ==> stamp_at(s) == s,
        s.len() == 15 && occurs(s, "-"@) ==> short_at(s) == s.subrange(0, 4) + "-"@ + s.subrange(4, 6)
            + "-"@ + s.subrange(6, 8) + " "@ + s.subrange(9, 11) + ":"@ + s.subrange(11, 13) + ":"@
            + s.subrange(13, 15),
        s.len() != 15 || !occurs(s, "-"@) ==> short_at(s) == s,
{
    assert(is_ascii_chars(s));
    is_ascii_chars_encode_utf8(s);
    if s.len() >= 15 {
        lemma_ascii_bytes(s, 0, 4);
        lemma_ascii_bytes(s, 4, 6);
        lemma_ascii_bytes(s, 6, 8);
        lemma_ascii_bytes(s, 9, 11);
        lemma_ascii_bytes(s, 11, 13);
        lemma_ascii_bytes(s, 13, 15);
        assert(s[8] as u8 == encode_utf8(s)[8]);
        assert(s[8] <= '\u{7f}');
    }
}

/// A byte that does not stand for itself is written with the capital digits of its two halves.
pub proof fn law_percent_digits(b: u8)
    requires
        !(65 <= b <= 90 || 97 <= b <= 122 || 48 <= b <= 57 || b == 45 || b == 46 || b == 95 || b == 126),
    ensures
        b / 16 < 10 ==> percent_of(b)[1] as u32 == 48 + b / 16,
        b / 16 >= 10 ==> percent_of(b)[1] as u32 == 55 + b / 16,
        b % 16 < 10 ==> percent_of(b)[2] as u32 == 48 + b % 16,
        b % 16 >= 10 ==> percent_of(b)[2] as u32 == 55 + b % 16,
{
}

/// The number of rows of a reply is the length of the list that it is; a reply that is none has none.
pub proof fn law_rows_of_a_reply(d: Doc)
    ensures
        rows_in(None) is None,
        d.2.contains_key(""@) ==> rows_in(Some(d)) == Some(d.2[""@]),
        !d.2.contains_key(""@) ==> rows_in(Some(d)) is None,
{
}

/// A message about a snapshot names its key between what is said of it and what went wrong.
pub proof fn law_message_about_a_snapshot(head: Seq<char>, key: Seq<char>, tail: Seq<char>, e: Seq<char>)
    ensures
        about_snapshot(head, key, tail, e) == head + key + tail + e,
{
}

/// A store in memory lists everything that it holds and nothing else, in the order of the keys.
pub proof fn law_memory_lists_what_it_holds(
    v: Seq<SnapView>,
    m: Map<Seq<char>, (SnapView, Seq<u8>)>,
    i: int,
    j: int,
    key: Seq<char>,
)
    requires
        lists_contents(v, m),
    ensures
        0 <= i < v.len() ==> m.contains_key(v[i].key) && m[v[i].key].0 == v[i],
        m.contains_key(key) ==> v.contains(m[key].0),
        0 <= i < j < v.len() ==> lex_lt(v[i].key, v[j].key),
{
}

/// Of two entries of one device with one stamp that may both be pulled, the one that is listed first is
/// taken: a plan holds no other entry of that device.
pub proof fn law_first_of_equal_entries(
    remote: Seq<SnapView>,
    own: Seq<char>,
    seen: Seq<(Seq<char>, Seq<char>)>,
    i: int,
    j: int,
)
    requires
        0 <= j < i < remote.len(),
        eligible(remote[i], own, seen),
        eligible(remote[j], own, seen),
        parse_key(remote[j].key)->Some_0 == parse_key(remote[i].key)->Some_0,
    ensures
        !newest(remote, own, seen, i),
{
    assert(crate::cloud::beats(remote, j, i));
}

} // verus!
