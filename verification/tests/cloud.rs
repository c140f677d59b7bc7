use fundlens::channel::{
    CloudConfig, DirTransport, FoundFile, PutRequest, SyncTransport, MODE_CLOUD, MODE_DIR,
    MODE_OFF, MODE_PG,
};
use fundlens::cloud::{
    is_valid_stamp, parse_snapshot_key, plan_pull, snapshot_key, stamp_to_at, RemoteSnapshot,
    SeenMark, KIND_BACKUP, KIND_SNAPSHOT, STAMP_LEN,
};
use fundlens::date::Date;
use fundlens::memory::MemTransport;
use fundlens::moment::{now_pair, Moment};
use fundlens::percent::{encode_component, urlencode};
use fundlens::pull::{
    load_config, mark_seen, pull_plan, push, save_config, seen_keys, PullAction, PullEvent,
    PullOutcome, PullRun, PushOutcome, META_TOKEN,
};
use fundlens::relay::{
    deleted_rows, pg_error, transport_from_config, Channel, Envelope, HttpTransport,
    PgRestTransport, PgRow,
};

fn entry(key: &str, device: &str, at: &str) -> RemoteSnapshot {
    RemoteSnapshot {
        key: key.to_string(),
        device: device.to_string(),
        at: at.to_string(),
        size: 1,
        kind: KIND_SNAPSHOT.to_string(),
    }
}

#[test]
fn stamp_format_and_roundtrip() {
    let now = Moment {
        date: Date::new(2026, 9, 10).unwrap(),
        hour: 22,
        minute: 15,
        second: 0,
        milli: 7,
    };
    let (stamp, at) = now_pair(&now);
    assert_eq!(stamp.len(), STAMP_LEN);
    assert!(is_valid_stamp(&stamp));
    assert_eq!(stamp_to_at(&stamp), at);
    assert_eq!(stamp, "20260910-221500007");
    assert_eq!(stamp_to_at("20260910-221500123"), "2026-09-10 22:15:00");

    assert!(!is_valid_stamp("20260910-221500"));
    assert!(!is_valid_stamp("2026091a-221500123"));
    assert!(!is_valid_stamp(""));
}

#[test]
fn later_moments_have_later_stamps() {
    let a = Moment { date: Date::new(2026, 9, 10).unwrap(), hour: 9, minute: 59, second: 59, milli: 999 };
    let b = Moment { date: Date::new(2026, 9, 10).unwrap(), hour: 10, minute: 0, second: 0, milli: 0 };
    assert!(now_pair(&a).0 < now_pair(&b).0);
}

#[test]
fn snapshot_key_roundtrip_and_rejects_unsafe() {
    let key = snapshot_key("dev-abc-1", "20260910-221500123");
    assert_eq!(key, "dev-abc-1/20260910-221500123.jsonl");
    assert_eq!(
        parse_snapshot_key(&key),
        Some(("dev-abc-1".to_string(), "20260910-221500123".to_string()))
    );

    assert_eq!(parse_snapshot_key("a/b/c.jsonl"), None);
    assert_eq!(parse_snapshot_key("dev/../etc.jsonl"), None);
    assert_eq!(parse_snapshot_key("dev/20260910-221500123.txt"), None);
    assert_eq!(parse_snapshot_key("dev/bad.jsonl"), None);
}

#[test]
fn plan_pull_picks_newest_per_device_and_honors_seen() {
    let remote = vec![
        entry("dev-a/20260910-100000000.jsonl", "dev-a", "2026-09-10 10:00:00"),
        entry("dev-a/20260910-120000000.jsonl", "dev-a", "2026-09-10 12:00:00"),
        entry("dev-a/20260910-110000000.jsonl", "dev-a", "2026-09-10 11:00:00"),
        entry("dev-b/20260910-090000000.jsonl", "dev-b", "2026-09-10 09:00:00"),
        entry("dev-me/20260910-130000000.jsonl", "dev-me", "2026-09-10 13:00:00"),
    ];
    let plan = plan_pull(&remote, "dev-me", &Vec::new());
    assert_eq!(plan.len(), 2);
    assert_eq!(plan[0].key, "dev-b/20260910-090000000.jsonl");
    assert_eq!(plan[1].key, "dev-a/20260910-120000000.jsonl");

    let seen = vec![SeenMark {
        device: "dev-a".to_string(),
        key: "dev-a/20260910-120000000.jsonl".to_string(),
    }];
    let plan2 = plan_pull(&remote, "dev-me", &seen);
    assert_eq!(plan2.len(), 1);
    assert_eq!(plan2[0].device, "dev-b");

    let poisoned =
        vec![entry("dev-x/20260910-100000000.jsonl", "dev-y", "2026-09-10 10:00:00")];
    assert!(plan_pull(&poisoned, "dev-me", &Vec::new()).is_empty());

    let mut backup = entry("dev-c/20260910-100000000.jsonl", "dev-c", "2026-09-10 10:00:00");
    backup.kind = KIND_BACKUP.to_string();
    assert!(plan_pull(&vec![backup], "dev-me", &Vec::new()).is_empty());
}

fn stored(rows: &[(String, String)], key: &str) -> Option<String> {
    rows.iter().find(|r| r.0 == key).map(|r| r.1.clone())
}

fn reload(rows: &[(String, String)]) -> CloudConfig {
    load_config(
        stored(rows, "cloud_mode"),
        stored(rows, "cloud_endpoint"),
        stored(rows, "cloud_token"),
        stored(rows, "cloud_dir"),
    )
}

#[test]
fn config_normalizes_and_stays_out_of_synced_tables() {
    let (saved, rows) = save_config(&CloudConfig {
        mode: "  cloud ".to_string(),
        endpoint: " https://x.example/relay ".to_string(),
        token: " secret ".to_string(),
        dir: "  ".to_string(),
    });
    assert_eq!(saved.mode, MODE_CLOUD);
    assert_eq!(saved.endpoint, "https://x.example/relay");
    assert_eq!(saved.token, "secret");
    assert!(saved.is_ready());

    let loaded = reload(&rows);
    assert_eq!(loaded.mode, saved.mode);
    assert_eq!(loaded.endpoint, saved.endpoint);
    assert_eq!(loaded.token, saved.token);
    assert_eq!(loaded.dir, saved.dir);
    assert_eq!(rows.iter().filter(|r| r.0 == META_TOKEN).count(), 1);

    let (_, rows) =
        save_config(&CloudConfig { mode: "weird".to_string(), ..Default::default() });
    assert_eq!(reload(&rows).mode, MODE_OFF);
    assert!(!reload(&rows).is_ready());
}

#[test]
fn dir_transport_roundtrip() {
    let t = DirTransport::new("root");
    assert!(t.entries(&Vec::new()).is_empty());

    let req = PutRequest {
        key: "dev-a/20260910-221500123.jsonl",
        device: "dev-a",
        at: "2026-09-10 22:15:00",
        kind: KIND_SNAPSHOT,
        body: b"{\"fl_sync\":1}\n",
    };
    let (path, e) = t.put_plan(&req).unwrap();
    assert_eq!(e.key, req.key);
    assert_eq!(e.at, "2026-09-10 22:15:00");
    assert_eq!(e.size, 14);
    assert_eq!(e.size, req.body.len() as i64);
    assert_eq!(path, vec!["root", "snapshots", "dev-a", "20260910-221500123.jsonl"]);

    let listed = t.entries(&vec![FoundFile {
        device: "dev-a".to_string(),
        name: "20260910-221500123.jsonl".to_string(),
        size: 14,
    }]);
    assert_eq!(listed.len(), 1);
    assert_eq!(listed[0].device, "dev-a");
    assert_eq!(t.resolve(req.key).unwrap(), path);

    assert!(t.resolve("dev-a/../../etc/passwd").is_err());

    let bak = PutRequest { kind: KIND_BACKUP, ..req };
    assert!(t.put_plan(&bak).is_err());
}

/// A device with its rows and its applied marks. A snapshot is a header line with the device and
/// one line `key=value` for each row; an empty value stands for a row that was removed.
struct Device {
    id: &'static str,
    clock: u32,
    rows: Vec<(String, String)>,
    marks: Vec<(String, String)>,
}

impl Device {
    fn new(id: &'static str) -> Self {
        Device { id, clock: 0, rows: Vec::new(), marks: Vec::new() }
    }

    fn set(&mut self, key: &str, value: &str) {
        self.rows.retain(|r| r.0 != key);
        self.rows.push((key.to_string(), value.to_string()));
    }

    fn get(&self, key: &str) -> Option<String> {
        self.rows.iter().find(|r| r.0 == key && !r.1.is_empty()).map(|r| r.1.clone())
    }

    fn count(&self) -> usize {
        self.rows.iter().filter(|r| !r.1.is_empty()).count()
    }

    fn push(&mut self, cloud: &mut MemTransport) -> PushOutcome {
        let now = Moment {
            date: Date::new(2026, 9, 10).unwrap(),
            hour: 22,
            minute: 15,
            second: 0,
            milli: self.clock,
        };
        self.clock += 5;
        let (stamp, at) = now_pair(&now);
        let mut text = format!("{}\n", self.id);
        for r in &self.rows {
            text.push_str(&format!("{}={}\n", r.0, r.1));
        }
        push(cloud, self.id, &stamp, &at, &text, self.rows.len()).unwrap()
    }

    fn pull(&mut self, cloud: &MemTransport) -> Result<PullOutcome, String> {
        let plan = pull_plan(cloud, self.id, &seen_keys(&self.marks))?;
        let (mut run, mut action) = PullRun::start(self.id, plan);
        let mut changes: Vec<(String, String)> = Vec::new();
        loop {
            let event = match action {
                PullAction::Fetch(key) => match cloud.get(&key) {
                    Ok(body) => PullEvent::Fetched(body),
                    Err(m) => PullEvent::Failed(m),
                },
                PullAction::Parse(text) => {
                    changes.clear();
                    let mut lines = text.lines();
                    let header = lines.next().map(|s| s.to_string());
                    let mut bad = false;
                    for line in lines {
                        match line.split_once('=') {
                            Some((k, v)) => changes.push((k.to_string(), v.to_string())),
                            None => bad = true,
                        }
                    }
                    if bad {
                        PullEvent::ParseFailed("bad line".to_string())
                    } else {
                        PullEvent::Parsed(header)
                    }
                }
                PullAction::Apply(_) => {
                    for (k, v) in &changes {
                        self.set(k, v);
                    }
                    PullEvent::Applied(changes.len(), 0)
                }
                PullAction::Mark(device, key) => {
                    let (k, v) = mark_seen(&device, &key);
                    self.marks.retain(|m| m.0 != k);
                    self.marks.push((k, v));
                    PullEvent::Marked
                }
                PullAction::Finish => return Ok(run.finish("2026-09-10 23:00:00").0),
                PullAction::Fail(m) => return Err(m),
            };
            action = run.step(event);
        }
    }
}

#[test]
fn push_then_pull_end_to_end_and_idempotent() {
    let mut cloud = MemTransport::new();
    let mut a = Device::new("dev-a");
    let mut b = Device::new("dev-b");
    a.set("funds:000001", "华夏成长");
    a.set("positions:000001", "100.0");

    let pushed = a.push(&mut cloud);
    assert!(pushed.count >= 2);
    assert_eq!(cloud.len(), 1);

    let pulled = b.pull(&cloud).unwrap();
    assert_eq!(pulled.pulled, 1);
    assert_eq!(pulled.applied, pushed.count);
    assert_eq!(b.get("funds:000001"), Some("华夏成长".to_string()));

    let again = b.pull(&cloud).unwrap();
    assert_eq!(again.planned, 0);
    assert_eq!(again.applied, 0);

    let self_pull = a.pull(&cloud).unwrap();
    assert_eq!(self_pull.planned, 0);
    assert_eq!(self_pull.applied, 0);
}

#[test]
fn pull_propagates_update_and_delete() {
    let mut cloud = MemTransport::new();
    let mut a = Device::new("dev-a");
    let mut b = Device::new("dev-b");
    a.set("000001", "旧名");
    a.set("000002", "要删的");
    a.push(&mut cloud);
    b.pull(&cloud).unwrap();

    a.set("000001", "新名");
    a.set("000002", "");
    a.push(&mut cloud);
    let out = b.pull(&cloud).unwrap();
    assert_eq!(out.pulled, 1);
    assert_eq!(b.get("000001"), Some("新名".to_string()));
    assert_eq!(b.get("000002"), None);
    assert_eq!(cloud.len(), 2);
    assert!(a.push(&mut cloud).key > String::new());
}

#[test]
fn pull_merges_multiple_devices() {
    let mut cloud = MemTransport::new();
    let mut a = Device::new("dev-a");
    let mut b = Device::new("dev-b");
    let mut c = Device::new("dev-c");
    a.set("A001", "A基金");
    b.set("B001", "B基金");
    a.push(&mut cloud);
    b.push(&mut cloud);

    let out = c.pull(&cloud).unwrap();
    assert_eq!(out.planned, 2);
    assert_eq!(out.pulled, 2);
    assert_eq!(out.details.len(), 2);
    assert_eq!(c.count(), 2);
    assert_eq!(seen_keys(&c.marks).len(), 2);
}

#[test]
fn pull_rolls_back_on_failure() {
    let mut cloud = MemTransport::new();
    let mut a = Device::new("dev-a");
    let mut b = Device::new("dev-b");
    a.set("000001", "x");
    a.push(&mut cloud);

    let key = cloud.list().unwrap()[0].key.clone();
    let mut body = cloud.get(&key).unwrap();
    body.extend_from_slice(b"{not json}\n");
    cloud
        .put(&PutRequest {
            key: &key,
            device: a.id,
            at: "2026-09-10 22:15:00",
            kind: KIND_SNAPSHOT,
            body: &body,
        })
        .unwrap();

    let err = b.pull(&cloud).unwrap_err();
    assert!(err.contains("解析失败"));
    assert_eq!(b.count(), 0);
    assert!(seen_keys(&b.marks).is_empty());
}

#[test]
fn pull_refuses_bytes_that_are_no_text() {
    let mut cloud = MemTransport::new();
    let key = "dev-a/20260910-221500000.jsonl";
    cloud
        .put(&PutRequest { key, device: "dev-a", at: "", kind: KIND_SNAPSHOT, body: &[0xff, 0xfe] })
        .unwrap();
    let err = Device::new("dev-b").pull(&cloud).unwrap_err();
    assert!(err.contains(key));
    assert!(err.contains("invalid utf-8 sequence of 1 bytes from index 0"), "{err}");
}

#[test]
fn stored_entries_come_back_and_go() {
    let mut cloud = MemTransport::new();
    let key = "dev-a/20260910-221500000.jsonl";
    let req = PutRequest { key, device: "dev-a", at: "", kind: KIND_SNAPSHOT, body: b"abc" };
    let first = cloud.put(&req).unwrap();
    let second = cloud.put(&req).unwrap();
    assert_eq!(first.at, second.at);
    assert_eq!(cloud.len(), 1);
    assert_eq!(cloud.get(key).unwrap(), b"abc");
    cloud.drop_key(key);
    assert_eq!(cloud.get(key), Err(format!("远端条目不存在: {key}")));
}

#[test]
fn marks_read_back() {
    let row = mark_seen("dev-a", "dev-a/20260910-221500000.jsonl");
    let seen = seen_keys(&vec![row, ("other".to_string(), "x".to_string())]);
    assert_eq!(seen.len(), 1);
    assert_eq!(seen[0].device, "dev-a");
    assert_eq!(seen[0].key, "dev-a/20260910-221500000.jsonl");
}

fn config(mode: &str, endpoint: &str, token: &str, dir: &str) -> CloudConfig {
    CloudConfig {
        mode: mode.to_string(),
        endpoint: endpoint.to_string(),
        token: token.to_string(),
        dir: dir.to_string(),
    }
}

#[test]
fn transport_from_config_routes_by_mode() {
    let dir_cfg = config(MODE_DIR, "", "", "/tmp/fundlens-cfg-dir");
    assert!(dir_cfg.is_ready());
    match transport_from_config(&dir_cfg).unwrap() {
        Channel::Dir(d) => assert!(d.entries(&Vec::new()).is_empty()),
        _ => panic!("another channel"),
    }

    let endpoint = "http://127.0.0.1:8080/";
    let cloud_cfg = config(MODE_CLOUD, endpoint, "tok-r", "");
    assert!(cloud_cfg.is_ready());
    assert!(matches!(transport_from_config(&cloud_cfg), Ok(Channel::Http(_))));

    assert!(transport_from_config(&CloudConfig::default()).is_err());
    assert!(transport_from_config(&config(MODE_CLOUD, endpoint, "", "")).is_err());
    assert!(transport_from_config(&config(MODE_DIR, "", "", "")).is_err());

    let base = "https://e.api.tcloudbasegateway.com/v1/rdb/rest";
    let pg_cfg = config(MODE_PG, base, "k", "");
    assert!(pg_cfg.is_ready());
    assert!(matches!(transport_from_config(&pg_cfg), Ok(Channel::Pg(_))));
    assert!(transport_from_config(&config(MODE_PG, base, "", "")).is_err());
    assert!(transport_from_config(&config(MODE_PG, "", "k", "")).is_err());
}

fn pairs(list: &[(&str, &str)]) -> Vec<(String, String)> {
    list.iter().map(|p| (p.0.to_string(), p.1.to_string())).collect()
}

#[test]
fn pg_config_and_url_shape() {
    let c = config(" pg ", " https://x.api.tcloudbasegateway.com/v1/rdb/rest/ ", " key ", "")
        .normalized();
    assert_eq!(c.mode, MODE_PG);
    assert_eq!(c.endpoint, "https://x.api.tcloudbasegateway.com/v1/rdb/rest/");
    assert_eq!(c.token, "key");
    assert!(c.is_ready());

    let t =
        PgRestTransport::new("https://e.api.tcloudbasegateway.com/v1/rdb/rest/", " k ").unwrap();
    assert_eq!(
        t.table_url(&pairs(&[("select", "device,stamp"), ("order", "stamp.asc")])),
        "https://e.api.tcloudbasegateway.com/v1/rdb/rest/fl_sync?select=device%2Cstamp&order=stamp.asc"
    );
    assert_eq!(
        t.table_url(&pairs(&[("device", "eq.dev/we ird")])),
        "https://e.api.tcloudbasegateway.com/v1/rdb/rest/fl_sync?device=eq.dev%2Fwe%20ird"
    );

    assert!(PgRestTransport::new("", "k").is_err());
    assert!(PgRestTransport::new("ftp://x", "k").is_err());
    assert!(PgRestTransport::new("https://x", "   ").is_err());
}

#[test]
fn pg_put_rejects_bad_key_and_binary() {
    let t = PgRestTransport::new("https://e.api.tcloudbasegateway.com/v1/rdb/rest", "k").unwrap();

    let refused = t.put_plan(&PutRequest {
        key: "no-stamp.jsonl",
        device: "d",
        at: "x",
        kind: KIND_SNAPSHOT,
        body: b"{}",
    });
    match refused {
        Err(err) => assert!(err.contains("非法远端键")),
        Ok(_) => panic!("a bad key was taken"),
    }

    let refused = t.put_plan(&PutRequest {
        key: "d/20260910-221500123.jsonl",
        device: "d",
        at: "x",
        kind: KIND_BACKUP,
        body: &[0xff, 0xfe, 0x00],
    });
    match refused {
        Err(err) => assert!(err.contains("仅支持文本载荷")),
        Ok(_) => panic!("a binary body was taken"),
    }

    let (row, e) = t
        .put_plan(&PutRequest {
            key: "d/20260910-221500123.jsonl",
            device: "d",
            at: "x",
            kind: KIND_SNAPSHOT,
            body: "正文".as_bytes(),
        })
        .unwrap_or_else(|m| panic!("{m}"));
    assert_eq!(row.body, "正文");
    assert_eq!(row.stamp, "20260910-221500123");
    assert_eq!(e.size, 6);
}

#[test]
fn a_snapshot_without_a_named_device_is_its_keys() {
    let item = entry("dev-b/20260910-221500123.jsonl", "", "2026-09-10 22:15:00");
    let (mut run, _) = PullRun::start("dev-a", vec![item]);
    run.step(PullEvent::Fetched(b"x".to_vec()));
    match run.step(PullEvent::Parsed(None)) {
        PullAction::Apply(device) => assert_eq!(device, "dev-b"),
        _ => panic!("not applied"),
    }
    match run.step(PullEvent::Applied(1, 0)) {
        PullAction::Mark(device, key) => {
            assert_eq!(device, "dev-b");
            assert_eq!(key, "dev-b/20260910-221500123.jsonl");
        }
        _ => panic!("not marked"),
    }
    assert!(matches!(run.step(PullEvent::Marked), PullAction::Finish));
    assert_eq!(run.outcome.details[0].key, "dev-b/20260910-221500123.jsonl");
}

#[test]
fn deleted_rows_are_counted() {
    assert_eq!(deleted_rows(r#"[{"device":"d"},{"device":"d"}]"#), Some(2));
    assert_eq!(deleted_rows("[]"), Some(0));
    assert_eq!(deleted_rows(r#"{"device":"d"}"#), None);
    assert_eq!(deleted_rows("not json"), None);
}

#[test]
fn table_rows_become_entries() {
    let t = PgRestTransport::new("https://e", "k").unwrap();
    let rows = vec![PgRow {
        device: "d".to_string(),
        stamp: "20260910-221500123".to_string(),
        kind: KIND_SNAPSHOT.to_string(),
        size: 6,
    }];
    let list = t.entries(&rows);
    assert_eq!(list[0].key, "d/20260910-221500123.jsonl");
    assert_eq!(list[0].at, "2026-09-10 22:15:00");
    assert_eq!(t.first_body("d/x", vec!["正文".to_string()]).unwrap(), "正文".as_bytes());
    assert!(t.first_body("d/x", Vec::new()).is_err());
}

#[test]
fn table_errors_are_told() {
    let told = pg_error(Some(("42P01".to_string(), "no such table".to_string())), "raw");
    assert!(told.contains("42P01") && told.contains("no such table"));
    assert!(pg_error(None, "raw text").contains("raw text"));
}

#[test]
fn relay_addresses_are_built() {
    assert!(HttpTransport::new("", "t").is_err());
    assert!(HttpTransport::new("ftp://x/y", "t").is_err());
    assert!(HttpTransport::new("https://x/y?a=1", "t").is_err());
    assert!(HttpTransport::new("http://127.0.0.1:1/relay", "t").is_ok());
    let t = HttpTransport::new("https://x.example/relay/", "t").unwrap();
    assert!(t.list_url().contains("action=list"));
    assert!(t.get_url("d/20260910-221500123.jsonl").contains("d%2F20260910-221500123.jsonl"));
    let e = Envelope { ok: true, error: String::new(), items: Vec::new(), item: None };
    assert!(t.envelope(true, "200 OK", Ok(e)).is_ok());
    let e = Envelope { ok: false, error: "nope".to_string(), items: Vec::new(), item: None };
    match t.envelope(true, "200 OK", Ok(e)) {
        Err(m) => assert!(m.contains("nope")),
        Ok(_) => panic!("a refusal was taken as success"),
    }
}

#[test]
fn text_is_percent_encoded() {
    assert_eq!(encode_component("a b/基~_.-"), "a%20b%2F%E5%9F%BA~_.-");
    assert_eq!(urlencode("基A"), "%E5%9F%BAA");
}

#[test]
fn normalizing_twice_changes_nothing() {
    let once = config(" dir ", " e ", " t ", " d ").normalized();
    let twice = once.duplicate().normalized();
    assert_eq!(once.mode, twice.mode);
    assert_eq!(once.dir, twice.dir);
}
