//! The two network channels: an HTTP relay and a PostgreSQL table behind a REST interface. What is
//! sent and how a reply is understood is decided here; the requests themselves are made elsewhere.
use vstd::prelude::*;
use vstd::utf8::*;
use crate::channel::{message, normal_config, stamp_cuttable, CloudConfig, ConfigView, DirTransport, PutRequest, PutView, MODE_CLOUD, MODE_DIR, MODE_PG};
use crate::cloud::{key_of, parse_key, parse_snapshot_key, snap_views, snapshot_key, stamp_at, stamp_to_at, RemoteSnapshot, SnapView, KIND_SNAPSHOT};
use crate::json::{json_document, list_len, parse_json, Doc};
use crate::percent::{encode_component, percent_text};
use crate::text::{begins, contains, occurs, same, starts_with, to_chars, slice_text, trim, trim_trailing, trimmed, utf8_text, without_trailing};

verus! {

// ---------------------------------------------------------------------------
// Addresses
// ---------------------------------------------------------------------------

/// An address without white space round it and without slashes at its end.
pub open spec fn bare_address(s: Seq<char>) -> Seq<char> {
    without_trailing(trimmed(s), '/')
}

/// An address that names one of the two web protocols.
pub open spec fn web_address(s: Seq<char>) -> bool {
    begins(s, "http://"@) || begins(s, "https://"@)
}

/// The model of a list of named values.
pub open spec fn pair_views(v: Seq<(String, String)>) -> Seq<(Seq<char>, Seq<char>)> {
    v.map_values(|p: (String, String)| (p.0@, p.1@))
}

/// One named value of a query, after its separator.
pub open spec fn query_item(sep: Seq<char>, p: (Seq<char>, Seq<char>)) -> Seq<char> {
    sep + p.0 + "="@ + percent_text(p.1)
}

/// Named values behind a query that has begun.
pub open spec fn query_rest(q: Seq<(Seq<char>, Seq<char>)>) -> Seq<char>
    decreases q.len(),
{
    if q.len() == 0 {
        Seq::empty()
    } else {
        query_rest(q.drop_last()) + query_item("&"@, q.last())
    }
}

/// A whole query: the first value stands behind a question mark, the others behind ampersands.
pub open spec fn query_whole(q: Seq<(Seq<char>, Seq<char>)>) -> Seq<char>
    decreases q.len(),
{
    if q.len() == 0 {
        Seq::empty()
    } else {
        query_whole(q.drop_last()) + query_item(
            if q.len() == 1 {
                "?"@
            } else {
                "&"@
            },
            q.last(),
        )
    }
}

/// Appends one named value of a query.
fn push_item(u: &mut String, sep: &str, name: &str, value: &str)
    ensures
        final(u)@ == old(u)@ + query_item(sep@, (name@, value@)),
{
    u.append(sep);
    u.append(name);
    u.append("=");
    u.append(encode_component(value).as_str());
    assert(u@ =~= old(u)@ + query_item(sep@, (name@, value@)));
}

// ---------------------------------------------------------------------------
// The relay
// ---------------------------------------------------------------------------

/// The relay channel.
pub struct HttpTransport {
    pub endpoint: String,
    pub token: String,
}

/// The reply that the relay wraps everything but bodies in.
pub struct Envelope {
    pub ok: bool,
    pub error: String,
    pub items: Vec<RemoteSnapshot>,
    pub item: Option<RemoteSnapshot>,
}

/// What is wrong with a relay address, if anything.
pub open spec fn http_fault(e: Seq<char>) -> Option<Seq<char>> {
    if e.len() == 0 {
        Some("云通道地址为空"@)
    } else if !web_address(e) {
        Some("云通道地址必须以 http(s):// 开头: "@ + e)
    } else if occurs(e, "?"@) {
        Some("云通道地址不应包含查询串: "@ + e)
    } else {
        None
    }
}

/// The address of an action of the relay.
pub open spec fn action_url(
    endpoint: Seq<char>,
    action: Seq<char>,
    extra: Seq<(Seq<char>, Seq<char>)>,
) -> Seq<char> {
    endpoint + "?action="@ + percent_text(action) + query_rest(extra)
}

/// What the relay's reply amounts to: an error, if it says so or its status does.
pub open spec fn envelope_fault(status_ok: bool, status: Seq<char>, ok: bool, error: Seq<char>) -> Option<
    Seq<char>,
> {
    if !ok {
        Some("云通道返回错误: "@ + (if error.len() == 0 {
            "HTTP "@ + status
        } else {
            error
        }))
    } else if !status_ok {
        Some("云通道返回 HTTP "@ + status)
    } else {
        None
    }
}

/// The entry that a request describes.
pub open spec fn request_entry(req: PutView) -> SnapView {
    SnapView {
        key: req.key,
        device: req.device,
        at: req.at,
        size: req.body.len() as i64,
        kind: req.kind,
    }
}

impl HttpTransport {
    /// The relay at an address, which must name a web protocol and bear no query of its own.
    pub fn new(endpoint: &str, token: &str) -> (r: Result<Self, String>)
        ensures
            match r {
                Ok(t) => http_fault(bare_address(endpoint@)) is None && t.endpoint@ == bare_address(
                    endpoint@,
                ) && t.token@ == token@,
                Err(m) => http_fault(bare_address(endpoint@)) == Some(m@),
            },
    {
        let e = trim_trailing(trim(endpoint).as_str(), '/');
        if e.as_str().is_empty() {
            return Err("云通道地址为空".to_owned());
        }
        if !starts_with(e.as_str(), "http://") && !starts_with(e.as_str(), "https://") {
            return Err(message("云通道地址必须以 http(s):// 开头: ", e.as_str()));
        }
        if contains(e.as_str(), "?") {
            return Err(message("云通道地址不应包含查询串: ", e.as_str()));
        }
        Ok(HttpTransport { endpoint: e, token: token.to_owned() })
    }

    /// The address of an action with its named values.
    pub fn url_with(&self, action: &str, extra: &Vec<(String, String)>) -> (r: String)
        ensures
            r@ == action_url(self.endpoint@, action@, pair_views(extra@)),
    {
        let mut u = self.endpoint.clone();
        u.append("?action=");
        u.append(encode_component(action).as_str());
        let ghost base = u@;
        let ghost q = pair_views(extra@);
        let mut i: usize = 0;
        assert(q.take(0) =~= Seq::<(Seq<char>, Seq<char>)>::empty());
        assert(u@ =~= base + query_rest(q.take(0)));
        while i < extra.len()
            invariant
                q == pair_views(extra@),
                i <= extra@.len(),
                u@ == base + query_rest(q.take(i as int)),
            decreases extra@.len() - i,
        {
            assert(q.take(i + 1).drop_last() =~= q.take(i as int));
            push_item(&mut u, "&", extra[i].0.as_str(), extra[i].1.as_str());
            i += 1;
            assert(u@ =~= base + query_rest(q.take(i as int)));
        }
        assert(q.take(q.len() as int) =~= q);
        u
    }

    /// Address of the listing.
    pub fn list_url(&self) -> (r: String)
        ensures
            r@ == action_url(self.endpoint@, "list"@, Seq::empty()),
    {
        let none: Vec<(String, String)> = Vec::new();
        assert(pair_views(none@) =~= Seq::<(Seq<char>, Seq<char>)>::empty());
        self.url_with("list", &none)
    }

    /// Address of an upload; the body follows as raw bytes.
    pub fn put_url(&self, req: &PutRequest) -> (r: String)
        ensures
            r@ == action_url(
                self.endpoint@,
                "put"@,
                seq![
                    ("key"@, req.key@),
                    ("device"@, req.device@),
                    ("at"@, req.at@),
                    ("kind"@, req.kind@),
                ],
            ),
    {
        let mut q: Vec<(String, String)> = Vec::new();
        q.push(("key".to_owned(), req.key.to_owned()));
        q.push(("device".to_owned(), req.device.to_owned()));
        q.push(("at".to_owned(), req.at.to_owned()));
        q.push(("kind".to_owned(), req.kind.to_owned()));
        assert(pair_views(q@) =~= seq![
            ("key"@, req.key@),
            ("device"@, req.device@),
            ("at"@, req.at@),
            ("kind"@, req.kind@),
        ]);
        self.url_with("put", &q)
    }

    /// Address of a body.
    pub fn get_url(&self, key: &str) -> (r: String)
        ensures
            r@ == action_url(self.endpoint@, "get"@, seq![("key"@, key@)]),
    {
        let mut q: Vec<(String, String)> = Vec::new();
        q.push(("key".to_owned(), key.to_owned()));
        assert(pair_views(q@) =~= seq![("key"@, key@)]);
        self.url_with("get", &q)
    }

    /// Opens a reply. `parsed` is the reply read as an envelope, or why it could not be read.
    pub fn envelope(&self, status_ok: bool, status: &str, parsed: Result<Envelope, String>) -> (r: Result<
        Envelope,
        String,
    >)
        ensures
            match parsed {
                Err(e) => r matches Err(m) && m@ == "云通道响应不是合法 JSON (HTTP "@ + status@
                    + "): "@ + e@,
                Ok(env) => match envelope_fault(status_ok, status@, env.ok, env.error@) {
                    Some(f) => r matches Err(m) && m@ == f,
                    None => r matches Ok(o) && o == env,
                },
            },
    {
        match parsed {
            Err(e) => {
                let mut m = message("云通道响应不是合法 JSON (HTTP ", status);
                m.append("): ");
                m.append(e.as_str());
                Err(m)
            },
            Ok(env) => {
                if !env.ok {
                    let detail = if env.error.as_str().is_empty() {
                        message("HTTP ", status)
                    } else {
                        env.error.clone()
                    };
                    return Err(message("云通道返回错误: ", detail.as_str()));
                }
                if !status_ok {
                    return Err(message("云通道返回 HTTP ", status));
                }
                Ok(env)
            },
        }
    }

    /// What is known of an upload after an accepted reply: what the reply says, or else what the
    /// request said.
    pub fn put_entry(&self, env: Envelope, req: &PutRequest) -> (r: RemoteSnapshot)
        ensures
            r@ == (match env.item {
                Some(e) => e@,
                None => request_entry(req@),
            }),
    {
        match env.item {
            Some(e) => e,
            None => RemoteSnapshot {
                key: req.key.to_owned(),
                device: req.device.to_owned(),
                at: req.at.to_owned(),
                size: req.body.len() as i64,
                kind: req.kind.to_owned(),
            },
        }
    }

    /// Why a body could not be had: the error that the reply names, or else the reply itself.
    pub fn get_fault(&self, key: &str, status: &str, text: &str, error: Option<String>) -> (r: String)
        ensures
            r@ == "下载远端条目 "@ + key@ + " 失败 (HTTP "@ + status@ + "): "@ + (match error {
                Some(e) => if e@.len() > 0 {
                    e@
                } else {
                    text@
                },
                None => text@,
            }),
    {
        let mut m = message("下载远端条目 ", key);
        m.append(" 失败 (HTTP ");
        m.append(status);
        m.append("): ");
        match error {
            Some(e) => {
                if e.as_str().is_empty() {
                    m.append(text);
                } else {
                    m.append(e.as_str());
                }
            },
            None => {
                m.append(text);
            },
        }
        m
    }
}

// ---------------------------------------------------------------------------
// The table
// ---------------------------------------------------------------------------

/// Name of the table that holds the entries.
pub const TABLE_PG: &'static str = "fl_sync";

/// The table channel.
pub struct PgRestTransport {
    pub base: String,
    pub token: String,
}

/// A row of the table's listing.
pub struct PgRow {
    pub device: String,
    pub stamp: String,
    pub kind: String,
    pub size: i64,
}

/// A row to be written.
pub struct PgPut {
    pub device: String,
    pub stamp: String,
    pub kind: String,
    pub size: i64,
    pub body: String,
}

/// What is wrong with a base address and a key, if anything.
pub open spec fn pg_fault(base: Seq<char>, token: Seq<char>) -> Option<Seq<char>> {
    if base.len() == 0 {
        Some("CloudBase REST 基址为空"@)
    } else if !web_address(base) {
        Some("CloudBase REST 基址必须以 http(s):// 开头: "@ + base)
    } else if trimmed(token).len() == 0 {
        Some("CloudBase API Key 为空"@)
    } else {
        None
    }
}

/// The address of a query on the table.
pub open spec fn pg_url(base: Seq<char>, q: Seq<(Seq<char>, Seq<char>)>) -> Seq<char> {
    base + "/"@ + TABLE_PG@ + query_whole(q)
}

/// What a key that does not read is answered with.
pub const PG_BAD_KEY: &'static str = "非法远端键（应为 设备/时间戳.jsonl）: ";

/// What a body that is no text is answered with.
pub const PG_NOT_TEXT: &'static str = "CloudBase PostgreSQL 通道当前仅支持文本载荷（快照为 JSONL 文本）；二进制备份请改用本地目录或 relay 通道";

/// The entry of a row.
pub open spec fn row_entry(r: PgRow) -> SnapView {
    SnapView {
        key: key_of(r.device@, r.stamp@),
        device: r.device@,
        at: stamp_at(r.stamp@),
        size: r.size,
        kind: r.kind@,
    }
}

/// The readable form of an error reply: its message and code, or else the beginning of the text.
pub open spec fn pg_error_text(body: Option<(Seq<char>, Seq<char>)>, text: Seq<char>) -> Seq<char> {
    let plain = if trimmed(text).len() == 0 {
        "（无响应体）"@
    } else if trimmed(text).len() <= 300 {
        trimmed(text)
    } else {
        trimmed(text).take(300)
    };
    match body {
        Some((code, msg)) => if msg.len() > 0 {
            if code.len() == 0 {
                msg
            } else {
                msg + " ("@ + code + ")"@
            }
        } else if code.len() > 0 {
            code
        } else {
            plain
        },
        None => plain,
    }
}

/// The readable form of an error reply. `body` is its code and message, where it could be read.
pub fn pg_error(body: Option<(String, String)>, text: &str) -> (r: String)
    ensures
        r@ == pg_error_text(
            match body {
                Some(p) => Some((p.0@, p.1@)),
                None => None,
            },
            text@,
        ),
{
    match body {
        Some(p) => {
            if !p.1.as_str().is_empty() {
                if p.0.as_str().is_empty() {
                    return p.1;
                }
                let mut m = message(p.1.as_str(), " (");
                m.append(p.0.as_str());
                m.append(")");
                return m;
            }
            if !p.0.as_str().is_empty() {
                return p.0;
            }
        },
        None => {},
    }
    let t = trim(text);
    if t.as_str().is_empty() {
        "（无响应体）".to_owned()
    } else {
        let v = to_chars(t.as_str());
        if v.len() <= 300 {
            t
        } else {
            assert(v@.subrange(0, 300) =~= v@.take(300));
            slice_text(&v, 0, 300)
        }
    }
}

impl PgRestTransport {
    /// The table behind a base address, opened with a key.
    pub fn new(base: &str, token: &str) -> (r: Result<Self, String>)
        ensures
            match r {
                Ok(t) => pg_fault(bare_address(base@), token@) is None && t.base@ == bare_address(
                    base@,
                ) && t.token@ == trimmed(token@),
                Err(m) => pg_fault(bare_address(base@), token@) == Some(m@),
            },
    {
        let b = trim_trailing(trim(base).as_str(), '/');
        if b.as_str().is_empty() {
            return Err("CloudBase REST 基址为空".to_owned());
        }
        if !starts_with(b.as_str(), "http://") && !starts_with(b.as_str(), "https://") {
            return Err(message("CloudBase REST 基址必须以 http(s):// 开头: ", b.as_str()));
        }
        let t = trim(token);
        if t.as_str().is_empty() {
            return Err("CloudBase API Key 为空".to_owned());
        }
        Ok(PgRestTransport { base: b, token: t })
    }

    /// The address of a query on the table.
    pub fn table_url(&self, query: &Vec<(String, String)>) -> (r: String)
        ensures
            r@ == pg_url(self.base@, pair_views(query@)),
    {
        let mut u = self.base.clone();
        u.append("/");
        u.append(TABLE_PG);
        let ghost base = u@;
        let ghost q = pair_views(query@);
        let mut i: usize = 0;
        assert(q.take(0) =~= Seq::<(Seq<char>, Seq<char>)>::empty());
        assert(u@ =~= base + query_whole(q.take(0)));
        while i < query.len()
            invariant
                q == pair_views(query@),
                i <= query@.len(),
                u@ == base + query_whole(q.take(i as int)),
            decreases query@.len() - i,
        {
            assert(q.take(i + 1).drop_last() =~= q.take(i as int));
            let sep = if i == 0 {
                "?"
            } else {
                "&"
            };
            push_item(&mut u, sep, query[i].0.as_str(), query[i].1.as_str());
            i += 1;
            assert(u@ =~= base + query_whole(q.take(i as int)));
        }
        assert(q.take(q.len() as int) =~= q);
        u
    }

    /// Address of the listing of all snapshots.
    pub fn list_url(&self) -> (r: String)
        ensures
            r@ == pg_url(
                self.base@,
                seq![
                    ("select"@, "device,stamp,kind,size"@),
                    ("kind"@, "eq."@ + KIND_SNAPSHOT@),
                    ("order"@, "stamp.asc"@),
                ],
            ),
    {
        let mut q: Vec<(String, String)> = Vec::new();
        q.push(("select".to_owned(), "device,stamp,kind,size".to_owned()));
        q.push(("kind".to_owned(), message("eq.", KIND_SNAPSHOT)));
        q.push(("order".to_owned(), "stamp.asc".to_owned()));
        assert(pair_views(q@) =~= seq![
            ("select"@, "device,stamp,kind,size"@),
            ("kind"@, "eq."@ + KIND_SNAPSHOT@),
            ("order"@, "stamp.asc"@),
        ]);
        self.table_url(&q)
    }

    /// Address of an upload.
    pub fn put_url(&self) -> (r: String)
        ensures
            r@ == pg_url(self.base@, seq![("select"@, "device,stamp,kind,size"@)]),
    {
        let mut q: Vec<(String, String)> = Vec::new();
        q.push(("select".to_owned(), "device,stamp,kind,size".to_owned()));
        assert(pair_views(q@) =~= seq![("select"@, "device,stamp,kind,size"@)]);
        self.table_url(&q)
    }

    /// Address of a body; a key that is no snapshot key is refused.
    pub fn get_url(&self, key: &str) -> (r: Result<String, String>)
        ensures
            match parse_key(key@) {
                Some(p) => r matches Ok(u) && u@ == pg_url(
                    self.base@,
                    seq![
                        ("select"@, "body"@),
                        ("device"@, "eq."@ + p.0),
                        ("stamp"@, "eq."@ + p.1),
                        ("limit"@, "1"@),
                    ],
                ),
                None => r matches Err(m) && m@ == PG_BAD_KEY@ + key@,
            },
    {
        match parse_snapshot_key(key) {
            None => Err(message(PG_BAD_KEY, key)),
            Some(p) => {
                let mut q: Vec<(String, String)> = Vec::new();
                q.push(("select".to_owned(), "body".to_owned()));
                q.push(("device".to_owned(), message("eq.", p.0.as_str())));
                q.push(("stamp".to_owned(), message("eq.", p.1.as_str())));
                q.push(("limit".to_owned(), "1".to_owned()));
                assert(pair_views(q@) =~= seq![
                    ("select"@, "body"@),
                    ("device"@, "eq."@ + p.0@),
                    ("stamp"@, "eq."@ + p.1@),
                    ("limit"@, "1"@),
                ]);
                Ok(self.table_url(&q))
            },
        }
    }

    /// Address that deletes all rows of a device.
    pub fn delete_url(&self, device: &str) -> (r: String)
        ensures
            r@ == pg_url(
                self.base@,
                seq![("device"@, "eq."@ + device@), ("select"@, "device"@)],
            ),
    {
        let mut q: Vec<(String, String)> = Vec::new();
        q.push(("device".to_owned(), message("eq.", device)));
        q.push(("select".to_owned(), "device".to_owned()));
        assert(pair_views(q@) =~= seq![("device"@, "eq."@ + device@), ("select"@, "device"@)]);
        self.table_url(&q)
    }

    /// The row that an upload writes and the entry it is then known as. The key is what counts: the
    /// device and the stamp are read from it.
    pub fn put_plan(&self, req: &PutRequest) -> (r: Result<(PgPut, RemoteSnapshot), String>)
        ensures
            match parse_key(req.key@) {
                None => r matches Err(m) && m@ == PG_BAD_KEY@ + req.key@,
                Some(k) => if valid_utf8(req.body@) {
                    r matches Ok(p) && {
                        &&& p.0.device@ == k.0
                        &&& p.0.stamp@ == k.1
                        &&& p.0.kind@ == req.kind@
                        &&& p.0.size == req.body@.len() as i64
                        &&& encode_utf8(p.0.body@) == req.body@
                        &&& p.1@ == (SnapView {
                            key: req.key@,
                            device: k.0,
                            at: req.at@,
                            size: req.body@.len() as i64,
                            kind: req.kind@,
                        })
                    }
                } else {
                    r matches Err(m) && m@ == PG_NOT_TEXT@
                },
            },
    {
        match parse_snapshot_key(req.key) {
            None => Err(message(PG_BAD_KEY, req.key)),
            Some(k) => match utf8_text(req.body) {
                Err(_) => Err(PG_NOT_TEXT.to_owned()),
                Ok(body) => {
                    let entry = RemoteSnapshot {
                        key: req.key.to_owned(),
                        device: k.0.clone(),
                        at: req.at.to_owned(),
                        size: req.body.len() as i64,
                        kind: req.kind.to_owned(),
                    };
                    let row = PgPut {
                        device: k.0,
                        stamp: k.1,
                        kind: req.kind.to_owned(),
                        size: req.body.len() as i64,
                        body,
                    };
                    Ok((row, entry))
                },
            },
        }
    }

    /// The entries of the rows of a listing, in the order of the rows.
    pub fn entries(&self, rows: &Vec<PgRow>) -> (out: Vec<RemoteSnapshot>)
        requires
            forall|i: int| 0 <= i < rows@.len() ==> stamp_cuttable((#[trigger] rows@[i]).stamp@),
        ensures
            snap_views(out@) == rows@.map_values(|r: PgRow| row_entry(r)),
    {
        let mut out: Vec<RemoteSnapshot> = Vec::new();
        let mut i: usize = 0;
        while i < rows.len()
            invariant
                forall|i: int| 0 <= i < rows@.len() ==> stamp_cuttable((#[trigger] rows@[i]).stamp@),
                i <= rows@.len(),
                out@.len() == i,
                forall|k: int| 0 <= k < i ==> (#[trigger] out@[k])@ == row_entry(rows@[k]),
            decreases rows@.len() - i,
        {
            let r = &rows[i];
            out.push(
                RemoteSnapshot {
                    key: snapshot_key(r.device.as_str(), r.stamp.as_str()),
                    device: r.device.clone(),
                    at: stamp_to_at(r.stamp.as_str()),
                    size: r.size,
                    kind: r.kind.clone(),
                },
            );
            i += 1;
        }
        assert(snap_views(out@) =~= rows@.map_values(|r: PgRow| row_entry(r)));
        out
    }

    /// The body of the first row of a reply, as bytes; without a row there is no such entry.
    pub fn first_body(&self, key: &str, rows: Vec<String>) -> (r: Result<Vec<u8>, String>)
        ensures
            if rows@.len() > 0 {
                r matches Ok(b) && b@ == encode_utf8(rows@[0]@)
            } else {
                r matches Err(m) && m@ == "远端条目不存在: "@ + key@
            },
    {
        if rows.len() == 0 {
            return Err(message("远端条目不存在: ", key));
        }
        Ok(rows[0].as_str().as_bytes_vec())
    }
}

/// The number of rows that a reply lists; none where it is no list.
pub open spec fn rows_in(doc: Option<Doc>) -> Option<nat> {
    if doc is Some && doc->Some_0.2.contains_key(""@) {
        Some(doc->Some_0.2[""@])
    } else {
        None
    }
}

/// The number of rows that a deletion took away, going by the reply, which lists them; `None` where the
/// reply is no list.
pub fn deleted_rows(text: &str) -> (r: Option<u64>)
    ensures
        match r {
            Some(n) => rows_in(json_document(text@)) == Some(n as nat),
            None => rows_in(json_document(text@)) is None,
        },
{
    match parse_json(text) {
        Some(v) => match list_len(&v, "") {
            Some(n) => Some(n as u64),
            None => None,
        },
        None => None,
    }
}

// ---------------------------------------------------------------------------
// Choice of the channel
// ---------------------------------------------------------------------------

/// The channel that a configuration selects.
pub enum Channel {
    Dir(DirTransport),
    Http(HttpTransport),
    Pg(PgRestTransport),
}

/// Why a configuration, already normalised, selects no channel.
pub open spec fn route_fault(c: ConfigView) -> Option<Seq<char>> {
    if c.mode == MODE_DIR@ {
        if c.dir.len() == 0 {
            Some("尚未设置本地目录通道的目录"@)
        } else {
            None
        }
    } else if c.mode == MODE_CLOUD@ {
        if c.endpoint.len() == 0 {
            Some("尚未设置云通道地址"@)
        } else if c.token.len() == 0 {
            Some("尚未设置云通道令牌"@)
        } else {
            http_fault(bare_address(c.endpoint))
        }
    } else if c.mode == MODE_PG@ {
        if c.endpoint.len() == 0 {
            Some("尚未设置 CloudBase REST 基址"@)
        } else if c.token.len() == 0 {
            Some("尚未设置 CloudBase API Key"@)
        } else {
            pg_fault(bare_address(c.endpoint), c.token)
        }
    } else {
        Some("云通道未启用"@)
    }
}

/// `ch` is the channel of the configuration.
pub open spec fn routed(c: ConfigView, ch: Channel) -> bool {
    match ch {
        Channel::Dir(d) => c.mode == MODE_DIR@ && d.root@ == c.dir,
        Channel::Http(h) => c.mode == MODE_CLOUD@ && h.endpoint@ == bare_address(c.endpoint)
            && h.token@ == c.token,
        Channel::Pg(p) => c.mode == MODE_PG@ && p.base@ == bare_address(c.endpoint) && p.token@
            == trimmed(c.token),
    }
}

/// The channel that a configuration selects, or why it selects none.
pub fn transport_from_config(cfg: &CloudConfig) -> (r: Result<Channel, String>)
    ensures
        match r {
            Ok(ch) => route_fault(normal_config(cfg@)) is None && routed(normal_config(cfg@), ch),
            Err(m) => route_fault(normal_config(cfg@)) == Some(m@),
        },
{
    proof {
        reveal_strlit("dir");
        reveal_strlit("cloud");
        reveal_strlit("pg");
        assert(MODE_DIR@.len() == 3 && MODE_CLOUD@.len() == 5 && MODE_PG@.len() == 2);
    }
    let c = cfg.duplicate().normalized();
    if same(c.mode.as_str(), MODE_DIR) {
        if c.dir.as_str().is_empty() {
            return Err("尚未设置本地目录通道的目录".to_owned());
        }
        return Ok(Channel::Dir(DirTransport::new(c.dir.as_str())));
    }
    if same(c.mode.as_str(), MODE_CLOUD) {
        if c.endpoint.as_str().is_empty() {
            return Err("尚未设置云通道地址".to_owned());
        }
        if c.token.as_str().is_empty() {
            return Err("尚未设置云通道令牌".to_owned());
        }
        return match HttpTransport::new(c.endpoint.as_str(), c.token.as_str()) {
            Ok(t) => Ok(Channel::Http(t)),
            Err(m) => Err(m),
        };
    }
    if same(c.mode.as_str(), MODE_PG) {
        if c.endpoint.as_str().is_empty() {
            return Err("尚未设置 CloudBase REST 基址".to_owned());
        }
        if c.token.as_str().is_empty() {
            return Err("尚未设置 CloudBase API Key".to_owned());
        }
        return match PgRestTransport::new(c.endpoint.as_str(), c.token.as_str()) {
            Ok(t) => Ok(Channel::Pg(t)),
            Err(m) => Err(m),
        };
    }
    Err("云通道未启用".to_owned())
}

/// A configuration that selects a channel is complete.
pub proof fn law_routed_is_ready(c: ConfigView)
    requires
        route_fault(normal_config(c)) is None,
    ensures
        crate::channel::config_ready(normal_config(c)),
{
    crate::text::lemma_trim_idempotent(c.dir);
    crate::text::lemma_trim_idempotent(c.endpoint);
    crate::text::lemma_trim_idempotent(c.token);
}

} // verus!
