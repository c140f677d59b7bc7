//! Laws of the models of the library's types and of the names and numbers that are fixed: what a model
//! tells of a value is what its fields hold.
use vstd::prelude::*;
use crate::backup::{backup_views, BackupEntry, DIR_NAME, KEEP_KEY};
use crate::calendar::{CalendarDay, MIN_REQ_INTERVAL};
use crate::channel::{CloudConfig, PutRequest, BAD_KEY, DIR_KIND_FAULT};
use crate::cloud::{seen_views, snap_views, RemoteSnapshot, SeenMark};
use crate::disclosure::{row_views, HoldingRow};
use crate::grid::{agg_codes, agg_types, lower_types, FundAgg};
use crate::group::{group_views, label_views, Group};
use crate::imports::NOT_READY;
use crate::lookthrough::{slice_views, Slice, StockPlan};
use crate::pull::{META_DIR, META_ENDPOINT, META_LAST_PULL, META_LAST_PUSH, META_MODE, META_TOKEN, SEEN_PREFIX};
use crate::quotes::QuoteText;
use crate::refresh::{FAILURE_LIMIT, FAILURE_PAUSE, LONG_PAUSE, PAUSE};
use crate::relay::{pair_views, PG_BAD_KEY, PG_NOT_TEXT};
use crate::search::{found_views, point_views, FoundFund, NavPointText};
use crate::signals::{day_labels, REGIME_AUTO, REGIME_DAYS, REGIME_MANUAL};
use crate::store::DB_NAME;
use crate::text::views;

verus! {

/// The model of a stock of the look-through.
pub proof fn law_model_of_a_stock(s: StockPlan, i: int)
    ensures
        s@.code == s.stock_code@,
        s@.name == s.stock_name@,
        s@.sector == s.sector_l1@,
        s@.industry == s.industry_l2@,
        s@.fund_count == s.fund_count,
        s@.parts.len() == s.parts@.len(),
        0 <= i < s.parts@.len() ==> s@.parts[i] == (s.parts@[i].0 as int, s.parts@[i].1 as int),
{
}

/// The model of a slice, and those of several.
pub proof fn law_model_of_a_slice(v: Seq<Slice>, k: int, i: int)
    requires
        0 <= k < v.len(),
    ensures
        slice_views(v).len() == v.len(),
        ({
            let s = v[k];
            let m = slice_views(v)[k];
            &&& s.parent is Some ==> m.parent == Some(s.parent->Some_0@)
            &&& s.parent is None ==> m.parent is None
            &&& m.key == s.key@
            &&& m.is_virtual == s.is_virtual
            &&& m.has_contribution == s.has_contribution
            &&& m.has_unpenetrated == s.has_unpenetrated
            &&& m.members.len() == s.members@.len()
            &&& 0 <= i < s.members@.len() ==> m.members[i] == s.members@[i]
        }),
{
}

/// The models of groups and labels.
pub proof fn law_model_of_groups(v: Seq<Group>, l: Seq<(String, String)>, k: int, i: int)
    ensures
        group_views(v).len() == v.len(),
        label_views(l).len() == l.len(),
        0 <= k < l.len() ==> label_views(l)[k] == (l[k].0@, l[k].1@),
        0 <= k < v.len() ==> group_views(v)[k].label == (v[k].label.0@, v[k].label.1@)
            && group_views(v)[k].members.len() == v[k].members@.len(),
        0 <= k < v.len() && 0 <= i < v[k].members@.len() ==> group_views(v)[k].members[i]
            == v[k].members@[i],
{
}

/// The models of remote entries and of marks.
pub proof fn law_model_of_entries(v: Seq<RemoteSnapshot>, m: Seq<SeenMark>, k: int)
    ensures
        snap_views(v).len() == v.len(),
        seen_views(m).len() == m.len(),
        0 <= k < v.len() ==> snap_views(v)[k].key == v[k].key@ && snap_views(v)[k].device
            == v[k].device@ && snap_views(v)[k].at == v[k].at@ && snap_views(v)[k].size == v[k].size
            && snap_views(v)[k].kind == v[k].kind@,
        0 <= k < m.len() ==> seen_views(m)[k] == (m[k].device@, m[k].key@),
{
}

/// The models of settings and of requests.
pub proof fn law_model_of_settings(c: CloudConfig, r: PutRequest)
    ensures
        c@.mode == c.mode@,
        c@.endpoint == c.endpoint@,
        c@.token == c.token@,
        c@.dir == c.dir@,
        r@.key == r.key@,
        r@.device == r.device@,
        r@.at == r.at@,
        r@.kind == r.kind@,
        r@.body == r.body@,
{
}

/// The model of a row of holdings.
pub proof fn law_model_of_rows(v: Seq<HoldingRow>, k: int, i: int)
    requires
        0 <= k < v.len(),
    ensures
        row_views(v).len() == v.len(),
        row_views(v)[k].code == v[k].stock_code@,
        row_views(v)[k].name == v[k].stock_name@,
        row_views(v)[k].report == v[k].report_period@,
        row_views(v)[k].kind == v[k].disclosure_type@,
        row_views(v)[k].weights.len() == v[k].weights@.len(),
        0 <= i < v[k].weights@.len() ==> row_views(v)[k].weights[i] == v[k].weights@[i]@,
{
}

/// The models of what the services reply.
pub proof fn law_model_of_replies(f: FoundFund, q: QuoteText, p: NavPointText)
    ensures
        f@.name == f.name@,
        f@.code == f.code@,
        f.ftype is Some ==> f@.ftype == Some(f.ftype->Some_0@),
        f.ftype is None ==> f@.ftype is None,
        f.category is Some ==> f@.category == Some(f.category->Some_0@),
        f.category is None ==> f@.category is None,
        q@.code == q.stock_code@,
        q@.name == q.name@,
        q@.price == q.price@,
        q@.prev == q.prev_close@,
        p@.date == p.date@,
        p@.nav == p.nav@,
        p@.acc == p.acc_nav@,
{
}

/// The models of a backup, of texts and of pairs of texts.
pub proof fn law_model_of_texts(e: BackupEntry, v: Seq<String>, w: Seq<(String, String)>, k: int)
    ensures
        e@.file == e.file@,
        e@.size == e.size,
        e@.at == e.at@,
        e@.tag == e.tag@,
        views(v).len() == v.len(),
        pair_views(w).len() == w.len(),
        0 <= k < v.len() ==> views(v)[k] == v[k]@,
        0 <= k < w.len() ==> pair_views(w)[k] == (w[k].0@, w[k].1@),
{
}

/// The names under which things are stored, the texts that are answered with and the pauses between
/// requests.
pub proof fn law_fixed_names_and_numbers()
    ensures
        META_LAST_PUSH@ == "cloud_last_push"@ && META_LAST_PULL@ == "cloud_last_pull"@,
        META_MODE@ == "cloud_mode"@ && META_ENDPOINT@ == "cloud_endpoint"@ && META_TOKEN@
            == "cloud_token"@ && META_DIR@ == "cloud_dir"@,
        SEEN_PREFIX@ == "cloud_seen:"@,
        KEEP_KEY@ == "sync_backup_keep"@ && DIR_NAME@ == "backups"@ && DB_NAME@ == "fundlens.db"@,
        REGIME_MANUAL@ == "regime_manual"@ && REGIME_AUTO@ == "regime_auto"@ && REGIME_DAYS == 21,
        PAUSE == 200 && FAILURE_PAUSE == 800 && LONG_PAUSE == 3000 && FAILURE_LIMIT == 5,
        MIN_REQ_INTERVAL == 500_000_000,
        BAD_KEY@ == "非法远端键: "@,
        PG_BAD_KEY@ == "非法远端键（应为 设备/时间戳.jsonl）: "@,
        DIR_KIND_FAULT@ == "目录通道当前仅支持设备快照，收到类型: "@,
        PG_NOT_TEXT@
            == "CloudBase PostgreSQL 通道当前仅支持文本载荷（快照为 JSONL 文本）；二进制备份请改用本地目录或 relay 通道"@,
        NOT_READY@
            == "OCR 引擎未就绪：请先运行 src-tauri/download_ocr_models.sh 下载 PP-OCRv4 模型，并以 --features ocr 构建（npm run tauri build --features ocr）。"@,
{
}

/// The models of days, of dates and of what is held, place by place.
pub proof fn law_model_of_days(
    d: Seq<CalendarDay>,
    n: Seq<Option<i32>>,
    t: Seq<String>,
    a: Seq<FundAgg>,
    k: int,
)
    ensures
        crate::calendar::day_views(d).len() == d.len(),
        0 <= k < d.len() ==> crate::calendar::day_views(d)[k] == (d[k].date@, d[k].open),
        crate::reports::day_views(n).len() == n.len(),
        0 <= k < n.len() && n[k] is Some ==> crate::reports::day_views(n)[k] == Some(
            n[k]->Some_0 as int,
        ),
        0 <= k < n.len() && n[k] is None ==> crate::reports::day_views(n)[k] is None,
        day_labels(t).len() == t.len(),
        0 <= k < t.len() ==> day_labels(t)[k].0 == t[k]@ && day_labels(t)[k].1.len() == 0,
        agg_codes(a).len() == a.len() && agg_types(a).len() == a.len() && lower_types(a).len() == a.len(),
        0 <= k < a.len() ==> agg_codes(a)[k] == a[k].code@ && agg_types(a)[k] == a[k].fund_type@
            && lower_types(a)[k] == crate::funds::lowercase_of(a[k].fund_type@),
{
}

/// The models of lists of replies, place by place.
pub proof fn law_model_of_lists(f: Seq<FoundFund>, p: Seq<NavPointText>, b: Seq<BackupEntry>, k: int)
    ensures
        found_views(f).len() == f.len(),
        point_views(p).len() == p.len(),
        backup_views(b).len() == b.len(),
        0 <= k < f.len() ==> found_views(f)[k] == f[k]@,
        0 <= k < p.len() ==> point_views(p)[k] == p[k]@,
        0 <= k < b.len() ==> backup_views(b)[k] == b[k]@,
{
}

/// The model of a text that may be missing is the text, or none.
pub proof fn law_model_of_optional_texts(o: Option<String>, l: Option<&'static str>, p: Option<usize>)
    ensures
        o is Some ==> crate::store::text_of(o) == Some(o->Some_0@) && crate::signals::text_of(o) == Some(
            o->Some_0@,
        ) && crate::search::opt_view(o) == Some(o->Some_0@) && crate::positions::text_view(o) == Some(
            o->Some_0@,
        ) && crate::reports::cut_view(o) == Some(o->Some_0@) && crate::imports::optional_text(o) == Some(
            o->Some_0@,
        ) && crate::pull::or_empty(o) == o->Some_0@,
        o is None ==> crate::store::text_of(o) is None && crate::signals::text_of(o) is None
            && crate::search::opt_view(o) is None && crate::positions::text_view(o) is None
            && crate::reports::cut_view(o) is None && crate::imports::optional_text(o) is None
            && crate::pull::or_empty(o).len() == 0,
        l is Some ==> crate::signals::literal_text(l) == Some(l->Some_0@) && crate::positions::note_view(l)
            == Some(l->Some_0@),
        l is None ==> crate::signals::literal_text(l) is None && crate::positions::note_view(l) is None,
        p is Some ==> crate::changes::place_view(p) == Some(p->Some_0 as int),
        p is None ==> crate::changes::place_view(p) is None,
{
}

} // verus!
