use fundlens::calendar::{
    calendar_url, candidate_periods, estimate_is_fresh, is_trading_now, market_phase,
    nth_weekday_of_month, period_end, published_days, qdii_overseas_open, reserve_slot, Calendar,
    CalendarDay, Period, PublishedDay, MIN_REQ_INTERVAL,
};
use fundlens::cloud::{entry_stamp, RemoteSnapshot, KIND_SNAPSHOT};
use fundlens::date::{is_earlier, Date};
use fundlens::disclosure::{disclosure_url, parse_holding_table, read_disclosure, replace, strip_tags};
use fundlens::funds::{
    asset_category, asset_category_label, fund_type_code_from_ftype, fund_type_label,
    is_estimable_fund, needs_look_up, resolve_fund_code,
};
use fundlens::order::{stable_order, Descending, TextUp};
use fundlens::quotes::{
    decode_body, decode_gbk, hk_index_url, parse_hk_index_quotes, parse_quotes, quotes_url,
    tencent_nav_url,
};
use fundlens::replay::change_lines;
use fundlens::relay::{Envelope, HttpTransport, PgRestTransport};
use fundlens::channel::PutRequest;
use fundlens::search::{
    estimate_url, history_page_size, nav_url, parse_fund_type, parse_official_nav, search_url,
    unwrap_jsonp,
};
use fundlens::text::{parse_i64, split, trim};

fn texts(list: &[&str]) -> Vec<String> {
    list.iter().map(|s| s.to_string()).collect()
}

#[test]
fn bytes_are_decoded() {
    assert_eq!(decode_gbk(&[0xBB, 0xF9, 0xBD, 0xF0, 0x41]), "基金A");
    assert_eq!(decode_body("基金".as_bytes()), "基金");
    assert_eq!(decode_body(&[0xBB, 0xF9, 0xBD, 0xF0]), "基金");
}

#[test]
fn addresses_of_services() {
    assert_eq!(quotes_url(&texts(&["sh600519", "hk00700"])), "https://qt.gtimg.cn/q=sh600519,hk00700");
    assert_eq!(hk_index_url(&texts(&["hkHSI"])), "https://hq.sinajs.cn/list=hkHSI");
    assert_eq!(tencent_nav_url("968072"), "https://qt.gtimg.cn/q=jj968072");
    assert!(search_url("基").ends_with("key=%E5%9F%BA"));
    assert_eq!(
        nav_url("110011", 2),
        "https://api.fund.eastmoney.com/f10/lsjz?fundCode=110011&pageIndex=1&pageSize=2"
    );
    assert_eq!((history_page_size(0), history_page_size(1), history_page_size(999)), (10000, 32, 10000));
    assert!(estimate_url("110011").ends_with("/110011.js"));
    assert!(calendar_url(2026).ends_with("/2026.json"));
    let p = Period { year: 2026, season: 2, disclosure: "full" };
    assert!(disclosure_url("110011", &p).ends_with("code=110011&topline=10&year=2026&season=2"));
}

#[test]
fn quotes_are_read() {
    let body = "v_sh600519=\"1~贵州茅台~600519~1441.0~1461.6~x\";\nnoise\nv_pv_none=\"\";\nv_hk00700=\"100~腾讯~00700~1~2\";";
    let q = parse_quotes(body);
    assert_eq!(q.len(), 2);
    assert_eq!(
        (q[0].stock_code.as_str(), q[0].name.as_str(), q[0].price.as_str(), q[0].prev_close.as_str()),
        ("600519", "贵州茅台", "1441.0", "1461.6")
    );
    let line = "var hq_str_hkHSI=\"HSI,恒生指数,1,2,3,4,5,6,7\";";
    let hk = parse_hk_index_quotes(line, &texts(&["hkHSI", "hkHSTECH"]));
    assert_eq!(hk.len(), 1);
    assert_eq!(hk[0].0, "hkHSI");
}

#[test]
fn official_values_are_read() {
    let body = r#"{"Data":{"LSJZList":[{"FSRQ":"2026-08-20","DWJZ":"1.9496"},{"FSRQ":"2026-08-19","DWJZ":"1.9540"}],"FundType":"001"}}"#;
    let (latest, prev) = match parse_official_nav(body) {
        Some(p) => p,
        None => panic!("nothing read"),
    };
    assert_eq!((latest.nav.as_str(), latest.nav_date.as_str(), latest.fund_type.as_str()), ("1.9496", "2026-08-20", "001"));
    assert_eq!(prev.map(|p| p.nav_date).as_deref(), Some("2026-08-19"));
    assert!(parse_official_nav("{}").is_none());
    assert_eq!(unwrap_jsonp("jsonpgz({});").as_deref(), Some("{}"));
}

#[test]
fn types_are_read() {
    let body = r#"{"Datas":[{"CODE":"000628","NAME":"某","FundBaseInfo":{"FTYPE":"混合型-偏股"}}]}"#;
    assert_eq!(parse_fund_type("000628", body).as_deref(), Some("007"));
    assert_eq!(parse_fund_type("12", body), None);
    assert_eq!(fund_type_code_from_ftype("货币型"), "002");
    assert!(!is_estimable_fund("002"));
    assert!(is_estimable_fund("001"));
    assert_eq!(asset_category_label(asset_category("002")), "货币类");
    assert_eq!(asset_category_label(asset_category("x")), "其他");
    assert_eq!(fund_type_label("003"), "QDII");
}

#[test]
fn a_found_code_is_taken_where_no_alias_is_known() {
    assert!(needs_look_up("某完全未知的基金名称"));
    assert_eq!(
        resolve_fund_code("某完全未知的基金名称", Some("123456".to_string())),
        Some("123456".to_string())
    );
}

#[test]
fn tables_are_read() {
    let body = "2026年2季度<table><tbody><tr><td>1</td><td>600519</td><td>贵州茅台</td><td>1,009.96%</td></tr><tr><td>600519</td><td>again</td><td>1%</td></tr></tbody></table><tbody><tr><td>000001</td><td>x</td></tr></tbody>";
    let rows = parse_holding_table(body);
    assert_eq!(rows.len(), 1);
    assert_eq!((rows[0].stock_code.as_str(), rows[0].stock_name.as_str()), ("600519", "贵州茅台"));
    assert_eq!(rows[0].weights, texts(&["1009.96"]));
    assert_eq!((rows[0].report_period.as_str(), rows[0].disclosure_type.as_str()), ("latest", "top10"));
    let p = Period { year: 2025, season: 4, disclosure: "full" };
    let d = read_disclosure(body, &p);
    assert_eq!((d.report_period.as_str(), d.disclosure_type.as_str()), ("2026Q2", "full"));
    let row = &d.rows[0];
    assert_eq!((row.report_period.as_str(), row.disclosure_type.as_str()), ("2026Q2", "full"));
    assert_eq!((row.stock_code.as_str(), row.weights.len()), ("600519", 1));
    assert_eq!(read_disclosure("", &p).report_period, "2025Q4");
    assert_eq!(strip_tags("<b>a</b>c"), "ac");
    assert_eq!(replace("aXbX", "X", "--"), "a--b--");
}

#[test]
fn the_calendar_keeps_what_it_knows() {
    let mut c = Calendar::new();
    let d = Date::new(2026, 10, 9).unwrap();
    assert!(c.is_trading_day_cached(d));
    let stored = vec![CalendarDay { date: "2026-10-09".to_string(), open: false }];
    assert!(!c.is_trading_day(d, &stored));
    assert!(c.is_loaded(2026));
    assert!(!c.is_trading_day(d, &Vec::new()));
    assert_eq!(c.lookup("2026-10-01"), Some(false));
    c.apply_remote(&vec![CalendarDay { date: "2026-10-09".to_string(), open: true }]);
    assert!(c.is_trading_day_cached(d));
}

#[test]
fn the_session_has_its_hours() {
    let at = |h: u32, m: u32| h * 3600 + m * 60;
    assert!(is_trading_now(true, at(9, 30)) && is_trading_now(true, at(15, 0)));
    assert!(!is_trading_now(true, at(12, 0)) && !is_trading_now(false, at(10, 0)));
    assert_eq!(market_phase(true, at(12, 0)), "intraday");
    assert_eq!(market_phase(true, at(9, 29)), "post_close");
    assert_eq!(market_phase(true, at(15, 1)), "post_close");
    assert_eq!(market_phase(false, at(10, 0)), "closed");
}

#[test]
fn markets_abroad_have_theirs() {
    let summer = Date::new(2026, 7, 1).unwrap();
    let winter = Date::new(2026, 12, 1).unwrap();
    assert!(qdii_overseas_open("纳斯达克", summer, 21 * 60 + 30));
    assert!(!qdii_overseas_open("纳斯达克", winter, 21 * 60 + 30));
    assert!(qdii_overseas_open("恒生", winter, 10 * 60));
    assert!(!qdii_overseas_open("恒生", winter, 16 * 60));
    assert_eq!(nth_weekday_of_month(2026, 3, 6, 2), 8);
    assert_eq!(nth_weekday_of_month(2026, 3, 6, 10), 64);
    let last = Date::new(262142, 12, 31).unwrap().day_of_week();
    assert_eq!(nth_weekday_of_month(2026, 13, last, 1), 1);
}

#[test]
fn dates_are_counted_and_read() {
    let d = Date::new(2024, 2, 29).unwrap();
    assert!(Date::new(2026, 2, 29).is_none());
    assert_eq!(d.minus_days(60).map(|p| p.iso()).as_deref(), Some("2023-12-31"));
    assert_eq!(Date::parse("2024-02-29"), Some(d));
    assert_eq!(Date::parse("2024-02-30"), None);
    assert_eq!(Date::new(1, 1, 1).unwrap().count(), 1);
    assert_eq!(d.day_of_week(), 3);
    assert!(is_earlier(d, Date::new(2024, 3, 1).unwrap()));
    assert_eq!(period_end(2026, 2), Date::new(2026, 6, 30).unwrap());
    assert_eq!(candidate_periods(d).len(), 12);
    assert!(estimate_is_fresh("2026-08-15 14:30", "2026-08-15"));
    assert!(!estimate_is_fresh("2026", "2026"));
}

#[test]
fn requests_keep_apart() {
    let (wait, slot) = reserve_slot(1_000, 900);
    assert_eq!(slot, 900 + MIN_REQ_INTERVAL);
    assert_eq!(wait, slot - 1_000);
    let (wait, second) = reserve_slot(1_000, slot);
    assert_eq!(second - slot, MIN_REQ_INTERVAL);
    assert_eq!(wait, second - 1_000);
    assert_eq!(reserve_slot(9_000_000_000, 0), (0, 9_000_000_000));
}

#[test]
fn orders_are_stable() {
    let up: Vec<TextUp> = ["b", "a", "b", "a"].iter().map(|t| TextUp { text: t.to_string() }).collect();
    assert_eq!(stable_order(&up), vec![1, 3, 0, 2]);
    let down: Vec<Descending> = [1, 2, 1].iter().map(|k| Descending { key: *k }).collect();
    assert_eq!(stable_order(&down), vec![1, 0, 2]);
}

#[test]
fn texts_are_taken_apart() {
    assert_eq!(split("a,,b", ","), texts(&["a", "", "b"]));
    assert_eq!(trim(" \t基\n"), "基");
    assert_eq!(parse_i64("+12"), Some(12));
    assert_eq!(parse_i64("-9223372036854775808"), Some(i64::MIN));
    assert_eq!(parse_i64("9223372036854775808"), None);
    assert_eq!(parse_i64(""), None);
}

#[test]
fn entries_know_their_stamps() {
    let e = RemoteSnapshot {
        key: "d/20260910-221500123.jsonl".to_string(),
        device: "d".to_string(),
        at: "x".to_string(),
        size: 1,
        kind: KIND_SNAPSHOT.to_string(),
    };
    assert_eq!(entry_stamp(&e), "20260910-221500123");
    let bad = RemoteSnapshot {
        key: "bad".to_string(),
        device: "dev-a".to_string(),
        at: "2026-09-10 10:00:00".to_string(),
        size: 1,
        kind: KIND_SNAPSHOT.to_string(),
    };
    assert_eq!(entry_stamp(&bad), "2026-09-10 10:00:00");
}

#[test]
fn the_relay_and_the_table_are_addressed() {
    let t = HttpTransport::new("https://x.example/relay", "t").unwrap_or_else(|m| panic!("{m}"));
    let req = PutRequest {
        key: "d/20260910-221500123.jsonl",
        device: "d",
        at: "2026-09-10 22:15:00",
        kind: KIND_SNAPSHOT,
        body: b"abc",
    };
    assert!(t.put_url(&req).starts_with("https://x.example/relay?action=put&"));
    let e = t.put_entry(
        Envelope { ok: true, error: String::new(), items: Vec::new(), item: None },
        &req,
    );
    assert_eq!((e.size, e.at.as_str()), (3, "2026-09-10 22:15:00"));
    assert!(t.get_fault("k", "404", "raw", Some("gone".to_string())).contains("gone"));
    assert!(t.get_fault("k", "404", "raw", None).contains("raw"));
    let p = PgRestTransport::new("https://e", "k").unwrap_or_else(|m| panic!("{m}"));
    assert!(p.list_url().starts_with("https://e/fl_sync?"));
    assert!(p.put_url().starts_with("https://e/fl_sync"));
    assert!(p.get_url("d/20260910-221500123.jsonl").is_ok());
    assert!(p.get_url("d/bad").is_err());
    assert!(p.delete_url("d x").contains("d%20x"));
}

#[test]
fn the_published_calendar_tells_off_days() {
    let raw = vec![
        PublishedDay { date: "2026-10-01".to_string(), is_off_day: true },
        PublishedDay { date: "2026-10-10".to_string(), is_off_day: false },
    ];
    let days = published_days(&raw);
    assert_eq!(days.len(), 2);
    assert_eq!((days[0].date.as_str(), days[0].open), ("2026-10-01", false));
    assert_eq!((days[1].date.as_str(), days[1].open), ("2026-10-10", true));
}

#[test]
fn changes_stand_on_lines_of_their_own() {
    let body = "{\"header\":1}\r\n  {\"a\":1} \r\n\n   \n{\"b\":2}";
    assert_eq!(change_lines(body), vec!["{\"a\":1}", "{\"b\":2}"]);
    assert!(change_lines("").is_empty());
    assert!(change_lines("header").is_empty());
}
