use fundlens::calendar::{
    candidate_periods, is_us_daylight, qdii_overseas_region, Calendar, Period,
};
use fundlens::date::Date;
use fundlens::disclosure::extract_curyear;
use fundlens::funds::{
    clean_for_match, is_index_fund, is_pure_index_fund, is_qdii_fund, match_name_score,
    pick_benchmark, resolve_fund_code, resolve_tracked_index,
};
use fundlens::quotes::{parse_sina_index_quote, parse_tencent_fund_nav};
use fundlens::search::{
    parse_fund_estimate, parse_fund_search, parse_nav_history, positive_points,
};

fn d(y: i32, m: u32, day: u32) -> Date {
    Date::new(y, m, day).unwrap()
}

fn is_trading_day(date: Date) -> bool {
    Calendar::new().is_trading_day(date, &Vec::new())
}

fn number(text: &str) -> f64 {
    text.parse().unwrap()
}

struct Estimate {
    est_nav: f64,
    prev_nav: f64,
    est_change_pct: f64,
    gztime: String,
}

/// An estimate counts only where the value of the day before is above zero.
fn estimate(body: &str) -> Option<Estimate> {
    let e = parse_fund_estimate(body)?;
    let est_nav: f64 = e.est_nav.parse().ok()?;
    let prev_nav: f64 = e.prev_nav.parse().ok()?;
    if prev_nav <= 0.0 {
        return None;
    }
    Some(Estimate { est_nav, prev_nav, est_change_pct: est_nav / prev_nav - 1.0, gztime: e.gztime })
}

struct NavPoint {
    date: String,
    nav: f64,
    acc_nav: f64,
}

/// The rows of a history with a value above zero; a history without one is none.
fn nav_history(body: &str) -> Option<Vec<NavPoint>> {
    let value = |text: &str| text.parse::<f64>().unwrap_or(0.0);
    let points = parse_nav_history(body)?;
    let positive: Vec<bool> = points.iter().map(|p| value(&p.nav) > 0.0).collect();
    let kept = positive_points(points, &positive)?;
    Some(
        kept.into_iter()
            .map(|p| NavPoint { nav: value(&p.nav), acc_nav: value(&p.acc_nav), date: p.date })
            .collect(),
    )
}

fn tencent_nav(body: &str) -> Option<(f64, String, f64)> {
    let t = parse_tencent_fund_nav(body)?;
    let nav: f64 = t.nav.parse().ok()?;
    if nav <= 0.0 {
        return None;
    }
    Some((nav, t.nav_date, t.change.parse().unwrap_or(0.0)))
}

fn has_period(list: &[Period], year: i32, season: u32, disclosure: &str) -> bool {
    position(list, year, season, disclosure).is_some()
}

fn position(list: &[Period], year: i32, season: u32, disclosure: &str) -> Option<usize> {
    list.iter().position(|p| p.year == year && p.season == season && p.disclosure == disclosure)
}

#[test]
fn trading_day_weekend_closed() {
    assert!(!is_trading_day(d(2024, 2, 17)));
    assert!(!is_trading_day(d(2024, 2, 18)));
}

#[test]
fn trading_day_statutory_holiday_closed() {
    assert!(!is_trading_day(d(2024, 1, 1)));
    assert!(!is_trading_day(d(2024, 2, 10)));
    assert!(!is_trading_day(d(2024, 4, 4)));
    assert!(!is_trading_day(d(2024, 5, 1)));
    assert!(!is_trading_day(d(2024, 6, 10)));
    assert!(!is_trading_day(d(2024, 9, 17)));
    assert!(!is_trading_day(d(2024, 10, 1)));
    assert!(!is_trading_day(d(2025, 10, 1)));
    assert!(!is_trading_day(d(2026, 2, 15)));
    assert!(!is_trading_day(d(2026, 10, 7)));
}

#[test]
fn trading_day_makeup_workday_still_closed() {
    assert!(!is_trading_day(d(2024, 2, 4)));
    assert!(!is_trading_day(d(2024, 5, 11)));
    assert!(!is_trading_day(d(2026, 2, 14)));
}

#[test]
fn trading_day_normal_weekday_open() {
    assert!(is_trading_day(d(2024, 3, 1)));
    assert!(is_trading_day(d(2024, 2, 19)));
    assert!(is_trading_day(d(2025, 2, 5)));
    assert!(is_trading_day(d(2026, 10, 9)));
}

#[test]
fn trading_day_unknown_year_fallback_open() {
    assert!(is_trading_day(d(2099, 3, 2)));
    assert!(!is_trading_day(d(2099, 3, 7)));
}

#[test]
fn clean_for_match_strips_punctuation_and_spaces() {
    assert_eq!(
        clean_for_match("天弘恒生科技 ETF联接（QDII)C"),
        "天弘恒生科技ETF联接QDIIC"
    );
    assert_eq!(clean_for_match("博时恒生医疗 保健ETF联接..."), "博时恒生医疗保健ETF联接");
}

#[test]
fn resolve_known_fund_by_alias() {
    assert_eq!(resolve_fund_code("鹏华酒指数C", None), Some("012043".to_string()));
    assert_eq!(resolve_fund_code("中欧医疗健康混合A", None), Some("003095".to_string()));
    assert_eq!(resolve_fund_code("博时恒生医疗保健ETF联接", None), Some("014424".to_string()));
    assert_eq!(resolve_fund_code("建信高端装备股票A", None), Some("011506".to_string()));
    assert_eq!(resolve_fund_code("天弘恒生科技ETF联接(QDII)C", None), Some("012349".to_string()));
    assert_eq!(resolve_fund_code("富国高质量混合", None), Some("012255".to_string()));
}

#[test]
fn match_name_score_prefers_exact() {
    assert!(match_name_score("中欧医疗健康混合A", "中欧医疗健康混合A") > 0);
    assert!(match_name_score("天弘恒生科技ETF联接QDIIC", &clean_for_match("天弘恒生科技ETF联接(QDII)C")) > 0);
    assert_eq!(match_name_score("酒", "鹏华酒指数C"), 0);
}

#[test]
fn a_contained_name_needs_some_length() {
    assert_eq!(match_name_score("白酒", "招商白酒"), 0);
    assert_eq!(match_name_score("招商白酒", "白酒"), 0);
    assert_eq!(match_name_score("白酒", "招商中证白酒指数"), 506);
    assert_eq!(match_name_score("招商中证白酒指数", "白酒"), 406);
    assert_eq!(match_name_score("ETFA5", "某某ETFA5联接"), 0);
    assert_eq!(match_name_score("大成高鑫股", "大成高鑫股票A"), 515);
    assert_eq!(match_name_score("大成高鑫股票", "大成高鑫股票A"), 518);
    assert_eq!(match_name_score("大成高鑫股票A", "大成高鑫股票"), 418);
    assert_eq!(match_name_score("白酒", "白酒"), 1006);
}

#[test]
fn parse_fund_search_picks_exact_match() {
    let body = r#"{"ErrCode":0,"ErrMsg":"fromes","Datas":[{"CODE":"000628","NAME":"大成高鑫股票A"},{"CODE":"000001","NAME":"华夏成长混合"}]}"#;
    assert_eq!(parse_fund_search("大成高鑫股票A", body), Some("000628".to_string()));
}

#[test]
fn parse_fund_search_fallback_to_top_when_no_score() {
    let body = r#"{"ErrCode":0,"Datas":[{"CODE":"022435","NAME":"南方中证A500ETF联接C"}]}"#;
    assert_eq!(parse_fund_search("南方中证A500ETF联C", body), Some("022435".to_string()));
}

#[test]
fn parse_fund_search_rejects_non6_code() {
    let body = r#"{"ErrCode":0,"Datas":[{"CODE":"ABC","NAME":"某基金"},{"CODE":"123","NAME":"短码基金"}]}"#;
    assert_eq!(parse_fund_search("某基金", body), None);
}

#[test]
fn parse_fund_estimate_reads_gsz_and_dwjz() {
    let body = r#"jsonpgz({"fundcode":"000628","name":"大成高鑫股票A","jzrq":"2026-08-14","dwjz":"3.4520","gsz":"3.4680","gztime":"2026-08-15 14:30","sx":"1"})"#;
    let e = estimate(body).unwrap();
    assert_eq!(e.est_nav, 3.4680);
    assert_eq!(e.prev_nav, 3.4520);
    assert!((e.est_change_pct - (3.4680 / 3.4520 - 1.0)).abs() < 1e-9);
    assert_eq!(e.gztime, "2026-08-15 14:30");
}

#[test]
fn parse_fund_estimate_handles_trailing_semicolon() {
    let body = "jsonpgz({\"dwjz\":\"1.0000\",\"gsz\":\"1.0200\",\"gztime\":\"2026-08-15 09:35\"});";
    let e = estimate(body).unwrap();
    assert!((e.est_change_pct - 0.02).abs() < 1e-9);
}

#[test]
fn parse_fund_estimate_rejects_bad_input() {
    assert!(estimate("jsonpgz({})").is_none());
    assert!(estimate("not json").is_none());
    assert!(estimate("jsonpgz({\"dwjz\":\"0\",\"gsz\":\"1\"})").is_none());
}

#[test]
fn pick_benchmark_detects_index_from_name() {
    let (_, code, name) = pick_benchmark("008", "华夏沪深300ETF联接A");
    assert_eq!(code, "000300");
    assert_eq!(name, "沪深300");

    let (_, code, name) = pick_benchmark("009", "南方中证500ETF联接C");
    assert_eq!(code, "000905");
    assert_eq!(name, "中证500");

    let (_, code, name) = pick_benchmark("008", "易方达创业板ETF");
    assert_eq!(code, "399006");
    assert_eq!(name, "创业板指");

    let (_, code, name) = pick_benchmark("008", "工银科创50ETF联接");
    assert_eq!(code, "000688");
    assert_eq!(name, "科创50");

    let (_, code, name) = pick_benchmark("008", "富国中证红利指数");
    assert_eq!(code, "000922");
    assert_eq!(name, "中证红利");
}

#[test]
fn pick_benchmark_detects_industry_from_name() {
    let (_, code, name) = pick_benchmark("007", "中欧医疗健康混合A");
    assert_eq!(code, "399989");
    assert_eq!(name, "中证医疗");

    let (_, code, name) = pick_benchmark("008", "鹏华酒指数C");
    assert_eq!(code, "399997");
    assert_eq!(name, "中证白酒");

    let (_, code, name) = pick_benchmark("008", "国泰中证证券公司ETF联接");
    assert_eq!(code, "399975");
    assert_eq!(name, "证券公司");

    let (_, code, _name) = pick_benchmark("007", "招商中证白酒指数");
    assert_eq!(code, "399997");

    let (_, code, name) = pick_benchmark("008", "国联安中证半导体ETF");
    assert_eq!(code, "980017");
    assert_eq!(name, "国证芯片");

    let (_, code, name) = pick_benchmark("008", "天弘中证新能源车ETF联接");
    assert_eq!(code, "399976");
    assert_eq!(name, "CS新能车");

    let (_, code, name) = pick_benchmark("008", "天弘中证光伏产业ETF");
    assert_eq!(code, "399808");
    assert_eq!(name, "中证新能");
}

#[test]
fn pick_benchmark_falls_back_by_type() {
    let (_, code, name) = pick_benchmark("004", "易方达增强回报债券A");
    assert_eq!(code, "000012");
    assert_eq!(name, "上证国债");

    let (_, code, name) = pick_benchmark("001", "易方达蓝筹精选混合");
    assert_eq!(code, "000300");
    assert_eq!(name, "沪深300");

    let (_, code, _name) = pick_benchmark("007", "兴全合宜灵活配置混合");
    assert_eq!(code, "000300");

    let (_, code, name) = pick_benchmark("008", "某宽基指数A");
    assert_eq!(code, "000300");
    assert_eq!(name, "沪深300");
}

#[test]
fn is_qdii_fund_matches_type_code_003() {
    assert!(is_qdii_fund("003"));
    assert!(!is_qdii_fund("001"));
    assert!(!is_qdii_fund("007"));
}

#[test]
fn is_pure_index_fund_excludes_enhanced() {
    assert!(is_pure_index_fund("008", "富国中证红利指数"));
    assert!(is_pure_index_fund("009", "易方达沪深300ETF联接"));
    assert!(is_pure_index_fund("006", "某分级母基金"));
    assert!(is_pure_index_fund("001", "招商中证白酒指数"));
    assert!(is_index_fund("008", "富国中证红利指数增强"));
    assert!(!is_pure_index_fund("008", "富国中证红利指数增强"));
    assert!(!is_pure_index_fund("001", "某沪深300指数增强"));
    assert!(!is_pure_index_fund("007", "兴全合宜灵活配置混合"));
    assert!(!is_pure_index_fund("004", "鹏华丰禄债券"));
}

#[test]
fn pick_benchmark_maps_hk_indices_to_sina_symbol() {
    let (sym, code, cn) = pick_benchmark("", "博时恒生医疗保健ETF联接");
    assert_eq!(sym, "hkHSHCI");
    assert_eq!(code, "HSHCI");
    assert_eq!(cn, "恒生医疗保健指数");
    assert_eq!(pick_benchmark("", "华夏恒生科技ETF联接").0, "hkHSTECH");
    assert_eq!(pick_benchmark("", "某恒生指数ETF").0, "hkHSI");
    let (a, _, _) = pick_benchmark("", "某中证医疗ETF");
    assert_eq!(a, "sz399989");
}

#[test]
fn resolve_tracked_index_prefers_stored_over_name() {
    let (sym, _, _) = resolve_tracked_index("009", "某ETF联接", "hkHSHCI").unwrap();
    assert_eq!(sym, "hkHSHCI");
    let (sym2, _, _) = resolve_tracked_index("009", "某ETF联接", "").unwrap();
    assert!(!sym2.is_empty());
    assert!(resolve_tracked_index("007", "兴全合宜灵活配置混合", "").is_none());
}

#[test]
fn only_index_funds_follow_an_index() {
    assert!(resolve_tracked_index("007", "兴全合宜灵活配置混合", "sh000300").is_none());
    assert_eq!(resolve_tracked_index("008", "某基金", " sh000300 ").unwrap().1, "000300");
}

#[test]
fn parse_sina_index_quote_parses_hshci_line() {
    let line = "var hq_str_hkHSHCI=\"HSHCI,恒生医疗保健指数,3722.1700,3712.1700,3794.1600,3674.4400,3738.7900,26.6200,0.7171,,,14976080.3260,0,,,,,2026/08/17,16:08\";";
    let q = parse_sina_index_quote(line, "hkHSHCI").expect("应解析成功");
    assert_eq!(q.stock_code, "HSHCI");
    assert_eq!(q.name, "恒生医疗保健指数");
    assert!((number(&q.prev_close) - 3712.17).abs() < 1e-6);
    assert!((number(&q.price) - 3738.79).abs() < 1e-6);
    assert!((number(&q.price) / number(&q.prev_close) - 1.0 - 0.007171).abs() < 1e-5);
    assert!(parse_sina_index_quote("var hq_str_hkHSI=\"X\"", "hkHSHCI").is_none());
}

#[test]
fn qdii_overseas_region_detects_us_and_hk() {
    assert_eq!(qdii_overseas_region("华夏恒生科技ETF联接(QDII)"), "hk");
    assert_eq!(qdii_overseas_region("易方达香港恒生H股"), "hk");
    assert_eq!(qdii_overseas_region("广发纳斯达克100指数(QDII)"), "us");
    assert_eq!(qdii_overseas_region("博时标普500ETF联接"), "us");
    assert_eq!(qdii_overseas_region("华夏全球科技先锋(QDII)"), "us");
    assert_eq!(qdii_overseas_region("某QDII基金"), "other");
}

#[test]
fn extract_curyear_reads_quarter_from_title() {
    assert_eq!(extract_curyear("2026年2季度投资组合"), Some("2026Q2".to_string()));
    assert_eq!(extract_curyear("2025年4季度投资组合"), Some("2025Q4".to_string()));
    assert_eq!(extract_curyear("2026年第2季度"), Some("2026Q2".to_string()));
    assert_eq!(extract_curyear("2026年第二季度投资组合"), Some("2026Q2".to_string()));
}

#[test]
fn extract_curyear_avoids_date_collision() {
    let body = "更新于2026年08月13日 09:30，基金2026年2季度投资组合如下";
    assert_eq!(extract_curyear(body), Some("2026Q2".to_string()));
    assert_eq!(extract_curyear("数据更新于2026年08月13日"), None);
}

#[test]
fn extract_curyear_no_panic_on_multibyte_before_year() {
    assert_eq!(extract_curyear("某某年2季度投资组合"), None);
    assert_eq!(
        extract_curyear("基金2026年2季度投资组合"),
        Some("2026Q2".to_string())
    );
}

#[test]
fn candidate_periods_prefers_latest_ended_as_of_aug() {
    let now = d(2026, 8, 13);
    let cands = candidate_periods(now);
    assert_eq!(position(&cands, 2026, 2, "full"), Some(0));
    assert!(!has_period(&cands, 2026, 3, "top10"));
    assert!(!has_period(&cands, 2026, 4, "full"));
    assert!(has_period(&cands, 2026, 1, "top10"));
    assert!(has_period(&cands, 2025, 4, "full"));
    let pos_q2 = position(&cands, 2026, 2, "full").unwrap();
    let pos_q1 = position(&cands, 2026, 1, "top10").unwrap();
    assert!(pos_q2 < pos_q1);
}

#[test]
fn parse_nav_history_reads_lsjz_list() {
    let body = r#"{"Data":{"LSJZList":[{"FSRQ":"2026-08-11","DWJZ":"3.4520","LJJZ":"3.4520"},{"FSRQ":"2026-08-12","DWJZ":"3.4600","LJJZ":"3.4600"},{"FSRQ":"2026-08-13","DWJZ":"","LJJZ":""}],"FundType":"007"}}"#;
    let pts = nav_history(body).unwrap();
    assert_eq!(pts.len(), 2);
    assert_eq!(pts[0].date, "2026-08-11");
    assert_eq!(pts[0].nav, 3.4520);
    assert_eq!(pts[1].date, "2026-08-12");
    assert!(pts[0].date < pts[1].date);
}

#[test]
fn parse_nav_history_handles_null_and_numeric() {
    let body = r#"{"Data":{"LSJZList":[{"FSRQ":"2026-08-10","DWJZ":"1.0000","LJJZ":null},{"FSRQ":"2026-08-09","DWJZ":2.5,"LJJZ":2.6},{"FSRQ":"2026-08-08","DWJZ":null,"LJJZ":"3.0"}]}}"#;
    let pts = nav_history(body).unwrap();
    assert_eq!(pts.len(), 2);
    assert_eq!(pts[0].date, "2026-08-09");
    assert_eq!(pts[0].nav, 2.5);
    assert_eq!(pts[0].acc_nav, 2.6);
    assert_eq!(pts[1].date, "2026-08-10");
    assert_eq!(pts[1].acc_nav, 0.0);
}

#[test]
fn parse_nav_history_returns_none_on_garbage() {
    assert!(nav_history("not json").is_none());
    assert!(nav_history(r#"{"Data":{}}"#).is_none());
    assert!(nav_history(r#"{"Data":{"LSJZList":[]}}"#).is_none());
    assert!(parse_nav_history(r#"{"Data":{"LSJZList":[]}}"#).is_none());
}

#[test]
fn a_history_without_values_is_none() {
    let undated = r#"{"Data":{"LSJZList":[{"FSRQ":"2026","DWJZ":"1.0"}]}}"#;
    assert!(parse_nav_history(undated).is_none());
    let empty = r#"{"Data":{"LSJZList":[{"FSRQ":"2026-08-13","DWJZ":" "},{"FSRQ":"2026-08-14"}]}}"#;
    assert!(parse_nav_history(empty).is_none());
    let mixed = r#"{"Data":{"LSJZList":[{"FSRQ":"2026-08-14","DWJZ":"2"},{"FSRQ":"2026-08-13","DWJZ":"0"}]}}"#;
    let points = parse_nav_history(mixed).unwrap();
    assert_eq!(points.len(), 2);
    assert_eq!(points[0].date, "2026-08-13");
    assert_eq!(positive_points(points, &vec![false, true]).unwrap()[0].nav, "2");
    let zero = parse_nav_history(mixed).unwrap();
    assert!(positive_points(zero, &vec![false, false]).is_none());
}

#[test]
fn candidate_periods_early_year_falls_back_to_prior_year_annual() {
    let now = d(2026, 2, 1);
    let cands = candidate_periods(now);
    assert_eq!(position(&cands, 2025, 4, "full"), Some(0));
    assert!(!has_period(&cands, 2026, 1, "top10"));
}

#[test]
fn us_daylight_time_boundaries() {
    let dt = |m: u32, day: u32| d(2026, m, day);
    assert!(is_us_daylight(dt(3, 8)));
    assert!(!is_us_daylight(dt(3, 7)));
    assert!(is_us_daylight(dt(7, 15)));
    assert!(is_us_daylight(dt(10, 31)));
    assert!(!is_us_daylight(dt(11, 1)));
}

#[test]
fn parse_tencent_fund_nav_hk_mrf_real_payload() {
    let body = "v_jj968072=\"968072~摩根亚洲增长PRC人民币对冲累计~0.0000~0.0000~~17.7900~17.7900~-0.7808~2026-08-18~\";\n";
    let (nav, date, pct) = tencent_nav(body).expect("应解析成功");
    assert!((nav - 17.7900).abs() < 1e-9);
    assert_eq!(date, "2026-08-18");
    assert!((pct - (-0.7808)).abs() < 1e-9);
    let prev = nav / (1.0 + pct / 100.0);
    assert!((prev - 17.9300).abs() < 0.001, "反推昨收应约 17.9300，实际 {prev}");
}

#[test]
fn parse_tencent_fund_nav_mainland_fund_matches_eastmoney() {
    let body = "v_jj004139=\"004139~某基金~0.0000~0.0000~~1.9496~1.9496~-0.2252~2026-08-20~\";\n";
    let (nav, date, pct) = tencent_nav(body).expect("应解析成功");
    assert!((nav - 1.9496).abs() < 1e-9);
    assert_eq!(date, "2026-08-20");
    let prev = nav / (1.0 + pct / 100.0);
    assert!((prev - 1.9540).abs() < 1e-6, "反推昨收应等于东财 08-19 官方值 1.9540，实际 {prev}");
}

#[test]
fn parse_tencent_fund_nav_garbage_returns_none() {
    assert!(tencent_nav("").is_none());
    assert!(tencent_nav("v_jj968072=\"garbage\"").is_none());
    let zero = "v_jj968072=\"968072~某基金~0.0000~0.0000~~0.0000~0.0000~0.0000~2026-08-18~\";\n";
    assert!(tencent_nav(zero).is_none());
}
