use fundlens::date::Date;
use fundlens::refresh::{
    history_periods, keeps_prev_point, needs_refresh, sum_up_fetches, FundNavStatus, NavRefresh,
    StoredReports,
};

fn fund(code: &str, nav_date: Option<&str>, fund_type: &str) -> FundNavStatus {
    FundNavStatus {
        code: code.to_string(),
        nav_date: nav_date.map(|d| d.to_string()),
        fund_type: fund_type.to_string(),
    }
}

#[test]
fn only_values_out_of_date_are_asked_for() {
    let today = Date::new(2026, 8, 20).unwrap();
    assert!(needs_refresh(&fund("1", None, ""), today));
    assert!(needs_refresh(&fund("1", Some(""), ""), today));
    assert!(needs_refresh(&fund("1", Some("soon"), ""), today));
    assert!(needs_refresh(&fund("1", Some("2026-08-19"), ""), today));
    assert!(!needs_refresh(&fund("1", Some("2026-08-20"), ""), today));
    assert!(!needs_refresh(&fund("1", Some("2026-08-21"), ""), today));
}

#[test]
fn every_fund_is_counted() {
    let today = Date::new(2026, 8, 20).unwrap();
    let mut funds = vec![fund("a", Some("2026-08-20"), "001"), fund("b", None, "")];
    for i in 0..6 {
        funds.push(fund(&format!("f{i}"), Some("2026-08-19"), "001"));
    }
    let mut run = NavRefresh::start(funds, today);
    assert_eq!(run.seek(), Some(("b".to_string(), true)));
    assert_eq!(run.took("2026-08-20", "2026-08-20"), 200);
    let mut pauses = Vec::new();
    while let Some((_, needs_type)) = run.seek() {
        assert!(!needs_type);
        pauses.push(run.missed());
    }
    assert_eq!(pauses, vec![1000, 1000, 1000, 1000, 3200, 1000]);
    let out = run.finish("now");
    assert_eq!((out.total, out.skipped, out.fetched, out.got_today, out.failed), (8, 1, 1, 1, 6));
    assert_eq!(out.failed_codes[0], "f0");
    assert_eq!(out.at, "now");
}

#[test]
fn values_without_a_date_stay_out_of_the_history() {
    assert!(keeps_prev_point(&Some("2026-08-19".to_string())));
    assert!(!keeps_prev_point(&Some(String::new())));
    assert!(!keeps_prev_point(&None));
}

#[test]
fn fetches_are_summed_up() {
    let codes: Vec<String> = ["a", "b", "c"].iter().map(|s| s.to_string()).collect();
    let out = sum_up_fetches(&codes, &vec![true, false, true], "now");
    assert_eq!((out.total, out.ok, out.failed), (3, 2, 1));
    assert_eq!(out.failed_codes, vec!["b".to_string()]);
}

#[test]
fn reports_are_asked_for_and_kept_once() {
    let now = Date::new(2026, 8, 13).unwrap();
    assert_eq!(history_periods(None, now).len(), 8);
    assert_eq!(history_periods(Some(0), now).len(), 1);
    assert_eq!(history_periods(Some(99), now).len(), 12);
    let first = &history_periods(Some(1), now)[0];
    assert_eq!((first.year, first.season, first.disclosure), (2026, 2, "full"));
    let mut kept = StoredReports::new();
    kept.note("2026Q2".to_string(), 10);
    kept.note("2026Q2".to_string(), 11);
    kept.note("2026Q1".to_string(), 12);
    assert_eq!(kept.periods, vec!["2026Q2".to_string(), "2026Q1".to_string()]);
    assert_eq!(kept.rows, vec![10, 12]);
}
