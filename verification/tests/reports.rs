use fundlens::changes::{change_periods, classify_change, match_holdings, order_changes, Change};
use fundlens::date::Date;
use fundlens::reports::{
    cost_line, day_before, history_fallback, is_within, plan_report, pnl_calendar, range_cutoff,
    report_days, stand_in, within_range, DaySigns,
};

struct Snapshot {
    date: &'static str,
    pnl: f64,
    cost: f64,
    day: f64,
    est: f64,
}

fn snapshots() -> Vec<Snapshot> {
    vec![
        Snapshot { date: "2026-08-20", pnl: 180.0, cost: 900.0, day: -20.0, est: -30.0 },
        Snapshot { date: "2026-08-18", pnl: 100.0, cost: 900.0, day: 10.0, est: 60.0 },
        Snapshot { date: "2026-08-19", pnl: 200.0, cost: 900.0, day: 90.0, est: 50.0 },
    ]
}

struct Report {
    start_date: &'static str,
    end_date: &'static str,
    delta_pnl: f64,
    est_delta_pnl: f64,
    est_act_diff: f64,
    est_pnl_rate: f64,
    diff_rate: f64,
    est_positive_days: usize,
    est_negative_days: usize,
    positive_days: usize,
}

fn report(period: &str) -> Report {
    let snaps = snapshots();
    let dates: Vec<String> = snaps.iter().map(|s| s.date.to_string()).collect();
    let signs: Vec<DaySigns> = snaps
        .iter()
        .map(|s| DaySigns {
            gain: s.day > 0.0,
            loss: s.day < 0.0,
            est_gain: s.est > 0.0,
            est_loss: s.est < 0.0,
        })
        .collect();
    let p = plan_report(&dates, &signs, report_days(period).unwrap());
    assert!(p.has_history);
    let window: Vec<&Snapshot> = p.order[p.start..].iter().map(|i| &snaps[*i]).collect();
    let start = window[0];
    let end = window[window.len() - 1];
    let est: f64 = window.iter().map(|s| s.est).sum();
    let act: f64 = window.iter().map(|s| s.day).sum();
    Report {
        start_date: start.date,
        end_date: end.date,
        delta_pnl: end.pnl - start.pnl,
        est_delta_pnl: est,
        est_act_diff: est - act,
        est_pnl_rate: est / start.cost,
        diff_rate: (est - act) / start.cost,
        est_positive_days: p.est_positive_days,
        est_negative_days: p.est_negative_days,
        positive_days: p.positive_days,
    }
}

#[test]
fn period_report_est_stats_match_window_daily() {
    let daily = report("daily");
    assert_eq!(daily.start_date, "2026-08-19");
    assert_eq!(daily.end_date, "2026-08-20");
    assert!((daily.delta_pnl - (-20.0)).abs() < 1e-9);
    assert!((daily.est_delta_pnl - 20.0).abs() < 1e-9);
    assert!((daily.est_act_diff - (-50.0)).abs() < 1e-9);
    assert!((daily.est_pnl_rate - 20.0 / 900.0).abs() < 1e-9);
    assert!((daily.diff_rate - (-50.0) / 900.0).abs() < 1e-9);
    assert_eq!(daily.est_positive_days, 1);
    assert_eq!(daily.est_negative_days, 1);
    assert_eq!(daily.positive_days, 1);
}

#[test]
fn period_report_est_stats_match_window_weekly() {
    let weekly = report("weekly");
    assert_eq!(weekly.start_date, "2026-08-18");
    assert_eq!(weekly.end_date, "2026-08-20");
    assert!((weekly.delta_pnl - 80.0).abs() < 1e-9);
    assert!((weekly.est_delta_pnl - 80.0).abs() < 1e-9);
    assert!((weekly.est_act_diff - 0.0).abs() < 1e-9);
}

#[test]
fn period_report_est_stats_match_window_yearly() {
    let yearly = report("yearly");
    assert_eq!(yearly.start_date, "2026-08-18");
    assert_eq!(yearly.end_date, "2026-08-20");
    assert!((yearly.est_delta_pnl - 80.0).abs() < 1e-9);
}

fn texts(list: &[&str]) -> Vec<String> {
    list.iter().map(|s| s.to_string()).collect()
}

#[test]
fn a_report_needs_two_snapshots() {
    let signs = vec![DaySigns { gain: true, loss: false, est_gain: true, est_loss: false }];
    let p = plan_report(&texts(&["2026-08-20"]), &signs, 1);
    assert!(!p.has_history);
    assert_eq!((p.order.len(), p.positive_days, p.est_positive_days), (1, 0, 0));
    assert_eq!(report_days("monthly"), Some(30));
    assert_eq!(report_days("hourly"), None);
}

#[test]
fn the_calendar_reaches_back() {
    let today = Date::new(2026, 8, 20).unwrap();
    let dates = texts(&["2026-07-20", "2026-07-21", "2026-08-20", "2026-08-21", "garbage"]);
    assert_eq!(pnl_calendar(&dates, today, 1), vec![1, 2]);
    assert_eq!(pnl_calendar(&dates, today, 0), vec![2]);
}

#[test]
fn ranges_begin_at_a_day() {
    let today = Date::new(2026, 3, 1).unwrap();
    assert_eq!(range_cutoff("1m", today).as_deref(), Some("2026-01-30"));
    assert_eq!(range_cutoff("3m", today).as_deref(), Some("2025-12-01"));
    assert_eq!(range_cutoff("6m", today).as_deref(), Some("2025-09-02"));
    assert_eq!(range_cutoff("all", today), None);
    let cut = Some("2026-01-30".to_string());
    assert!(is_within(&cut, "2026-01-30"));
    assert!(!is_within(&cut, "2026-01-29"));
    assert_eq!(within_range(&cut, &texts(&["2026-01-29", "2026-02-01"])), vec![1]);
}

#[test]
fn two_points_stand_in_for_a_history() {
    let before = day_before("2026-03-01");
    assert_eq!(before.as_deref(), Some("2026-02-28"));
    assert_eq!(day_before("never"), None);
    let s = stand_in(&None, "2026-03-01", true, true, &before);
    assert_eq!(s.prev.as_deref(), Some("2026-02-28"));
    assert_eq!(s.last.as_deref(), Some("2026-03-01"));
    let s = stand_in(&Some("2026-03-01".to_string()), "2026-03-01", true, true, &before);
    assert_eq!(s.prev, None);
    assert!(s.last.is_some());
    let s = stand_in(&None, "", true, true, &None);
    assert_eq!((s.prev, s.last), (None, None));
}

#[test]
fn the_line_of_costs_has_two_ends() {
    assert_eq!(
        cost_line(&texts(&["2026-02-01", "2026-01-01", "2026-03-01"])),
        Some(("2026-01-01".to_string(), Some("2026-03-01".to_string())))
    );
    assert_eq!(cost_line(&texts(&["2026-02-01"])), Some(("2026-02-01".to_string(), None)));
    assert_eq!(cost_line(&Vec::new()), None);
}

#[test]
fn a_missing_history_is_told() {
    assert_eq!(history_fallback(3), Ok(0));
    assert_eq!(history_fallback(0), Err("拉取历史净值失败（网络或接口异常）".to_string()));
}

#[test]
fn holdings_of_two_reports_are_matched() {
    assert_eq!(
        change_periods(&texts(&["2025Q4", "2026Q1", "2026Q2"])),
        ("2026Q2".to_string(), "2026Q1".to_string(), true)
    );
    assert_eq!(change_periods(&texts(&["2026Q2"])), ("2026Q2".to_string(), String::new(), false));
    let m = match_holdings(&texts(&["a", "b", "c"]), &texts(&["b", "d", "c", "d", "c"]));
    assert_eq!(m.matched, vec![None, Some(0), Some(4)]);
    assert_eq!(m.exits, vec![3]);
}

#[test]
fn changes_are_named_and_ordered() {
    assert_eq!(classify_change(false, false, false), Change::New);
    assert_eq!(classify_change(true, true, true), Change::Flat);
    assert_eq!(classify_change(true, false, true), Change::Increase);
    assert_eq!(classify_change(true, false, false), Change::Decrease);
    assert_eq!(Change::Exit.name(), "exit");
    let kinds = vec![Change::Flat, Change::Exit, Change::New, Change::New, Change::Increase, Change::Decrease];
    assert_eq!(order_changes(&kinds, &vec![9, 9, 1, 2, 5, 5]), vec![3, 2, 4, 5, 1, 0]);
}
