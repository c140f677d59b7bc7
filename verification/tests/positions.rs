use fundlens::date::Date;
use fundlens::positions::{
    best_and_worst, by_worth, confidence, counts_as_estimated, day_source, delay_note,
    detail_reason, detail_suppresses, has_day_actual, index_route, of_platform, overview_reason,
    plan_overview, plan_position, valuation_source, value_is_estimate, Baseline, Branch, DaySource,
    FundFacts, Source,
};
use fundlens::stats::{by_asset, by_platform};

struct Holding {
    code: &'static str,
    name: &'static str,
    fund_type: &'static str,
    shares: f64,
    cost: f64,
    amount: f64,
    profit: f64,
    nav: f64,
    prev_nav: f64,
    nav_date: &'static str,
}

fn eff_shares(h: &Holding) -> f64 {
    if h.shares > 0.0 {
        h.shares
    } else if h.amount > 0.0 && h.nav > 0.0 {
        h.amount / h.nav
    } else {
        0.0
    }
}

fn facts(h: &Holding) -> FundFacts {
    FundFacts {
        code: h.code.to_string(),
        name: h.name.to_string(),
        fund_type: h.fund_type.to_string(),
        track_index: String::new(),
        nav_date: h.nav_date.to_string(),
        shares_positive: h.shares > 0.0,
        amount_positive: h.amount > 0.0,
        nav_positive: h.nav > 0.0,
        prev_nav_positive: h.prev_nav > 0.0,
        eff_shares_positive: eff_shares(h) > 0.0,
    }
}

fn day() -> Date {
    Date::new(2026, 9, 3).unwrap()
}

#[test]
fn get_fund_detail_prefers_fund_prev_nav_over_polluted_est_cache() {
    let h = Holding {
        code: "006503",
        name: "某基金",
        fund_type: "001",
        shares: 94.0730,
        cost: 600.0,
        amount: 0.0,
        profit: 0.0,
        nav: 6.8851,
        prev_nav: 7.5438,
        nav_date: "2026-09-03",
    };
    let polluted = 7.2429;
    let p = plan_position(&facts(&h), day(), 600);
    assert_eq!(p.branch, Branch::Full);
    let base = match p.baseline {
        Baseline::Stored => h.prev_nav,
        Baseline::History => polluted,
        Baseline::Nothing => 0.0,
    };
    let day_pnl = eff_shares(&h) * (h.nav - base);
    let day_pct = (h.nav - base) / base;
    assert!((day_pnl - h.shares * (h.nav - 7.5438)).abs() < 1e-3);
    assert!((day_pct - (h.nav - 7.5438) / 7.5438).abs() < 1e-4);
    assert!((day_pct - (h.nav - polluted) / polluted).abs() > 1e-4);
    assert!(p.day_is_today);
    assert!(has_day_actual(&facts(&h), false));
}

#[test]
fn e2e_money_fund_pages_unified() {
    let h = Holding {
        code: "000201",
        name: "某货币",
        fund_type: "002",
        shares: 1000.0,
        cost: 1000.0,
        amount: 1100.0,
        profit: 100.0,
        nav: 1.02,
        prev_nav: 1.01,
        nav_date: "2026-09-03",
    };
    let overview = plan_overview(&vec![facts(&h)], day(), 600).remove(0);
    let detail = plan_position(&facts(&h), day(), 600);
    for p in [&overview, &detail] {
        assert_eq!(p.branch, Branch::MoneyByShares);
        assert_eq!(p.cost_from, Source::Own);
        let mv = eff_shares(&h) * h.nav;
        assert!((mv - 1020.0).abs() < 1e-6);
        assert!((mv - h.cost - 20.0).abs() < 1e-6);
        assert!(((mv - h.cost) / h.cost - 20.0 / 1000.0).abs() < 1e-9);
        assert_eq!(p.baseline, Baseline::Nothing);
    }
    assert!(!counts_as_estimated(true, h.fund_type));
    assert!(!has_day_actual(&facts(&h), true));
    assert_eq!(h.profit, 100.0);
}

#[test]
fn e2e_snapshot_gap_day_pnl_uses_actual() {
    let day_pnl = |gap: Option<i64>, mv: f64, prev: f64, cash: f64, actual: f64| match day_source(gap) {
        DaySource::Change => mv - prev - cash,
        DaySource::Actual => actual,
    };
    assert!((day_pnl(Some(5), 5500.0, 5000.0, 0.0, 123.45) - 123.45).abs() < 1e-9);
    assert!((day_pnl(Some(1), 5520.0, 5400.0, 0.0, 999.0) - 120.0).abs() < 1e-9);
    assert!((day_pnl(None, 5520.0, 0.0, 0.0, 7.0) - 7.0).abs() < 1e-9);
}

#[test]
fn amounts_stand_in_where_there_are_no_shares() {
    let mut h = Holding {
        code: "占位",
        name: "某基金",
        fund_type: "001",
        shares: 0.0,
        cost: 0.0,
        amount: 500.0,
        profit: 20.0,
        nav: 0.0,
        prev_nav: 0.0,
        nav_date: "",
    };
    let p = plan_position(&facts(&h), day(), 600);
    assert_eq!((p.branch, p.shares_from, p.cost_from), (Branch::Amounts, Source::Nothing, Source::Amount));
    assert_eq!(p.baseline, Baseline::History);
    assert!(!p.day_is_today);
    h.nav = 2.0;
    h.code = "110011";
    let p = plan_position(&facts(&h), day(), 600);
    assert_eq!((p.branch, p.shares_from), (Branch::Full, Source::Amount));
    assert!(!has_day_actual(&facts(&h), false));
    assert!(has_day_actual(&facts(&h), true));
}

#[test]
fn funds_abroad_bear_a_note() {
    let h = Holding {
        code: "012349",
        name: "天弘恒生科技ETF联接(QDII)C",
        fund_type: "003",
        shares: 1.0,
        cost: 1.0,
        amount: 0.0,
        profit: 0.0,
        nav: 1.0,
        prev_nav: 1.0,
        nav_date: "2026-09-02",
    };
    let open = plan_position(&facts(&h), day(), 600);
    assert_eq!(open.delay_note, Some("T+1·海外交易中"));
    assert!(open.suppress);
    let closed = plan_position(&facts(&h), day(), 1000);
    assert_eq!(closed.delay_note, Some("T+1·海外净值"));
    assert!(!closed.suppress);
    assert_eq!(closed.benchmark, "hkHSTECH");
    assert_eq!(closed.follows.as_deref(), Some("hkHSTECH"));
    assert_eq!(delay_note("001", true), None);
    assert!(detail_suppresses(true, "003", true));
    assert!(!detail_suppresses(false, "003", true));
}

#[test]
fn words_of_the_pages() {
    assert_eq!(valuation_source(true), "local");
    assert_eq!(valuation_source(false), "none");
    assert!(overview_reason("002").starts_with("模型不适用（"));
    assert!(detail_reason("002").ends_with("不纳入本地自算估值"));
    assert_eq!(confidence(false, true, true), ("none", false));
    assert_eq!(confidence(true, true, true), ("high", true));
    assert_eq!(confidence(true, false, true), ("medium", true));
    assert_eq!(confidence(true, false, false), ("low", false));
    assert!(value_is_estimate("intraday", true));
    assert!(!value_is_estimate("closed", true));
    assert_eq!(index_route("hkHSI"), (true, "hkHSI".to_string()));
    assert_eq!(index_route("sh000300"), (false, "000300".to_string()));
}

#[test]
fn positions_are_ordered_and_picked() {
    assert_eq!(by_worth(&vec![1, 3, 3, 2]), vec![1, 2, 3, 0]);
    assert_eq!(best_and_worst(&vec![1, 3, 3, 1]), Some((1, 3)));
    assert_eq!(best_and_worst(&Vec::new()), None);
    let platforms: Vec<String> = ["a", "b", "a"].iter().map(|s| s.to_string()).collect();
    assert_eq!(of_platform(&platforms, &Some("a".to_string())), vec![0, 2]);
    assert_eq!(of_platform(&platforms, &None), vec![0, 1, 2]);
}

#[test]
fn positions_are_grouped() {
    let platforms: Vec<String> = ["alipay", "x", "alipay"].iter().map(|s| s.to_string()).collect();
    let groups = by_platform(&platforms);
    assert_eq!(groups.len(), 2);
    assert_eq!(groups[0].label, ("alipay".to_string(), "支付宝".to_string()));
    assert_eq!(groups[0].members, vec![0, 2]);
    let types: Vec<String> = ["002", "004"].iter().map(|s| s.to_string()).collect();
    assert_eq!(by_asset(&types).len(), 2);
}
