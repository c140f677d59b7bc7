use fundlens::grid::{
    aggregate_by_code, candidates, check_enable, check_settings, grid_enable_fund, is_money_fund, FundMeta, HeldRow,
};
use fundlens::signals::{
    after_signal, badge, budget_order, change_source, changes_by_day, choose_regime, found_regime,
    gate, grid_get_settings, is_usable_rebuy, lot_step, plan_set_regime, signal_symbols, Gate, LotStep, RebuyAction,
    Regime, Sign, SignalKey,
};
use fundlens::symbols::FundKind;

fn held(code: &str, platform: &str) -> HeldRow {
    HeldRow {
        code: code.to_string(),
        name: format!("持{code}"),
        fund_type: "001".to_string(),
        platform: platform.to_string(),
    }
}

fn texts(list: &[&str]) -> Vec<String> {
    list.iter().map(|s| s.to_string()).collect()
}

#[test]
fn positions_are_taken_together() {
    let rows = vec![held("1", "alipay"), held("2", ""), held("1", "jd"), held("1", "alipay")];
    let funds = vec![FundMeta {
        code: "1".to_string(),
        name: "存1".to_string(),
        fund_type: "008".to_string(),
    }];
    let aggs = aggregate_by_code(&rows, &funds);
    assert_eq!(aggs.len(), 2);
    assert_eq!(aggs[0].members, vec![0, 2, 3]);
    assert_eq!(aggs[0].platforms, texts(&["alipay", "jd"]));
    assert_eq!((aggs[0].name.as_str(), aggs[0].fund_type.as_str()), ("存1", "008"));
    assert_eq!(aggs[0].stored, Some(0));
    assert_eq!((aggs[1].name.as_str(), aggs[1].stored), ("持2", None));
    assert!(aggs[1].platforms.is_empty());
}

#[test]
fn money_funds_take_no_part() {
    assert!(is_money_fund("货币型", "000001"));
    assert!(is_money_fund("Money Market", "000001"));
    assert!(is_money_fund("002", "000198"));
    assert!(is_money_fund("005", "110011"));
    assert!(!is_money_fund("", "005123"));
    assert!(!is_money_fund("007", "005827"));
    assert!(!is_money_fund("001", "110011"));
    let rows = vec![held("005827", "a"), held("000198", "a"), held("110012", "a"), held("110013", "a")];
    let money = FundMeta {
        code: "000198".to_string(),
        name: "余额".to_string(),
        fund_type: "002".to_string(),
    };
    let aggs = aggregate_by_code(&rows, &vec![money]);
    let c = candidates(&aggs, &texts(&["110012"]), &vec![true; 4], &vec![1, 9, 9, 5]);
    assert_eq!(c, vec![3, 0]);
    let stored = Some(("某货".to_string(), "货币".to_string(), "货币".to_string()));
    assert_eq!(
        check_enable("000001", true, &stored),
        Err("某货（000001）是货币/理财基金，策略信号不适用".to_string())
    );
    assert!(check_enable("000001", false, &stored).is_ok());
    assert!(check_enable("005001", true, &None).is_ok());
    let raw = Some(("现金宝".to_string(), "Money Market".to_string()));
    assert_eq!(
        grid_enable_fund("000001", true, &raw),
        Err("现金宝（000001）是货币/理财基金，策略信号不适用".to_string())
    );
    assert!(grid_enable_fund("000001", false, &raw).is_ok());
    let stock = Some(("成长".to_string(), "股票型".to_string()));
    assert!(grid_enable_fund("000001", true, &stock).is_ok());
    let mixed = Some(("蓝筹".to_string(), "007".to_string()));
    assert!(grid_enable_fund("005827", true, &mixed).is_ok());
    let money = Some(("余额".to_string(), "002".to_string()));
    assert!(grid_enable_fund("000198", true, &money).is_err());
    assert!(check_settings(false, false).is_ok());
    assert!(check_settings(true, true).unwrap_err().starts_with("vol_sensitivity"));
    assert!(check_settings(false, true).unwrap_err().starts_with("卖出费率"));
}

#[test]
fn the_market_has_a_state() {
    let s = |t: &str| Some(t.to_string());
    assert_eq!(choose_regime(&s("bear"), &s("0")), Regime::Bear);
    assert_eq!(choose_regime(&s("bull"), &s("0")), Regime::Neutral);
    assert_eq!(choose_regime(&None, &None), Regime::Auto);
    assert_eq!(found_regime(21, true, "连跌"), "bear");
    assert_eq!(found_regime(20, true, "连跌"), "neutral");
    assert_eq!(found_regime(30, true, "震荡"), "neutral");
    let shown = grid_get_settings(&s("bear"), &s("0"));
    assert_eq!((shown.regime, shown.auto, shown.manual), ("bear", false, true));
    let shown = grid_get_settings(&s("bull"), &None);
    assert_eq!((shown.regime, shown.auto, shown.manual), ("neutral", true, false));
    let (r, w) = plan_set_regime("bull", Some(false), None);
    assert_eq!(r, "neutral");
    assert_eq!(w, vec![("regime_manual", None), ("regime_auto", Some("0"))]);
    let (r, w) = plan_set_regime("bear", None, Some(true));
    assert_eq!((r, w), ("bear", vec![("regime_manual", Some("bear"))]));
}

#[test]
fn changes_are_grouped_by_day() {
    let groups = changes_by_day(&texts(&["2026-01-02", "2026-01-01", "2026-01-02"]));
    assert_eq!(groups.len(), 2);
    assert_eq!(groups[0].label.0, "2026-01-01");
    assert_eq!(groups[1].members, vec![0, 2]);
}

#[test]
fn signals_get_their_input() {
    assert_eq!(lot_step("sell", Sign::Positive), LotStep::Take);
    assert_eq!(lot_step("buy", Sign::Positive), LotStep::Add);
    assert_eq!(lot_step("buy", Sign::Negative), LotStep::Take);
    assert_eq!(lot_step("sell", Sign::Zero), LotStep::Skip);
    assert_eq!(change_source("intraday", true), "estimation");
    assert_eq!(change_source("intraday", false), "nav");
    assert_eq!(change_source("closed", true), "nav");
    assert!(is_usable_rebuy(true, true) && !is_usable_rebuy(true, false));
    let kinds = vec![FundKind { fund_type: "001".to_string(), name: "某".to_string() }];
    assert_eq!(
        signal_symbols(&kinds, &texts(&["600519", "AAPL", "600519"])),
        texts(&["sh000300", "600519"])
    );
}

#[test]
fn orders_follow_signals() {
    assert!(matches!(after_signal(true, Some(7), true, "x"), RebuyAction::Triggered(7)));
    assert!(matches!(after_signal(true, None, true, "x"), RebuyAction::Nothing));
    match after_signal(false, None, true, "止盈") {
        RebuyAction::Place(l) => assert_eq!(l, "延迟回补(止盈)"),
        _ => panic!("no order"),
    }
    match after_signal(false, None, true, "延迟回补A") {
        RebuyAction::Place(l) => assert_eq!(l, "延迟回补A"),
        _ => panic!("no order"),
    }
    assert!(matches!(after_signal(false, Some(1), false, "x"), RebuyAction::Nothing));
}

#[test]
fn purchases_share_a_budget() {
    let keys: Vec<SignalKey> = [(2, "b"), (1, "z"), (2, "a")]
        .iter()
        .map(|k| SignalKey { priority: k.0, code: k.1.to_string() })
        .collect();
    assert_eq!(budget_order(&keys), vec![1, 2, 0]);
    assert_eq!(gate("sell", true, true, true), Gate::Aside);
    assert_eq!(gate("buy", false, true, true), Gate::Aside);
    assert_eq!(gate("buy", true, false, false), Gate::Pass);
    assert_eq!(gate("buy", true, true, true), Gate::Shrink);
    assert_eq!(gate("buy", true, true, false), Gate::Defer);
}

#[test]
fn badges_tell_of_signals() {
    let b = badge("1".to_string(), None, "buy".to_string(), 1);
    assert!(b.alert);
    assert!(!badge("1".to_string(), None, "buy".to_string(), 0).alert);
}
