use fundlens::lookthrough::{
    hidden_warning, industries_l1, industries_l2, is_penetrated, look_through, report_periods,
    shows_contribution, slice_order, LtFundInput, LtHolding, Slice, StockPlan, StockProfileRow,
};
use fundlens::sector::{
    market_of, sector_l1_of, SECTOR_OVERSEAS, SECTOR_UNCLASSIFIED, SECTOR_UNPENETRATED,
};

struct Holding {
    code: String,
    name: String,
    weight: f64,
}

struct Fund {
    code: String,
    name: String,
    market_value: f64,
    money: bool,
    real: bool,
    period: Option<String>,
    holdings: Vec<Holding>,
}

fn h(code: &str, name: &str, weight: f64) -> Holding {
    Holding { code: code.to_string(), name: name.to_string(), weight }
}

fn fund(code: &str, name: &str, market_value: f64, holdings: Vec<Holding>) -> Fund {
    Fund {
        code: code.to_string(),
        name: name.to_string(),
        market_value,
        money: false,
        real: true,
        period: Some("2026Q2".to_string()),
        holdings,
    }
}

fn profiles_for(entries: &[(&str, &str)]) -> Vec<StockProfileRow> {
    entries
        .iter()
        .map(|(code, industry)| StockProfileRow {
            stock_code: code.to_string(),
            name: String::new(),
            industry_em: industry.to_string(),
            sector_l1: sector_l1_of(industry).to_string(),
            market: "A".to_string(),
        })
        .collect()
}

struct Stock {
    code: String,
    fund_count: usize,
    market_value: f64,
    pct: f64,
    hidden: bool,
    day: Option<f64>,
}

struct Sector {
    key: String,
    parent: Option<String>,
    is_virtual: bool,
    market_value: f64,
    pct: f64,
    day: Option<f64>,
}

struct Report {
    stocks: Vec<Stock>,
    l1: Vec<Sector>,
    l2: Vec<Sector>,
    unpenetrated: f64,
    coverage: f64,
    periods: Vec<String>,
    cr5: f64,
    cr10: f64,
}

fn sized(slices: Vec<Slice>, stocks: &[Stock], unpenetrated: f64, total: f64, quoted: bool) -> Vec<Sector> {
    let sizes: Vec<f64> = slices
        .iter()
        .map(|s| {
            let own: f64 = s.members.iter().map(|i| stocks[*i].market_value).sum();
            own + if s.has_unpenetrated { unpenetrated } else { 0.0 }
        })
        .collect();
    let worth: Vec<i64> = sizes.iter().map(|v| v.to_bits() as i64).collect();
    slice_order(&slices, &worth)
        .into_iter()
        .map(|i| {
            let s = &slices[i];
            let day: f64 = s.members.iter().filter_map(|k| stocks[*k].day).sum();
            Sector {
                key: s.key.clone(),
                parent: s.parent.clone(),
                is_virtual: s.is_virtual,
                market_value: sizes[i],
                pct: sizes[i] / total,
                day: if shows_contribution(s, quoted) { Some(day) } else { None },
            }
        })
        .collect()
}

fn aggregate(funds: &[Fund], profiles: Vec<StockProfileRow>, quotes: &[(&str, f64)]) -> Report {
    let inputs: Vec<LtFundInput> = funds
        .iter()
        .map(|f| LtFundInput {
            code: f.code.clone(),
            name: f.name.clone(),
            is_money_or_wealth: f.money,
            has_real_code: f.real,
            report_period: f.period.clone(),
            holdings: f
                .holdings
                .iter()
                .map(|h| LtHolding { stock_code: h.code.clone(), stock_name: h.name.clone() })
                .collect(),
        })
        .collect();
    let total: f64 = funds.iter().map(|f| f.market_value).sum();
    let mut unpenetrated = 0.0;
    let mut covered = 0.0;
    for (f, input) in funds.iter().zip(&inputs) {
        let mut share: f64 = f.holdings.iter().map(|h| h.weight).sum();
        share = share.clamp(0.0, 1.0);
        if !is_penetrated(input) {
            share = 0.0;
        }
        unpenetrated += f.market_value * (1.0 - share);
        covered += f.market_value * share;
    }
    let plans: Vec<StockPlan> = look_through(&inputs, &profiles);
    let labels: Vec<(String, String)> =
        plans.iter().map(|p| (p.sector_l1.clone(), p.industry_l2.clone())).collect();
    let stocks: Vec<Stock> = plans
        .iter()
        .map(|p| {
            let market_value: f64 = p
                .parts
                .iter()
                .map(|(i, j)| funds[*i].market_value * funds[*i].holdings[*j].weight)
                .sum();
            let pct = market_value / total;
            Stock {
                code: p.stock_code.clone(),
                fund_count: p.fund_count,
                market_value,
                pct,
                hidden: hidden_warning(p.fund_count, pct > 0.05),
                day: quotes
                    .iter()
                    .find(|q| q.0 == p.stock_code)
                    .map(|q| market_value * q.1),
            }
        })
        .collect();
    let quoted = !quotes.is_empty();
    let l1 = sized(industries_l1(&labels), &stocks, unpenetrated, total, quoted);
    let l2 = sized(industries_l2(&labels), &stocks, unpenetrated, total, quoted);
    let mut shares: Vec<f64> = stocks.iter().map(|s| s.pct).collect();
    shares.sort_by(|a, b| b.partial_cmp(a).unwrap());
    Report {
        cr5: shares.iter().take(5).sum(),
        cr10: shares.iter().take(10).sum(),
        stocks,
        l1,
        l2,
        unpenetrated,
        coverage: covered / total,
        periods: report_periods(&inputs),
    }
}

#[test]
fn invariant_l1_weights_sum_to_100pct() {
    let funds = vec![
        fund("110011", "易方达", 100_000.0, vec![h("600519", "贵州茅台", 0.06)]),
        fund("161725", "招商中证白酒", 50_000.0, vec![h("000858", "五粮液", 0.10)]),
    ];
    let r = aggregate(&funds, profiles_for(&[("600519", "酿酒行业"), ("000858", "酿酒行业")]), &[]);
    let sum: f64 = r.l1.iter().map(|s| s.pct).sum();
    assert!((sum - 1.0).abs() < 1e-6);
    let unpen = r.l1.iter().find(|s| s.key == SECTOR_UNPENETRATED).unwrap();
    assert!((unpen.pct - (139_000.0 / 150_000.0)).abs() < 1e-9);
}

#[test]
fn invariant_l2_sums_match_l1() {
    let funds = vec![fund(
        "110011",
        "易方达",
        100_000.0,
        vec![h("600519", "贵州茅台", 0.10), h("300750", "宁德时代", 0.08)],
    )];
    let r = aggregate(&funds, profiles_for(&[("600519", "酿酒行业"), ("300750", "电池")]), &[]);
    for l1 in &r.l1 {
        let l2_sum: f64 = r
            .l2
            .iter()
            .filter(|s| s.parent.as_deref() == Some(l1.key.as_str()))
            .map(|s| s.market_value)
            .sum();
        assert!((l2_sum - l1.market_value).abs() < 1e-6);
    }
}

#[test]
fn invariant_stock_mv_not_amplified() {
    let funds = vec![
        fund("110011", "A", 100_000.0, vec![h("600519", "贵州茅台", 0.10)]),
        fund("161725", "B", 80_000.0, vec![h("600519", "贵州茅台", 0.50)]),
        fund("005827", "C", 60_000.0, vec![h("600519", "贵州茅台", 0.90)]),
    ];
    let r = aggregate(&funds, profiles_for(&[("600519", "酿酒行业")]), &[]);
    let s = r.stocks.iter().find(|s| s.code == "600519").unwrap();
    assert!((s.market_value - 104_000.0).abs() < 1e-6);
    assert_eq!(s.fund_count, 3);
    assert!((s.pct - 104_000.0 / 240_000.0).abs() < 1e-9);
}

#[test]
fn invariant_money_funds_never_emit_stock_rows() {
    let mut money = fund("000198", "天弘余额宝", 20_000.0, vec![]);
    money.money = true;
    money.period = None;
    let mut amount = fund("XX占位", "金额兜底持仓", 5_000.0, vec![h("600519", "贵州茅台", 0.9)]);
    amount.real = false;
    amount.period = None;
    let funds = vec![
        money,
        amount,
        fund("110011", "易方达", 75_000.0, vec![h("600519", "贵州茅台", 0.08)]),
    ];
    let r = aggregate(&funds, profiles_for(&[("600519", "酿酒行业")]), &[]);
    assert_eq!(r.stocks.len(), 1);
    assert_eq!(r.stocks[0].fund_count, 1);
    assert!((r.unpenetrated - 94_000.0).abs() < 1e-6);
    assert_eq!(r.periods.iter().filter(|p| p.starts_with("无披露")).count(), 1);
}

#[test]
fn invariant_coverage_clamped_when_weights_exceed_one() {
    let funds = vec![fund(
        "110011",
        "易方达",
        100_000.0,
        vec![h("600519", "贵州茅台", 0.7), h("000858", "五粮液", 0.6)],
    )];
    let r = aggregate(&funds, profiles_for(&[("600519", "酿酒行业"), ("000858", "酿酒行业")]), &[]);
    assert!((r.coverage - 1.0).abs() < 1e-9);
    assert!(r.unpenetrated >= -1e-9);
    assert!((r.unpenetrated - 0.0).abs() < 1e-9);
}

#[test]
fn invariant_day_contribution_matches_manual_sum() {
    let funds = vec![fund(
        "110011",
        "易方达",
        100_000.0,
        vec![h("600519", "贵州茅台", 0.10), h("300750", "宁德时代", 0.08)],
    )];
    let r = aggregate(
        &funds,
        profiles_for(&[("600519", "酿酒行业"), ("300750", "电池")]),
        &[("600519", 0.02), ("300750", -0.01)],
    );
    assert!((r.stocks[0].day.unwrap() + r.stocks[1].day.unwrap() - 120.0).abs() < 1e-6);
    let l1_total: f64 = r.l1.iter().filter_map(|s| s.day).sum();
    assert!((l1_total - 120.0).abs() < 1e-6);
}

#[test]
fn overseas_stocks_bucketed_and_classified() {
    let funds = vec![fund(
        "014424",
        "QDII",
        100_000.0,
        vec![h("00700", "腾讯控股", 0.09), h("AAPL", "苹果", 0.05)],
    )];
    let r = aggregate(&funds, Vec::new(), &[]);
    let overseas = r.l1.iter().find(|s| s.key == SECTOR_OVERSEAS).unwrap();
    assert!((overseas.market_value - 14_000.0).abs() < 1e-6);
    assert!(overseas.is_virtual);
    let hk = r.l2.iter().find(|s| s.key == "港股").unwrap();
    let us = r.l2.iter().find(|s| s.key == "美股").unwrap();
    assert!((hk.market_value - 9_000.0).abs() < 1e-6);
    assert!((us.market_value - 5_000.0).abs() < 1e-6);
}

#[test]
fn hidden_warning_threshold_as_decided() {
    let funds = vec![
        fund("A1", "甲", 100_000.0, vec![h("600519", "贵州茅台", 0.09)]),
        fund("A2", "乙", 100_000.0, vec![h("600519", "贵州茅台", 0.09)]),
        fund("A3", "丙", 100_000.0, vec![h("600519", "贵州茅台", 0.09)]),
        fund("B1", "丁", 100_000.0, vec![h("000858", "五粮液", 0.15)]),
        fund("B2", "戊", 100_000.0, vec![h("000858", "五粮液", 0.15)]),
    ];
    let r = aggregate(&funds, profiles_for(&[("600519", "酿酒行业"), ("000858", "酿酒行业")]), &[]);
    assert!(r.stocks.iter().find(|s| s.code == "600519").unwrap().hidden);
    assert!(!r.stocks.iter().find(|s| s.code == "000858").unwrap().hidden);
}

#[test]
fn a_fund_counts_once() {
    let funds = vec![
        fund("A1", "甲", 100_000.0, vec![h("600519", "贵州茅台", 0.09), h("600519", "贵州茅台", 0.09)]),
        fund("A2", "乙", 100_000.0, vec![h("600519", "贵州茅台", 0.09)]),
        fund("A1", "甲", 100_000.0, vec![h("600519", "贵州茅台", 0.09)]),
    ];
    let r = aggregate(&funds, Vec::new(), &[]);
    assert_eq!(r.stocks[0].fund_count, 2);
    assert!(!r.stocks[0].hidden);
}

#[test]
fn without_quotes_no_slice_contributes() {
    let funds = vec![fund(
        "110011",
        "易方达",
        100_000.0,
        vec![h("600519", "贵州茅台", 0.06), h("00700", "腾讯控股", 0.05)],
    )];
    let profiles = || profiles_for(&[("600519", "酿酒行业")]);
    let r = aggregate(&funds, profiles(), &[]);
    assert!(r.l1.iter().any(|s| s.key == "主要消费"));
    assert!(r.l1.iter().chain(&r.l2).all(|s| s.day.is_none()));
    let r = aggregate(&funds, profiles(), &[("600519", 0.01), ("00700", 0.01)]);
    let shown: Vec<&str> =
        r.l1.iter().chain(&r.l2).filter(|s| s.day.is_some()).map(|s| s.key.as_str()).collect();
    assert_eq!(shown, vec!["主要消费", "酿酒行业"]);
    assert!(r.l2.iter().any(|s| s.key == "港股" && s.is_virtual));
}

#[test]
fn specific_words_go_first() {
    assert_eq!(sector_l1_of("酒店餐饮"), "可选消费");
    assert_eq!(sector_l1_of("白酒"), "主要消费");
    assert_eq!(sector_l1_of("农药化肥"), "周期资源");
}

#[test]
fn cr5_cr10_concentration() {
    let mut holdings = Vec::new();
    for i in 0..12 {
        holdings.push(h(&format!("60000{}", i), &format!("股{}", i), 0.05));
    }
    let r = aggregate(&vec![fund("110011", "易方达", 100_000.0, holdings)], Vec::new(), &[]);
    assert!((r.cr5 - 0.25).abs() < 1e-9);
    assert!((r.cr10 - 0.50).abs() < 1e-9);
}

#[test]
fn sector_mapping_covers_common_industries() {
    assert_eq!(sector_l1_of("酿酒行业"), "主要消费");
    assert_eq!(sector_l1_of("半导体"), "科技TMT");
    assert_eq!(sector_l1_of("光伏设备"), "高端制造");
    assert_eq!(sector_l1_of("电力设备"), "高端制造");
    assert_eq!(sector_l1_of("电力行业"), "基建公用·交运");
    assert_eq!(sector_l1_of("农药"), "周期资源");
    assert_eq!(sector_l1_of("化学制药"), "医药医疗");
    assert_eq!(sector_l1_of("航空机场"), "基建公用·交运");
    assert_eq!(sector_l1_of("航天航空"), "国防军工");
    assert_eq!(sector_l1_of("房地产开发"), "金融地产");
    assert_eq!(sector_l1_of("某未知行业"), SECTOR_UNCLASSIFIED);
    assert_eq!(sector_l1_of(""), SECTOR_UNCLASSIFIED);
}

#[test]
fn markets_of_codes() {
    assert_eq!(market_of("600519"), "A");
    assert_eq!(market_of("00700"), "HK");
    assert_eq!(market_of("AAPL"), "US");
}

#[test]
fn the_rest_comes_last_and_periods_by_number() {
    let mut other = fund("A3", "丙", 1_000.0, vec![h("600519", "贵州茅台", 0.5)]);
    other.period = Some("2026Q1".to_string());
    let funds = vec![
        other,
        fund("A1", "甲", 1_000.0, vec![h("600519", "贵州茅台", 0.1)]),
        fund("A2", "乙", 1_000.0, vec![h("600519", "贵州茅台", 0.1)]),
    ];
    let r = aggregate(&funds, profiles_for(&[("600519", "酿酒行业")]), &[]);
    assert_eq!(r.l1.last().unwrap().key, SECTOR_UNPENETRATED);
    assert_eq!(r.periods, vec!["2026Q2×2".to_string(), "2026Q1×1".to_string()]);
}
