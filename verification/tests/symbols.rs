use fundlens::symbols::{
    benchmark_symbols, hk_symbols, platform_name, quote_key, quote_symbols, to_quote_symbol,
    FundKind,
};

#[test]
fn to_quote_symbol_maps_exchanges_correctly() {
    assert_eq!(to_quote_symbol("00700"), "hk00700");
    assert_eq!(to_quote_symbol("600519"), "sh600519");
    assert_eq!(to_quote_symbol("000568"), "sz000568");
    assert_eq!(to_quote_symbol("300750"), "sz300750");
    assert_eq!(to_quote_symbol("835305"), "nq835305");
    assert_eq!(to_quote_symbol("430418"), "nq430418");
    assert_eq!(to_quote_symbol("AAPL"), "usAAPL");
    assert_eq!(to_quote_symbol("tsla"), "usTSLA");
    assert_eq!(to_quote_symbol(""), "");
}

#[test]
fn platforms_have_names() {
    assert_eq!(platform_name("alipay"), "支付宝");
    assert_eq!(platform_name("jd_finance"), "京东金融");
    assert_eq!(platform_name("tencent_licai"), "腾讯理财通");
    assert_eq!(platform_name("x"), "x");
}

#[test]
fn symbols_are_asked_for_once() {
    let kinds: Vec<FundKind> = [("008", "华夏沪深300ETF联接A"), ("001", "某混合"), ("", "某恒生指数ETF")]
        .iter()
        .map(|k| FundKind { fund_type: k.0.to_string(), name: k.1.to_string() })
        .collect();
    let bench = benchmark_symbols(&kinds);
    assert_eq!(bench, vec!["sh000300".to_string(), "hkHSI".to_string()]);
    let codes: Vec<String> = ["600519", "00700", "600519"].iter().map(|c| c.to_string()).collect();
    assert_eq!(
        quote_symbols(&bench, &codes),
        vec!["sh000300", "hkHSI", "sh600519", "hk00700"]
    );
    assert_eq!(hk_symbols(&bench), vec!["hkHSI".to_string()]);
    assert_eq!(quote_key("sh600519"), "600519");
}
