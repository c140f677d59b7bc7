use fundlens::imports::{
    complete_codes, image_data_url, mime_type, names_to_look_up, normal_type, normalize_txns,
    note_on_holdings, note_on_txns, ScannedRow, TxnIn, NOT_READY,
};
use fundlens::replay::{extract_body, of_table};

fn row(code: &str, name: &str) -> ScannedRow {
    ScannedRow { code: code.to_string(), name: name.to_string() }
}

#[test]
fn names_are_looked_up_once() {
    let rows = vec![row("甲", "甲"), row("110011", "乙"), row("甲", "甲"), row("", "")];
    assert_eq!(names_to_look_up(&rows, false), vec!["甲".to_string(), String::new()]);
    assert_eq!(names_to_look_up(&rows, true), vec!["甲".to_string()]);
    let found = vec![("甲".to_string(), Some("000001".to_string()))];
    let done = complete_codes(&rows, &found, true);
    assert_eq!(done[0], ("000001".to_string(), true));
    assert_eq!(done[1], ("110011".to_string(), true));
    assert_eq!(done[3], (String::new(), false));
    let none = complete_codes(&rows, &vec![("甲".to_string(), None)], false);
    assert_eq!(none[0], ("甲".to_string(), false));
}

#[test]
fn notes_tell_what_was_read() {
    assert_eq!(note_on_holdings(false, 3, 2, 2), NOT_READY);
    assert!(note_on_holdings(true, 3, 0, 0).starts_with("OCR 已识别 3 行文本"));
    assert!(note_on_holdings(true, 30, 12, 11).contains("识别 12 条持仓，已写入 11 只基金"));
    assert!(note_on_holdings(true, 0, 0, 0).contains("识别 0 条持仓"));
    assert_eq!(note_on_txns(false, 0, 0), NOT_READY);
    assert!(note_on_txns(true, 7, 0).contains("未匹配到交易记录"));
    assert!(note_on_txns(true, 7, 5).contains("识别 5 条交易记录"));
}

fn txn(txn_type: &str) -> TxnIn {
    TxnIn {
        fund_code: " 000002 ".to_string(),
        fund_name: Some(" 名 ".to_string()),
        txn_type: txn_type.to_string(),
        txn_date: " 2026-01-01".to_string(),
        txn_time: None,
        note: Some("注 ".to_string()),
    }
}

#[test]
fn transactions_take_their_normal_form() {
    let v = match normalize_txns(&vec![txn(" BUY "), txn("赎回"), txn("现金分红")], "alipay") {
        Ok(v) => v,
        Err(m) => panic!("{m}"),
    };
    assert_eq!(v.iter().map(|t| t.txn_type).collect::<Vec<_>>(), vec!["buy", "sell", "dividend"]);
    assert_eq!(v[0].fund_code, "000002");
    assert_eq!(v[0].fund_name.as_deref(), Some("名"));
    assert_eq!(v[0].txn_date, "2026-01-01");
    assert_eq!(v[0].txn_time, "");
    assert_eq!(v[0].note.as_deref(), Some("注"));
    assert_eq!(v[0].platform, "alipay");
    match normalize_txns(&vec![txn("buy"), txn(" Gift"), txn("x")], "") {
        Err(m) => assert_eq!(m, "不支持的交易类型：gift"),
        Ok(_) => panic!("an unknown type was taken"),
    }
    assert_eq!(normal_type("申购"), Some("buy"));
    assert_eq!(normal_type("BUY"), None);
}

#[test]
fn pictures_become_addresses() {
    assert_eq!(mime_type("/a.b/photo.JPG"), "image/jpeg");
    assert_eq!(mime_type("x.webp"), "image/webp");
    assert_eq!(mime_type("x.gif"), "image/gif");
    assert_eq!(mime_type("x.bmp"), "image/bmp");
    assert_eq!(mime_type("png"), "image/png");
    assert_eq!(mime_type("x.tiff"), "image/png");
    assert_eq!(image_data_url("x.png", b"Man"), "data:image/png;base64,TWFu");
    assert_eq!(image_data_url("x.png", b"Ma"), "data:image/png;base64,TWE=");
    assert_eq!(image_data_url("x.png", &[0xff]), "data:image/png;base64,/w==");
    assert_eq!(image_data_url("x.png", &[]), "data:image/png;base64,");
}

#[test]
fn snapshots_are_unwrapped() {
    assert_eq!(extract_body("  [{\"body\":\"a\\nb\"}]"), "a\nb");
    assert_eq!(extract_body("{\"body\":\"x\"}"), "{\"body\":\"x\"}");
    assert_eq!(extract_body("[1]"), "[1]");
    assert_eq!(extract_body("[broken"), "[broken");
    let tables: Vec<String> = ["funds", "transactions"].iter().map(|s| s.to_string()).collect();
    assert_eq!(of_table(&tables, &Some("transactions".to_string())), vec![1]);
    assert_eq!(of_table(&tables, &None), vec![0, 1]);
}
