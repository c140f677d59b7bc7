use fundlens::ledger::{
    cost_effect, effect, find_twin, is_held, is_marked, replaced_by_batch, replaced_openings,
    replay_groups, replay_order, CostEffect, Effect, LedgerEntry, LedgerRow, Shares, OPENING_DATE,
};
use fundlens::positions::{choose_shares, Source};
use fundlens::store::{
    check_cost_price, check_delete_account, choose_platform, db_file_path, db_path, db_ready,
    fund_display_name, fund_name, resolve_position_platform, update_fund_nav, DbState, PrevFrom,
};

#[derive(Clone)]
struct Txn {
    id: i64,
    txn_type: String,
    code: Option<String>,
    platform: String,
    shares: Option<f64>,
    amount: f64,
    date: String,
    source: String,
    source_ref: Option<String>,
}

struct Held {
    code: String,
    platform: String,
    shares: f64,
    cost: f64,
    amount: f64,
}

fn known(shares: Option<f64>) -> Shares {
    match shares {
        None => Shares::Missing,
        Some(s) if s > 0.0 => Shares::Positive,
        Some(_) => Shares::NotPositive,
    }
}

/// A ledger in memory.
struct Book {
    txns: Vec<Txn>,
    next_id: i64,
}

impl Book {
    fn new() -> Self {
        Book { txns: Vec::new(), next_id: 1 }
    }

    fn entry(t: &Txn) -> LedgerEntry {
        LedgerEntry {
            fund_code: t.code.clone(),
            platform: t.platform.clone(),
            txn_type: t.txn_type.clone(),
            date: t.date.clone(),
            time: String::new(),
            source: t.source.clone(),
            source_ref: t.source_ref.clone(),
        }
    }

    fn entries(&self) -> Vec<LedgerEntry> {
        self.txns.iter().map(Book::entry).collect()
    }

    fn remove(&mut self, places: &[usize]) {
        let mut i = 0;
        self.txns.retain(|_| {
            i += 1;
            !places.contains(&(i - 1))
        });
    }

    fn add(&mut self, mut t: Txn) {
        t.id = self.next_id;
        self.next_id += 1;
        self.txns.push(t);
    }

    fn txn(&mut self, txn_type: &str, code: Option<&str>, shares: Option<f64>, amount: f64, date: &str, platform: &str) {
        self.add(Txn {
            id: 0,
            txn_type: txn_type.to_string(),
            code: code.map(|c| c.to_string()),
            platform: platform.to_string(),
            shares,
            amount,
            date: date.to_string(),
            source: "manual_txn".to_string(),
            source_ref: None,
        });
    }

    fn set_baseline(&mut self, code: &str, shares: f64, cost: f64, amount: f64, platform: &str, source: &str) {
        let gone = replaced_openings(&self.entries(), code, platform);
        self.remove(&gone);
        let (s, a) = if shares > 0.0 { (shares, cost) } else { (0.0, amount) };
        self.add(Txn {
            id: 0,
            txn_type: "buy".to_string(),
            code: Some(code.to_string()),
            platform: platform.to_string(),
            shares: Some(s),
            amount: a,
            date: OPENING_DATE.to_string(),
            source: source.to_string(),
            source_ref: None,
        });
    }

    fn import(&mut self, items: &[Txn], batch: Option<&str>) -> usize {
        if let Some(b) = batch {
            let gone = replaced_by_batch(&self.entries(), b);
            self.remove(&gone);
        }
        for it in items {
            let gone =
                replaced_openings(&self.entries(), it.code.as_deref().unwrap(), &it.platform);
            self.remove(&gone);
            let close: Vec<bool> =
                self.txns.iter().map(|t| (t.amount - it.amount).abs() < 0.005).collect();
            let mut new = it.clone();
            new.source = "import_txn".to_string();
            new.source_ref = batch.map(|b| b.to_string());
            match find_twin(&self.entries(), &close, &Book::entry(&new)) {
                Some(i) => self.txns[i].shares = it.shares,
                None => self.add(new),
            }
        }
        items.len()
    }

    fn holdings(&self) -> Vec<Held> {
        let rows: Vec<LedgerRow> = self
            .txns
            .iter()
            .map(|t| LedgerRow {
                id: t.id,
                fund_code: t.code.clone(),
                platform: t.platform.clone(),
                date: t.date.clone(),
            })
            .collect();
        let (kept, groups) = replay_groups(&rows);
        let mut out = Vec::new();
        for g in groups {
            let mut h = Held {
                code: g.label.0.clone(),
                platform: g.label.1.clone(),
                shares: 0.0,
                cost: 0.0,
                amount: 0.0,
            };
            for m in &g.members {
                let t = &self.txns[kept[*m]];
                let s = t.shares.unwrap_or(0.0);
                match effect(&t.txn_type, known(t.shares), h.shares > 0.0) {
                    Effect::Buy => {
                        h.shares += s;
                        h.cost += t.amount;
                    }
                    Effect::SetAmount => h.amount = t.amount,
                    Effect::Sell => {
                        h.cost -= s * (h.cost / h.shares);
                        h.shares -= s;
                        if h.shares <= 1e-9 {
                            h.shares = 0.0;
                            h.cost = 0.0;
                        }
                    }
                    Effect::Dividend => h.cost -= t.amount,
                    Effect::Reinvest => h.shares += s,
                    Effect::Nothing => {}
                }
            }
            if is_held(h.shares > 0.0, h.amount > 0.0) {
                out.push(h);
            }
        }
        out
    }
}

#[test]
fn account_and_txn_recompute() {
    let mut book = Book::new();
    book.set_baseline("000001", 100.0, 1000.0, 0.0, "alipay", "manual_set");
    let hs = book.holdings();
    assert_eq!(hs.len(), 1);
    assert_eq!(hs[0].shares, 100.0);
    assert!((hs[0].cost - 1000.0).abs() < 1e-6);
    book.txn("deposit", None, None, 5000.0, "2026-01-01", "");
    assert_eq!(book.holdings().len(), 1);
    book.txn("sell", Some("000001"), Some(40.0), 500.0, "2026-01-02", "alipay");
    let hs = book.holdings();
    assert_eq!(hs[0].shares, 60.0);
    assert!((hs[0].cost - 600.0).abs() < 1e-6);
}

fn import_txn(txn_type: &str, shares: Option<f64>, amount: f64, date: &str) -> Txn {
    Txn {
        id: 0,
        txn_type: txn_type.to_string(),
        code: Some("000002".to_string()),
        platform: String::new(),
        shares,
        amount,
        date: date.to_string(),
        source: String::new(),
        source_ref: None,
    }
}

#[test]
fn import_txn_incremental_and_dividend() {
    let mut book = Book::new();
    let buy = import_txn("buy", Some(100.0), 1000.0, "2026-01-01");
    assert_eq!(book.import(&[buy.clone()], Some("B1")), 1);
    let hs = book.holdings();
    assert_eq!(hs.len(), 1);
    assert_eq!(hs[0].shares, 100.0);
    assert!((hs[0].cost - 1000.0).abs() < 1e-6);

    book.import(&[buy.clone()], Some("B1"));
    let hs = book.holdings();
    assert_eq!(hs[0].shares, 100.0);
    assert!((hs[0].cost - 1000.0).abs() < 1e-6);

    let div = import_txn("dividend", None, 50.0, "2026-02-01");
    book.import(&[buy.clone(), div], Some("B1"));
    let hs = book.holdings();
    assert_eq!(hs[0].shares, 100.0);
    assert!((hs[0].cost - 950.0).abs() < 1e-6);

    let buy2 = import_txn("buy", Some(50.0), 600.0, "2026-03-01");
    book.import(&[buy2], Some("B2"));
    let hs = book.holdings();
    assert_eq!(hs[0].shares, 150.0);
    assert!((hs[0].cost - 1550.0).abs() < 1e-6);

    book.import(&[buy], Some("B1"));
    assert_eq!(book.txns.len(), 2);
}

#[test]
fn the_same_transaction_is_brought_up_to_date() {
    let mut book = Book::new();
    book.import(&[import_txn("buy", Some(100.0), 1000.0, "2026-01-01")], None);
    book.import(&[import_txn("buy", Some(99.0), 1000.001, "2026-01-01")], None);
    assert_eq!(book.txns.len(), 1);
    assert_eq!(book.holdings()[0].shares, 99.0);
    book.import(&[import_txn("buy", Some(1.0), 10.0, "2026-01-01")], None);
    assert_eq!(book.txns.len(), 2);
}

struct CostPoint {
    date: String,
    cost: f64,
    unit: f64,
    shares: f64,
}

fn cost_series(book: &Book, code: &str) -> Vec<CostPoint> {
    let rows: Vec<LedgerRow> = book
        .txns
        .iter()
        .map(|t| LedgerRow {
            id: t.id,
            fund_code: t.code.clone(),
            platform: t.platform.clone(),
            date: t.date.clone(),
        })
        .collect();
    let mut shares = 0.0;
    let mut basis = 0.0;
    let mut points = Vec::new();
    for i in replay_order(&rows) {
        let t = &book.txns[i];
        if t.code.as_deref() != Some(code) {
            continue;
        }
        let s = t.shares.unwrap_or(0.0);
        let (e, visible) = cost_effect(&t.txn_type, &t.date, known(t.shares), shares > 0.0);
        match e {
            CostEffect::Open => {
                shares = s;
                basis = t.amount;
            }
            CostEffect::SetCost => basis = t.amount,
            CostEffect::Same(Effect::Buy) => {
                shares += s;
                basis += t.amount;
            }
            CostEffect::Same(Effect::Sell) => {
                basis -= s * (basis / shares);
                shares -= s;
            }
            CostEffect::Same(Effect::Dividend) => basis -= t.amount,
            CostEffect::Same(Effect::Reinvest) => shares += s,
            CostEffect::Same(_) => {}
        }
        if visible {
            points.push(CostPoint {
                date: t.date.clone(),
                cost: basis,
                unit: if shares > 0.0 { basis / shares } else { 0.0 },
                shares,
            });
        }
    }
    points
}

#[test]
fn cost_series_and_markers() {
    let mut book = Book::new();
    book.set_baseline("000003", 100.0, 1000.0, 0.0, "alipay", "manual_set");
    book.txn("sell", Some("000003"), Some(20.0), 220.0, "2026-02-01", "");
    book.txn("dividend", Some("000003"), None, 30.0, "2026-03-01", "");
    let cost = cost_series(&book, "000003");
    assert_eq!(cost.len(), 2);
    assert_eq!(cost[0].date, "2026-02-01");
    assert!((cost[0].shares - 80.0).abs() < 1e-6);
    assert!((cost[0].cost - 800.0).abs() < 1e-6);
    assert!((cost[0].unit - 10.0).abs() < 1e-9);
    assert_eq!(cost[1].date, "2026-03-01");
    assert!((cost[1].cost - 770.0).abs() < 1e-6);
    assert!((cost[1].shares - 80.0).abs() < 1e-6);
    let markers: Vec<&Txn> =
        book.txns.iter().filter(|t| is_marked(&t.txn_type, &t.date)).collect();
    assert_eq!(markers.len(), 2);
    assert_eq!(markers[0].txn_type, "sell");
    assert_eq!(markers[1].txn_type, "dividend");
}

#[test]
fn multi_platform_same_fund() {
    let mut book = Book::new();
    book.set_baseline("003095", 100.0, 1000.0, 0.0, "alipay", "import");
    book.set_baseline("003095", 200.0, 2600.0, 0.0, "jd_finance", "import");
    let hs = book.holdings();
    assert_eq!(hs.len(), 2);
    let alipay = hs.iter().find(|h| h.platform == "alipay").unwrap();
    let jd = hs.iter().find(|h| h.platform == "jd_finance").unwrap();
    assert!((alipay.shares - 100.0).abs() < 1e-6);
    assert!((alipay.cost - 1000.0).abs() < 1e-6);
    assert!((jd.shares - 200.0).abs() < 1e-6);
    assert!((jd.cost - 2600.0).abs() < 1e-6);
    book.set_baseline("003095", 150.0, 1500.0, 0.0, "alipay", "import");
    let hs = book.holdings();
    assert_eq!(hs.len(), 2);
    let jd = hs.iter().find(|h| h.platform == "jd_finance").unwrap();
    assert!((jd.shares - 200.0).abs() < 1e-6);
    assert!(hs.iter().all(|h| h.code == "003095"));
}

fn imported(shares: f64, amount: f64, profit: f64, nav: f64) -> (f64, f64) {
    match choose_shares(shares > 0.0, amount > 0.0, nav > 0.0) {
        Source::Own => (shares, shares * nav),
        Source::Amount => (amount / nav, (amount - profit).max(0.0)),
        Source::Nothing => (0.0, 0.0),
    }
}

#[test]
fn import_positions_batch_converts_alipay_shares() {
    let mut book = Book::new();
    let (s, c) = imported(0.0, 10000.0, 500.0, 2.0);
    book.set_baseline("000004", s, c, 10000.0, "alipay", "import");
    let hs = book.holdings();
    assert_eq!(hs.len(), 1);
    assert!((hs[0].shares - 5000.0).abs() < 1e-6);
    assert!((hs[0].cost - 9500.0).abs() < 1e-6);

    let (s, c) = imported(100.0, 0.0, 0.0, 1.5);
    book.set_baseline("000005", s, c, 0.0, "jd_finance", "import");
    let hs = book.holdings();
    let jd = hs.iter().find(|h| h.code == "000005").unwrap();
    assert!((jd.shares - 100.0).abs() < 1e-6);
    assert!((jd.cost - 150.0).abs() < 1e-6);
}

fn platforms(list: &[&str]) -> Vec<String> {
    list.iter().map(|s| s.to_string()).collect()
}

#[test]
fn update_position_resolves_existing_platform() {
    let mut book = Book::new();
    book.set_baseline("000001", 100.0, 1000.0, 0.0, "alipay", "manual_set");
    let held: Vec<String> = book.holdings().into_iter().map(|h| h.platform).collect();
    let p = resolve_position_platform(&held).unwrap();
    assert_eq!(p, "alipay");
    book.set_baseline("000001", 200.0, 2000.0, 0.0, &p, "manual_set");
    let hs = book.holdings();
    assert!((hs[0].shares - 200.0).abs() < 1e-6);
    assert!(!hs.iter().any(|h| h.platform.is_empty()));
}

#[test]
fn update_position_resolves_existing_platform_without_phantom() {
    assert_eq!(choose_platform(&None, &platforms(&["alipay"])), "alipay");
    assert_eq!(choose_platform(&Some(String::new()), &platforms(&["", "alipay"])), "alipay");
    assert_eq!(choose_platform(&Some("x".to_string()), &platforms(&["alipay"])), "x");
}

#[test]
fn update_position_defaults_empty_platform_for_new_fund() {
    assert_eq!(choose_platform(&None, &platforms(&[])), "");
    assert_eq!(resolve_position_platform(&platforms(&[])), None);
}

#[test]
fn refusals_have_their_words() {
    assert!(check_cost_price(false).is_ok());
    assert_eq!(check_cost_price(true), Err("成本价不能为负".to_string()));
    assert!(check_delete_account(0).is_ok());
    assert!(check_delete_account(1).unwrap_err().contains("账户仍有持仓"));
}

#[test]
fn effects_of_transactions() {
    assert_eq!(effect("buy", Shares::NotPositive, false), Effect::SetAmount);
    assert_eq!(effect("buy", Shares::Missing, true), Effect::Nothing);
    assert_eq!(effect("sell", Shares::Positive, false), Effect::Nothing);
    assert_eq!(effect("reinvest_dividend", Shares::Positive, false), Effect::Reinvest);
    assert_eq!(effect("withdraw", Shares::Positive, true), Effect::Nothing);
    assert_eq!(
        cost_effect("buy", "2026-01-01", Shares::NotPositive, true),
        (CostEffect::SetCost, true)
    );
    assert_eq!(cost_effect("buy", OPENING_DATE, Shares::Positive, false), (CostEffect::Open, false));
}

#[test]
fn a_later_value_slides_the_one_before() {
    let old = Some("2026-08-19".to_string());
    let u = update_fund_nav(&old, "2026-08-20", false);
    assert_eq!((u.nav_date.as_str(), u.prev_from), ("2026-08-20", PrevFrom::OldValue));
    let u = update_fund_nav(&old, "2026-08-19", false);
    assert_eq!((u.nav_date.as_str(), u.prev_from), ("2026-08-19", PrevFrom::OldPrev));
    let u = update_fund_nav(&old, "", false);
    assert_eq!((u.nav_date.as_str(), u.prev_from), ("2026-08-19", PrevFrom::OldPrev));
    let u = update_fund_nav(&old, "2026-08-20", true);
    assert_eq!(u.prev_from, PrevFrom::Given);
    let u = update_fund_nav(&None, "2026-08-20", false);
    assert_eq!((u.nav_date.as_str(), u.prev_from), ("2026-08-20", PrevFrom::OldPrev));
}

#[test]
fn the_database_has_its_place() {
    let home = Some("/home/u".to_string());
    let mut state = DbState::new();
    assert!(!db_ready(&state));
    assert_eq!(
        db_file_path(&state, &None, &home),
        vec!["/home/u", "Library", "Application Support", "FundLens", "fundlens.db"]
    );
    assert_eq!(
        db_path(&Some("/d".to_string()), &Some("/app".to_string()), &home),
        vec!["/d", "fundlens.db"]
    );
    assert_eq!(db_path(&None, &Some("/app".to_string()), &home), vec!["/app", "fundlens.db"]);
    assert_eq!(db_path(&None, &None, &None), vec![".", "fundlens.db"]);
    assert!(state.must_open());
    state.opened(db_path(&None, &Some("/app".to_string()), &home));
    assert!(db_ready(&state));
    state.opened(vec!["elsewhere".to_string()]);
    assert_eq!(db_file_path(&state, &None, &home), vec!["/app", "fundlens.db"]);
}

#[test]
fn funds_have_names() {
    assert_eq!(fund_display_name(&Some(String::new()), "000001"), "000001");
    assert_eq!(fund_display_name(&Some("名".to_string()), "000001"), "名");
    let funds = vec![
        ("1".to_string(), "a".to_string()),
        ("1".to_string(), "b".to_string()),
    ];
    assert_eq!(fund_name(&funds, "1"), Some("b".to_string()));
    assert_eq!(fund_name(&funds, "2"), None);
}
