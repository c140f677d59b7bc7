//! Kinds of funds: the index a fund is measured against, the class it belongs to, and the code
//! behind a name.
use vstd::prelude::*;
use vstd::utf8::*;
use crate::text::{all_digits, contains, digit, letter, occurs, same, to_chars, trim, trimmed};

verus! {

/// What `str::to_lowercase` of std makes of a text.
pub uninterp spec fn lowercase_of(s: Seq<char>) -> Seq<char>;

/// The text in lower case. Calls `str::to_lowercase`, which goes by Unicode's tables; its result is
/// only named. A digit has no lower case, and what has none stays as it is: so does a text of digits.
#[verifier::external_body]
pub(crate) fn lowercase(s: &str) -> (r: String)
    ensures
        r@ == lowercase_of(s@),
        all_digits(s@) ==> r@ == s@,
{
    s.to_lowercase()
}

// ---------------------------------------------------------------------------
// Indices
// ---------------------------------------------------------------------------

/// A word in a fund's name and the index that it stands for.
#[derive(Debug, Clone, Copy)]
pub struct IndexRule {
    pub word: &'static str,
    /// Symbol under which the index is quoted.
    pub symbol: &'static str,
    /// Code of the index.
    pub code: &'static str,
    /// Name of the index.
    pub name: &'static str,
}

/// A rule made of its parts.
pub open spec fn rule(
    word: &'static str,
    symbol: &'static str,
    code: &'static str,
    name: &'static str,
) -> IndexRule {
    IndexRule { word, symbol, code, name }
}

/// Indices of the Hong Kong market. They go first: a health care index of Hong Kong is no mainland one.
#[verifier::opaque]
pub open spec fn hong_kong_rules() -> Seq<IndexRule> {
    seq![
        rule("恒生医疗保健", "hkHSHCI", "HSHCI", "恒生医疗保健指数"),
        rule("恒生医疗", "hkHSHCI", "HSHCI", "恒生医疗保健指数"),
        rule("香港医疗", "hkHSHCI", "HSHCI", "恒生医疗保健指数"),
        rule("恒生科技", "hkHSTECH", "HSTECH", "恒生科技指数"),
        rule("恒生指数", "hkHSI", "HSI", "恒生指数"),
        rule("恒生国企", "hkHSCEI", "HSCEI", "国企指数"),
        rule("国企指数", "hkHSCEI", "HSCEI", "国企指数"),
    ]
}

/// Broad indices.
#[verifier::opaque]
pub open spec fn broad_rules() -> Seq<IndexRule> {
    seq![
        rule("沪深300", "sh000300", "000300", "沪深300"),
        rule("中证500", "sh000905", "000905", "中证500"),
        rule("中证1000", "sh000852", "000852", "中证1000"),
        rule("创业板", "sz399006", "399006", "创业板指"),
        rule("科创50", "sh000688", "000688", "科创50"),
        rule("上证50", "sh000016", "000016", "上证50"),
        rule("中证红利", "sh000922", "000922", "中证红利"),
        rule("红利低波", "sh000922", "000922", "中证红利"),
        rule("深证成指", "sz399001", "399001", "深证成指"),
    ]
}

/// Indices of new energy, liquor and health care; the narrower word of two goes first.
#[verifier::opaque]
pub open spec fn energy_health_rules() -> Seq<IndexRule> {
    seq![
        rule("新能源车", "sz399976", "399976", "CS新能车"),
        rule("光伏", "sz399808", "399808", "中证新能"),
        rule("新能源", "sz399808", "399808", "中证新能"),
        rule("白酒", "sz399997", "399997", "中证白酒"),
        rule("酒", "sz399997", "399997", "中证白酒"),
        rule("医疗", "sz399989", "399989", "中证医疗"),
        rule("医药", "sh000933", "000933", "中证医药"),
    ]
}

/// Indices of finance, real estate and technology.
#[verifier::opaque]
pub open spec fn finance_technology_rules() -> Seq<IndexRule> {
    seq![
        rule("券商", "sz399975", "399975", "证券公司"),
        rule("证券", "sz399975", "399975", "证券公司"),
        rule("银行", "sz399986", "399986", "中证银行"),
        rule("地产", "sz399393", "399393", "国证地产"),
        rule("军工", "sz399967", "399967", "中证军工"),
        rule("芯片", "sz980017", "980017", "国证芯片"),
        rule("半导体", "sz980017", "980017", "国证芯片"),
        rule("电子", "sz399811", "399811", "CSSW电子"),
        rule("传媒", "sz399971", "399971", "中证传媒"),
    ]
}

/// Indices of resources and other themes.
#[verifier::opaque]
pub open spec fn resource_rules() -> Seq<IndexRule> {
    seq![
        rule("煤炭", "sz399998", "399998", "中证煤炭"),
        rule("钢铁", "sz399440", "399440", "国证钢铁"),
        rule("有色", "sz399395", "399395", "国证有色"),
        rule("基建", "sz399995", "399995", "基建工程"),
        rule("消费", "sh000932", "000932", "中证消费"),
        rule("农业", "sh000949", "000949", "中证农业"),
        rule("环保", "sh000827", "000827", "中证环保"),
    ]
}

/// Appends a rule.
fn push_rule(
    v: &mut Vec<IndexRule>,
    word: &'static str,
    symbol: &'static str,
    code: &'static str,
    name: &'static str,
)
    ensures
        final(v)@ == old(v)@.push(rule(word, symbol, code, name)),
{
    v.push(IndexRule { word, symbol, code, name });
}

/// The rules of `hong_kong_rules`.
fn list_hong_kong_rules() -> (r: Vec<IndexRule>)
    ensures
        r@ == hong_kong_rules(),
{
    reveal(hong_kong_rules);
    let mut r: Vec<IndexRule> = Vec::new();
    push_rule(&mut r, "恒生医疗保健", "hkHSHCI", "HSHCI", "恒生医疗保健指数");
    push_rule(&mut r, "恒生医疗", "hkHSHCI", "HSHCI", "恒生医疗保健指数");
    push_rule(&mut r, "香港医疗", "hkHSHCI", "HSHCI", "恒生医疗保健指数");
    push_rule(&mut r, "恒生科技", "hkHSTECH", "HSTECH", "恒生科技指数");
    push_rule(&mut r, "恒生指数", "hkHSI", "HSI", "恒生指数");
    push_rule(&mut r, "恒生国企", "hkHSCEI", "HSCEI", "国企指数");
    push_rule(&mut r, "国企指数", "hkHSCEI", "HSCEI", "国企指数");
    r
}

/// The rules of `broad_rules`.
fn list_broad_rules() -> (r: Vec<IndexRule>)
    ensures
        r@ == broad_rules(),
{
    reveal(broad_rules);
    let mut r: Vec<IndexRule> = Vec::new();
    push_rule(&mut r, "沪深300", "sh000300", "000300", "沪深300");
    push_rule(&mut r, "中证500", "sh000905", "000905", "中证500");
    push_rule(&mut r, "中证1000", "sh000852", "000852", "中证1000");
    push_rule(&mut r, "创业板", "sz399006", "399006", "创业板指");
    push_rule(&mut r, "科创50", "sh000688", "000688", "科创50");
    push_rule(&mut r, "上证50", "sh000016", "000016", "上证50");
    push_rule(&mut r, "中证红利", "sh000922", "000922", "中证红利");
    push_rule(&mut r, "红利低波", "sh000922", "000922", "中证红利");
    push_rule(&mut r, "深证成指", "sz399001", "399001", "深证成指");
    r
}

/// The rules of `energy_health_rules`.
fn list_energy_health_rules() -> (r: Vec<IndexRule>)
    ensures
        r@ == energy_health_rules(),
{
    reveal(energy_health_rules);
    let mut r: Vec<IndexRule> = Vec::new();
    push_rule(&mut r, "新能源车", "sz399976", "399976", "CS新能车");
    push_rule(&mut r, "光伏", "sz399808", "399808", "中证新能");
    push_rule(&mut r, "新能源", "sz399808", "399808", "中证新能");
    push_rule(&mut r, "白酒", "sz399997", "399997", "中证白酒");
    push_rule(&mut r, "酒", "sz399997", "399997", "中证白酒");
    push_rule(&mut r, "医疗", "sz399989", "399989", "中证医疗");
    push_rule(&mut r, "医药", "sh000933", "000933", "中证医药");
    r
}

/// The rules of `finance_technology_rules`.
fn list_finance_technology_rules() -> (r: Vec<IndexRule>)
    ensures
        r@ == finance_technology_rules(),
{
    reveal(finance_technology_rules);
    let mut r: Vec<IndexRule> = Vec::new();
    push_rule(&mut r, "券商", "sz399975", "399975", "证券公司");
    push_rule(&mut r, "证券", "sz399975", "399975", "证券公司");
    push_rule(&mut r, "银行", "sz399986", "399986", "中证银行");
    push_rule(&mut r, "地产", "sz399393", "399393", "国证地产");
    push_rule(&mut r, "军工", "sz399967", "399967", "中证军工");
    push_rule(&mut r, "芯片", "sz980017", "980017", "国证芯片");
    push_rule(&mut r, "半导体", "sz980017", "980017", "国证芯片");
    push_rule(&mut r, "电子", "sz399811", "399811", "CSSW电子");
    push_rule(&mut r, "传媒", "sz399971", "399971", "中证传媒");
    r
}

/// The rules of `resource_rules`.
fn list_resource_rules() -> (r: Vec<IndexRule>)
    ensures
        r@ == resource_rules(),
{
    reveal(resource_rules);
    let mut r: Vec<IndexRule> = Vec::new();
    push_rule(&mut r, "煤炭", "sz399998", "399998", "中证煤炭");
    push_rule(&mut r, "钢铁", "sz399440", "399440", "国证钢铁");
    push_rule(&mut r, "有色", "sz399395", "399395", "国证有色");
    push_rule(&mut r, "基建", "sz399995", "399995", "基建工程");
    push_rule(&mut r, "消费", "sh000932", "000932", "中证消费");
    push_rule(&mut r, "农业", "sh000949", "000949", "中证农业");
    push_rule(&mut r, "环保", "sh000827", "000827", "中证环保");
    r
}

/// An index: its symbol, its code and its name.
pub open spec fn index_of(r: IndexRule) -> (Seq<char>, Seq<char>, Seq<char>) {
    (r.symbol@, r.code@, r.name@)
}

/// The first rule from `i` on whose word occurs in a name.
pub open spec fn first_rule(rules: Seq<IndexRule>, name: Seq<char>, i: int) -> Option<IndexRule>
    decreases rules.len() - i,
{
    if i < 0 || i >= rules.len() {
        None
    } else if occurs(name, rules[i].word@) {
        Some(rules[i])
    } else {
        first_rule(rules, name, i + 1)
    }
}

/// The first of the rules whose word occurs in a name.
fn find_rule(rules: &Vec<IndexRule>, name: &str) -> (r: Option<IndexRule>)
    ensures
        r == first_rule(rules@, name@, 0),
{
    let mut i: usize = 0;
    while i < rules.len()
        invariant
            i <= rules@.len(),
            first_rule(rules@, name@, 0) == first_rule(rules@, name@, i as int),
        decreases rules@.len() - i,
    {
        if contains(name, rules[i].word) {
            return Some(rules[i]);
        }
        i += 1;
    }
    None
}

/// The index that the words in a name, given in lower case, stand for.
pub open spec fn index_by_name(lower: Seq<char>) -> Option<IndexRule> {
    match first_rule(hong_kong_rules(), lower, 0) {
        Some(r) => Some(r),
        None => match first_rule(broad_rules(), lower, 0) {
            Some(r) => Some(r),
            None => match first_rule(energy_health_rules(), lower, 0) {
                Some(r) => Some(r),
                None => match first_rule(finance_technology_rules(), lower, 0) {
                    Some(r) => Some(r),
                    None => first_rule(resource_rules(), lower, 0),
                },
            },
        },
    }
}

/// The index that a fund is measured against: the one its name stands for, else government bonds
/// for a bond fund and the broad market for any other.
pub open spec fn benchmark(fund_type: Seq<char>, lower: Seq<char>) -> (
    Seq<char>,
    Seq<char>,
    Seq<char>,
) {
    match index_by_name(lower) {
        Some(r) => index_of(r),
        None => if fund_type == "004"@ {
            ("sh000012"@, "000012"@, "上证国债"@)
        } else {
            ("sh000300"@, "000300"@, "沪深300"@)
        },
    }
}

/// An index as three strings.
fn index_strings(symbol: &str, code: &str, name: &str) -> (r: (String, String, String))
    ensures
        (r.0@, r.1@, r.2@) == (symbol@, code@, name@),
{
    (symbol.to_owned(), code.to_owned(), name.to_owned())
}

/// The index that a fund is measured against, by its type and its name in lower case.
pub fn benchmark_for(fund_type: &str, lower: &str) -> (r: (String, String, String))
    ensures
        (r.0@, r.1@, r.2@) == benchmark(fund_type@, lower@),
{
    let mut found = find_rule(&list_hong_kong_rules(), lower);
    if found.is_none() {
        found = find_rule(&list_broad_rules(), lower);
    }
    if found.is_none() {
        found = find_rule(&list_energy_health_rules(), lower);
    }
    if found.is_none() {
        found = find_rule(&list_finance_technology_rules(), lower);
    }
    if found.is_none() {
        found = find_rule(&list_resource_rules(), lower);
    }
    match found {
        Some(r) => index_strings(r.symbol, r.code, r.name),
        None => {
            if same(fund_type, "004") {
                index_strings("sh000012", "000012", "上证国债")
            } else {
                index_strings("sh000300", "000300", "沪深300")
            }
        },
    }
}

/// The index that a fund is measured against: symbol, code and name.
pub fn pick_benchmark(fund_type: &str, fund_name: &str) -> (r: (String, String, String))
    ensures
        (r.0@, r.1@, r.2@) == benchmark(fund_type@, lowercase_of(fund_name@)),
{
    let lower = lowercase(fund_name);
    benchmark_for(fund_type, lower.as_str())
}

/// A fund follows an index: its type says so, or a word in its name, given in lower case.
pub open spec fn index_fund(fund_type: Seq<char>, lower: Seq<char>) -> bool {
    ||| fund_type == "008"@
    ||| fund_type == "009"@
    ||| fund_type == "006"@
    ||| occurs(lower, "指数"@)
    ||| occurs(lower, "etf"@)
    ||| occurs(lower, "联接"@)
    ||| occurs(lower, "指数增强"@)
}

/// A fund follows an index and nothing but the index: it is not an enhanced one.
pub open spec fn pure_index_fund(fund_type: Seq<char>, lower: Seq<char>) -> bool {
    !occurs(lower, "指数增强"@) && index_fund(fund_type, lower)
}

/// Whether a fund follows an index, by its type and its name in lower case.
pub fn follows_index(fund_type: &str, lower: &str) -> (r: bool)
    ensures
        r == index_fund(fund_type@, lower@),
{
    same(fund_type, "008") || same(fund_type, "009") || same(fund_type, "006") || contains(
        lower,
        "指数",
    ) || contains(lower, "etf") || contains(lower, "联接") || contains(lower, "指数增强")
}

/// Whether a fund follows nothing but an index, by its type and its name in lower case.
pub fn follows_pure_index(fund_type: &str, lower: &str) -> (r: bool)
    ensures
        r == pure_index_fund(fund_type@, lower@),
{
    !contains(lower, "指数增强") && follows_index(fund_type, lower)
}

/// Whether a fund follows an index.
pub fn is_index_fund(fund_type: &str, fund_name: &str) -> (r: bool)
    ensures
        r == index_fund(fund_type@, lowercase_of(fund_name@)),
{
    follows_index(fund_type, lowercase(fund_name).as_str())
}

/// Whether a fund follows nothing but an index.
pub fn is_pure_index_fund(fund_type: &str, fund_name: &str) -> (r: bool)
    ensures
        r == pure_index_fund(fund_type@, lowercase_of(fund_name@)),
{
    follows_pure_index(fund_type, lowercase(fund_name).as_str())
}

/// A fund that follows nothing but an index follows an index, and an enhanced one never counts as
/// following nothing but it.
pub proof fn law_pure_index(fund_type: Seq<char>, lower: Seq<char>)
    ensures
        pure_index_fund(fund_type, lower) ==> index_fund(fund_type, lower),
        occurs(lower, "指数增强"@) ==> index_fund(fund_type, lower) && !pure_index_fund(
            fund_type,
            lower,
        ),
{
}

/// The digits of a text, in order.
pub open spec fn digits_in(s: Seq<char>) -> Seq<char> {
    s.filter(|c: char| digit(c))
}

/// The digits of a text.
pub fn digits_of(s: &str) -> (r: String)
    ensures
        r@ == digits_in(s@),
{
    let v = to_chars(s);
    let mut r = String::new();
    let mut i: usize = 0;
    assert(v@.take(0) =~= Seq::<char>::empty());
    assert(r@ =~= digits_in(v@.take(0)));
    while i < v.len()
        invariant
            i <= v@.len(),
            r@ == digits_in(v@.take(i as int)),
        decreases v@.len() - i,
    {
        proof {
            assert(v@.take(i + 1).drop_last() =~= v@.take(i as int));
            reveal(Seq::filter);
        }
        if '0' <= v[i] && v[i] <= '9' {
            r.push(v[i]);
        }
        i += 1;
    }
    assert(v@.take(v@.len() as int) =~= v@);
    r
}

/// The index that an index fund follows: the one stored for it, else the one it is measured against, by
/// the fund's name in lower case. Other funds follow none.
pub open spec fn tracked_index(fund_type: Seq<char>, lower: Seq<char>, stored: Seq<char>) -> Option<
    (Seq<char>, Seq<char>, Seq<char>),
> {
    let s = trimmed(stored);
    if !index_fund(fund_type, lower) {
        None
    } else if s.len() > 0 {
        Some((s, digits_in(s), s))
    } else {
        Some(benchmark(fund_type, lower))
    }
}

/// The model of an optional index.
pub open spec fn index_view(r: Option<(String, String, String)>) -> Option<
    (Seq<char>, Seq<char>, Seq<char>),
> {
    match r {
        Some(p) => Some((p.0@, p.1@, p.2@)),
        None => None,
    }
}

/// The index that a fund follows, by its name in lower case.
pub fn tracked_index_for(fund_type: &str, lower: &str, stored: &str) -> (r: Option<
    (String, String, String),
>)
    ensures
        index_view(r) == tracked_index(fund_type@, lower@, stored@),
{
    if !follows_index(fund_type, lower) {
        return None;
    }
    let s = trim(stored);
    if s.as_str().is_empty() {
        return Some(benchmark_for(fund_type, lower));
    }
    let code = digits_of(s.as_str());
    Some((s.clone(), code, s))
}

/// The index that a fund follows: symbol, code and name.
pub fn resolve_tracked_index(fund_type: &str, fund_name: &str, stored: &str) -> (r: Option<
    (String, String, String),
>)
    ensures
        index_view(r) == tracked_index(fund_type@, lowercase_of(fund_name@), stored@),
{
    let lower = lowercase(fund_name);
    tracked_index_for(fund_type, lower.as_str(), stored)
}

// ---------------------------------------------------------------------------
// Types
// ---------------------------------------------------------------------------

/// Whether a fund's value moves and can be estimated: every fund but money market funds and wealth
/// products.
pub fn is_estimable_fund(fund_type: &str) -> (r: bool)
    ensures
        r == (fund_type@ != "002"@ && fund_type@ != "005"@),
{
    !same(fund_type, "002") && !same(fund_type, "005")
}

/// Whether a fund invests abroad.
pub fn is_qdii_fund(fund_type: &str) -> (r: bool)
    ensures
        r == (fund_type@ == "003"@),
{
    same(fund_type, "003")
}

/// The name of a fund type.
pub open spec fn type_label(t: Seq<char>) -> Seq<char> {
    if t == "001"@ {
        "股票型"@
    } else if t == "002"@ {
        "货币型"@
    } else if t == "003"@ {
        "QDII"@
    } else if t == "004"@ {
        "债券型"@
    } else if t == "005"@ {
        "理财型"@
    } else if t == "006"@ {
        "分级"@
    } else if t == "007"@ {
        "混合型"@
    } else if t == "008"@ {
        "指数型"@
    } else if t == "009"@ {
        "ETF联接"@
    } else {
        "未知"@
    }
}

/// The name of a fund type.
pub fn fund_type_label(fund_type: &str) -> (r: &'static str)
    ensures
        r@ == type_label(fund_type@),
{
    if same(fund_type, "001") {
        "股票型"
    } else if same(fund_type, "002") {
        "货币型"
    } else if same(fund_type, "003") {
        "QDII"
    } else if same(fund_type, "004") {
        "债券型"
    } else if same(fund_type, "005") {
        "理财型"
    } else if same(fund_type, "006") {
        "分级"
    } else if same(fund_type, "007") {
        "混合型"
    } else if same(fund_type, "008") {
        "指数型"
    } else if same(fund_type, "009") {
        "ETF联接"
    } else {
        "未知"
    }
}

/// The asset class of a fund type.
pub open spec fn category(t: Seq<char>) -> Seq<char> {
    if t == "001"@ || t == "007"@ || t == "008"@ || t == "009"@ || t == "006"@ {
        "equity"@
    } else if t == "004"@ || t == "005"@ {
        "fixed"@
    } else if t == "002"@ {
        "money"@
    } else if t == "003"@ {
        "qdii"@
    } else {
        "other"@
    }
}

/// The asset class of a fund type.
pub fn asset_category(fund_type: &str) -> (r: &'static str)
    ensures
        r@ == category(fund_type@),
{
    if same(fund_type, "001") || same(fund_type, "007") || same(fund_type, "008") || same(
        fund_type,
        "009",
    ) || same(fund_type, "006") {
        "equity"
    } else if same(fund_type, "004") || same(fund_type, "005") {
        "fixed"
    } else if same(fund_type, "002") {
        "money"
    } else if same(fund_type, "003") {
        "qdii"
    } else {
        "other"
    }
}

/// The name of an asset class.
pub open spec fn category_label(c: Seq<char>) -> Seq<char> {
    if c == "equity"@ {
        "权益类"@
    } else if c == "fixed"@ {
        "固收类"@
    } else if c == "money"@ {
        "货币类"@
    } else if c == "qdii"@ {
        "QDII"@
    } else {
        "其他"@
    }
}

/// The name of an asset class.
pub fn asset_category_label(category: &str) -> (r: &'static str)
    ensures
        r@ == category_label(category@),
{
    if same(category, "equity") {
        "权益类"
    } else if same(category, "fixed") {
        "固收类"
    } else if same(category, "money") {
        "货币类"
    } else if same(category, "qdii") {
        "QDII"
    } else {
        "其他"
    }
}

/// The type code behind a description of a fund's type. Link funds and index funds are told first,
/// since their descriptions name what they invest in as well.
pub open spec fn type_code(ftype: Seq<char>) -> Seq<char> {
    if occurs(ftype, "ETF联接"@) || occurs(ftype, "联接"@) {
        "009"@
    } else if occurs(ftype, "指数"@) {
        "008"@
    } else if occurs(ftype, "股票"@) {
        "001"@
    } else if occurs(ftype, "混合"@) {
        "007"@
    } else if occurs(ftype, "债券"@) {
        "004"@
    } else if occurs(ftype, "货币"@) {
        "002"@
    } else if occurs(ftype, "QDII"@) {
        "003"@
    } else {
        "000"@
    }
}

/// The type code behind a description of a fund's type.
pub fn fund_type_code_from_ftype(ftype: &str) -> (r: &'static str)
    ensures
        r@ == type_code(ftype@),
{
    if contains(ftype, "ETF联接") || contains(ftype, "联接") {
        "009"
    } else if contains(ftype, "指数") {
        "008"
    } else if contains(ftype, "股票") {
        "001"
    } else if contains(ftype, "混合") {
        "007"
    } else if contains(ftype, "债券") {
        "004"
    } else if contains(ftype, "货币") {
        "002"
    } else if contains(ftype, "QDII") {
        "003"
    } else {
        "000"
    }
}

// ---------------------------------------------------------------------------
// Names
// ---------------------------------------------------------------------------

/// A character that counts when names are matched: a Han character or an ASCII letter or digit.
pub open spec fn name_char(c: char) -> bool {
    '\u{4e00}' <= c <= '\u{9fff}' || letter(c) || digit(c)
}

/// A name without all that does not count when names are matched.
pub open spec fn cleaned(s: Seq<char>) -> Seq<char> {
    s.filter(|c: char| name_char(c))
}

/// A name without all that does not count when names are matched.
pub fn clean_for_match(s: &str) -> (r: String)
    ensures
        r@ == cleaned(s@),
{
    let v = to_chars(s);
    let mut r = String::new();
    let mut i: usize = 0;
    assert(v@.take(0) =~= Seq::<char>::empty());
    assert(r@ =~= cleaned(v@.take(0)));
    while i < v.len()
        invariant
            i <= v@.len(),
            r@ == cleaned(v@.take(i as int)),
        decreases v@.len() - i,
    {
        proof {
            assert(v@.take(i + 1).drop_last() =~= v@.take(i as int));
            reveal(Seq::filter);
        }
        let c = v[i];
        if ('\u{4e00}' <= c && c <= '\u{9fff}') || ('a' <= c && c <= 'z') || ('A' <= c && c <= 'Z')
            || ('0' <= c && c <= '9') {
            r.push(c);
        }
        i += 1;
    }
    assert(v@.take(v@.len() as int) =~= v@);
    r
}

/// Cleaning a name twice is cleaning it once.
pub proof fn law_clean_idempotent(s: Seq<char>)
    ensures
        cleaned(cleaned(s)) == cleaned(s),
    decreases s.len(),
{
    reveal(Seq::filter);
    if s.len() > 0 {
        law_clean_idempotent(s.drop_last());
        let c = cleaned(s.drop_last());
        if name_char(s.last()) {
            assert(cleaned(s) =~= c.push(s.last()));
            assert(c.push(s.last()).drop_last() =~= c);
        }
    }
}

/// How well a candidate's name matches: best where it is the same, then where one contains the
/// other, the contained one has at least six bytes and the longer one at least six characters; 0 where
/// it does not match. The longer the common part is in bytes, the better.
pub open spec fn name_score(q: Seq<char>, cand: Seq<char>) -> int {
    let n = encode_utf8(q).len() as int;
    let m = encode_utf8(cand).len() as int;
    if q == cand {
        1000 + n
    } else if n >= 6 && cand.len() >= 6 && occurs(cand, q) {
        500 + n
    } else if m >= 6 && q.len() >= 6 && occurs(q, cand) {
        400 + m
    } else {
        0
    }
}

/// How well a candidate's name matches.
pub fn match_name_score(q: &str, cand: &str) -> (r: u128)
    ensures
        r == name_score(q@, cand@),
{
    let n = q.as_bytes().len() as u128;
    let m = cand.as_bytes().len() as u128;
    if same(q, cand) {
        return 1000 + n;
    }
    if n >= 6 && cand.unicode_len() >= 6 && contains(cand, q) {
        return 500 + n;
    }
    if m >= 6 && q.unicode_len() >= 6 && contains(q, cand) {
        return 400 + m;
    }
    0
}

/// Names of well-known funds with their codes.
#[verifier::opaque]
pub open spec fn fund_aliases() -> Seq<(&'static str, &'static str)> {
    seq![
        ("鹏华酒指数C", "012043"),
        ("鹏华酒C", "012043"),
        ("中欧医疗健康混合A", "003095"),
        ("博时恒生医疗保健ETF联接", "014424"),
        ("建信高端装备股票A", "011506"),
        ("天弘恒生科技ETF联接(QDII)C", "012349"),
        ("天弘恒生科技ETF联接C", "012349"),
        ("富国高质量混合", "012255"),
        ("易方达中小盘混合", "110011"),
        ("中欧红利优享灵活配置混合C", "004815"),
        ("华富永鑫灵活配置混合C", "001467"),
        ("银华中证全指证券公司ETF发起式", "025193"),
        ("建信上海金ETF联接C", "009034"),
        ("大成高鑫股票A", "000628"),
        ("南方中证A500ETF联接C", "022435"),
    ]
}

/// The rows of `fund_aliases`.
fn list_fund_aliases() -> (r: Vec<(&'static str, &'static str)>)
    ensures
        r@ == fund_aliases(),
{
    reveal(fund_aliases);
    let mut r: Vec<(&'static str, &'static str)> = Vec::new();
    r.push(("鹏华酒指数C", "012043"));
    r.push(("鹏华酒C", "012043"));
    r.push(("中欧医疗健康混合A", "003095"));
    r.push(("博时恒生医疗保健ETF联接", "014424"));
    r.push(("建信高端装备股票A", "011506"));
    r.push(("天弘恒生科技ETF联接(QDII)C", "012349"));
    r.push(("天弘恒生科技ETF联接C", "012349"));
    r.push(("富国高质量混合", "012255"));
    r.push(("易方达中小盘混合", "110011"));
    r.push(("中欧红利优享灵活配置混合C", "004815"));
    r.push(("华富永鑫灵活配置混合C", "001467"));
    r.push(("银华中证全指证券公司ETF发起式", "025193"));
    r.push(("建信上海金ETF联接C", "009034"));
    r.push(("大成高鑫股票A", "000628"));
    r.push(("南方中证A500ETF联接C", "022435"));
    r
}

/// The code of the first alias from `i` on whose cleaned name is the given one.
pub open spec fn alias_code(
    t: Seq<(&'static str, &'static str)>,
    q: Seq<char>,
    i: int,
) -> Option<Seq<char>>
    decreases t.len() - i,
{
    if i < 0 || i >= t.len() {
        None
    } else if cleaned(t[i].0@) == q {
        Some(t[i].1@)
    } else {
        alias_code(t, q, i + 1)
    }
}

/// A name has to be looked up: it holds something to go by and is no alias.
pub open spec fn to_look_up(name: Seq<char>) -> bool {
    cleaned(name).len() > 0 && alias_code(fund_aliases(), cleaned(name), 0) is None
}

/// The code of a well-known fund with this cleaned name.
fn find_alias(q: &str) -> (r: Option<&'static str>)
    ensures
        match r {
            Some(c) => alias_code(fund_aliases(), q@, 0) == Some(c@),
            None => alias_code(fund_aliases(), q@, 0) is None,
        },
{
    let t = list_fund_aliases();
    let mut i: usize = 0;
    while i < t.len()
        invariant
            t@ == fund_aliases(),
            i <= t@.len(),
            alias_code(t@, q@, 0) == alias_code(t@, q@, i as int),
        decreases t@.len() - i,
    {
        if same(clean_for_match(t[i].0).as_str(), q) {
            return Some(t[i].1);
        }
        i += 1;
    }
    None
}

/// Whether a name has to be looked up.
pub fn needs_look_up(name: &str) -> (r: bool)
    ensures
        r == to_look_up(name@),
{
    let q = clean_for_match(name);
    !q.as_str().is_empty() && find_alias(q.as_str()).is_none()
}

/// The code of a fund with this name: that of a well-known fund, else what looking the name up gave.
pub fn resolve_fund_code(name: &str, looked_up: Option<String>) -> (r: Option<String>)
    ensures
        if cleaned(name@).len() == 0 {
            r is None
        } else {
            match alias_code(fund_aliases(), cleaned(name@), 0) {
                Some(c) => r matches Some(s) && s@ == c,
                None => r == looked_up,
            }
        },
{
    let q = clean_for_match(name);
    if q.as_str().is_empty() {
        return None;
    }
    match find_alias(q.as_str()) {
        Some(c) => Some(c.to_owned()),
        None => looked_up,
    }
}

} // verus!
