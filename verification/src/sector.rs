//! Classification of stocks: the nine sectors that industry names map to, and the market that a
//! stock code belongs to.
use vstd::prelude::*;
use crate::market_laws::{law_five_digits_are_hong_kong, law_six_digits_are_the_mainland};
use crate::text::{contains, digits_n, is_digits_n, occurs, same, trim, trimmed};

verus! {

/// Sector of what cannot be looked through: cash, bonds and what is not disclosed.
pub const SECTOR_UNPENETRATED: &'static str = "未穿透";

/// Sector of all stocks listed abroad.
pub const SECTOR_OVERSEAS: &'static str = "境外资产";

/// Sector of stocks whose industry is not known.
pub const SECTOR_UNCLASSIFIED: &'static str = "未分类";

/// Industry names of the sector of medicine and health care.
#[verifier::opaque]
pub open spec fn medicine_names() -> Seq<&'static str> {
    seq![
        "化学制药",
        "中药",
        "生物制品",
        "医疗器械",
        "医疗服务",
        "医药商业",
        "医疗美容",
        "兽药",
        "原料药",
    ]
}

/// Industry names of the sector of consumer staples.
#[verifier::opaque]
pub open spec fn staples_names() -> Seq<&'static str> {
    seq![
        "酿酒行业",
        "食品饮料",
        "农牧饲渔",
        "调味发酵品",
        "种业",
        "养殖业",
    ]
}

/// Industry names of the sector of consumer discretionary.
#[verifier::opaque]
pub open spec fn discretionary_names() -> Seq<&'static str> {
    seq![
        "汽车整车",
        "汽车零部件",
        "汽车服务",
        "家用电器",
        "小家电",
        "黑色家电",
        "厨卫电器",
        "照明设备",
        "家用轻工",
        "旅游酒店",
        "旅游及景区",
        "商贸零售",
        "纺织服装",
        "服装家纺",
        "珠宝首饰",
        "美容护理",
        "专业连锁",
        "互联网电商",
    ]
}

/// Industry names of the sector of technology, media and telecommunications.
#[verifier::opaque]
pub open spec fn technology_names() -> Seq<&'static str> {
    seq![
        "半导体",
        "电子元件",
        "光学光电子",
        "消费电子",
        "电子化学品",
        "通信设备",
        "通信服务",
        "软件开发",
        "互联网服务",
        "计算机设备",
        "游戏",
        "文化传媒",
        "数字媒体",
        "影视院线",
        "出版",
    ]
}

/// Industry names of the sector of finance and real estate.
#[verifier::opaque]
pub open spec fn finance_names() -> Seq<&'static str> {
    seq![
        "银行",
        "保险",
        "证券",
        "多元金融",
        "房地产",
        "房地产开发",
        "房地产服务",
    ]
}

/// Industry names of the sector of advanced manufacturing.
#[verifier::opaque]
pub open spec fn manufacturing_names() -> Seq<&'static str> {
    seq![
        "工程机械",
        "通用设备",
        "专用设备",
        "仪器仪表",
        "电力设备",
        "光伏设备",
        "风电设备",
        "电池",
        "电机",
        "电网设备",
        "自动化设备",
    ]
}

/// Industry names of the sector of cyclical resources.
#[verifier::opaque]
pub open spec fn cyclicals_names() -> Seq<&'static str> {
    seq![
        "煤炭行业",
        "钢铁行业",
        "有色金属",
        "工业金属",
        "贵金属",
        "能源金属",
        "小金属",
        "石油行业",
        "化肥行业",
        "化学原料",
        "化学制品",
        "化纤行业",
        "农药",
        "水泥建材",
        "玻璃玻纤",
        "非金属材料",
        "采掘服务",
    ]
}

/// Industry names of the sector of infrastructure, utilities and transport.
#[verifier::opaque]
pub open spec fn utilities_names() -> Seq<&'static str> {
    seq![
        "电力行业",
        "燃气",
        "水务",
        "航运港口",
        "铁路公路",
        "物流行业",
        "航空机场",
        "工程建设",
        "环境治理",
    ]
}

/// Industry names of the sector of national defence.
#[verifier::opaque]
pub open spec fn defence_names() -> Seq<&'static str> {
    seq![
        "航天航空",
        "船舶制造",
    ]
}

/// The word for pesticides, whose makers are no drug makers.
#[verifier::opaque]
pub open spec fn pesticide_words() -> Seq<&'static str> {
    seq![
        "农药",
    ]
}

/// Words in industry names of the sector of medicine and health care.
#[verifier::opaque]
pub open spec fn medicine_words() -> Seq<&'static str> {
    seq![
        "医院",
        "药",
        "医",
    ]
}

/// Words in industry names of the sector of consumer staples.
#[verifier::opaque]
pub open spec fn staples_words() -> Seq<&'static str> {
    seq![
        "酒",
        "食品",
        "农牧",
        "饲渔",
    ]
}

/// Words in industry names of the sector of consumer discretionary.
#[verifier::opaque]
pub open spec fn discretionary_words() -> Seq<&'static str> {
    seq![
        "汽车",
        "家电",
        "旅游",
        "零售",
        "纺织",
        "珠宝",
    ]
}

/// Words in industry names of the sector of technology, media and telecommunications.
#[verifier::opaque]
pub open spec fn technology_words() -> Seq<&'static str> {
    seq![
        "半导体",
        "软件",
        "计算机",
        "通信",
        "互联网",
        "游戏",
        "传媒",
        "电子",
        "数据",
    ]
}

/// Words in industry names of the sector of finance and real estate.
#[verifier::opaque]
pub open spec fn finance_words() -> Seq<&'static str> {
    seq![
        "银行",
        "证券",
        "保险",
        "地产",
    ]
}

/// Words in industry names of the sector of advanced manufacturing.
#[verifier::opaque]
pub open spec fn manufacturing_words() -> Seq<&'static str> {
    seq![
        "光伏",
        "风电",
        "电池",
        "工程机械",
        "仪器仪表",
        "机器人",
    ]
}

/// Words in industry names of the sector of cyclical resources.
#[verifier::opaque]
pub open spec fn cyclicals_words() -> Seq<&'static str> {
    seq![
        "煤炭",
        "钢铁",
        "有色",
        "贵金属",
        "石油",
        "石化",
        "化学",
        "化肥",
        "化纤",
        "水泥",
        "玻璃",
    ]
}

/// Words in industry names of the sector of infrastructure, utilities and transport.
#[verifier::opaque]
pub open spec fn utilities_words() -> Seq<&'static str> {
    seq![
        "电力",
        "水务",
        "燃气",
        "物流",
        "航运",
        "港口",
        "铁路",
        "公路",
        "机场",
        "工程建设",
    ]
}

/// Words in industry names of the sector of national defence.
#[verifier::opaque]
pub open spec fn defence_words() -> Seq<&'static str> {
    seq![
        "航天",
        "军工",
    ]
}

/// The name is in the list.
pub open spec fn listed(names: Seq<&'static str>, name: Seq<char>) -> bool {
    exists|i: int| 0 <= i < names.len() && (#[trigger] names[i])@ == name
}

/// Some word of the list occurs in the name.
pub open spec fn mentions(words: Seq<&'static str>, name: Seq<char>) -> bool {
    exists|i: int| 0 <= i < words.len() && occurs(name, (#[trigger] words[i])@)
}

/// The sector in whose list an industry name stands.
pub open spec fn sector_by_name(name: Seq<char>) -> Option<Seq<char>> {
    if listed(medicine_names(), name) {
        Some("医药医疗"@)
    } else if listed(staples_names(), name) {
        Some("主要消费"@)
    } else if listed(discretionary_names(), name) {
        Some("可选消费"@)
    } else if listed(technology_names(), name) {
        Some("科技TMT"@)
    } else if listed(finance_names(), name) {
        Some("金融地产"@)
    } else if listed(manufacturing_names(), name) {
        Some("高端制造"@)
    } else if listed(cyclicals_names(), name) {
        Some("周期资源"@)
    } else if listed(utilities_names(), name) {
        Some("基建公用·交运"@)
    } else if listed(defence_names(), name) {
        Some("国防军工"@)
    } else {
        None
    }
}

/// The first sector one of whose words occurs in an industry name. The word for hotels goes before
/// that for liquor, with which it begins.
pub open spec fn sector_by_word(name: Seq<char>) -> Option<Seq<char>> {
    if mentions(pesticide_words(), name) {
        Some("周期资源"@)
    } else if mentions(medicine_words(), name) {
        Some("医药医疗"@)
    } else if occurs(name, "酒店"@) {
        Some("可选消费"@)
    } else if mentions(staples_words(), name) {
        Some("主要消费"@)
    } else if mentions(discretionary_words(), name) {
        Some("可选消费"@)
    } else if mentions(technology_words(), name) {
        Some("科技TMT"@)
    } else if mentions(finance_words(), name) {
        Some("金融地产"@)
    } else if mentions(manufacturing_words(), name) {
        Some("高端制造"@)
    } else if mentions(cyclicals_words(), name) {
        Some("周期资源"@)
    } else if mentions(utilities_words(), name) {
        Some("基建公用·交运"@)
    } else if mentions(defence_words(), name) {
        Some("国防军工"@)
    } else {
        None
    }
}

/// The sector of an industry: by its whole name, else by the first word that occurs in it, else
/// unclassified.
pub open spec fn sector_of(industry: Seq<char>) -> Seq<char> {
    let name = trimmed(industry);
    if name.len() == 0 {
        SECTOR_UNCLASSIFIED@
    } else {
        match sector_by_name(name) {
            Some(s) => s,
            None => match sector_by_word(name) {
                Some(s) => s,
                None => SECTOR_UNCLASSIFIED@,
            },
        }
    }
}

/// The words of `medicine_names`.
fn list_medicine_names() -> (r: Vec<&'static str>)
    ensures
        r@ == medicine_names(),
{
    reveal(medicine_names);
    let mut r: Vec<&'static str> = Vec::new();
    r.push("化学制药");
    r.push("中药");
    r.push("生物制品");
    r.push("医疗器械");
    r.push("医疗服务");
    r.push("医药商业");
    r.push("医疗美容");
    r.push("兽药");
    r.push("原料药");
    r
}

/// The words of `staples_names`.
fn list_staples_names() -> (r: Vec<&'static str>)
    ensures
        r@ == staples_names(),
{
    reveal(staples_names);
    let mut r: Vec<&'static str> = Vec::new();
    r.push("酿酒行业");
    r.push("食品饮料");
    r.push("农牧饲渔");
    r.push("调味发酵品");
    r.push("种业");
    r.push("养殖业");
    r
}

/// The words of `discretionary_names`.
fn list_discretionary_names() -> (r: Vec<&'static str>)
    ensures
        r@ == discretionary_names(),
{
    reveal(discretionary_names);
    let mut r: Vec<&'static str> = Vec::new();
    r.push("汽车整车");
    r.push("汽车零部件");
    r.push("汽车服务");
    r.push("家用电器");
    r.push("小家电");
    r.push("黑色家电");
    r.push("厨卫电器");
    r.push("照明设备");
    r.push("家用轻工");
    r.push("旅游酒店");
    r.push("旅游及景区");
    r.push("商贸零售");
    r.push("纺织服装");
    r.push("服装家纺");
    r.push("珠宝首饰");
    r.push("美容护理");
    r.push("专业连锁");
    r.push("互联网电商");
    r
}

/// The words of `technology_names`.
fn list_technology_names() -> (r: Vec<&'static str>)
    ensures
        r@ == technology_names(),
{
    reveal(technology_names);
    let mut r: Vec<&'static str> = Vec::new();
    r.push("半导体");
    r.push("电子元件");
    r.push("光学光电子");
    r.push("消费电子");
    r.push("电子化学品");
    r.push("通信设备");
    r.push("通信服务");
    r.push("软件开发");
    r.push("互联网服务");
    r.push("计算机设备");
    r.push("游戏");
    r.push("文化传媒");
    r.push("数字媒体");
    r.push("影视院线");
    r.push("出版");
    r
}

/// The words of `finance_names`.
fn list_finance_names() -> (r: Vec<&'static str>)
    ensures
        r@ == finance_names(),
{
    reveal(finance_names);
    let mut r: Vec<&'static str> = Vec::new();
    r.push("银行");
    r.push("保险");
    r.push("证券");
    r.push("多元金融");
    r.push("房地产");
    r.push("房地产开发");
    r.push("房地产服务");
    r
}

/// The words of `manufacturing_names`.
fn list_manufacturing_names() -> (r: Vec<&'static str>)
    ensures
        r@ == manufacturing_names(),
{
    reveal(manufacturing_names);
    let mut r: Vec<&'static str> = Vec::new();
    r.push("工程机械");
    r.push("通用设备");
    r.push("专用设备");
    r.push("仪器仪表");
    r.push("电力设备");
    r.push("光伏设备");
    r.push("风电设备");
    r.push("电池");
    r.push("电机");
    r.push("电网设备");
    r.push("自动化设备");
    r
}

/// The words of `cyclicals_names`.
fn list_cyclicals_names() -> (r: Vec<&'static str>)
    ensures
        r@ == cyclicals_names(),
{
    reveal(cyclicals_names);
    let mut r: Vec<&'static str> = Vec::new();
    r.push("煤炭行业");
    r.push("钢铁行业");
    r.push("有色金属");
    r.push("工业金属");
    r.push("贵金属");
    r.push("能源金属");
    r.push("小金属");
    r.push("石油行业");
    r.push("化肥行业");
    r.push("化学原料");
    r.push("化学制品");
    r.push("化纤行业");
    r.push("农药");
    r.push("水泥建材");
    r.push("玻璃玻纤");
    r.push("非金属材料");
    r.push("采掘服务");
    r
}

/// The words of `utilities_names`.
fn list_utilities_names() -> (r: Vec<&'static str>)
    ensures
        r@ == utilities_names(),
{
    reveal(utilities_names);
    let mut r: Vec<&'static str> = Vec::new();
    r.push("电力行业");
    r.push("燃气");
    r.push("水务");
    r.push("航运港口");
    r.push("铁路公路");
    r.push("物流行业");
    r.push("航空机场");
    r.push("工程建设");
    r.push("环境治理");
    r
}

/// The words of `defence_names`.
fn list_defence_names() -> (r: Vec<&'static str>)
    ensures
        r@ == defence_names(),
{
    reveal(defence_names);
    let mut r: Vec<&'static str> = Vec::new();
    r.push("航天航空");
    r.push("船舶制造");
    r
}

/// The words of `pesticide_words`.
fn list_pesticide_words() -> (r: Vec<&'static str>)
    ensures
        r@ == pesticide_words(),
{
    reveal(pesticide_words);
    let mut r: Vec<&'static str> = Vec::new();
    r.push("农药");
    r
}

/// The words of `medicine_words`.
fn list_medicine_words() -> (r: Vec<&'static str>)
    ensures
        r@ == medicine_words(),
{
    reveal(medicine_words);
    let mut r: Vec<&'static str> = Vec::new();
    r.push("医院");
    r.push("药");
    r.push("医");
    r
}

/// The words of `staples_words`.
fn list_staples_words() -> (r: Vec<&'static str>)
    ensures
        r@ == staples_words(),
{
    reveal(staples_words);
    let mut r: Vec<&'static str> = Vec::new();
    r.push("酒");
    r.push("食品");
    r.push("农牧");
    r.push("饲渔");
    r
}

/// The words of `discretionary_words`.
fn list_discretionary_words() -> (r: Vec<&'static str>)
    ensures
        r@ == discretionary_words(),
{
    reveal(discretionary_words);
    let mut r: Vec<&'static str> = Vec::new();
    r.push("汽车");
    r.push("家电");
    r.push("旅游");
    r.push("零售");
    r.push("纺织");
    r.push("珠宝");
    r
}

/// The words of `technology_words`.
fn list_technology_words() -> (r: Vec<&'static str>)
    ensures
        r@ == technology_words(),
{
    reveal(technology_words);
    let mut r: Vec<&'static str> = Vec::new();
    r.push("半导体");
    r.push("软件");
    r.push("计算机");
    r.push("通信");
    r.push("互联网");
    r.push("游戏");
    r.push("传媒");
    r.push("电子");
    r.push("数据");
    r
}

/// The words of `finance_words`.
fn list_finance_words() -> (r: Vec<&'static str>)
    ensures
        r@ == finance_words(),
{
    reveal(finance_words);
    let mut r: Vec<&'static str> = Vec::new();
    r.push("银行");
    r.push("证券");
    r.push("保险");
    r.push("地产");
    r
}

/// The words of `manufacturing_words`.
fn list_manufacturing_words() -> (r: Vec<&'static str>)
    ensures
        r@ == manufacturing_words(),
{
    reveal(manufacturing_words);
    let mut r: Vec<&'static str> = Vec::new();
    r.push("光伏");
    r.push("风电");
    r.push("电池");
    r.push("工程机械");
    r.push("仪器仪表");
    r.push("机器人");
    r
}

/// The words of `cyclicals_words`.
fn list_cyclicals_words() -> (r: Vec<&'static str>)
    ensures
        r@ == cyclicals_words(),
{
    reveal(cyclicals_words);
    let mut r: Vec<&'static str> = Vec::new();
    r.push("煤炭");
    r.push("钢铁");
    r.push("有色");
    r.push("贵金属");
    r.push("石油");
    r.push("石化");
    r.push("化学");
    r.push("化肥");
    r.push("化纤");
    r.push("水泥");
    r.push("玻璃");
    r
}

/// The words of `utilities_words`.
fn list_utilities_words() -> (r: Vec<&'static str>)
    ensures
        r@ == utilities_words(),
{
    reveal(utilities_words);
    let mut r: Vec<&'static str> = Vec::new();
    r.push("电力");
    r.push("水务");
    r.push("燃气");
    r.push("物流");
    r.push("航运");
    r.push("港口");
    r.push("铁路");
    r.push("公路");
    r.push("机场");
    r.push("工程建设");
    r
}

/// The words of `defence_words`.
fn list_defence_words() -> (r: Vec<&'static str>)
    ensures
        r@ == defence_words(),
{
    reveal(defence_words);
    let mut r: Vec<&'static str> = Vec::new();
    r.push("航天");
    r.push("军工");
    r
}

/// Whether the name is in the list.
pub fn is_listed(names: &Vec<&'static str>, name: &str) -> (r: bool)
    ensures
        r == listed(names@, name@),
{
    let mut i: usize = 0;
    while i < names.len()
        invariant
            i <= names@.len(),
            forall|j: int| 0 <= j < i ==> (#[trigger] names@[j])@ != name@,
        decreases names@.len() - i,
    {
        if same(names[i], name) {
            return true;
        }
        i += 1;
    }
    false
}

/// Whether some word of the list occurs in the name.
pub fn does_mention(words: &Vec<&'static str>, name: &str) -> (r: bool)
    ensures
        r == mentions(words@, name@),
{
    let mut i: usize = 0;
    while i < words.len()
        invariant
            i <= words@.len(),
            forall|j: int| 0 <= j < i ==> !occurs(name@, (#[trigger] words@[j])@),
        decreases words@.len() - i,
    {
        if contains(name, words[i]) {
            return true;
        }
        i += 1;
    }
    false
}

/// The sector of an industry.
pub fn sector_l1_of(industry_em: &str) -> (r: &'static str)
    ensures
        r@ == sector_of(industry_em@),
{
    let trimmed_name = trim(industry_em);
    let name = trimmed_name.as_str();
    if name.is_empty() {
        return SECTOR_UNCLASSIFIED;
    }
    if is_listed(&list_medicine_names(), name) {
        return "医药医疗";
    }
    if is_listed(&list_staples_names(), name) {
        return "主要消费";
    }
    if is_listed(&list_discretionary_names(), name) {
        return "可选消费";
    }
    if is_listed(&list_technology_names(), name) {
        return "科技TMT";
    }
    if is_listed(&list_finance_names(), name) {
        return "金融地产";
    }
    if is_listed(&list_manufacturing_names(), name) {
        return "高端制造";
    }
    if is_listed(&list_cyclicals_names(), name) {
        return "周期资源";
    }
    if is_listed(&list_utilities_names(), name) {
        return "基建公用·交运";
    }
    if is_listed(&list_defence_names(), name) {
        return "国防军工";
    }
    if does_mention(&list_pesticide_words(), name) {
        return "周期资源";
    }
    if does_mention(&list_medicine_words(), name) {
        return "医药医疗";
    }
    if contains(name, "酒店") {
        return "可选消费";
    }
    if does_mention(&list_staples_words(), name) {
        return "主要消费";
    }
    if does_mention(&list_discretionary_words(), name) {
        return "可选消费";
    }
    if does_mention(&list_technology_words(), name) {
        return "科技TMT";
    }
    if does_mention(&list_finance_words(), name) {
        return "金融地产";
    }
    if does_mention(&list_manufacturing_words(), name) {
        return "高端制造";
    }
    if does_mention(&list_cyclicals_words(), name) {
        return "周期资源";
    }
    if does_mention(&list_utilities_words(), name) {
        return "基建公用·交运";
    }
    if does_mention(&list_defence_words(), name) {
        return "国防军工";
    }
    SECTOR_UNCLASSIFIED
}

/// The market of a stock: six digits for the mainland, five for Hong Kong, anything else for the
/// United States.
pub open spec fn market(code: Seq<char>) -> Seq<char> {
    if digits_n(trimmed(code), 6) {
        "A"@
    } else if digits_n(trimmed(code), 5) {
        "HK"@
    } else {
        "US"@
    }
}

/// The market of a stock.
pub fn market_of(stock_code: &str) -> (r: &'static str)
    ensures
        r@ == market(stock_code@),
        stock_code@.len() == 6 && (forall|i: int|
            0 <= i < 6 ==> '0' <= (#[trigger] stock_code@[i]) && stock_code@[i] <= '9') ==> r@
            == "A"@,
        stock_code@.len() == 5 && (forall|i: int|
            0 <= i < 5 ==> '0' <= (#[trigger] stock_code@[i]) && stock_code@[i] <= '9') ==> r@
            == "HK"@,
{
    proof {
        let c = stock_code@;
        if c.len() == 6 && (forall|i: int|
            0 <= i < 6 ==> '0' <= (#[trigger] c[i]) && c[i] <= '9') {
            law_six_digits_are_the_mainland(Seq::empty(), c, Seq::empty());
        }
        if c.len() == 5 && (forall|i: int|
            0 <= i < 5 ==> '0' <= (#[trigger] c[i]) && c[i] <= '9') {
            law_five_digits_are_hong_kong(Seq::empty(), c, Seq::empty());
        }
    }
    let s = trim(stock_code);
    if is_digits_n(s.as_str(), 6) {
        "A"
    } else if is_digits_n(s.as_str(), 5) {
        "HK"
    } else {
        "US"
    }
}

} // verus!
