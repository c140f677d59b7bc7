//! Laws of the word lists: which sector an industry belongs to, which index a fund's name stands for
//! and which days are off, word by word.
use vstd::prelude::*;
use crate::calendar::{builtin_off, off_days_2024_early, off_days_2024_late, off_days_2025_early, off_days_2025_late, off_days_2026_early, off_days_2026_late};
use crate::funds::{alias_code, benchmark, broad_rules, cleaned, energy_health_rules, finance_technology_rules, first_rule, fund_aliases, hong_kong_rules, resource_rules, IndexRule};
use crate::sector::{listed, mentions, sector_of, cyclicals_names, cyclicals_words, defence_names, defence_words, discretionary_names, discretionary_words, finance_names, finance_words, manufacturing_names, manufacturing_words, medicine_names, medicine_words, pesticide_words, staples_names, staples_words, technology_names, technology_words, utilities_names, utilities_words};
use crate::text::{occurs, trimmed};

verus! {

proof fn lemma_medicine_names(name: Seq<char>)
    ensures
        listed(medicine_names(), name) <==> (name == "化学制药"@ ||
            name == "中药"@ ||
            name == "生物制品"@ ||
            name == "医疗器械"@ ||
            name == "医疗服务"@ ||
            name == "医药商业"@ ||
            name == "医疗美容"@ ||
            name == "兽药"@ ||
            name == "原料药"@),
{
    reveal(medicine_names);
    let l = medicine_names();
    assert(l.len() == 9);
    assert(l[0]@ == "化学制药"@);
    assert(l[1]@ == "中药"@);
    assert(l[2]@ == "生物制品"@);
    assert(l[3]@ == "医疗器械"@);
    assert(l[4]@ == "医疗服务"@);
    assert(l[5]@ == "医药商业"@);
    assert(l[6]@ == "医疗美容"@);
    assert(l[7]@ == "兽药"@);
    assert(l[8]@ == "原料药"@);
}

proof fn lemma_staples_names(name: Seq<char>)
    ensures
        listed(staples_names(), name) <==> (name == "酿酒行业"@ ||
            name == "食品饮料"@ ||
            name == "农牧饲渔"@ ||
            name == "调味发酵品"@ ||
            name == "种业"@ ||
            name == "养殖业"@),
{
    reveal(staples_names);
    let l = staples_names();
    assert(l.len() == 6);
    assert(l[0]@ == "酿酒行业"@);
    assert(l[1]@ == "食品饮料"@);
    assert(l[2]@ == "农牧饲渔"@);
    assert(l[3]@ == "调味发酵品"@);
    assert(l[4]@ == "种业"@);
    assert(l[5]@ == "养殖业"@);
}

proof fn lemma_discretionary_names(name: Seq<char>)
    ensures
        listed(discretionary_names(), name) <==> (name == "汽车整车"@ ||
            name == "汽车零部件"@ ||
            name == "汽车服务"@ ||
            name == "家用电器"@ ||
            name == "小家电"@ ||
            name == "黑色家电"@ ||
            name == "厨卫电器"@ ||
            name == "照明设备"@ ||
            name == "家用轻工"@ ||
            name == "旅游酒店"@ ||
            name == "旅游及景区"@ ||
            name == "商贸零售"@ ||
            name == "纺织服装"@ ||
            name == "服装家纺"@ ||
            name == "珠宝首饰"@ ||
            name == "美容护理"@ ||
            name == "专业连锁"@ ||
            name == "互联网电商"@),
{
    reveal(discretionary_names);
    let l = discretionary_names();
    assert(l.len() == 18);
    assert(l[0]@ == "汽车整车"@);
    assert(l[1]@ == "汽车零部件"@);
    assert(l[2]@ == "汽车服务"@);
    assert(l[3]@ == "家用电器"@);
    assert(l[4]@ == "小家电"@);
    assert(l[5]@ == "黑色家电"@);
    assert(l[6]@ == "厨卫电器"@);
    assert(l[7]@ == "照明设备"@);
    assert(l[8]@ == "家用轻工"@);
    assert(l[9]@ == "旅游酒店"@);
    assert(l[10]@ == "旅游及景区"@);
    assert(l[11]@ == "商贸零售"@);
    assert(l[12]@ == "纺织服装"@);
    assert(l[13]@ == "服装家纺"@);
    assert(l[14]@ == "珠宝首饰"@);
    assert(l[15]@ == "美容护理"@);
    assert(l[16]@ == "专业连锁"@);
    assert(l[17]@ == "互联网电商"@);
}

proof fn lemma_technology_names(name: Seq<char>)
    ensures
        listed(technology_names(), name) <==> (name == "半导体"@ ||
            name == "电子元件"@ ||
            name == "光学光电子"@ ||
            name == "消费电子"@ ||
            name == "电子化学品"@ ||
            name == "通信设备"@ ||
            name == "通信服务"@ ||
            name == "软件开发"@ ||
            name == "互联网服务"@ ||
            name == "计算机设备"@ ||
            name == "游戏"@ ||
            name == "文化传媒"@ ||
            name == "数字媒体"@ ||
            name == "影视院线"@ ||
            name == "出版"@),
{
    reveal(technology_names);
    let l = technology_names();
    assert(l.len() == 15);
    assert(l[0]@ == "半导体"@);
    assert(l[1]@ == "电子元件"@);
    assert(l[2]@ == "光学光电子"@);
    assert(l[3]@ == "消费电子"@);
    assert(l[4]@ == "电子化学品"@);
    assert(l[5]@ == "通信设备"@);
    assert(l[6]@ == "通信服务"@);
    assert(l[7]@ == "软件开发"@);
    assert(l[8]@ == "互联网服务"@);
    assert(l[9]@ == "计算机设备"@);
    assert(l[10]@ == "游戏"@);
    assert(l[11]@ == "文化传媒"@);
    assert(l[12]@ == "数字媒体"@);
    assert(l[13]@ == "影视院线"@);
    assert(l[14]@ == "出版"@);
}

proof fn lemma_finance_names(name: Seq<char>)
    ensures
        listed(finance_names(), name) <==> (name == "银行"@ ||
            name == "保险"@ ||
            name == "证券"@ ||
            name == "多元金融"@ ||
            name == "房地产"@ ||
            name == "房地产开发"@ ||
            name == "房地产服务"@),
{
    reveal(finance_names);
    let l = finance_names();
    assert(l.len() == 7);
    assert(l[0]@ == "银行"@);
    assert(l[1]@ == "保险"@);
    assert(l[2]@ == "证券"@);
    assert(l[3]@ == "多元金融"@);
    assert(l[4]@ == "房地产"@);
    assert(l[5]@ == "房地产开发"@);
    assert(l[6]@ == "房地产服务"@);
}

proof fn lemma_manufacturing_names(name: Seq<char>)
    ensures
        listed(manufacturing_names(), name) <==> (name == "工程机械"@ ||
            name == "通用设备"@ ||
            name == "专用设备"@ ||
            name == "仪器仪表"@ ||
            name == "电力设备"@ ||
            name == "光伏设备"@ ||
            name == "风电设备"@ ||
            name == "电池"@ ||
            name == "电机"@ ||
            name == "电网设备"@ ||
            name == "自动化设备"@),
{
    reveal(manufacturing_names);
    let l = manufacturing_names();
    assert(l.len() == 11);
    assert(l[0]@ == "工程机械"@);
    assert(l[1]@ == "通用设备"@);
    assert(l[2]@ == "专用设备"@);
    assert(l[3]@ == "仪器仪表"@);
    assert(l[4]@ == "电力设备"@);
    assert(l[5]@ == "光伏设备"@);
    assert(l[6]@ == "风电设备"@);
    assert(l[7]@ == "电池"@);
    assert(l[8]@ == "电机"@);
    assert(l[9]@ == "电网设备"@);
    assert(l[10]@ == "自动化设备"@);
}

proof fn lemma_cyclicals_names(name: Seq<char>)
    ensures
        listed(cyclicals_names(), name) <==> (name == "煤炭行业"@ ||
            name == "钢铁行业"@ ||
            name == "有色金属"@ ||
            name == "工业金属"@ ||
            name == "贵金属"@ ||
            name == "能源金属"@ ||
            name == "小金属"@ ||
            name == "石油行业"@ ||
            name == "化肥行业"@ ||
            name == "化学原料"@ ||
            name == "化学制品"@ ||
            name == "化纤行业"@ ||
            name == "农药"@ ||
            name == "水泥建材"@ ||
            name == "玻璃玻纤"@ ||
            name == "非金属材料"@ ||
            name == "采掘服务"@),
{
    reveal(cyclicals_names);
    let l = cyclicals_names();
    assert(l.len() == 17);
    assert(l[0]@ == "煤炭行业"@);
    assert(l[1]@ == "钢铁行业"@);
    assert(l[2]@ == "有色金属"@);
    assert(l[3]@ == "工业金属"@);
    assert(l[4]@ == "贵金属"@);
    assert(l[5]@ == "能源金属"@);
    assert(l[6]@ == "小金属"@);
    assert(l[7]@ == "石油行业"@);
    assert(l[8]@ == "化肥行业"@);
    assert(l[9]@ == "化学原料"@);
    assert(l[10]@ == "化学制品"@);
    assert(l[11]@ == "化纤行业"@);
    assert(l[12]@ == "农药"@);
    assert(l[13]@ == "水泥建材"@);
    assert(l[14]@ == "玻璃玻纤"@);
    assert(l[15]@ == "非金属材料"@);
    assert(l[16]@ == "采掘服务"@);
}

proof fn lemma_utilities_names(name: Seq<char>)
    ensures
        listed(utilities_names(), name) <==> (name == "电力行业"@ ||
            name == "燃气"@ ||
            name == "水务"@ ||
            name == "航运港口"@ ||
            name == "铁路公路"@ ||
            name == "物流行业"@ ||
            name == "航空机场"@ ||
            name == "工程建设"@ ||
            name == "环境治理"@),
{
    reveal(utilities_names);
    let l = utilities_names();
    assert(l.len() == 9);
    assert(l[0]@ == "电力行业"@);
    assert(l[1]@ == "燃气"@);
    assert(l[2]@ == "水务"@);
    assert(l[3]@ == "航运港口"@);
    assert(l[4]@ == "铁路公路"@);
    assert(l[5]@ == "物流行业"@);
    assert(l[6]@ == "航空机场"@);
    assert(l[7]@ == "工程建设"@);
    assert(l[8]@ == "环境治理"@);
}

proof fn lemma_defence_names(name: Seq<char>)
    ensures
        listed(defence_names(), name) <==> (name == "航天航空"@ ||
            name == "船舶制造"@),
{
    reveal(defence_names);
    let l = defence_names();
    assert(l.len() == 2);
    assert(l[0]@ == "航天航空"@);
    assert(l[1]@ == "船舶制造"@);
}

proof fn lemma_pesticide_words(name: Seq<char>)
    ensures
        mentions(pesticide_words(), name) <==> (occurs(name, "农药"@)),
{
    reveal(pesticide_words);
    let l = pesticide_words();
    assert(l.len() == 1);
    assert(l[0]@ == "农药"@);
}

proof fn lemma_medicine_words(name: Seq<char>)
    ensures
        mentions(medicine_words(), name) <==> (occurs(name, "医院"@) ||
            occurs(name, "药"@) ||
            occurs(name, "医"@)),
{
    reveal(medicine_words);
    let l = medicine_words();
    assert(l.len() == 3);
    assert(l[0]@ == "医院"@);
    assert(l[1]@ == "药"@);
    assert(l[2]@ == "医"@);
}

proof fn lemma_staples_words(name: Seq<char>)
    ensures
        mentions(staples_words(), name) <==> (occurs(name, "酒"@) ||
            occurs(name, "食品"@) ||
            occurs(name, "农牧"@) ||
            occurs(name, "饲渔"@)),
{
    reveal(staples_words);
    let l = staples_words();
    assert(l.len() == 4);
    assert(l[0]@ == "酒"@);
    assert(l[1]@ == "食品"@);
    assert(l[2]@ == "农牧"@);
    assert(l[3]@ == "饲渔"@);
}

proof fn lemma_discretionary_words(name: Seq<char>)
    ensures
        mentions(discretionary_words(), name) <==> (occurs(name, "汽车"@) ||
            occurs(name, "家电"@) ||
            occurs(name, "旅游"@) ||
            occurs(name, "零售"@) ||
            occurs(name, "纺织"@) ||
            occurs(name, "珠宝"@)),
{
    reveal(discretionary_words);
    let l = discretionary_words();
    assert(l.len() == 6);
    assert(l[0]@ == "汽车"@);
    assert(l[1]@ == "家电"@);
    assert(l[2]@ == "旅游"@);
    assert(l[3]@ == "零售"@);
    assert(l[4]@ == "纺织"@);
    assert(l[5]@ == "珠宝"@);
}

proof fn lemma_technology_words(name: Seq<char>)
    ensures
        mentions(technology_words(), name) <==> (occurs(name, "半导体"@) ||
            occurs(name, "软件"@) ||
            occurs(name, "计算机"@) ||
            occurs(name, "通信"@) ||
            occurs(name, "互联网"@) ||
            occurs(name, "游戏"@) ||
            occurs(name, "传媒"@) ||
            occurs(name, "电子"@) ||
            occurs(name, "数据"@)),
{
    reveal(technology_words);
    let l = technology_words();
    assert(l.len() == 9);
    assert(l[0]@ == "半导体"@);
    assert(l[1]@ == "软件"@);
    assert(l[2]@ == "计算机"@);
    assert(l[3]@ == "通信"@);
    assert(l[4]@ == "互联网"@);
    assert(l[5]@ == "游戏"@);
    assert(l[6]@ == "传媒"@);
    assert(l[7]@ == "电子"@);
    assert(l[8]@ == "数据"@);
}

proof fn lemma_finance_words(name: Seq<char>)
    ensures
        mentions(finance_words(), name) <==> (occurs(name, "银行"@) ||
            occurs(name, "证券"@) ||
            occurs(name, "保险"@) ||
            occurs(name, "地产"@)),
{
    reveal(finance_words);
    let l = finance_words();
    assert(l.len() == 4);
    assert(l[0]@ == "银行"@);
    assert(l[1]@ == "证券"@);
    assert(l[2]@ == "保险"@);
    assert(l[3]@ == "地产"@);
}

proof fn lemma_manufacturing_words(name: Seq<char>)
    ensures
        mentions(manufacturing_words(), name) <==> (occurs(name, "光伏"@) ||
            occurs(name, "风电"@) ||
            occurs(name, "电池"@) ||
            occurs(name, "工程机械"@) ||
            occurs(name, "仪器仪表"@) ||
            occurs(name, "机器人"@)),
{
    reveal(manufacturing_words);
    let l = manufacturing_words();
    assert(l.len() == 6);
    assert(l[0]@ == "光伏"@);
    assert(l[1]@ == "风电"@);
    assert(l[2]@ == "电池"@);
    assert(l[3]@ == "工程机械"@);
    assert(l[4]@ == "仪器仪表"@);
    assert(l[5]@ == "机器人"@);
}

proof fn lemma_cyclicals_words(name: Seq<char>)
    ensures
        mentions(cyclicals_words(), name) <==> (occurs(name, "煤炭"@) ||
            occurs(name, "钢铁"@) ||
            occurs(name, "有色"@) ||
            occurs(name, "贵金属"@) ||
            occurs(name, "石油"@) ||
            occurs(name, "石化"@) ||
            occurs(name, "化学"@) ||
            occurs(name, "化肥"@) ||
            occurs(name, "化纤"@) ||
            occurs(name, "水泥"@) ||
            occurs(name, "玻璃"@)),
{
    reveal(cyclicals_words);
    let l = cyclicals_words();
    assert(l.len() == 11);
    assert(l[0]@ == "煤炭"@);
    assert(l[1]@ == "钢铁"@);
    assert(l[2]@ == "有色"@);
    assert(l[3]@ == "贵金属"@);
    assert(l[4]@ == "石油"@);
    assert(l[5]@ == "石化"@);
    assert(l[6]@ == "化学"@);
    assert(l[7]@ == "化肥"@);
    assert(l[8]@ == "化纤"@);
    assert(l[9]@ == "水泥"@);
    assert(l[10]@ == "玻璃"@);
}

proof fn lemma_utilities_words(name: Seq<char>)
    ensures
        mentions(utilities_words(), name) <==> (occurs(name, "电力"@) ||
            occurs(name, "水务"@) ||
            occurs(name, "燃气"@) ||
            occurs(name, "物流"@) ||
            occurs(name, "航运"@) ||
            occurs(name, "港口"@) ||
            occurs(name, "铁路"@) ||
            occurs(name, "公路"@) ||
            occurs(name, "机场"@) ||
            occurs(name, "工程建设"@)),
{
    reveal(utilities_words);
    let l = utilities_words();
    assert(l.len() == 10);
    assert(l[0]@ == "电力"@);
    assert(l[1]@ == "水务"@);
    assert(l[2]@ == "燃气"@);
    assert(l[3]@ == "物流"@);
    assert(l[4]@ == "航运"@);
    assert(l[5]@ == "港口"@);
    assert(l[6]@ == "铁路"@);
    assert(l[7]@ == "公路"@);
    assert(l[8]@ == "机场"@);
    assert(l[9]@ == "工程建设"@);
}

proof fn lemma_defence_words(name: Seq<char>)
    ensures
        mentions(defence_words(), name) <==> (occurs(name, "航天"@) ||
            occurs(name, "军工"@)),
{
    reveal(defence_words);
    let l = defence_words();
    assert(l.len() == 2);
    assert(l[0]@ == "航天"@);
    assert(l[1]@ == "军工"@);
}

/// The sector of an industry, white space round its name left out: that of the whole name where it is
/// one of those listed, else that of the first word that occurs in it, in the order of the list below;
/// without a name, or without any such word, it is unclassified.
pub proof fn law_sector_of_an_industry(industry: Seq<char>)
    ensures
        ({
            let name = trimmed(industry);
            sector_of(industry) == (if name.len() == 0 {
                "未分类"@
            } else if name == "化学制药"@ ||
                name == "中药"@ ||
                name == "生物制品"@ ||
                name == "医疗器械"@ ||
                name == "医疗服务"@ ||
                name == "医药商业"@ ||
                name == "医疗美容"@ ||
                name == "兽药"@ ||
                name == "原料药"@ {
                "医药医疗"@
            } else if name == "酿酒行业"@ ||
                name == "食品饮料"@ ||
                name == "农牧饲渔"@ ||
                name == "调味发酵品"@ ||
                name == "种业"@ ||
                name == "养殖业"@ {
                "主要消费"@
            } else if name == "汽车整车"@ ||
                name == "汽车零部件"@ ||
                name == "汽车服务"@ ||
                name == "家用电器"@ ||
                name == "小家电"@ ||
                name == "黑色家电"@ ||
                name == "厨卫电器"@ ||
                name == "照明设备"@ ||
                name == "家用轻工"@ ||
                name == "旅游酒店"@ ||
                name == "旅游及景区"@ ||
                name == "商贸零售"@ ||
                name == "纺织服装"@ ||
                name == "服装家纺"@ ||
                name == "珠宝首饰"@ ||
                name == "美容护理"@ ||
                name == "专业连锁"@ ||
                name == "互联网电商"@ {
                "可选消费"@
            } else if name == "半导体"@ ||
                name == "电子元件"@ ||
                name == "光学光电子"@ ||
                name == "消费电子"@ ||
                name == "电子化学品"@ ||
                name == "通信设备"@ ||
                name == "通信服务"@ ||
                name == "软件开发"@ ||
                name == "互联网服务"@ ||
                name == "计算机设备"@ ||
                name == "游戏"@ ||
                name == "文化传媒"@ ||
                name == "数字媒体"@ ||
                name == "影视院线"@ ||
                name == "出版"@ {
                "科技TMT"@
            } else if name == "银行"@ ||
                name == "保险"@ ||
                name == "证券"@ ||
                name == "多元金融"@ ||
                name == "房地产"@ ||
                name == "房地产开发"@ ||
                name == "房地产服务"@ {
                "金融地产"@
            } else if name == "工程机械"@ ||
                name == "通用设备"@ ||
                name == "专用设备"@ ||
                name == "仪器仪表"@ ||
                name == "电力设备"@ ||
                name == "光伏设备"@ ||
                name == "风电设备"@ ||
                name == "电池"@ ||
                name == "电机"@ ||
                name == "电网设备"@ ||
                name == "自动化设备"@ {
                "高端制造"@
            } else if name == "煤炭行业"@ ||
                name == "钢铁行业"@ ||
                name == "有色金属"@ ||
                name == "工业金属"@ ||
                name == "贵金属"@ ||
                name == "能源金属"@ ||
                name == "小金属"@ ||
                name == "石油行业"@ ||
                name == "化肥行业"@ ||
                name == "化学原料"@ ||
                name == "化学制品"@ ||
                name == "化纤行业"@ ||
                name == "农药"@ ||
                name == "水泥建材"@ ||
                name == "玻璃玻纤"@ ||
                name == "非金属材料"@ ||
                name == "采掘服务"@ {
                "周期资源"@
            } else if name == "电力行业"@ ||
                name == "燃气"@ ||
                name == "水务"@ ||
                name == "航运港口"@ ||
                name == "铁路公路"@ ||
                name == "物流行业"@ ||
                name == "航空机场"@ ||
                name == "工程建设"@ ||
                name == "环境治理"@ {
                "基建公用·交运"@
            } else if name == "航天航空"@ ||
                name == "船舶制造"@ {
                "国防军工"@
            } else if occurs(name, "农药"@) {
                "周期资源"@
            } else if occurs(name, "医院"@) ||
                occurs(name, "药"@) ||
                occurs(name, "医"@) {
                "医药医疗"@
            } else if occurs(name, "酒店"@) {
                "可选消费"@
            } else if occurs(name, "酒"@) ||
                occurs(name, "食品"@) ||
                occurs(name, "农牧"@) ||
                occurs(name, "饲渔"@) {
                "主要消费"@
            } else if occurs(name, "汽车"@) ||
                occurs(name, "家电"@) ||
                occurs(name, "旅游"@) ||
                occurs(name, "零售"@) ||
                occurs(name, "纺织"@) ||
                occurs(name, "珠宝"@) {
                "可选消费"@
            } else if occurs(name, "半导体"@) ||
                occurs(name, "软件"@) ||
                occurs(name, "计算机"@) ||
                occurs(name, "通信"@) ||
                occurs(name, "互联网"@) ||
                occurs(name, "游戏"@) ||
                occurs(name, "传媒"@) ||
                occurs(name, "电子"@) ||
                occurs(name, "数据"@) {
                "科技TMT"@
            } else if occurs(name, "银行"@) ||
                occurs(name, "证券"@) ||
                occurs(name, "保险"@) ||
                occurs(name, "地产"@) {
                "金融地产"@
            } else if occurs(name, "光伏"@) ||
                occurs(name, "风电"@) ||
                occurs(name, "电池"@) ||
                occurs(name, "工程机械"@) ||
                occurs(name, "仪器仪表"@) ||
                occurs(name, "机器人"@) {
                "高端制造"@
            } else if occurs(name, "煤炭"@) ||
                occurs(name, "钢铁"@) ||
                occurs(name, "有色"@) ||
                occurs(name, "贵金属"@) ||
                occurs(name, "石油"@) ||
                occurs(name, "石化"@) ||
                occurs(name, "化学"@) ||
                occurs(name, "化肥"@) ||
                occurs(name, "化纤"@) ||
                occurs(name, "水泥"@) ||
                occurs(name, "玻璃"@) {
                "周期资源"@
            } else if occurs(name, "电力"@) ||
                occurs(name, "水务"@) ||
                occurs(name, "燃气"@) ||
                occurs(name, "物流"@) ||
                occurs(name, "航运"@) ||
                occurs(name, "港口"@) ||
                occurs(name, "铁路"@) ||
                occurs(name, "公路"@) ||
                occurs(name, "机场"@) ||
                occurs(name, "工程建设"@) {
                "基建公用·交运"@
            } else if occurs(name, "航天"@) ||
                occurs(name, "军工"@) {
                "国防军工"@
            } else {
                "未分类"@
            })
        }),
{
    let name = trimmed(industry);
    lemma_medicine_names(name);
    lemma_staples_names(name);
    lemma_discretionary_names(name);
    lemma_technology_names(name);
    lemma_finance_names(name);
    lemma_manufacturing_names(name);
    lemma_cyclicals_names(name);
    lemma_utilities_names(name);
    lemma_defence_names(name);
    lemma_pesticide_words(name);
    lemma_medicine_words(name);
    lemma_staples_words(name);
    lemma_discretionary_words(name);
    lemma_technology_words(name);
    lemma_finance_words(name);
    lemma_manufacturing_words(name);
    lemma_cyclicals_words(name);
    lemma_utilities_words(name);
    lemma_defence_words(name);
}

proof fn lemma_off_days_2024_early(date: Seq<char>)
    ensures
        listed(off_days_2024_early(), date) <==> (date == "2024-01-01"@ ||
            date == "2024-02-10"@ ||
            date == "2024-02-11"@ ||
            date == "2024-02-12"@ ||
            date == "2024-02-13"@ ||
            date == "2024-02-14"@ ||
            date == "2024-02-15"@ ||
            date == "2024-02-16"@ ||
            date == "2024-02-17"@ ||
            date == "2024-04-04"@ ||
            date == "2024-04-05"@ ||
            date == "2024-04-06"@ ||
            date == "2024-05-01"@ ||
            date == "2024-05-02"@),
{
    reveal(off_days_2024_early);
    let l = off_days_2024_early();
    assert(l.len() == 14);
    assert(l[0]@ == "2024-01-01"@);
    assert(l[1]@ == "2024-02-10"@);
    assert(l[2]@ == "2024-02-11"@);
    assert(l[3]@ == "2024-02-12"@);
    assert(l[4]@ == "2024-02-13"@);
    assert(l[5]@ == "2024-02-14"@);
    assert(l[6]@ == "2024-02-15"@);
    assert(l[7]@ == "2024-02-16"@);
    assert(l[8]@ == "2024-02-17"@);
    assert(l[9]@ == "2024-04-04"@);
    assert(l[10]@ == "2024-04-05"@);
    assert(l[11]@ == "2024-04-06"@);
    assert(l[12]@ == "2024-05-01"@);
    assert(l[13]@ == "2024-05-02"@);
}

proof fn lemma_off_days_2024_late(date: Seq<char>)
    ensures
        listed(off_days_2024_late(), date) <==> (date == "2024-05-03"@ ||
            date == "2024-05-04"@ ||
            date == "2024-05-05"@ ||
            date == "2024-06-10"@ ||
            date == "2024-09-15"@ ||
            date == "2024-09-16"@ ||
            date == "2024-09-17"@ ||
            date == "2024-10-01"@ ||
            date == "2024-10-02"@ ||
            date == "2024-10-03"@ ||
            date == "2024-10-04"@ ||
            date == "2024-10-05"@ ||
            date == "2024-10-06"@ ||
            date == "2024-10-07"@),
{
    reveal(off_days_2024_late);
    let l = off_days_2024_late();
    assert(l.len() == 14);
    assert(l[0]@ == "2024-05-03"@);
    assert(l[1]@ == "2024-05-04"@);
    assert(l[2]@ == "2024-05-05"@);
    assert(l[3]@ == "2024-06-10"@);
    assert(l[4]@ == "2024-09-15"@);
    assert(l[5]@ == "2024-09-16"@);
    assert(l[6]@ == "2024-09-17"@);
    assert(l[7]@ == "2024-10-01"@);
    assert(l[8]@ == "2024-10-02"@);
    assert(l[9]@ == "2024-10-03"@);
    assert(l[10]@ == "2024-10-04"@);
    assert(l[11]@ == "2024-10-05"@);
    assert(l[12]@ == "2024-10-06"@);
    assert(l[13]@ == "2024-10-07"@);
}

proof fn lemma_off_days_2025_early(date: Seq<char>)
    ensures
        listed(off_days_2025_early(), date) <==> (date == "2025-01-01"@ ||
            date == "2025-01-28"@ ||
            date == "2025-01-29"@ ||
            date == "2025-01-30"@ ||
            date == "2025-01-31"@ ||
            date == "2025-02-01"@ ||
            date == "2025-02-02"@ ||
            date == "2025-02-03"@ ||
            date == "2025-02-04"@ ||
            date == "2025-04-04"@ ||
            date == "2025-04-05"@ ||
            date == "2025-04-06"@ ||
            date == "2025-05-01"@ ||
            date == "2025-05-02"@),
{
    reveal(off_days_2025_early);
    let l = off_days_2025_early();
    assert(l.len() == 14);
    assert(l[0]@ == "2025-01-01"@);
    assert(l[1]@ == "2025-01-28"@);
    assert(l[2]@ == "2025-01-29"@);
    assert(l[3]@ == "2025-01-30"@);
    assert(l[4]@ == "2025-01-31"@);
    assert(l[5]@ == "2025-02-01"@);
    assert(l[6]@ == "2025-02-02"@);
    assert(l[7]@ == "2025-02-03"@);
    assert(l[8]@ == "2025-02-04"@);
    assert(l[9]@ == "2025-04-04"@);
    assert(l[10]@ == "2025-04-05"@);
    assert(l[11]@ == "2025-04-06"@);
    assert(l[12]@ == "2025-05-01"@);
    assert(l[13]@ == "2025-05-02"@);
}

proof fn lemma_off_days_2025_late(date: Seq<char>)
    ensures
        listed(off_days_2025_late(), date) <==> (date == "2025-05-03"@ ||
            date == "2025-05-04"@ ||
            date == "2025-05-05"@ ||
            date == "2025-05-31"@ ||
            date == "2025-06-01"@ ||
            date == "2025-06-02"@ ||
            date == "2025-10-01"@ ||
            date == "2025-10-02"@ ||
            date == "2025-10-03"@ ||
            date == "2025-10-04"@ ||
            date == "2025-10-05"@ ||
            date == "2025-10-06"@ ||
            date == "2025-10-07"@ ||
            date == "2025-10-08"@),
{
    reveal(off_days_2025_late);
    let l = off_days_2025_late();
    assert(l.len() == 14);
    assert(l[0]@ == "2025-05-03"@);
    assert(l[1]@ == "2025-05-04"@);
    assert(l[2]@ == "2025-05-05"@);
    assert(l[3]@ == "2025-05-31"@);
    assert(l[4]@ == "2025-06-01"@);
    assert(l[5]@ == "2025-06-02"@);
    assert(l[6]@ == "2025-10-01"@);
    assert(l[7]@ == "2025-10-02"@);
    assert(l[8]@ == "2025-10-03"@);
    assert(l[9]@ == "2025-10-04"@);
    assert(l[10]@ == "2025-10-05"@);
    assert(l[11]@ == "2025-10-06"@);
    assert(l[12]@ == "2025-10-07"@);
    assert(l[13]@ == "2025-10-08"@);
}

proof fn lemma_off_days_2026_early(date: Seq<char>)
    ensures
        listed(off_days_2026_early(), date) <==> (date == "2026-01-01"@ ||
            date == "2026-01-02"@ ||
            date == "2026-01-03"@ ||
            date == "2026-02-15"@ ||
            date == "2026-02-16"@ ||
            date == "2026-02-17"@ ||
            date == "2026-02-18"@ ||
            date == "2026-02-19"@ ||
            date == "2026-02-20"@ ||
            date == "2026-02-21"@ ||
            date == "2026-02-22"@ ||
            date == "2026-02-23"@ ||
            date == "2026-04-04"@ ||
            date == "2026-04-05"@ ||
            date == "2026-04-06"@ ||
            date == "2026-05-01"@ ||
            date == "2026-05-02"@),
{
    reveal(off_days_2026_early);
    let l = off_days_2026_early();
    assert(l.len() == 17);
    assert(l[0]@ == "2026-01-01"@);
    assert(l[1]@ == "2026-01-02"@);
    assert(l[2]@ == "2026-01-03"@);
    assert(l[3]@ == "2026-02-15"@);
    assert(l[4]@ == "2026-02-16"@);
    assert(l[5]@ == "2026-02-17"@);
    assert(l[6]@ == "2026-02-18"@);
    assert(l[7]@ == "2026-02-19"@);
    assert(l[8]@ == "2026-02-20"@);
    assert(l[9]@ == "2026-02-21"@);
    assert(l[10]@ == "2026-02-22"@);
    assert(l[11]@ == "2026-02-23"@);
    assert(l[12]@ == "2026-04-04"@);
    assert(l[13]@ == "2026-04-05"@);
    assert(l[14]@ == "2026-04-06"@);
    assert(l[15]@ == "2026-05-01"@);
    assert(l[16]@ == "2026-05-02"@);
}

proof fn lemma_off_days_2026_late(date: Seq<char>)
    ensures
        listed(off_days_2026_late(), date) <==> (date == "2026-05-03"@ ||
            date == "2026-05-04"@ ||
            date == "2026-05-05"@ ||
            date == "2026-06-19"@ ||
            date == "2026-06-20"@ ||
            date == "2026-06-21"@ ||
            date == "2026-09-25"@ ||
            date == "2026-09-26"@ ||
            date == "2026-09-27"@ ||
            date == "2026-10-01"@ ||
            date == "2026-10-02"@ ||
            date == "2026-10-03"@ ||
            date == "2026-10-04"@ ||
            date == "2026-10-05"@ ||
            date == "2026-10-06"@ ||
            date == "2026-10-07"@),
{
    reveal(off_days_2026_late);
    let l = off_days_2026_late();
    assert(l.len() == 16);
    assert(l[0]@ == "2026-05-03"@);
    assert(l[1]@ == "2026-05-04"@);
    assert(l[2]@ == "2026-05-05"@);
    assert(l[3]@ == "2026-06-19"@);
    assert(l[4]@ == "2026-06-20"@);
    assert(l[5]@ == "2026-06-21"@);
    assert(l[6]@ == "2026-09-25"@);
    assert(l[7]@ == "2026-09-26"@);
    assert(l[8]@ == "2026-09-27"@);
    assert(l[9]@ == "2026-10-01"@);
    assert(l[10]@ == "2026-10-02"@);
    assert(l[11]@ == "2026-10-03"@);
    assert(l[12]@ == "2026-10-04"@);
    assert(l[13]@ == "2026-10-05"@);
    assert(l[14]@ == "2026-10-06"@);
    assert(l[15]@ == "2026-10-07"@);
}

/// The days off that are known from the start, all of them and no others.
pub proof fn law_known_days_off(date: Seq<char>)
    ensures
        builtin_off(date) <==> (date == "2024-01-01"@ ||
            date == "2024-02-10"@ ||
            date == "2024-02-11"@ ||
            date == "2024-02-12"@ ||
            date == "2024-02-13"@ ||
            date == "2024-02-14"@ ||
            date == "2024-02-15"@ ||
            date == "2024-02-16"@ ||
            date == "2024-02-17"@ ||
            date == "2024-04-04"@ ||
            date == "2024-04-05"@ ||
            date == "2024-04-06"@ ||
            date == "2024-05-01"@ ||
            date == "2024-05-02"@ ||
            date == "2024-05-03"@ ||
            date == "2024-05-04"@ ||
            date == "2024-05-05"@ ||
            date == "2024-06-10"@ ||
            date == "2024-09-15"@ ||
            date == "2024-09-16"@ ||
            date == "2024-09-17"@ ||
            date == "2024-10-01"@ ||
            date == "2024-10-02"@ ||
            date == "2024-10-03"@ ||
            date == "2024-10-04"@ ||
            date == "2024-10-05"@ ||
            date == "2024-10-06"@ ||
            date == "2024-10-07"@ ||
            date == "2025-01-01"@ ||
            date == "2025-01-28"@ ||
            date == "2025-01-29"@ ||
            date == "2025-01-30"@ ||
            date == "2025-01-31"@ ||
            date == "2025-02-01"@ ||
            date == "2025-02-02"@ ||
            date == "2025-02-03"@ ||
            date == "2025-02-04"@ ||
            date == "2025-04-04"@ ||
            date == "2025-04-05"@ ||
            date == "2025-04-06"@ ||
            date == "2025-05-01"@ ||
            date == "2025-05-02"@ ||
            date == "2025-05-03"@ ||
            date == "2025-05-04"@ ||
            date == "2025-05-05"@ ||
            date == "2025-05-31"@ ||
            date == "2025-06-01"@ ||
            date == "2025-06-02"@ ||
            date == "2025-10-01"@ ||
            date == "2025-10-02"@ ||
            date == "2025-10-03"@ ||
            date == "2025-10-04"@ ||
            date == "2025-10-05"@ ||
            date == "2025-10-06"@ ||
            date == "2025-10-07"@ ||
            date == "2025-10-08"@ ||
            date == "2026-01-01"@ ||
            date == "2026-01-02"@ ||
            date == "2026-01-03"@ ||
            date == "2026-02-15"@ ||
            date == "2026-02-16"@ ||
            date == "2026-02-17"@ ||
            date == "2026-02-18"@ ||
            date == "2026-02-19"@ ||
            date == "2026-02-20"@ ||
            date == "2026-02-21"@ ||
            date == "2026-02-22"@ ||
            date == "2026-02-23"@ ||
            date == "2026-04-04"@ ||
            date == "2026-04-05"@ ||
            date == "2026-04-06"@ ||
            date == "2026-05-01"@ ||
            date == "2026-05-02"@ ||
            date == "2026-05-03"@ ||
            date == "2026-05-04"@ ||
            date == "2026-05-05"@ ||
            date == "2026-06-19"@ ||
            date == "2026-06-20"@ ||
            date == "2026-06-21"@ ||
            date == "2026-09-25"@ ||
            date == "2026-09-26"@ ||
            date == "2026-09-27"@ ||
            date == "2026-10-01"@ ||
            date == "2026-10-02"@ ||
            date == "2026-10-03"@ ||
            date == "2026-10-04"@ ||
            date == "2026-10-05"@ ||
            date == "2026-10-06"@ ||
            date == "2026-10-07"@),
{
    lemma_off_days_2024_early(date);
    lemma_off_days_2024_late(date);
    lemma_off_days_2025_early(date);
    lemma_off_days_2025_late(date);
    lemma_off_days_2026_early(date);
    lemma_off_days_2026_late(date);
}

/// The first rule whose word occurs in a name is the one that counts.
pub proof fn law_first_rule_counts(rules: Seq<IndexRule>, name: Seq<char>, from: int, j: int)
    requires
        0 <= from <= j <= rules.len(),
        forall|i: int| from <= i < j ==> !occurs(name, (#[trigger] rules[i]).word@),
        j < rules.len() ==> occurs(name, rules[j].word@),
    ensures
        j < rules.len() ==> first_rule(rules, name, from) == Some(rules[j]),
        j == rules.len() ==> first_rule(rules, name, from) is None,
    decreases j - from,
{
    if from < j {
        assert(!occurs(name, rules[from].word@));
        law_first_rule_counts(rules, name, from + 1, j);
    }
}

proof fn lemma_hong_kong_rules(lower: Seq<char>)
    ensures
        match first_rule(hong_kong_rules(), lower, 0) {
            Some(r) => (r.symbol@, r.code@, r.name@) == (if occurs(lower, "恒生医疗保健"@) {
                ("hkHSHCI"@, "HSHCI"@, "恒生医疗保健指数"@)
            } else if occurs(lower, "恒生医疗"@) {
                ("hkHSHCI"@, "HSHCI"@, "恒生医疗保健指数"@)
            } else if occurs(lower, "香港医疗"@) {
                ("hkHSHCI"@, "HSHCI"@, "恒生医疗保健指数"@)
            } else if occurs(lower, "恒生科技"@) {
                ("hkHSTECH"@, "HSTECH"@, "恒生科技指数"@)
            } else if occurs(lower, "恒生指数"@) {
                ("hkHSI"@, "HSI"@, "恒生指数"@)
            } else if occurs(lower, "恒生国企"@) {
                ("hkHSCEI"@, "HSCEI"@, "国企指数"@)
            } else if occurs(lower, "国企指数"@) {
                ("hkHSCEI"@, "HSCEI"@, "国企指数"@)
            } else {
                (Seq::empty(), Seq::empty(), Seq::empty())
            }),
            None => true,
        },
        first_rule(hong_kong_rules(), lower, 0) is Some <==> (occurs(lower, "恒生医疗保健"@) ||
            occurs(lower, "恒生医疗"@) ||
            occurs(lower, "香港医疗"@) ||
            occurs(lower, "恒生科技"@) ||
            occurs(lower, "恒生指数"@) ||
            occurs(lower, "恒生国企"@) ||
            occurs(lower, "国企指数"@)),
{
    reveal(hong_kong_rules);
    reveal_with_fuel(first_rule, 9);
    let l = hong_kong_rules();
    assert(l.len() == 7);
    assert(l[0].word@ == "恒生医疗保健"@ && l[0].symbol@ == "hkHSHCI"@ && l[0].code@ == "HSHCI"@ && l[0].name@ == "恒生医疗保健指数"@);
    assert(l[1].word@ == "恒生医疗"@ && l[1].symbol@ == "hkHSHCI"@ && l[1].code@ == "HSHCI"@ && l[1].name@ == "恒生医疗保健指数"@);
    assert(l[2].word@ == "香港医疗"@ && l[2].symbol@ == "hkHSHCI"@ && l[2].code@ == "HSHCI"@ && l[2].name@ == "恒生医疗保健指数"@);
    assert(l[3].word@ == "恒生科技"@ && l[3].symbol@ == "hkHSTECH"@ && l[3].code@ == "HSTECH"@ && l[3].name@ == "恒生科技指数"@);
    assert(l[4].word@ == "恒生指数"@ && l[4].symbol@ == "hkHSI"@ && l[4].code@ == "HSI"@ && l[4].name@ == "恒生指数"@);
    assert(l[5].word@ == "恒生国企"@ && l[5].symbol@ == "hkHSCEI"@ && l[5].code@ == "HSCEI"@ && l[5].name@ == "国企指数"@);
    assert(l[6].word@ == "国企指数"@ && l[6].symbol@ == "hkHSCEI"@ && l[6].code@ == "HSCEI"@ && l[6].name@ == "国企指数"@);
}

proof fn lemma_broad_rules(lower: Seq<char>)
    ensures
        match first_rule(broad_rules(), lower, 0) {
            Some(r) => (r.symbol@, r.code@, r.name@) == (if occurs(lower, "沪深300"@) {
                ("sh000300"@, "000300"@, "沪深300"@)
            } else if occurs(lower, "中证500"@) {
                ("sh000905"@, "000905"@, "中证500"@)
            } else if occurs(lower, "中证1000"@) {
                ("sh000852"@, "000852"@, "中证1000"@)
            } else if occurs(lower, "创业板"@) {
                ("sz399006"@, "399006"@, "创业板指"@)
            } else if occurs(lower, "科创50"@) {
                ("sh000688"@, "000688"@, "科创50"@)
            } else if occurs(lower, "上证50"@) {
                ("sh000016"@, "000016"@, "上证50"@)
            } else if occurs(lower, "中证红利"@) {
                ("sh000922"@, "000922"@, "中证红利"@)
            } else if occurs(lower, "红利低波"@) {
                ("sh000922"@, "000922"@, "中证红利"@)
            } else if occurs(lower, "深证成指"@) {
                ("sz399001"@, "399001"@, "深证成指"@)
            } else {
                (Seq::empty(), Seq::empty(), Seq::empty())
            }),
            None => true,
        },
        first_rule(broad_rules(), lower, 0) is Some <==> (occurs(lower, "沪深300"@) ||
            occurs(lower, "中证500"@) ||
            occurs(lower, "中证1000"@) ||
            occurs(lower, "创业板"@) ||
            occurs(lower, "科创50"@) ||
            occurs(lower, "上证50"@) ||
            occurs(lower, "中证红利"@) ||
            occurs(lower, "红利低波"@) ||
            occurs(lower, "深证成指"@)),
{
    reveal(broad_rules);
    reveal_with_fuel(first_rule, 11);
    let l = broad_rules();
    assert(l.len() == 9);
    assert(l[0].word@ == "沪深300"@ && l[0].symbol@ == "sh000300"@ && l[0].code@ == "000300"@ && l[0].name@ == "沪深300"@);
    assert(l[1].word@ == "中证500"@ && l[1].symbol@ == "sh000905"@ && l[1].code@ == "000905"@ && l[1].name@ == "中证500"@);
    assert(l[2].word@ == "中证1000"@ && l[2].symbol@ == "sh000852"@ && l[2].code@ == "000852"@ && l[2].name@ == "中证1000"@);
    assert(l[3].word@ == "创业板"@ && l[3].symbol@ == "sz399006"@ && l[3].code@ == "399006"@ && l[3].name@ == "创业板指"@);
    assert(l[4].word@ == "科创50"@ && l[4].symbol@ == "sh000688"@ && l[4].code@ == "000688"@ && l[4].name@ == "科创50"@);
    assert(l[5].word@ == "上证50"@ && l[5].symbol@ == "sh000016"@ && l[5].code@ == "000016"@ && l[5].name@ == "上证50"@);
    assert(l[6].word@ == "中证红利"@ && l[6].symbol@ == "sh000922"@ && l[6].code@ == "000922"@ && l[6].name@ == "中证红利"@);
    assert(l[7].word@ == "红利低波"@ && l[7].symbol@ == "sh000922"@ && l[7].code@ == "000922"@ && l[7].name@ == "中证红利"@);
    assert(l[8].word@ == "深证成指"@ && l[8].symbol@ == "sz399001"@ && l[8].code@ == "399001"@ && l[8].name@ == "深证成指"@);
}

proof fn lemma_energy_health_rules(lower: Seq<char>)
    ensures
        match first_rule(energy_health_rules(), lower, 0) {
            Some(r) => (r.symbol@, r.code@, r.name@) == (if occurs(lower, "新能源车"@) {
                ("sz399976"@, "399976"@, "CS新能车"@)
            } else if occurs(lower, "光伏"@) {
                ("sz399808"@, "399808"@, "中证新能"@)
            } else if occurs(lower, "新能源"@) {
                ("sz399808"@, "399808"@, "中证新能"@)
            } else if occurs(lower, "白酒"@) {
                ("sz399997"@, "399997"@, "中证白酒"@)
            } else if occurs(lower, "酒"@) {
                ("sz399997"@, "399997"@, "中证白酒"@)
            } else if occurs(lower, "医疗"@) {
                ("sz399989"@, "399989"@, "中证医疗"@)
            } else if occurs(lower, "医药"@) {
                ("sh000933"@, "000933"@, "中证医药"@)
            } else {
                (Seq::empty(), Seq::empty(), Seq::empty())
            }),
            None => true,
        },
        first_rule(energy_health_rules(), lower, 0) is Some <==> (occurs(lower, "新能源车"@) ||
            occurs(lower, "光伏"@) ||
            occurs(lower, "新能源"@) ||
            occurs(lower, "白酒"@) ||
            occurs(lower, "酒"@) ||
            occurs(lower, "医疗"@) ||
            occurs(lower, "医药"@)),
{
    reveal(energy_health_rules);
    reveal_with_fuel(first_rule, 9);
    let l = energy_health_rules();
    assert(l.len() == 7);
    assert(l[0].word@ == "新能源车"@ && l[0].symbol@ == "sz399976"@ && l[0].code@ == "399976"@ && l[0].name@ == "CS新能车"@);
    assert(l[1].word@ == "光伏"@ && l[1].symbol@ == "sz399808"@ && l[1].code@ == "399808"@ && l[1].name@ == "中证新能"@);
    assert(l[2].word@ == "新能源"@ && l[2].symbol@ == "sz399808"@ && l[2].code@ == "399808"@ && l[2].name@ == "中证新能"@);
    assert(l[3].word@ == "白酒"@ && l[3].symbol@ == "sz399997"@ && l[3].code@ == "399997"@ && l[3].name@ == "中证白酒"@);
    assert(l[4].word@ == "酒"@ && l[4].symbol@ == "sz399997"@ && l[4].code@ == "399997"@ && l[4].name@ == "中证白酒"@);
    assert(l[5].word@ == "医疗"@ && l[5].symbol@ == "sz399989"@ && l[5].code@ == "399989"@ && l[5].name@ == "中证医疗"@);
    assert(l[6].word@ == "医药"@ && l[6].symbol@ == "sh000933"@ && l[6].code@ == "000933"@ && l[6].name@ == "中证医药"@);
}

proof fn lemma_finance_technology_rules(lower: Seq<char>)
    ensures
        match first_rule(finance_technology_rules(), lower, 0) {
            Some(r) => (r.symbol@, r.code@, r.name@) == (if occurs(lower, "券商"@) {
                ("sz399975"@, "399975"@, "证券公司"@)
            } else if occurs(lower, "证券"@) {
                ("sz399975"@, "399975"@, "证券公司"@)
            } else if occurs(lower, "银行"@) {
                ("sz399986"@, "399986"@, "中证银行"@)
            } else if occurs(lower, "地产"@) {
                ("sz399393"@, "399393"@, "国证地产"@)
            } else if occurs(lower, "军工"@) {
                ("sz399967"@, "399967"@, "中证军工"@)
            } else if occurs(lower, "芯片"@) {
                ("sz980017"@, "980017"@, "国证芯片"@)
            } else if occurs(lower, "半导体"@) {
                ("sz980017"@, "980017"@, "国证芯片"@)
            } else if occurs(lower, "电子"@) {
                ("sz399811"@, "399811"@, "CSSW电子"@)
            } else if occurs(lower, "传媒"@) {
                ("sz399971"@, "399971"@, "中证传媒"@)
            } else {
                (Seq::empty(), Seq::empty(), Seq::empty())
            }),
            None => true,
        },
        first_rule(finance_technology_rules(), lower, 0) is Some <==> (occurs(lower, "券商"@) ||
            occurs(lower, "证券"@) ||
            occurs(lower, "银行"@) ||
            occurs(lower, "地产"@) ||
            occurs(lower, "军工"@) ||
            occurs(lower, "芯片"@) ||
            occurs(lower, "半导体"@) ||
            occurs(lower, "电子"@) ||
            occurs(lower, "传媒"@)),
{
    reveal(finance_technology_rules);
    reveal_with_fuel(first_rule, 11);
    let l = finance_technology_rules();
    assert(l.len() == 9);
    assert(l[0].word@ == "券商"@ && l[0].symbol@ == "sz399975"@ && l[0].code@ == "399975"@ && l[0].name@ == "证券公司"@);
    assert(l[1].word@ == "证券"@ && l[1].symbol@ == "sz399975"@ && l[1].code@ == "399975"@ && l[1].name@ == "证券公司"@);
    assert(l[2].word@ == "银行"@ && l[2].symbol@ == "sz399986"@ && l[2].code@ == "399986"@ && l[2].name@ == "中证银行"@);
    assert(l[3].word@ == "地产"@ && l[3].symbol@ == "sz399393"@ && l[3].code@ == "399393"@ && l[3].name@ == "国证地产"@);
    assert(l[4].word@ == "军工"@ && l[4].symbol@ == "sz399967"@ && l[4].code@ == "399967"@ && l[4].name@ == "中证军工"@);
    assert(l[5].word@ == "芯片"@ && l[5].symbol@ == "sz980017"@ && l[5].code@ == "980017"@ && l[5].name@ == "国证芯片"@);
    assert(l[6].word@ == "半导体"@ && l[6].symbol@ == "sz980017"@ && l[6].code@ == "980017"@ && l[6].name@ == "国证芯片"@);
    assert(l[7].word@ == "电子"@ && l[7].symbol@ == "sz399811"@ && l[7].code@ == "399811"@ && l[7].name@ == "CSSW电子"@);
    assert(l[8].word@ == "传媒"@ && l[8].symbol@ == "sz399971"@ && l[8].code@ == "399971"@ && l[8].name@ == "中证传媒"@);
}

proof fn lemma_resource_rules(lower: Seq<char>)
    ensures
        match first_rule(resource_rules(), lower, 0) {
            Some(r) => (r.symbol@, r.code@, r.name@) == (if occurs(lower, "煤炭"@) {
                ("sz399998"@, "399998"@, "中证煤炭"@)
            } else if occurs(lower, "钢铁"@) {
                ("sz399440"@, "399440"@, "国证钢铁"@)
            } else if occurs(lower, "有色"@) {
                ("sz399395"@, "399395"@, "国证有色"@)
            } else if occurs(lower, "基建"@) {
                ("sz399995"@, "399995"@, "基建工程"@)
            } else if occurs(lower, "消费"@) {
                ("sh000932"@, "000932"@, "中证消费"@)
            } else if occurs(lower, "农业"@) {
                ("sh000949"@, "000949"@, "中证农业"@)
            } else if occurs(lower, "环保"@) {
                ("sh000827"@, "000827"@, "中证环保"@)
            } else {
                (Seq::empty(), Seq::empty(), Seq::empty())
            }),
            None => true,
        },
        first_rule(resource_rules(), lower, 0) is Some <==> (occurs(lower, "煤炭"@) ||
            occurs(lower, "钢铁"@) ||
            occurs(lower, "有色"@) ||
            occurs(lower, "基建"@) ||
            occurs(lower, "消费"@) ||
            occurs(lower, "农业"@) ||
            occurs(lower, "环保"@)),
{
    reveal(resource_rules);
    reveal_with_fuel(first_rule, 9);
    let l = resource_rules();
    assert(l.len() == 7);
    assert(l[0].word@ == "煤炭"@ && l[0].symbol@ == "sz399998"@ && l[0].code@ == "399998"@ && l[0].name@ == "中证煤炭"@);
    assert(l[1].word@ == "钢铁"@ && l[1].symbol@ == "sz399440"@ && l[1].code@ == "399440"@ && l[1].name@ == "国证钢铁"@);
    assert(l[2].word@ == "有色"@ && l[2].symbol@ == "sz399395"@ && l[2].code@ == "399395"@ && l[2].name@ == "国证有色"@);
    assert(l[3].word@ == "基建"@ && l[3].symbol@ == "sz399995"@ && l[3].code@ == "399995"@ && l[3].name@ == "基建工程"@);
    assert(l[4].word@ == "消费"@ && l[4].symbol@ == "sh000932"@ && l[4].code@ == "000932"@ && l[4].name@ == "中证消费"@);
    assert(l[5].word@ == "农业"@ && l[5].symbol@ == "sh000949"@ && l[5].code@ == "000949"@ && l[5].name@ == "中证农业"@);
    assert(l[6].word@ == "环保"@ && l[6].symbol@ == "sh000827"@ && l[6].code@ == "000827"@ && l[6].name@ == "中证环保"@);
}

/// The index that a fund is measured against: that of the first of these words in its name, those of
/// Hong Kong before all others; else that of government bonds for a bond fund and the broad market for
/// any other.
pub proof fn law_index_of_a_name(fund_type: Seq<char>, lower: Seq<char>)
    ensures
        benchmark(fund_type, lower) == (if occurs(lower, "恒生医疗保健"@) {
            ("hkHSHCI"@, "HSHCI"@, "恒生医疗保健指数"@)
        } else if occurs(lower, "恒生医疗"@) {
            ("hkHSHCI"@, "HSHCI"@, "恒生医疗保健指数"@)
        } else if occurs(lower, "香港医疗"@) {
            ("hkHSHCI"@, "HSHCI"@, "恒生医疗保健指数"@)
        } else if occurs(lower, "恒生科技"@) {
            ("hkHSTECH"@, "HSTECH"@, "恒生科技指数"@)
        } else if occurs(lower, "恒生指数"@) {
            ("hkHSI"@, "HSI"@, "恒生指数"@)
        } else if occurs(lower, "恒生国企"@) {
            ("hkHSCEI"@, "HSCEI"@, "国企指数"@)
        } else if occurs(lower, "国企指数"@) {
            ("hkHSCEI"@, "HSCEI"@, "国企指数"@)
        } else if occurs(lower, "沪深300"@) {
            ("sh000300"@, "000300"@, "沪深300"@)
        } else if occurs(lower, "中证500"@) {
            ("sh000905"@, "000905"@, "中证500"@)
        } else if occurs(lower, "中证1000"@) {
            ("sh000852"@, "000852"@, "中证1000"@)
        } else if occurs(lower, "创业板"@) {
            ("sz399006"@, "399006"@, "创业板指"@)
        } else if occurs(lower, "科创50"@) {
            ("sh000688"@, "000688"@, "科创50"@)
        } else if occurs(lower, "上证50"@) {
            ("sh000016"@, "000016"@, "上证50"@)
        } else if occurs(lower, "中证红利"@) {
            ("sh000922"@, "000922"@, "中证红利"@)
        } else if occurs(lower, "红利低波"@) {
            ("sh000922"@, "000922"@, "中证红利"@)
        } else if occurs(lower, "深证成指"@) {
            ("sz399001"@, "399001"@, "深证成指"@)
        } else if occurs(lower, "新能源车"@) {
            ("sz399976"@, "399976"@, "CS新能车"@)
        } else if occurs(lower, "光伏"@) {
            ("sz399808"@, "399808"@, "中证新能"@)
        } else if occurs(lower, "新能源"@) {
            ("sz399808"@, "399808"@, "中证新能"@)
        } else if occurs(lower, "白酒"@) {
            ("sz399997"@, "399997"@, "中证白酒"@)
        } else if occurs(lower, "酒"@) {
            ("sz399997"@, "399997"@, "中证白酒"@)
        } else if occurs(lower, "医疗"@) {
            ("sz399989"@, "399989"@, "中证医疗"@)
        } else if occurs(lower, "医药"@) {
            ("sh000933"@, "000933"@, "中证医药"@)
        } else if occurs(lower, "券商"@) {
            ("sz399975"@, "399975"@, "证券公司"@)
        } else if occurs(lower, "证券"@) {
            ("sz399975"@, "399975"@, "证券公司"@)
        } else if occurs(lower, "银行"@) {
            ("sz399986"@, "399986"@, "中证银行"@)
        } else if occurs(lower, "地产"@) {
            ("sz399393"@, "399393"@, "国证地产"@)
        } else if occurs(lower, "军工"@) {
            ("sz399967"@, "399967"@, "中证军工"@)
        } else if occurs(lower, "芯片"@) {
            ("sz980017"@, "980017"@, "国证芯片"@)
        } else if occurs(lower, "半导体"@) {
            ("sz980017"@, "980017"@, "国证芯片"@)
        } else if occurs(lower, "电子"@) {
            ("sz399811"@, "399811"@, "CSSW电子"@)
        } else if occurs(lower, "传媒"@) {
            ("sz399971"@, "399971"@, "中证传媒"@)
        } else if occurs(lower, "煤炭"@) {
            ("sz399998"@, "399998"@, "中证煤炭"@)
        } else if occurs(lower, "钢铁"@) {
            ("sz399440"@, "399440"@, "国证钢铁"@)
        } else if occurs(lower, "有色"@) {
            ("sz399395"@, "399395"@, "国证有色"@)
        } else if occurs(lower, "基建"@) {
            ("sz399995"@, "399995"@, "基建工程"@)
        } else if occurs(lower, "消费"@) {
            ("sh000932"@, "000932"@, "中证消费"@)
        } else if occurs(lower, "农业"@) {
            ("sh000949"@, "000949"@, "中证农业"@)
        } else if occurs(lower, "环保"@) {
            ("sh000827"@, "000827"@, "中证环保"@)
        } else if fund_type == "004"@ {
            ("sh000012"@, "000012"@, "上证国债"@)
        } else {
            ("sh000300"@, "000300"@, "沪深300"@)
        }),
{
    lemma_hong_kong_rules(lower);
    lemma_broad_rules(lower);
    lemma_energy_health_rules(lower);
    lemma_finance_technology_rules(lower);
    lemma_resource_rules(lower);
}

/// The code of a well-known fund is that of the first of these names that, cleaned, is the given one;
/// any other name is none of them.
pub proof fn law_well_known_funds(q: Seq<char>)
    ensures
        alias_code(fund_aliases(), q, 0) == (if q == cleaned("鹏华酒指数C"@) {
            Some("012043"@)
        } else if q == cleaned("鹏华酒C"@) {
            Some("012043"@)
        } else if q == cleaned("中欧医疗健康混合A"@) {
            Some("003095"@)
        } else if q == cleaned("博时恒生医疗保健ETF联接"@) {
            Some("014424"@)
        } else if q == cleaned("建信高端装备股票A"@) {
            Some("011506"@)
        } else if q == cleaned("天弘恒生科技ETF联接(QDII)C"@) {
            Some("012349"@)
        } else if q == cleaned("天弘恒生科技ETF联接C"@) {
            Some("012349"@)
        } else if q == cleaned("富国高质量混合"@) {
            Some("012255"@)
        } else if q == cleaned("易方达中小盘混合"@) {
            Some("110011"@)
        } else if q == cleaned("中欧红利优享灵活配置混合C"@) {
            Some("004815"@)
        } else if q == cleaned("华富永鑫灵活配置混合C"@) {
            Some("001467"@)
        } else if q == cleaned("银华中证全指证券公司ETF发起式"@) {
            Some("025193"@)
        } else if q == cleaned("建信上海金ETF联接C"@) {
            Some("009034"@)
        } else if q == cleaned("大成高鑫股票A"@) {
            Some("000628"@)
        } else if q == cleaned("南方中证A500ETF联接C"@) {
            Some("022435"@)
        } else {
            None
        }),
{
    reveal(fund_aliases);
    reveal_with_fuel(alias_code, 17);
    let l = fund_aliases();
    assert(l.len() == 15);
    assert(l[0].0@ == "鹏华酒指数C"@ && l[0].1@ == "012043"@);
    assert(l[1].0@ == "鹏华酒C"@ && l[1].1@ == "012043"@);
    assert(l[2].0@ == "中欧医疗健康混合A"@ && l[2].1@ == "003095"@);
    assert(l[3].0@ == "博时恒生医疗保健ETF联接"@ && l[3].1@ == "014424"@);
    assert(l[4].0@ == "建信高端装备股票A"@ && l[4].1@ == "011506"@);
    assert(l[5].0@ == "天弘恒生科技ETF联接(QDII)C"@ && l[5].1@ == "012349"@);
    assert(l[6].0@ == "天弘恒生科技ETF联接C"@ && l[6].1@ == "012349"@);
    assert(l[7].0@ == "富国高质量混合"@ && l[7].1@ == "012255"@);
    assert(l[8].0@ == "易方达中小盘混合"@ && l[8].1@ == "110011"@);
    assert(l[9].0@ == "中欧红利优享灵活配置混合C"@ && l[9].1@ == "004815"@);
    assert(l[10].0@ == "华富永鑫灵活配置混合C"@ && l[10].1@ == "001467"@);
    assert(l[11].0@ == "银华中证全指证券公司ETF发起式"@ && l[11].1@ == "025193"@);
    assert(l[12].0@ == "建信上海金ETF联接C"@ && l[12].1@ == "009034"@);
    assert(l[13].0@ == "大成高鑫股票A"@ && l[13].1@ == "000628"@);
    assert(l[14].0@ == "南方中证A500ETF联接C"@ && l[14].1@ == "022435"@);
}

} // verus!
