//! Laws of the markets of stocks and of what the look-through makes of each stock, stated on the
//! characters of the codes and on the fields of funds and profiles.
use vstd::prelude::*;
use crate::group::{grouped, in_group, in_some_group, law_grouped_is_partition, law_groups_by_first_record, GroupView, Label};
use crate::order::{arranges, stably_sorted};
use crate::lookthrough::{counted_rows, industry_slice, industry_slices, lemma_rows_in_range, more_funds, part_funds, period_counts, period_labels, period_text, profile_of, row_labels, sector_label, sector_slice, sector_slices, shows_periods, slice_keys, slice_order_ok, stock_class, stocks_of, LtFundInput, SliceView, StockProfileRow};
use crate::lookthrough_laws::{law_every_holding_counts_once, law_only_penetrated_funds_make_up_stocks};
use crate::sector::{market, sector_of};
use crate::text::{lex_lt, white};
use crate::text_laws::{law_digits, law_trim_takes_the_ends};

verus! {

/// A code of six characters, each from `0` to `9`, is of the mainland, whatever the digits and
/// whatever white space stands round it.
pub proof fn law_six_digits_are_the_mainland(l: Seq<char>, code: Seq<char>, r: Seq<char>)
    requires
        code.len() == 6,
        forall|i: int| 0 <= i < 6 ==> '0' <= (#[trigger] code[i]) && code[i] <= '9',
        forall|i: int| 0 <= i < l.len() ==> white(#[trigger] l[i]),
        forall|i: int| 0 <= i < r.len() ==> white(#[trigger] r[i]),
    ensures
        market(l + code + r) == "A"@,
        market(code) == "A"@,
{
    assert('0' <= code[0] && code[0] <= '9' && '0' <= code[5] && code[5] <= '9');
    law_digits(code, 6);
    law_trim_takes_the_ends(l, code, r);
    law_trim_takes_the_ends(Seq::empty(), code, Seq::empty());
    assert(Seq::<char>::empty() + code + Seq::<char>::empty() =~= code);
}

/// A code of five characters, each from `0` to `9`, is of Hong Kong, whatever the digits and
/// whatever white space stands round it.
pub proof fn law_five_digits_are_hong_kong(l: Seq<char>, code: Seq<char>, r: Seq<char>)
    requires
        code.len() == 5,
        forall|i: int| 0 <= i < 5 ==> '0' <= (#[trigger] code[i]) && code[i] <= '9',
        forall|i: int| 0 <= i < l.len() ==> white(#[trigger] l[i]),
        forall|i: int| 0 <= i < r.len() ==> white(#[trigger] r[i]),
    ensures
        market(l + code + r) == "HK"@,
        market(code) == "HK"@,
{
    assert('0' <= code[0] && code[0] <= '9' && '0' <= code[4] && code[4] <= '9');
    law_digits(code, 5);
    law_trim_takes_the_ends(l, code, r);
    law_trim_takes_the_ends(Seq::empty(), code, Seq::empty());
    assert(Seq::<char>::empty() + code + Seq::<char>::empty() =~= code);
}

/// Every other code is of the United States: one that has, white space at its ends left out, another
/// length or a character that is no digit.
pub proof fn law_other_codes_are_american(l: Seq<char>, code: Seq<char>, r: Seq<char>)
    requires
        code.len() > 0 ==> !white(code[0]) && !white(code.last()),
        code.len() != 5 && code.len() != 6 || exists|i: int|
            0 <= i < code.len() && !('0' <= (#[trigger] code[i]) && code[i] <= '9'),
        forall|i: int| 0 <= i < l.len() ==> white(#[trigger] l[i]),
        forall|i: int| 0 <= i < r.len() ==> white(#[trigger] r[i]),
    ensures
        market(l + code + r) == "US"@,
        market(code) == "US"@,
{
    law_digits(code, 5);
    law_digits(code, 6);
    law_trim_takes_the_ends(l, code, r);
    law_trim_takes_the_ends(Seq::empty(), code, Seq::empty());
    assert(Seq::<char>::empty() + code + Seq::<char>::empty() =~= code);
}

/// The names of the markets differ.
proof fn lemma_market_names()
    ensures
        "A"@ != "HK"@,
        "A"@ != "US"@,
        "HK"@ != "US"@,
{
    reveal_strlit("A");
    reveal_strlit("HK");
    reveal_strlit("US");
    assert("A"@.len() == 1 && "HK"@.len() == 2 && "US"@.len() == 2);
    assert("HK"@[0] == 'H' && "US"@[0] == 'U');
}

/// The first profile with a code is the one that counts.
proof fn lemma_first_profile(profiles: Seq<StockProfileRow>, code: Seq<char>, j: int)
    requires
        0 <= j < profiles.len(),
        profiles[j].stock_code@ == code,
        forall|i: int| 0 <= i < j ==> (#[trigger] profiles[i]).stock_code@ != code,
    ensures
        profile_of(profiles, code) == Some((profiles[j].industry_em@, profiles[j].sector_l1@)),
    decreases j,
{
    if j > 0 {
        assert(profiles[0].stock_code@ != code);
        assert forall|i: int| 0 <= i < j - 1 implies (#[trigger] profiles.skip(1)[i]).stock_code@
            != code by {
            assert(profiles.skip(1)[i] == profiles[i + 1]);
        }
        assert(profiles.skip(1)[j - 1] == profiles[j]);
        lemma_first_profile(profiles.skip(1), code, j - 1);
    }
}

proof fn lemma_no_profile(profiles: Seq<StockProfileRow>, code: Seq<char>)
    requires
        forall|i: int| 0 <= i < profiles.len() ==> (#[trigger] profiles[i]).stock_code@ != code,
    ensures
        profile_of(profiles, code) is None,
    decreases profiles.len(),
{
    if profiles.len() > 0 {
        assert(profiles[0].stock_code@ != code);
        assert forall|i: int| 0 <= i < profiles.skip(1).len() implies (
            #[trigger] profiles.skip(1)[i]).stock_code@ != code by {
            assert(profiles.skip(1)[i] == profiles[i + 1]);
        }
        lemma_no_profile(profiles.skip(1), code);
    }
}

/// What stands of a stock in the look-through is what its code and its profile give.
proof fn lemma_stock_fields(funds: Seq<LtFundInput>, profiles: Seq<StockProfileRow>, k: int)
    requires
        0 <= k < stocks_of(funds, profiles).len(),
    ensures
        ({
            let s = stocks_of(funds, profiles)[k];
            (s.sector, s.industry) == stock_class(profiles, s.code)
        }),
{
}

/// A stock held through the funds whose code is six digits, white space round it left out, and whose
/// first profile knows an industry and a sector, bears exactly that sector and that industry.
pub proof fn law_mainland_stock_bears_its_profile(
    funds: Seq<LtFundInput>,
    profiles: Seq<StockProfileRow>,
    k: int,
    j: int,
    l: Seq<char>,
    digits: Seq<char>,
    r: Seq<char>,
)
    requires
        0 <= k < stocks_of(funds, profiles).len(),
        stocks_of(funds, profiles)[k].code == l + digits + r,
        digits.len() == 6,
        forall|i: int| 0 <= i < 6 ==> '0' <= (#[trigger] digits[i]) && digits[i] <= '9',
        forall|i: int| 0 <= i < l.len() ==> white(#[trigger] l[i]),
        forall|i: int| 0 <= i < r.len() ==> white(#[trigger] r[i]),
        0 <= j < profiles.len(),
        profiles[j].stock_code@ == stocks_of(funds, profiles)[k].code,
        forall|i: int|
            0 <= i < j ==> (#[trigger] profiles[i]).stock_code@ != stocks_of(funds, profiles)[k].code,
        profiles[j].industry_em@.len() > 0,
        profiles[j].sector_l1@.len() > 0,
    ensures
        stocks_of(funds, profiles)[k].sector == profiles[j].sector_l1@,
        stocks_of(funds, profiles)[k].industry == profiles[j].industry_em@,
{
    law_six_digits_are_the_mainland(l, digits, r);
    lemma_first_profile(profiles, stocks_of(funds, profiles)[k].code, j);
    lemma_stock_fields(funds, profiles, k);
}

/// Where the profile of a mainland stock knows the industry but no sector, the sector is that of the
/// industry; where it knows no industry, or where there is no profile, the stock is unclassified and
/// its industry is to be filled in.
pub proof fn law_mainland_stock_without_full_profile(
    funds: Seq<LtFundInput>,
    profiles: Seq<StockProfileRow>,
    k: int,
    j: int,
    l: Seq<char>,
    digits: Seq<char>,
    r: Seq<char>,
)
    requires
        0 <= k < stocks_of(funds, profiles).len(),
        stocks_of(funds, profiles)[k].code == l + digits + r,
        digits.len() == 6,
        forall|i: int| 0 <= i < 6 ==> '0' <= (#[trigger] digits[i]) && digits[i] <= '9',
        forall|i: int| 0 <= i < l.len() ==> white(#[trigger] l[i]),
        forall|i: int| 0 <= i < r.len() ==> white(#[trigger] r[i]),
        0 <= j <= profiles.len(),
        j < profiles.len() ==> profiles[j].stock_code@ == stocks_of(funds, profiles)[k].code,
        forall|i: int|
            0 <= i < j ==> (#[trigger] profiles[i]).stock_code@ != stocks_of(funds, profiles)[k].code,
    ensures
        j < profiles.len() && profiles[j].industry_em@.len() > 0 && profiles[j].sector_l1@.len()
            == 0 ==> stocks_of(funds, profiles)[k].sector == sector_of(profiles[j].industry_em@)
            && stocks_of(funds, profiles)[k].industry == profiles[j].industry_em@,
        j == profiles.len() || profiles[j].industry_em@.len() == 0 ==> stocks_of(
            funds,
            profiles,
        )[k].sector == "未分类"@ && stocks_of(funds, profiles)[k].industry == "待补行业"@,
{
    let code = stocks_of(funds, profiles)[k].code;
    law_six_digits_are_the_mainland(l, digits, r);
    if j < profiles.len() {
        lemma_first_profile(profiles, code, j);
    } else {
        lemma_no_profile(profiles, code);
    }
    lemma_stock_fields(funds, profiles, k);
}

/// A stock whose code is five digits, white space round it left out, is an asset abroad of the industry
/// of Hong Kong stocks, whatever any profile says; and one whose code is neither five nor six digits is
/// an American stock.
pub proof fn law_stocks_abroad(
    funds: Seq<LtFundInput>,
    profiles: Seq<StockProfileRow>,
    k: int,
    l: Seq<char>,
    core: Seq<char>,
    r: Seq<char>,
)
    requires
        0 <= k < stocks_of(funds, profiles).len(),
        stocks_of(funds, profiles)[k].code == l + core + r,
        core.len() > 0 ==> !white(core[0]) && !white(core.last()),
        forall|i: int| 0 <= i < l.len() ==> white(#[trigger] l[i]),
        forall|i: int| 0 <= i < r.len() ==> white(#[trigger] r[i]),
    ensures
        ({
            let s = stocks_of(funds, profiles)[k];
            let digits = forall|i: int|
                0 <= i < core.len() ==> '0' <= (#[trigger] core[i]) && core[i] <= '9';
            &&& core.len() == 5 && digits ==> s.sector == "境外资产"@ && s.industry == "港股"@
            &&& !(digits && (core.len() == 5 || core.len() == 6)) ==> s.sector == "境外资产"@
                && s.industry == "美股"@
        }),
{
    lemma_market_names();
    lemma_stock_fields(funds, profiles, k);
    let digits = forall|i: int|
        0 <= i < core.len() ==> '0' <= (#[trigger] core[i]) && core[i] <= '9';
    if core.len() == 5 && digits {
        law_five_digits_are_hong_kong(l, core, r);
    }
    if !(digits && (core.len() == 5 || core.len() == 6)) {
        law_other_codes_are_american(l, core, r);
    }
}

/// Every holding of a fund that is no money fund or wealth product, has a real code and discloses
/// holdings makes up the stock with its code, once; and no holding of any other fund makes up
/// anything.
pub proof fn law_holdings_that_count(
    funds: Seq<LtFundInput>,
    profiles: Seq<StockProfileRow>,
    i: int,
    j: int,
) -> (k: int)
    requires
        0 <= i < funds.len(),
        0 <= j < funds[i].holdings@.len(),
    ensures
        !funds[i].is_money_or_wealth && funds[i].has_real_code ==> 0 <= k < stocks_of(
            funds,
            profiles,
        ).len() && stocks_of(funds, profiles)[k].code == funds[i].holdings@[j].stock_code@
            && stocks_of(funds, profiles)[k].parts.contains((i, j)) && stocks_of(
            funds,
            profiles,
        )[k].parts.no_duplicates(),
        funds[i].is_money_or_wealth || !funds[i].has_real_code ==> forall|l: int|
            0 <= l < stocks_of(funds, profiles).len() ==> !(#[trigger] stocks_of(
                funds,
                profiles,
            )[l]).parts.contains((i, j)),
{
    if !funds[i].is_money_or_wealth && funds[i].has_real_code {
        law_every_holding_counts_once(funds, profiles, i, j)
    } else {
        assert forall|l: int| 0 <= l < stocks_of(funds, profiles).len() implies !(
        #[trigger] stocks_of(funds, profiles)[l]).parts.contains((i, j)) by {
            let parts = stocks_of(funds, profiles)[l].parts;
            if parts.contains((i, j)) {
                let m = choose|m: int| 0 <= m < parts.len() && parts[m] == (i, j);
                law_only_penetrated_funds_make_up_stocks(funds, profiles, l, m);
            }
        }
        0
    }
}

/// The holdings that count stand in the order of their funds and, within a fund, in their own.
proof fn lemma_rows_ordered(funds: Seq<LtFundInput>, a: int, b: int)
    requires
        0 <= a < b < counted_rows(funds).len(),
    ensures
        ({
            let x = counted_rows(funds)[a];
            let y = counted_rows(funds)[b];
            x.0 < y.0 || (x.0 == y.0 && x.1 < y.1)
        }),
    decreases funds.len(),
{
    let rest = funds.drop_last();
    let n = counted_rows(rest).len();
    if b < n {
        lemma_rows_ordered(rest, a, b);
    } else if a < n {
        lemma_rows_in_range(rest, a);
    }
}

/// Every stock is held by someone, bears the code that all its parts bear and the name that the first
/// of them gives; its parts stand in the order of the funds, and no two stocks share a code.
pub proof fn law_stocks_are_their_parts(
    funds: Seq<LtFundInput>,
    profiles: Seq<StockProfileRow>,
    k: int,
    a: int,
    b: int,
)
    requires
        0 <= k < stocks_of(funds, profiles).len(),
    ensures
        ({
            let s = stocks_of(funds, profiles)[k];
            &&& s.parts.len() > 0
            &&& s.name == funds[s.parts[0].0].holdings@[s.parts[0].1].stock_name@
            &&& 0 <= a < b < s.parts.len() ==> s.parts[a].0 < s.parts[b].0 || (s.parts[a].0
                == s.parts[b].0 && s.parts[a].1 < s.parts[b].1)
            &&& 0 <= a < s.parts.len() ==> 0 <= s.parts[a].0 < funds.len() && 0 <= s.parts[a].1
                < funds[s.parts[a].0].holdings@.len()
                && funds[s.parts[a].0].holdings@[s.parts[a].1].stock_code@ == s.code
                && !funds[s.parts[a].0].is_money_or_wealth && funds[s.parts[a].0].has_real_code
        }),
        0 <= b < stocks_of(funds, profiles).len() && b != k ==> stocks_of(funds, profiles)[b].code
            != stocks_of(funds, profiles)[k].code,
{
    let labels = row_labels(funds);
    let rows = counted_rows(funds);
    let gs = grouped(labels);
    let stocks = stocks_of(funds, profiles);
    law_grouped_is_partition(labels);
    let s = stocks[k];
    assert(gs[k].members.len() > 0);
    assert(s.parts[0] == rows[gs[k].members[0]]);
    if 0 <= a < b < s.parts.len() {
        assert(gs[k].members[a] < gs[k].members[b]);
        assert(s.parts[a] == rows[gs[k].members[a]] && s.parts[b] == rows[gs[k].members[b]]);
        lemma_rows_ordered(funds, gs[k].members[a], gs[k].members[b]);
    }
    if 0 <= a < s.parts.len() {
        law_only_penetrated_funds_make_up_stocks(funds, profiles, k, a);
    }
    if 0 <= b < stocks.len() && b != k {
        lemma_second_part_empty(funds, k);
        lemma_second_part_empty(funds, b);
        if b < k {
            assert(gs[b].label != gs[k].label);
        } else {
            assert(gs[k].label != gs[b].label);
        }
    }
}

proof fn lemma_second_part_empty(funds: Seq<LtFundInput>, k: int)
    requires
        0 <= k < grouped(row_labels(funds)).len(),
    ensures
        grouped(row_labels(funds))[k].label.1 == Seq::<char>::empty(),
{
    let labels = row_labels(funds);
    let gs = grouped(labels);
    law_grouped_is_partition(labels);
    assert(gs[k].members.len() > 0);
    assert(labels[gs[k].members[0]] == gs[k].label);
}

/// The number of funds of a stock counts codes of funds: it is above zero; it is one where all parts
/// are of funds with one code; it is at least two where two parts are of funds with different codes,
/// and at least three where three parts are of funds with three codes; it never exceeds the number of
/// parts.
pub proof fn law_fund_count(
    funds: Seq<LtFundInput>,
    profiles: Seq<StockProfileRow>,
    k: int,
    a: int,
    b: int,
    c: int,
)
    requires
        0 <= k < stocks_of(funds, profiles).len(),
        0 <= a < stocks_of(funds, profiles)[k].parts.len(),
        0 <= b < stocks_of(funds, profiles)[k].parts.len(),
        0 <= c < stocks_of(funds, profiles)[k].parts.len(),
    ensures
        ({
            let s = stocks_of(funds, profiles)[k];
            let x = funds[s.parts[a].0].code@;
            let y = funds[s.parts[b].0].code@;
            let z = funds[s.parts[c].0].code@;
            &&& 1 <= s.fund_count <= s.parts.len()
            &&& x != y ==> s.fund_count >= 2
            &&& x != y && y != z && x != z ==> s.fund_count >= 3
            &&& (forall|m: int|
                0 <= m < s.parts.len() ==> funds[(#[trigger] s.parts[m]).0].code@ == x)
                ==> s.fund_count == 1
            &&& (forall|m: int|
                0 <= m < s.parts.len() ==> funds[(#[trigger] s.parts[m]).0].code@ == x
                    || funds[s.parts[m].0].code@ == y) ==> s.fund_count <= 2
        }),
{
    broadcast use vstd::set::group_set_axioms;
    let s = stocks_of(funds, profiles)[k];
    let codes = part_funds(funds, s.parts);
    let set = codes.to_set();
    let x = funds[s.parts[a].0].code@;
    let y = funds[s.parts[b].0].code@;
    let z = funds[s.parts[c].0].code@;
    codes.lemma_cardinality_of_set();
    vstd::seq_lib::seq_to_set_is_finite(codes);
    assert(codes[a] == x && codes[b] == y && codes[c] == z);
    assert(set.contains(x) && set.contains(y) && set.contains(z));
    assert(set.remove(x).len() == set.len() - 1);
    if x != y {
        assert(set.remove(x).contains(y));
        assert(set.remove(x).remove(y).len() == set.len() - 2);
        if y != z && x != z {
            assert(set.remove(x).remove(y).contains(z));
            assert(set.remove(x).remove(y).remove(z).len() == set.len() - 3);
        }
    }
    if forall|m: int| 0 <= m < s.parts.len() ==> funds[(#[trigger] s.parts[m]).0].code@ == x {
        assert(set =~= Set::empty().insert(x)) by {
            assert forall|t: Seq<char>| set.contains(t) implies t == x by {
                let m = choose|m: int| 0 <= m < codes.len() && codes[m] == t;
                assert(codes[m] == funds[s.parts[m].0].code@);
            }
        }
    }
    if forall|m: int|
        0 <= m < s.parts.len() ==> funds[(#[trigger] s.parts[m]).0].code@ == x
            || funds[s.parts[m].0].code@ == y {
        assert(set =~= Set::empty().insert(x).insert(y)) by {
            assert forall|t: Seq<char>| set.contains(t) implies t == x || t == y by {
                let m = choose|m: int| 0 <= m < codes.len() && codes[m] == t;
                assert(codes[m] == funds[s.parts[m].0].code@);
            }
        }
    }
}

// ---------------------------------------------------------------------------
// Slices
// ---------------------------------------------------------------------------

/// A slice of a sector is virtual exactly where the sector is one of the three that stand for no
/// industry; it has a contribution exactly where it is not; and what cannot be looked through counts
/// for one slice alone. Its members are the stocks of the sector, all of them.
pub proof fn law_sector_slice(labels: Seq<Label>, k: int, i: int)
    requires
        0 <= k < sector_slices(labels).len(),
        0 <= i < labels.len(),
    ensures
        ({
            let s = sector_slices(labels)[k];
            &&& s.parent is None
            &&& s.is_virtual <==> s.key == "未穿透"@ || s.key == "境外资产"@ || s.key
                == "未分类"@
            &&& s.has_contribution <==> !s.is_virtual
            &&& s.has_unpenetrated <==> s.key == "未穿透"@
            &&& s.members.contains(i) <==> labels[i].0 == s.key
        }),
{
    let ls = labels.map_values(|l: Label| sector_label(l));
    let gs = grouped(ls);
    let sl = gs.map_values(|g: GroupView| sector_slice(g));
    law_grouped_is_partition(ls);
    let s = sector_slices(labels)[k];
    assert(ls[i] == sector_label(labels[i]));
    assert(in_some_group(gs, i));
    let q = choose|q: int| 0 <= q < gs.len() && #[trigger] in_group(gs[q], i);
    let m = choose|m: int| 0 <= m < gs[q].members.len() && gs[q].members[m] == i;
    assert(ls[gs[q].members[m]] == gs[q].label);
    if k < gs.len() {
        assert(s == sector_slice(gs[k]));
        assert(gs[k].members.len() > 0);
        assert(ls[gs[k].members[0]] == gs[k].label);
        if labels[i].0 == s.key {
            assert(gs[k].label == gs[q].label);
            if k < q {
                assert(gs[k].label != gs[q].label);
            } else if q < k {
                assert(gs[q].label != gs[k].label);
            }
        }
        if s.members.contains(i) {
            let w = choose|w: int| 0 <= w < gs[k].members.len() && gs[k].members[w] == i;
            assert(ls[gs[k].members[w]] == gs[k].label);
        }
    } else {
        assert(sl[q].key == labels[i].0);
    }
}

/// A slice of an industry belongs to the sector of its stocks; its members are all stocks with its
/// sector and its name, except that what cannot be looked through holds no stock.
pub proof fn law_industry_slice(labels: Seq<Label>, k: int, i: int)
    requires
        0 <= k < industry_slices(labels).len(),
        0 <= i < labels.len(),
    ensures
        ({
            let s = industry_slices(labels)[k];
            &&& s.parent is Some
            &&& s.is_virtual <==> s.parent->Some_0 == "未穿透"@ || s.parent->Some_0
                == "境外资产"@ || s.parent->Some_0 == "未分类"@
            &&& s.has_contribution <==> !s.is_virtual
            &&& s.has_unpenetrated <==> s.parent->Some_0 == "未穿透"@ && s.key
                == "现金理财·未披露"@
            &&& s.members.contains(i) <==> labels[i].0 == s.parent->Some_0 && labels[i].1 == s.key
                && !s.has_unpenetrated
        }),
{
    let gs = grouped(labels);
    let sl = gs.map_values(|g: GroupView| industry_slice(g));
    law_grouped_is_partition(labels);
    let s = industry_slices(labels)[k];
    assert(in_some_group(gs, i));
    let q = choose|q: int| 0 <= q < gs.len() && #[trigger] in_group(gs[q], i);
    let m = choose|m: int| 0 <= m < gs[q].members.len() && gs[q].members[m] == i;
    assert(labels[gs[q].members[m]] == gs[q].label);
    if k < gs.len() {
        assert(s == industry_slice(gs[k]));
        if labels[i] == gs[k].label {
            if k < q {
                assert(gs[k].label != gs[q].label);
            } else if q < k {
                assert(gs[q].label != gs[k].label);
            }
        }
        if s.members.contains(i) {
            let w = choose|w: int| 0 <= w < gs[k].members.len() && gs[k].members[w] == i;
            assert(labels[gs[k].members[w]] == gs[k].label);
        }
    } else {
        assert(!s.members.contains(i));
    }
}

/// What cannot be looked through is shown among the sectors and among the industries, whatever the
/// stocks are, and every stock is shown in the sector and the industry that it bears.
pub proof fn law_unpenetrated_is_always_shown(labels: Seq<Label>) -> (r: (int, int))
    ensures
        0 <= r.0 < sector_slices(labels).len(),
        sector_slices(labels)[r.0].key == "未穿透"@,
        0 <= r.1 < industry_slices(labels).len(),
        industry_slices(labels)[r.1].has_unpenetrated,
        industry_slices(labels)[r.1].parent == Some("未穿透"@),
        industry_slices(labels)[r.1].key == "现金理财·未披露"@,
{
    let gs = grouped(labels.map_values(|l: Label| sector_label(l))).map_values(
        |g: GroupView| sector_slice(g),
    );
    let hs = grouped(labels).map_values(|g: GroupView| industry_slice(g));
    let a = if exists|k: int| 0 <= k < gs.len() && (#[trigger] gs[k]).key == "未穿透"@ {
        choose|k: int| 0 <= k < gs.len() && (#[trigger] gs[k]).key == "未穿透"@
    } else {
        gs.len() as int
    };
    let b = if exists|k: int| 0 <= k < hs.len() && (#[trigger] hs[k]).has_unpenetrated {
        choose|k: int| 0 <= k < hs.len() && (#[trigger] hs[k]).has_unpenetrated
    } else {
        hs.len() as int
    };
    (a, b)
}

/// Slices are shown by what they are worth, those worth most first; but those of what cannot be
/// looked through come behind all others.
pub proof fn law_slices_are_shown_by_worth(
    slices: Seq<SliceView>,
    worth: Seq<i64>,
    p: Seq<usize>,
    i: int,
    j: int,
)
    requires
        worth.len() == slices.len(),
        slice_order_ok(slices, worth, p),
        0 <= i < j < p.len(),
    ensures
        ({
            let a = slices[p[i] as int];
            let b = slices[p[j] as int];
            let last_a = (a.parent is Some && a.parent->Some_0 == "未穿透"@) || (a.parent is None
                && a.key == "未穿透"@);
            let last_b = (b.parent is Some && b.parent->Some_0 == "未穿透"@) || (b.parent is None
                && b.key == "未穿透"@);
            &&& p.len() == slices.len()
            &&& p.no_duplicates()
            &&& p[i] < slices.len()
            &&& last_a ==> last_b
            &&& last_a == last_b ==> worth[p[i] as int] > worth[p[j] as int] || (
            worth[p[i] as int] == worth[p[j] as int] && p[i] < p[j])
        }),
{
    let keys = slice_keys(slices, worth);
    assert(p[i] < slices.len() && p[j] < slices.len());
    assert(keys[p[i] as int].1 == worth[p[i] as int]);
    assert(keys[p[j] as int].1 == worth[p[j] as int]);
}

/// Stocks stand in the order in which the holdings name them first.
pub proof fn law_stocks_by_first_holding(
    funds: Seq<LtFundInput>,
    profiles: Seq<StockProfileRow>,
    j: int,
    k: int,
)
    requires
        0 <= j < k < stocks_of(funds, profiles).len(),
    ensures
        ({
            let a = stocks_of(funds, profiles)[j].parts[0];
            let b = stocks_of(funds, profiles)[k].parts[0];
            a.0 < b.0 || (a.0 == b.0 && a.1 < b.1)
        }),
{
    let labels = row_labels(funds);
    let gs = grouped(labels);
    law_grouped_is_partition(labels);
    law_groups_by_first_record(labels, j, k);
    let x = gs[j].members[0];
    let y = gs[k].members[0];
    assert(0 <= x < labels.len() && 0 <= y < labels.len());
    lemma_rows_ordered(funds, x, y);
}

// ---------------------------------------------------------------------------
// Reports of the funds
// ---------------------------------------------------------------------------

/// A fund counts for its latest report; one without a report and without holdings for none disclosed; one
/// with holdings but without a report does not count.
pub proof fn law_report_of_a_fund(funds: Seq<LtFundInput>, f: LtFundInput)
    ensures
        f.report_period is Some ==> period_labels(funds.push(f)) == period_labels(funds).push(
            (f.report_period->Some_0@, Seq::empty()),
        ),
        f.report_period is None && f.holdings@.len() == 0 ==> period_labels(funds.push(f))
            == period_labels(funds).push(("无披露"@, Seq::empty())),
        f.report_period is None && f.holdings@.len() > 0 ==> period_labels(funds.push(f))
            == period_labels(funds),
        period_labels(Seq::empty()).len() == 0,
{
    assert(funds.push(f).drop_last() =~= funds);
    assert(funds.push(f).last() == f);
}

/// Each report is shown once, with the number of the funds that count for it: as many as bear its label.
pub proof fn law_reports_count_their_funds(funds: Seq<LtFundInput>, k: int, i: int)
    requires
        0 <= k < period_counts(funds).len(),
        0 <= i < period_labels(funds).len(),
    ensures
        ({
            let g = grouped(period_labels(funds))[k];
            &&& period_counts(funds).len() == grouped(period_labels(funds)).len()
            &&& period_counts(funds)[k].0 == g.label.0
            &&& period_counts(funds)[k].1 == g.members.len()
            &&& period_counts(funds)[k].1 > 0
            &&& g.members.contains(i) <==> period_labels(funds)[i] == g.label
        }),
{
    let labels = period_labels(funds);
    law_grouped_is_partition(labels);
    let gs = grouped(labels);
    assert(gs[k].members.len() > 0);
    let first = gs[k].members[0];
    assert(labels[first] == gs[k].label);
    assert(gs[k].members.contains(first));
    crate::strategy_laws::lemma_same_group(labels, k, first, i);
}

/// Reports are shown with their numbers of funds, that of most funds first, and of two with equally many
/// the smaller name.
pub proof fn law_reports_are_shown_by_funds(
    funds: Seq<LtFundInput>,
    texts: Seq<Seq<char>>,
    i: int,
    j: int,
) -> (r: (int, int))
    requires
        shows_periods(funds, texts),
        0 <= i < j < texts.len(),
    ensures
        ({
            let c = period_counts(funds);
            &&& texts.len() == c.len()
            &&& 0 <= r.0 < c.len() && 0 <= r.1 < c.len()
            &&& texts[i] == c[r.0].0 + "×"@ + crate::text::decimal_of(c[r.0].1 as nat)
            &&& texts[j] == c[r.1].0 + "×"@ + crate::text::decimal_of(c[r.1].1 as nat)
            &&& c[r.0].1 > c[r.1].1 || (c[r.0].1 == c[r.1].1 && !lex_lt(c[r.1].0, c[r.0].0))
        }),
{
    let c = period_counts(funds);
    let s = choose|s: Seq<(Seq<char>, int)>|
        #[trigger] stably_sorted(c, s, more_funds()) && texts == s.map_values(
            |p: (Seq<char>, int)| period_text(p),
        );
    let p = choose|p: Seq<usize>| #[trigger] arranges(c, s, p, more_funds());
    assert(p[i] < c.len() && p[j] < c.len());
    assert(s[i] == c[p[i] as int] && s[j] == c[p[j] as int]);
    let a = c[p[i] as int];
    let b = c[p[j] as int];
    crate::text::lemma_lex_irreflexive(a.0);
    if lex_lt(a.0, b.0) && lex_lt(b.0, a.0) {
        crate::text::lemma_lex_transitive(a.0, b.0, a.0);
    }
    (p[i] as int, p[j] as int)
}

} // verus!
