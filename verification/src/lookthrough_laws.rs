//! Laws of the look-through.
//!
//! Worth is left open here: each law holds whatever the single holdings or stocks are worth.
use vstd::prelude::*;
use crate::group::{grouped, in_group, in_some_group, law_group_sums, law_grouped_is_partition, sum_groups, sum_members, sum_records, GroupView, Label};
use crate::lookthrough::{bare_unpenetrated_industry, bare_unpenetrated_sector, counted_rows, fund_rows, industry_slice, industry_slices, lemma_rows_in_range, penetrated, row_label, row_labels, sector_label, sector_slice, sector_slices, stocks_of, unpenetrated_label, LtFundInput, SliceView, StockProfileRow, StockView};
use crate::sector::SECTOR_UNPENETRATED;

verus! {

/// Money funds, wealth products, funds of which only an amount is known and funds that have
/// disclosed nothing never make up any stock: every part of a stock is a holding, of that stock, of
/// a fund that can be looked through.
pub proof fn law_only_penetrated_funds_make_up_stocks(
    funds: Seq<LtFundInput>,
    profiles: Seq<StockProfileRow>,
    k: int,
    m: int,
)
    requires
        0 <= k < stocks_of(funds, profiles).len(),
        0 <= m < stocks_of(funds, profiles)[k].parts.len(),
    ensures
        ({
            let s = stocks_of(funds, profiles)[k];
            let p = s.parts[m];
            &&& 0 <= p.0 < funds.len()
            &&& penetrated(funds[p.0])
            &&& 0 <= p.1 < funds[p.0].holdings@.len()
            &&& funds[p.0].holdings@[p.1].stock_code@ == s.code
        }),
{
    let labels = row_labels(funds);
    let gs = grouped(labels);
    law_grouped_is_partition(labels);
    assert(0 <= gs[k].members[m] < labels.len());
    assert(labels[gs[k].members[m]] == gs[k].label);
    lemma_rows_in_range(funds, gs[k].members[m]);
}

/// The holdings that count are listed once each.
proof fn lemma_rows_complete(funds: Seq<LtFundInput>, i: int, j: int) -> (n: int)
    requires
        0 <= i < funds.len(),
        penetrated(funds[i]),
        0 <= j < funds[i].holdings@.len(),
    ensures
        0 <= n < counted_rows(funds).len(),
        counted_rows(funds)[n] == (i, j),
    decreases funds.len(),
{
    let rest = funds.drop_last();
    if i == funds.len() - 1 {
        let n = counted_rows(rest).len() + j;
        assert(fund_rows(funds[i], i, funds[i].holdings@.len() as int)[j] == (i, j));
        n
    } else {
        assert(rest[i] == funds[i]);
        lemma_rows_complete(rest, i, j)
    }
}

/// No holding is listed twice among those that count.
proof fn lemma_rows_distinct(funds: Seq<LtFundInput>, a: int, b: int)
    requires
        0 <= a < b < counted_rows(funds).len(),
    ensures
        counted_rows(funds)[a] != counted_rows(funds)[b],
    decreases funds.len(),
{
    let rest = funds.drop_last();
    let n = counted_rows(rest).len();
    if b < n {
        lemma_rows_distinct(rest, a, b);
    } else if a < n {
        lemma_rows_in_range(rest, a);
    }
}

/// `(i, j)` is one of the parts of the stock.
pub open spec fn has_part(s: StockView, i: int, j: int) -> bool {
    s.parts.contains((i, j))
}

/// Every holding of a fund that can be looked through makes up exactly one stock, and occurs in it
/// once.
pub proof fn law_every_holding_counts_once(
    funds: Seq<LtFundInput>,
    profiles: Seq<StockProfileRow>,
    i: int,
    j: int,
) -> (k: int)
    requires
        0 <= i < funds.len(),
        penetrated(funds[i]),
        0 <= j < funds[i].holdings@.len(),
    ensures
        0 <= k < stocks_of(funds, profiles).len(),
        has_part(stocks_of(funds, profiles)[k], i, j),
        stocks_of(funds, profiles)[k].code == funds[i].holdings@[j].stock_code@,
        stocks_of(funds, profiles)[k].parts.no_duplicates(),
        forall|l: int|
            0 <= l < stocks_of(funds, profiles).len() && has_part(
                #[trigger] stocks_of(funds, profiles)[l],
                i,
                j,
            ) ==> l == k,
{
    let labels = row_labels(funds);
    let rows = counted_rows(funds);
    let gs = grouped(labels);
    let stocks = stocks_of(funds, profiles);
    law_grouped_is_partition(labels);
    let n = lemma_rows_complete(funds, i, j);
    assert(in_some_group(gs, n));
    let k = choose|k: int| 0 <= k < gs.len() && #[trigger] in_group(gs[k], n);
    let m = choose|m: int| 0 <= m < gs[k].members.len() && gs[k].members[m] == n;
    assert(labels[gs[k].members[m]] == gs[k].label);
    assert(stocks[k].parts[m] == (i, j));
    assert(stocks[k].parts.no_duplicates()) by {
        assert forall|a: int, b: int|
            0 <= a < stocks[k].parts.len() && 0 <= b < stocks[k].parts.len() && a != b implies stocks[k].parts[a]
            != stocks[k].parts[b] by {
            let x = gs[k].members[a];
            let y = gs[k].members[b];
            assert(stocks[k].parts[a] == rows[x] && stocks[k].parts[b] == rows[y]);
            if a < b {
                assert(x < y);
                lemma_rows_distinct(funds, x, y);
            } else {
                assert(y < x);
                lemma_rows_distinct(funds, y, x);
            }
        }
    }
    assert forall|l: int|
        0 <= l < stocks.len() && has_part(#[trigger] stocks[l], i, j) implies l == k by {
        let q = choose|q: int| 0 <= q < stocks[l].parts.len() && stocks[l].parts[q] == (i, j);
        assert(rows[gs[l].members[q]] == (i, j));
        assert(labels[gs[l].members[q]] == gs[l].label);
        assert(labels[gs[l].members[q]] == row_label(funds, (i, j)));
        assert(labels[n] == row_label(funds, (i, j)));
        if l < k {
            assert(gs[l].label != gs[k].label);
        } else if k < l {
            assert(gs[k].label != gs[l].label);
        }
    }
    k
}

/// Nothing is amplified: where no member is worth more than its bound, the members together are
/// worth no more than their bounds together.
pub proof fn law_not_amplified(
    members: Seq<int>,
    value: spec_fn(int) -> int,
    bound: spec_fn(int) -> int,
)
    requires
        forall|i: int|
            0 <= i < members.len() ==> value(#[trigger] members[i]) <= bound(members[i]),
    ensures
        sum_members(members, value) <= sum_members(members, bound),
    decreases members.len(),
{
    if members.len() > 0 {
        assert forall|i: int| 0 <= i < members.drop_last().len() implies value(
            #[trigger] members.drop_last()[i],
        ) <= bound(members.drop_last()[i]) by {
            assert(members.drop_last()[i] == members[i]);
        }
        law_not_amplified(members.drop_last(), value, bound);
        assert(members.last() == members[members.len() - 1]);
    }
}

// ---------------------------------------------------------------------------
// Slices
// ---------------------------------------------------------------------------

/// What a slice is worth: its stocks, and what cannot be looked through where that counts for it.
pub open spec fn slice_worth(s: SliceView, value: spec_fn(int) -> int, rest: int) -> int {
    sum_members(s.members, value) + (if s.has_unpenetrated {
        rest
    } else {
        0
    })
}

/// What the wanted slices are worth together.
pub open spec fn slices_worth(
    slices: Seq<SliceView>,
    value: spec_fn(int) -> int,
    rest: int,
    wanted: spec_fn(SliceView) -> bool,
) -> int
    decreases slices.len(),
{
    if slices.len() == 0 {
        0
    } else {
        (if wanted(slices[0]) {
            slice_worth(slices[0], value, rest)
        } else {
            0
        }) + slices_worth(slices.skip(1), value, rest, wanted)
    }
}

proof fn lemma_worth_push(
    slices: Seq<SliceView>,
    s: SliceView,
    value: spec_fn(int) -> int,
    rest: int,
    wanted: spec_fn(SliceView) -> bool,
)
    ensures
        slices_worth(slices.push(s), value, rest, wanted) == slices_worth(
            slices,
            value,
            rest,
            wanted,
        ) + (if wanted(s) {
            slice_worth(s, value, rest)
        } else {
            0
        }),
    decreases slices.len(),
{
    let t = slices.push(s);
    if slices.len() == 0 {
        assert(t.skip(1) =~= Seq::<SliceView>::empty());
        assert(slices_worth(t.skip(1), value, rest, wanted) == 0);
    } else {
        assert(t.skip(1) =~= slices.skip(1).push(s));
        lemma_worth_push(slices.skip(1), s, value, rest, wanted);
    }
}

/// The wanted sectors, without what cannot be looked through.
spec fn wanted_sector(sector: Option<Seq<char>>) -> spec_fn(Label) -> bool {
    |l: Label|
        match sector {
            Some(s) => l.0 == s,
            None => true,
        }
}

/// The wanted sector slices.
pub open spec fn sector_wanted(sector: Option<Seq<char>>) -> spec_fn(SliceView) -> bool {
    |v: SliceView|
        match sector {
            Some(s) => v.key == s,
            None => true,
        }
}

/// The wanted industry slices.
pub open spec fn industry_wanted(sector: Option<Seq<char>>) -> spec_fn(SliceView) -> bool {
    |v: SliceView|
        match sector {
            Some(s) => v.parent == Some(s),
            None => true,
        }
}

/// No group from `from` on bears the sector of what cannot be looked through.
spec fn free_of_unpenetrated(gs: Seq<GroupView>) -> bool {
    forall|k: int| 0 <= k < gs.len() ==> (#[trigger] gs[k]).label.0 != SECTOR_UNPENETRATED@
}

proof fn lemma_sector_worth_free(
    gs: Seq<GroupView>,
    value: spec_fn(int) -> int,
    rest: int,
    sector: Option<Seq<char>>,
)
    requires
        free_of_unpenetrated(gs),
    ensures
        slices_worth(
            gs.map_values(|g: GroupView| sector_slice(g)),
            value,
            rest,
            sector_wanted(sector),
        ) == sum_groups(gs, value, wanted_sector(sector)),
    decreases gs.len(),
{
    let sl = gs.map_values(|g: GroupView| sector_slice(g));
    if gs.len() > 0 {
        assert(sl.skip(1) =~= gs.skip(1).map_values(|g: GroupView| sector_slice(g)));
        assert(free_of_unpenetrated(gs.skip(1))) by {
            assert forall|k: int| 0 <= k < gs.skip(1).len() implies (
                #[trigger] gs.skip(1)[k]).label.0 != SECTOR_UNPENETRATED@ by {
                assert(gs.skip(1)[k] == gs[k + 1]);
            }
        }
        lemma_sector_worth_free(gs.skip(1), value, rest, sector);
        assert(gs[0].label.0 != SECTOR_UNPENETRATED@);
        assert(sl[0] == sector_slice(gs[0]));
    }
}

/// Where one group bears the sector of what cannot be looked through, that counts once.
proof fn lemma_sector_worth_one(
    gs: Seq<GroupView>,
    value: spec_fn(int) -> int,
    rest: int,
    sector: Option<Seq<char>>,
    at: int,
)
    requires
        0 <= at < gs.len(),
        gs[at].label.0 == SECTOR_UNPENETRATED@,
        forall|k: int|
            0 <= k < gs.len() && k != at ==> (#[trigger] gs[k]).label.0 != SECTOR_UNPENETRATED@,
    ensures
        slices_worth(
            gs.map_values(|g: GroupView| sector_slice(g)),
            value,
            rest,
            sector_wanted(sector),
        ) == sum_groups(gs, value, wanted_sector(sector)) + (if wanted_sector(sector)(
            (SECTOR_UNPENETRATED@, Seq::empty()),
        ) {
            rest
        } else {
            0
        }),
    decreases gs.len(),
{
    let sl = gs.map_values(|g: GroupView| sector_slice(g));
    assert(sl.skip(1) =~= gs.skip(1).map_values(|g: GroupView| sector_slice(g)));
    assert(sl[0] == sector_slice(gs[0]));
    assert forall|k: int| 0 <= k < gs.skip(1).len() implies #[trigger] gs.skip(1)[k] == gs[k + 1] by {
    }
    if at == 0 {
        assert(free_of_unpenetrated(gs.skip(1)));
        lemma_sector_worth_free(gs.skip(1), value, rest, sector);
    } else {
        assert(gs.skip(1)[at - 1] == gs[at]);
        lemma_sector_worth_one(gs.skip(1), value, rest, sector, at - 1);
    }
}

/// Sum over records of the sector label alone is the sum over records by their sector.
proof fn lemma_sum_by_sector(
    labels: Seq<Label>,
    value: spec_fn(int) -> int,
    sector: Option<Seq<char>>,
)
    ensures
        sum_records(
            labels.map_values(|l: Label| sector_label(l)),
            value,
            wanted_sector(sector),
        ) == sum_records(labels, value, wanted_sector(sector)),
    decreases labels.len(),
{
    let ls = labels.map_values(|l: Label| sector_label(l));
    if labels.len() > 0 {
        assert(ls.drop_last() =~= labels.drop_last().map_values(|l: Label| sector_label(l)));
        lemma_sum_by_sector(labels.drop_last(), value, sector);
        assert(ls.last() == sector_label(labels.last()));
    }
}

/// What the wanted sector slices are worth: the stocks of those sectors, and what cannot be looked
/// through where its sector is wanted.
proof fn lemma_sector_slices_worth(
    labels: Seq<Label>,
    value: spec_fn(int) -> int,
    rest: int,
    sector: Option<Seq<char>>,
)
    ensures
        slices_worth(sector_slices(labels), value, rest, sector_wanted(sector)) == sum_records(
            labels,
            value,
            wanted_sector(sector),
        ) + (if wanted_sector(sector)((SECTOR_UNPENETRATED@, Seq::empty())) {
            rest
        } else {
            0
        }),
{
    let ls = labels.map_values(|l: Label| sector_label(l));
    let gs = grouped(ls);
    let sl = gs.map_values(|g: GroupView| sector_slice(g));
    law_grouped_is_partition(ls);
    law_group_sums(ls, value, wanted_sector(sector));
    lemma_sum_by_sector(labels, value, sector);
    assert forall|k: int| 0 <= k < gs.len() implies (#[trigger] gs[k]).label.1 == Seq::<
        char,
    >::empty() by {
        assert(gs[k].members.len() > 0);
        assert(ls[gs[k].members[0]] == gs[k].label);
    }
    if exists|k: int| 0 <= k < sl.len() && (#[trigger] sl[k]).key == SECTOR_UNPENETRATED@ {
        let at = choose|k: int| 0 <= k < sl.len() && (#[trigger] sl[k]).key == SECTOR_UNPENETRATED@;
        assert(gs[at].label.0 == SECTOR_UNPENETRATED@);
        assert forall|k: int| 0 <= k < gs.len() && k != at implies (#[trigger] gs[k]).label.0
            != SECTOR_UNPENETRATED@ by {
            if k < at {
                assert(gs[k].label != gs[at].label);
            } else {
                assert(gs[at].label != gs[k].label);
            }
        }
        lemma_sector_worth_one(gs, value, rest, sector, at);
    } else {
        assert(free_of_unpenetrated(gs)) by {
            assert forall|k: int| 0 <= k < gs.len() implies (#[trigger] gs[k]).label.0
                != SECTOR_UNPENETRATED@ by {
                assert(sl[k].key == gs[k].label.0);
            }
        }
        lemma_sector_worth_free(gs, value, rest, sector);
        lemma_worth_push(sl, bare_unpenetrated_sector(), value, rest, sector_wanted(sector));
        assert(sum_members(Seq::<int>::empty(), value) == 0);
    }
}

proof fn lemma_industry_worth(
    gs: Seq<GroupView>,
    value: spec_fn(int) -> int,
    rest: int,
    sector: Option<Seq<char>>,
)
    requires
        forall|k: int| 0 <= k < gs.len() ==> (#[trigger] gs[k]).label != unpenetrated_label(),
    ensures
        slices_worth(
            gs.map_values(|g: GroupView| industry_slice(g)),
            value,
            rest,
            industry_wanted(sector),
        ) == sum_groups(gs, value, wanted_sector(sector)),
    decreases gs.len(),
{
    let sl = gs.map_values(|g: GroupView| industry_slice(g));
    if gs.len() > 0 {
        assert(sl.skip(1) =~= gs.skip(1).map_values(|g: GroupView| industry_slice(g)));
        assert forall|k: int| 0 <= k < gs.skip(1).len() implies (#[trigger] gs.skip(1)[k]).label
            != unpenetrated_label() by {
            assert(gs.skip(1)[k] == gs[k + 1]);
        }
        lemma_industry_worth(gs.skip(1), value, rest, sector);
        assert(gs[0].label != unpenetrated_label());
        assert(sl[0] == industry_slice(gs[0]));
    }
}

/// The sectors together are worth the whole portfolio: all stocks and what cannot be looked
/// through.
pub proof fn law_sectors_sum_to_whole(labels: Seq<Label>, value: spec_fn(int) -> int, rest: int)
    ensures
        slices_worth(sector_slices(labels), value, rest, |v: SliceView| true) == sum_records(
            labels,
            value,
            |l: Label| true,
        ) + rest,
{
    lemma_sector_slices_worth(labels, value, rest, None);
    assert(sector_wanted(None) =~= (|v: SliceView| true));
    assert(wanted_sector(None) =~= (|l: Label| true));
}

/// The industries of a sector together are worth what the sector is, for every sector. Left out are
/// stocks that bear the very label under which what cannot be looked through is shown as an
/// industry.
pub proof fn law_industries_sum_to_sector(
    labels: Seq<Label>,
    value: spec_fn(int) -> int,
    rest: int,
    sector: Seq<char>,
)
    requires
        forall|i: int| 0 <= i < labels.len() ==> #[trigger] labels[i] != unpenetrated_label(),
    ensures
        slices_worth(
            industry_slices(labels),
            value,
            rest,
            |v: SliceView| v.parent == Some(sector),
        ) == slices_worth(sector_slices(labels), value, rest, |v: SliceView| v.key == sector),
{
    let want = Some(sector);
    lemma_sector_slices_worth(labels, value, rest, want);
    let gs = grouped(labels);
    let sl = gs.map_values(|g: GroupView| industry_slice(g));
    law_grouped_is_partition(labels);
    law_group_sums(labels, value, wanted_sector(want));
    assert forall|k: int| 0 <= k < gs.len() implies (#[trigger] gs[k]).label
        != unpenetrated_label() by {
        assert(gs[k].members.len() > 0);
        assert(labels[gs[k].members[0]] == gs[k].label);
    }
    lemma_industry_worth(gs, value, rest, want);
    assert(!(exists|k: int| 0 <= k < sl.len() && (#[trigger] sl[k]).has_unpenetrated)) by {
        assert forall|k: int| 0 <= k < sl.len() implies !(#[trigger] sl[k]).has_unpenetrated by {
            assert(gs[k].label != unpenetrated_label());
        }
    }
    lemma_worth_push(sl, bare_unpenetrated_industry(), value, rest, industry_wanted(want));
    assert(sum_members(Seq::<int>::empty(), value) == 0);
    assert(sector_wanted(want) =~= (|v: SliceView| v.key == sector));
    assert(industry_wanted(want) =~= (|v: SliceView| v.parent == Some(sector)));
}

} // verus!
