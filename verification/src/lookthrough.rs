//! Look-through of funds to the stocks they hold.
//!
//! What is worth how much is for the caller to work out. Here stands which holdings count, which
//! stock, sector and industry each of them counts for, and in what order all of it is shown.
use vstd::prelude::*;
use crate::group::{group_by, group_views, grouped, is_partition, label_views, law_grouped_is_partition, GroupView, Label};
use crate::order::{arranges, lists_all, precedes, stable_order, stably_sorted, Ranked};
use crate::sector::{market, market_of, sector_l1_of, sector_of, SECTOR_OVERSEAS, SECTOR_UNCLASSIFIED, SECTOR_UNPENETRATED};
use crate::symbols::{law_with_all, push_new, with_all};
use crate::text::{decimal, decimal_of, is_before, lemma_lex_irreflexive, lemma_lex_total, lemma_lex_transitive, lex_lt, same, views};

verus! {

/// A stock that a fund has disclosed.
pub struct LtHolding {
    pub stock_code: String,
    pub stock_name: String,
}

/// A fund with the holdings of its latest report.
pub struct LtFundInput {
    pub code: String,
    pub name: String,
    /// A money market fund or a wealth product.
    pub is_money_or_wealth: bool,
    /// It has a real code and shares; otherwise only an amount is known.
    pub has_real_code: bool,
    /// The latest report, such as `2026Q2`.
    pub report_period: Option<String>,
    pub holdings: Vec<LtHolding>,
}

/// What is known of a stock's industry.
pub struct StockProfileRow {
    pub stock_code: String,
    pub name: String,
    pub industry_em: String,
    pub sector_l1: String,
    pub market: String,
}

/// A fund can be looked through: it is no money fund, it has a real code, and it has disclosed
/// something.
pub open spec fn penetrated(f: LtFundInput) -> bool {
    !f.is_money_or_wealth && f.has_real_code && f.holdings@.len() > 0
}

/// Whether a fund can be looked through.
pub fn is_penetrated(f: &LtFundInput) -> (r: bool)
    ensures
        r == penetrated(*f),
{
    !f.is_money_or_wealth && f.has_real_code && f.holdings.len() > 0
}

// ---------------------------------------------------------------------------
// Stocks
// ---------------------------------------------------------------------------

/// The holdings that count: those of every fund that can be looked through, as pairs of the fund's
/// and the holding's position.
pub open spec fn counted_rows(funds: Seq<LtFundInput>) -> Seq<(int, int)>
    decreases funds.len(),
{
    if funds.len() == 0 {
        Seq::empty()
    } else {
        counted_rows(funds.drop_last()) + fund_rows(
            funds.last(),
            funds.len() - 1,
            funds.last().holdings@.len() as int,
        )
    }
}

/// The first `n` holdings of a fund that count.
pub open spec fn fund_rows(f: LtFundInput, i: int, n: int) -> Seq<(int, int)> {
    if penetrated(f) {
        Seq::new(n as nat, |j: int| (i, j))
    } else {
        Seq::empty()
    }
}

/// The label under which a holding is counted: its stock's code.
pub open spec fn row_label(funds: Seq<LtFundInput>, row: (int, int)) -> Label {
    (funds[row.0].holdings@[row.1].stock_code@, Seq::empty())
}

/// The labels of all holdings that count.
pub open spec fn row_labels(funds: Seq<LtFundInput>) -> Seq<Label> {
    counted_rows(funds).map_values(|row: (int, int)| row_label(funds, row))
}

/// The profile of a stock: the first with its code.
pub open spec fn profile_of(profiles: Seq<StockProfileRow>, code: Seq<char>) -> Option<
    (Seq<char>, Seq<char>),
>
    decreases profiles.len(),
{
    if profiles.len() == 0 {
        None
    } else if profiles[0].stock_code@ == code {
        Some((profiles[0].industry_em@, profiles[0].sector_l1@))
    } else {
        profile_of(profiles.skip(1), code)
    }
}

/// Sector and industry of a stock. A mainland stock has those of its profile, the sector worked out
/// where the profile has none; without an industry it is unclassified. A stock listed abroad counts
/// for its market.
pub open spec fn stock_class(profiles: Seq<StockProfileRow>, code: Seq<char>) -> (
    Seq<char>,
    Seq<char>,
) {
    if market(code) == "A"@ {
        match profile_of(profiles, code) {
            Some(p) => if p.0.len() > 0 {
                (
                    if p.1.len() == 0 {
                        sector_of(p.0)
                    } else {
                        p.1
                    },
                    p.0,
                )
            } else {
                (SECTOR_UNCLASSIFIED@, "待补行业"@)
            },
            None => (SECTOR_UNCLASSIFIED@, "待补行业"@),
        }
    } else if market(code) == "HK"@ {
        (SECTOR_OVERSEAS@, "港股"@)
    } else {
        (SECTOR_OVERSEAS@, "美股"@)
    }
}

/// A stock that is held through funds: the holdings that make it up, and its class.
pub struct StockPlan {
    pub stock_code: String,
    pub stock_name: String,
    pub sector_l1: String,
    pub industry_l2: String,
    /// The holdings, as pairs of the fund's and the holding's position.
    pub parts: Vec<(usize, usize)>,
    /// Number of funds that hold it; a fund that is listed or lists it more than once counts once.
    pub fund_count: usize,
}

/// Model of a stock that is held through funds.
#[verifier::ext_equal]
pub struct StockView {
    pub code: Seq<char>,
    pub name: Seq<char>,
    pub sector: Seq<char>,
    pub industry: Seq<char>,
    pub parts: Seq<(int, int)>,
    pub fund_count: nat,
}

impl View for StockPlan {
    type V = StockView;

    open spec fn view(&self) -> StockView {
        StockView {
            code: self.stock_code@,
            name: self.stock_name@,
            sector: self.sector_l1@,
            industry: self.industry_l2@,
            parts: self.parts@.map_values(|p: (usize, usize)| (p.0 as int, p.1 as int)),
            fund_count: self.fund_count as nat,
        }
    }
}

/// The codes of the funds that some holdings are of, one for each holding.
pub open spec fn part_funds(funds: Seq<LtFundInput>, parts: Seq<(int, int)>) -> Seq<Seq<char>> {
    parts.map_values(|p: (int, int)| funds[p.0].code@)
}

/// The stock that a group of holdings makes up. Its name is that given by the first of them.
pub open spec fn stock_of_group(
    funds: Seq<LtFundInput>,
    profiles: Seq<StockProfileRow>,
    g: GroupView,
) -> StockView {
    let rows = counted_rows(funds);
    let first = rows[g.members[0]];
    let parts = g.members.map_values(|m: int| rows[m]);
    StockView {
        code: g.label.0,
        name: funds[first.0].holdings@[first.1].stock_name@,
        sector: stock_class(profiles, g.label.0).0,
        industry: stock_class(profiles, g.label.0).1,
        parts,
        fund_count: part_funds(funds, parts).to_set().len(),
    }
}

/// All stocks held through the funds, in the order in which they first occur.
pub open spec fn stocks_of(funds: Seq<LtFundInput>, profiles: Seq<StockProfileRow>) -> Seq<
    StockView,
> {
    grouped(row_labels(funds)).map_values(|g: GroupView| stock_of_group(funds, profiles, g))
}

/// The rows that count point at holdings of funds that can be looked through.
pub proof fn lemma_rows_in_range(funds: Seq<LtFundInput>, n: int)
    requires
        0 <= n < counted_rows(funds).len(),
    ensures
        0 <= counted_rows(funds)[n].0 < funds.len(),
        0 <= counted_rows(funds)[n].1 < funds[counted_rows(funds)[n].0].holdings@.len(),
        penetrated(funds[counted_rows(funds)[n].0]),
    decreases funds.len(),
{
    let rest = funds.drop_last();
    if n < counted_rows(rest).len() {
        lemma_rows_in_range(rest, n);
        let row = counted_rows(rest)[n];
        assert(rest[row.0] == funds[row.0]);
    }
}

/// Sector and industry of a stock.
pub fn classify(profiles: &Vec<StockProfileRow>, code: &str) -> (r: (String, String))
    ensures
        (r.0@, r.1@) == stock_class(profiles@, code@),
{
    proof {
        reveal_strlit("A");
        reveal_strlit("HK");
        reveal_strlit("US");
        assert("A"@.len() == 1 && "HK"@.len() == 2 && "US"@.len() == 2);
        assert("HK"@[0] == 'H' && "US"@[0] == 'U');
    }
    let m = market_of(code);
    if same(m, "A") {
        let mut i: usize = 0;
        assert(profiles@.skip(0) =~= profiles@);
        while i < profiles.len()
            invariant
                market(code@) == "A"@,
                i <= profiles@.len(),
                profile_of(profiles@, code@) == profile_of(profiles@.skip(i as int), code@),
            decreases profiles@.len() - i,
        {
            assert(profiles@.skip(i as int).skip(1) =~= profiles@.skip(i + 1));
            if same(profiles[i].stock_code.as_str(), code) {
                let p = &profiles[i];
                if p.industry_em.as_str().is_empty() {
                    return (SECTOR_UNCLASSIFIED.to_owned(), "待补行业".to_owned());
                }
                let l1 = if p.sector_l1.as_str().is_empty() {
                    sector_l1_of(p.industry_em.as_str()).to_owned()
                } else {
                    p.sector_l1.clone()
                };
                return (l1, p.industry_em.clone());
            }
            i += 1;
        }
        (SECTOR_UNCLASSIFIED.to_owned(), "待补行业".to_owned())
    } else if same(m, "HK") {
        (SECTOR_OVERSEAS.to_owned(), "港股".to_owned())
    } else {
        (SECTOR_OVERSEAS.to_owned(), "美股".to_owned())
    }
}

/// The holdings that count, with their labels.
fn list_rows(funds: &Vec<LtFundInput>) -> (r: (Vec<(usize, usize)>, Vec<(String, String)>))
    ensures
        r.0@.map_values(|p: (usize, usize)| (p.0 as int, p.1 as int)) == counted_rows(funds@),
        label_views(r.1@) == row_labels(funds@),
{
    let mut rows: Vec<(usize, usize)> = Vec::new();
    let mut labels: Vec<(String, String)> = Vec::new();
    let mut i: usize = 0;
    let ghost mut seen: Seq<(int, int)> = Seq::empty();
    while i < funds.len()
        invariant
            i <= funds@.len(),
            seen == counted_rows(funds@.take(i as int)),
            rows@.len() == seen.len(),
            labels@.len() == seen.len(),
            forall|k: int|
                0 <= k < seen.len() ==> (#[trigger] rows@[k]).0 == seen[k].0 && rows@[k].1
                    == seen[k].1,
            forall|k: int|
                0 <= k < seen.len() ==> (
                    (#[trigger] labels@[k]).0@,
                    labels@[k].1@,
                ) == row_label(funds@, seen[k]),
        decreases funds@.len() - i,
    {
        let ghost base = seen;
        let ghost f = funds@[i as int];
        assert(funds@.take(i + 1).drop_last() =~= funds@.take(i as int));
        if is_penetrated(&funds[i]) {
            let mut j: usize = 0;
            assert(base + fund_rows(f, i as int, 0) =~= base);
            while j < funds[i as usize].holdings.len()
                invariant
                    i < funds@.len(),
                    f == funds@[i as int],
                    penetrated(f),
                    j <= f.holdings@.len(),
                    seen == base + fund_rows(f, i as int, j as int),
                    rows@.len() == seen.len(),
                    labels@.len() == seen.len(),
                    forall|k: int|
                        0 <= k < seen.len() ==> (#[trigger] rows@[k]).0 == seen[k].0 && rows@[k].1
                            == seen[k].1,
                    forall|k: int|
                        0 <= k < seen.len() ==> (
                            (#[trigger] labels@[k]).0@,
                            labels@[k].1@,
                        ) == row_label(funds@, seen[k]),
                decreases f.holdings@.len() - j,
            {
                rows.push((i, j));
                let empty = String::new();
                labels.push((funds[i].holdings[j].stock_code.clone(), empty));
                proof {
                    seen = seen.push((i as int, j as int));
                    assert(seen =~= base + fund_rows(f, i as int, j + 1));
                    assert(row_label(funds@, (i as int, j as int)).1 =~= empty@);
                }
                j += 1;
            }
        } else {
            assert(base + fund_rows(f, i as int, f.holdings@.len() as int) =~= base);
        }
        assert(seen =~= counted_rows(funds@.take(i + 1)));
        i += 1;
    }
    proof {
        assert(funds@.take(funds@.len() as int) =~= funds@);
        assert(rows@.map_values(|p: (usize, usize)| (p.0 as int, p.1 as int)) =~= seen);
        assert(label_views(labels@) =~= row_labels(funds@));
    }
    (rows, labels)
}

/// All stocks held through the funds, each with the holdings that make it up and with its class.
pub fn look_through(funds: &Vec<LtFundInput>, profiles: &Vec<StockProfileRow>) -> (r: Vec<
    StockPlan,
>)
    ensures
        r@.map_values(|s: StockPlan| s@) == stocks_of(funds@, profiles@),
{
    let (rows, labels) = list_rows(funds);
    let groups = group_by(&labels);
    let ghost gs = grouped(row_labels(funds@));
    let ghost rv = counted_rows(funds@);
    proof {
        law_grouped_is_partition(row_labels(funds@));
    }
    let mut out: Vec<StockPlan> = Vec::new();
    let mut k: usize = 0;
    while k < groups.len()
        invariant
            gs == group_views(groups@),
            gs == grouped(row_labels(funds@)),
            rv == counted_rows(funds@),
            rv == rows@.map_values(|p: (usize, usize)| (p.0 as int, p.1 as int)),
            is_partition(row_labels(funds@), gs),
            k <= groups@.len(),
            out@.len() == k,
            forall|a: int|
                0 <= a < k ==> (#[trigger] out@[a])@ == stock_of_group(funds@, profiles@, gs[a]),
        decreases groups@.len() - k,
    {
        let g = &groups[k];
        assert(gs[k as int] == g@);
        assert(g@.members.len() > 0);
        assert(g@.members[0] == g.members@[0] as int);
        proof {
            assert(0 <= gs[k as int].members[0] < row_labels(funds@).len());
            lemma_rows_in_range(funds@, gs[k as int].members[0]);
        }
        let first = rows[g.members[0]];
        assert(rv[g@.members[0]] == (first.0 as int, first.1 as int));
        let name = funds[first.0].holdings[first.1].stock_name.clone();
        let class = classify(profiles, g.label.0.as_str());
        let mut parts: Vec<(usize, usize)> = Vec::new();
        let mut codes: Vec<String> = Vec::new();
        let ghost behind = part_funds(funds@, stock_of_group(funds@, profiles@, gs[k as int]).parts);
        let mut m: usize = 0;
        assert(views(codes@) =~= Seq::<Seq<char>>::empty());
        assert(behind.take(0) =~= Seq::<Seq<char>>::empty());
        while m < g.members.len()
            invariant
                behind == part_funds(
                    funds@,
                    stock_of_group(funds@, profiles@, gs[k as int]).parts,
                ),
                behind.len() == g.members@.len(),
                views(codes@) == with_all(Seq::empty(), behind.take(m as int)),
                k < groups@.len(),
                *g == groups@[k as int],
                gs[k as int] == g@,
                rv == rows@.map_values(|p: (usize, usize)| (p.0 as int, p.1 as int)),
                rv == counted_rows(funds@),
                gs == group_views(groups@),
                is_partition(row_labels(funds@), gs),
                m <= g.members@.len(),
                parts@.len() == m,
                forall|b: int|
                    0 <= b < m ==> rv[g@.members[b]] == (
                        (#[trigger] parts@[b]).0 as int,
                        parts@[b].1 as int,
                    ),
            decreases g.members@.len() - m,
        {
            assert(gs[k as int].members[m as int] == g.members@[m as int] as int);
            assert(0 <= gs[k as int].members[m as int] < row_labels(funds@).len());
            let row = rows[g.members[m]];
            assert(rv[g@.members[m as int]] == (row.0 as int, row.1 as int));
            proof {
                lemma_rows_in_range(funds@, g@.members[m as int]);
                assert(behind[m as int] == funds@[row.0 as int].code@);
                assert(behind.take(m + 1).drop_last() =~= behind.take(m as int));
            }
            push_new(&mut codes, funds[row.0].code.clone());
            parts.push(row);
            m += 1;
        }
        proof {
            assert(behind.take(behind.len() as int) =~= behind);
            law_with_all(Seq::empty(), behind);
            views(codes@).unique_seq_to_set();
            assert(views(codes@).to_set() =~= behind.to_set());
        }
        let s = StockPlan {
            stock_code: g.label.0.clone(),
            stock_name: name,
            sector_l1: class.0,
            industry_l2: class.1,
            parts,
            fund_count: codes.len(),
        };
        assert(s@.parts =~= stock_of_group(funds@, profiles@, gs[k as int]).parts);
        assert(s@ =~= stock_of_group(funds@, profiles@, gs[k as int]));
        out.push(s);
        k += 1;
    }
    assert(out@.map_values(|s: StockPlan| s@) =~= stocks_of(funds@, profiles@));
    out
}

/// A stock is a hidden heavyweight: at least three funds hold it and together they hold more of it than
/// a twentieth of the portfolio.
pub fn hidden_warning(fund_count: usize, above_twentieth: bool) -> (r: bool)
    ensures
        r == (fund_count >= 3 && above_twentieth),
{
    fund_count >= 3 && above_twentieth
}

// ---------------------------------------------------------------------------
// Sectors and industries
// ---------------------------------------------------------------------------

/// Industry under which the part that cannot be looked through is shown.
pub const INDUSTRY_UNPENETRATED: &'static str = "现金理财·未披露";

/// A slice of the portfolio: a sector, or an industry within a sector.
pub struct Slice {
    /// Sector that an industry belongs to; none for a sector itself.
    pub parent: Option<String>,
    pub key: String,
    /// It stands for no real industry.
    pub is_virtual: bool,
    /// The day's contribution is shown for it, where there are quotes.
    pub has_contribution: bool,
    /// What cannot be looked through counts for it.
    pub has_unpenetrated: bool,
    /// Positions of the stocks that count for it.
    pub members: Vec<usize>,
}

/// Model of a slice.
#[verifier::ext_equal]
pub struct SliceView {
    pub parent: Option<Seq<char>>,
    pub key: Seq<char>,
    pub is_virtual: bool,
    pub has_contribution: bool,
    pub has_unpenetrated: bool,
    pub members: Seq<int>,
}

impl View for Slice {
    type V = SliceView;

    open spec fn view(&self) -> SliceView {
        SliceView {
            parent: match self.parent {
                Some(p) => Some(p@),
                None => None,
            },
            key: self.key@,
            is_virtual: self.is_virtual,
            has_contribution: self.has_contribution,
            has_unpenetrated: self.has_unpenetrated,
            members: self.members@.map_values(|m: usize| m as int),
        }
    }
}

/// The models of a list of slices.
pub open spec fn slice_views(v: Seq<Slice>) -> Seq<SliceView> {
    v.map_values(|s: Slice| s@)
}

/// The sector stands for no real industry.
pub open spec fn virtual_sector(s: Seq<char>) -> bool {
    s == SECTOR_UNPENETRATED@ || s == SECTOR_OVERSEAS@ || s == SECTOR_UNCLASSIFIED@
}

/// Whether a sector stands for no real industry.
pub fn is_virtual_sector(s: &str) -> (r: bool)
    ensures
        r == virtual_sector(s@),
{
    same(s, SECTOR_UNPENETRATED) || same(s, SECTOR_OVERSEAS) || same(s, SECTOR_UNCLASSIFIED)
}

/// The label of a stock's sector alone.
pub open spec fn sector_label(l: Label) -> Label {
    (l.0, Seq::empty())
}

/// The slice of a sector.
pub open spec fn sector_slice(g: GroupView) -> SliceView {
    SliceView {
        parent: None,
        key: g.label.0,
        is_virtual: virtual_sector(g.label.0),
        has_contribution: !virtual_sector(g.label.0),
        has_unpenetrated: g.label.0 == SECTOR_UNPENETRATED@,
        members: g.members,
    }
}

/// The slice of what cannot be looked through, as a sector without stocks.
pub open spec fn bare_unpenetrated_sector() -> SliceView {
    SliceView {
        parent: None,
        key: SECTOR_UNPENETRATED@,
        is_virtual: true,
        has_contribution: false,
        has_unpenetrated: true,
        members: Seq::empty(),
    }
}

/// The sectors of stocks with these labels of sector and industry. What cannot be looked through is
/// always among them.
pub open spec fn sector_slices(labels: Seq<Label>) -> Seq<SliceView> {
    let gs = grouped(labels.map_values(|l: Label| sector_label(l))).map_values(
        |g: GroupView| sector_slice(g),
    );
    if exists|k: int| 0 <= k < gs.len() && (#[trigger] gs[k]).key == SECTOR_UNPENETRATED@ {
        gs
    } else {
        gs.push(bare_unpenetrated_sector())
    }
}

/// The label under which what cannot be looked through is shown as an industry.
pub open spec fn unpenetrated_label() -> Label {
    (SECTOR_UNPENETRATED@, INDUSTRY_UNPENETRATED@)
}

/// The slice of an industry. That of what cannot be looked through holds nothing else.
pub open spec fn industry_slice(g: GroupView) -> SliceView {
    SliceView {
        parent: Some(g.label.0),
        key: g.label.1,
        is_virtual: virtual_sector(g.label.0),
        has_contribution: !virtual_sector(g.label.0),
        has_unpenetrated: g.label == unpenetrated_label(),
        members: if g.label == unpenetrated_label() {
            Seq::empty()
        } else {
            g.members
        },
    }
}

/// The slice of what cannot be looked through, as an industry.
pub open spec fn bare_unpenetrated_industry() -> SliceView {
    SliceView {
        parent: Some(SECTOR_UNPENETRATED@),
        key: INDUSTRY_UNPENETRATED@,
        is_virtual: true,
        has_contribution: false,
        has_unpenetrated: true,
        members: Seq::empty(),
    }
}

/// The industries of stocks with these labels of sector and industry. What cannot be looked through
/// is always among them.
pub open spec fn industry_slices(labels: Seq<Label>) -> Seq<SliceView> {
    let gs = grouped(labels).map_values(|g: GroupView| industry_slice(g));
    if exists|k: int| 0 <= k < gs.len() && (#[trigger] gs[k]).has_unpenetrated {
        gs
    } else {
        gs.push(bare_unpenetrated_industry())
    }
}

/// A copy of positions.
fn copy_members(v: &Vec<usize>) -> (r: Vec<usize>)
    ensures
        r@ == v@,
{
    let mut r: Vec<usize> = Vec::new();
    let mut i: usize = 0;
    while i < v.len()
        invariant
            i <= v@.len(),
            r@ == v@.take(i as int),
        decreases v@.len() - i,
    {
        r.push(v[i]);
        i += 1;
        assert(v@.take(i as int) =~= v@.take(i - 1).push(v@[i - 1]));
    }
    assert(v@.take(v@.len() as int) =~= v@);
    r
}

/// The sectors of stocks with these labels of sector and industry.
pub fn industries_l1(labels: &Vec<(String, String)>) -> (r: Vec<Slice>)
    ensures
        slice_views(r@) == sector_slices(label_views(labels@)),
{
    let ghost lv = label_views(labels@);
    let ghost want = lv.map_values(|l: Label| sector_label(l));
    let mut keys: Vec<(String, String)> = Vec::new();
    let mut i: usize = 0;
    while i < labels.len()
        invariant
            lv == label_views(labels@),
            want == lv.map_values(|l: Label| sector_label(l)),
            i <= labels@.len(),
            keys@.len() == i,
            forall|k: int|
                0 <= k < i ==> ((#[trigger] keys@[k]).0@, keys@[k].1@) == want[k],
        decreases labels@.len() - i,
    {
        let empty = String::new();
        assert(empty@ =~= want[i as int].1);
        keys.push((labels[i].0.clone(), empty));
        i += 1;
    }
    assert(label_views(keys@) =~= want);
    let groups = group_by(&keys);
    let ghost gs = grouped(want);
    let ghost target = gs.map_values(|g: GroupView| sector_slice(g));
    let mut out: Vec<Slice> = Vec::new();
    let mut found: bool = false;
    let mut k: usize = 0;
    while k < groups.len()
        invariant
            gs == group_views(groups@),
            target == gs.map_values(|g: GroupView| sector_slice(g)),
            k <= groups@.len(),
            out@.len() == k,
            forall|a: int| 0 <= a < k ==> (#[trigger] out@[a])@ == target[a],
            found == exists|a: int| 0 <= a < k && (#[trigger] target[a]).key == SECTOR_UNPENETRATED@,
        decreases groups@.len() - k,
    {
        let g = &groups[k];
        assert(gs[k as int] == g@);
        let virtual_one = is_virtual_sector(g.label.0.as_str());
        let unpenetrated = same(g.label.0.as_str(), SECTOR_UNPENETRATED);
        let s = Slice {
            parent: None,
            key: g.label.0.clone(),
            is_virtual: virtual_one,
            has_contribution: !virtual_one,
            has_unpenetrated: unpenetrated,
            members: copy_members(&g.members),
        };
        assert(s@ =~= target[k as int]);
        if unpenetrated {
            found = true;
        }
        out.push(s);
        k += 1;
    }
    assert(slice_views(out@) =~= target);
    if !found {
        let s = Slice {
            parent: None,
            key: SECTOR_UNPENETRATED.to_owned(),
            is_virtual: true,
            has_contribution: false,
            has_unpenetrated: true,
            members: Vec::new(),
        };
        assert(s@ =~= bare_unpenetrated_sector());
        out.push(s);
        assert(slice_views(out@) =~= target.push(bare_unpenetrated_sector()));
    }
    out
}

/// The industries of stocks with these labels of sector and industry.
pub fn industries_l2(labels: &Vec<(String, String)>) -> (r: Vec<Slice>)
    ensures
        slice_views(r@) == industry_slices(label_views(labels@)),
{
    let groups = group_by(labels);
    let ghost gs = grouped(label_views(labels@));
    let ghost target = gs.map_values(|g: GroupView| industry_slice(g));
    let mut out: Vec<Slice> = Vec::new();
    let mut found: bool = false;
    let mut k: usize = 0;
    while k < groups.len()
        invariant
            gs == group_views(groups@),
            target == gs.map_values(|g: GroupView| industry_slice(g)),
            k <= groups@.len(),
            out@.len() == k,
            forall|a: int| 0 <= a < k ==> (#[trigger] out@[a])@ == target[a],
            found == exists|a: int| 0 <= a < k && (#[trigger] target[a]).has_unpenetrated,
        decreases groups@.len() - k,
    {
        let g = &groups[k];
        assert(gs[k as int] == g@);
        let in_unpenetrated = same(g.label.0.as_str(), SECTOR_UNPENETRATED);
        let unpenetrated = in_unpenetrated && same(g.label.1.as_str(), INDUSTRY_UNPENETRATED);
        let virtual_one = is_virtual_sector(g.label.0.as_str());
        let s = Slice {
            parent: Some(g.label.0.clone()),
            key: g.label.1.clone(),
            is_virtual: virtual_one,
            has_contribution: !virtual_one,
            has_unpenetrated: unpenetrated,
            members: if unpenetrated {
                Vec::new()
            } else {
                copy_members(&g.members)
            },
        };
        assert(s@ =~= target[k as int]);
        if unpenetrated {
            found = true;
        }
        out.push(s);
        k += 1;
    }
    assert(slice_views(out@) =~= target);
    if !found {
        let s = Slice {
            parent: Some(SECTOR_UNPENETRATED.to_owned()),
            key: INDUSTRY_UNPENETRATED.to_owned(),
            is_virtual: true,
            has_contribution: false,
            has_unpenetrated: true,
            members: Vec::new(),
        };
        assert(s@ =~= bare_unpenetrated_industry());
        out.push(s);
        assert(slice_views(out@) =~= target.push(bare_unpenetrated_industry()));
    }
    out
}

/// Whether the day's contribution of a slice is shown: never without quotes, and never for a slice that
/// stands for no real industry.
pub fn shows_contribution(s: &Slice, quoted: bool) -> (r: bool)
    ensures
        r == (quoted && s.has_contribution && !s.is_virtual),
{
    quoted && s.has_contribution && !s.is_virtual
}

/// Key under which slices are shown: the one of what cannot be looked through last, the others by
/// descending worth.
pub struct SliceKey {
    pub last: bool,
    pub worth: i64,
}

impl Ranked for SliceKey {
    open spec fn ahead(&self, other: &Self) -> bool {
        if self.last == other.last {
            self.worth > other.worth
        } else {
            other.last
        }
    }

    proof fn law_irreflexive(a: &Self) {
    }

    proof fn law_comparable(a: &Self, b: &Self, c: &Self) {
    }

    proof fn law_transitive(a: &Self, b: &Self, c: &Self) {
    }

    fn is_ahead(&self, other: &Self) -> (r: bool) {
        if self.last == other.last {
            self.worth > other.worth
        } else {
            other.last
        }
    }
}

/// A slice and the number that its worth is ordered by.
pub open spec fn slice_ahead() -> spec_fn((bool, i64), (bool, i64)) -> bool {
    |a: (bool, i64), b: (bool, i64)|
        if a.0 == b.0 {
            a.1 > b.1
        } else {
            b.0
        }
}

/// The slice belongs to the sector of what cannot be looked through.
pub open spec fn in_unpenetrated_sector(s: SliceView) -> bool {
    match s.parent {
        Some(p) => p == SECTOR_UNPENETRATED@,
        None => s.key == SECTOR_UNPENETRATED@,
    }
}

/// What the slices are ordered by: whether they come last, and their worth.
pub open spec fn slice_keys(slices: Seq<SliceView>, worth: Seq<i64>) -> Seq<(bool, i64)> {
    Seq::new(slices.len(), |i: int| (in_unpenetrated_sector(slices[i]), worth[i]))
}

/// `p` shows the slices in order.
pub open spec fn slice_order_ok(slices: Seq<SliceView>, worth: Seq<i64>, p: Seq<usize>) -> bool {
    arranges(
        slice_keys(slices, worth),
        Seq::new(slices.len(), |i: int| slice_keys(slices, worth)[p[i] as int]),
        p,
        slice_ahead(),
    )
}

/// The order in which slices are shown. `worth` holds a number for each that orders it among them.
pub fn slice_order(slices: &Vec<Slice>, worth: &Vec<i64>) -> (p: Vec<usize>)
    requires
        worth@.len() == slices@.len(),
    ensures
        slice_order_ok(slice_views(slices@), worth@, p@),
{
    let mut keys: Vec<SliceKey> = Vec::new();
    let ghost sv = slice_views(slices@);
    let mut i: usize = 0;
    while i < slices.len()
        invariant
            sv == slice_views(slices@),
            worth@.len() == slices@.len(),
            i <= slices@.len(),
            keys@.len() == i,
            forall|k: int|
                0 <= k < i ==> ((#[trigger] keys@[k]).last, keys@[k].worth) == slice_keys(
                    sv,
                    worth@,
                )[k],
        decreases slices@.len() - i,
    {
        assert(sv[i as int] == slices@[i as int]@);
        let last = match &slices[i].parent {
            Some(p) => same(p.as_str(), SECTOR_UNPENETRATED),
            None => same(slices[i].key.as_str(), SECTOR_UNPENETRATED),
        };
        keys.push(SliceKey { last, worth: worth[i] });
        i += 1;
    }
    let p = stable_order(&keys);
    proof {
        let s = slice_keys(sv, worth@);
        assert forall|a: int, b: int| 0 <= a < b < s.len() implies slice_ahead()(
            s[#[trigger] p@[a] as int],
            s[#[trigger] p@[b] as int],
        ) || (!slice_ahead()(s[p@[b] as int], s[p@[a] as int]) && p@[a] < p@[b]) by {
            assert(precedes(keys@, p@[a] as int, p@[b] as int));
            assert((keys@[p@[a] as int].last, keys@[p@[a] as int].worth) == s[p@[a] as int]);
            assert((keys@[p@[b] as int].last, keys@[p@[b] as int].worth) == s[p@[b] as int]);
        }
    }
    p
}

// ---------------------------------------------------------------------------
// Reports
// ---------------------------------------------------------------------------

/// What a fund counts for among the reports: its latest one, or that it has disclosed nothing.
pub open spec fn period_label(f: LtFundInput) -> Option<Seq<char>> {
    match f.report_period {
        Some(p) => Some(p@),
        None => if f.holdings@.len() == 0 {
            Some("无披露"@)
        } else {
            None
        },
    }
}

/// The labels of the funds among the reports.
pub open spec fn period_labels(funds: Seq<LtFundInput>) -> Seq<Label>
    decreases funds.len(),
{
    if funds.len() == 0 {
        Seq::empty()
    } else {
        let rest = period_labels(funds.drop_last());
        match period_label(funds.last()) {
            Some(p) => rest.push((p, Seq::empty())),
            None => rest,
        }
    }
}

/// Each report with the number of its funds.
pub open spec fn period_counts(funds: Seq<LtFundInput>) -> Seq<(Seq<char>, int)> {
    grouped(period_labels(funds)).map_values(
        |g: GroupView| (g.label.0, g.members.len() as int),
    )
}

/// The report of more funds comes first, of two with equally many the smaller name.
pub open spec fn more_funds() -> spec_fn((Seq<char>, int), (Seq<char>, int)) -> bool {
    |a: (Seq<char>, int), b: (Seq<char>, int)| a.1 > b.1 || (a.1 == b.1 && lex_lt(a.0, b.0))
}

/// How a report and the number of its funds are shown.
pub open spec fn period_text(p: (Seq<char>, int)) -> Seq<char> {
    p.0 + "×"@ + decimal_of(p.1 as nat)
}

/// `texts` shows the reports, that of most funds first.
pub open spec fn shows_periods(funds: Seq<LtFundInput>, texts: Seq<Seq<char>>) -> bool {
    exists|s: Seq<(Seq<char>, int)>|
        #[trigger] stably_sorted(period_counts(funds), s, more_funds()) && texts
            == s.map_values(|p: (Seq<char>, int)| period_text(p))
}

/// Key under which reports are shown.
pub struct PeriodKey {
    pub count: usize,
    pub period: String,
}

impl Ranked for PeriodKey {
    open spec fn ahead(&self, other: &Self) -> bool {
        self.count > other.count || (self.count == other.count && lex_lt(
            self.period@,
            other.period@,
        ))
    }

    proof fn law_irreflexive(a: &Self) {
        lemma_lex_irreflexive(a.period@);
    }

    proof fn law_comparable(a: &Self, b: &Self, c: &Self) {
        lemma_lex_total(a.period@, b.period@);
        lemma_lex_total(b.period@, c.period@);
        if lex_lt(b.period@, a.period@) && lex_lt(a.period@, c.period@) {
            lemma_lex_transitive(b.period@, a.period@, c.period@);
        }
    }

    proof fn law_transitive(a: &Self, b: &Self, c: &Self) {
        if lex_lt(a.period@, b.period@) && lex_lt(b.period@, c.period@) {
            lemma_lex_transitive(a.period@, b.period@, c.period@);
        }
    }

    fn is_ahead(&self, other: &Self) -> (r: bool) {
        self.count > other.count || (self.count == other.count && is_before(
            self.period.as_str(),
            other.period.as_str(),
        ))
    }
}

/// The reports with the number of their funds, that of most funds first.
pub fn report_periods(funds: &Vec<LtFundInput>) -> (r: Vec<String>)
    ensures
        shows_periods(funds@, views(r@)),
{
    let mut labels: Vec<(String, String)> = Vec::new();
    let mut i: usize = 0;
    assert(label_views(labels@) =~= period_labels(funds@.take(0)));
    while i < funds.len()
        invariant
            i <= funds@.len(),
            label_views(labels@) == period_labels(funds@.take(i as int)),
        decreases funds@.len() - i,
    {
        assert(funds@.take(i + 1).drop_last() =~= funds@.take(i as int));
        let ghost before = labels@;
        let empty = String::new();
        assert(empty@ =~= Seq::<char>::empty());
        match &funds[i].report_period {
            Some(p) => {
                let l = (p.clone(), empty);
                labels.push(l);
                assert(label_views(labels@) =~= label_views(before).push((p@, Seq::empty())));
            },
            None => {
                if funds[i].holdings.len() == 0 {
                    let l = ("无披露".to_owned(), empty);
                    labels.push(l);
                    assert(label_views(labels@) =~= label_views(before).push(
                        ("无披露"@, Seq::empty()),
                    ));
                }
            },
        }
        i += 1;
    }
    assert(funds@.take(funds@.len() as int) =~= funds@);
    let groups = group_by(&labels);
    let ghost counts = period_counts(funds@);
    let ghost gs = grouped(period_labels(funds@));
    let mut keys: Vec<PeriodKey> = Vec::new();
    let mut k: usize = 0;
    while k < groups.len()
        invariant
            gs == group_views(groups@),
            counts == gs.map_values(|g: GroupView| (g.label.0, g.members.len() as int)),
            k <= groups@.len(),
            keys@.len() == k,
            forall|a: int|
                0 <= a < k ==> ((#[trigger] keys@[a]).period@, keys@[a].count as int) == counts[a],
        decreases groups@.len() - k,
    {
        assert(gs[k as int] == groups@[k as int]@);
        keys.push(
            PeriodKey { count: groups[k].members.len(), period: groups[k].label.0.clone() },
        );
        k += 1;
    }
    let order = stable_order(&keys);
    let mut out: Vec<String> = Vec::new();
    let mut j: usize = 0;
    let ghost sorted = Seq::new(counts.len(), |a: int| counts[order@[a] as int]);
    while j < order.len()
        invariant
            lists_all(order@, keys@.len() as int),
            keys@.len() == counts.len(),
            sorted == Seq::new(counts.len(), |a: int| counts[order@[a] as int]),
            forall|a: int|
                0 <= a < keys@.len() ==> ((#[trigger] keys@[a]).period@, keys@[a].count as int)
                    == counts[a],
            j <= order@.len(),
            out@.len() == j,
            forall|a: int| 0 <= a < j ==> (#[trigger] out@[a])@ == period_text(sorted[a]),
        decreases order@.len() - j,
    {
        let key = &keys[order[j]];
        assert((key.period@, key.count as int) == counts[order@[j as int] as int]);
        let mut t = key.period.clone();
        t.append("×");
        t.append(decimal(key.count as u64).as_str());
        out.push(t);
        j += 1;
    }
    proof {
        assert forall|a: int, b: int| 0 <= a < b < sorted.len() implies more_funds()(
            counts[#[trigger] order@[a] as int],
            counts[#[trigger] order@[b] as int],
        ) || (!more_funds()(counts[order@[b] as int], counts[order@[a] as int]) && order@[a]
            < order@[b]) by {
            assert(precedes(keys@, order@[a] as int, order@[b] as int));
            let x = order@[a] as int;
            let y = order@[b] as int;
            assert((keys@[x].period@, keys@[x].count as int) == counts[x]);
            assert((keys@[y].period@, keys@[y].count as int) == counts[y]);
        }
        assert(arranges(counts, sorted, order@, more_funds()));
        assert(stably_sorted(counts, sorted, more_funds()));
        assert(views(out@) =~= sorted.map_values(|p: (Seq<char>, int)| period_text(p)));
    }
    out
}

} // verus!
