//! Replies of the fund services: searches, official values, their history and estimates.
use vstd::prelude::*;
use crate::funds::{clean_for_match, cleaned, fund_type_code_from_ftype, match_name_score, name_score, type_code};
use crate::json::{doc_of, json_document, list_len, parse_json, text_at, text_at_or_empty, text_or_empty, text_or_number, text_or_number_at, Doc};
use crate::order::{arranges, lists_all, precedes, stable_order, stably_sorted, TextUp};
use crate::pick::{law_picked, pick, picked};
use crate::percent::{percent_text, urlencode};
use crate::text::{begins, contains, decimal, decimal_of, digits_n, ends, ends_with, is_digits_n, lex_lt, occurs, same, slice_text, starts_with, to_chars, trim, trimmed};

verus! {

// ---------------------------------------------------------------------------
// Addresses
// ---------------------------------------------------------------------------

/// Address of a search for a fund.
pub fn search_url(key: &str) -> (r: String)
    ensures
        r@
            == "https://fundsuggest.eastmoney.com/FundSearch/api/FundSearchAPI.ashx?m=1&key="@
            + percent_text(key@),
{
    let mut u =
        "https://fundsuggest.eastmoney.com/FundSearch/api/FundSearchAPI.ashx?m=1&key=".to_owned();
    u.append(urlencode(key).as_str());
    u
}

/// Address of a fund's latest official values.
pub fn nav_url(fund_code: &str, page_size: u32) -> (r: String)
    ensures
        r@ == "https://api.fund.eastmoney.com/f10/lsjz?fundCode="@ + fund_code@
            + "&pageIndex=1&pageSize="@ + decimal_of(page_size as nat),
{
    let mut u = "https://api.fund.eastmoney.com/f10/lsjz?fundCode=".to_owned();
    u.append(fund_code);
    u.append("&pageIndex=1&pageSize=");
    u.append(decimal(page_size as u64).as_str());
    u
}

/// Number of values to ask for so as to cover some months: twenty-two to the month and ten more, all
/// of them for 0, never more than ten thousand.
pub fn history_page_size(months: u32) -> (r: u32)
    ensures
        r == (if months == 0 || months * 22 + 10 > 10000 {
            10000
        } else {
            months * 22 + 10
        }),
{
    if months == 0 || months > 454 {
        10000
    } else {
        months * 22 + 10
    }
}

/// Address of a fund's estimate.
pub fn estimate_url(fund_code: &str) -> (r: String)
    ensures
        r@ == "https://fundgz.tenorfun.com/js/"@ + fund_code@ + ".js"@,
{
    let mut u = "https://fundgz.tenorfun.com/js/".to_owned();
    u.append(fund_code);
    u.append(".js");
    u
}

/// Pointer to a field of an item of a list.
pub open spec fn item_field(list: Seq<char>, i: int, field: Seq<char>) -> Seq<char> {
    list + "/"@ + decimal_of(i as nat) + field
}

/// Pointer to a field of an item of a list.
fn item_pointer(list: &str, i: usize, field: &str) -> (r: String)
    ensures
        r@ == item_field(list@, i as int, field@),
{
    let mut p = list.to_owned();
    p.append("/");
    p.append(decimal(i as u64).as_str());
    p.append(field);
    p
}

// ---------------------------------------------------------------------------
// Search
// ---------------------------------------------------------------------------

/// A fund in a reply to a search.
pub struct FoundFund {
    pub name: String,
    pub code: String,
    /// Description of its type.
    pub ftype: Option<String>,
    /// Description of its category.
    pub category: Option<String>,
}

/// Model of a fund in a reply.
#[verifier::ext_equal]
pub struct FoundView {
    pub name: Seq<char>,
    pub code: Seq<char>,
    pub ftype: Option<Seq<char>>,
    pub category: Option<Seq<char>>,
}

/// The model of an optional text.
pub open spec fn opt_view(s: Option<String>) -> Option<Seq<char>> {
    match s {
        Some(t) => Some(t@),
        None => None,
    }
}

impl View for FoundFund {
    type V = FoundView;

    open spec fn view(&self) -> FoundView {
        FoundView {
            name: self.name@,
            code: self.code@,
            ftype: opt_view(self.ftype),
            category: opt_view(self.category),
        }
    }
}

/// The models of a list of funds.
pub open spec fn found_views(v: Seq<FoundFund>) -> Seq<FoundView> {
    v.map_values(|f: FoundFund| f@)
}

/// The text at a pointer of a document, where there is one.
pub open spec fn opt_text(d: Doc, pointer: Seq<char>) -> Option<Seq<char>> {
    if d.0.contains_key(pointer) {
        Some(d.0[pointer])
    } else {
        None
    }
}

/// The `i`-th fund of a reply.
pub open spec fn found_at(d: Doc, i: int) -> FoundView {
    FoundView {
        name: text_or_empty(d, item_field("/Datas"@, i, "/NAME"@)),
        code: text_or_empty(d, item_field("/Datas"@, i, "/CODE"@)),
        ftype: opt_text(d, item_field("/Datas"@, i, "/FundBaseInfo/FTYPE"@)),
        category: opt_text(d, item_field("/Datas"@, i, "/CATEGORYDESC"@)),
    }
}

/// The funds of a reply, where it is a document with such a list.
pub open spec fn found_in(doc: Option<Doc>) -> Option<Seq<FoundView>> {
    match doc {
        None => None,
        Some(d) => if d.2.contains_key("/Datas"@) {
            Some(Seq::new(d.2["/Datas"@], |i: int| found_at(d, i)))
        } else {
            None
        },
    }
}

/// The funds of a reply to a search.
pub fn read_search(body: &str) -> (r: Option<Vec<FoundFund>>)
    ensures
        match r {
            Some(v) => found_in(json_document(body@)) == Some(found_views(v@)),
            None => found_in(json_document(body@)) is None,
        },
{
    let v = match parse_json(body) {
        Some(v) => v,
        None => return None,
    };
    let n = match list_len(&v, "/Datas") {
        Some(n) => n,
        None => return None,
    };
    let ghost d = doc_of(v);
    let mut out: Vec<FoundFund> = Vec::new();
    let mut i: usize = 0;
    while i < n
        invariant
            d == doc_of(v),
            i <= n,
            out@.len() == i,
            forall|k: int| 0 <= k < i ==> (#[trigger] out@[k])@ == found_at(d, k),
        decreases n - i,
    {
        let f = FoundFund {
            name: text_at_or_empty(&v, item_pointer("/Datas", i, "/NAME").as_str()),
            code: text_at_or_empty(&v, item_pointer("/Datas", i, "/CODE").as_str()),
            ftype: text_at(&v, item_pointer("/Datas", i, "/FundBaseInfo/FTYPE").as_str()),
            category: text_at(&v, item_pointer("/Datas", i, "/CATEGORYDESC").as_str()),
        };
        assert(f@ =~= found_at(d, i as int));
        out.push(f);
        i += 1;
    }
    assert(found_views(out@) =~= Seq::new(n as nat, |i: int| found_at(d, i)));
    Some(out)
}

/// A fund code: six digits.
pub open spec fn six_digits(code: Seq<char>) -> bool {
    digits_n(code, 6)
}

/// How well the `i`-th fund matches a name; a fund without a code does not.
pub open spec fn found_score(q: Seq<char>, funds: Seq<FoundView>, i: int) -> int {
    if six_digits(funds[i].code) {
        name_score(q, cleaned(funds[i].name))
    } else {
        0
    }
}

/// Fund `i` is the best match: it matches, none matches better, and none before it as well.
pub open spec fn best_match(q: Seq<char>, funds: Seq<FoundView>, i: int) -> bool {
    &&& 0 <= i < funds.len()
    &&& found_score(q, funds, i) > 0
    &&& forall|j: int|
        0 <= j < funds.len() ==> #[trigger] found_score(q, funds, j) <= found_score(q, funds, i)
    &&& forall|j: int| 0 <= j < i ==> #[trigger] found_score(q, funds, j) < found_score(q, funds, i)
}

/// `r` is the code that a search gives: that of the best match; where none matches, that of the
/// first fund if it has a code.
pub open spec fn is_search_result(
    q: Seq<char>,
    funds: Seq<FoundView>,
    r: Option<Seq<char>>,
) -> bool {
    if exists|i: int| #[trigger] best_match(q, funds, i) {
        exists|i: int| #[trigger] best_match(q, funds, i) && r == Some(funds[i].code)
    } else {
        r == (if funds.len() > 0 && six_digits(funds[0].code) {
            Some(funds[0].code)
        } else {
            None
        })
    }
}

/// The code that a search for a cleaned name gives, from the funds of the reply.
pub fn choose_fund(q: &str, funds: &Vec<FoundFund>) -> (r: Option<String>)
    ensures
        is_search_result(q@, found_views(funds@), opt_view(r)),
{
    let ghost fv = found_views(funds@);
    let mut best: Option<usize> = None;
    let mut score: u128 = 0;
    let mut i: usize = 0;
    while i < funds.len()
        invariant
            fv == found_views(funds@),
            i <= funds@.len(),
            forall|j: int| 0 <= j < i ==> #[trigger] found_score(q@, fv, j) <= score,
            match best {
                Some(b) => {
                    &&& b < i
                    &&& score > 0
                    &&& found_score(q@, fv, b as int) == score
                    &&& forall|j: int| 0 <= j < b ==> #[trigger] found_score(q@, fv, j) < score
                },
                None => score == 0,
            },
        decreases funds@.len() - i,
    {
        assert(fv[i as int] == funds@[i as int]@);
        if is_digits_n(funds[i].code.as_str(), 6) {
            let s = match_name_score(q, clean_for_match(funds[i].name.as_str()).as_str());
            if s > 0 && s > score {
                best = Some(i);
                score = s;
            }
        }
        i += 1;
    }
    match best {
        Some(b) => {
            assert(best_match(q@, fv, b as int));
            assert(fv[b as int] == funds@[b as int]@);
            Some(funds[b].code.clone())
        },
        None => {
            assert(forall|i: int| !#[trigger] best_match(q@, fv, i)) by {
                assert forall|i: int| !#[trigger] best_match(q@, fv, i) by {
                    if 0 <= i < fv.len() {
                        assert(found_score(q@, fv, i) <= score);
                    }
                }
            }
            if funds.len() > 0 && is_digits_n(funds[0].code.as_str(), 6) {
                assert(fv[0] == funds@[0]@);
                Some(funds[0].code.clone())
            } else {
                assert(fv.len() > 0 ==> fv[0] == funds@[0]@);
                None
            }
        },
    }
}

/// The code that the reply to a search for a cleaned name gives.
pub fn parse_fund_search(q: &str, body: &str) -> (r: Option<String>)
    ensures
        match found_in(json_document(body@)) {
            Some(funds) => is_search_result(q@, funds, opt_view(r)),
            None => r is None,
        },
{
    match read_search(body) {
        None => None,
        Some(funds) => choose_fund(q, &funds),
    }
}

/// A category that is dealt with abroad.
pub open spec fn overseas_category(c: Seq<char>) -> bool {
    occurs(c, "香港"@) || occurs(c, "QDII"@)
}

/// The type code that a fund of a reply gives for a code: by the description of its type, else as a
/// fund abroad where its category says so.
pub open spec fn type_given(code: Seq<char>, f: FoundView) -> Option<Seq<char>> {
    if f.code != code {
        None
    } else {
        match f.ftype {
            Some(t) => Some(type_code(t)),
            None => match f.category {
                Some(c) => if overseas_category(c) {
                    Some("003"@)
                } else {
                    None
                },
                None => None,
            },
        }
    }
}

/// The first type code that the funds from `i` on give for a code.
pub open spec fn type_from(code: Seq<char>, funds: Seq<FoundView>, i: int) -> Option<Seq<char>>
    decreases funds.len() - i,
{
    if i < 0 || i >= funds.len() {
        None
    } else {
        match type_given(code, funds[i]) {
            Some(t) => Some(t),
            None => type_from(code, funds, i + 1),
        }
    }
}

/// The type code of a fund, from the funds of a reply.
pub fn choose_type(code: &str, funds: &Vec<FoundFund>) -> (r: Option<String>)
    ensures
        opt_view(r) == type_from(code@, found_views(funds@), 0),
{
    let ghost fv = found_views(funds@);
    let mut i: usize = 0;
    while i < funds.len()
        invariant
            fv == found_views(funds@),
            i <= funds@.len(),
            type_from(code@, fv, 0) == type_from(code@, fv, i as int),
        decreases funds@.len() - i,
    {
        assert(fv[i as int] == funds@[i as int]@);
        if same(funds[i].code.as_str(), code) {
            match &funds[i].ftype {
                Some(t) => {
                    return Some(fund_type_code_from_ftype(t.as_str()).to_owned());
                },
                None => match &funds[i].category {
                    Some(c) => {
                        if contains(c.as_str(), "香港") || contains(c.as_str(), "QDII") {
                            return Some("003".to_owned());
                        }
                    },
                    None => {},
                },
            }
        }
        i += 1;
    }
    None
}

/// The type code of a fund, from the reply to a search for its code. Only a code of six digits is
/// looked for.
pub fn parse_fund_type(fund_code: &str, body: &str) -> (r: Option<String>)
    ensures
        if !six_digits(fund_code@) {
            r is None
        } else {
            match found_in(json_document(body@)) {
                Some(funds) => opt_view(r) == type_from(fund_code@, funds, 0),
                None => r is None,
            }
        },
{
    if !is_digits_n(fund_code, 6) {
        return None;
    }
    match read_search(body) {
        None => None,
        Some(funds) => choose_type(fund_code, &funds),
    }
}

// ---------------------------------------------------------------------------
// Official values
// ---------------------------------------------------------------------------

/// An official value as the service writes it.
pub struct OfficialNavText {
    pub nav: String,
    pub nav_date: String,
    pub fund_type: String,
}

/// The `i`-th official value of a reply, where its value is a text.
pub open spec fn official_at(d: Doc, i: int) -> Option<(Seq<char>, Seq<char>, Seq<char>)> {
    match opt_text(d, item_field("/Data/LSJZList"@, i, "/DWJZ"@)) {
        Some(n) => Some(
            (
                n,
                text_or_empty(d, item_field("/Data/LSJZList"@, i, "/FSRQ"@)),
                text_or_empty(d, "/Data/FundType"@),
            ),
        ),
        None => None,
    }
}

/// The model of an optional official value.
pub open spec fn official_view(o: Option<OfficialNavText>) -> Option<
    (Seq<char>, Seq<char>, Seq<char>),
> {
    match o {
        Some(n) => Some((n.nav@, n.nav_date@, n.fund_type@)),
        None => None,
    }
}

/// The latest official value of a reply, with the one before it where there is one.
pub open spec fn official_in(doc: Option<Doc>) -> Option<
    ((Seq<char>, Seq<char>, Seq<char>), Option<(Seq<char>, Seq<char>, Seq<char>)>),
> {
    match doc {
        None => None,
        Some(d) => if d.2.contains_key("/Data/LSJZList"@) && d.2["/Data/LSJZList"@] > 0 {
            match official_at(d, 0) {
                Some(a) => Some(
                    (
                        a,
                        if d.2["/Data/LSJZList"@] > 1 {
                            official_at(d, 1)
                        } else {
                            None
                        },
                    ),
                ),
                None => None,
            }
        } else {
            None
        },
    }
}

/// The `i`-th official value of a document.
fn read_official(v: &serde_json::Value, i: usize) -> (r: Option<OfficialNavText>)
    ensures
        official_view(r) == official_at(doc_of(*v), i as int),
{
    match text_at(v, item_pointer("/Data/LSJZList", i, "/DWJZ").as_str()) {
        None => None,
        Some(nav) => Some(
            OfficialNavText {
                nav,
                nav_date: text_at_or_empty(
                    v,
                    item_pointer("/Data/LSJZList", i, "/FSRQ").as_str(),
                ),
                fund_type: text_at_or_empty(v, "/Data/FundType"),
            },
        ),
    }
}

/// The latest official value of a reply and the one before it.
pub fn parse_official_nav(body: &str) -> (r: Option<(OfficialNavText, Option<OfficialNavText>)>)
    ensures
        match r {
            Some(p) => official_in(json_document(body@)) matches Some(q) && official_view(
                Some(p.0),
            ) == Some(q.0) && official_view(p.1) == q.1,
            None => official_in(json_document(body@)) is None,
        },
{
    let v = match parse_json(body) {
        Some(v) => v,
        None => return None,
    };
    let n = match list_len(&v, "/Data/LSJZList") {
        Some(n) => n,
        None => return None,
    };
    if n == 0 {
        return None;
    }
    match read_official(&v, 0) {
        None => None,
        Some(latest) => {
            let prev = if n > 1 {
                read_official(&v, 1)
            } else {
                None
            };
            Some((latest, prev))
        },
    }
}

/// A point of the history as the service writes it.
pub struct NavPointText {
    pub date: String,
    pub nav: String,
    pub acc_nav: String,
}

/// Model of a point of the history.
#[verifier::ext_equal]
pub struct PointView {
    pub date: Seq<char>,
    pub nav: Seq<char>,
    pub acc: Seq<char>,
}

impl View for NavPointText {
    type V = PointView;

    open spec fn view(&self) -> PointView {
        PointView { date: self.date@, nav: self.nav@, acc: self.acc_nav@ }
    }
}

/// The models of a list of points.
pub open spec fn point_views(v: Seq<NavPointText>) -> Seq<PointView> {
    v.map_values(|p: NavPointText| p@)
}

/// The `i`-th point of a reply. A value may stand there as text or as a number.
pub open spec fn point_at(d: Doc, i: int) -> PointView {
    PointView {
        date: text_or_empty(d, item_field("/Data/LSJZList"@, i, "/FSRQ"@)),
        nav: trimmed(text_or_number(d, item_field("/Data/LSJZList"@, i, "/DWJZ"@))),
        acc: trimmed(text_or_number(d, item_field("/Data/LSJZList"@, i, "/LJJZ"@))),
    }
}

/// The points among the first `n` of a reply that have a whole date and a value.
pub open spec fn dated_points(d: Doc, n: int) -> Seq<PointView>
    decreases n,
{
    if n <= 0 {
        Seq::empty()
    } else {
        let rest = dated_points(d, n - 1);
        if point_at(d, n - 1).date.len() < 10 || point_at(d, n - 1).nav.len() == 0 {
            rest
        } else {
            rest.push(point_at(d, n - 1))
        }
    }
}

/// Points in order of their dates.
pub open spec fn by_date() -> spec_fn(PointView, PointView) -> bool {
    |a: PointView, b: PointView| lex_lt(a.date, b.date)
}

/// The history in a reply, as text and in order of the dates: every point with a whole date and a value.
/// A history without such points is none.
pub fn parse_nav_history(body: &str) -> (r: Option<Vec<NavPointText>>)
    ensures
        match json_document(body@) {
            None => r is None,
            Some(d) => if d.2.contains_key("/Data/LSJZList"@) && dated_points(
                d,
                d.2["/Data/LSJZList"@] as int,
            ).len() > 0 {
                r matches Some(v) && stably_sorted(
                    dated_points(d, d.2["/Data/LSJZList"@] as int),
                    point_views(v@),
                    by_date(),
                )
            } else {
                r is None
            },
        },
{
    let v = match parse_json(body) {
        Some(v) => v,
        None => return None,
    };
    let n = match list_len(&v, "/Data/LSJZList") {
        Some(n) => n,
        None => return None,
    };
    let ghost d = doc_of(v);
    let mut kept: Vec<NavPointText> = Vec::new();
    let mut i: usize = 0;
    assert(point_views(kept@) =~= dated_points(d, 0));
    while i < n
        invariant
            d == doc_of(v),
            i <= n,
            point_views(kept@) == dated_points(d, i as int),
        decreases n - i,
    {
        let date = text_at_or_empty(&v, item_pointer("/Data/LSJZList", i, "/FSRQ").as_str());
        let nav = trim(
            text_or_number_at(&v, item_pointer("/Data/LSJZList", i, "/DWJZ").as_str()).as_str(),
        );
        if date.as_str().unicode_len() >= 10 && !nav.as_str().is_empty() {
            let p = NavPointText {
                date,
                nav,
                acc_nav: trim(
                    text_or_number_at(
                        &v,
                        item_pointer("/Data/LSJZList", i, "/LJJZ").as_str(),
                    ).as_str(),
                ),
            };
            let ghost before = kept@;
            assert(p@ =~= point_at(d, i as int));
            kept.push(p);
            assert(point_views(kept@) =~= point_views(before).push(p@));
        }
        i += 1;
    }
    assert(kept@.len() == dated_points(d, n as int).len());
    if kept.len() == 0 {
        return None;
    }
    Some(sort_points(kept))
}

/// The points of a history whose value is above zero, in their order; `positive` says of each whether it
/// is. A history without such points is none.
pub fn positive_points(points: Vec<NavPointText>, positive: &Vec<bool>) -> (r: Option<
    Vec<NavPointText>,
>)
    requires
        positive@.len() == points@.len(),
    ensures
        match r {
            Some(v) => v@.len() > 0 && point_views(v@) == picked(positive@).map_values(
                |i: usize| points@[i as int]@,
            ),
            None => picked(positive@).len() == 0,
        },
{
    let places = pick(positive);
    proof {
        assert(positive.len() == positive@.len());
        law_picked(positive@);
    }
    let mut r: Vec<NavPointText> = Vec::new();
    let mut k: usize = 0;
    while k < places.len()
        invariant
            places@ == picked(positive@),
            forall|a: int| 0 <= a < places@.len() ==> (#[trigger] places@[a]) < points@.len(),
            k <= places@.len(),
            r@.len() == k,
            forall|a: int| 0 <= a < k ==> (#[trigger] r@[a])@ == points@[places@[a] as int]@,
        decreases places@.len() - k,
    {
        let p = &points[places[k]];
        r.push(
            NavPointText {
                date: p.date.clone(),
                nav: p.nav.clone(),
                acc_nav: p.acc_nav.clone(),
            },
        );
        k += 1;
    }
    assert(point_views(r@) =~= picked(positive@).map_values(|i: usize| points@[i as int]@));
    if r.len() == 0 {
        None
    } else {
        Some(r)
    }
}

/// Points in stable order of their dates.
fn sort_points(kept: Vec<NavPointText>) -> (out: Vec<NavPointText>)
    ensures
        stably_sorted(point_views(kept@), point_views(out@), by_date()),
{
    let mut keys: Vec<TextUp> = Vec::new();
    let mut i: usize = 0;
    while i < kept.len()
        invariant
            i <= kept@.len(),
            keys@.len() == i,
            forall|k: int| 0 <= k < i ==> (#[trigger] keys@[k]).text@ == kept@[k]@.date,
        decreases kept@.len() - i,
    {
        keys.push(TextUp { text: kept[i].date.clone() });
        i += 1;
    }
    let order = stable_order(&keys);
    let mut out: Vec<NavPointText> = Vec::new();
    let mut k: usize = 0;
    while k < order.len()
        invariant
            lists_all(order@, kept@.len() as int),
            k <= order@.len(),
            out@.len() == k,
            forall|a: int| 0 <= a < k ==> (#[trigger] out@[a])@ == kept@[order@[a] as int]@,
        decreases order@.len() - k,
    {
        let p = &kept[order[k]];
        out.push(
            NavPointText {
                date: p.date.clone(),
                nav: p.nav.clone(),
                acc_nav: p.acc_nav.clone(),
            },
        );
        k += 1;
    }
    proof {
        let s = point_views(kept@);
        let o = point_views(out@);
        assert forall|a: int, b: int| 0 <= a < b < o.len() implies by_date()(
            s[#[trigger] order@[a] as int],
            s[#[trigger] order@[b] as int],
        ) || (!by_date()(s[order@[b] as int], s[order@[a] as int]) && order@[a] < order@[b]) by {
            assert(precedes(keys@, order@[a] as int, order@[b] as int));
        }
        assert(arranges(s, o, order@, by_date()));
    }
    out
}

// ---------------------------------------------------------------------------
// Estimates
// ---------------------------------------------------------------------------

/// An estimate as the service writes it: the estimated value, the official value of the day before
/// and the time.
pub struct EstimateText {
    pub est_nav: String,
    pub prev_nav: String,
    pub gztime: String,
}

/// `s` without `p` at its end, where it has it.
pub open spec fn without_end(s: Seq<char>, p: Seq<char>) -> Seq<char> {
    if ends(s, p) {
        s.take(s.len() - p.len())
    } else {
        s
    }
}

/// `s` without `p` at its end, where it has it.
fn strip_end(s: &str, p: &str) -> (r: String)
    ensures
        r@ == without_end(s@, p@),
{
    if ends_with(s, p) {
        let v = to_chars(s);
        let n = p.unicode_len();
        assert(v@.subrange(0, v@.len() - n) =~= v@.take(v@.len() - n));
        slice_text(&v, 0, v.len() - n)
    } else {
        s.to_owned()
    }
}

/// The document inside a reply of the form `jsonpgz(...)`, with or without a semicolon behind it.
pub open spec fn jsonp_inner(body: Seq<char>) -> Option<Seq<char>> {
    let s = trimmed(body);
    if begins(s, "jsonpgz("@) {
        Some(trimmed(without_end(without_end(s.skip(8), ";"@), ")"@)))
    } else {
        None
    }
}

/// The document inside a reply of the form `jsonpgz(...)`.
pub fn unwrap_jsonp(body: &str) -> (r: Option<String>)
    ensures
        opt_view(r) == jsonp_inner(body@),
{
    proof {
        reveal_strlit("jsonpgz(");
    }
    let s = trim(body);
    if !starts_with(s.as_str(), "jsonpgz(") {
        return None;
    }
    let v = to_chars(s.as_str());
    let rest = slice_text(&v, 8, v.len());
    assert(rest@ =~= s@.skip(8));
    let a = strip_end(rest.as_str(), ";");
    let b = strip_end(a.as_str(), ")");
    Some(trim(b.as_str()))
}

/// The fields of an estimate in a document.
pub open spec fn estimate_in(doc: Option<Doc>) -> Option<(Seq<char>, Seq<char>, Seq<char>)> {
    match doc {
        None => None,
        Some(d) => if d.0.contains_key("/gsz"@) && d.0.contains_key("/dwjz"@) {
            Some((d.0["/gsz"@], d.0["/dwjz"@], text_or_empty(d, "/gztime"@)))
        } else {
            None
        },
    }
}

/// The estimate in a reply, as text. One whose values are no numbers, or whose official value is not
/// positive, does not count.
pub fn parse_fund_estimate(body: &str) -> (r: Option<EstimateText>)
    ensures
        match jsonp_inner(body@) {
            None => r is None,
            Some(s) => match estimate_in(json_document(s)) {
                Some(e) => r matches Some(t) && (t.est_nav@, t.prev_nav@, t.gztime@) == e,
                None => r is None,
            },
        },
{
    let s = match unwrap_jsonp(body) {
        Some(s) => s,
        None => return None,
    };
    let v = match parse_json(s.as_str()) {
        Some(v) => v,
        None => return None,
    };
    let est_nav = match text_at(&v, "/gsz") {
        Some(t) => t,
        None => return None,
    };
    let prev_nav = match text_at(&v, "/dwjz") {
        Some(t) => t,
        None => return None,
    };
    Some(EstimateText { est_nav, prev_nav, gztime: text_at_or_empty(&v, "/gztime") })
}

} // verus!
