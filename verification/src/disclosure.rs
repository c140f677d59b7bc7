//! Disclosed holdings: reading the report and its table from the page that publishes them.
use vstd::prelude::*;
use crate::calendar::Period;
use crate::quotes::join;
use crate::text::{decimal, decimal_of, digit, digits_n, ends, ends_with, find_chars, find_from, is_digits_n, joined, lemma_find_from, same, slice_text, split, split_seq, to_chars, trim, trim_trailing, trimmed, views, without_trailing};

verus! {

// ---------------------------------------------------------------------------
// The report
// ---------------------------------------------------------------------------

/// The season that a character stands for.
pub open spec fn season_char(c: char) -> Option<char> {
    if c == '1' || c == '一' {
        Some('1')
    } else if c == '2' || c == '二' {
        Some('2')
    } else if c == '3' || c == '三' {
        Some('3')
    } else if c == '4' || c == '四' {
        Some('4')
    } else {
        None
    }
}

/// The place of the first `c` in `s` from `i` up to but not including `end`.
pub open spec fn char_place(s: Seq<char>, c: char, i: int, end: int) -> Option<int>
    decreases end - i,
{
    if i < 0 || i >= end || i >= s.len() {
        None
    } else if s[i] == c {
        Some(i)
    } else {
        char_place(s, c, i + 1, end)
    }
}

/// The report named at `i`: there stands the character for year with four digits before it, and
/// among the sixteen characters behind it the first one for season has a season right before it.
pub open spec fn report_at(s: Seq<char>, i: int) -> Option<Seq<char>> {
    if 4 <= i < s.len() && s[i] == '年' && digits_n(s.subrange(i - 4, i), 4) {
        match char_place(s, '季', i + 1, i + 17) {
            Some(p) => if p > i + 1 {
                match season_char(s[p - 1]) {
                    Some(q) => Some(s.subrange(i - 4, i) + seq!['Q', q]),
                    None => None,
                }
            } else {
                None
            },
            None => None,
        }
    } else {
        None
    }
}

/// The first report named from `i` on.
pub open spec fn first_report(s: Seq<char>, i: int) -> Option<Seq<char>>
    decreases s.len() - i,
{
    if i < 0 || i >= s.len() {
        None
    } else {
        match report_at(s, i) {
            Some(r) => Some(r),
            None => first_report(s, i + 1),
        }
    }
}

/// Number of digits in a row from `i` on.
pub open spec fn digit_run(s: Seq<char>, i: int) -> int
    decreases s.len() - i,
{
    if 0 <= i < s.len() && digit(s[i]) {
        1 + digit_run(s, i + 1)
    } else {
        0
    }
}

/// The report that a page is about: the first one named in its text, else the bare year behind the
/// mark `curyear:`.
pub open spec fn report_in(body: Seq<char>) -> Option<Seq<char>> {
    match first_report(body, 0) {
        Some(r) => Some(r),
        None => match find_from(body, "curyear:"@, 0) {
            Some(i) => if digit_run(body, i + 8) == 4 {
                Some(body.subrange(i + 8, i + 12) + seq!['Q', '?'])
            } else {
                None
            },
            None => None,
        },
    }
}

/// The season that a character stands for.
fn season_of(c: char) -> (r: Option<char>)
    ensures
        r == season_char(c),
{
    if c == '1' || c == '一' {
        Some('1')
    } else if c == '2' || c == '二' {
        Some('2')
    } else if c == '3' || c == '三' {
        Some('3')
    } else if c == '4' || c == '四' {
        Some('4')
    } else {
        None
    }
}

/// The report named at `i`.
fn read_report_at(s: &Vec<char>, i: usize) -> (r: Option<String>)
    requires
        i < s@.len(),
    ensures
        match r {
            Some(t) => report_at(s@, i as int) == Some(t@),
            None => report_at(s@, i as int) is None,
        },
{
    if s[i] != '年' || i < 4 {
        return None;
    }
    let year = slice_text(s, i - 4, i);
    if !is_digits_n(year.as_str(), 4) {
        return None;
    }
    let end: usize = if s.len() - i <= 17 {
        s.len()
    } else {
        i + 17
    };
    let mut p: usize = i + 1;
    proof {
        if end < i + 17 {
            lemma_char_place_end(s@, '季', i + 1, end as int, i + 17);
        }
    }
    while p < end && s[p] != '季'
        invariant
            i < p <= end <= s@.len(),
            char_place(s@, '季', i + 1, end as int) == char_place(s@, '季', p as int, end as int),
        decreases end - p,
    {
        p += 1;
    }
    if p >= end || p == i + 1 {
        return None;
    }
    match season_of(s[p - 1]) {
        None => None,
        Some(q) => {
            let mut t = year;
            t.push('Q');
            t.push(q);
            assert(t@ =~= s@.subrange(i - 4, i as int) + seq!['Q', q]);
            Some(t)
        },
    }
}

/// Nothing is found behind the end of the text.
proof fn lemma_char_place_end(s: Seq<char>, c: char, i: int, end: int, far: int)
    requires
        end == s.len(),
        end <= far,
    ensures
        char_place(s, c, i, end) == char_place(s, c, i, far),
    decreases far - i,
{
    if 0 <= i < end && s[i] != c {
        lemma_char_place_end(s, c, i + 1, end, far);
    }
}

/// The report that a page is about, such as `2026Q2`.
pub fn extract_curyear(body: &str) -> (r: Option<String>)
    ensures
        match r {
            Some(t) => report_in(body@) == Some(t@),
            None => report_in(body@) is None,
        },
{
    let v = to_chars(body);
    let mut i: usize = 0;
    while i < v.len()
        invariant
            v@ == body@,
            i <= v@.len(),
            first_report(v@, 0) == first_report(v@, i as int),
        decreases v@.len() - i,
    {
        match read_report_at(&v, i) {
            Some(t) => {
                return Some(t);
            },
            None => {},
        }
        i += 1;
    }
    proof {
        reveal_strlit("curyear:");
    }
    let mark = to_chars("curyear:");
    match find_chars(&v, &mark, 0) {
        None => None,
        Some(k) => {
            assert(k + mark.len() <= v.len());
            let start = k + 8;
            let mut n: usize = 0;
            while start + n < v.len() && n < 5 && '0' <= v[start + n] && v[start + n] <= '9'
                invariant
                    start <= v.len(),
                    start + n <= v.len(),
                    n <= 5,
                    digit_run(v@, start as int) == n + digit_run(v@, start + n),
                decreases v.len() - start - n,
            {
                n += 1;
            }
            proof {
                lemma_digit_run_nonneg(v@, start + n);
            }
            if n == 4 {
                let mut t = slice_text(&v, start, start + 4);
                t.push('Q');
                t.push('?');
                assert(t@ =~= v@.subrange(k + 8, k + 12) + seq!['Q', '?']);
                Some(t)
            } else {
                None
            }
        },
    }
}

/// A row of digits has no negative length.
proof fn lemma_digit_run_nonneg(s: Seq<char>, i: int)
    ensures
        digit_run(s, i) >= 0,
    decreases s.len() - i,
{
    if 0 <= i < s.len() && digit(s[i]) {
        lemma_digit_run_nonneg(s, i + 1);
    }
}

// ---------------------------------------------------------------------------
// The table
// ---------------------------------------------------------------------------

/// The text between tags, given whether the beginning lies within a tag.
pub open spec fn text_between_tags(s: Seq<char>, in_tag: bool) -> Seq<char>
    decreases s.len(),
{
    if s.len() == 0 {
        Seq::empty()
    } else if s[0] == '<' {
        text_between_tags(s.skip(1), true)
    } else if s[0] == '>' {
        text_between_tags(s.skip(1), false)
    } else if in_tag {
        text_between_tags(s.skip(1), in_tag)
    } else {
        seq![s[0]] + text_between_tags(s.skip(1), in_tag)
    }
}

/// The text without its tags.
pub fn strip_tags(s: &str) -> (r: String)
    ensures
        r@ == text_between_tags(s@, false),
{
    let v = to_chars(s);
    let mut out = String::new();
    let mut in_tag: bool = false;
    let mut i: usize = 0;
    assert(v@.skip(0) =~= v@);
    assert(out@ + text_between_tags(v@.skip(0), false) =~= text_between_tags(v@, false));
    while i < v.len()
        invariant
            i <= v@.len(),
            text_between_tags(v@, false) == out@ + text_between_tags(v@.skip(i as int), in_tag),
        decreases v@.len() - i,
    {
        let ghost before = out@;
        let ghost was = in_tag;
        let c = v[i];
        if c == '<' {
            in_tag = true;
        } else if c == '>' {
            in_tag = false;
        } else if !in_tag {
            out.push(c);
        }
        proof {
            assert(v@.skip(i as int).skip(1) =~= v@.skip(i + 1));
            assert(v@.skip(i as int)[0] == c);
            assert(before + text_between_tags(v@.skip(i as int), was) =~= out@ + text_between_tags(
                v@.skip(i + 1),
                in_tag,
            ));
        }
        i += 1;
    }
    assert(out@ =~= text_between_tags(v@, false));
    out
}

/// The text with every `from` replaced by `to`.
pub open spec fn replaced(s: Seq<char>, from: Seq<char>, to: Seq<char>) -> Seq<char> {
    joined(split_seq(s, from), to)
}

/// The text with every `from` replaced by `to`.
pub fn replace(s: &str, from: &str, to: &str) -> (r: String)
    requires
        from@.len() > 0,
    ensures
        r@ == replaced(s@, from@, to@),
{
    join(&split(s, from), to)
}

/// The part of a page that holds its first table body; the whole page where there is none.
pub open spec fn table_region(body: Seq<char>) -> Seq<char> {
    match find_from(body, "<tbody"@, 0) {
        Some(s) => match find_from(body, "</tbody>"@, s) {
            Some(e) => body.subrange(s, e),
            None => body,
        },
        None => body,
    }
}

/// The cells of a table row: what stands between the ends of cells, without tags and without white
/// space round it, the empty ones left out.
pub open spec fn row_cells(tr: Seq<char>) -> Seq<Seq<char>> {
    full_cells(
        split_seq(
            text_between_tags(replaced(replaced(tr, "</td>"@, "|"@), "</th>"@, "|"@), false),
            "|"@,
        ),
    )
}

/// The trimmed pieces that are not empty.
pub open spec fn full_cells(pieces: Seq<Seq<char>>) -> Seq<Seq<char>>
    decreases pieces.len(),
{
    if pieces.len() == 0 {
        Seq::empty()
    } else {
        let rest = full_cells(pieces.drop_last());
        if trimmed(pieces.last()).len() == 0 {
            rest
        } else {
            rest.push(trimmed(pieces.last()))
        }
    }
}

/// A cell holds a stock code: five or six digits.
pub open spec fn code_cell(c: Seq<char>) -> bool {
    digits_n(c, 5) || digits_n(c, 6)
}

/// The place of the first cell from `i` on that holds a stock code.
pub open spec fn code_place(cells: Seq<Seq<char>>, i: int) -> Option<int>
    decreases cells.len() - i,
{
    if i < 0 || i >= cells.len() {
        None
    } else if code_cell(cells[i]) {
        Some(i)
    } else {
        code_place(cells, i + 1)
    }
}

/// The numbers in the cells that end with a percent sign, as text without commas.
pub open spec fn percent_texts(cells: Seq<Seq<char>>) -> Seq<Seq<char>>
    decreases cells.len(),
{
    if cells.len() == 0 {
        Seq::empty()
    } else {
        let rest = percent_texts(cells.drop_last());
        let c = trimmed(cells.last());
        if ends(c, "%"@) {
            rest.push(replaced(without_trailing(c, '%'), ","@, ""@))
        } else {
            rest
        }
    }
}

/// The report that a row is marked with as long as the report is not known.
pub const LATEST: &'static str = "latest";

/// How much a row is marked to disclose as long as that is not known.
pub const TOP_TEN: &'static str = "top10";

/// A row of the table: a stock, and the texts that may be its share of the fund. The first of them
/// that is a positive number is; a row without one does not count.
pub struct HoldingRow {
    pub stock_code: String,
    pub stock_name: String,
    pub weights: Vec<String>,
    pub report_period: String,
    pub disclosure_type: String,
}

/// Model of a row.
#[verifier::ext_equal]
pub struct RowView {
    pub code: Seq<char>,
    pub name: Seq<char>,
    pub weights: Seq<Seq<char>>,
    pub report: Seq<char>,
    pub kind: Seq<char>,
}

impl View for HoldingRow {
    type V = RowView;

    open spec fn view(&self) -> RowView {
        RowView {
            code: self.stock_code@,
            name: self.stock_name@,
            weights: views(self.weights@),
            report: self.report_period@,
            kind: self.disclosure_type@,
        }
    }
}

/// The models of a list of rows.
pub open spec fn row_views(v: Seq<HoldingRow>) -> Seq<RowView> {
    v.map_values(|r: HoldingRow| r@)
}

/// The stock in a table row: its code, the cell behind it as its name, and the percentages.
pub open spec fn row_of_cells(cells: Seq<Seq<char>>) -> Option<RowView> {
    match code_place(cells, 0) {
        Some(k) => Some(
            RowView {
                code: cells[k],
                name: if k + 1 < cells.len() {
                    cells[k + 1]
                } else {
                    Seq::empty()
                },
                weights: percent_texts(cells),
                report: LATEST@,
                kind: TOP_TEN@,
            },
        ),
        None => None,
    }
}

/// Some row is of the stock.
pub open spec fn has_code(rows: Seq<RowView>, code: Seq<char>) -> bool {
    exists|i: int| 0 <= i < rows.len() && (#[trigger] rows[i]).code == code
}

/// The rows of a table, each stock only where it occurs first.
pub open spec fn rows_of(trs: Seq<Seq<char>>) -> Seq<RowView>
    decreases trs.len(),
{
    if trs.len() == 0 {
        Seq::empty()
    } else {
        let rest = rows_of(trs.drop_last());
        match row_of_cells(row_cells(trs.last())) {
            Some(r) => if has_code(rest, r.code) {
                rest
            } else {
                rest.push(r)
            },
            None => rest,
        }
    }
}

/// The rows of the first table of a page.
pub open spec fn table_rows(body: Seq<char>) -> Seq<RowView> {
    rows_of(split_seq(table_region(body), "</tr>"@))
}

/// The part of a page that holds its first table body.
fn find_region(body: &str) -> (r: String)
    ensures
        r@ == table_region(body@),
{
    let v = to_chars(body);
    let open_tag = to_chars("<tbody");
    let close_tag = to_chars("</tbody>");
    match find_chars(&v, &open_tag, 0) {
        Some(s) => {
            proof {
                lemma_find_from(v@, close_tag@, s as int);
            }
            match find_chars(&v, &close_tag, s) {
                Some(e) => slice_text(&v, s, e),
                None => body.to_owned(),
            }
        },
        None => body.to_owned(),
    }
}

/// The cells of a table row.
fn cells_of(tr: &str) -> (r: Vec<String>)
    ensures
        views(r@) == row_cells(tr@),
{
    proof {
        reveal_strlit("</td>");
        reveal_strlit("</th>");
        reveal_strlit("|");
    }
    let once = replace(tr, "</td>", "|");
    let twice = replace(once.as_str(), "</th>", "|");
    let plain = strip_tags(twice.as_str());
    let pieces = split(plain.as_str(), "|");
    let ghost pv = views(pieces@);
    let mut out: Vec<String> = Vec::new();
    let mut i: usize = 0;
    assert(views(out@) =~= full_cells(pv.take(0)));
    while i < pieces.len()
        invariant
            pv == views(pieces@),
            i <= pieces@.len(),
            views(out@) == full_cells(pv.take(i as int)),
        decreases pieces@.len() - i,
    {
        assert(pv.take(i + 1).drop_last() =~= pv.take(i as int));
        assert(pv.take(i + 1).last() == pieces@[i as int]@);
        let c = trim(pieces[i].as_str());
        if !c.as_str().is_empty() {
            let ghost before = out@;
            out.push(c);
            assert(views(out@) =~= views(before).push(c@));
        }
        i += 1;
    }
    assert(pv.take(pv.len() as int) =~= pv);
    out
}

/// The numbers in the cells that end with a percent sign.
fn percents_of(cells: &Vec<String>) -> (r: Vec<String>)
    ensures
        views(r@) == percent_texts(views(cells@)),
{
    proof {
        reveal_strlit(",");
    }
    let ghost cv = views(cells@);
    let mut out: Vec<String> = Vec::new();
    let mut i: usize = 0;
    assert(views(out@) =~= percent_texts(cv.take(0)));
    while i < cells.len()
        invariant
            ","@.len() == 1,
            cv == views(cells@),
            i <= cells@.len(),
            views(out@) == percent_texts(cv.take(i as int)),
        decreases cells@.len() - i,
    {
        assert(cv.take(i + 1).drop_last() =~= cv.take(i as int));
        assert(cv.take(i + 1).last() == cells@[i as int]@);
        let c = trim(cells[i].as_str());
        if ends_with(c.as_str(), "%") {
            let ghost before = out@;
            let t = replace(trim_trailing(c.as_str(), '%').as_str(), ",", "");
            out.push(t);
            assert(views(out@) =~= views(before).push(t@));
        }
        i += 1;
    }
    assert(cv.take(cv.len() as int) =~= cv);
    out
}

/// The stock in a table row, if it holds one.
fn read_row(tr: &str) -> (r: Option<HoldingRow>)
    ensures
        match r {
            Some(h) => row_of_cells(row_cells(tr@)) == Some(h@),
            None => row_of_cells(row_cells(tr@)) is None,
        },
{
    let cells = cells_of(tr);
    let ghost cv = views(cells@);
    let mut k: usize = 0;
    while k < cells.len() && !(is_digits_n(cells[k].as_str(), 5) || is_digits_n(
        cells[k].as_str(),
        6,
    ))
        invariant
            cv == views(cells@),
            k <= cells@.len(),
            code_place(cv, 0) == code_place(cv, k as int),
        decreases cells@.len() - k,
    {
        assert(cv[k as int] == cells@[k as int]@);
        k += 1;
    }
    if k >= cells.len() {
        return None;
    }
    assert(cv[k as int] == cells@[k as int]@);
    let name = if k + 1 < cells.len() {
        assert(cv[k + 1] == cells@[k + 1]@);
        cells[k + 1].clone()
    } else {
        String::new()
    };
    let h = HoldingRow {
        stock_code: cells[k].clone(),
        stock_name: name,
        weights: percents_of(&cells),
        report_period: LATEST.to_owned(),
        disclosure_type: TOP_TEN.to_owned(),
    };
    assert(h@ =~= row_of_cells(cv)->0);
    Some(h)
}

/// Whether some row is of the stock.
fn lists_code(rows: &Vec<HoldingRow>, code: &str) -> (r: bool)
    ensures
        r == has_code(row_views(rows@), code@),
{
    let ghost rv = row_views(rows@);
    let mut i: usize = 0;
    while i < rows.len()
        invariant
            rv == row_views(rows@),
            i <= rows@.len(),
            forall|k: int| 0 <= k < i ==> (#[trigger] rv[k]).code != code@,
        decreases rows@.len() - i,
    {
        assert(rv[i as int] == rows@[i as int]@);
        if same(rows[i].stock_code.as_str(), code) {
            return true;
        }
        i += 1;
    }
    false
}

/// The rows of the first table of a page, each marked as of the latest report and of its ten largest
/// holdings.
pub fn parse_holding_table(body: &str) -> (r: Vec<HoldingRow>)
    ensures
        row_views(r@) == table_rows(body@),
        forall|i: int|
            0 <= i < r@.len() ==> (#[trigger] r@[i]).report_period@ == LATEST@
                && r@[i].disclosure_type@ == TOP_TEN@,
{
    proof {
        reveal_strlit("</tr>");
    }
    let region = find_region(body);
    let trs = split(region.as_str(), "</tr>");
    let ghost tv = views(trs@);
    let mut out: Vec<HoldingRow> = Vec::new();
    let mut i: usize = 0;
    assert(row_views(out@) =~= rows_of(tv.take(0)));
    while i < trs.len()
        invariant
            tv == views(trs@),
            i <= trs@.len(),
            row_views(out@) == rows_of(tv.take(i as int)),
        decreases trs@.len() - i,
    {
        assert(tv.take(i + 1).drop_last() =~= tv.take(i as int));
        assert(tv.take(i + 1).last() == trs@[i as int]@);
        match read_row(trs[i].as_str()) {
            Some(h) => {
                if !lists_code(&out, h.stock_code.as_str()) {
                    let ghost before = out@;
                    out.push(h);
                    assert(row_views(out@) =~= row_views(before).push(h@));
                }
            },
            None => {},
        }
        i += 1;
    }
    assert(tv.take(tv.len() as int) =~= tv);
    proof {
        assert forall|i: int| 0 <= i < out@.len() implies (#[trigger] out@[i]).report_period@ == LATEST@
            && out@[i].disclosure_type@ == TOP_TEN@ by {
            assert(row_views(out@)[i] == out@[i]@);
            law_table_rows_marked(tv, i);
        }
    }
    out
}

/// Every row of a table has a code of five or six digits and bears the two marks.
pub proof fn law_table_rows_marked(trs: Seq<Seq<char>>, i: int)
    requires
        0 <= i < rows_of(trs).len(),
    ensures
        digits_n(rows_of(trs)[i].code, 5) || digits_n(rows_of(trs)[i].code, 6),
        rows_of(trs)[i].report == LATEST@,
        rows_of(trs)[i].kind == TOP_TEN@,
    decreases trs.len(),
{
    let rest = rows_of(trs.drop_last());
    if i < rest.len() {
        law_table_rows_marked(trs.drop_last(), i);
        assert(rest[i] == rows_of(trs)[i]);
    } else {
        lemma_code_place(row_cells(trs.last()), 0);
    }
}

/// The cell with a stock's code holds five or six digits.
proof fn lemma_code_place(cells: Seq<Seq<char>>, from: int)
    ensures
        match code_place(cells, from) {
            Some(k) => digits_n(cells[k], 5) || digits_n(cells[k], 6),
            None => true,
        },
    decreases cells.len() - from,
{
    if code_place(cells, from) is Some && !(digits_n(cells[from], 5) || digits_n(cells[from], 6)) {
        lemma_code_place(cells, from + 1);
    }
}

/// No stock occurs twice among the rows of a table.
pub proof fn law_table_codes_distinct(trs: Seq<Seq<char>>, a: int, b: int)
    requires
        0 <= a < b < rows_of(trs).len(),
    ensures
        rows_of(trs)[a].code != rows_of(trs)[b].code,
    decreases trs.len(),
{
    let rest = rows_of(trs.drop_last());
    if b < rest.len() {
        law_table_codes_distinct(trs.drop_last(), a, b);
    } else {
        assert(!has_code(rest, rows_of(trs)[b].code));
        assert(rest[a] == rows_of(trs)[a]);
    }
}

// ---------------------------------------------------------------------------
// Asking for a report
// ---------------------------------------------------------------------------

/// A report without a page to read it from: its year and season.
pub open spec fn period_name(year: int, season: int) -> Seq<char> {
    crate::calendar::year_prefix(year).drop_last() + "Q"@ + decimal_of(season as nat)
}

/// A year in digits, with a hyphen before it where it is negative.
fn year_digits(y: i32) -> (r: String)
    ensures
        r@ == crate::calendar::year_prefix(y as int).drop_last(),
{
    let mut s = String::new();
    if y < 0 {
        s.push('-');
        s.append(decimal((-(y as i64)) as u64).as_str());
    } else {
        s.append(decimal(y as u64).as_str());
    }
    assert(s@ =~= crate::calendar::year_prefix(y as int).drop_last());
    s
}

/// Address of the page with a fund's report.
pub fn disclosure_url(fund_code: &str, p: &Period) -> (r: String)
    ensures
        r@ == "https://fundf10.eastmoney.com/FundArchivesDatas.aspx?type=jjcc&code="@ + fund_code@
            + "&topline=10&year="@ + crate::calendar::year_prefix(p.year as int).drop_last()
            + "&season="@ + decimal_of(p.season as nat),
{
    let mut u = "https://fundf10.eastmoney.com/FundArchivesDatas.aspx?type=jjcc&code=".to_owned();
    u.append(fund_code);
    u.append("&topline=10&year=");
    u.append(year_digits(p.year).as_str());
    u.append("&season=");
    u.append(decimal(p.season as u64).as_str());
    u
}

/// Rows that bear a report and how much it discloses.
pub open spec fn marked(rows: Seq<RowView>, report: Seq<char>, kind: Seq<char>) -> Seq<RowView> {
    rows.map_values(|r: RowView| RowView { report, kind, ..r })
}

/// Marks rows with a report and how much it discloses.
fn mark_rows(rows: Vec<HoldingRow>, report: &str, kind: &str) -> (r: Vec<HoldingRow>)
    ensures
        row_views(r@) == marked(row_views(rows@), report@, kind@),
{
    let ghost want = marked(row_views(rows@), report@, kind@);
    let mut r: Vec<HoldingRow> = Vec::new();
    let mut i: usize = 0;
    while i < rows.len()
        invariant
            want == marked(row_views(rows@), report@, kind@),
            i <= rows@.len(),
            r@.len() == i,
            forall|k: int| 0 <= k < i ==> (#[trigger] r@[k])@ == want[k],
        decreases rows@.len() - i,
    {
        let h = HoldingRow {
            stock_code: rows[i].stock_code.clone(),
            stock_name: rows[i].stock_name.clone(),
            weights: copy_texts(&rows[i].weights),
            report_period: report.to_owned(),
            disclosure_type: kind.to_owned(),
        };
        assert(row_views(rows@)[i as int] == rows@[i as int]@);
        assert(h@ =~= want[i as int]);
        r.push(h);
        i += 1;
    }
    assert(row_views(r@) =~= want);
    r
}

/// A copy of texts.
fn copy_texts(v: &Vec<String>) -> (r: Vec<String>)
    ensures
        views(r@) == views(v@),
{
    let mut r: Vec<String> = Vec::new();
    let mut i: usize = 0;
    while i < v.len()
        invariant
            i <= v@.len(),
            r@.len() == i,
            forall|k: int| 0 <= k < i ==> (#[trigger] r@[k])@ == v@[k]@,
        decreases v@.len() - i,
    {
        r.push(v[i].clone());
        i += 1;
    }
    assert(views(r@) =~= views(v@));
    r
}

/// What a page says: the report it is about, how much that discloses, and the rows of its table.
pub struct Disclosure {
    pub report_period: String,
    pub disclosure_type: String,
    pub rows: Vec<HoldingRow>,
}

/// Reads the page asked for with a report. The report is the one that the page names, or else the
/// one that was asked for; the rows bear it, and how much it discloses.
pub fn read_disclosure(body: &str, p: &Period) -> (r: Disclosure)
    ensures
        r.report_period@ == (match report_in(body@) {
            Some(t) => t,
            None => period_name(p.year as int, p.season as int),
        }),
        r.disclosure_type@ == p.disclosure@,
        row_views(r.rows@) == marked(table_rows(body@), r.report_period@, r.disclosure_type@),
{
    let report_period = match extract_curyear(body) {
        Some(t) => t,
        None => {
            let mut s = year_digits(p.year);
            s.append("Q");
            s.append(decimal(p.season as u64).as_str());
            s
        },
    };
    let rows = mark_rows(parse_holding_table(body), report_period.as_str(), p.disclosure);
    Disclosure { report_period, disclosure_type: p.disclosure.to_owned(), rows }
}

} // verus!
