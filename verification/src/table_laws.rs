//! Laws of reading the tables of holdings, stated on the lengths and digits of cells.
use vstd::prelude::*;
use crate::disclosure::{char_place, code_place, digit_run, first_report, full_cells, has_code, marked, percent_texts, period_name, replaced, report_at, report_in, row_cells, row_of_cells, rows_of, season_char, table_region, table_rows, text_between_tags, RowView};
use crate::text::{decimal_of, digits_n, ends, find_from, lemma_find_from, occurs_at, split_seq, trimmed, white, without_trailing};
use crate::text_laws::{law_digits, law_search_for_a_character, law_search_is_first, law_trim_takes_the_ends};

verus! {

proof fn lemma_first_code(cells: Seq<Seq<char>>, from: int, c: int)
    requires
        0 <= from <= c < cells.len(),
        cells[c].len() == 5 || cells[c].len() == 6,
        forall|i: int| 0 <= i < cells[c].len() ==> '0' <= (#[trigger] cells[c][i]) && cells[c][i] <= '9',
        forall|b: int|
            from <= b < c && ((#[trigger] cells[b]).len() == 5 || cells[b].len() == 6) ==> exists|
                i: int,
            |
                0 <= i < cells[b].len() && !('0' <= (#[trigger] cells[b][i]) && cells[b][i] <= '9'),
    ensures
        code_place(cells, from) == Some(c),
    decreases c - from,
{
    law_digits(cells[from], 5);
    law_digits(cells[from], 6);
    if from < c {
        lemma_first_code(cells, from + 1, c);
    }
}

/// A row of a table whose first cell of five digits or of six digits stands at `c` is that of the
/// stock with this code, named by the next cell.
pub proof fn law_row_with_a_code(cells: Seq<Seq<char>>, c: int)
    requires
        0 <= c < cells.len(),
        cells[c].len() == 5 || cells[c].len() == 6,
        forall|i: int| 0 <= i < cells[c].len() ==> '0' <= (#[trigger] cells[c][i]) && cells[c][i] <= '9',
        forall|b: int|
            0 <= b < c && ((#[trigger] cells[b]).len() == 5 || cells[b].len() == 6) ==> exists|i: int|
                0 <= i < cells[b].len() && !('0' <= (#[trigger] cells[b][i]) && cells[b][i] <= '9'),
    ensures
        row_of_cells(cells) matches Some(r) && r.code == cells[c] && (c + 1 < cells.len() ==> r.name
            == cells[c + 1]) && (c + 1 == cells.len() ==> r.name.len() == 0) && r.weights
            == percent_texts(cells),
{
    lemma_first_code(cells, 0, c);
}

/// A row without a cell of five digits and without one of six digits is of no stock.
pub proof fn law_row_without_a_code(cells: Seq<Seq<char>>)
    requires
        forall|b: int|
            0 <= b < cells.len() && ((#[trigger] cells[b]).len() == 5 || cells[b].len() == 6)
                ==> exists|i: int|
                0 <= i < cells[b].len() && !('0' <= (#[trigger] cells[b][i]) && cells[b][i] <= '9'),
    ensures
        row_of_cells(cells) is None,
{
    lemma_no_code(cells, 0);
}

proof fn lemma_no_code(cells: Seq<Seq<char>>, from: int)
    requires
        0 <= from <= cells.len(),
        forall|b: int|
            from <= b < cells.len() && ((#[trigger] cells[b]).len() == 5 || cells[b].len() == 6)
                ==> exists|i: int|
                0 <= i < cells[b].len() && !('0' <= (#[trigger] cells[b][i]) && cells[b][i] <= '9'),
    ensures
        code_place(cells, from) is None,
    decreases cells.len() - from,
{
    if from < cells.len() {
        law_digits(cells[from], 5);
        law_digits(cells[from], 6);
        lemma_no_code(cells, from + 1);
    }
}

/// Reading is complete: every row of a table that has a cell of five digits or of six digits yields a
/// holding with the first such cell as its code. It is the holding of this very row, with the next
/// cell as its name, unless an earlier row has the same code.
pub proof fn law_every_row_with_a_code_is_read(trs: Seq<Seq<char>>, k: int, c: int) -> (r: int)
    requires
        0 <= k < trs.len(),
        0 <= c < row_cells(trs[k]).len(),
        row_cells(trs[k])[c].len() == 5 || row_cells(trs[k])[c].len() == 6,
        forall|i: int|
            0 <= i < row_cells(trs[k])[c].len() ==> '0' <= (#[trigger] row_cells(trs[k])[c][i])
                && row_cells(trs[k])[c][i] <= '9',
        forall|b: int|
            0 <= b < c && ((#[trigger] row_cells(trs[k])[b]).len() == 5 || row_cells(
                trs[k],
            )[b].len() == 6) ==> exists|i: int|
                0 <= i < row_cells(trs[k])[b].len() && !('0' <= (#[trigger] row_cells(trs[k])[b][i])
                    && row_cells(trs[k])[b][i] <= '9'),
    ensures
        0 <= r < rows_of(trs).len(),
        rows_of(trs)[r].code == row_cells(trs[k])[c],
        (forall|j: int|
            0 <= j < k ==> !(#[trigger] row_cells(trs[j])).contains(row_cells(trs[k])[c])) ==> (c + 1
            < row_cells(trs[k]).len() ==> rows_of(trs)[r].name == row_cells(trs[k])[c + 1])
            && rows_of(trs)[r].weights == percent_texts(row_cells(trs[k])),
    decreases trs.len(),
{
    let rest = trs.drop_last();
    let rows = rows_of(rest);
    let code = row_cells(trs[k])[c];
    let fresh = forall|j: int|
        0 <= j < k ==> !(#[trigger] row_cells(trs[j])).contains(row_cells(trs[k])[c]);
    if k < trs.len() - 1 {
        assert(rest[k] == trs[k]);
        let r = law_every_row_with_a_code_is_read(rest, k, c);
        if fresh {
            assert forall|j: int| 0 <= j < k implies !(#[trigger] row_cells(rest[j])).contains(
                row_cells(rest[k])[c],
            ) by {
                assert(rest[j] == trs[j]);
                assert(!row_cells(trs[j]).contains(row_cells(trs[k])[c]));
            }
        }
        r
    } else {
        law_row_with_a_code(row_cells(trs[k]), c);
        if has_code(rows, code) {
            let r = choose|i: int| 0 <= i < rows.len() && (#[trigger] rows[i]).code == code;
            if fresh {
                let (j, b) = law_every_holding_comes_from_a_row(rest, r);
                assert(rest[j] == trs[j]);
                assert(row_cells(trs[j])[b] == code);
                assert(row_cells(trs[j]).contains(code));
                assert(false);
            }
            r
        } else {
            rows.len() as int
        }
    }
}

/// Every holding that is read comes from a row of the table: its code is a cell of that row of five or
/// six digits, and its name the next cell.
pub proof fn law_every_holding_comes_from_a_row(trs: Seq<Seq<char>>, r: int) -> (w: (int, int))
    requires
        0 <= r < rows_of(trs).len(),
    ensures
        0 <= w.0 < trs.len(),
        0 <= w.1 < row_cells(trs[w.0]).len(),
        row_cells(trs[w.0])[w.1] == rows_of(trs)[r].code,
        rows_of(trs)[r].code.len() == 5 || rows_of(trs)[r].code.len() == 6,
        forall|i: int|
            0 <= i < rows_of(trs)[r].code.len() ==> '0' <= (#[trigger] rows_of(trs)[r].code[i])
                && rows_of(trs)[r].code[i] <= '9',
        w.1 + 1 < row_cells(trs[w.0]).len() ==> rows_of(trs)[r].name == row_cells(
            trs[w.0],
        )[w.1 + 1],
        rows_of(trs)[r].weights == percent_texts(row_cells(trs[w.0])),
        rows_of(trs)[r].report == "latest"@,
        rows_of(trs)[r].kind == "top10"@,
    decreases trs.len(),
{
    let rest = trs.drop_last();
    let rows = rows_of(rest);
    if r < rows.len() {
        let w = law_every_holding_comes_from_a_row(rest, r);
        assert(rest[w.0] == trs[w.0]);
        assert(rows_of(trs)[r] == rows[r]);
        w
    } else {
        let cells = row_cells(trs.last());
        lemma_code_place_range(cells, 0);
        let b = code_place(cells, 0)->Some_0;
        law_digits(cells[b], 5);
        law_digits(cells[b], 6);
        assert(rows_of(trs)[r].code == cells[b]);
        (trs.len() - 1, b)
    }
}

proof fn lemma_code_place_range(cells: Seq<Seq<char>>, from: int)
    requires
        0 <= from <= cells.len(),
    ensures
        code_place(cells, from) matches Some(b) ==> from <= b < cells.len() && (digits_n(cells[b], 5)
            || digits_n(cells[b], 6)),
    decreases cells.len() - from,
{
    if from < cells.len() {
        lemma_code_place_range(cells, from + 1);
    }
}

/// The holdings of a page are those of its first table body: what stands before the first `<tbody`
/// and what stands from the next `</tbody>` on counts for nothing.
pub proof fn law_only_the_first_table_counts(body: Seq<char>, s: int, e: int)
    requires
        0 <= s <= e,
        s + 6 <= body.len(),
        e + 8 <= body.len(),
        body.subrange(s, s + 6) == "<tbody"@,
        body.subrange(e, e + 8) == "</tbody>"@,
        forall|i: int| 0 <= i < s ==> #[trigger] body.subrange(i, i + 6) != "<tbody"@,
        forall|i: int| s <= i < e ==> #[trigger] body.subrange(i, i + 8) != "</tbody>"@,
    ensures
        table_region(body) == body.subrange(s, e),
        table_rows(body) == rows_of(split_seq(body.subrange(s, e), "</tr>"@)),
{
    reveal_strlit("<tbody");
    reveal_strlit("</tbody>");
    assert("<tbody"@.len() == 6 && "</tbody>"@.len() == 8);
    law_search_is_first(body, "<tbody"@, 0, s);
    let a = find_from(body, "<tbody"@, 0)->Some_0;
    if a < s {
        assert(body.subrange(a, a + 6) == "<tbody"@);
    }
    law_search_is_first(body, "</tbody>"@, s, e);
    let b = find_from(body, "</tbody>"@, s)->Some_0;
    if b < e {
        assert(body.subrange(b, b + 8) == "</tbody>"@);
    }
}

/// A page without a table body is read as a whole.
pub proof fn law_page_without_a_table_body(body: Seq<char>)
    requires
        forall|i: int| 0 <= i <= body.len() - 6 ==> #[trigger] body.subrange(i, i + 6) != "<tbody"@,
    ensures
        table_region(body) == body,
        table_rows(body) == rows_of(split_seq(body, "</tr>"@)),
{
    reveal_strlit("<tbody");
    assert("<tbody"@.len() == 6);
    lemma_find_from(body, "<tbody"@, 0);
    if find_from(body, "<tbody"@, 0) is Some {
        let a = find_from(body, "<tbody"@, 0)->Some_0;
        assert(body.subrange(a, a + 6) == "<tbody"@);
    }
}

/// The cells of a row are its pieces with white space taken off both ends, but for those of which
/// nothing is left: every such piece is a cell, and every cell is such a piece.
pub proof fn law_cells_are_the_full_pieces(pieces: Seq<Seq<char>>, k: int)
    requires
        0 <= k < pieces.len(),
    ensures
        trimmed(pieces[k]).len() > 0 ==> full_cells(pieces).contains(trimmed(pieces[k])),
        full_cells(pieces).len() <= pieces.len(),
        (forall|j: int| 0 <= j < pieces.len() ==> trimmed(#[trigger] pieces[j]).len() > 0)
            ==> full_cells(pieces) == pieces.map_values(|p: Seq<char>| trimmed(p)),
        forall|j: int|
            0 <= j < full_cells(pieces).len() ==> (#[trigger] full_cells(pieces)[j]).len() > 0,
    decreases pieces.len(),
{
    let rest = pieces.drop_last();
    let cells = full_cells(rest);
    if rest.len() > 0 {
        let i = if k < rest.len() {
            k
        } else {
            0
        };
        law_cells_are_the_full_pieces(rest, i);
    }
    assert forall|j: int| 0 <= j < rest.len() implies #[trigger] rest[j] == pieces[j] by {
    }
    if trimmed(pieces.last()).len() > 0 {
        assert(full_cells(pieces)[cells.len() as int] == trimmed(pieces.last()));
        if k < rest.len() && trimmed(pieces[k]).len() > 0 {
            let q = choose|q: int| 0 <= q < cells.len() && cells[q] == trimmed(pieces[k]);
            assert(full_cells(pieces)[q] == cells[q]);
        }
        assert forall|j: int| 0 <= j < full_cells(pieces).len() implies (
            #[trigger] full_cells(pieces)[j]).len() > 0 by {
            if j < cells.len() {
                assert(full_cells(pieces)[j] == cells[j]);
            }
        }
    }
    if forall|j: int| 0 <= j < pieces.len() ==> trimmed(#[trigger] pieces[j]).len() > 0 {
        assert(trimmed(pieces[pieces.len() - 1]).len() > 0);
        assert forall|j: int| 0 <= j < rest.len() implies trimmed(#[trigger] rest[j]).len() > 0 by {
            assert(rest[j] == pieces[j]);
        }
        assert(cells =~= rest.map_values(|p: Seq<char>| trimmed(p)));
        assert(full_cells(pieces) =~= pieces.map_values(|p: Seq<char>| trimmed(p)));
    }
}

/// The first report named on a page: four digits and `年`, then within sixteen characters the first
/// `季`, with a season right before it. The season is that of the digit or of the numeral.
pub proof fn law_report_is_year_and_season(s: Seq<char>, i: int, p: int, q: char)
    requires
        4 <= i < p < s.len(),
        i + 1 < p <= i + 16,
        s[i] == '年',
        forall|j: int| i - 4 <= j < i ==> '0' <= (#[trigger] s[j]) && s[j] <= '9',
        s[p] == '季',
        forall|j: int| i < j < p ==> (#[trigger] s[j]) != '季',
        forall|j: int| 0 <= j < i ==> (#[trigger] s[j]) != '年',
        q == '1' && (s[p - 1] == '1' || s[p - 1] == '一') || q == '2' && (s[p - 1] == '2' || s[p - 1]
            == '二') || q == '3' && (s[p - 1] == '3' || s[p - 1] == '三') || q == '4' && (s[p - 1]
            == '4' || s[p - 1] == '四'),
    ensures
        first_report(s, 0) == Some(seq![s[i - 4], s[i - 3], s[i - 2], s[i - 1], 'Q', q]),
        report_in(s) == Some(
            seq![s[i - 4], s[i - 3], s[i - 2], s[i - 1], 'Q', q],
        ),
{
    let year = s.subrange(i - 4, i);
    assert forall|j: int| 0 <= j < year.len() implies '0' <= (#[trigger] year[j]) && year[j] <= '9' by {
        assert(year[j] == s[i - 4 + j]);
    }
    law_digits(year, 4);
    lemma_char_place(s, '季', i + 1, i + 17, p);
    assert(season_char(s[p - 1]) == Some(q));
    assert(report_at(s, i) == Some(year + seq!['Q', q]));
    assert(year + seq!['Q', q] =~= seq![s[i - 4], s[i - 3], s[i - 2], s[i - 1], 'Q', q]);
    lemma_first_report(s, 0, i);
}

proof fn lemma_char_place(s: Seq<char>, c: char, from: int, end: int, p: int)
    requires
        0 <= from <= p < end,
        p < s.len(),
        s[p] == c,
        forall|j: int| from <= j < p ==> (#[trigger] s[j]) != c,
    ensures
        char_place(s, c, from, end) == Some(p),
    decreases p - from,
{
    if from < p {
        assert(s[from] != c);
        lemma_char_place(s, c, from + 1, end, p);
    }
}

proof fn lemma_first_report(s: Seq<char>, from: int, i: int)
    requires
        0 <= from <= i < s.len(),
        report_at(s, i) is Some,
        forall|j: int| 0 <= j < i ==> (#[trigger] s[j]) != '年',
    ensures
        first_report(s, from) == report_at(s, i),
    decreases i - from,
{
    if from < i {
        assert(s[from] != '年');
        lemma_first_report(s, from + 1, i);
    }
}

/// The percentages of a row are the cells that end with a percent sign, in their order: a row gains
/// one with each such cell and none with any other.
pub proof fn law_percentages_are_the_percent_cells(cells: Seq<Seq<char>>, c: Seq<char>)
    ensures
        percent_texts(Seq::empty()).len() == 0,
        trimmed(c).len() > 0 && trimmed(c).last() == '%' ==> percent_texts(cells.push(c)).len()
            == percent_texts(cells).len() + 1 && percent_texts(cells.push(c)).drop_last()
            == percent_texts(cells),
        !(trimmed(c).len() > 0 && trimmed(c).last() == '%') ==> percent_texts(cells.push(c))
            == percent_texts(cells),
{
    reveal_strlit("%");
    let t = trimmed(c);
    let all = cells.push(c);
    assert("%"@.len() == 1 && "%"@[0] == '%');
    assert(all.drop_last() =~= cells);
    assert(all.last() == c);
    if t.len() > 0 {
        assert(t.subrange(t.len() - 1, t.len() as int)[0] == t.last());
        if t.last() == '%' {
            assert(t.subrange(t.len() - 1, t.len() as int) =~= "%"@);
        }
    }
    assert(ends(t, "%"@) <==> t.len() > 0 && t.last() == '%');
    if ends(t, "%"@) {
        assert(percent_texts(all).drop_last() =~= percent_texts(cells));
    }
}

/// Marking rows with a report changes neither their number nor what they hold.
pub proof fn law_marking_keeps_rows(rows: Seq<RowView>, report: Seq<char>, kind: Seq<char>, i: int)
    requires
        0 <= i < rows.len(),
    ensures
        marked(rows, report, kind).len() == rows.len(),
        marked(rows, report, kind)[i].code == rows[i].code,
        marked(rows, report, kind)[i].name == rows[i].name,
        marked(rows, report, kind)[i].weights == rows[i].weights,
        marked(rows, report, kind)[i].report == report,
        marked(rows, report, kind)[i].kind == kind,
{
}

// ---------------------------------------------------------------------------
// From markup to cells
// ---------------------------------------------------------------------------

/// Replacing puts the new text in place of the first occurrence and goes on behind it; a text without
/// an occurrence stays as it is.
pub proof fn law_replacing(s: Seq<char>, from: Seq<char>, to: Seq<char>)
    requires
        from.len() > 0,
    ensures
        find_from(s, from, 0) is None ==> replaced(s, from, to) == s,
        find_from(s, from, 0) matches Some(i) ==> replaced(s, from, to) == s.take(i) + to + replaced(
            s.skip(i + from.len()),
            from,
            to,
        ),
{
    lemma_find_from(s, from, 0);
    match find_from(s, from, 0) {
        Some(i) => {
            let rest = s.skip(i + from.len());
            let tail = split_seq(rest, from);
            crate::text_laws::law_split_rejoins(rest, from);
            assert(split_seq(s, from) == seq![s.take(i)] + tail);
            crate::text_laws::lemma_join_front(s.take(i), tail, to);
        },
        None => {
            assert(split_seq(s, from) =~= seq![s]);
            assert(seq![s].drop_last().len() == 0);
        },
    }
}

/// Commas go out of a number, and nothing else does.
pub proof fn law_commas_go(s: Seq<char>)
    ensures
        replaced(s, ","@, ""@) == s.filter(|c: char| c != ','),
    decreases s.len(),
{
    reveal_strlit(",");
    reveal_strlit("");
    let p = ","@;
    let keep = |c: char| c != ',';
    assert(p.len() == 1 && p[0] == ',');
    assert(""@ =~= Seq::<char>::empty());
    lemma_find_from(s, p, 0);
    law_replacing(s, p, ""@);
    match find_from(s, p, 0) {
        Some(i) => {
            let rest = s.skip(i + 1);
            law_commas_go(rest);
            assert(s.subrange(i, i + 1)[0] == s[i]);
            assert forall|j: int| 0 <= j < i implies (#[trigger] s.take(i)[j]) != ',' by {
                if s[j] == ',' {
                    assert(s.subrange(j, j + 1) =~= p);
                    assert(occurs_at(s, p, j));
                }
            }
            assert(s =~= s.take(i) + (seq![','] + rest));
            Seq::filter_distributes_over_add(s.take(i), seq![','] + rest, keep);
            Seq::filter_distributes_over_add(seq![','], rest, keep);
            lemma_filter_keeps(s.take(i), keep);
            assert(seq![','].filter(keep) =~= Seq::<char>::empty()) by {
                reveal(Seq::filter);
                assert(seq![','].drop_last() =~= Seq::<char>::empty());
                assert(seq![','].drop_last().filter(keep).len() == 0);
            }
            assert(s.take(i) + ""@ + rest.filter(keep) =~= s.take(i) + rest.filter(keep));
            assert(Seq::<char>::empty() + rest.filter(keep) =~= rest.filter(keep));
        },
        None => {
            assert forall|j: int| 0 <= j < s.len() implies (#[trigger] s[j]) != ',' by {
                if s[j] == ',' {
                    assert(s.subrange(j, j + 1) =~= p);
                    assert(occurs_at(s, p, j));
                }
            }
            lemma_filter_keeps(s, keep);
        },
    }
}

proof fn lemma_filter_keeps(s: Seq<char>, keep: spec_fn(char) -> bool)
    requires
        forall|j: int| 0 <= j < s.len() ==> keep(#[trigger] s[j]),
    ensures
        s.filter(keep) == s,
    decreases s.len(),
{
    reveal(Seq::filter);
    if s.len() > 0 {
        assert forall|j: int| 0 <= j < s.drop_last().len() implies keep(#[trigger] s.drop_last()[j]) by {
            assert(s.drop_last()[j] == s[j]);
        }
        lemma_filter_keeps(s.drop_last(), keep);
        assert(keep(s[s.len() - 1]));
        assert(s.drop_last().push(s.last()) =~= s);
    }
}

/// The percentage in a cell is what stands before its percent sign, without commas.
pub proof fn law_percentage_of_a_cell(cells: Seq<Seq<char>>, number: Seq<char>)
    requires
        number.len() > 0,
        !white(number[0]),
        number.last() != '%',
    ensures
        percent_texts(cells.push(number + seq!['%'])) == percent_texts(cells).push(
            number.filter(|c: char| c != ','),
        ),
{
    reveal_strlit("%");
    let c = number + seq!['%'];
    let all = cells.push(c);
    assert(all.drop_last() =~= cells);
    assert(all.last() == c);
    assert(c.last() == '%' && c[0] == number[0]);
    law_trim_takes_the_ends(Seq::empty(), c, Seq::empty());
    assert(Seq::<char>::empty() + c + Seq::<char>::empty() =~= c);
    assert("%"@.len() == 1 && "%"@[0] == '%');
    assert(c.subrange(c.len() - 1, c.len() as int) =~= "%"@);
    assert(c.drop_last() =~= number);
    assert(without_trailing(c, '%') == without_trailing(number, '%'));
    law_commas_go(number);
}

/// Text outside of tags stays, tags go: a text without angle brackets is all text, and a tag between two
/// texts leaves nothing.
pub proof fn law_tags_go(a: Seq<char>, tag: Seq<char>, b: Seq<char>)
    requires
        forall|i: int| 0 <= i < a.len() ==> (#[trigger] a[i]) != '<' && a[i] != '>',
        forall|i: int| 0 <= i < tag.len() ==> (#[trigger] tag[i]) != '<' && tag[i] != '>',
    ensures
        text_between_tags(a, false) == a,
        text_between_tags(a + b, false) == a + text_between_tags(b, false),
        text_between_tags(a + (seq!['<'] + tag + seq!['>'] + b), false) == a + text_between_tags(
            b,
            false,
        ),
{
    let t = seq!['<'] + tag + seq!['>'] + b;
    lemma_plain_text(a, Seq::empty());
    assert(a + Seq::<char>::empty() =~= a);
    assert(text_between_tags(Seq::<char>::empty(), false) =~= Seq::<char>::empty());
    lemma_plain_text(a, b);
    lemma_plain_text(a, t);
    assert(t[0] == '<');
    assert(t.skip(1) =~= tag + (seq!['>'] + b));
    lemma_inside_tag(tag, seq!['>'] + b);
    let u = seq!['>'] + b;
    assert(u[0] == '>');
    assert(u.skip(1) =~= b);
}

proof fn lemma_plain_text(a: Seq<char>, b: Seq<char>)
    requires
        forall|i: int| 0 <= i < a.len() ==> (#[trigger] a[i]) != '<' && a[i] != '>',
    ensures
        text_between_tags(a + b, false) == a + text_between_tags(b, false),
    decreases a.len(),
{
    if a.len() == 0 {
        assert(a + b =~= b);
        assert(a + text_between_tags(b, false) =~= text_between_tags(b, false));
    } else {
        let rest = a.skip(1);
        assert forall|i: int| 0 <= i < rest.len() implies (#[trigger] rest[i]) != '<' && rest[i]
            != '>' by {
            assert(rest[i] == a[i + 1]);
        }
        assert((a + b).skip(1) =~= rest + b);
        assert((a + b)[0] == a[0]);
        lemma_plain_text(rest, b);
        assert(seq![a[0]] + (rest + text_between_tags(b, false)) =~= a + text_between_tags(b, false));
    }
}

proof fn lemma_inside_tag(tag: Seq<char>, b: Seq<char>)
    requires
        forall|i: int| 0 <= i < tag.len() ==> (#[trigger] tag[i]) != '<' && tag[i] != '>',
    ensures
        text_between_tags(tag + b, true) == text_between_tags(b, true),
    decreases tag.len(),
{
    if tag.len() == 0 {
        assert(tag + b =~= b);
    } else {
        let rest = tag.skip(1);
        assert forall|i: int| 0 <= i < rest.len() implies (#[trigger] rest[i]) != '<' && rest[i]
            != '>' by {
            assert(rest[i] == tag[i + 1]);
        }
        assert((tag + b).skip(1) =~= rest + b);
        assert((tag + b)[0] == tag[0]);
        lemma_inside_tag(rest, b);
    }
}

/// The markup of a row of cells.
pub open spec fn row_markup(cells: Seq<Seq<char>>, open: Seq<char>, close: Seq<char>) -> Seq<char>
    decreases cells.len(),
{
    if cells.len() == 0 {
        Seq::empty()
    } else {
        open + cells[0] + close + row_markup(cells.skip(1), open, close)
    }
}

/// A cell as it may stand in a row: not empty, without white space at its ends, and without angle
/// brackets and bars.
pub open spec fn plain_cell(c: Seq<char>) -> bool {
    &&& c.len() > 0
    &&& !white(c[0])
    &&& !white(c.last())
    &&& forall|i: int| 0 <= i < c.len() ==> (#[trigger] c[i]) != '<' && c[i] != '>' && c[i] != '|'
}

/// The cells of a row are read back from its markup, all of them and in their order, whether they are
/// those of a body or those of a head.
pub proof fn law_cells_of_a_row(cells: Seq<Seq<char>>)
    requires
        forall|k: int| 0 <= k < cells.len() ==> plain_cell(#[trigger] cells[k]),
    ensures
        row_cells(row_markup(cells, "<td>"@, "</td>"@)) == cells,
        row_cells(row_markup(cells, "<th>"@, "</th>"@)) == cells,
{
    reveal_strlit("<td>");
    reveal_strlit("</td>");
    reveal_strlit("<th>");
    reveal_strlit("</th>");
    reveal_strlit("|");
    let bar = "|"@;
    let td = row_markup(cells, "<td>"@, "</td>"@);
    let th = row_markup(cells, "<th>"@, "</th>"@);
    let td2 = row_markup(cells, "<td>"@, bar);
    let th2 = row_markup(cells, "<th>"@, bar);
    lemma_close_tags(cells, "<td>"@, "</td>"@);
    lemma_close_tags(cells, "<th>"@, "</th>"@);
    lemma_no_close_tag(cells, "<td>"@, bar, "</th>"@);
    lemma_no_close_tag(cells, "<th>"@, "</th>"@, "</td>"@);
    law_replacing(td2, "</th>"@, bar);
    law_replacing(th, "</td>"@, bar);
    lemma_open_tags(cells, "<td>"@);
    lemma_open_tags(cells, "<th>"@);
    lemma_bars(cells);
}

/// No closing tag of the other kind stands in a row.
proof fn lemma_no_close_tag(cells: Seq<Seq<char>>, open: Seq<char>, close: Seq<char>, other: Seq<char>)
    requires
        forall|k: int| 0 <= k < cells.len() ==> plain_cell(#[trigger] cells[k]),
        open.len() == 4 && open[0] == '<' && open[1] == 't' && open[2] != '<' && open[3] != '<',
        (close.len() == 1 && close[0] == '|') || (close.len() == 5 && close[0] == '<' && close[1] == '/'
            && close[2] == 't' && close[3] == 'h' && close[4] == '>'),
        other.len() == 5 && other[0] == '<' && other[1] == '/' && other[2] == 't',
        close.len() == 5 ==> other[3] == 'd',
    ensures
        find_from(row_markup(cells, open, close), other, 0) is None,
    decreases cells.len(),
{
    let s = row_markup(cells, open, close);
    lemma_find_from(s, other, 0);
    if find_from(s, other, 0) is Some {
        let i = find_from(s, other, 0)->Some_0;
        let w = s.subrange(i, i + 5);
        assert(w[0] == s[i] && w[1] == s[i + 1] && w[3] == s[i + 3]);
        lemma_brackets(cells, open, close, i);
        assert(false);
    }
}

/// Wherever an angle bracket opens in a row, an opening tag or the row's own closing tag begins.
proof fn lemma_brackets(cells: Seq<Seq<char>>, open: Seq<char>, close: Seq<char>, i: int)
    requires
        forall|k: int| 0 <= k < cells.len() ==> plain_cell(#[trigger] cells[k]),
        open.len() == 4 && open[0] == '<' && open[1] == 't' && open[2] != '<' && open[3] != '<',
        (close.len() == 1 && close[0] == '|') || (close.len() == 5 && close[0] == '<' && close[1] == '/'
            && close[2] == 't' && close[3] == 'h' && close[4] == '>'),
        0 <= i,
        i + 3 < row_markup(cells, open, close).len(),
        row_markup(cells, open, close)[i] == '<',
    ensures
        ({
            let s = row_markup(cells, open, close);
            s[i + 1] == 't' || (close.len() == 5 && s[i + 1] == '/' && s[i + 3] == 'h')
        }),
    decreases cells.len(),
{
    let s = row_markup(cells, open, close);
    let c = cells[0];
    let rest = row_markup(cells.skip(1), open, close);
    assert(s =~= open + c + close + rest);
    assert(plain_cell(cells[0]));
    let n = 4 + c.len() as int;
    if i < 4 {
        assert(s[i] == open[i]);
        assert(i == 0);
        assert(s[1] == open[1]);
    } else if i < n {
        assert(s[i] == c[i - 4]);
    } else if i < n + close.len() {
        assert(s[i] == close[i - n]);
        assert(i == n);
        assert(s[n + 1] == close[1] && s[n + 3] == close[3]);
    } else {
        let j = i - n - close.len();
        assert(s[i] == rest[j]);
        assert(s[i + 1] == rest[j + 1] && s[i + 3] == rest[j + 3]);
        assert forall|k: int| 0 <= k < cells.skip(1).len() implies plain_cell(
            #[trigger] cells.skip(1)[k],
        ) by {
            assert(cells.skip(1)[k] == cells[k + 1]);
        }
        lemma_brackets(cells.skip(1), open, close, j);
    }
}

/// The closing tags of a row become bars.
proof fn lemma_close_tags(cells: Seq<Seq<char>>, open: Seq<char>, close: Seq<char>)
    requires
        forall|k: int| 0 <= k < cells.len() ==> plain_cell(#[trigger] cells[k]),
        open.len() == 4 && open[0] == '<' && open[1] == 't' && open[2] != '<' && open[3] != '<',
        close.len() == 5 && close[0] == '<' && close[1] == '/',
    ensures
        replaced(row_markup(cells, open, close), close, "|"@) == row_markup(cells, open, "|"@),
    decreases cells.len(),
{
    let s = row_markup(cells, open, close);
    law_replacing(s, close, "|"@);
    lemma_find_from(s, close, 0);
    if cells.len() == 0 {
        assert(s.len() == 0);
    } else {
        let c = cells[0];
        let rest = row_markup(cells.skip(1), open, close);
        assert(plain_cell(cells[0]));
        assert(s =~= open + c + close + rest);
        let n = 4 + c.len() as int;
        assert(s.subrange(n, n + 5) =~= close);
        law_search_is_first(s, close, 0, n);
        let i = find_from(s, close, 0)->Some_0;
        let w = s.subrange(i, i + 5);
        assert(w[0] == s[i] && w[1] == s[i + 1]);
        if i < n {
            if i < 4 {
                assert(s[i] == open[i]);
                assert(s[1] == open[1]);
            } else {
                assert(s[i] == c[i - 4]);
            }
        }
        assert(i == n);
        assert(s.take(n) =~= open + c);
        assert(s.skip(n + 5) =~= rest);
        assert forall|k: int| 0 <= k < cells.skip(1).len() implies plain_cell(
            #[trigger] cells.skip(1)[k],
        ) by {
            assert(cells.skip(1)[k] == cells[k + 1]);
        }
        lemma_close_tags(cells.skip(1), open, close);
    }
}

/// The opening tags of a row go.
proof fn lemma_open_tags(cells: Seq<Seq<char>>, open: Seq<char>)
    requires
        forall|k: int| 0 <= k < cells.len() ==> plain_cell(#[trigger] cells[k]),
        open.len() == 4 && open[0] == '<' && open[3] == '>' && open[1] != '<' && open[1] != '>' && open[2]
            != '<' && open[2] != '>',
    ensures
        text_between_tags(row_markup(cells, open, "|"@), false) == row_markup(
            cells,
            Seq::empty(),
            "|"@,
        ),
    decreases cells.len(),
{
    reveal_strlit("|");
    let bar = "|"@;
    assert(bar.len() == 1 && bar[0] == '|');
    if cells.len() > 0 {
        let c = cells[0];
        let rest = row_markup(cells.skip(1), open, bar);
        let more = row_markup(cells.skip(1), Seq::empty(), bar);
        assert(plain_cell(cells[0]));
        assert forall|k: int| 0 <= k < cells.skip(1).len() implies plain_cell(
            #[trigger] cells.skip(1)[k],
        ) by {
            assert(cells.skip(1)[k] == cells[k + 1]);
        }
        lemma_open_tags(cells.skip(1), open);
        let tag = open.subrange(1, 3);
        let none = Seq::<char>::empty();
        assert(open + c + bar + rest =~= none + (seq!['<'] + tag + seq!['>'] + (c + bar + rest)));
        law_tags_go(none, tag, c + bar + rest);
        assert(none + text_between_tags(c + bar + rest, false) =~= text_between_tags(
            c + bar + rest,
            false,
        ));
        lemma_plain_text(c + bar, rest);
        assert(none + c + bar + more =~= c + bar + more);
    }
}

/// Cells between bars are read back.
proof fn lemma_bars(cells: Seq<Seq<char>>)
    requires
        forall|k: int| 0 <= k < cells.len() ==> plain_cell(#[trigger] cells[k]),
    ensures
        full_cells(split_seq(row_markup(cells, Seq::empty(), "|"@), "|"@)) == cells,
{
    lemma_bar_pieces(cells);
    let pieces = cells.push(Seq::empty());
    assert(pieces.drop_last() =~= cells);
    law_trim_takes_the_ends(Seq::empty(), Seq::empty(), Seq::empty());
    assert(Seq::<char>::empty() + Seq::<char>::empty() + Seq::<char>::empty() =~= Seq::<char>::empty());
    assert(trimmed(pieces.last()).len() == 0);
    lemma_full(cells);
}

proof fn lemma_full(cells: Seq<Seq<char>>)
    requires
        forall|k: int| 0 <= k < cells.len() ==> plain_cell(#[trigger] cells[k]),
    ensures
        full_cells(cells) == cells,
    decreases cells.len(),
{
    if cells.len() > 0 {
        let rest = cells.drop_last();
        assert forall|k: int| 0 <= k < rest.len() implies plain_cell(#[trigger] rest[k]) by {
            assert(rest[k] == cells[k]);
        }
        lemma_full(rest);
        let c = cells.last();
        assert(plain_cell(cells[cells.len() - 1]));
        law_trim_takes_the_ends(Seq::empty(), c, Seq::empty());
        assert(Seq::<char>::empty() + c + Seq::<char>::empty() =~= c);
        assert(rest.push(c) =~= cells);
    }
}

proof fn lemma_bar_pieces(cells: Seq<Seq<char>>)
    requires
        forall|k: int| 0 <= k < cells.len() ==> plain_cell(#[trigger] cells[k]),
    ensures
        split_seq(row_markup(cells, Seq::empty(), "|"@), "|"@) == cells.push(Seq::empty()),
    decreases cells.len(),
{
    reveal_strlit("|");
    let bar = "|"@;
    assert(bar.len() == 1 && bar[0] == '|');
    let s = row_markup(cells, Seq::empty(), bar);
    if cells.len() == 0 {
        lemma_find_from(s, bar, 0);
        assert(s =~= Seq::<char>::empty());
        assert(split_seq(s, bar) =~= seq![s]);
    } else {
        let c = cells[0];
        let rest = row_markup(cells.skip(1), Seq::empty(), bar);
        assert(plain_cell(cells[0]));
        assert(Seq::<char>::empty() + c =~= c);
        assert(s == c + bar + rest);
        assert forall|k: int| 0 <= k < cells.skip(1).len() implies plain_cell(
            #[trigger] cells.skip(1)[k],
        ) by {
            assert(cells.skip(1)[k] == cells[k + 1]);
        }
        lemma_bar_pieces(cells.skip(1));
        lemma_split_at_bar(c, rest);
        assert(seq![c] + cells.skip(1).push(Seq::empty()) =~= cells.push(Seq::empty()));
    }
}

proof fn lemma_split_at_bar(c: Seq<char>, rest: Seq<char>)
    requires
        forall|i: int| 0 <= i < c.len() ==> (#[trigger] c[i]) != '|',
    ensures
        split_seq(c + "|"@ + rest, "|"@) == seq![c] + split_seq(rest, "|"@),
{
    reveal_strlit("|");
    let bar = "|"@;
    assert(bar.len() == 1 && bar[0] == '|');
    let s = c + bar + rest;
    let n = c.len() as int;
    assert(s[n] == bar[0]);
    assert forall|i: int| 0 <= i < n implies (#[trigger] s[i]) != bar[0] by {
        assert(s[i] == c[i]);
    }
    law_search_for_a_character(s, bar, 0, n);
    lemma_split_head(s, bar, n);
    assert(s.take(n) =~= c);
    assert(s.skip(n + 1) =~= rest);
}

proof fn lemma_split_head(s: Seq<char>, sep: Seq<char>, n: int)
    requires
        sep.len() > 0,
        find_from(s, sep, 0) == Some(n),
    ensures
        split_seq(s, sep) == seq![s.take(n)] + split_seq(s.skip(n + sep.len()), sep),
{
    lemma_find_from(s, sep, 0);
}

/// A page that names no report has the one of its mark `curyear:`, where exactly four digits follow it;
/// its season is not known.
pub proof fn law_report_by_year_alone(body: Seq<char>, i: int)
    requires
        forall|j: int| 0 <= j < body.len() ==> (#[trigger] body[j]) != '年',
        0 <= i,
        i + 12 <= body.len(),
        body.subrange(i, i + 8) == "curyear:"@,
        forall|j: int| 0 <= j < i ==> #[trigger] body.subrange(j, j + 8) != "curyear:"@,
        forall|j: int| i + 8 <= j < i + 12 ==> '0' <= (#[trigger] body[j]) && body[j] <= '9',
    ensures
        i + 12 == body.len() || !('0' <= body[i + 12] && body[i + 12] <= '9') ==> report_in(body) == Some(
            seq![body[i + 8], body[i + 9], body[i + 10], body[i + 11], 'Q', '?'],
        ),
        i + 12 < body.len() && '0' <= body[i + 12] && body[i + 12] <= '9' ==> report_in(body) is None,
{
    reveal_strlit("curyear:");
    let p = "curyear:"@;
    assert(p.len() == 8);
    lemma_no_report(body, 0);
    law_search_is_first(body, p, 0, i);
    let k = find_from(body, p, 0)->Some_0;
    if k < i {
        assert(body.subrange(k, k + 8) == p);
    }
    assert(body[i + 8] >= '0' && body[i + 9] >= '0' && body[i + 10] >= '0' && body[i + 11] >= '0');
    assert(digit_run(body, i + 12) >= 0) by {
        lemma_run(body, i + 12);
    }
    assert(digit_run(body, i + 11) == 1 + digit_run(body, i + 12));
    assert(digit_run(body, i + 10) == 1 + digit_run(body, i + 11));
    assert(digit_run(body, i + 9) == 1 + digit_run(body, i + 10));
    assert(digit_run(body, i + 8) == 1 + digit_run(body, i + 9));
    if i + 12 < body.len() && '0' <= body[i + 12] && body[i + 12] <= '9' {
        lemma_run(body, i + 13);
        assert(digit_run(body, i + 12) == 1 + digit_run(body, i + 13));
    }
    assert(body.subrange(i + 8, i + 12) + seq!['Q', '?'] =~= seq![
        body[i + 8],
        body[i + 9],
        body[i + 10],
        body[i + 11],
        'Q',
        '?',
    ]);
}

proof fn lemma_run(s: Seq<char>, i: int)
    ensures
        digit_run(s, i) >= 0,
    decreases s.len() - i,
{
    if 0 <= i < s.len() {
        lemma_run(s, i + 1);
    }
}

proof fn lemma_no_report(s: Seq<char>, from: int)
    requires
        0 <= from <= s.len(),
        forall|j: int| 0 <= j < s.len() ==> (#[trigger] s[j]) != '年',
    ensures
        first_report(s, from) is None,
    decreases s.len() - from,
{
    if from < s.len() {
        assert(s[from] != '年');
        lemma_no_report(s, from + 1);
    }
}

/// A page without a year and without the mark names no report; the name of a report that is asked for is
/// its year, `Q` and its season.
pub proof fn law_no_report(body: Seq<char>, year: int, season: int)
    requires
        forall|j: int| 0 <= j < body.len() ==> (#[trigger] body[j]) != '年',
        forall|j: int| 0 <= j <= body.len() - 8 ==> #[trigger] body.subrange(j, j + 8) != "curyear:"@,
        year >= 0,
        season >= 0,
    ensures
        report_in(body) is None,
        period_name(year, season) == decimal_of(year as nat) + "Q"@ + decimal_of(season as nat),
{
    reveal_strlit("curyear:");
    let p = "curyear:"@;
    assert(p.len() == 8);
    lemma_no_report(body, 0);
    lemma_find_from(body, p, 0);
    if find_from(body, p, 0) is Some {
        let k = find_from(body, p, 0)->Some_0;
        assert(body.subrange(k, k + 8) == p);
    }
    assert(crate::calendar::year_prefix(year).drop_last() =~= decimal_of(year as nat));
}

} // verus!
