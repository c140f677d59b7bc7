//! Laws of fund types, names and codes, of what the services reply, and of what is imported, stated on
//! characters, fields and places.
use vstd::prelude::*;
use crate::funds::{alias_code, benchmark, category, category_label, cleaned, digits_in, fund_aliases, index_fund, name_score, pure_index_fund, to_look_up, tracked_index, type_code};
use crate::imports::{after_last_dot, ascii_lower, completed, found_code, holdings_note, lacks_code, mime_of, names_of, normal_form, txns_note, type_key, type_of_txn, unknown_type, ScannedRow, TxnIn, TxnText};
use crate::json::{text_or_empty, text_or_number, Doc};
use crate::quotes::{body_text, fund_line, index_quote_in, index_quotes_in, nav_in_line, quote_in, quoted_from, quotes_in, tencent_nav, without_leading};
use crate::search::{best_match, dated_points, estimate_in, found_in, found_score, is_search_result, jsonp_inner, official_at, official_in, point_at, type_from, type_given, FoundView};
use crate::text::{begins, decimal_of, digits_n, find_from, occurs, occurs_at, split_seq, trim_left, trimmed, white};
use crate::text_laws::{law_digits, law_occurrence, law_search_is_first, law_trim_takes_the_ends, law_trim_twice};
use vstd::utf8::encode_utf8;

verus! {

// ---------------------------------------------------------------------------
// Types, names and codes
// ---------------------------------------------------------------------------

/// A fund follows an index where its type is `006`, `008` or `009`, or where its name in lower case holds
/// one of the words for it; it follows nothing else where the name does not call it enhanced.
pub proof fn law_index_funds(t: Seq<char>, lower: Seq<char>)
    ensures
        index_fund(t, lower) <==> t == "006"@ || t == "008"@ || t == "009"@ || occurs(lower, "指数"@)
            || occurs(lower, "etf"@) || occurs(lower, "联接"@) || occurs(lower, "指数增强"@),
        pure_index_fund(t, lower) <==> !occurs(lower, "指数增强"@) && (t == "006"@ || t == "008"@ || t
            == "009"@ || occurs(lower, "指数"@) || occurs(lower, "etf"@) || occurs(lower, "联接"@)),
{
}

/// A fund that follows an index follows the stored one where there is one, white space round it left
/// out, else the one it is measured against; any other fund follows none.
pub proof fn law_followed_index(t: Seq<char>, lower: Seq<char>, stored: Seq<char>)
    ensures
        !index_fund(t, lower) ==> tracked_index(t, lower, stored) is None,
        index_fund(t, lower) && trimmed(stored).len() > 0 ==> tracked_index(t, lower, stored) == Some(
            (trimmed(stored), digits_in(trimmed(stored)), trimmed(stored)),
        ),
        index_fund(t, lower) && trimmed(stored).len() == 0 ==> tracked_index(t, lower, stored) == Some(
            benchmark(t, lower),
        ),
{
}

/// The digits of a text are those of its characters from `0` to `9`, all of them and in their order.
pub proof fn law_digits_of_a_text(s: Seq<char>, c: char)
    ensures
        digits_in(Seq::empty()).len() == 0,
        '0' <= c && c <= '9' ==> digits_in(s.push(c)) == digits_in(s).push(c),
        !('0' <= c && c <= '9') ==> digits_in(s.push(c)) == digits_in(s),
{
    reveal(Seq::filter);
    assert(s.push(c).drop_last() =~= s);
}

/// The asset class of every type, and its name.
pub proof fn law_asset_classes(t: Seq<char>)
    ensures
        t == "001"@ || t == "006"@ || t == "007"@ || t == "008"@ || t == "009"@ ==> category(t)
            == "equity"@,
        t == "004"@ || t == "005"@ ==> category(t) == "fixed"@,
        t == "002"@ ==> category(t) == "money"@,
        t == "003"@ ==> category(t) == "qdii"@,
        t != "001"@ && t != "002"@ && t != "003"@ && t != "004"@ && t != "005"@ && t != "006"@ && t
            != "007"@ && t != "008"@ && t != "009"@ ==> category(t) == "other"@,
        category_label("equity"@) == "权益类"@,
        category_label("fixed"@) == "固收类"@,
        category_label("money"@) == "货币类"@,
        category_label("qdii"@) == "QDII"@,
        t != "equity"@ && t != "fixed"@ && t != "money"@ && t != "qdii"@ ==> category_label(t)
            == "其他"@,
{
    reveal_strlit("001");
    reveal_strlit("002");
    reveal_strlit("003");
    reveal_strlit("004");
    reveal_strlit("005");
    reveal_strlit("006");
    reveal_strlit("007");
    reveal_strlit("008");
    reveal_strlit("009");
    reveal_strlit("equity");
    reveal_strlit("fixed");
    reveal_strlit("money");
    reveal_strlit("qdii");
    assert("001"@[2] == '1' && "002"@[2] == '2' && "003"@[2] == '3' && "004"@[2] == '4' && "005"@[2]
        == '5' && "006"@[2] == '6' && "007"@[2] == '7' && "008"@[2] == '8' && "009"@[2] == '9');
    assert("equity"@.len() == 6 && "fixed"@.len() == 5 && "money"@.len() == 5 && "qdii"@.len() == 4);
    assert("fixed"@[0] == 'f' && "money"@[0] == 'm');
}

/// The type code of a description: the first of these words decides, funds that link to others first.
pub proof fn law_type_of_a_description(s: Seq<char>)
    ensures
        occurs(s, "联接"@) || occurs(s, "ETF联接"@) ==> type_code(s) == "009"@,
        !occurs(s, "联接"@) && !occurs(s, "ETF联接"@) ==> type_code(s) == (if occurs(s, "指数"@) {
            "008"@
        } else if occurs(s, "股票"@) {
            "001"@
        } else if occurs(s, "混合"@) {
            "007"@
        } else if occurs(s, "债券"@) {
            "004"@
        } else if occurs(s, "货币"@) {
            "002"@
        } else if occurs(s, "QDII"@) {
            "003"@
        } else {
            "000"@
        }),
{
}

/// A cleaned name keeps the Chinese characters, the ASCII letters and the digits, in their order, and
/// nothing else.
pub proof fn law_cleaned_names(s: Seq<char>, c: char)
    ensures
        cleaned(Seq::empty()).len() == 0,
        ('\u{4e00}' <= c && c <= '\u{9fff}') || ('a' <= c && c <= 'z') || ('A' <= c && c <= 'Z') || (
        '0' <= c && c <= '9') ==> cleaned(s.push(c)) == cleaned(s).push(c),
        !(('\u{4e00}' <= c && c <= '\u{9fff}') || ('a' <= c && c <= 'z') || ('A' <= c && c <= 'Z') || (
        '0' <= c && c <= '9')) ==> cleaned(s.push(c)) == cleaned(s),
{
    reveal(Seq::filter);
    assert(s.push(c).drop_last() =~= s);
}

/// Equal names match best. A name of at least six bytes that stands within a longer one of at least six
/// characters matches next, then one that holds such a name; the more bytes in common, the better. Names
/// neither of which stands within the other do not match.
pub proof fn law_name_matches(l: Seq<char>, q: Seq<char>, r: Seq<char>)
    requires
        l.len() + r.len() > 0,
    ensures
        name_score(q, q) == 1000 + encode_utf8(q).len(),
        encode_utf8(q).len() >= 6 && l.len() + q.len() + r.len() >= 6 ==> name_score(q, l + q + r)
            == 500 + encode_utf8(q).len(),
        encode_utf8(q).len() >= 6 && l.len() + q.len() + r.len() >= 6 ==> name_score(l + q + r, q)
            == 400 + encode_utf8(q).len(),
        encode_utf8(q).len() < 6 || l.len() + q.len() + r.len() < 6 ==> name_score(q, l + q + r) == 0
            && name_score(l + q + r, q) == 0,
        !occurs(q, l) && !occurs(l, q) ==> name_score(q, l) == 0,
{
    law_occurrence(l, q, r, q, 0);
    assert((l + q + r).len() == l.len() + q.len() + r.len());
    assert(l + q + r != q);
    assert(!occurs(q, l + q + r)) by {
        if occurs(q, l + q + r) {
            let i = choose|i: int| #[trigger] occurs_at(q, l + q + r, i);
            assert(false);
        }
    }
    if q == l {
        assert(q.subrange(0, q.len() as int) =~= q);
        assert(occurs_at(q, l, 0));
    }
}

/// Of the aliases the first whose cleaned name is the given one counts.
pub proof fn law_first_alias_counts(
    t: Seq<(&'static str, &'static str)>,
    q: Seq<char>,
    from: int,
    j: int,
)
    requires
        0 <= from <= j <= t.len(),
        forall|i: int| from <= i < j ==> cleaned((#[trigger] t[i]).0@) != q,
        j < t.len() ==> cleaned(t[j].0@) == q,
    ensures
        j < t.len() ==> alias_code(t, q, from) == Some(t[j].1@),
        j == t.len() ==> alias_code(t, q, from) is None,
    decreases j - from,
{
    if from < j {
        assert(cleaned(t[from].0@) != q);
        law_first_alias_counts(t, q, from + 1, j);
    }
}

/// A name is looked up exactly where something of it is left when cleaned and no alias has it.
pub proof fn law_names_to_look_up(name: Seq<char>)
    ensures
        to_look_up(name) <==> cleaned(name).len() > 0 && alias_code(fund_aliases(), cleaned(name), 0) is None,
{
}

// ---------------------------------------------------------------------------
// Replies
// ---------------------------------------------------------------------------

/// The fund of a search is one of the reply with a code of six digits, and none with such a code matches
/// better; nothing is found only where none matches and the first has no such code.
pub proof fn law_search_result(q: Seq<char>, funds: Seq<FoundView>, r: Option<Seq<char>>, j: int) -> (i: int)
    requires
        is_search_result(q, funds, r),
        0 <= j < funds.len(),
    ensures
        r is Some ==> 0 <= i < funds.len() && r->Some_0 == funds[i].code && funds[i].code.len() == 6 && (
        forall|k: int|
            0 <= k < 6 ==> '0' <= (#[trigger] funds[i].code[k]) && funds[i].code[k] <= '9'),
        r is Some && digits_n(funds[j].code, 6) ==> name_score(q, cleaned(funds[j].name))
            <= name_score(q, cleaned(funds[i].name)) || name_score(q, cleaned(funds[j].name)) == 0,
        r is Some && j < i ==> name_score(q, cleaned(funds[j].name)) < name_score(
            q,
            cleaned(funds[i].name),
        ) || !digits_n(funds[j].code, 6),
        r is None ==> !digits_n(funds[0].code, 6) && (digits_n(funds[j].code, 6) ==> name_score(
            q,
            cleaned(funds[j].name),
        ) <= 0),
{
    law_digits(funds[j].code, 6);
    if exists|i: int| #[trigger] best_match(q, funds, i) {
        let i = choose|i: int| #[trigger] best_match(q, funds, i) && r == Some(funds[i].code);
        assert(found_score(q, funds, j) <= found_score(q, funds, i));
        law_digits(funds[i].code, 6);
        i
    } else {
        law_digits(funds[0].code, 6);
        if digits_n(funds[j].code, 6) && name_score(q, cleaned(funds[j].name)) > 0 {
            let b = lemma_some_best(q, funds, funds.len() as int, j);
            assert(best_match(q, funds, b));
        }
        0
    }
}

proof fn lemma_some_best(q: Seq<char>, funds: Seq<FoundView>, n: int, j: int) -> (b: int)
    requires
        0 <= j < n <= funds.len(),
        found_score(q, funds, j) > 0,
    ensures
        0 <= b < n,
        found_score(q, funds, b) > 0,
        forall|k: int| 0 <= k < n ==> #[trigger] found_score(q, funds, k) <= found_score(q, funds, b),
        forall|k: int| 0 <= k < b ==> #[trigger] found_score(q, funds, k) < found_score(q, funds, b),
    decreases n,
{
    let last = n - 1;
    if exists|k: int| 0 <= k < last && #[trigger] found_score(q, funds, k) > 0 {
        let k = choose|k: int| 0 <= k < last && #[trigger] found_score(q, funds, k) > 0;
        let b = lemma_some_best(q, funds, last, k);
        if found_score(q, funds, last) > found_score(q, funds, b) {
            last
        } else {
            b
        }
    } else {
        last
    }
}

/// Only an entry with the code of the fund gives its type: that of its description, else `003` where its
/// category is of Hong Kong or of funds abroad. The first entry that gives one counts.
pub proof fn law_type_in_a_reply(code: Seq<char>, funds: Seq<FoundView>, from: int, j: int, f: FoundView)
    requires
        0 <= from <= j <= funds.len(),
        forall|i: int| from <= i < j ==> type_given(code, #[trigger] funds[i]) is None,
        j < funds.len() ==> type_given(code, funds[j]) is Some,
    ensures
        j < funds.len() ==> type_from(code, funds, from) == type_given(code, funds[j]),
        j == funds.len() ==> type_from(code, funds, from) is None,
        f.code != code ==> type_given(code, f) is None,
        f.code == code && f.ftype is Some ==> type_given(code, f) == Some(type_code(f.ftype->Some_0)),
        f.code == code && f.ftype is None && f.category is Some && (occurs(f.category->Some_0, "香港"@)
            || occurs(f.category->Some_0, "QDII"@)) ==> type_given(code, f) == Some("003"@),
        f.code == code && f.ftype is None && (f.category is None || !occurs(f.category->Some_0, "香港"@)
            && !occurs(f.category->Some_0, "QDII"@)) ==> type_given(code, f) is None,
    decreases j - from,
{
    if from < j {
        assert(type_given(code, funds[from]) is None);
        law_type_in_a_reply(code, funds, from + 1, j, f);
    }
}

/// The funds of a reply are all items of its list, each with the fields at their places.
pub proof fn law_funds_of_a_reply(d: Doc, i: int)
    requires
        d.2.contains_key("/Datas"@),
        0 <= i < d.2["/Datas"@],
    ensures
        found_in(Some(d)) matches Some(v) && v.len() == d.2["/Datas"@] && v[i].name == text_or_empty(
            d,
            "/Datas"@ + "/"@ + decimal_of(i as nat) + "/NAME"@,
        ) && v[i].code == text_or_empty(d, "/Datas"@ + "/"@ + decimal_of(i as nat) + "/CODE"@) && (
        d.0.contains_key("/Datas"@ + "/"@ + decimal_of(i as nat) + "/FundBaseInfo/FTYPE"@) ==> v[i].ftype
            == Some(d.0["/Datas"@ + "/"@ + decimal_of(i as nat) + "/FundBaseInfo/FTYPE"@])) && (
        d.0.contains_key("/Datas"@ + "/"@ + decimal_of(i as nat) + "/CATEGORYDESC"@) ==> v[i].category
            == Some(d.0["/Datas"@ + "/"@ + decimal_of(i as nat) + "/CATEGORYDESC"@])),
        found_in(None) is None,
{
}

/// The official value of a reply is the first of its list, with the second as the one before it; a reply
/// without a list, with an empty one, or whose first item has no value has none.
pub proof fn law_official_values(d: Doc)
    ensures
        !d.2.contains_key("/Data/LSJZList"@) ==> official_in(Some(d)) is None,
        d.2.contains_key("/Data/LSJZList"@) && d.2["/Data/LSJZList"@] == 0 ==> official_in(
            Some(d),
        ) is None,
        official_in(Some(d)) matches Some(p) ==> official_at(d, 0) == Some(p.0)
            && d.2["/Data/LSJZList"@] > 0 && (d.2["/Data/LSJZList"@] == 1 ==> p.1 is None) && (
        d.2["/Data/LSJZList"@] > 1 ==> p.1 == official_at(d, 1)),
        d.2.contains_key("/Data/LSJZList"@) && d.2["/Data/LSJZList"@] > 0 && official_at(
            d,
            0,
        ) is Some ==> official_in(Some(d)) is Some,
        forall|i: int|
            #![trigger official_at(d, i)]
            ({
                let at = "/Data/LSJZList"@ + "/"@ + decimal_of(i as nat);
                &&& official_at(d, i) is Some <==> d.0.contains_key(at + "/DWJZ"@)
                &&& official_at(d, i) matches Some(v) ==> v.0 == d.0[at + "/DWJZ"@] && v.1
                    == text_or_empty(d, at + "/FSRQ"@) && v.2 == text_or_empty(d, "/Data/FundType"@)
            }),
        official_in(None) is None,
{
}

/// The points of a history are the items with a date of at least ten characters and a value, all of them
/// and in their order; value and sum are texts or numbers, white space round them left out.
pub proof fn law_points_of_a_history(d: Doc, n: int)
    requires
        n >= 0,
    ensures
        dated_points(d, 0).len() == 0,
        point_at(d, n).date.len() >= 10 && point_at(d, n).nav.len() > 0 ==> dated_points(d, n + 1)
            == dated_points(d, n).push(point_at(d, n)),
        point_at(d, n).date.len() < 10 || point_at(d, n).nav.len() == 0 ==> dated_points(d, n + 1)
            == dated_points(d, n),
        point_at(d, n).date == text_or_empty(
            d,
            "/Data/LSJZList"@ + "/"@ + decimal_of(n as nat) + "/FSRQ"@,
        ),
        point_at(d, n).nav == trimmed(
            text_or_number(d, "/Data/LSJZList"@ + "/"@ + decimal_of(n as nat) + "/DWJZ"@),
        ),
        point_at(d, n).acc == trimmed(
            text_or_number(d, "/Data/LSJZList"@ + "/"@ + decimal_of(n as nat) + "/LJJZ"@),
        ),
{
}

/// An estimate needs the estimated value and the value of the day before.
pub proof fn law_estimates(d: Doc)
    ensures
        estimate_in(None) is None,
        d.0.contains_key("/gsz"@) && d.0.contains_key("/dwjz"@) ==> estimate_in(Some(d)) == Some(
            (d.0["/gsz"@], d.0["/dwjz"@], text_or_empty(d, "/gztime"@)),
        ),
        !(d.0.contains_key("/gsz"@) && d.0.contains_key("/dwjz"@)) ==> estimate_in(Some(d)) is None,
{
}

/// A reply that does not begin with `jsonpgz(`, white space before it left out, holds no document.
pub proof fn law_unwrapped_document(body: Seq<char>)
    ensures
        !begins(trimmed(body), "jsonpgz("@) ==> jsonp_inner(body) is None,
        begins(trimmed(body), "jsonpgz("@) ==> jsonp_inner(body) is Some,
        jsonp_inner(body) == jsonp_inner(trimmed(body)),
{
    law_trim_twice(body);
}

/// What stands within `jsonpgz(` and `)` is the document, with or without a semicolon behind.
pub proof fn law_wrapped_document(s: Seq<char>)
    requires
        s.len() > 0,
        !white(s[0]),
        !white(s.last()),
    ensures
        jsonp_inner("jsonpgz("@ + s + ")"@) == Some(s),
        jsonp_inner("jsonpgz("@ + s + ")"@ + ";"@) == Some(s),
{
    reveal_strlit("jsonpgz(");
    reveal_strlit(")");
    reveal_strlit(";");
    let p = "jsonpgz("@;
    let c = ")"@;
    let e = ";"@;
    assert(p.len() == 8 && p[0] == 'j');
    assert(c.len() == 1 && c[0] == ')' && e.len() == 1 && e[0] == ';');
    let a = p + s + c;
    let b = a + e;
    law_trim_takes_the_ends(Seq::empty(), a, Seq::empty());
    law_trim_takes_the_ends(Seq::empty(), b, Seq::empty());
    law_trim_takes_the_ends(Seq::empty(), s, Seq::empty());
    assert(Seq::<char>::empty() + a + Seq::<char>::empty() =~= a);
    assert(Seq::<char>::empty() + b + Seq::<char>::empty() =~= b);
    assert(Seq::<char>::empty() + s + Seq::<char>::empty() =~= s);
    assert(a.subrange(0, 8) =~= p);
    assert(b.subrange(0, 8) =~= p);
    let x = a.skip(8);
    let y = b.skip(8);
    assert(x =~= s + c);
    assert(y =~= s + c + e);
    assert(x.subrange(x.len() - 1, x.len() as int)[0] == ')');
    assert(y.subrange(y.len() - 1, y.len() as int) =~= e);
    assert(y.take(y.len() - 1) =~= s + c);
    assert(x.subrange(x.len() - 1, x.len() as int) =~= c);
    assert(x.take(x.len() - 1) =~= s);
}

// ---------------------------------------------------------------------------
// Quotes
// ---------------------------------------------------------------------------

/// What stands between two double quotes is read, from the first of them on.
pub proof fn law_quoted_text(l: Seq<char>, x: Seq<char>, r: Seq<char>, from: int)
    requires
        0 <= from <= l.len(),
        forall|i: int| from <= i < l.len() ==> (#[trigger] l[i]) != '"',
        forall|i: int| 0 <= i < x.len() ==> (#[trigger] x[i]) != '"',
    ensures
        quoted_from(l + seq!['"'] + x + seq!['"'] + r, from) == Some(x),
{
    let s = l + seq!['"'] + x + seq!['"'] + r;
    let a = l.len() as int;
    let b = a + 1 + x.len();
    assert forall|i: int| from <= i < a implies (#[trigger] s[i]) != '"' by {
        assert(s[i] == l[i]);
    }
    assert forall|i: int| a < i < b implies (#[trigger] s[i]) != '"' by {
        assert(s[i] == x[i - a - 1]);
    }
    lemma_quote_found(s, from, a);
    lemma_quote_found(s, a + 1, b);
    assert(s.subrange(a + 1, b) =~= x);
}

proof fn lemma_quote_found(s: Seq<char>, from: int, k: int)
    requires
        0 <= from <= k < s.len(),
        s[k] == '"',
        forall|i: int| from <= i < k ==> (#[trigger] s[i]) != '"',
    ensures
        find_from(s, "\""@, from) == Some(k),
{
    reveal_strlit("\"");
    let p = "\""@;
    assert(p.len() == 1 && p[0] == '"');
    assert(s.subrange(k, k + 1)[0] == '"');
    assert(s.subrange(k, k + 1) =~= p);
    law_search_is_first(s, p, from, k);
    let i = find_from(s, p, from)->Some_0;
    assert(s.subrange(i, i + 1)[0] == s[i]);
}

/// A line of a reply that begins with `v_`, and whose quoted text has at least five fields, is the quote
/// of the digits before its equals sign: the second field is the name, the fourth the price and the fifth
/// the close of the day before.
pub proof fn law_quote_line(line: Seq<char>, eq: int, payload: Seq<char>)
    requires
        trimmed(line) == line,
        begins(line, "v_"@),
        find_from(line, "="@, 0) == Some(eq),
        quoted_from(line, eq + 1) == Some(payload),
    ensures
        ({
            let code = digits_in(line.take(eq));
            let parts = split_seq(payload, "~"@);
            &&& code.len() > 0 && parts.len() >= 5 ==> (quote_in(line) matches Some(q) && q.code == code
                && q.name == parts[1] && q.price == parts[3] && q.prev == parts[4])
            &&& code.len() == 0 || parts.len() < 5 ==> quote_in(line) is None
        }),
{
}

/// A line without the mark, without an equals sign or without a quoted text is no quote; the quotes of a
/// reply are those of its lines, in their order.
pub proof fn law_quotes_of_a_reply(lines: Seq<Seq<char>>, line: Seq<char>)
    ensures
        quote_in(line) == quote_in(trimmed(line)),
        !begins(trimmed(line), "v_"@) ==> quote_in(line) is None,
        forall|eq: int|
            find_from(trimmed(line), "="@, 0) == Some(eq) && #[trigger] quoted_from(
                trimmed(line),
                eq + 1,
            ) is None ==> quote_in(line) is None,
        find_from(trimmed(line), "="@, 0) is None ==> quote_in(line) is None,
        quotes_in(Seq::empty()).len() == 0,
        quote_in(line) matches Some(q) ==> quotes_in(lines.push(line)) == quotes_in(lines).push(q),
        quote_in(line) is None ==> quotes_in(lines.push(line)) == quotes_in(lines),
{
    law_trim_twice(line);
    assert(lines.push(line).drop_last() =~= lines);
    assert(lines.push(line).last() == line);
}

/// The quote of an index stands behind its mark, up to the next double quote: the second field is the
/// name, the fourth the close of the day before and the seventh the price. Its code is the symbol without
/// `hk`.
pub proof fn law_index_quote(line: Seq<char>, sym: Seq<char>, i: int, j: int)
    requires
        find_from(line, "hq_str_"@ + sym + "=\""@, 0) == Some(i),
        find_from(line, "\""@, i + ("hq_str_"@ + sym + "=\""@).len()) == Some(j),
    ensures
        ({
            let parts = split_seq(line.subrange(i + ("hq_str_"@ + sym + "=\""@).len(), j), ","@);
            &&& parts.len() >= 7 ==> (index_quote_in(line, sym) matches Some(q) && q.name == parts[1]
                && q.prev == parts[3] && q.price == parts[6] && q.code == without_leading(sym, "hk"@))
            &&& parts.len() < 7 ==> index_quote_in(line, sym) is None
        }),
{
}

/// A line without the mark of an index, or without a double quote behind it, holds no quote of it.
pub proof fn law_no_index_quote(line: Seq<char>, sym: Seq<char>)
    ensures
        find_from(line, "hq_str_"@ + sym + "=\""@, 0) is None ==> index_quote_in(line, sym) is None,
        find_from(line, "hq_str_"@ + sym + "=\""@, 0) matches Some(i) ==> (find_from(
            line,
            "\""@,
            i + ("hq_str_"@ + sym + "=\""@).len(),
        ) is None ==> index_quote_in(line, sym) is None),
{
}

/// A symbol loses every `hk` before it, and nothing else.
pub proof fn law_symbol_loses_its_market(s: Seq<char>)
    ensures
        without_leading("hk"@ + s, "hk"@) == without_leading(s, "hk"@),
        !begins(s, "hk"@) ==> without_leading(s, "hk"@) == s,
{
    reveal_strlit("hk");
    let p = "hk"@;
    assert((p + s).subrange(0, 2) =~= p);
    assert((p + s).skip(2) =~= s);
}

/// The official value of a fund in the line of the fallback service: of at least nine fields the sixth is
/// the value, the ninth its date, which must not be blank, and the eighth the change.
pub proof fn law_fund_line(line: Seq<char>, eq: int, payload: Seq<char>)
    requires
        find_from(line, "="@, 0) == Some(eq),
        quoted_from(line, eq + 1) == Some(payload),
    ensures
        ({
            let parts = split_seq(payload, "~"@);
            &&& parts.len() >= 9 && trimmed(parts[8]).len() > 0 ==> nav_in_line(line) == Some(
                (parts[5], trimmed(parts[8]), parts[7]),
            )
            &&& parts.len() < 9 || trimmed(parts[8]).len() == 0 ==> nav_in_line(line) is None
        }),
{
}

/// The line of a fund is the first that begins with its mark, white space before it left out.
pub proof fn law_first_fund_line(lines: Seq<Seq<char>>, j: int)
    requires
        0 <= j <= lines.len(),
        forall|i: int| 0 <= i < j ==> !begins(trim_left(#[trigger] lines[i]), "v_jj"@),
        j < lines.len() ==> begins(trim_left(lines[j]), "v_jj"@),
    ensures
        j < lines.len() ==> fund_line(lines) == Some(lines[j]),
        j == lines.len() ==> fund_line(lines) is None,
    decreases lines.len(),
{
    if j > 0 {
        assert(!begins(trim_left(lines[0]), "v_jj"@));
        assert forall|i: int| 0 <= i < j - 1 implies !begins(
            trim_left(#[trigger] lines.skip(1)[i]),
            "v_jj"@,
        ) by {
            assert(lines.skip(1)[i] == lines[i + 1]);
        }
        law_first_fund_line(lines.skip(1), j - 1);
    }
}

// ---------------------------------------------------------------------------
// Imports
// ---------------------------------------------------------------------------

/// A row is looked up exactly where its code is not six digits, and, where rows without a name are
/// passed over, it has one.
pub proof fn law_rows_to_look_up(row: ScannedRow, skip_nameless: bool)
    ensures
        ({
            let real_code = row.code@.len() == 6 && forall|i: int|
                0 <= i < row.code@.len() ==> '0' <= (#[trigger] row.code@[i]) && row.code@[i] <= '9';
            &&& real_code ==> !lacks_code(row, skip_nameless)
            &&& !real_code && row.name@.len() > 0 ==> lacks_code(row, skip_nameless)
            &&& !real_code && row.name@.len() == 0 ==> (lacks_code(row, skip_nameless) <==> !skip_nameless)
        }),
{
    law_digits(row.code@, 6);
}

/// A row that is looked up gets the code that its name was last found with, and counts as real then; it
/// keeps its own code otherwise.
pub proof fn law_completed_rows(
    row: ScannedRow,
    found: Seq<(String, Option<String>)>,
    skip_nameless: bool,
    j: int,
)
    requires
        -1 <= j < found.len(),
        forall|i: int| j < i < found.len() ==> (#[trigger] found[i]).0@ != row.name@,
        j >= 0 ==> found[j].0@ == row.name@,
    ensures
        lacks_code(row, skip_nameless) && j >= 0 && found[j].1 is Some ==> completed(
            row,
            found,
            skip_nameless,
        ) == (found[j].1->Some_0@, true),
        lacks_code(row, skip_nameless) && (j < 0 || found[j].1 is None) ==> completed(
            row,
            found,
            skip_nameless,
        ) == (row.code@, false),
        !lacks_code(row, skip_nameless) ==> completed(row, found, skip_nameless).0 == row.code@,
        !lacks_code(row, skip_nameless) ==> (completed(row, found, skip_nameless).1 <==> digits_n(
            row.code@,
            6,
        )),
{
    lemma_last_found(found, row.name@, found.len() as int, j);
}

proof fn lemma_last_found(found: Seq<(String, Option<String>)>, name: Seq<char>, n: int, j: int)
    requires
        -1 <= j < n <= found.len() || (j == -1 && n == 0),
        forall|i: int| j < i < n ==> (#[trigger] found[i]).0@ != name,
        j >= 0 ==> found[j].0@ == name,
    ensures
        j >= 0 && found[j].1 is Some ==> found_code(found, name, n) == Some(found[j].1->Some_0@),
        j < 0 || found[j].1 is None ==> found_code(found, name, n) is None,
    decreases n,
{
    if n > 0 && j < n - 1 {
        assert(found[n - 1].0@ != name);
        lemma_last_found(found, name, n - 1, j);
    }
}

/// The names of the three types of transactions, in English and in Chinese; any other name is none.
pub proof fn law_names_of_types(t: Seq<char>)
    ensures
        t == "buy"@ || t == "买入"@ || t == "申购"@ || t == "买进"@ ==> type_of_txn(t) == Some("buy"@),
        t == "sell"@ || t == "卖出"@ || t == "赎回"@ ==> type_of_txn(t) == Some("sell"@),
        t == "dividend"@ || t == "分红"@ || t == "现金分红"@ ==> type_of_txn(t) == Some("dividend"@),
        t != "buy"@ && t != "买入"@ && t != "申购"@ && t != "买进"@ && t != "sell"@ && t != "卖出"@ && t
            != "赎回"@ && t != "dividend"@ && t != "分红"@ && t != "现金分红"@ ==> type_of_txn(t) is None,
{
    reveal_strlit("buy");
    reveal_strlit("买入");
    reveal_strlit("申购");
    reveal_strlit("买进");
    reveal_strlit("sell");
    reveal_strlit("卖出");
    reveal_strlit("赎回");
    reveal_strlit("dividend");
    reveal_strlit("分红");
    reveal_strlit("现金分红");
    assert("buy"@.len() == 3 && "sell"@.len() == 4 && "dividend"@.len() == 8 && "现金分红"@.len() == 4);
    assert("买入"@.len() == 2 && "申购"@.len() == 2 && "买进"@.len() == 2 && "卖出"@.len() == 2
        && "赎回"@.len() == 2 && "分红"@.len() == 2);
    assert("买入"@[0] == '买' && "申购"@[0] == '申' && "买进"@[0] == '买' && "卖出"@[0] == '卖'
        && "赎回"@[0] == '赎' && "分红"@[0] == '分');
    assert("sell"@[0] == 's' && "现金分红"@[0] == '现');
}

/// A transaction in normal form has each text of the one imported, white space round it left out, an
/// empty time where there was none, and the platform of the import.
pub proof fn law_normal_transactions(it: TxnIn, lower: Seq<char>, platform: Seq<char>, t: TxnText)
    requires
        normal_form(it, lower, platform, t),
    ensures
        type_of_txn(lower) == Some(t.txn_type@),
        t.fund_code@ == trimmed(it.fund_code@),
        t.txn_date@ == trimmed(it.txn_date@),
        t.platform@ == platform,
        it.txn_time is Some ==> t.txn_time@ == trimmed(it.txn_time->Some_0@),
        it.txn_time is None ==> t.txn_time@.len() == 0,
        it.fund_name is Some ==> t.fund_name is Some && t.fund_name->Some_0@ == trimmed(
            it.fund_name->Some_0@,
        ),
        it.fund_name is None ==> t.fund_name is None,
        it.note is Some ==> t.note is Some && t.note->Some_0@ == trimmed(it.note->Some_0@),
        it.note is None ==> t.note is None,
        type_key(it) == crate::funds::lowercase_of(trimmed(it.txn_type@)),
{
}

/// The ending of a path is what follows its last dot; a path without a dot is its own ending.
pub proof fn law_ending_of_a_path(a: Seq<char>, ext: Seq<char>)
    requires
        forall|i: int| 0 <= i < ext.len() ==> (#[trigger] ext[i]) != '.',
    ensures
        after_last_dot(a + seq!['.'] + ext) == ext,
        after_last_dot(ext) == ext,
    decreases a.len(),
{
    let s = a + seq!['.'] + ext;
    assert(s[a.len() as int] == '.');
    assert(s.contains('.'));
    assert(!ext.contains('.'));
    let k = s.index_of('.');
    assert(0 <= k < s.len() && s[k] == '.');
    if k > a.len() {
        assert(s[k] == ext[k - a.len() - 1]);
    }
    assert(after_last_dot(ext) == ext);
    assert(after_last_dot(s) == after_last_dot(s.skip(k + 1)));
    if k == a.len() {
        assert(s.skip(k + 1) =~= ext);
    } else {
        assert(s.skip(k + 1) =~= a.skip(k + 1) + seq!['.'] + ext);
        law_ending_of_a_path(a.skip(k + 1), ext);
    }
}

/// The kind of picture that each ending stands for; any other ending stands for a PNG.
pub proof fn law_kinds_of_pictures(e: Seq<char>)
    ensures
        e == "jpg"@ || e == "jpeg"@ ==> mime_of(e) == "image/jpeg"@,
        e == "bmp"@ ==> mime_of(e) == "image/bmp"@,
        e == "webp"@ ==> mime_of(e) == "image/webp"@,
        e == "gif"@ ==> mime_of(e) == "image/gif"@,
        e != "jpg"@ && e != "jpeg"@ && e != "bmp"@ && e != "webp"@ && e != "gif"@ ==> mime_of(e)
            == "image/png"@,
{
    reveal_strlit("jpg");
    reveal_strlit("jpeg");
    reveal_strlit("bmp");
    reveal_strlit("webp");
    reveal_strlit("gif");
    assert("jpg"@.len() == 3 && "jpeg"@.len() == 4 && "bmp"@.len() == 3 && "webp"@.len() == 4
        && "gif"@.len() == 3);
    assert("jpg"@[0] == 'j' && "jpeg"@[0] == 'j' && "bmp"@[0] == 'b' && "webp"@[0] == 'w' && "gif"@[0]
        == 'g');
}

/// What is told of pictures: that the engine is missing, that lines but no records were found, or how
/// many were, in this order.
pub proof fn law_notes_on_pictures(lines: nat, found: nat, stored: nat)
    ensures
        holdings_note(false, lines, found, stored) == txns_note(false, lines, found),
        holdings_note(true, lines, 0, stored) == (if lines > 0 {
            "OCR 已识别 "@ + decimal_of(lines)
                + " 行文本，但未匹配到基金持仓。可在下方「OCR 原始文本」查看，并把内容发我以微调列定位。"@
        } else {
            holdings_note(true, 0, 0, stored)
        }),
        found > 0 || lines == 0 ==> holdings_note(true, lines, found, stored)
            == "本地 PaddleOCR 识别完成：识别 "@ + decimal_of(found) + " 条持仓，已写入 "@ + decimal_of(
            stored,
        ) + " 只基金（可在总览页查看，随后刷新行情/披露即可估值）。"@,
        found > 0 || lines == 0 ==> txns_note(true, lines, found)
            == "本地 PaddleOCR 识别完成：识别 "@ + decimal_of(found)
            + " 条交易记录（买/卖/分红）。请核对下方预览（类型/日期/份额/金额/价格均可手改），确认后点「导入交易记录」写入真实流水。"@,
        lines > 0 ==> txns_note(true, lines, 0) == "OCR 已识别 "@ + decimal_of(lines)
            + " 行文本，但未匹配到交易记录。可在下方「OCR 原始文本」核对，并把截图发我以微调列定位。"@,
{
}

/// Every row without a code has its name looked up, once, and no other name is.
pub proof fn law_names_looked_up(rows: Seq<ScannedRow>, skip_nameless: bool, row: ScannedRow)
    ensures
        names_of(Seq::empty(), skip_nameless).len() == 0,
        !lacks_code(row, skip_nameless) || names_of(rows, skip_nameless).contains(row.name@) ==> names_of(
            rows.push(row),
            skip_nameless,
        ) == names_of(rows, skip_nameless),
        lacks_code(row, skip_nameless) && !names_of(rows, skip_nameless).contains(row.name@)
            ==> names_of(rows.push(row), skip_nameless) == names_of(rows, skip_nameless).push(row.name@),
{
    assert(rows.push(row).drop_last() =~= rows);
    assert(rows.push(row).last() == row);
}

/// A capital ASCII letter stands for the small one, any other character for itself.
pub proof fn law_small_letters(c: char)
    ensures
        'A' <= c && c <= 'Z' ==> ascii_lower(c) as u32 == c as u32 + 32,
        !('A' <= c && c <= 'Z') ==> ascii_lower(c) == c,
{
}

/// A reply is read as UTF-8 where it is that, and as GBK only where it is not.
pub proof fn law_text_of_a_reply(bytes: Seq<u8>, gbk: Seq<char>)
    ensures
        vstd::utf8::valid_utf8(bytes) ==> body_text(bytes, gbk) == vstd::utf8::decode_utf8(bytes),
        !vstd::utf8::valid_utf8(bytes) ==> body_text(bytes, gbk) == gbk,
{
}

/// A type of transaction that is not known is named in the answer.
pub proof fn law_unknown_types(lower: Seq<char>)
    ensures
        unknown_type(lower) == "不支持的交易类型："@ + lower,
{
}

/// What stands at a place of a document is the text there, else, where numbers count too, the number,
/// else nothing.
pub proof fn law_places_of_a_document(d: Doc, at: Seq<char>)
    ensures
        d.0.contains_key(at) ==> text_or_empty(d, at) == d.0[at] && text_or_number(d, at) == d.0[at],
        !d.0.contains_key(at) ==> text_or_empty(d, at).len() == 0,
        !d.0.contains_key(at) && d.1.contains_key(at) ==> text_or_number(d, at) == d.1[at],
        !d.0.contains_key(at) && !d.1.contains_key(at) ==> text_or_number(d, at).len() == 0,
{
}

/// Every symbol whose quote the reply holds is listed with it, in the order of the symbols; the official
/// value of a reply is that of its first line of a fund.
pub proof fn law_index_quotes_of_a_reply(body: Seq<char>, syms: Seq<Seq<char>>, s: Seq<char>)
    ensures
        index_quotes_in(body, Seq::empty()).len() == 0,
        index_quote_in(body, s) matches Some(q) ==> index_quotes_in(body, syms.push(s))
            == index_quotes_in(body, syms).push((s, q)),
        index_quote_in(body, s) is None ==> index_quotes_in(body, syms.push(s)) == index_quotes_in(
            body,
            syms,
        ),
        fund_line(split_seq(body, "\n"@)) matches Some(l) ==> tencent_nav(body) == nav_in_line(l),
        fund_line(split_seq(body, "\n"@)) is None ==> tencent_nav(body) is None,
        find_from(s, "="@, 0) is None ==> nav_in_line(s) is None,
{
    assert(syms.push(s).drop_last() =~= syms);
    assert(syms.push(s).last() == s);
}

} // verus!
