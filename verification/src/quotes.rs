//! Quotes: the symbols asked for and the replies of the public quote services, read as text.
use vstd::prelude::*;
use vstd::utf8::*;
use crate::funds::{digits_in, digits_of};
use crate::text::{begins, find_chars, find_from, joined, lemma_find_from, occurs_at, slice_text, split, split_seq, stands_at, starts_with, to_chars, trim, trim_left, trimmed, utf8_text, views};

verus! {

/// The text that `encoding_rs::GBK` decodes from bytes.
pub uninterp spec fn gbk_of(bytes: Seq<u8>) -> Seq<char>;

/// The text of bytes in the GBK encoding. Calls `encoding_rs::Encoding::decode` of `GBK`, which goes
/// by its tables, puts a replacement where nothing is encoded, and follows a byte order mark to
/// another encoding; its text is only named. It sets aside three bytes and a few more for each one,
/// which have to fit into memory.
#[verifier::external_body]
pub(crate) fn gbk_text(bytes: &[u8]) -> (r: String)
    requires
        bytes@.len() * 3 + 16 <= isize::MAX,
    ensures
        r@ == gbk_of(bytes@),
{
    encoding_rs::GBK.decode(bytes).0.into_owned()
}

/// The text of a reply in the GBK encoding. The text has to fit into memory.
pub fn decode_gbk(bytes: &[u8]) -> (r: String)
    requires
        bytes@.len() * 3 + 16 <= isize::MAX,
    ensures
        r@ == gbk_of(bytes@),
{
    gbk_text(bytes)
}

/// The text of a reply: as UTF-8 where it is that, else as GBK. `gbk` is what it is as GBK.
pub open spec fn body_text(bytes: Seq<u8>, gbk: Seq<char>) -> Seq<char> {
    if valid_utf8(bytes) {
        decode_utf8(bytes)
    } else {
        gbk
    }
}

/// The text of a reply whose encoding is not known. The text has to fit into memory.
pub fn decode_body(bytes: &[u8]) -> (r: String)
    requires
        bytes@.len() * 3 + 16 <= isize::MAX,
    ensures
        r@ == body_text(bytes@, gbk_of(bytes@)),
{
    match utf8_text(bytes) {
        Ok(s) => {
            proof {
                encode_utf8_decode_utf8(s@);
            }
            s
        },
        Err(_) => gbk_text(bytes),
    }
}

// ---------------------------------------------------------------------------
// Addresses
// ---------------------------------------------------------------------------

/// Joins texts with a separator between them.
pub fn join(parts: &Vec<String>, sep: &str) -> (r: String)
    ensures
        r@ == joined(views(parts@), sep@),
{
    let mut s = String::new();
    let ghost v = views(parts@);
    let mut i: usize = 0;
    assert(v.take(0) =~= Seq::<Seq<char>>::empty());
    assert(s@ =~= joined(v.take(0), sep@));
    while i < parts.len()
        invariant
            v == views(parts@),
            i <= parts@.len(),
            s@ == joined(v.take(i as int), sep@),
        decreases parts@.len() - i,
    {
        assert(v.take(i + 1).drop_last() =~= v.take(i as int));
        assert(v.take(i + 1).last() == v[i as int]);
        if i > 0 {
            s.append(sep);
        }
        s.append(parts[i].as_str());
        assert(s@ =~= joined(v.take(i + 1), sep@));
        i += 1;
    }
    assert(v.take(v.len() as int) =~= v);
    s
}

/// Address of the quotes of stocks and mainland indices.
pub fn quotes_url(symbols: &Vec<String>) -> (r: String)
    ensures
        r@ == "https://qt.gtimg.cn/q="@ + joined(views(symbols@), ","@),
{
    let mut u = "https://qt.gtimg.cn/q=".to_owned();
    u.append(join(symbols, ",").as_str());
    u
}

/// Address of the quotes of Hong Kong indices.
pub fn hk_index_url(symbols: &Vec<String>) -> (r: String)
    ensures
        r@ == "https://hq.sinajs.cn/list="@ + joined(views(symbols@), ","@),
{
    let mut u = "https://hq.sinajs.cn/list=".to_owned();
    u.append(join(symbols, ",").as_str());
    u
}

/// Address of a fund's official value at the fallback service.
pub fn tencent_nav_url(fund_code: &str) -> (r: String)
    ensures
        r@ == "https://qt.gtimg.cn/q=jj"@ + fund_code@,
{
    let mut u = "https://qt.gtimg.cn/q=jj".to_owned();
    u.append(fund_code);
    u
}

// ---------------------------------------------------------------------------
// Replies
// ---------------------------------------------------------------------------

/// What stands between the first double quote at or after `from` and the next one.
pub open spec fn quoted_from(s: Seq<char>, from: int) -> Option<Seq<char>> {
    match find_from(s, "\""@, from) {
        Some(i) => match find_from(s, "\""@, i + 1) {
            Some(j) => Some(s.subrange(i + 1, j)),
            None => None,
        },
        None => None,
    }
}

/// What stands between the first double quote at or after `from` and the next one.
fn quoted_text(s: &Vec<char>, from: usize) -> (r: Option<String>)
    ensures
        match r {
            Some(t) => quoted_from(s@, from as int) == Some(t@),
            None => quoted_from(s@, from as int) is None,
        },
{
    proof {
        reveal_strlit("\"");
    }
    let q = to_chars("\"");
    match find_chars(s, &q, from) {
        Some(i) => {
            proof {
                lemma_find_from(s@, q@, i + 1);
            }
            assert(i + q.len() <= s.len());
            match find_chars(s, &q, i + 1) {
                Some(j) => Some(slice_text(s, i + 1, j)),
                None => None,
            }
        },
        None => None,
    }
}

/// A quote as the service writes it: code, name, price and the close of the day before.
pub struct QuoteText {
    pub stock_code: String,
    pub name: String,
    pub price: String,
    pub prev_close: String,
}

/// Model of a quote.
#[verifier::ext_equal]
pub struct QuoteView {
    pub code: Seq<char>,
    pub name: Seq<char>,
    pub price: Seq<char>,
    pub prev: Seq<char>,
}

impl View for QuoteText {
    type V = QuoteView;

    open spec fn view(&self) -> QuoteView {
        QuoteView {
            code: self.stock_code@,
            name: self.name@,
            price: self.price@,
            prev: self.prev_close@,
        }
    }
}

/// The quote in a line such as `v_hk00700="100~name~00700~441.0~461.6~..."`. Its code is made of the
/// digits before the equals sign.
pub open spec fn quote_in(line: Seq<char>) -> Option<QuoteView> {
    let l = trimmed(line);
    if !begins(l, "v_"@) {
        None
    } else {
        match find_from(l, "="@, 0) {
            None => None,
            Some(eq) => {
                let code = digits_in(l.take(eq));
                match quoted_from(l, eq + 1) {
                    None => None,
                    Some(payload) => {
                        let parts = split_seq(payload, "~"@);
                        if code.len() == 0 || parts.len() < 5 {
                            None
                        } else {
                            Some(
                                QuoteView { code, name: parts[1], price: parts[3], prev: parts[4] },
                            )
                        }
                    },
                }
            },
        }
    }
}

/// The quotes in the lines of a reply, in their order.
pub open spec fn quotes_in(lines: Seq<Seq<char>>) -> Seq<QuoteView>
    decreases lines.len(),
{
    if lines.len() == 0 {
        Seq::empty()
    } else {
        let rest = quotes_in(lines.drop_last());
        match quote_in(lines.last()) {
            Some(q) => rest.push(q),
            None => rest,
        }
    }
}

/// The quote in a line, if it holds one.
pub fn parse_quote_line(line: &str) -> (r: Option<QuoteText>)
    ensures
        match r {
            Some(q) => quote_in(line@) == Some(q@),
            None => quote_in(line@) is None,
        },
{
    proof {
        reveal_strlit("=");
        reveal_strlit("~");
    }
    let trimmed_line = trim(line);
    if !starts_with(trimmed_line.as_str(), "v_") {
        return None;
    }
    let l = to_chars(trimmed_line.as_str());
    let eq_sign = to_chars("=");
    let eq = match find_chars(&l, &eq_sign, 0) {
        Some(i) => i,
        None => return None,
    };
    let code = digits_of(slice_text(&l, 0, eq).as_str());
    assert(l@.subrange(0, eq as int) =~= l@.take(eq as int));
    assert(eq + eq_sign.len() <= l.len());
    match quoted_text(&l, eq + 1) {
        None => None,
        Some(payload) => {
            let parts = split(payload.as_str(), "~");
            if code.as_str().is_empty() || parts.len() < 5 {
                return None;
            }
            assert(views(parts@)[1] == parts@[1]@ && views(parts@)[3] == parts@[3]@ && views(
                parts@,
            )[4] == parts@[4]@);
            Some(
                QuoteText {
                    stock_code: code,
                    name: parts[1].clone(),
                    price: parts[3].clone(),
                    prev_close: parts[4].clone(),
                },
            )
        },
    }
}

/// The quotes in a reply of the stock quote service. Where a code occurs twice the later quote is
/// the one that counts.
pub fn parse_quotes(body: &str) -> (r: Vec<QuoteText>)
    ensures
        r@.map_values(|q: QuoteText| q@) == quotes_in(split_seq(body@, "\n"@)),
{
    proof {
        reveal_strlit("\n");
    }
    let lines = split(body, "\n");
    let ghost lv = views(lines@);
    let mut out: Vec<QuoteText> = Vec::new();
    let mut i: usize = 0;
    assert(out@.map_values(|q: QuoteText| q@) =~= quotes_in(lv.take(0)));
    while i < lines.len()
        invariant
            lv == views(lines@),
            i <= lines@.len(),
            out@.map_values(|q: QuoteText| q@) == quotes_in(lv.take(i as int)),
        decreases lines@.len() - i,
    {
        assert(lv.take(i + 1).drop_last() =~= lv.take(i as int));
        assert(lv.take(i + 1).last() == lines@[i as int]@);
        match parse_quote_line(lines[i].as_str()) {
            Some(q) => {
                let ghost before = out@;
                out.push(q);
                assert(out@.map_values(|q: QuoteText| q@) =~= before.map_values(
                    |q: QuoteText| q@,
                ).push(q@));
            },
            None => {},
        }
        i += 1;
    }
    assert(lv.take(lv.len() as int) =~= lv);
    out
}

/// `s` without every `p` at its beginning.
pub open spec fn without_leading(s: Seq<char>, p: Seq<char>) -> Seq<char>
    decreases s.len(),
{
    if p.len() > 0 && begins(s, p) {
        without_leading(s.skip(p.len() as int), p)
    } else {
        s
    }
}

/// `s` without every `p` at its beginning.
pub fn strip_leading(s: &str, p: &str) -> (r: String)
    requires
        p@.len() > 0,
    ensures
        r@ == without_leading(s@, p@),
{
    let v = to_chars(s);
    let q = to_chars(p);
    let mut i: usize = 0;
    assert(v@.skip(0) =~= v@);
    while i <= v.len() && q.len() <= v.len() - i && stands_at(&v, &q, i)
        invariant
            i <= v.len(),
            q@.len() > 0,
            without_leading(v@, q@) == without_leading(v@.skip(i as int), q@),
        decreases v.len() - i,
    {
        proof {
            let t = v@.skip(i as int);
            assert(t.subrange(0, q@.len() as int) =~= v@.subrange(i as int, i + q@.len()));
            assert(begins(t, q@));
            assert(t.skip(q@.len() as int) =~= v@.skip(i + q@.len()));
        }
        i += q.len();
    }
    proof {
        let t = v@.skip(i as int);
        if begins(t, q@) {
            assert(v@.subrange(i as int, i + q@.len()) =~= t.subrange(0, q@.len() as int));
            assert(occurs_at(v@, q@, i as int));
        }
        assert(v@.subrange(i as int, v@.len() as int) =~= t);
    }
    slice_text(&v, i, v.len())
}

/// What stands before the text of an index's quote.
pub open spec fn index_marker(sym: Seq<char>) -> Seq<char> {
    "hq_str_"@ + sym + "=\""@
}

/// The quote of a Hong Kong index in a reply: the fields behind its marker, up to the next double
/// quote, hold the name, the close of the day before and the price.
pub open spec fn index_quote_in(line: Seq<char>, sym: Seq<char>) -> Option<QuoteView> {
    match find_from(line, index_marker(sym), 0) {
        None => None,
        Some(i) => {
            let start = i + index_marker(sym).len();
            match find_from(line, "\""@, start) {
                None => None,
                Some(j) => {
                    let parts = split_seq(line.subrange(start, j), ","@);
                    if parts.len() <= 6 {
                        None
                    } else {
                        Some(
                            QuoteView {
                                code: without_leading(sym, "hk"@),
                                name: parts[1],
                                price: parts[6],
                                prev: parts[3],
                            },
                        )
                    }
                },
            }
        },
    }
}

/// The quote of a Hong Kong index in a reply, if it is there.
pub fn parse_sina_index_quote(line: &str, sym: &str) -> (r: Option<QuoteText>)
    ensures
        match r {
            Some(q) => index_quote_in(line@, sym@) == Some(q@),
            None => index_quote_in(line@, sym@) is None,
        },
{
    proof {
        reveal_strlit("\"");
        reveal_strlit(",");
        reveal_strlit("hk");
    }
    let mut marker = "hq_str_".to_owned();
    marker.append(sym);
    marker.append("=\"");
    let v = to_chars(line);
    let m = to_chars(marker.as_str());
    let start = match find_chars(&v, &m, 0) {
        Some(i) => {
            assert(i + m.len() <= v.len());
            i + m.len()
        },
        None => return None,
    };
    let q = to_chars("\"");
    proof {
        lemma_find_from(v@, q@, start as int);
    }
    let end = match find_chars(&v, &q, start) {
        Some(j) => j,
        None => return None,
    };
    let payload = slice_text(&v, start, end);
    let parts = split(payload.as_str(), ",");
    if parts.len() <= 6 {
        return None;
    }
    assert(views(parts@)[1] == parts@[1]@ && views(parts@)[3] == parts@[3]@ && views(parts@)[6]
        == parts@[6]@);
    Some(
        QuoteText {
            stock_code: strip_leading(sym, "hk"),
            name: parts[1].clone(),
            price: parts[6].clone(),
            prev_close: parts[3].clone(),
        },
    )
}

/// The quotes of the symbols that a reply holds.
pub open spec fn index_quotes_in(body: Seq<char>, syms: Seq<Seq<char>>) -> Seq<
    (Seq<char>, QuoteView),
>
    decreases syms.len(),
{
    if syms.len() == 0 {
        Seq::empty()
    } else {
        let rest = index_quotes_in(body, syms.drop_last());
        match index_quote_in(body, syms.last()) {
            Some(q) => rest.push((syms.last(), q)),
            None => rest,
        }
    }
}

/// The quotes of Hong Kong indices in a reply, each with the whole symbol asked for.
pub fn parse_hk_index_quotes(body: &str, symbols: &Vec<String>) -> (r: Vec<(String, QuoteText)>)
    ensures
        r@.map_values(|p: (String, QuoteText)| (p.0@, p.1@)) == index_quotes_in(
            body@,
            views(symbols@),
        ),
{
    let ghost sv = views(symbols@);
    let mut out: Vec<(String, QuoteText)> = Vec::new();
    let mut i: usize = 0;
    assert(out@.map_values(|p: (String, QuoteText)| (p.0@, p.1@)) =~= index_quotes_in(
        body@,
        sv.take(0),
    ));
    while i < symbols.len()
        invariant
            sv == views(symbols@),
            i <= symbols@.len(),
            out@.map_values(|p: (String, QuoteText)| (p.0@, p.1@)) == index_quotes_in(
                body@,
                sv.take(i as int),
            ),
        decreases symbols@.len() - i,
    {
        assert(sv.take(i + 1).drop_last() =~= sv.take(i as int));
        assert(sv.take(i + 1).last() == symbols@[i as int]@);
        match parse_sina_index_quote(body, symbols[i].as_str()) {
            Some(q) => {
                let ghost before = out@;
                let p = (symbols[i].clone(), q);
                out.push(p);
                assert(out@.map_values(|p: (String, QuoteText)| (p.0@, p.1@)) =~= before.map_values(
                    |p: (String, QuoteText)| (p.0@, p.1@),
                ).push((p.0@, p.1@)));
            },
            None => {},
        }
        i += 1;
    }
    assert(sv.take(sv.len() as int) =~= sv);
    out
}

/// A fund's official value as the fallback service writes it: the value, its date and the day's
/// change in percent.
pub struct NavText {
    pub nav: String,
    pub nav_date: String,
    pub change: String,
}

/// The first line that, white space before it apart, begins with the mark of a fund.
pub open spec fn fund_line(lines: Seq<Seq<char>>) -> Option<Seq<char>>
    decreases lines.len(),
{
    if lines.len() == 0 {
        None
    } else if begins(trim_left(lines[0]), "v_jj"@) {
        Some(lines[0])
    } else {
        fund_line(lines.skip(1))
    }
}

/// The fields of a fund's official value in its line: value, date and change. Without a date there
/// is none.
pub open spec fn nav_in_line(line: Seq<char>) -> Option<(Seq<char>, Seq<char>, Seq<char>)> {
    match find_from(line, "="@, 0) {
        None => None,
        Some(eq) => match quoted_from(line, eq + 1) {
            None => None,
            Some(payload) => {
                let parts = split_seq(payload, "~"@);
                if parts.len() < 9 || trimmed(parts[8]).len() == 0 {
                    None
                } else {
                    Some((parts[5], trimmed(parts[8]), parts[7]))
                }
            },
        },
    }
}

/// The fields of a fund's official value in a reply of the fallback service.
pub open spec fn tencent_nav(body: Seq<char>) -> Option<(Seq<char>, Seq<char>, Seq<char>)> {
    match fund_line(split_seq(body, "\n"@)) {
        None => None,
        Some(line) => nav_in_line(line),
    }
}

/// Whether a line, white space before it apart, begins with the mark of a fund.
fn is_fund_line(line: &str) -> (r: bool)
    ensures
        r == begins(trim_left(line@), "v_jj"@),
{
    let v = to_chars(line);
    let mut i: usize = 0;
    assert(v@.skip(0) =~= v@);
    while i < v.len() && crate::text::is_white(v[i])
        invariant
            i <= v@.len(),
            trim_left(v@) == trim_left(v@.skip(i as int)),
        decreases v@.len() - i,
    {
        assert(v@.skip(i as int).skip(1) =~= v@.skip(i + 1));
        i += 1;
    }
    let rest = slice_text(&v, i, v.len());
    assert(rest@ =~= v@.skip(i as int));
    starts_with(rest.as_str(), "v_jj")
}

/// The fields of a fund's official value in a reply of the fallback service, if they are there.
pub fn parse_tencent_fund_nav(body: &str) -> (r: Option<NavText>)
    ensures
        match r {
            Some(n) => tencent_nav(body@) == Some((n.nav@, n.nav_date@, n.change@)),
            None => tencent_nav(body@) is None,
        },
{
    proof {
        reveal_strlit("\n");
        reveal_strlit("=");
        reveal_strlit("~");
    }
    let lines = split(body, "\n");
    let ghost lv = views(lines@);
    let mut i: usize = 0;
    assert(lv.skip(0) =~= lv);
    while i < lines.len() && !is_fund_line(lines[i].as_str())
        invariant
            lv == views(lines@),
            i <= lines@.len(),
            fund_line(lv) == fund_line(lv.skip(i as int)),
        decreases lines@.len() - i,
    {
        assert(lv.skip(i as int).skip(1) =~= lv.skip(i + 1));
        assert(lv.skip(i as int)[0] == lines@[i as int]@);
        i += 1;
    }
    if i >= lines.len() {
        return None;
    }
    assert(lv.skip(i as int)[0] == lines@[i as int]@);
    assert(fund_line(lv) == Some(lines@[i as int]@));
    let line = to_chars(lines[i].as_str());
    let eq_sign = to_chars("=");
    let eq = match find_chars(&line, &eq_sign, 0) {
        Some(k) => k,
        None => return None,
    };
    assert(eq + eq_sign.len() <= line.len());
    match quoted_text(&line, eq + 1) {
        None => None,
        Some(payload) => {
            let parts = split(payload.as_str(), "~");
            if parts.len() < 9 {
                return None;
            }
            assert(views(parts@)[5] == parts@[5]@ && views(parts@)[7] == parts@[7]@ && views(
                parts@,
            )[8] == parts@[8]@);
            let nav_date = trim(parts[8].as_str());
            if nav_date.as_str().is_empty() {
                return None;
            }
            Some(NavText { nav: parts[5].clone(), nav_date, change: parts[7].clone() })
        },
    }
}

} // verus!
