//! Symbols under which stocks and indices are quoted, and the lists of them that are asked for.
use vstd::prelude::*;
use vstd::utf8::*;
use crate::funds::{benchmark, digits_in, digits_of, lowercase_of, pick_benchmark};
use crate::text::{begins, letter, same, starts_with, to_chars, trim, trimmed, views};

verus! {

/// The character has Unicode's property Alphabetic.
pub uninterp spec fn alphabetic_char(c: char) -> bool;

/// `char::is_alphabetic` of std tells whether a character has Unicode's property Alphabetic. Among
/// the ASCII characters the letters have it; which others do is only named.
pub assume_specification[ char::is_alphabetic ](c: char) -> (r: bool)
    ensures
        r == alphabetic_char(c),
        c <= '\u{7f}' ==> r == letter(c),
;

/// What `str::to_uppercase` of std makes of a text.
pub uninterp spec fn uppercase_of(s: Seq<char>) -> Seq<char>;

/// The text in upper case. Calls `str::to_uppercase`, which goes by Unicode's tables; its result is
/// only named.
#[verifier::external_body]
pub(crate) fn uppercase(s: &str) -> (r: String)
    ensures
        r@ == uppercase_of(s@),
{
    s.to_uppercase()
}

/// The symbol of a stock, given its trimmed code, whether a letter is in it, and it in upper case:
/// `us` for a code with letters, `nq` for six bytes that begin with 4 or 8, `hk` for five bytes, `sh`
/// for a code that begins with 6 and `sz` for any other.
pub open spec fn symbol_of(s: Seq<char>, lettered: bool, upper: Seq<char>) -> Seq<char> {
    let n = encode_utf8(s).len();
    if s.len() == 0 {
        Seq::empty()
    } else if lettered {
        "us"@ + upper
    } else if n == 6 && (s[0] == '4' || s[0] == '8') {
        "nq"@ + s
    } else if n == 5 {
        "hk"@ + s
    } else if s[0] == '6' {
        "sh"@ + s
    } else {
        "sz"@ + s
    }
}

/// The symbol of a stock, given its trimmed code, whether a letter is in it, and it in upper case.
pub fn symbol_for(s: &str, lettered: bool, upper: &str) -> (r: String)
    ensures
        r@ == symbol_of(s@, lettered, upper@),
{
    if s.is_empty() {
        return String::new();
    }
    let n = s.as_bytes().len();
    let first = s.get_char(0);
    let (prefix, tail) = if lettered {
        ("us", upper)
    } else if n == 6 && (first == '4' || first == '8') {
        ("nq", s)
    } else if n == 5 {
        ("hk", s)
    } else if first == '6' {
        ("sh", s)
    } else {
        ("sz", s)
    };
    let mut r = prefix.to_owned();
    r.append(tail);
    r
}

/// Some character of the text has the property Alphabetic.
pub open spec fn any_alphabetic(s: Seq<char>) -> bool {
    exists|i: int| 0 <= i < s.len() && alphabetic_char(#[trigger] s[i])
}

/// Whether some character of the text has the property Alphabetic.
fn has_alphabetic(s: &str) -> (r: bool)
    ensures
        r == any_alphabetic(s@),
        crate::text::all_digits(s@) ==> !r,
{
    let v = to_chars(s);
    let mut i: usize = 0;
    while i < v.len()
        invariant
            v@ == s@,
            i <= v@.len(),
            forall|j: int| 0 <= j < i ==> !alphabetic_char(#[trigger] v@[j]),
        decreases v@.len() - i,
    {
        if v[i].is_alphabetic() {
            assert(alphabetic_char(s@[i as int]));
            assert(crate::text::all_digits(s@) ==> crate::text::digit(s@[i as int]));
            return true;
        }
        i += 1;
    }
    false
}

/// The symbol under which a stock is quoted.
pub fn to_quote_symbol(stock_code: &str) -> (r: String)
    ensures
        r@ == symbol_of(
            trimmed(stock_code@),
            any_alphabetic(trimmed(stock_code@)),
            uppercase_of(trimmed(stock_code@)),
        ),
        crate::text::all_digits(trimmed(stock_code@)) ==> r@ == symbol_of(
            trimmed(stock_code@),
            false,
            trimmed(stock_code@),
        ),
{
    let s = trim(stock_code);
    let lettered = has_alphabetic(s.as_str());
    let upper = uppercase(s.as_str());
    symbol_for(s.as_str(), lettered, upper.as_str())
}

/// The name of a platform; a platform that is not known goes by its code.
pub open spec fn platform_label(code: Seq<char>) -> Seq<char> {
    if code == "alipay"@ {
        "支付宝"@
    } else if code == "jd_finance"@ {
        "京东金融"@
    } else if code == "tencent_licai"@ {
        "腾讯理财通"@
    } else {
        code
    }
}

/// The name of a platform.
pub fn platform_name(code: &str) -> (r: String)
    ensures
        r@ == platform_label(code@),
{
    if same(code, "alipay") {
        "支付宝".to_owned()
    } else if same(code, "jd_finance") {
        "京东金融".to_owned()
    } else if same(code, "tencent_licai") {
        "腾讯理财通".to_owned()
    } else {
        code.to_owned()
    }
}

// ---------------------------------------------------------------------------
// Lists of symbols
// ---------------------------------------------------------------------------

/// The list with one more text, where it is not there yet.
pub open spec fn with_new(v: Seq<Seq<char>>, s: Seq<char>) -> Seq<Seq<char>> {
    if v.contains(s) {
        v
    } else {
        v.push(s)
    }
}

/// The list with the texts of another one that are not there yet, in their order.
pub open spec fn with_all(v: Seq<Seq<char>>, more: Seq<Seq<char>>) -> Seq<Seq<char>>
    decreases more.len(),
{
    if more.len() == 0 {
        v
    } else {
        with_new(with_all(v, more.drop_last()), more.last())
    }
}

/// Whether a text is in the list.
pub fn in_list(v: &Vec<String>, s: &str) -> (r: bool)
    ensures
        r == views(v@).contains(s@),
{
    let mut i: usize = 0;
    while i < v.len()
        invariant
            i <= v@.len(),
            forall|j: int| 0 <= j < i ==> (#[trigger] v@[j])@ != s@,
        decreases v@.len() - i,
    {
        if same(v[i].as_str(), s) {
            assert(views(v@)[i as int] == s@);
            return true;
        }
        i += 1;
    }
    false
}

/// Adds a text to a list where it is not there yet.
pub fn push_new(v: &mut Vec<String>, s: String)
    ensures
        views(final(v)@) == with_new(views(old(v)@), s@),
{
    if !in_list(v, s.as_str()) {
        v.push(s);
        assert(views(v@) =~= views(old(v)@).push(s@));
    }
}

/// A list made this way holds each text once, and holds exactly the texts that went into it.
pub proof fn law_with_all(v: Seq<Seq<char>>, more: Seq<Seq<char>>)
    requires
        v.no_duplicates(),
    ensures
        with_all(v, more).no_duplicates(),
        forall|s: Seq<char>| #[trigger]
            with_all(v, more).contains(s) <==> v.contains(s) || more.contains(s),
    decreases more.len(),
{
    if more.len() > 0 {
        let rest = more.drop_last();
        law_with_all(v, rest);
        let base = with_all(v, rest);
        let out = with_all(v, more);
        assert forall|s: Seq<char>| #[trigger] out.contains(s) <==> v.contains(s) || more.contains(
            s,
        ) by {
            if base.contains(s) {
                let k = choose|k: int| 0 <= k < base.len() && base[k] == s;
                assert(out[k] == s);
            }
            if more.contains(s) {
                let k = choose|k: int| 0 <= k < more.len() && more[k] == s;
                if k < rest.len() {
                    assert(rest[k] == s);
                    assert(base.contains(s));
                } else {
                    assert(s == more.last());
                    if !base.contains(s) {
                        assert(out[base.len() as int] == s);
                    }
                }
            }
            if rest.contains(s) {
                let k = choose|k: int| 0 <= k < rest.len() && rest[k] == s;
                assert(more[k] == s);
            }
            if out.contains(s) && !base.contains(s) {
                let k = choose|k: int| 0 <= k < out.len() && out[k] == s;
                if k < base.len() {
                    assert(base[k] == s);
                }
                assert(s == more.last());
                assert(more[more.len() - 1] == s);
            }
        }
    } else {
        assert forall|s: Seq<char>| #[trigger] with_all(v, more).contains(s) <==> v.contains(s)
            || more.contains(s) by {
        }
    }
}

/// A fund as far as its benchmark goes.
pub struct FundKind {
    pub fund_type: String,
    pub name: String,
}

/// The symbol of the index that a fund is measured against.
pub open spec fn benchmark_symbol(f: FundKind) -> Seq<char> {
    benchmark(f.fund_type@, lowercase_of(f.name@)).0
}

/// The symbols of the indices that funds are measured against, each once.
pub fn benchmark_symbols(funds: &Vec<FundKind>) -> (r: Vec<String>)
    ensures
        views(r@) == with_all(
            Seq::empty(),
            funds@.map_values(|f: FundKind| benchmark_symbol(f)),
        ),
{
    let mut r: Vec<String> = Vec::new();
    let ghost all = funds@.map_values(|f: FundKind| benchmark_symbol(f));
    let mut i: usize = 0;
    assert(views(r@) =~= Seq::<Seq<char>>::empty());
    assert(all.take(0) =~= Seq::<Seq<char>>::empty());
    while i < funds.len()
        invariant
            all == funds@.map_values(|f: FundKind| benchmark_symbol(f)),
            i <= funds@.len(),
            views(r@) == with_all(Seq::empty(), all.take(i as int)),
        decreases funds@.len() - i,
    {
        assert(all.take(i + 1).drop_last() =~= all.take(i as int));
        assert(all.take(i + 1).last() == benchmark_symbol(funds@[i as int]));
        let b = pick_benchmark(funds[i].fund_type.as_str(), funds[i].name.as_str());
        push_new(&mut r, b.0);
        i += 1;
    }
    assert(all.take(all.len() as int) =~= all);
    r
}

/// The symbol of a stock by its code.
pub open spec fn stock_symbol(code: Seq<char>) -> Seq<char> {
    symbol_of(trimmed(code), any_alphabetic(trimmed(code)), uppercase_of(trimmed(code)))
}

/// The symbols to ask for: those of the indices, then those of the stocks that are not there yet, each
/// once.
pub fn quote_symbols(bench: &Vec<String>, stock_codes: &Vec<String>) -> (r: Vec<String>)
    ensures
        views(r@) == with_all(
            views(bench@),
            stock_codes@.map_values(|c: String| stock_symbol(c@)),
        ),
{
    let mut r: Vec<String> = Vec::new();
    let mut k: usize = 0;
    while k < bench.len()
        invariant
            k <= bench@.len(),
            r@.len() == k,
            forall|j: int| 0 <= j < k ==> (#[trigger] r@[j])@ == bench@[j]@,
        decreases bench@.len() - k,
    {
        r.push(bench[k].clone());
        k += 1;
    }
    assert(views(r@) =~= views(bench@));
    let ghost all = stock_codes@.map_values(|c: String| stock_symbol(c@));
    let mut i: usize = 0;
    assert(all.take(0) =~= Seq::<Seq<char>>::empty());
    while i < stock_codes.len()
        invariant
            all == stock_codes@.map_values(|c: String| stock_symbol(c@)),
            i <= stock_codes@.len(),
            views(r@) == with_all(views(bench@), all.take(i as int)),
        decreases stock_codes@.len() - i,
    {
        assert(all.take(i + 1).drop_last() =~= all.take(i as int));
        assert(all.take(i + 1).last() == stock_symbol(stock_codes@[i as int]@));
        let s = to_quote_symbol(stock_codes[i].as_str());
        push_new(&mut r, s);
        i += 1;
    }
    assert(all.take(all.len() as int) =~= all);
    r
}

/// The Hong Kong indices among symbols, in their order.
pub open spec fn hk_only(syms: Seq<Seq<char>>) -> Seq<Seq<char>> {
    syms.filter(|s: Seq<char>| begins(s, "hk"@))
}

/// Whether an index is quoted by the Hong Kong index service rather than with the stocks.
pub fn is_hk_symbol(s: &str) -> (r: bool)
    ensures
        r == begins(s@, "hk"@),
{
    starts_with(s, "hk")
}

/// The Hong Kong indices among symbols, in their order.
pub fn hk_symbols(syms: &Vec<String>) -> (r: Vec<String>)
    ensures
        views(r@) == hk_only(views(syms@)),
{
    let mut r: Vec<String> = Vec::new();
    let ghost all = views(syms@);
    let mut i: usize = 0;
    assert(all.take(0) =~= Seq::<Seq<char>>::empty());
    proof {
        reveal(Seq::filter);
    }
    assert(views(r@) =~= hk_only(all.take(0)));
    while i < syms.len()
        invariant
            all == views(syms@),
            i <= syms@.len(),
            views(r@) == hk_only(all.take(i as int)),
        decreases syms@.len() - i,
    {
        proof {
            reveal(Seq::filter);
            assert(all.take(i + 1).drop_last() =~= all.take(i as int));
            assert(all.take(i + 1).last() == syms@[i as int]@);
        }
        if is_hk_symbol(syms[i].as_str()) {
            let ghost before = r@;
            r.push(syms[i].clone());
            assert(views(r@) =~= views(before).push(syms@[i as int]@));
        }
        i += 1;
    }
    assert(all.take(all.len() as int) =~= all);
    r
}

/// The key under which the quote of a symbol is found in a reply of the stock quote service: its
/// digits.
pub fn quote_key(symbol: &str) -> (r: String)
    ensures
        r@ == digits_in(symbol@),
{
    digits_of(symbol)
}

} // verus!
