//! Percent-encoding of the values put into addresses.
use vstd::prelude::*;
use vstd::utf8::*;

verus! {

/// A byte that stands for itself in an address: a letter, a digit or one of `-._~`.
pub open spec fn unreserved(b: u8) -> bool {
    ||| 'A' as u8 <= b <= 'Z' as u8
    ||| 'a' as u8 <= b <= 'z' as u8
    ||| '0' as u8 <= b <= '9' as u8
    ||| b == '-' as u8
    ||| b == '.' as u8
    ||| b == '_' as u8
    ||| b == '~' as u8
}

/// The capital hexadecimal digit of `n`.
pub open spec fn hex_char(n: int) -> char {
    if n < 10 {
        (n + '0' as int) as char
    } else {
        (n - 10 + 'A' as int) as char
    }
}

/// The value of a capital hexadecimal digit.
pub open spec fn hex_value(c: char) -> int {
    if c <= '9' {
        c as int - '0' as int
    } else {
        c as int - 'A' as int + 10
    }
}

/// How one byte is written.
pub open spec fn percent_of(b: u8) -> Seq<char> {
    if unreserved(b) {
        seq![b as char]
    } else {
        seq!['%', hex_char(b as int / 16), hex_char(b as int % 16)]
    }
}

/// How a row of bytes is written.
pub open spec fn percent_bytes(b: Seq<u8>) -> Seq<char>
    decreases b.len(),
{
    if b.len() == 0 {
        Seq::empty()
    } else {
        percent_of(b[0]) + percent_bytes(b.skip(1))
    }
}

/// How a text is written.
pub open spec fn percent_text(s: Seq<char>) -> Seq<char> {
    percent_bytes(encode_utf8(s))
}

/// Reads a percent-encoded row of bytes back.
pub open spec fn percent_decode(s: Seq<char>) -> Seq<u8>
    decreases s.len(),
{
    if s.len() == 0 {
        Seq::empty()
    } else if s[0] == '%' && s.len() >= 3 {
        seq![(hex_value(s[1]) * 16 + hex_value(s[2])) as u8] + percent_decode(s.skip(3))
    } else {
        seq![s[0] as u8] + percent_decode(s.skip(1))
    }
}

/// What was encoded can be read back.
pub proof fn law_percent_decodes(b: Seq<u8>)
    ensures
        percent_decode(percent_bytes(b)) == b,
    decreases b.len(),
{
    if b.len() > 0 {
        let rest = percent_bytes(b.skip(1));
        law_percent_decodes(b.skip(1));
        let e = percent_bytes(b);
        let x = b[0];
        if unreserved(x) {
            assert(e.skip(1) =~= rest);
            assert(e[0] == x as char);
            assert(e[0] != '%');
            assert(x as char as u8 == x);
        } else {
            assert(e.skip(3) =~= rest);
            let h = x as int / 16;
            let l = x as int % 16;
            assert(0 <= h < 16 && 0 <= l < 16);
            assert(hex_value(hex_char(h)) == h);
            assert(hex_value(hex_char(l)) == l);
            assert(e[0] == '%' && e[1] == hex_char(h) && e[2] == hex_char(l));
        }
        assert(b =~= seq![b[0]] + b.skip(1));
    } else {
        assert(b =~= Seq::<u8>::empty());
    }
}

/// Encoded text holds nothing but unreserved characters and percent signs.
pub proof fn law_percent_safe(b: Seq<u8>, i: int)
    requires
        0 <= i < percent_bytes(b).len(),
    ensures
        percent_bytes(b)[i] == '%' || exists|x: u8|
            #[trigger] unreserved(x) && percent_bytes(b)[i] == x as char,
    decreases b.len(),
{
    let head = percent_of(b[0]);
    if i >= head.len() {
        law_percent_safe(b.skip(1), i - head.len());
    } else if unreserved(b[0]) {
    } else {
        let n = if i == 1 {
            b[0] as int / 16
        } else {
            b[0] as int % 16
        };
        if i > 0 {
            let x = hex_char(n) as u8;
            assert(unreserved(x));
            assert(x as char == hex_char(n));
        }
    }
}

/// The capital hexadecimal digit of `n`.
fn hex_digit(n: u8) -> (r: char)
    requires
        n < 16,
    ensures
        r == hex_char(n as int),
{
    if n < 10 {
        (n + 48) as char
    } else {
        (n - 10 + 65) as char
    }
}

/// Percent-encodes every byte that is not unreserved.
pub fn encode_component(s: &str) -> (r: String)
    ensures
        r@ == percent_text(s@),
{
    let bytes = s.as_bytes();
    let ghost b = encode_utf8(s@);
    let mut out = String::new();
    let mut i: usize = 0;
    assert(b.skip(0) =~= b);
    while i < bytes.len()
        invariant
            b == bytes@,
            i <= bytes@.len(),
            percent_bytes(b) == out@ + percent_bytes(b.skip(i as int)),
        decreases bytes@.len() - i,
    {
        let x = bytes[i];
        let ghost before = out@;
        if (65 <= x && x <= 90) || (97 <= x && x <= 122) || (48 <= x && x <= 57) || x == 45 || x
            == 46 || x == 95 || x == 126 {
            out.push(x as char);
        } else {
            out.push('%');
            out.push(hex_digit(x / 16));
            out.push(hex_digit(x % 16));
        }
        assert(b.skip(i as int).skip(1) =~= b.skip(i + 1));
        assert(out@ =~= before + percent_of(x));
        assert(percent_bytes(b) =~= out@ + percent_bytes(b.skip(i + 1)));
        i += 1;
    }
    assert(out@ =~= percent_bytes(b));
    out
}

/// Percent-encodes a search word.
pub fn urlencode(s: &str) -> (r: String)
    ensures
        r@ == percent_text(s@),
{
    encode_component(s)
}

} // verus!
