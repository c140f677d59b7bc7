//! Moments of local time and the stamps that name them.
use vstd::prelude::*;
use vstd::utf8::*;
use crate::backup::{plain_stamp, short_at, short_stamp};
use crate::cloud::{stamp_at, valid_stamp, STAMP_LEN};
use crate::date::{earlier, iso_of, pad_number, padded, year_text, Date};
use crate::text::{decimal_of, digit, lemma_ascii_bytes, lex_lt, occurs, occurs_at};

verus! {

/// A moment of local time, to the millisecond.
#[derive(Debug, Clone, Copy, PartialEq, Eq, Structural)]
pub struct Moment {
    pub date: Date,
    pub hour: u32,
    pub minute: u32,
    pub second: u32,
    pub milli: u32,
}

/// How the time of day is written without separators, to the second.
pub open spec fn compact_clock(m: Moment) -> Seq<char> {
    padded(m.hour as nat, 2) + padded(m.minute as nat, 2) + padded(m.second as nat, 2)
}

/// How the date is written without separators.
pub open spec fn compact_date(d: Date) -> Seq<char> {
    year_text(d.year as int) + padded(d.month as nat, 2) + padded(d.day as nat, 2)
}

/// The stamp of a moment to the second, `YYYYMMDD-HHMMSS`.
pub open spec fn short_stamp_of(m: Moment) -> Seq<char> {
    compact_date(m.date) + seq!['-'] + compact_clock(m)
}

/// The stamp of a moment to the millisecond, `YYYYMMDD-HHMMSSmmm`.
pub open spec fn stamp_of(m: Moment) -> Seq<char> {
    short_stamp_of(m) + padded(m.milli as nat, 3)
}

/// How a moment is shown, `YYYY-MM-DD HH:MM:SS`.
pub open spec fn shown(m: Moment) -> Seq<char> {
    iso_of(m.date.year as int, m.date.month as int, m.date.day as int) + seq![' '] + padded(
        m.hour as nat,
        2,
    ) + seq![':'] + padded(m.minute as nat, 2) + seq![':'] + padded(m.second as nat, 2)
}

impl Moment {
    /// The date and the time of day exist.
    pub open spec fn valid(&self) -> bool {
        self.date.valid() && self.hour < 24 && self.minute < 60 && self.second < 60 && self.milli
            < 1000
    }

    /// The moment to the minute, `YYYY-MM-DD HH:MM`.
    pub fn minute_text(&self) -> (r: String)
        requires
            self.valid(),
        ensures
            r@ == iso_of(self.date.year as int, self.date.month as int, self.date.day as int)
                + seq![' '] + padded(self.hour as nat, 2) + seq![':'] + padded(
                self.minute as nat,
                2,
            ),
    {
        let mut r = self.date.iso();
        r.push(' ');
        r.append(pad_number(self.hour as u64, 2).as_str());
        r.push(':');
        r.append(pad_number(self.minute as u64, 2).as_str());
        assert(r@ =~= iso_of(self.date.year as int, self.date.month as int, self.date.day as int)
            + seq![' '] + padded(self.hour as nat, 2) + seq![':'] + padded(self.minute as nat, 2));
        r
    }

    /// How the moment is shown.
    pub fn at(&self) -> (r: String)
        requires
            self.valid(),
        ensures
            r@ == shown(*self),
    {
        let mut r = self.minute_text();
        r.push(':');
        r.append(pad_number(self.second as u64, 2).as_str());
        assert(r@ =~= shown(*self));
        r
    }

    /// The stamp of the moment to the second.
    pub fn short_stamp(&self) -> (r: String)
        requires
            self.valid(),
        ensures
            r@ == short_stamp_of(*self),
    {
        let mut r = year_digits(self.date.year);
        r.append(pad_number(self.date.month as u64, 2).as_str());
        r.append(pad_number(self.date.day as u64, 2).as_str());
        r.push('-');
        r.append(pad_number(self.hour as u64, 2).as_str());
        r.append(pad_number(self.minute as u64, 2).as_str());
        r.append(pad_number(self.second as u64, 2).as_str());
        assert(r@ =~= short_stamp_of(*self));
        r
    }
}

/// How a year is written.
fn year_digits(year: i32) -> (r: String)
    ensures
        r@ == year_text(year as int),
{
    let mut r = String::new();
    if year < 0 {
        r.push('-');
        r.append(pad_number((-(year as i64)) as u64, 4).as_str());
    } else if year > 9999 {
        r.push('+');
        r.append(pad_number(year as u64, 4).as_str());
    } else {
        r.append(pad_number(year as u64, 4).as_str());
    }
    assert(r@ =~= year_text(year as int));
    r
}

/// The stamp of a moment, with how the moment is shown.
pub fn now_pair(now: &Moment) -> (r: (String, String))
    requires
        now.valid(),
    ensures
        r.0@ == stamp_of(*now),
        r.1@ == shown(*now),
{
    let mut s = now.short_stamp();
    s.append(pad_number(now.milli as u64, 3).as_str());
    (s, now.at())
}

/// A moment lies before another.
pub open spec fn sooner(a: Moment, b: Moment) -> bool {
    earlier(a.date, b.date) || (a.date == b.date && (a.hour < b.hour || (a.hour == b.hour && (
    a.minute < b.minute || (a.minute == b.minute && (a.second < b.second || (a.second == b.second
        && a.milli < b.milli)))))))
}

/// A moment whose year has four digits.
pub open spec fn common(m: Moment) -> bool {
    m.valid() && 0 <= m.date.year <= 9999
}

/// Ten to a power.
spec fn ten_to(w: nat) -> nat
    decreases w,
{
    if w == 0 {
        1
    } else {
        10 * ten_to((w - 1) as nat)
    }
}

/// A number that fits in a width is written with exactly that many digits: those of its tenth part,
/// then its last one.
proof fn lemma_padded_step(n: nat, w: nat)
    requires
        w >= 1,
        n < ten_to(w),
    ensures
        padded(n, w as int).len() == w,
        forall|i: int| 0 <= i < w ==> digit(#[trigger] padded(n, w as int)[i]),
        w >= 2 ==> n / 10 < ten_to((w - 1) as nat) && padded(n, w as int) == padded(n / 10, w - 1).push(
            ('0' as u32 + n % 10) as u8 as char,
        ),
    decreases w,
{
    crate::text::lemma_decimal_reads_back(n);
    reveal_with_fuel(ten_to, 2);
    if w == 1 {
        assert(n < 10);
        assert(padded(n, 1) =~= decimal_of(n));
    } else {
        lemma_padded_step(n / 10, (w - 1) as nat);
        let c = ('0' as u32 + n % 10) as u8 as char;
        let a = padded(n, w as int);
        let b = padded(n / 10, w - 1).push(c);
        if n < 10 {
            assert(decimal_of(n / 10).len() == 1);
            assert(decimal_of(n).len() == 1);
            assert(decimal_of(n / 10)[0] == '0');
            assert(a.len() == b.len());
            assert forall|i: int| 0 <= i < a.len() implies a[i] == b[i] by {
                if i < w - 1 {
                    assert(a[i] == '0');
                }
            }
        } else {
            assert(decimal_of(n) == decimal_of(n / 10).push(c));
        }
        assert(a =~= b);
        let d = ('0' as u32 + n % 10) as u8;
        assert(c as u32 == d as u32);
        assert forall|i: int| 0 <= i < w implies digit(#[trigger] a[i]) by {
            if i < w - 1 {
                assert(a[i] == padded(n / 10, w - 1)[i]);
            }
        }
    }
}

/// Texts of equal length that differ in order keep it whatever follows.
proof fn lemma_lex_prefix(a: Seq<char>, b: Seq<char>, x: Seq<char>, y: Seq<char>)
    requires
        a.len() == b.len(),
        lex_lt(a, b),
    ensures
        lex_lt(a + x, b + y),
    decreases a.len(),
{
    if a.len() > 0 && a[0] == b[0] {
        lemma_lex_prefix(a.skip(1), b.skip(1), x, y);
        assert((a + x).skip(1) =~= a.skip(1) + x);
        assert((b + y).skip(1) =~= b.skip(1) + y);
    }
}

/// What both texts begin with decides nothing.
proof fn lemma_lex_after(a: Seq<char>, x: Seq<char>, y: Seq<char>)
    requires
        lex_lt(x, y),
    ensures
        lex_lt(a + x, a + y),
    decreases a.len(),
{
    if a.len() == 0 {
        assert(a + x =~= x);
        assert(a + y =~= y);
    } else {
        lemma_lex_after(a.skip(1), x, y);
        assert((a + x).skip(1) =~= a.skip(1) + x);
        assert((a + y).skip(1) =~= a.skip(1) + y);
    }
}

/// Numbers written with the same number of digits are ordered as their texts are.
proof fn lemma_padded_order(n: nat, m: nat, w: nat)
    requires
        w >= 1,
        n < m < ten_to(w),
    ensures
        lex_lt(padded(n, w as int), padded(m, w as int)),
    decreases w,
{
    lemma_padded_step(n, w);
    lemma_padded_step(m, w);
    let cn = ('0' as u32 + n % 10) as u8;
    let cm = ('0' as u32 + m % 10) as u8;
    reveal_with_fuel(ten_to, 2);
    if w == 1 {
        assert(padded(n, 1) =~= seq![cn as char]);
        assert(padded(m, 1) =~= seq![cm as char]);
    } else {
        let pn = padded(n / 10, w - 1);
        let pm = padded(m / 10, w - 1);
        assert(pn.push(cn as char) =~= pn + seq![cn as char]);
        assert(pm.push(cm as char) =~= pm + seq![cm as char]);
        if n / 10 < m / 10 {
            lemma_padded_order(n / 10, m / 10, (w - 1) as nat);
            lemma_padded_step(n / 10, (w - 1) as nat);
            lemma_padded_step(m / 10, (w - 1) as nat);
            lemma_lex_prefix(pn, pm, seq![cn as char], seq![cm as char]);
        } else {
            assert(n / 10 == m / 10);
            assert(n % 10 < m % 10);
            assert(lex_lt(seq![cn as char], seq![cm as char]));
            lemma_lex_after(pn, seq![cn as char], seq![cm as char]);
        }
    }
}

/// The parts of the stamp of a moment have their fixed widths.
proof fn lemma_parts(m: Moment)
    requires
        common(m),
    ensures
        m.date.year as nat >= 0 && (m.date.year as nat) < ten_to(4),
        ten_to(2) == 100,
        ten_to(3) == 1000,
        ({
            let y = padded(m.date.year as nat, 4);
            &&& y.len() == 4
            &&& year_text(m.date.year as int) == y
            &&& forall|i: int| 0 <= i < 4 ==> digit(#[trigger] y[i])
        }),
        ({
            let p = padded(m.milli as nat, 3);
            p.len() == 3 && forall|i: int| 0 <= i < 3 ==> digit(#[trigger] p[i])
        }),
        forall|n: nat| n < 100 ==> (#[trigger] padded(n, 2)).len() == 2 && digit(padded(n, 2)[0]) && digit(
            padded(n, 2)[1],
        ),
{
    reveal_with_fuel(ten_to, 5);
    lemma_padded_step(m.date.year as nat, 4);
    lemma_padded_step(m.milli as nat, 3);
    assert forall|n: nat| n < 100 implies (#[trigger] padded(n, 2)).len() == 2 && digit(padded(n, 2)[0]) && digit(
        padded(n, 2)[1],
    ) by {
        lemma_padded_step(n, 2);
    }
}

/// The stamp of a moment is a time stamp, and it stands for the time that is shown with it.
pub proof fn law_stamp_of_moment(m: Moment)
    requires
        common(m),
    ensures
        valid_stamp(stamp_of(m)),
        stamp_at(stamp_of(m)) == shown(m),
{
    lemma_parts(m);
    let s = stamp_of(m);
    let y = padded(m.date.year as nat, 4);
    let mo = padded(m.date.month as nat, 2);
    let da = padded(m.date.day as nat, 2);
    let ho = padded(m.hour as nat, 2);
    let mi = padded(m.minute as nat, 2);
    let se = padded(m.second as nat, 2);
    assert(s.len() == STAMP_LEN);
    assert(s[8] == '-');
    assert forall|i: int| 0 <= i < s.len() && i != 8 implies digit(#[trigger] s[i]) by {
        if i < 4 {
            assert(s[i] == y[i]);
        } else if i < 6 {
            assert(s[i] == mo[i - 4]);
        } else if i < 8 {
            assert(s[i] == da[i - 6]);
        } else if i < 11 {
            assert(s[i] == ho[i - 9]);
        } else if i < 13 {
            assert(s[i] == mi[i - 11]);
        } else if i < 15 {
            assert(s[i] == se[i - 13]);
        } else {
            assert(s[i] == padded(m.milli as nat, 3)[i - 15]);
        }
    }
    crate::cloud::law_stamp_at(s);
    reveal_strlit("-");
    reveal_strlit(" ");
    reveal_strlit(":");
    assert(s.subrange(0, 4) =~= y);
    assert(s.subrange(4, 6) =~= mo);
    assert(s.subrange(6, 8) =~= da);
    assert(s.subrange(9, 11) =~= ho);
    assert(s.subrange(11, 13) =~= mi);
    assert(s.subrange(13, 15) =~= se);
    assert(stamp_at(s) =~= shown(m));
}

/// The stamp in the name of a backup has the form that such names ask for, and it stands for the time
/// that is shown of it.
pub proof fn law_short_stamp_of_moment(m: Moment)
    requires
        common(m),
    ensures
        plain_stamp(short_stamp_of(m)),
        short_stamp(short_stamp_of(m)),
        short_at(short_stamp_of(m)) == shown(m),
{
    lemma_parts(m);
    law_stamp_of_moment(m);
    let t = stamp_of(m);
    let s = short_stamp_of(m);
    assert(s =~= t.take(15));
    reveal_strlit("-");
    reveal_strlit(" ");
    reveal_strlit(":");
    assert(is_ascii_chars(s)) by {
        assert forall|i: int| 0 <= i < s.len() implies '\0' <= #[trigger] s[i] <= '\u{7f}' by {
            assert(s[i] == t[i]);
            if i != 8 {
                assert(digit(t[i]));
            }
        }
    }
    is_ascii_chars_encode_utf8(s);
    assert(plain_stamp(s)) by {
        assert forall|i: int| 0 <= i < 15 implies #[trigger] s[i] == t[i] by {}
    }
    assert(occurs(s, "-"@)) by {
        assert(s[8] == '-');
        assert(s.subrange(8, 9) =~= "-"@);
        assert(occurs_at(s, "-"@, 8));
    }
    lemma_ascii_bytes(s, 0, 4);
    lemma_ascii_bytes(s, 4, 6);
    lemma_ascii_bytes(s, 6, 8);
    lemma_ascii_bytes(s, 9, 11);
    lemma_ascii_bytes(s, 11, 13);
    lemma_ascii_bytes(s, 13, 15);
    assert(s.subrange(0, 4) =~= padded(m.date.year as nat, 4));
    assert(s.subrange(4, 6) =~= padded(m.date.month as nat, 2));
    assert(s.subrange(6, 8) =~= padded(m.date.day as nat, 2));
    assert(s.subrange(9, 11) =~= padded(m.hour as nat, 2));
    assert(s.subrange(11, 13) =~= padded(m.minute as nat, 2));
    assert(s.subrange(13, 15) =~= padded(m.second as nat, 2));
    assert(short_at(s) =~= shown(m));
}

/// The stamps of two moments are ordered as the moments are: what was pushed later has the later key.
pub proof fn law_stamps_in_time_order(a: Moment, b: Moment)
    requires
        common(a),
        common(b),
        sooner(a, b),
    ensures
        lex_lt(stamp_of(a), stamp_of(b)),
{
    lemma_parts(a);
    lemma_parts(b);
    let ya = padded(a.date.year as nat, 4);
    let yb = padded(b.date.year as nat, 4);
    let moa = padded(a.date.month as nat, 2);
    let mob = padded(b.date.month as nat, 2);
    let daa = padded(a.date.day as nat, 2);
    let dab = padded(b.date.day as nat, 2);
    let ra = seq!['-'] + compact_clock(a) + padded(a.milli as nat, 3);
    let rb = seq!['-'] + compact_clock(b) + padded(b.milli as nat, 3);
    assert(stamp_of(a) =~= ya + (moa + (daa + ra)));
    assert(stamp_of(b) =~= yb + (mob + (dab + rb)));
    if a.date.year < b.date.year {
        lemma_padded_order(a.date.year as nat, b.date.year as nat, 4);
        lemma_lex_prefix(ya, yb, moa + (daa + ra), mob + (dab + rb));
    } else if a.date.month < b.date.month {
        lemma_padded_order(a.date.month as nat, b.date.month as nat, 2);
        lemma_lex_prefix(moa, mob, daa + ra, dab + rb);
        lemma_lex_after(ya, moa + (daa + ra), mob + (dab + rb));
    } else if a.date.day < b.date.day {
        lemma_padded_order(a.date.day as nat, b.date.day as nat, 2);
        lemma_lex_prefix(daa, dab, ra, rb);
        lemma_lex_after(moa, daa + ra, dab + rb);
        lemma_lex_after(ya, moa + (daa + ra), mob + (dab + rb));
    } else {
        lemma_clock_order(a, b);
        lemma_lex_after(daa, ra, rb);
        lemma_lex_after(moa, daa + ra, dab + rb);
        lemma_lex_after(ya, moa + (daa + ra), mob + (dab + rb));
    }
}

/// Times of one day are ordered as they are written.
proof fn lemma_clock_order(a: Moment, b: Moment)
    requires
        common(a),
        common(b),
        a.date == b.date,
        sooner(a, b),
    ensures
        lex_lt(
            seq!['-'] + compact_clock(a) + padded(a.milli as nat, 3),
            seq!['-'] + compact_clock(b) + padded(b.milli as nat, 3),
        ),
{
    lemma_parts(a);
    lemma_parts(b);
    let ha = padded(a.hour as nat, 2);
    let hb = padded(b.hour as nat, 2);
    let mia = padded(a.minute as nat, 2);
    let mib = padded(b.minute as nat, 2);
    let sa = padded(a.second as nat, 2);
    let sb = padded(b.second as nat, 2);
    let la = padded(a.milli as nat, 3);
    let lb = padded(b.milli as nat, 3);
    let dash = seq!['-'];
    assert(dash + compact_clock(a) + la =~= dash + (ha + (mia + (sa + la))));
    assert(dash + compact_clock(b) + lb =~= dash + (hb + (mib + (sb + lb))));
    if a.hour < b.hour {
        lemma_padded_order(a.hour as nat, b.hour as nat, 2);
        lemma_lex_prefix(ha, hb, mia + (sa + la), mib + (sb + lb));
    } else {
        if a.minute < b.minute {
            lemma_padded_order(a.minute as nat, b.minute as nat, 2);
            lemma_lex_prefix(mia, mib, sa + la, sb + lb);
        } else {
            if a.second < b.second {
                lemma_padded_order(a.second as nat, b.second as nat, 2);
                lemma_lex_prefix(sa, sb, la, lb);
            } else {
                lemma_padded_order(a.milli as nat, b.milli as nat, 3);
                lemma_lex_after(sa, la, lb);
            }
            lemma_lex_after(mia, sa + la, sb + lb);
        }
        lemma_lex_after(ha, mia + (sa + la), mib + (sb + lb));
    }
    lemma_lex_after(dash, ha + (mia + (sa + la)), hb + (mib + (sb + lb)));
}

} // verus!
