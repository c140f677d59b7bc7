//! Laws of the text primitives, stated on single characters and on texts put together.
use vstd::prelude::*;
use crate::text::{all_digits, begins, decimal_of, digit, digits_n, ends, find_from, joined, lemma_decimal_reads_back, lemma_find_from, letter, lex_lt, number_of, occurs, occurs_at, signed_number, split_seq, trim_left, trim_right, trimmed, white};

verus! {

/// A text of so many digits has that length and nothing but the characters from `0` to `9`.
pub proof fn law_digits(s: Seq<char>, n: int)
    ensures
        digits_n(s, n) <==> s.len() == n && forall|i: int|
            0 <= i < s.len() ==> '0' <= (#[trigger] s[i]) && s[i] <= '9',
        all_digits(s) <==> digits_n(s, s.len() as int),
{
    if digits_n(s, n) {
        assert forall|i: int| 0 <= i < s.len() implies '0' <= (#[trigger] s[i]) && s[i] <= '9' by {
            assert(digit(s[i]));
        }
    }
}

/// The letters are those from `A` to `Z` and from `a` to `z`, by their numbers.
pub proof fn law_letters(c: char)
    ensures
        letter(c) <==> 65 <= c as u32 <= 90 || 97 <= c as u32 <= 122,
{
}

/// White space is the blank and the control characters for lines and columns, and the blanks of
/// various widths; no printable ASCII character and no Chinese one is.
pub proof fn law_white_space(c: char)
    ensures
        white(c) <==> 9 <= c as u32 <= 13 || c as u32 == 32 || c as u32 == 133 || c as u32 == 160
            || c as u32 == 5760 || 8192 <= c as u32 <= 8202 || c as u32 == 8232 || c as u32 == 8233
            || c as u32 == 8239 || c as u32 == 8287 || c as u32 == 12288,
{
}

/// Taking white space off both ends leaves what stands between.
pub proof fn law_trim_takes_the_ends(l: Seq<char>, s: Seq<char>, r: Seq<char>)
    requires
        forall|i: int| 0 <= i < l.len() ==> white(#[trigger] l[i]),
        forall|i: int| 0 <= i < r.len() ==> white(#[trigger] r[i]),
        s.len() > 0 ==> !white(s[0]) && !white(s.last()),
    ensures
        trimmed(l + s + r) == s,
{
    lemma_trim_left(l, s + r);
    assert(l + s + r =~= l + (s + r));
    if s.len() == 0 {
        assert(s + r =~= r);
        lemma_trim_left(r, Seq::empty());
        assert(r + Seq::<char>::empty() =~= r);
        assert(trim_left(Seq::<char>::empty()) =~= Seq::<char>::empty());
        assert(s =~= Seq::empty());
        assert(trim_right(Seq::<char>::empty()) =~= Seq::<char>::empty());
    } else {
        assert((s + r)[0] == s[0]);
        assert(trim_left(s + r) == s + r);
        lemma_trim_right(s, r);
    }
}

/// Leading white space goes.
proof fn lemma_trim_left(l: Seq<char>, t: Seq<char>)
    requires
        forall|i: int| 0 <= i < l.len() ==> white(#[trigger] l[i]),
    ensures
        trim_left(l + t) == trim_left(t),
    decreases l.len(),
{
    if l.len() == 0 {
        assert(l + t =~= t);
    } else {
        assert((l + t)[0] == l[0]);
        assert((l + t).skip(1) =~= l.skip(1) + t);
        lemma_trim_left(l.skip(1), t);
    }
}

/// Trailing white space goes.
proof fn lemma_trim_right(s: Seq<char>, r: Seq<char>)
    requires
        forall|i: int| 0 <= i < r.len() ==> white(#[trigger] r[i]),
        s.len() > 0,
        !white(s.last()),
    ensures
        trim_right(s + r) == s,
    decreases r.len(),
{
    if r.len() == 0 {
        assert(s + r =~= s);
    } else {
        assert((s + r).last() == r.last());
        assert((s + r).drop_last() =~= s + r.drop_last());
        lemma_trim_right(s, r.drop_last());
    }
}

/// What is trimmed neither begins nor ends with white space, and only white space was taken off.
pub proof fn law_trimmed_is_a_middle(s: Seq<char>) -> (r: (int, int))
    ensures
        0 <= r.0 <= r.1 <= s.len(),
        trimmed(s) == s.subrange(r.0, r.1),
        forall|i: int| 0 <= i < r.0 ==> white(#[trigger] s[i]),
        forall|i: int| r.1 <= i < s.len() ==> white(#[trigger] s[i]),
        trimmed(s).len() > 0 ==> !white(trimmed(s)[0]) && !white(trimmed(s).last()),
{
    let a = lemma_left_cut(s);
    let t = s.skip(a);
    let b = lemma_right_cut(t);
    assert(t.take(b) =~= s.subrange(a, a + b));
    assert forall|i: int| a + b <= i < s.len() implies white(#[trigger] s[i]) by {
        assert(t[i - a] == s[i]);
    }
    if b > 0 {
        assert(trimmed(s)[0] == t[0]);
    }
    (a, a + b)
}

/// Trimming twice is trimming once.
pub proof fn law_trim_twice(s: Seq<char>)
    ensures
        trimmed(trimmed(s)) == trimmed(s),
{
    let r = law_trimmed_is_a_middle(s);
    let t = trimmed(s);
    law_trim_takes_the_ends(Seq::empty(), t, Seq::empty());
    assert(Seq::<char>::empty() + t + Seq::<char>::empty() =~= t);
}

proof fn lemma_left_cut(s: Seq<char>) -> (a: int)
    ensures
        0 <= a <= s.len(),
        trim_left(s) == s.skip(a),
        forall|i: int| 0 <= i < a ==> white(#[trigger] s[i]),
        a < s.len() ==> !white(s[a]),
    decreases s.len(),
{
    if s.len() > 0 && white(s[0]) {
        let b = lemma_left_cut(s.skip(1));
        assert(s.skip(1).skip(b) =~= s.skip(b + 1));
        assert forall|i: int| 0 <= i < b + 1 implies white(#[trigger] s[i]) by {
            if i > 0 {
                assert(s.skip(1)[i - 1] == s[i]);
            }
        }
        b + 1
    } else {
        assert(s.skip(0) =~= s);
        0
    }
}

proof fn lemma_right_cut(s: Seq<char>) -> (b: int)
    ensures
        0 <= b <= s.len(),
        trim_right(s) == s.take(b),
        forall|i: int| b <= i < s.len() ==> white(#[trigger] s[i]),
        b > 0 ==> !white(s[b - 1]),
    decreases s.len(),
{
    if s.len() > 0 && white(s.last()) {
        let b = lemma_right_cut(s.drop_last());
        assert(s.drop_last().take(b) =~= s.take(b));
        assert forall|i: int| b <= i < s.len() implies white(#[trigger] s[i]) by {
            if i < s.len() - 1 {
                assert(s.drop_last()[i] == s[i]);
            }
        }
        b
    } else {
        assert(s.take(s.len() as int) =~= s);
        s.len() as int
    }
}

/// A text put between two others occurs there; and where a text occurs, the whole is made of what
/// stands before, of it, and of what stands behind.
pub proof fn law_occurrence(l: Seq<char>, p: Seq<char>, r: Seq<char>, s: Seq<char>, i: int)
    ensures
        occurs_at(l + p + r, p, l.len() as int),
        occurs(l + p + r, p),
        begins(p + r, p),
        ends(l + p, p),
        occurs_at(s, p, i) <==> 0 <= i && i + p.len() <= s.len() && s == s.take(i) + p + s.skip(
            i + p.len(),
        ),
        begins(s, p) <==> s.len() >= p.len() && s == p + s.skip(p.len() as int),
        ends(s, p) <==> s.len() >= p.len() && s == s.take(s.len() - p.len()) + p,
{
    let n = l.len() as int;
    assert((l + p + r).subrange(n, n + p.len()) =~= p);
    assert(occurs_at(l + p + r, p, n));
    assert((p + r).subrange(0, p.len() as int) =~= p);
    assert((l + p).subrange(n, n + p.len()) =~= p);
    lemma_occurs_at(s, p, i);
    lemma_occurs_at(s, p, 0);
    lemma_occurs_at(s, p, s.len() - p.len());
    if s.len() >= p.len() {
        assert(s.take(0) + p + s.skip(p.len() as int) =~= p + s.skip(p.len() as int));
        assert(s.take(s.len() - p.len()) + p + s.skip(s.len() as int) =~= s.take(s.len() - p.len()) + p);
    }
}

proof fn lemma_occurs_at(s: Seq<char>, p: Seq<char>, i: int)
    ensures
        occurs_at(s, p, i) <==> 0 <= i && i + p.len() <= s.len() && s == s.take(i) + p + s.skip(
            i + p.len(),
        ),
{
    if 0 <= i && i + p.len() <= s.len() {
        if occurs_at(s, p, i) {
            assert(s =~= s.take(i) + s.subrange(i, i + p.len()) + s.skip(i + p.len()));
        }
        if s == s.take(i) + p + s.skip(i + p.len()) {
            let t = s.take(i) + p + s.skip(i + p.len());
            assert(t.subrange(i, i + p.len()) =~= p);
        }
    }
}

/// A search finds the first occurrence, and finds one wherever there is one.
pub proof fn law_search_is_first(s: Seq<char>, p: Seq<char>, from: int, k: int)
    requires
        0 <= from <= k,
        k + p.len() <= s.len(),
        s.subrange(k, k + p.len()) == p,
    ensures
        find_from(s, p, from) matches Some(i) && from <= i <= k && s.subrange(i, i + p.len()) == p,
{
    lemma_find_from(s, p, from);
    assert(occurs_at(s, p, k));
}

/// A search for a single character finds its first place.
pub proof fn law_search_for_a_character(s: Seq<char>, p: Seq<char>, from: int, k: int)
    requires
        p.len() == 1,
        0 <= from <= k < s.len(),
        s[k] == p[0],
        forall|i: int| from <= i < k ==> (#[trigger] s[i]) != p[0],
    ensures
        find_from(s, p, from) == Some(k),
{
    assert(s.subrange(k, k + 1) =~= p);
    law_search_is_first(s, p, from, k);
    let i = find_from(s, p, from)->Some_0;
    assert(s.subrange(i, i + 1)[0] == s[i]);
}

/// Splitting loses nothing: the pieces with the separator between them are the text, and no piece
/// holds the separator.
pub proof fn law_split_rejoins(s: Seq<char>, sep: Seq<char>)
    requires
        sep.len() > 0,
    ensures
        joined(split_seq(s, sep), sep) == s,
        split_seq(s, sep).len() > 0,
        forall|k: int| 0 <= k < split_seq(s, sep).len() ==> !occurs(#[trigger] split_seq(s, sep)[k], sep),
    decreases s.len(),
{
    lemma_find_from(s, sep, 0);
    match find_from(s, sep, 0) {
        Some(i) => {
            let rest = s.skip(i + sep.len());
            law_split_rejoins(rest, sep);
            let tail = split_seq(rest, sep);
            let head = s.take(i);
            let all = seq![head] + tail;
            assert(split_seq(s, sep) == all);
            lemma_join_front(head, tail, sep);
            assert(s =~= head + sep + rest) by {
                assert(s.subrange(i, i + sep.len()) == sep);
                assert(s =~= head + s.subrange(i, i + sep.len()) + rest);
            }
            assert forall|k: int| 0 <= k < all.len() implies !occurs(#[trigger] all[k], sep) by {
                if k == 0 {
                    if occurs(head, sep) {
                        let j = choose|j: int| #[trigger] occurs_at(head, sep, j);
                        assert(s.subrange(j, j + sep.len()) =~= head.subrange(j, j + sep.len()));
                        assert(occurs_at(s, sep, j));
                    }
                } else {
                    assert(all[k] == tail[k - 1]);
                }
            }
        },
        None => {
            assert(split_seq(s, sep) =~= seq![s]);
            if occurs(s, sep) {
                let j = choose|j: int| #[trigger] occurs_at(s, sep, j);
                assert(0 <= j);
            }
        },
    }
}

/// Pieces joined with one more in front.
pub proof fn lemma_join_front(head: Seq<char>, tail: Seq<Seq<char>>, sep: Seq<char>)
    requires
        tail.len() > 0,
    ensures
        joined(seq![head] + tail, sep) == head + sep + joined(tail, sep),
    decreases tail.len(),
{
    let all = seq![head] + tail;
    assert(all.last() == tail.last());
    if tail.len() == 1 {
        assert(all.drop_last() =~= seq![head]);
        assert(joined(all, sep) == joined(seq![head], sep) + sep + tail[0]);
    } else {
        assert(all.drop_last() =~= seq![head] + tail.drop_last());
        lemma_join_front(head, tail.drop_last(), sep);
        assert(joined(all, sep) =~= head + sep + joined(tail, sep));
    }
}

/// The first character in which two texts differ decides their order, by its number; a text comes
/// before every longer one that it begins.
pub proof fn law_first_difference_decides(p: Seq<char>, a: char, x: Seq<char>, b: char, y: Seq<char>)
    requires
        a != b,
    ensures
        lex_lt(p + seq![a] + x, p + seq![b] + y) <==> (a as u32) < (b as u32),
        lex_lt(p, p + seq![a] + x),
        !lex_lt(p + seq![a] + x, p),
    decreases p.len(),
{
    let s = p + seq![a] + x;
    let t = p + seq![b] + y;
    if p.len() > 0 {
        assert(s.skip(1) =~= p.skip(1) + seq![a] + x);
        assert(t.skip(1) =~= p.skip(1) + seq![b] + y);
        law_first_difference_decides(p.skip(1), a, x, b, y);
        assert(s[0] == p[0] && t[0] == p[0]);
    } else {
        assert(s[0] == a && t[0] == b);
    }
}

/// A row of digits stands for ten times what its beginning stands for, and its last digit; the digits
/// of a number read back as the number and do not begin with a zero, but for zero itself.
pub proof fn law_digits_of_numbers(s: Seq<char>, k: u32, n: nat)
    requires
        k <= 9,
    ensures
        number_of(Seq::empty()) == 0,
        number_of(s.push((48 + k) as u8 as char)) == 10 * number_of(s) + k,
        number_of(decimal_of(n)) == n,
        decimal_of(n).len() > 0,
        all_digits(decimal_of(n)),
        decimal_of(n)[0] == '0' ==> n == 0 && decimal_of(n).len() == 1,
{
    let c = (48 + k) as u8 as char;
    assert(s.push(c).drop_last() =~= s);
    assert(c as u32 == 48 + k);
    lemma_decimal_reads_back(n);
    lemma_no_leading_zero(n);
}

proof fn lemma_no_leading_zero(n: nat)
    ensures
        decimal_of(n).len() > 0,
        decimal_of(n)[0] == '0' ==> n == 0 && decimal_of(n).len() == 1,
    decreases n,
{
    if n >= 10 {
        lemma_no_leading_zero(n / 10);
        assert(decimal_of(n)[0] == decimal_of(n / 10)[0]);
    } else {
        let d = number_of(decimal_of(n));
        lemma_decimal_reads_back(n);
        assert(decimal_of(n).drop_last() =~= Seq::<char>::empty());
    }
}

/// A row of digits is the number it stands for; with a hyphen before it, the negative one; a plus sign
/// changes nothing; a text without a digit, or with anything but digits behind its sign, is no number.
pub proof fn law_signed_numbers(s: Seq<char>)
    ensures
        s.len() > 0 && all_digits(s) ==> signed_number(s) == Some(number_of(s) as int)
            && signed_number(seq!['-'] + s) == Some(-(number_of(s) as int)) && signed_number(
            seq!['+'] + s,
        ) == Some(number_of(s) as int),
        s.len() == 0 || !all_digits(s) ==> signed_number(seq!['-'] + s) is None && signed_number(
            seq!['+'] + s,
        ) is None,
        s.len() == 0 ==> signed_number(s) is None,
        s.len() > 0 && s[0] != '-' && s[0] != '+' && !all_digits(s) ==> signed_number(s) is None,
{
    if s.len() > 0 && all_digits(s) {
        assert(digit(s[0]));
    }
    assert((seq!['-'] + s).skip(1) =~= s);
    assert((seq!['+'] + s).skip(1) =~= s);
}

} // verus!
