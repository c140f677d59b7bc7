//! Laws of dates, of trading hours and of the reports of a year, stated in hours, weekdays and months.
use vstd::prelude::*;
use crate::calendar::{disclosure_of, first_entry, in_session, last_entry, latest_index, loaded_entry, month_start, nth_weekday, open_on, overseas_open, overseas_region, season_end, season_ended, seasons_ended, us_daylight, year_prefix, builtin_off, Calendar, hong_kong_words, united_states_words};
use crate::date::{day_number, days_before_month, iso_of, leap, month_len, padded, valid_ymd, Date};
use crate::group::GroupView;
use crate::moment::{shown, sooner, Moment};
use crate::order::{arranges, stably_sorted};
use crate::search::PointView;
use crate::text::{begins, decimal_of, digit, lemma_decimal_reads_back, lemma_lex_irreflexive, lemma_lex_transitive, lex_lt, number_of, occurs};

verus! {

/// The next day has the next number: within a month, from the last of a month to the first of the
/// next, and from the last of a year to the first of the next. The first day of all is a Monday.
pub proof fn law_days_follow_each_other(y: int, m: int, d: int)
    requires
        1 <= m <= 12,
    ensures
        day_number(y, m, d + 1) == day_number(y, m, d) + 1,
        m < 12 ==> day_number(y, m + 1, 1) == day_number(y, m, month_len(y, m)) + 1,
        day_number(y + 1, 1, 1) == day_number(y, 12, 31) + 1,
        day_number(1, 1, 1) == 1,
        (day_number(1, 1, 1) - 1) % 7 == 0,
{
    reveal_with_fuel(days_before_month, 13);
    let p = y - 1;
    assert(leap(y) == (y % 4 == 0 && (y % 100 != 0 || y % 400 == 0)));
    assert(y / 4 - p / 4 == (if y % 4 == 0 {
        1int
    } else {
        0int
    }));
    assert(y / 100 - p / 100 == (if y % 100 == 0 {
        1int
    } else {
        0int
    }));
    assert(y / 400 - p / 400 == (if y % 400 == 0 {
        1int
    } else {
        0int
    }));
    assert(days_before_month(y, 12) == (if leap(y) {
        335int
    } else {
        334int
    }));
}

/// The lengths of the months, and the years with a leap day: every fourth, but of the full centuries
/// only every fourth.
pub proof fn law_months(y: int)
    ensures
        month_len(y, 1) == 31 && month_len(y, 3) == 31 && month_len(y, 5) == 31 && month_len(y, 7)
            == 31 && month_len(y, 8) == 31 && month_len(y, 10) == 31 && month_len(y, 12) == 31,
        month_len(y, 4) == 30 && month_len(y, 6) == 30 && month_len(y, 9) == 30 && month_len(y, 11)
            == 30,
        month_len(y, 2) == 29 <==> y % 400 == 0 || (y % 4 == 0 && y % 100 != 0),
        month_len(y, 2) == 29 || month_len(y, 2) == 28,
        valid_ymd(2000, 2, 29) && !valid_ymd(1900, 2, 29),
{
}

/// A number padded to a width that it does not exceed is that many digits and reads back as itself.
pub proof fn law_padded_number(n: nat, width: int)
    requires
        decimal_of(n).len() <= width,
    ensures
        padded(n, width).len() == width,
        forall|i: int|
            0 <= i < width ==> '0' <= (#[trigger] padded(n, width)[i]) && padded(n, width)[i] <= '9',
        number_of(padded(n, width)) == n,
{
    let s = decimal_of(n);
    lemma_decimal_reads_back(n);
    let zeros = Seq::new((width - s.len()) as nat, |i: int| '0');
    assert(padded(n, width) =~= zeros + s);
    assert forall|i: int| 0 <= i < width implies '0' <= (#[trigger] padded(n, width)[i]) && padded(
        n,
        width,
    )[i] <= '9' by {
        if i >= zeros.len() {
            assert(digit(s[i - zeros.len()]));
            assert(padded(n, width)[i] == s[i - zeros.len()]);
        }
    }
    lemma_zeros_count_nothing(zeros, s);
}

proof fn lemma_zeros_count_nothing(zeros: Seq<char>, s: Seq<char>)
    requires
        forall|i: int| 0 <= i < zeros.len() ==> (#[trigger] zeros[i]) == '0',
    ensures
        number_of(zeros + s) == number_of(s),
    decreases zeros.len() + s.len(),
{
    if s.len() > 0 {
        assert((zeros + s).drop_last() =~= zeros + s.drop_last());
        assert((zeros + s).last() == s.last());
        lemma_zeros_count_nothing(zeros, s.drop_last());
    } else if zeros.len() > 0 {
        assert(zeros + s =~= zeros);
        assert(zeros.drop_last() + s =~= zeros.drop_last());
        assert forall|i: int| 0 <= i < zeros.drop_last().len() implies (
            #[trigger] zeros.drop_last()[i]) == '0' by {
            assert(zeros.drop_last()[i] == zeros[i]);
        }
        lemma_zeros_count_nothing(zeros.drop_last(), s);
        assert(zeros[zeros.len() - 1] == '0');
        assert(s =~= Seq::<char>::empty());
    }
}

/// The exchanges trade from half past nine to half past eleven and from one to three, both ends with
/// them, by hours, minutes and seconds.
pub proof fn law_trading_hours(h: int, m: int, s: int)
    requires
        0 <= h < 24,
        0 <= m < 60,
        0 <= s < 60,
    ensures
        in_session(h * 3600 + m * 60 + s) <==> (h == 9 && m >= 30) || h == 10 || (h == 11 && (m < 30 || (
        m == 30 && s == 0))) || h == 13 || h == 14 || (h == 15 && m == 0 && s == 0),
{
}

/// Summer time in the United States begins with the second Sunday of March and ends with the first of
/// November: a date lies in it exactly where, in March, the last Sunday up to it is not the first of
/// the month, and, in November, no Sunday of the month has come yet; from April to October always,
/// from December to February never.
pub proof fn law_summer_time(d: Date)
    requires
        d.valid(),
    ensures
        4 <= d.month <= 10 ==> us_daylight(d),
        d.month <= 2 || d.month == 12 ==> !us_daylight(d),
        d.month == 3 ==> (us_daylight(d) <==> d.day - (d.weekday() + 1) % 7 >= 8),
        d.month == 11 ==> (us_daylight(d) <==> d.day - (d.weekday() + 1) % 7 < 1),
{
    let y = d.year as int;
    let m = d.month as int;
    let first = day_number(y, m, 1);
    assert(d.number() == first + d.day - 1);
    let w = (first - 1) % 7;
    assert(d.weekday() == (w + d.day - 1) % 7);
    if m == 3 || m == 11 {
        assert(valid_ymd(y, m, 1));
        assert(month_start(y, m) == w);
        assert(nth_weekday(y, m, 6, 2) == 8 + (13 - w) % 7);
        assert(nth_weekday(y, m, 6, 1) == 1 + (13 - w) % 7);
    }
}

/// The market abroad of a fund trades, by the hour in Beijing: that of Hong Kong from half past nine to
/// four; every other one in summer time from half past nine in the evening to four in the morning, and
/// an hour later in winter.
pub proof fn law_hours_abroad(name: Seq<char>, d: Date, h: int, m: int)
    requires
        0 <= h < 24,
        0 <= m < 60,
    ensures
        overseas_region(name) == "hk"@ ==> (overseas_open(name, d, h * 60 + m) <==> (h == 9 && m >= 30)
            || 10 <= h < 16),
        overseas_region(name) != "hk"@ && us_daylight(d) ==> (overseas_open(name, d, h * 60 + m) <==> (h
            == 21 && m >= 30) || h >= 22 || h < 4),
        overseas_region(name) != "hk"@ && !us_daylight(d) ==> (overseas_open(name, d, h * 60 + m)
            <==> (h == 22 && m >= 30) || h >= 23 || h < 5),
{
}

/// A fund belongs to Hong Kong where its name holds one of the words for it, else to the United States
/// where it holds one of those, else to neither.
pub proof fn law_region_by_words(name: Seq<char>)
    ensures
        ({
            let hk = occurs(name, "香港"@) || occurs(name, "恒生"@) || occurs(name, "港股"@) || occurs(
                name,
                "H股"@,
            ) || occurs(name, "沪港"@);
            let us = occurs(name, "美国"@) || occurs(name, "纳斯达克"@) || occurs(name, "标普"@)
                || occurs(name, "道琼"@) || occurs(name, "环球"@) || occurs(name, "全球"@) || occurs(
                name,
                "海外"@,
            ) || occurs(name, "美元"@) || occurs(name, "纳指"@);
            &&& hk ==> overseas_region(name) == "hk"@
            &&& !hk && us ==> overseas_region(name) == "us"@
            &&& !hk && !us ==> overseas_region(name) == "other"@
        }),
{
    reveal(hong_kong_words);
    reveal(united_states_words);
    let a = hong_kong_words();
    let b = united_states_words();
    assert(a.len() == 5 && b.len() == 9);
    assert(a[0]@ == "香港"@ && a[1]@ == "恒生"@ && a[2]@ == "港股"@ && a[3]@ == "H股"@ && a[4]@
        == "沪港"@);
    assert(b[0]@ == "美国"@ && b[1]@ == "纳斯达克"@ && b[2]@ == "标普"@ && b[3]@ == "道琼"@ && b[4]@
        == "环球"@ && b[5]@ == "全球"@ && b[6]@ == "海外"@ && b[7]@ == "美元"@ && b[8]@ == "纳指"@);
}

/// Of several stored entries for a date the first counts; of several new ones the last.
pub proof fn law_entries_of_a_date(days: Seq<(Seq<char>, bool)>, date: Seq<char>, j: int)
    requires
        0 <= j < days.len(),
        days[j].0 == date,
    ensures
        (forall|i: int| 0 <= i < j ==> (#[trigger] days[i]).0 != date) ==> first_entry(days, date)
            == Some(days[j].1),
        (forall|i: int| j < i < days.len() ==> (#[trigger] days[i]).0 != date) ==> last_entry(
            days,
            date,
        ) == Some(days[j].1),
    decreases days.len(),
{
    if forall|i: int| 0 <= i < j ==> (#[trigger] days[i]).0 != date {
        lemma_first_entry(days, date, j);
    }
    if forall|i: int| j < i < days.len() ==> (#[trigger] days[i]).0 != date {
        lemma_last_entry(days, date, j);
    }
}

proof fn lemma_first_entry(days: Seq<(Seq<char>, bool)>, date: Seq<char>, j: int)
    requires
        0 <= j < days.len(),
        days[j].0 == date,
        forall|i: int| 0 <= i < j ==> (#[trigger] days[i]).0 != date,
    ensures
        first_entry(days, date) == Some(days[j].1),
    decreases j,
{
    if j > 0 {
        assert(days[0].0 != date);
        assert forall|i: int| 0 <= i < j - 1 implies (#[trigger] days.skip(1)[i]).0 != date by {
            assert(days.skip(1)[i] == days[i + 1]);
        }
        lemma_first_entry(days.skip(1), date, j - 1);
    }
}

proof fn lemma_last_entry(days: Seq<(Seq<char>, bool)>, date: Seq<char>, j: int)
    requires
        0 <= j < days.len(),
        days[j].0 == date,
        forall|i: int| j < i < days.len() ==> (#[trigger] days[i]).0 != date,
    ensures
        last_entry(days, date) == Some(days[j].1),
    decreases days.len(),
{
    if j < days.len() - 1 {
        assert(days[days.len() - 1].0 != date);
        assert forall|i: int| j < i < days.drop_last().len() implies (
            #[trigger] days.drop_last()[i]).0 != date by {
            assert(days.drop_last()[i] == days[i]);
        }
        lemma_last_entry(days.drop_last(), date, j);
    }
}

/// A date without an entry has none, whichever counts.
pub proof fn law_date_without_entries(days: Seq<(Seq<char>, bool)>, date: Seq<char>)
    requires
        forall|i: int| 0 <= i < days.len() ==> (#[trigger] days[i]).0 != date,
    ensures
        first_entry(days, date) is None,
        last_entry(days, date) is None,
    decreases days.len(),
{
    if days.len() > 0 {
        assert(days[0].0 != date && days[days.len() - 1].0 != date);
        assert forall|i: int| 0 <= i < days.skip(1).len() implies (#[trigger] days.skip(1)[i]).0
            != date by {
            assert(days.skip(1)[i] == days[i + 1]);
        }
        assert forall|i: int| 0 <= i < days.drop_last().len() implies (
            #[trigger] days.drop_last()[i]).0 != date by {
            assert(days.drop_last()[i] == days[i]);
        }
        law_date_without_entries(days.skip(1), date);
        law_date_without_entries(days.drop_last(), date);
    }
}

/// Loading a year keeps what is known, then takes what is stored, then closes the known days off of
/// that year and of no other.
pub proof fn law_loading_a_year(
    before: Option<bool>,
    stored: Seq<(Seq<char>, bool)>,
    year: int,
    date: Seq<char>,
)
    ensures
        before is Some ==> loaded_entry(before, stored, year, date) == before,
        before is None && first_entry(stored, date) is Some ==> loaded_entry(
            before,
            stored,
            year,
            date,
        ) == first_entry(stored, date),
        before is None && first_entry(stored, date) is None && builtin_off(date) && begins(
            date,
            year_prefix(year),
        ) ==> loaded_entry(before, stored, year, date) == Some(false),
        before is None && first_entry(stored, date) is None && !(builtin_off(date) && begins(
            date,
            year_prefix(year),
        )) ==> loaded_entry(before, stored, year, date) is None,
        year >= 0 ==> year_prefix(year) == decimal_of(year as nat) + seq!['-'],
{
}

/// The exchanges are closed on Saturdays and Sundays whatever is known; on another day they are as is
/// known, and open where nothing is.
pub proof fn law_open_days(c: &Calendar, d: Date)
    requires
        d.valid(),
    ensures
        (d.number() - 1) % 7 == 5 || (d.number() - 1) % 7 == 6 ==> !open_on(c, d),
        (d.number() - 1) % 7 < 5 && c.known(
            iso_of(d.year as int, d.month as int, d.day as int),
        ) is Some ==> open_on(c, d) == c.known(
            iso_of(d.year as int, d.month as int, d.day as int),
        )->Some_0,
        (d.number() - 1) % 7 < 5 && c.known(
            iso_of(d.year as int, d.month as int, d.day as int),
        ) is None ==> open_on(c, d),
{
}

/// The number of reports of a date's year that have ended by it is the number of full quarters before
/// its month, and one more on the last day of a quarter; a report covers a quarter up to the last day
/// of its third month; the second and the fourth disclose everything.
pub proof fn law_reports_of_a_year(d: Date)
    requires
        d.valid(),
    ensures
        seasons_ended(d) == (d.month - 1) / 3 + (if d.month % 3 == 0 && d.day == month_len(
            d.year as int,
            d.month as int,
        ) {
            1int
        } else {
            0int
        }),
        latest_index(d) == 4 * d.year + seasons_ended(d) - 1,
        forall|s: int|
            1 <= s <= 4 ==> #[trigger] season_end(d.year as int, s) == (
                d.year as int,
                3 * s,
                month_len(d.year as int, 3 * s),
            ),
        disclosure_of(1) == "top10"@ && disclosure_of(3) == "top10"@,
        disclosure_of(2) == "full"@ && disclosure_of(4) == "full"@,
        forall|s: int|
            1 <= s <= 4 ==> (#[trigger] season_ended(d, s) <==> 3 * s < d.month || (3 * s == d.month
                && d.day == month_len(d.year as int, d.month as int))),
{
    assert forall|s: int| 1 <= s <= 4 implies (#[trigger] season_ended(d, s) <==> 3 * s < d.month || (
    3 * s == d.month && d.day == month_len(d.year as int, d.month as int))) by {
        assert(d.day <= month_len(d.year as int, d.month as int));
        assert(s == 1 || s == 2 || s == 3 || s == 4);
    }
    assert(season_ended(d, 1) <==> 3 < d.month || (3 == d.month && d.day == month_len(
        d.year as int,
        d.month as int,
    )));
    assert(season_ended(d, 2) <==> 6 < d.month || (6 == d.month && d.day == month_len(
        d.year as int,
        d.month as int,
    )));
    assert(season_ended(d, 3) <==> 9 < d.month || (9 == d.month && d.day == month_len(
        d.year as int,
        d.month as int,
    )));
    assert(season_ended(d, 4) <==> 12 < d.month || (12 == d.month && d.day == month_len(
        d.year as int,
        d.month as int,
    )));
}

/// A moment is shown as date, hour, minute and second, each in two digits but for the year.
pub proof fn law_shown_moment(m: Moment)
    ensures
        shown(m) == iso_of(m.date.year as int, m.date.month as int, m.date.day as int) + seq![' ']
            + padded(m.hour as nat, 2) + seq![':'] + padded(m.minute as nat, 2) + seq![':'] + padded(
            m.second as nat,
            2,
        ),
        0 <= m.date.year <= 9999 ==> iso_of(
            m.date.year as int,
            m.date.month as int,
            m.date.day as int,
        ) == padded(m.date.year as nat, 4) + seq!['-'] + padded(m.date.month as nat, 2) + seq!['-']
            + padded(m.date.day as nat, 2),
        !sooner(m, m),
{
}

/// Reports stand in one row, four to the year: the next report is the next season of the year, or the
/// first of the next year.
pub proof fn law_reports_stand_in_a_row(y: int, s: int)
    ensures
        1 <= s < 4 ==> crate::calendar::period_index(y, s + 1) == crate::calendar::period_index(y, s) + 1,
        crate::calendar::period_index(y + 1, 1) == crate::calendar::period_index(y, 4) + 1,
        crate::calendar::period_index(0, 1) == 0,
{
}

/// Changes of a day stand together, the earlier day first.
pub proof fn law_days_of_changes(gs: Seq<GroupView>, out: Seq<GroupView>, i: int, j: int)
    requires
        stably_sorted(gs, out, crate::signals::earlier_day()),
        0 <= i < j < out.len(),
    ensures
        out.len() == gs.len(),
        gs.contains(out[i]),
        !lex_lt(out[j].label.0, out[i].label.0),
{
    let p = choose|p: Seq<usize>| #[trigger] arranges(gs, out, p, crate::signals::earlier_day());
    assert(out[i] == gs[p[i] as int] && out[j] == gs[p[j] as int]);
    assert(p[i] < gs.len());
    let a = out[i].label.0;
    let b = out[j].label.0;
    if lex_lt(a, b) && lex_lt(b, a) {
        lemma_lex_transitive(a, b, a);
        lemma_lex_irreflexive(a);
    }
}

/// The points of a history stand with the earliest first, each once.
pub proof fn law_points_by_date(found: Seq<PointView>, out: Seq<PointView>, i: int, j: int)
    requires
        stably_sorted(found, out, crate::search::by_date()),
        0 <= i < j < out.len(),
    ensures
        out.len() == found.len(),
        found.contains(out[i]),
        !lex_lt(out[j].date, out[i].date),
{
    let p = choose|p: Seq<usize>| #[trigger] arranges(found, out, p, crate::search::by_date());
    assert(out[i] == found[p[i] as int] && out[j] == found[p[j] as int]);
    assert(p[i] < found.len());
    let a = out[i].date;
    let b = out[j].date;
    if lex_lt(a, b) && lex_lt(b, a) {
        lemma_lex_transitive(a, b, a);
        lemma_lex_irreflexive(a);
    }
}

/// A date lies before another where its year is smaller, in one year where its month is, and in one month
/// where its day is; of two dates that differ one lies before the other.
pub proof fn law_earlier_dates(a: Date, b: Date)
    requires
        a.valid(),
        b.valid(),
    ensures
        a.year < b.year ==> crate::date::earlier(a, b),
        a.year == b.year && a.month < b.month ==> crate::date::earlier(a, b),
        a.year == b.year && a.month == b.month ==> (crate::date::earlier(a, b) <==> a.day < b.day),
        crate::date::earlier(a, b) ==> !crate::date::earlier(b, a) && a != b,
        crate::date::earlier(a, b) || crate::date::earlier(b, a) || a == b,
{
}

} // verus!
