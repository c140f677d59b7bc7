//! Laws of reports and curves, stated on the numbers of days.
use vstd::prelude::*;
use crate::date::{day_number, iso_of, read_ymd, Date};
use crate::pick::{law_picked_iff, picked};
use crate::reports::{calendar_marks, cuts_off, day_of, marks_from, ordered_days, ordered_marks, passes, range_marks, span_start, spans, start_among, DaySigns, ReportPlan};
use crate::text::{lemma_lex_total, lex_lt};

verus! {

/// For any number of days, the span of a report begins with the last snapshot whose day is at most
/// the day of the end less the days of the report. It begins with the first snapshot only where that
/// one is such a snapshot or where no dated snapshot lies that far back.
pub proof fn law_span_begins_far_enough_back(v: Seq<Option<int>>, days: int)
    requires
        v.len() > 0,
        v.last() is Some,
    ensures
        0 <= span_start(v, days) < v.len(),
        forall|i: int|
            span_start(v, days) < i < v.len() && (#[trigger] v[i]) is Some ==> v[i]->Some_0
                > v.last()->Some_0 - days,
        span_start(v, days) > 0 ==> v[span_start(v, days)] is Some
            && v[span_start(v, days)]->Some_0 <= v.last()->Some_0 - days,
        (exists|i: int|
            0 <= i < v.len() && (#[trigger] v[i]) is Some && v[i]->Some_0 <= v.last()->Some_0
                - days) ==> v[span_start(v, days)] is Some && v[span_start(v, days)]->Some_0
            <= v.last()->Some_0 - days,
        (forall|i: int|
            0 <= i < v.len() && (#[trigger] v[i]) is Some ==> v[i]->Some_0 > v.last()->Some_0
                - days) ==> span_start(v, days) == 0,
{
    lemma_span(v, days, v.len() as int);
}

proof fn lemma_span(v: Seq<Option<int>>, days: int, n: int)
    requires
        0 < n <= v.len(),
        v.last() is Some,
    ensures
        ({
            let r = start_among(v, v.last(), days, n);
            &&& 0 <= r < n
            &&& forall|i: int|
                r < i < n && (#[trigger] v[i]) is Some ==> v[i]->Some_0 > v.last()->Some_0 - days
            &&& r > 0 ==> v[r] is Some && v[r]->Some_0 <= v.last()->Some_0 - days
            &&& (exists|i: int|
                0 <= i < n && (#[trigger] v[i]) is Some && v[i]->Some_0 <= v.last()->Some_0 - days)
                ==> v[r] is Some && v[r]->Some_0 <= v.last()->Some_0 - days
        }),
    decreases n,
{
    if v[n - 1] is Some && v[n - 1]->Some_0 <= v.last()->Some_0 - days {
        assert(start_among(v, v.last(), days, n) == n - 1);
    } else if n > 1 {
        lemma_span(v, days, n - 1);
        let r = start_among(v, v.last(), days, n);
        if exists|i: int|
            0 <= i < n && (#[trigger] v[i]) is Some && v[i]->Some_0 <= v.last()->Some_0 - days {
            let i = choose|i: int|
                0 <= i < n && (#[trigger] v[i]) is Some && v[i]->Some_0 <= v.last()->Some_0 - days;
            assert(i < n - 1);
            assert(v[i] is Some && v[i]->Some_0 <= v.last()->Some_0 - days);
        }
    } else {
        assert(start_among(v, v.last(), days, 0) == 0);
    }
}

/// In a report of any number of days the snapshots stand in the order of their dates, and its span
/// begins with the last of them whose day is at most the day of the last snapshot less the days of
/// the report; with the first only where no dated snapshot lies that far back.
pub proof fn law_report_begins_far_enough_back(
    dates: Seq<String>,
    signs: Seq<DaySigns>,
    days: int,
    p: ReportPlan,
    i: int,
    end: int,
)
    requires
        spans(dates, signs, days, p),
        dates.len() >= 2,
        0 <= i < dates.len(),
        day_of(dates[p.order@.last() as int]@) == Some(end),
    ensures
        0 <= p.start < dates.len(),
        p.start > 0 ==> day_of(dates[p.order@[p.start as int] as int]@) is Some && day_of(
            dates[p.order@[p.start as int] as int]@,
        )->Some_0 <= end - days,
        day_of(dates[p.order@[i] as int]@) is Some && day_of(dates[p.order@[i] as int]@)->Some_0
            <= end - days ==> i <= p.start && day_of(dates[p.order@[p.start as int] as int]@) is Some
            && day_of(dates[p.order@[p.start as int] as int]@)->Some_0 <= end - days,
{
    let v = ordered_days(dates, p.order@);
    assert(v.last() == Some(end));
    law_span_begins_far_enough_back(v, days);
    assert(v[i] == day_of(dates[p.order@[i] as int]@));
    assert(v[p.start as int] == day_of(dates[p.order@[p.start as int] as int]@));
}

/// Where the last snapshot has no date that reads as one, the span is the whole of it.
pub proof fn law_span_without_end(v: Seq<Option<int>>, days: int)
    requires
        v.len() > 0,
        v.last() is None,
    ensures
        span_start(v, days) == 0,
{
    lemma_no_span(v, days, v.len() as int);
}

proof fn lemma_no_span(v: Seq<Option<int>>, days: int, n: int)
    requires
        0 <= n <= v.len(),
    ensures
        start_among(v, None, days, n) == 0,
    decreases n,
{
    if n > 0 {
        lemma_no_span(v, days, n - 1);
    }
}

/// The number of marks from a place on is the number of set ones among what stands there.
pub proof fn law_marks_are_counted(v: Seq<bool>, from: int)
    requires
        0 <= from <= v.len(),
    ensures
        marks_from(v, from) == v.skip(from).filter(|b: bool| b).len(),
    decreases v.len() - from,
{
    let f = |b: bool| b;
    if from < v.len() {
        law_marks_are_counted(v, from + 1);
        assert(v.skip(from) =~= seq![v[from]] + v.skip(from + 1));
        Seq::filter_distributes_over_add(seq![v[from]], v.skip(from + 1), f);
        lemma_filter_one(v[from]);
    } else {
        assert(v.skip(from) =~= Seq::<bool>::empty());
        reveal(Seq::filter);
        assert(v.skip(from).filter(f).len() == 0);
    }
}

proof fn lemma_filter_one(b: bool)
    ensures
        seq![b].filter(|c: bool| c).len() == (if b {
            1int
        } else {
            0int
        }),
{
    reveal(Seq::filter);
    assert(seq![b].drop_last() =~= Seq::<bool>::empty());
    assert(seq![b].drop_last().filter(|c: bool| c).len() == 0);
    assert(seq![b].last() == b);
}

/// The days of gain of a report are the snapshots of its span with a gain, the days of loss those with
/// a loss, and likewise for the estimates; without two snapshots there are none.
pub proof fn law_report_counts_days(
    dates: Seq<String>,
    signs: Seq<DaySigns>,
    days: int,
    p: ReportPlan,
)
    requires
        spans(dates, signs, days, p),
        forall|i: int| 0 <= i < signs.len() ==> !((#[trigger] signs[i]).gain && signs[i].loss),
        forall|i: int|
            0 <= i < signs.len() ==> !((#[trigger] signs[i]).est_gain && signs[i].est_loss),
        signs.len() == dates.len(),
    ensures
        p.has_history <==> dates.len() >= 2,
        dates.len() >= 2 ==> {
            let n = (dates.len() - p.start) as nat;
            &&& p.positive_days == Seq::new(
                n,
                |i: int| signs[p.order@[p.start + i] as int].gain,
            ).filter(|b: bool| b).len()
            &&& p.negative_days == Seq::new(
                n,
                |i: int| signs[p.order@[p.start + i] as int].loss,
            ).filter(|b: bool| b).len()
            &&& p.est_positive_days == Seq::new(
                n,
                |i: int| signs[p.order@[p.start + i] as int].est_gain,
            ).filter(|b: bool| b).len()
            &&& p.est_negative_days == Seq::new(
                n,
                |i: int| signs[p.order@[p.start + i] as int].est_loss,
            ).filter(|b: bool| b).len()
        },
        dates.len() < 2 ==> p.start == 0 && p.positive_days == 0 && p.negative_days == 0
            && p.est_positive_days == 0 && p.est_negative_days == 0,
{
    if dates.len() >= 2 {
        let o = p.order@;
        let s = p.start as int;
        let n = (dates.len() - p.start) as nat;
        let a = ordered_marks(signs, o, |s: DaySigns| s.gain);
        let b = ordered_marks(signs, o, |s: DaySigns| s.loss && !s.gain);
        let c = ordered_marks(signs, o, |s: DaySigns| s.est_gain);
        let d = ordered_marks(signs, o, |s: DaySigns| s.est_loss && !s.est_gain);
        law_marks_are_counted(a, s);
        law_marks_are_counted(b, s);
        law_marks_are_counted(c, s);
        law_marks_are_counted(d, s);
        assert(a.skip(s) =~= Seq::new(n, |i: int| signs[o[p.start + i] as int].gain));
        assert(b.skip(s) =~= Seq::new(n, |i: int| signs[o[p.start + i] as int].loss)) by {
            assert forall|i: int| 0 <= i < n implies #[trigger] b.skip(s)[i]
                == signs[o[p.start + i] as int].loss by {
                assert(o[p.start + i] < dates.len());
                assert(!(signs[o[p.start + i] as int].gain && signs[o[p.start + i] as int].loss));
            }
        }
        assert(c.skip(s) =~= Seq::new(n, |i: int| signs[o[p.start + i] as int].est_gain));
        assert(d.skip(s) =~= Seq::new(n, |i: int| signs[o[p.start + i] as int].est_loss)) by {
            assert forall|i: int| 0 <= i < n implies #[trigger] d.skip(s)[i]
                == signs[o[p.start + i] as int].est_loss by {
                assert(o[p.start + i] < dates.len());
                assert(!(signs[o[p.start + i] as int].est_gain
                    && signs[o[p.start + i] as int].est_loss));
            }
        }
    }
}

/// The calendar of so many months shows exactly the dated snapshots of the last thirty days for each
/// month, today with them and none of a later day; of no month it shows today and the day before.
pub proof fn law_calendar_shows_its_days(
    days: Seq<Option<int>>,
    today: int,
    months: int,
    i: int,
)
    requires
        0 <= i < days.len() <= usize::MAX,
    ensures
        months >= 1 ==> (picked(calendar_marks(days, today, months)).contains(i as usize)
            <==> days[i] is Some && today - 30 * months <= days[i]->Some_0 <= today),
        months < 1 ==> (picked(calendar_marks(days, today, months)).contains(i as usize)
            <==> days[i] is Some && today - 1 <= days[i]->Some_0 <= today),
{
    law_picked_iff(calendar_marks(days, today, months), i);
}

/// A range of one, three or six months begins thirty, ninety or a hundred and eighty days before
/// today; any other range has no beginning.
pub proof fn law_ranges_begin_months_ago(
    range: Seq<char>,
    today: int,
    cut: Option<Seq<char>>,
) -> (d: Date)
    requires
        cuts_off(range, today, cut),
    ensures
        range != "1m"@ && range != "3m"@ && range != "6m"@ ==> cut is None,
        range == "1m"@ ==> d.number() == today - 30,
        range == "3m"@ ==> d.number() == today - 90,
        range == "6m"@ ==> d.number() == today - 180,
        range == "1m"@ || range == "3m"@ || range == "6m"@ ==> d.valid() && cut == Some(
            iso_of(d.year as int, d.month as int, d.day as int),
        ),
{
    reveal_strlit("1m");
    reveal_strlit("3m");
    reveal_strlit("6m");
    assert("1m"@[0] == '1' && "3m"@[0] == '3' && "6m"@[0] == '6');
    choose|d: Date|
        d.valid() && cut->Some_0 == #[trigger] iso_of(d.year as int, d.month as int, d.day as int)
            && d.number() == today - (if range == "1m"@ {
            30int
        } else if range == "3m"@ {
            90
        } else {
            180
        })
}

/// A curve shows exactly the points from the beginning of its range on, that day with them; and all
/// of them where the range has no beginning.
pub proof fn law_curve_shows_its_range(cut: Option<Seq<char>>, dates: Seq<String>, i: int)
    requires
        0 <= i < dates.len() <= usize::MAX,
    ensures
        cut is None ==> picked(range_marks(cut, dates)).contains(i as usize),
        cut is Some ==> (picked(range_marks(cut, dates)).contains(i as usize) <==> dates[i]@
            == cut->Some_0 || lex_lt(cut->Some_0, dates[i]@)),
{
    law_picked_iff(range_marks(cut, dates), i);
    assert(range_marks(cut, dates)[i] == passes(cut, dates[i]@));
    if cut is Some {
        lemma_lex_total(cut->Some_0, dates[i]@);
        crate::text::lemma_lex_irreflexive(dates[i]@);
        if lex_lt(cut->Some_0, dates[i]@) && lex_lt(dates[i]@, cut->Some_0) {
            crate::text::lemma_lex_transitive(cut->Some_0, dates[i]@, cut->Some_0);
            crate::text::lemma_lex_irreflexive(cut->Some_0);
        }
    }
}

/// The day of a text is the number of the date that it reads as.
pub proof fn law_day_of_a_text(s: Seq<char>)
    ensures
        read_ymd(s) is None ==> day_of(s) is None,
        read_ymd(s) matches Some(p) ==> day_of(s) == Some(day_number(p.0, p.1, p.2)),
{
}

/// A report takes every snapshot once, in the order of the dates, and those of one date as they stood.
pub proof fn law_snapshots_by_date(
    dates: Seq<String>,
    signs: Seq<DaySigns>,
    days: int,
    p: ReportPlan,
    i: int,
    j: int,
)
    requires
        spans(dates, signs, days, p),
        0 <= i < j < p.order@.len(),
    ensures
        p.order@.len() == dates.len(),
        p.order@[i] < dates.len() && p.order@[j] < dates.len(),
        p.order@[i] != p.order@[j],
        lex_lt(dates[p.order@[i] as int]@, dates[p.order@[j] as int]@) || (dates[p.order@[i] as int]@
            == dates[p.order@[j] as int]@ && p.order@[i] < p.order@[j]),
{
}

} // verus!
