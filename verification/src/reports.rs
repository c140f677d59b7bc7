//! Reports over a span of days, the calendar of gains and the curves of a fund.
use vstd::prelude::*;
use crate::date::{day_number, lemma_day_back, iso_of, read_ymd, valid_ymd, Date, FIRST_DAY};
use crate::order::{stable_order, TextUp};
use crate::pick::{pick, picked};
use crate::text::{is_before, lemma_lex_irreflexive, lemma_lex_total, lemma_lex_transitive, lex_lt, same};

verus! {

/// The number of the day that a text names, where it reads as a date.
pub open spec fn day_of(s: Seq<char>) -> Option<int> {
    match read_ymd(s) {
        Some(p) => Some(day_number(p.0, p.1, p.2)),
        None => None,
    }
}

/// The number of the day that a text names, where it reads as a date.
pub fn read_day(s: &str) -> (r: Option<i32>)
    ensures
        match r {
            Some(n) => day_of(s@) == Some(n as int) && -100_000_000 < n < 100_000_000,
            None => day_of(s@) is None,
        },
{
    match Date::parse(s) {
        Some(d) => Some(d.count()),
        None => None,
    }
}

/// The days that texts name.
pub fn read_days(dates: &Vec<String>) -> (r: Vec<Option<i32>>)
    ensures
        day_views(r@) == dates@.map_values(|d: String| day_of(d@)),
        days_in_range(r@),
{
    let mut r: Vec<Option<i32>> = Vec::new();
    let mut i: usize = 0;
    while i < dates.len()
        invariant
            i <= dates@.len(),
            r@.len() == i,
            days_in_range(r@),
            forall|k: int| 0 <= k < i ==> day_view(#[trigger] r@[k]) == day_of(dates@[k]@),
        decreases dates@.len() - i,
    {
        r.push(read_day(dates[i].as_str()));
        i += 1;
    }
    assert(day_views(r@) =~= dates@.map_values(|d: String| day_of(d@)));
    r
}

/// The number of a day as a mathematical one.
pub open spec fn day_view(d: Option<i32>) -> Option<int> {
    match d {
        Some(n) => Some(n as int),
        None => None,
    }
}

/// The numbers of days as mathematical ones.
pub open spec fn day_views(v: Seq<Option<i32>>) -> Seq<Option<int>> {
    v.map_values(|d: Option<i32>| day_view(d))
}

/// All days are such as a date can have.
pub open spec fn days_in_range(v: Seq<Option<i32>>) -> bool {
    forall|i: int|
        0 <= i < v.len() ==> ((#[trigger] v[i]) matches Some(n) ==> -100_000_000 < n < 100_000_000)
}

// ---------------------------------------------------------------------------
// Reports
// ---------------------------------------------------------------------------

/// The snapshot lies at least that many days before the end.
pub open spec fn far_enough(d: Option<int>, end: Option<int>, days: int) -> bool {
    d is Some && end is Some && end->Some_0 - d->Some_0 >= days
}

/// The last of the first `n` snapshots that lies far enough before the end; the first one where none
/// does.
pub open spec fn start_among(v: Seq<Option<int>>, end: Option<int>, days: int, n: int) -> int
    decreases n,
{
    if n <= 0 {
        0
    } else if far_enough(v[n - 1], end, days) {
        n - 1
    } else {
        start_among(v, end, days, n - 1)
    }
}

/// Where the span of a report begins among snapshots in the order of their dates.
pub open spec fn span_start(v: Seq<Option<int>>, days: int) -> int {
    start_among(v, v.last(), days, v.len() as int)
}

/// Where the span of a report of so many days begins, given the days of the snapshots in the order
/// of their dates.
pub fn start_of_span(v: &Vec<Option<i32>>, days: i64) -> (r: usize)
    requires
        v@.len() > 0,
        days_in_range(v@),
    ensures
        r < v@.len(),
        r == span_start(day_views(v@), days as int),
        v@.last() is Some && v@[r as int] is Some && v@[r as int]->Some_0 <= v@.last()->Some_0
            - days || r == 0,
        v@.last() is Some ==> forall|i: int|
            r < i < v@.len() && (#[trigger] v@[i]) is Some ==> v@[i]->Some_0 > v@.last()->Some_0
                - days,
        v@.last() is Some && r == 0 ==> forall|i: int|
            0 < i < v@.len() && (#[trigger] v@[i]) is Some ==> v@[i]->Some_0 > v@.last()->Some_0
                - days,
{
    let ghost dv = day_views(v@);
    let last = v[v.len() - 1];
    let mut i: usize = v.len();
    assert(day_view(last) == dv.last());
    while i > 0
        invariant
            i <= v@.len(),
            v@.len() > 0,
            days_in_range(v@),
            dv == day_views(v@),
            last == v@.last(),
            day_view(last) == dv.last(),
            span_start(dv, days as int) == start_among(dv, dv.last(), days as int, i as int),
            last is Some ==> forall|k: int|
                i <= k < v@.len() && (#[trigger] v@[k]) is Some ==> v@[k]->Some_0 > last->Some_0
                    - days,
        decreases i,
    {
        assert(dv[i - 1] == day_view(v@[i - 1]));
        match (v[i - 1], last) {
            (Some(d), Some(e)) => {
                assert(v@[i - 1] matches Some(n) && n == d);
                assert(v@[v@.len() - 1] matches Some(n) && n == e);
                if e as i64 - d as i64 >= days {
                    return i - 1;
                }
            },
            _ => {},
        }
        i -= 1;
    }
    0
}

/// Number of set marks from a position on.
pub open spec fn marks_from(v: Seq<bool>, from: int) -> int
    decreases v.len() - from,
{
    if from >= v.len() || from < 0 {
        0
    } else {
        marks_from(v, from + 1) + (if v[from] {
            1int
        } else {
            0int
        })
    }
}

/// Number of set marks from a position on.
pub fn count_from(v: &Vec<bool>, from: usize) -> (r: usize)
    requires
        from <= v@.len(),
    ensures
        r == marks_from(v@, from as int),
        r <= v@.len() - from,
{
    let mut r: usize = 0;
    let mut i: usize = v.len();
    while i > from
        invariant
            from <= i <= v.len(),
            r == marks_from(v@, i as int),
            r <= v.len() - i,
        decreases i,
    {
        i -= 1;
        if v[i] {
            r += 1;
        }
    }
    r
}

/// Signs of the gains of a snapshot's day.
#[derive(Debug, Clone, Copy, PartialEq, Eq, Structural)]
pub struct DaySigns {
    /// The gain is above zero.
    pub gain: bool,
    /// The gain is below zero.
    pub loss: bool,
    /// The estimated gain is above zero.
    pub est_gain: bool,
    /// The estimated gain is below zero.
    pub est_loss: bool,
}

/// The span of a report and the days in it.
pub struct ReportPlan {
    /// Positions of the snapshots in the order of their dates.
    pub order: Vec<usize>,
    /// Place in that order at which the span begins; it ends with the last snapshot.
    pub start: usize,
    /// There are two snapshots to compare.
    pub has_history: bool,
    pub positive_days: usize,
    pub negative_days: usize,
    pub est_positive_days: usize,
    pub est_negative_days: usize,
}

/// The days of the snapshots in an order.
pub open spec fn ordered_days(dates: Seq<String>, order: Seq<usize>) -> Seq<Option<int>> {
    Seq::new(order.len(), |i: int| day_of(dates[order[i] as int]@))
}

/// Which snapshots of an order have a sign.
pub open spec fn ordered_marks(
    signs: Seq<DaySigns>,
    order: Seq<usize>,
    f: spec_fn(DaySigns) -> bool,
) -> Seq<bool> {
    Seq::new(order.len(), |i: int| f(signs[order[i] as int]))
}

/// `p` is the span of a report of so many days.
pub open spec fn spans(dates: Seq<String>, signs: Seq<DaySigns>, days: int, p: ReportPlan) -> bool {
    let o = p.order@;
    let from = p.start as int;
    &&& o.len() == dates.len()
    &&& forall|i: int| 0 <= i < o.len() ==> (#[trigger] o[i]) < dates.len()
    &&& o.no_duplicates()
    &&& forall|i: int, j: int|
        0 <= i < j < o.len() ==> lex_lt(
            dates[#[trigger] o[i] as int]@,
            dates[#[trigger] o[j] as int]@,
        ) || (dates[o[i] as int]@ == dates[o[j] as int]@ && o[i] < o[j])
    &&& p.has_history == (dates.len() >= 2)
    &&& if p.has_history {
        &&& from == span_start(ordered_days(dates, o), days)
        &&& 0 <= from < o.len()
        &&& p.positive_days == marks_from(ordered_marks(signs, o, |s: DaySigns| s.gain), from)
        &&& p.negative_days == marks_from(
            ordered_marks(signs, o, |s: DaySigns| s.loss && !s.gain),
            from,
        )
        &&& p.est_positive_days == marks_from(
            ordered_marks(signs, o, |s: DaySigns| s.est_gain),
            from,
        )
        &&& p.est_negative_days == marks_from(
            ordered_marks(signs, o, |s: DaySigns| s.est_loss && !s.est_gain),
            from,
        )
    } else {
        p.start == 0 && p.positive_days == 0 && p.negative_days == 0 && p.est_positive_days == 0
            && p.est_negative_days == 0
    }
}

/// The snapshots in the order of their dates.
fn date_order(dates: &Vec<String>) -> (o: Vec<usize>)
    ensures
        o@.len() == dates@.len(),
        forall|i: int| 0 <= i < o@.len() ==> (#[trigger] o@[i]) < dates@.len(),
        o@.no_duplicates(),
        forall|i: int, j: int|
            0 <= i < j < o@.len() ==> lex_lt(
                dates@[#[trigger] o@[i] as int]@,
                dates@[#[trigger] o@[j] as int]@,
            ) || (dates@[o@[i] as int]@ == dates@[o@[j] as int]@ && o@[i] < o@[j]),
{
    let mut keys: Vec<TextUp> = Vec::new();
    let mut i: usize = 0;
    while i < dates.len()
        invariant
            i <= dates@.len(),
            keys@.len() == i,
            forall|k: int| 0 <= k < i ==> (#[trigger] keys@[k]).text@ == dates@[k]@,
        decreases dates@.len() - i,
    {
        keys.push(TextUp { text: dates[i].clone() });
        i += 1;
    }
    let o = stable_order(&keys);
    proof {
        assert forall|i: int, j: int| 0 <= i < j < o@.len() implies lex_lt(
            dates@[#[trigger] o@[i] as int]@,
            dates@[#[trigger] o@[j] as int]@,
        ) || (dates@[o@[i] as int]@ == dates@[o@[j] as int]@ && o@[i] < o@[j]) by {
            let a = o@[i] as int;
            let b = o@[j] as int;
            assert(crate::order::precedes(keys@, a, b));
            lemma_lex_total(dates@[a]@, dates@[b]@);
        }
    }
    o
}

/// The span of a report of so many days.
pub fn plan_report(dates: &Vec<String>, signs: &Vec<DaySigns>, days: i64) -> (p: ReportPlan)
    requires
        signs@.len() == dates@.len(),
    ensures
        spans(dates@, signs@, days as int, p),
{
    let order = date_order(dates);
    if dates.len() < 2 {
        return ReportPlan {
            order,
            start: 0,
            has_history: false,
            positive_days: 0,
            negative_days: 0,
            est_positive_days: 0,
            est_negative_days: 0,
        };
    }
    let mut dated: Vec<Option<i32>> = Vec::new();
    let mut up: Vec<bool> = Vec::new();
    let mut down: Vec<bool> = Vec::new();
    let mut est_up: Vec<bool> = Vec::new();
    let mut est_down: Vec<bool> = Vec::new();
    let mut i: usize = 0;
    while i < order.len()
        invariant
            i <= order@.len(),
            order@.len() == dates@.len(),
            signs@.len() == dates@.len(),
            forall|k: int| 0 <= k < order@.len() ==> (#[trigger] order@[k]) < dates@.len(),
            dated@.len() == i,
            up@.len() == i,
            down@.len() == i,
            est_up@.len() == i,
            est_down@.len() == i,
            days_in_range(dated@),
            forall|k: int|
                0 <= k < i ==> day_view(#[trigger] dated@[k]) == day_of(
                    dates@[order@[k] as int]@,
                ),
            forall|k: int|
                0 <= k < i ==> #[trigger] up@[k] == signs@[order@[k] as int].gain,
            forall|k: int|
                0 <= k < i ==> #[trigger] down@[k] == (signs@[order@[k] as int].loss
                    && !signs@[order@[k] as int].gain),
            forall|k: int|
                0 <= k < i ==> #[trigger] est_up@[k] == signs@[order@[k] as int].est_gain,
            forall|k: int|
                0 <= k < i ==> #[trigger] est_down@[k] == (signs@[order@[k] as int].est_loss
                    && !signs@[order@[k] as int].est_gain),
        decreases order@.len() - i,
    {
        let n = order[i];
        dated.push(read_day(dates[n].as_str()));
        let s = signs[n];
        up.push(s.gain);
        down.push(s.loss && !s.gain);
        est_up.push(s.est_gain);
        est_down.push(s.est_loss && !s.est_gain);
        i += 1;
    }
    let start = start_of_span(&dated, days);
    proof {
        assert(day_views(dated@) =~= ordered_days(dates@, order@));
        assert(up@ =~= ordered_marks(signs@, order@, |s: DaySigns| s.gain));
        assert(down@ =~= ordered_marks(signs@, order@, |s: DaySigns| s.loss && !s.gain));
        assert(est_up@ =~= ordered_marks(signs@, order@, |s: DaySigns| s.est_gain));
        assert(est_down@ =~= ordered_marks(
            signs@,
            order@,
            |s: DaySigns| s.est_loss && !s.est_gain,
        ));
    }
    ReportPlan {
        start,
        has_history: true,
        positive_days: count_from(&up, start),
        negative_days: count_from(&down, start),
        est_positive_days: count_from(&est_up, start),
        est_negative_days: count_from(&est_down, start),
        order,
    }
}

/// The number of days that a report covers, by its name.
pub fn report_days(period: &str) -> (r: Option<i64>)
    ensures
        r == (if period@ == "daily"@ {
            Some(1i64)
        } else if period@ == "weekly"@ {
            Some(7i64)
        } else if period@ == "monthly"@ {
            Some(30i64)
        } else if period@ == "yearly"@ {
            Some(365i64)
        } else {
            None
        }),
{
    if same(period, "daily") {
        Some(1)
    } else if same(period, "weekly") {
        Some(7)
    } else if same(period, "monthly") {
        Some(30)
    } else if same(period, "yearly") {
        Some(365)
    } else {
        None
    }
}

// ---------------------------------------------------------------------------
// The calendar of gains
// ---------------------------------------------------------------------------

/// How many days back the calendar reaches.
pub open spec fn calendar_reach(months: int) -> int {
    if months * 30 > 1 {
        months * 30
    } else {
        1
    }
}

/// Which snapshots lie within the days of the calendar.
pub open spec fn calendar_marks(days: Seq<Option<int>>, today: int, months: int) -> Seq<bool> {
    days.map_values(
        |d: Option<int>| d is Some && today - calendar_reach(months) <= d->Some_0 <= today,
    )
}

/// The snapshots that lie within the calendar, given the days they are of.
pub fn within_calendar(days: &Vec<Option<i32>>, today: i32, months: i64) -> (r: Vec<usize>)
    requires
        -100_000_000 < today < 100_000_000,
        today - calendar_reach(months as int) >= FIRST_DAY,
    ensures
        r@ == picked(calendar_marks(day_views(days@), today as int, months as int)),
{
    let ghost want = calendar_marks(day_views(days@), today as int, months as int);
    assert(months * 30 <= 200_000_000);
    let reach: i64 = if months >= 1 {
        months * 30
    } else {
        1
    };
    assert(reach == calendar_reach(months as int));
    let first: i64 = today as i64 - reach;
    let mut marks: Vec<bool> = Vec::new();
    let mut i: usize = 0;
    while i < days.len()
        invariant
            want == calendar_marks(day_views(days@), today as int, months as int),
            first == today - calendar_reach(months as int),
            i <= days@.len(),
            marks@.len() == i,
            forall|k: int| 0 <= k < i ==> #[trigger] marks@[k] == want[k],
        decreases days@.len() - i,
    {
        assert(want[i as int] == (day_view(days@[i as int]) is Some && first <= day_view(
            days@[i as int],
        )->Some_0 <= today));
        let inside = match days[i] {
            Some(d) => first <= d as i64 && d <= today,
            None => false,
        };
        marks.push(inside);
        i += 1;
    }
    assert(marks@ =~= want);
    pick(&marks)
}

/// The snapshots that lie within the calendar of so many months before today.
pub fn pnl_calendar(dates: &Vec<String>, today: Date, months: i64) -> (r: Vec<usize>)
    requires
        today.valid(),
        today.number() - calendar_reach(months as int) >= FIRST_DAY,
    ensures
        r@ == picked(
            calendar_marks(
                dates@.map_values(|d: String| day_of(d@)),
                today.number(),
                months as int,
            ),
        ),
{
    let days = read_days(dates);
    within_calendar(&days, today.count(), months)
}

// ---------------------------------------------------------------------------
// Curves
// ---------------------------------------------------------------------------

/// How many days back a range reaches; any other name stands for all.
pub open spec fn range_reach(range: Seq<char>) -> Option<int> {
    if range == "1m"@ {
        Some(30)
    } else if range == "3m"@ {
        Some(90)
    } else if range == "6m"@ {
        Some(180)
    } else {
        None
    }
}

/// `cut` is the first day of a range that ends today.
pub open spec fn cuts_off(range: Seq<char>, today: int, cut: Option<Seq<char>>) -> bool {
    match range_reach(range) {
        Some(n) => cut is Some && exists|d: Date|
            d.valid() && d.number() == today - n && cut->Some_0 == #[trigger] iso_of(
                d.year as int,
                d.month as int,
                d.day as int,
            ),
        None => cut is None,
    }
}

/// The text of an optional string.
pub open spec fn cut_view(c: Option<String>) -> Option<Seq<char>> {
    match c {
        Some(s) => Some(s@),
        None => None,
    }
}

/// The first day of a range that ends today, where it does not stand for all.
pub fn range_cutoff(range: &str, today: Date) -> (r: Option<String>)
    requires
        today.valid(),
        range_reach(range@) matches Some(n) ==> today.number() - n >= FIRST_DAY,
    ensures
        cuts_off(range@, today.number(), cut_view(r)),
{
    let days: i32 = if same(range, "1m") {
        30
    } else if same(range, "3m") {
        90
    } else if same(range, "6m") {
        180
    } else {
        return None;
    };
    match today.minus_days(days) {
        Some(d) => {
            let s = d.iso();
            assert(s@ == iso_of(d.year as int, d.month as int, d.day as int));
            Some(s)
        },
        None => {
            proof {
                let d = lemma_day_back(today, days as int);
                assert(valid_ymd(d.year as int, d.month as int, d.day as int));
                assert(false);
            }
            None
        },
    }
}

/// A date is within a range that begins at a cut.
pub open spec fn passes(cut: Option<Seq<char>>, date: Seq<char>) -> bool {
    match cut {
        Some(c) => !lex_lt(date, c),
        None => true,
    }
}

/// Whether a date is within a range that begins at a cut.
pub fn is_within(cut: &Option<String>, date: &str) -> (r: bool)
    ensures
        r == passes(cut_view(*cut), date@),
{
    match cut {
        Some(c) => !is_before(date, c.as_str()),
        None => true,
    }
}

/// Which dates are within a range.
pub open spec fn range_marks(cut: Option<Seq<char>>, dates: Seq<String>) -> Seq<bool> {
    dates.map_values(|d: String| passes(cut, d@))
}

/// The records whose dates are within a range.
pub fn within_range(cut: &Option<String>, dates: &Vec<String>) -> (r: Vec<usize>)
    ensures
        r@ == picked(range_marks(cut_view(*cut), dates@)),
{
    let mut marks: Vec<bool> = Vec::new();
    let mut i: usize = 0;
    while i < dates.len()
        invariant
            i <= dates@.len(),
            marks@.len() == i,
            forall|k: int|
                0 <= k < i ==> #[trigger] marks@[k] == range_marks(cut_view(*cut), dates@)[k],
        decreases dates@.len() - i,
    {
        marks.push(is_within(cut, dates[i].as_str()));
        i += 1;
    }
    assert(marks@ =~= range_marks(cut_view(*cut), dates@));
    pick(&marks)
}

/// The dates of the points that stand in for an empty history.
pub struct StandIn {
    /// Date of the value of the day before, where it is shown.
    pub prev: Option<String>,
    /// Date of the official value, where it is shown.
    pub last: Option<String>,
}

/// The points that stand in for an empty history: the official value on its date, and before it the
/// value of the day before. `before` is the day before the official one, where that reads as a date.
pub fn stand_in(
    cut: &Option<String>,
    nav_date: &str,
    nav_positive: bool,
    prev_positive: bool,
    before: &Option<String>,
) -> (r: StandIn)
    ensures
        ({
            let shown = nav_positive && nav_date@.len() > 0 && passes(cut_view(*cut), nav_date@);
            &&& cut_view(r.last) == (if shown {
                Some(nav_date@)
            } else {
                None
            })
            &&& cut_view(r.prev) == (if shown && prev_positive && before is Some && passes(
                cut_view(*cut),
                before->Some_0@,
            ) {
                Some(before->Some_0@)
            } else {
                None
            })
        }),
{
    if !nav_positive || nav_date.is_empty() || !is_within(cut, nav_date) {
        return StandIn { prev: None, last: None };
    }
    let prev = match before {
        Some(b) => {
            if prev_positive && is_within(cut, b.as_str()) {
                Some(b.clone())
            } else {
                None
            }
        },
        None => None,
    };
    StandIn { prev, last: Some(nav_date.to_owned()) }
}

/// The day before the one that a text names, where it reads as a date with a day before it.
pub fn day_before(s: &str) -> (r: Option<String>)
    ensures
        match r {
            Some(t) => day_of(s@) is Some && exists|d: Date|
                d.valid() && d.number() == day_of(s@)->Some_0 - 1 && t@ == #[trigger] iso_of(
                    d.year as int,
                    d.month as int,
                    d.day as int,
                ),
            None => day_of(s@) is None || forall|y: int, m: int, d: int| #[trigger]
                valid_ymd(y, m, d) ==> day_number(y, m, d) != day_of(s@)->Some_0 - 1,
        },
{
    match Date::parse(s) {
        Some(d) => match d.minus_days(1) {
            Some(p) => {
                let t = p.iso();
                assert(t@ == iso_of(p.year as int, p.month as int, p.day as int));
                Some(t)
            },
            None => None,
        },
        None => None,
    }
}

/// The first and the last of some dates; the last only where it is another one.
pub fn cost_line(dates: &Vec<String>) -> (r: Option<(String, Option<String>)>)
    ensures
        match r {
            Some(p) => {
                let last = match p.1 {
                    Some(l) => l@,
                    None => p.0@,
                };
                &&& dates@.len() > 0
                &&& exists|i: int| 0 <= i < dates@.len() && (#[trigger] dates@[i])@ == p.0@
                &&& exists|i: int| 0 <= i < dates@.len() && (#[trigger] dates@[i])@ == last
                &&& forall|i: int|
                    0 <= i < dates@.len() ==> !lex_lt((#[trigger] dates@[i])@, p.0@) && !lex_lt(
                        last,
                        dates@[i]@,
                    )
                &&& p.1 is Some ==> last != p.0@
            },
            None => dates@.len() == 0,
        },
{
    if dates.len() == 0 {
        return None;
    }
    let mut lo: usize = 0;
    let mut hi: usize = 0;
    let mut i: usize = 1;
    proof {
        lemma_lex_irreflexive(dates@[0]@);
    }
    while i < dates.len()
        invariant
            lo < i <= dates@.len(),
            hi < i,
            forall|k: int|
                0 <= k < i ==> !lex_lt((#[trigger] dates@[k])@, dates@[lo as int]@) && !lex_lt(
                    dates@[hi as int]@,
                    dates@[k]@,
                ),
        decreases dates@.len() - i,
    {
        let ghost lo0 = lo as int;
        let ghost hi0 = hi as int;
        if is_before(dates[i].as_str(), dates[lo].as_str()) {
            lo = i;
        }
        if is_before(dates[hi].as_str(), dates[i].as_str()) {
            hi = i;
        }
        proof {
            let d = dates@[i as int]@;
            lemma_lex_irreflexive(d);
            assert forall|k: int| 0 <= k < i + 1 implies !lex_lt(
                (#[trigger] dates@[k])@,
                dates@[lo as int]@,
            ) && !lex_lt(dates@[hi as int]@, dates@[k]@) by {
                if k < i {
                    if lo == i && lex_lt(dates@[k]@, d) {
                        lemma_lex_transitive(dates@[k]@, d, dates@[lo0]@);
                    }
                    if hi == i && lex_lt(d, dates@[k]@) {
                        lemma_lex_transitive(dates@[hi0]@, d, dates@[k]@);
                    }
                }
            }
        }
        i += 1;
    }
    let first = dates[lo].clone();
    let last = dates[hi].clone();
    assert(dates@[lo as int]@ == first@);
    assert(dates@[hi as int]@ == last@);
    if same(first.as_str(), last.as_str()) {
        Some((first, None))
    } else {
        Some((first, Some(last)))
    }
}

/// What a history that could not be fetched amounts to: nothing new where some of it is there, else
/// the error.
pub fn history_fallback(stored: usize) -> (r: Result<usize, String>)
    ensures
        match r {
            Ok(n) => stored > 0 && n == 0,
            Err(m) => stored == 0 && m@ == "拉取历史净值失败（网络或接口异常）"@,
        },
{
    if stored > 0 {
        Ok(0)
    } else {
        Err("拉取历史净值失败（网络或接口异常）".to_owned())
    }
}

// ---------------------------------------------------------------------------
// Laws
// ---------------------------------------------------------------------------

/// The span of a report begins with the latest snapshot that lies far enough before the end: none
/// after it does.
pub proof fn law_span_is_tight(v: Seq<Option<int>>, days: int)
    requires
        v.len() > 0,
    ensures
        0 <= span_start(v, days) < v.len(),
        forall|i: int|
            span_start(v, days) < i < v.len() ==> !far_enough(#[trigger] v[i], v.last(), days),
        far_enough(v[span_start(v, days)], v.last(), days) || span_start(v, days) == 0,
{
    lemma_start_among(v, v.last(), days, v.len() as int);
}

proof fn lemma_start_among(v: Seq<Option<int>>, end: Option<int>, days: int, n: int)
    requires
        0 <= n <= v.len(),
    ensures
        0 <= start_among(v, end, days, n),
        n > 0 ==> start_among(v, end, days, n) < n,
        forall|i: int|
            start_among(v, end, days, n) < i < n ==> !far_enough(#[trigger] v[i], end, days),
        far_enough(v[start_among(v, end, days, n)], end, days) || start_among(v, end, days, n) == 0,
    decreases n,
{
    if n > 0 && !far_enough(v[n - 1], end, days) {
        lemma_start_among(v, end, days, n - 1);
    }
}

/// A day of the span counts as a day of gain or as one of loss, never as both.
pub proof fn law_days_counted_once(dates: Seq<String>, signs: Seq<DaySigns>, days: int, p: ReportPlan)
    requires
        spans(dates, signs, days, p),
    ensures
        p.positive_days + p.negative_days <= dates.len() - p.start,
        p.est_positive_days + p.est_negative_days <= dates.len() - p.start,
{
    if p.has_history {
        let o = p.order@;
        lemma_marks_disjoint(
            ordered_marks(signs, o, |s: DaySigns| s.gain),
            ordered_marks(signs, o, |s: DaySigns| s.loss && !s.gain),
            p.start as int,
        );
        lemma_marks_disjoint(
            ordered_marks(signs, o, |s: DaySigns| s.est_gain),
            ordered_marks(signs, o, |s: DaySigns| s.est_loss && !s.est_gain),
            p.start as int,
        );
    }
}

proof fn lemma_marks_disjoint(a: Seq<bool>, b: Seq<bool>, from: int)
    requires
        a.len() == b.len(),
        0 <= from <= a.len(),
        forall|i: int| 0 <= i < a.len() ==> !(#[trigger] a[i] && b[i]),
    ensures
        marks_from(a, from) + marks_from(b, from) <= a.len() - from,
    decreases a.len() - from,
{
    if from < a.len() {
        lemma_marks_disjoint(a, b, from + 1);
        assert(!(a[from] && b[from]));
    }
}

} // verus!
