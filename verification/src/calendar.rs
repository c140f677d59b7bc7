//! The trading calendar of the mainland exchanges, the session clock and the reports that are due.
use vstd::prelude::*;
use vstd::utf8::*;
use crate::date::{day_number, is_earlier, iso_of, valid_ymd, Date, MIN_YEAR, MAX_YEAR};
use crate::sector::{does_mention, listed, mentions};
use crate::text::{begins, contains, decimal, decimal_of, same, starts_with};

verus! {

// ---------------------------------------------------------------------------
// Days off that are known without asking anyone
// ---------------------------------------------------------------------------

/// Days off in the first part of 2024.
#[verifier::opaque]
pub open spec fn off_days_2024_early() -> Seq<&'static str> {
    seq![
        "2024-01-01",
        "2024-02-10",
        "2024-02-11",
        "2024-02-12",
        "2024-02-13",
        "2024-02-14",
        "2024-02-15",
        "2024-02-16",
        "2024-02-17",
        "2024-04-04",
        "2024-04-05",
        "2024-04-06",
        "2024-05-01",
        "2024-05-02",
    ]
}

/// The dates of `off_days_2024_early`.
fn list_off_days_2024_early() -> (r: Vec<&'static str>)
    ensures
        r@ == off_days_2024_early(),
{
    reveal(off_days_2024_early);
    let mut r: Vec<&'static str> = Vec::new();
    r.push("2024-01-01");
    r.push("2024-02-10");
    r.push("2024-02-11");
    r.push("2024-02-12");
    r.push("2024-02-13");
    r.push("2024-02-14");
    r.push("2024-02-15");
    r.push("2024-02-16");
    r.push("2024-02-17");
    r.push("2024-04-04");
    r.push("2024-04-05");
    r.push("2024-04-06");
    r.push("2024-05-01");
    r.push("2024-05-02");
    r
}

/// Days off in the rest of 2024.
#[verifier::opaque]
pub open spec fn off_days_2024_late() -> Seq<&'static str> {
    seq![
        "2024-05-03",
        "2024-05-04",
        "2024-05-05",
        "2024-06-10",
        "2024-09-15",
        "2024-09-16",
        "2024-09-17",
        "2024-10-01",
        "2024-10-02",
        "2024-10-03",
        "2024-10-04",
        "2024-10-05",
        "2024-10-06",
        "2024-10-07",
    ]
}

/// The dates of `off_days_2024_late`.
fn list_off_days_2024_late() -> (r: Vec<&'static str>)
    ensures
        r@ == off_days_2024_late(),
{
    reveal(off_days_2024_late);
    let mut r: Vec<&'static str> = Vec::new();
    r.push("2024-05-03");
    r.push("2024-05-04");
    r.push("2024-05-05");
    r.push("2024-06-10");
    r.push("2024-09-15");
    r.push("2024-09-16");
    r.push("2024-09-17");
    r.push("2024-10-01");
    r.push("2024-10-02");
    r.push("2024-10-03");
    r.push("2024-10-04");
    r.push("2024-10-05");
    r.push("2024-10-06");
    r.push("2024-10-07");
    r
}

/// Days off in the first part of 2025.
#[verifier::opaque]
pub open spec fn off_days_2025_early() -> Seq<&'static str> {
    seq![
        "2025-01-01",
        "2025-01-28",
        "2025-01-29",
        "2025-01-30",
        "2025-01-31",
        "2025-02-01",
        "2025-02-02",
        "2025-02-03",
        "2025-02-04",
        "2025-04-04",
        "2025-04-05",
        "2025-04-06",
        "2025-05-01",
        "2025-05-02",
    ]
}

/// The dates of `off_days_2025_early`.
fn list_off_days_2025_early() -> (r: Vec<&'static str>)
    ensures
        r@ == off_days_2025_early(),
{
    reveal(off_days_2025_early);
    let mut r: Vec<&'static str> = Vec::new();
    r.push("2025-01-01");
    r.push("2025-01-28");
    r.push("2025-01-29");
    r.push("2025-01-30");
    r.push("2025-01-31");
    r.push("2025-02-01");
    r.push("2025-02-02");
    r.push("2025-02-03");
    r.push("2025-02-04");
    r.push("2025-04-04");
    r.push("2025-04-05");
    r.push("2025-04-06");
    r.push("2025-05-01");
    r.push("2025-05-02");
    r
}

/// Days off in the rest of 2025.
#[verifier::opaque]
pub open spec fn off_days_2025_late() -> Seq<&'static str> {
    seq![
        "2025-05-03",
        "2025-05-04",
        "2025-05-05",
        "2025-05-31",
        "2025-06-01",
        "2025-06-02",
        "2025-10-01",
        "2025-10-02",
        "2025-10-03",
        "2025-10-04",
        "2025-10-05",
        "2025-10-06",
        "2025-10-07",
        "2025-10-08",
    ]
}

/// The dates of `off_days_2025_late`.
fn list_off_days_2025_late() -> (r: Vec<&'static str>)
    ensures
        r@ == off_days_2025_late(),
{
    reveal(off_days_2025_late);
    let mut r: Vec<&'static str> = Vec::new();
    r.push("2025-05-03");
    r.push("2025-05-04");
    r.push("2025-05-05");
    r.push("2025-05-31");
    r.push("2025-06-01");
    r.push("2025-06-02");
    r.push("2025-10-01");
    r.push("2025-10-02");
    r.push("2025-10-03");
    r.push("2025-10-04");
    r.push("2025-10-05");
    r.push("2025-10-06");
    r.push("2025-10-07");
    r.push("2025-10-08");
    r
}

/// Days off in the first part of 2026.
#[verifier::opaque]
pub open spec fn off_days_2026_early() -> Seq<&'static str> {
    seq![
        "2026-01-01",
        "2026-01-02",
        "2026-01-03",
        "2026-02-15",
        "2026-02-16",
        "2026-02-17",
        "2026-02-18",
        "2026-02-19",
        "2026-02-20",
        "2026-02-21",
        "2026-02-22",
        "2026-02-23",
        "2026-04-04",
        "2026-04-05",
        "2026-04-06",
        "2026-05-01",
        "2026-05-02",
    ]
}

/// The dates of `off_days_2026_early`.
fn list_off_days_2026_early() -> (r: Vec<&'static str>)
    ensures
        r@ == off_days_2026_early(),
{
    reveal(off_days_2026_early);
    let mut r: Vec<&'static str> = Vec::new();
    r.push("2026-01-01");
    r.push("2026-01-02");
    r.push("2026-01-03");
    r.push("2026-02-15");
    r.push("2026-02-16");
    r.push("2026-02-17");
    r.push("2026-02-18");
    r.push("2026-02-19");
    r.push("2026-02-20");
    r.push("2026-02-21");
    r.push("2026-02-22");
    r.push("2026-02-23");
    r.push("2026-04-04");
    r.push("2026-04-05");
    r.push("2026-04-06");
    r.push("2026-05-01");
    r.push("2026-05-02");
    r
}

/// Days off in the rest of 2026.
#[verifier::opaque]
pub open spec fn off_days_2026_late() -> Seq<&'static str> {
    seq![
        "2026-05-03",
        "2026-05-04",
        "2026-05-05",
        "2026-06-19",
        "2026-06-20",
        "2026-06-21",
        "2026-09-25",
        "2026-09-26",
        "2026-09-27",
        "2026-10-01",
        "2026-10-02",
        "2026-10-03",
        "2026-10-04",
        "2026-10-05",
        "2026-10-06",
        "2026-10-07",
    ]
}

/// The dates of `off_days_2026_late`.
fn list_off_days_2026_late() -> (r: Vec<&'static str>)
    ensures
        r@ == off_days_2026_late(),
{
    reveal(off_days_2026_late);
    let mut r: Vec<&'static str> = Vec::new();
    r.push("2026-05-03");
    r.push("2026-05-04");
    r.push("2026-05-05");
    r.push("2026-06-19");
    r.push("2026-06-20");
    r.push("2026-06-21");
    r.push("2026-09-25");
    r.push("2026-09-26");
    r.push("2026-09-27");
    r.push("2026-10-01");
    r.push("2026-10-02");
    r.push("2026-10-03");
    r.push("2026-10-04");
    r.push("2026-10-05");
    r.push("2026-10-06");
    r.push("2026-10-07");
    r
}

/// The date is one of the days off that are known from the start.
pub open spec fn builtin_off(date: Seq<char>) -> bool {
    ||| listed(off_days_2024_early(), date)
    ||| listed(off_days_2024_late(), date)
    ||| listed(off_days_2025_early(), date)
    ||| listed(off_days_2025_late(), date)
    ||| listed(off_days_2026_early(), date)
    ||| listed(off_days_2026_late(), date)
}

// ---------------------------------------------------------------------------
// The calendar
// ---------------------------------------------------------------------------

/// A date and whether the exchanges are open on it.
pub struct CalendarDay {
    pub date: String,
    pub open: bool,
}

/// A day of the published calendar.
pub struct PublishedDay {
    pub date: String,
    pub is_off_day: bool,
}

/// The days of the published calendar: the exchanges are open on those that are not off.
pub fn published_days(days: &Vec<PublishedDay>) -> (r: Vec<CalendarDay>)
    ensures
        day_views(r@) == days@.map_values(|d: PublishedDay| (d.date@, !d.is_off_day)),
{
    let mut r: Vec<CalendarDay> = Vec::new();
    let mut i: usize = 0;
    while i < days.len()
        invariant
            i <= days@.len(),
            r@.len() == i,
            forall|k: int|
                0 <= k < i ==> (#[trigger] r@[k]).date@ == days@[k].date@ && r@[k].open
                    == !days@[k].is_off_day,
        decreases days@.len() - i,
    {
        r.push(CalendarDay { date: days[i].date.clone(), open: !days[i].is_off_day });
        i += 1;
    }
    assert(day_views(r@) =~= days@.map_values(|d: PublishedDay| (d.date@, !d.is_off_day)));
    r
}

/// The models of a list of days.
pub open spec fn day_views(v: Seq<CalendarDay>) -> Seq<(Seq<char>, bool)> {
    v.map_values(|d: CalendarDay| (d.date@, d.open))
}

/// What the first entry for a date says.
pub open spec fn first_entry(days: Seq<(Seq<char>, bool)>, date: Seq<char>) -> Option<bool>
    decreases days.len(),
{
    if days.len() == 0 {
        None
    } else if days[0].0 == date {
        Some(days[0].1)
    } else {
        first_entry(days.skip(1), date)
    }
}

/// What the last entry for a date says.
pub open spec fn last_entry(days: Seq<(Seq<char>, bool)>, date: Seq<char>) -> Option<bool>
    decreases days.len(),
{
    if days.len() == 0 {
        None
    } else if days.last().0 == date {
        Some(days.last().1)
    } else {
        last_entry(days.drop_last(), date)
    }
}

/// What is known of the exchanges' days.
pub struct Calendar {
    days: Vec<CalendarDay>,
    loaded: Vec<i32>,
}

/// A year as it stands before the hyphen of a date.
pub open spec fn year_prefix(y: int) -> Seq<char> {
    (if y < 0 {
        seq!['-'] + decimal_of((-y) as nat)
    } else {
        decimal_of(y as nat)
    }) + seq!['-']
}

/// A year as it stands before the hyphen of a date.
fn prefix_of_year(y: i32) -> (r: String)
    ensures
        r@ == year_prefix(y as int),
{
    let mut s = String::new();
    if y < 0 {
        s.push('-');
        s.append(decimal((-(y as i64)) as u64).as_str());
    } else {
        s.append(decimal(y as u64).as_str());
    }
    s.push('-');
    assert(s@ =~= year_prefix(y as int));
    s
}

/// What a calendar says of a date once a year has been loaded into it: what it said already, else
/// what was stored, else that a known day off of that year is closed.
pub open spec fn loaded_entry(
    before: Option<bool>,
    stored: Seq<(Seq<char>, bool)>,
    year: int,
    date: Seq<char>,
) -> Option<bool> {
    match before {
        Some(v) => Some(v),
        None => match first_entry(stored, date) {
            Some(v) => Some(v),
            None => if builtin_off(date) && begins(date, year_prefix(year)) {
                Some(false)
            } else {
                None
            },
        },
    }
}

/// What is known of a date, and closed where nothing is and it is off.
pub open spec fn or_closed(before: Option<bool>, off: bool) -> Option<bool> {
    match before {
        Some(v) => Some(v),
        None => if off {
            Some(false)
        } else {
            None
        },
    }
}

/// An entry added at the end counts only where there was none.
proof fn lemma_first_entry_push(days: Seq<(Seq<char>, bool)>, e: (Seq<char>, bool), date: Seq<char>)
    ensures
        first_entry(days.push(e), date) == (match first_entry(days, date) {
            Some(v) => Some(v),
            None => if e.0 == date {
                Some(e.1)
            } else {
                None
            },
        }),
    decreases days.len(),
{
    let t = days.push(e);
    if days.len() == 0 {
        assert(t.skip(1) =~= Seq::<(Seq<char>, bool)>::empty());
        assert(first_entry(t.skip(1), date) is None);
    } else {
        assert(t.skip(1) =~= days.skip(1).push(e));
        lemma_first_entry_push(days.skip(1), e, date);
    }
}

impl Calendar {
    /// What is known of a date: whether the exchanges are open on it.
    pub closed spec fn known(&self, date: Seq<char>) -> Option<bool> {
        first_entry(day_views(self.days@), date)
    }

    /// The year has been loaded.
    pub closed spec fn has_year(&self, year: i32) -> bool {
        self.loaded@.contains(year)
    }

    /// A calendar that knows nothing yet.
    pub fn new() -> (r: Self)
        ensures
            forall|d: Seq<char>| r.known(d) is None,
            forall|y: i32| !r.has_year(y),
    {
        let r = Calendar { days: Vec::new(), loaded: Vec::new() };
        assert(day_views(r.days@) =~= Seq::<(Seq<char>, bool)>::empty());
        r
    }

    /// What is known of a date.
    pub fn lookup(&self, date: &str) -> (r: Option<bool>)
        ensures
            r == self.known(date@),
    {
        let mut i: usize = 0;
        let ghost all = day_views(self.days@);
        assert(all.skip(0) =~= all);
        while i < self.days.len()
            invariant
                all == day_views(self.days@),
                i <= self.days@.len(),
                first_entry(all, date@) == first_entry(all.skip(i as int), date@),
            decreases self.days@.len() - i,
        {
            assert(all.skip(i as int).skip(1) =~= all.skip(i + 1));
            if same(self.days[i].date.as_str(), date) {
                return Some(self.days[i].open);
            }
            i += 1;
        }
        None
    }

    /// Whether a year has been loaded.
    pub fn is_loaded(&self, year: i32) -> (r: bool)
        ensures
            r == self.has_year(year),
    {
        let mut i: usize = 0;
        while i < self.loaded.len()
            invariant
                i <= self.loaded@.len(),
                forall|k: int| 0 <= k < i ==> self.loaded@[k] != year,
            decreases self.loaded@.len() - i,
        {
            if self.loaded[i] == year {
                return true;
            }
            i += 1;
        }
        false
    }

    /// Enters a date that is not known yet; what is known stays.
    fn add_day(&mut self, date: &str, open: bool)
        ensures
            final(self).loaded == old(self).loaded,
            forall|d: Seq<char>| #[trigger]
                final(self).known(d) == (match old(self).known(d) {
                    Some(v) => Some(v),
                    None => if d == date@ {
                        Some(open)
                    } else {
                        None
                    },
                }),
    {
        let ghost before = day_views(self.days@);
        let e = CalendarDay { date: date.to_owned(), open };
        self.days.push(e);
        proof {
            assert(day_views(self.days@) =~= before.push((date@, open)));
            assert forall|d: Seq<char>| #[trigger] self.known(d) == (match first_entry(before, d) {
                Some(v) => Some(v),
                None => if d == date@ {
                    Some(open)
                } else {
                    None
                },
            }) by {
                lemma_first_entry_push(before, (date@, open), d);
            }
        }
    }

    /// Enters the days off of a list that lie in a year.
    fn add_off_days(&mut self, off: &Vec<&'static str>, prefix: &str)
        ensures
            final(self).loaded == old(self).loaded,
            forall|d: Seq<char>| #[trigger]
                final(self).known(d) == or_closed(
                    old(self).known(d),
                    listed(off@, d) && begins(d, prefix@),
                ),
    {
        let mut i: usize = 0;
        let ghost start = *self;
        while i < off.len()
            invariant
                i <= off@.len(),
                self.loaded == start.loaded,
                forall|d: Seq<char>| #[trigger]
                    self.known(d) == or_closed(
                        start.known(d),
                        listed(off@.take(i as int), d) && begins(d, prefix@),
                    ),
            decreases off@.len() - i,
        {
            proof {
                assert forall|d: Seq<char>| #[trigger] listed(off@.take(i + 1), d) <==> listed(
                    off@.take(i as int),
                    d,
                ) || off@[i as int]@ == d by {
                    if listed(off@.take(i as int), d) {
                        let k = choose|k: int|
                            0 <= k < off@.take(i as int).len() && (#[trigger] off@.take(
                                i as int,
                            )[k])@ == d;
                        assert(off@.take(i + 1)[k]@ == d);
                    }
                    if off@[i as int]@ == d {
                        assert(off@.take(i + 1)[i as int]@ == d);
                    }
                    if listed(off@.take(i + 1), d) {
                        let k = choose|k: int|
                            0 <= k < off@.take(i + 1).len() && (#[trigger] off@.take(i + 1)[k])@
                                == d;
                        if k < i {
                            assert(off@.take(i as int)[k]@ == d);
                        }
                    }
                }
            }
            if starts_with(off[i], prefix) {
                self.add_day(off[i], false);
            }
            i += 1;
        }
        assert(off@.take(off@.len() as int) =~= off@);
    }

    /// Loads a year without asking anyone: what is stored of it, and for what is then still unknown
    /// the days off that are known from the start. A year is loaded once.
    pub fn ensure_loaded_offline(&mut self, year: i32, stored: &Vec<CalendarDay>)
        ensures
            forall|y: i32| #[trigger]
                final(self).has_year(y) == (old(self).has_year(y) || y == year),
            old(self).has_year(year) ==> forall|d: Seq<char>| #[trigger]
                final(self).known(d) == old(self).known(d),
            !old(self).has_year(year) ==> forall|d: Seq<char>| #[trigger]
                final(self).known(d) == loaded_entry(
                    old(self).known(d),
                    day_views(stored@),
                    year as int,
                    d,
                ),
    {
        if self.is_loaded(year) {
            return;
        }
        let ghost start = *self;
        let ghost sv = day_views(stored@);
        let mut i: usize = 0;
        assert(sv.take(0) =~= Seq::<(Seq<char>, bool)>::empty());
        while i < stored.len()
            invariant
                sv == day_views(stored@),
                i <= stored@.len(),
                self.loaded == start.loaded,
                forall|d: Seq<char>| #[trigger]
                    self.known(d) == (match start.known(d) {
                        Some(v) => Some(v),
                        None => first_entry(sv.take(i as int), d),
                    }),
            decreases stored@.len() - i,
        {
            proof {
                assert(sv.take(i + 1) =~= sv.take(i as int).push(sv[i as int]));
                assert forall|d: Seq<char>| #[trigger] first_entry(sv.take(i + 1), d) == (
                match first_entry(sv.take(i as int), d) {
                    Some(v) => Some(v),
                    None => if sv[i as int].0 == d {
                        Some(sv[i as int].1)
                    } else {
                        None
                    },
                }) by {
                    lemma_first_entry_push(sv.take(i as int), sv[i as int], d);
                }
            }
            self.add_day(stored[i].date.as_str(), stored[i].open);
            i += 1;
        }
        assert(sv.take(sv.len() as int) =~= sv);
        let prefix = prefix_of_year(year);
        let ghost s0 = *self;
        self.add_off_days(&list_off_days_2024_early(), prefix.as_str());
        let ghost s1 = *self;
        self.add_off_days(&list_off_days_2024_late(), prefix.as_str());
        let ghost s2 = *self;
        self.add_off_days(&list_off_days_2025_early(), prefix.as_str());
        let ghost s3 = *self;
        self.add_off_days(&list_off_days_2025_late(), prefix.as_str());
        let ghost s4 = *self;
        self.add_off_days(&list_off_days_2026_early(), prefix.as_str());
        let ghost s5 = *self;
        self.add_off_days(&list_off_days_2026_late(), prefix.as_str());
        let ghost s6 = *self;
        let ghost before = self.loaded@;
        self.loaded.push(year);
        proof {
            assert forall|d: Seq<char>| #[trigger] self.known(d) == loaded_entry(
                start.known(d),
                sv,
                year as int,
                d,
            ) by {
                assert(s0.known(d) == (match start.known(d) {
                    Some(v) => Some(v),
                    None => first_entry(sv, d),
                }));
                let here = begins(d, prefix@);
                assert(s1.known(d) == or_closed(
                    s0.known(d),
                    listed(off_days_2024_early(), d) && here,
                ));
                assert(s2.known(d) == or_closed(
                    s1.known(d),
                    listed(off_days_2024_late(), d) && here,
                ));
                assert(s3.known(d) == or_closed(
                    s2.known(d),
                    listed(off_days_2025_early(), d) && here,
                ));
                assert(s4.known(d) == or_closed(
                    s3.known(d),
                    listed(off_days_2025_late(), d) && here,
                ));
                assert(s5.known(d) == or_closed(
                    s4.known(d),
                    listed(off_days_2026_early(), d) && here,
                ));
                assert(self.known(d) == s6.known(d));
            }
            assert forall|y: i32| #[trigger] self.has_year(y) == (start.has_year(y) || y == year) by {
                if before.contains(y) {
                    let k = choose|k: int| 0 <= k < before.len() && before[k] == y;
                    assert(self.loaded@[k] == y);
                }
                if y == year {
                    assert(self.loaded@[before.len() as int] == y);
                }
            }
        }
    }

    /// Takes in days from the published calendar; each overrides what was known of its date.
    pub fn apply_remote(&mut self, days: &Vec<CalendarDay>)
        ensures
            forall|y: i32| #[trigger] final(self).has_year(y) == old(self).has_year(y),
            forall|d: Seq<char>| #[trigger]
                final(self).known(d) == (match last_entry(day_views(days@), d) {
                    Some(v) => Some(v),
                    None => old(self).known(d),
                }),
    {
        let ghost start = *self;
        let ghost dv = day_views(days@);
        let mut i: usize = 0;
        assert(dv.take(0) =~= Seq::<(Seq<char>, bool)>::empty());
        while i < days.len()
            invariant
                dv == day_views(days@),
                i <= days@.len(),
                self.loaded == start.loaded,
                forall|d: Seq<char>| #[trigger]
                    self.known(d) == (match last_entry(dv.take(i as int), d) {
                        Some(v) => Some(v),
                        None => start.known(d),
                    }),
            decreases days@.len() - i,
        {
            let e = CalendarDay { date: days[i].date.clone(), open: days[i].open };
            let ghost before = day_views(self.days@);
            let ghost was = *self;
            self.days.insert(0, e);
            proof {
                let now = day_views(self.days@);
                assert(now =~= seq![(e.date@, e.open)] + before);
                assert(now.skip(1) =~= before);
                assert(dv.take(i + 1).drop_last() =~= dv.take(i as int));
                assert(dv.take(i + 1).last() == dv[i as int]);
                assert forall|d: Seq<char>| #[trigger] self.known(d) == (match last_entry(
                    dv.take(i + 1),
                    d,
                ) {
                    Some(v) => Some(v),
                    None => start.known(d),
                }) by {
                    assert(now[0] == (e.date@, e.open));
                    assert(first_entry(before, d) == (match last_entry(dv.take(i as int), d) {
                        Some(v) => Some(v),
                        None => start.known(d),
                    })) by {
                        assert(first_entry(before, d) == was.known(d));
                    }
                }
            }
            i += 1;
        }
        assert(dv.take(dv.len() as int) =~= dv);
    }

    /// Whether the exchanges are open on a date, going by what is known now. Weekends are closed,
    /// and a weekday of which nothing is known counts as open.
    pub fn is_trading_day_cached(&self, date: Date) -> (r: bool)
        requires
            date.valid(),
        ensures
            r == open_on(self, date),
    {
        if date.day_of_week() >= 5 {
            return false;
        }
        match self.lookup(date.iso().as_str()) {
            Some(v) => v,
            None => true,
        }
    }

    /// Whether the exchanges are open on a date. On a weekday the date's year is loaded first;
    /// `stored` is what is stored of it.
    pub fn is_trading_day(&mut self, date: Date, stored: &Vec<CalendarDay>) -> (r: bool)
        requires
            date.valid(),
        ensures
            r == open_on(final(self), date),
            date.weekday() >= 5 ==> *final(self) == *old(self),
            date.weekday() < 5 ==> final(self).has_year(date.year) && (forall|d: Seq<char>|
             #[trigger]
                final(self).known(d) == (if old(self).has_year(date.year) {
                    old(self).known(d)
                } else {
                    loaded_entry(old(self).known(d), day_views(stored@), date.year as int, d)
                })),
    {
        if date.day_of_week() >= 5 {
            return false;
        }
        self.ensure_loaded_offline(date.year, stored);
        self.is_trading_day_cached(date)
    }
}

/// The exchanges are open on a date as far as a calendar knows.
pub open spec fn open_on(c: &Calendar, date: Date) -> bool {
    date.weekday() < 5 && (match c.known(
        iso_of(date.year as int, date.month as int, date.day as int),
    ) {
        Some(v) => v,
        None => true,
    })
}

/// A weekend is never a trading day, whatever a calendar says of it: a working weekend does not
/// open the exchanges.
pub proof fn law_weekend_closed(c: &Calendar, date: Date)
    requires
        date.valid(),
        date.weekday() >= 5,
    ensures
        !open_on(c, date),
{
}

/// A weekday of which nothing is known counts as open.
pub proof fn law_unknown_weekday_open(c: &Calendar, date: Date)
    requires
        date.valid(),
        date.weekday() < 5,
        c.known(iso_of(date.year as int, date.month as int, date.day as int)) is None,
    ensures
        open_on(c, date),
{
}

/// Loading a year a second time from the same store would change nothing.
pub proof fn law_loading_is_idempotent(
    before: Option<bool>,
    stored: Seq<(Seq<char>, bool)>,
    year: int,
    date: Seq<char>,
)
    ensures
        loaded_entry(loaded_entry(before, stored, year, date), stored, year, date)
            == loaded_entry(before, stored, year, date),
{
}

// ---------------------------------------------------------------------------
// The session clock
// ---------------------------------------------------------------------------

/// The exchanges are trading: from 9:30 to 11:30 and from 13:00 to 15:00, by the second of the day.
pub open spec fn in_session(secs: int) -> bool {
    34200 <= secs <= 41400 || 46800 <= secs <= 54000
}

/// Whether the exchanges are trading at a second of a day.
pub fn is_trading_now(trading_day: bool, secs: u32) -> (r: bool)
    ensures
        r == (trading_day && in_session(secs as int)),
{
    trading_day && ((secs >= 34200 && secs <= 41400) || (secs >= 46800 && secs <= 54000))
}

/// The phase of the market: `closed` on a day without trading, `intraday` from the opening to the
/// close with the break at noon, `post_close` otherwise.
pub fn market_phase(trading_day: bool, secs: u32) -> (r: &'static str)
    ensures
        r@ == (if !trading_day {
            "closed"@
        } else if 34200 <= secs <= 54000 {
            "intraday"@
        } else {
            "post_close"@
        }),
{
    if !trading_day {
        return "closed";
    }
    if is_trading_now(trading_day, secs) {
        return "intraday";
    }
    if secs > 41400 && secs < 46800 {
        return "intraday";
    }
    "post_close"
}

// ---------------------------------------------------------------------------
// Markets abroad
// ---------------------------------------------------------------------------

/// The weekday that a month begins with, counted from Monday as 0; for a month that does not exist, the
/// weekday of the last date there is.
pub open spec fn month_start(y: int, m: int) -> int {
    if valid_ymd(y, m, 1) {
        (day_number(y, m, 1) - 1) % 7
    } else {
        (day_number(MAX_YEAR as int, 12, 31) - 1) % 7
    }
}

/// The day of the month on which a weekday falls for the `n`-th time.
pub open spec fn nth_weekday(y: int, m: int, weekday: int, n: int) -> int {
    1 + (weekday + 7 - month_start(y, m)) % 7 + (n - 1) * 7
}

/// The day of the month on which a weekday, counted from Monday as 0, falls for the `n`-th time.
pub fn nth_weekday_of_month(year: i32, month: u32, weekday: u32, n: u32) -> (r: u32)
    requires
        weekday < 7,
        1 <= n,
        nth_weekday(year as int, month as int, weekday as int, n as int) <= u32::MAX,
    ensures
        r == nth_weekday(year as int, month as int, weekday as int, n as int),
{
    let first = match Date::new(year, month, 1) {
        Some(d) => d,
        None => Date { year: MAX_YEAR, month: 12, day: 31 },
    };
    let offset = (weekday + 7 - first.day_of_week()) % 7;
    1 + offset + (n - 1) * 7
}

/// The `n`-th such day of the month is that weekday, and exactly `n - 1` such days come before it.
pub proof fn law_nth_weekday(y: int, m: int, weekday: int, n: int)
    requires
        valid_ymd(y, m, 1),
        0 <= weekday < 7,
        1 <= n,
    ensures
        (day_number(y, m, nth_weekday(y, m, weekday, n)) - 1) % 7 == weekday,
        (n - 1) * 7 < nth_weekday(y, m, weekday, n) <= n * 7,
{
    let f = day_number(y, m, 1) - 1;
    let o = (weekday + 7 - f % 7) % 7;
    let r = nth_weekday(y, m, weekday, n);
    assert(day_number(y, m, r) - 1 == f + o + (n - 1) * 7);
    assert((f + o) % 7 == weekday);
    assert((f + o + (n - 1) * 7) % 7 == (f + o) % 7) by {
        vstd::arithmetic::div_mod::lemma_mod_multiples_vanish(n - 1, f + o, 7);
    }
}

/// Daylight saving time is in force in the United States: from the second Sunday of March up to the
/// first Sunday of November.
pub open spec fn us_daylight(d: Date) -> bool {
    ||| 3 < d.month < 11
    ||| d.month == 3 && d.day >= nth_weekday(d.year as int, 3, 6, 2)
    ||| d.month == 11 && d.day < nth_weekday(d.year as int, 11, 6, 1)
}

/// Whether daylight saving time is in force in the United States on a date.
pub fn is_us_daylight(d: Date) -> (r: bool)
    requires
        d.valid(),
    ensures
        r == us_daylight(d),
{
    if d.month > 3 && d.month < 11 {
        return true;
    }
    if d.month == 3 {
        d.day >= nth_weekday_of_month(d.year, 3, 6, 2)
    } else if d.month == 11 {
        d.day < nth_weekday_of_month(d.year, 11, 6, 1)
    } else {
        false
    }
}

/// Words that place a fund in Hong Kong.
#[verifier::opaque]
pub open spec fn hong_kong_words() -> Seq<&'static str> {
    seq!["香港", "恒生", "港股", "H股", "沪港"]
}

/// Words that place a fund in the United States or all over the world.
#[verifier::opaque]
pub open spec fn united_states_words() -> Seq<&'static str> {
    seq!["美国", "纳斯达克", "标普", "道琼", "环球", "全球", "海外", "美元", "纳指"]
}

/// The market abroad that a fund follows.
pub open spec fn overseas_region(name: Seq<char>) -> Seq<char> {
    if mentions(hong_kong_words(), name) {
        "hk"@
    } else if mentions(united_states_words(), name) {
        "us"@
    } else {
        "other"@
    }
}

/// The market abroad that a fund follows, going by its name.
pub fn qdii_overseas_region(fund_name: &str) -> (r: &'static str)
    ensures
        r@ == overseas_region(fund_name@),
{
    let mut hk: Vec<&'static str> = Vec::new();
    hk.push("香港");
    hk.push("恒生");
    hk.push("港股");
    hk.push("H股");
    hk.push("沪港");
    let mut us: Vec<&'static str> = Vec::new();
    us.push("美国");
    us.push("纳斯达克");
    us.push("标普");
    us.push("道琼");
    us.push("环球");
    us.push("全球");
    us.push("海外");
    us.push("美元");
    us.push("纳指");
    proof {
        reveal(hong_kong_words);
        reveal(united_states_words);
        assert(hk@ =~= hong_kong_words());
        assert(us@ =~= united_states_words());
    }
    if does_mention(&hk, fund_name) {
        "hk"
    } else if does_mention(&us, fund_name) {
        "us"
    } else {
        "other"
    }
}

/// The market abroad that a fund follows is trading at a minute of the day in Beijing: Hong Kong
/// from 9:30 to 16:00; any other market from 21:30 to 4:00 in summer and from 22:30 to 5:00 in
/// winter, across midnight.
pub open spec fn overseas_open(name: Seq<char>, date: Date, minute: int) -> bool {
    if overseas_region(name) == "hk"@ {
        570 <= minute < 960
    } else if us_daylight(date) {
        minute >= 1290 || minute < 240
    } else {
        minute >= 1350 || minute < 300
    }
}

/// Whether the market abroad that a fund follows is trading, by the date and the minute of the day
/// in Beijing.
pub fn qdii_overseas_open(fund_name: &str, date: Date, minute: u32) -> (r: bool)
    requires
        date.valid(),
    ensures
        r == overseas_open(fund_name@, date, minute as int),
{
    if same(qdii_overseas_region(fund_name), "hk") {
        return minute >= 570 && minute < 960;
    }
    if is_us_daylight(date) {
        minute >= 1290 || minute < 240
    } else {
        minute >= 1350 || minute < 300
    }
}

// ---------------------------------------------------------------------------
// Reports
// ---------------------------------------------------------------------------

/// A report: its year, its season from 1 to 4, and how much of the holdings it discloses.
#[derive(Debug, Clone, Copy)]
pub struct Period {
    pub year: i32,
    pub season: u32,
    pub disclosure: &'static str,
}

/// The last day that a report covers.
pub open spec fn season_end(year: int, season: int) -> (int, int, int) {
    (
        year,
        season * 3,
        if season == 1 || season == 4 {
            31
        } else {
            30
        },
    )
}

/// The season of the date's own year has ended by the date.
pub open spec fn season_ended(d: Date, season: int) -> bool {
    let e = season_end(d.year as int, season);
    e.1 < d.month || (e.1 == d.month && e.2 <= d.day)
}

/// Number of seasons of the date's year that have ended by it.
pub open spec fn seasons_ended(d: Date) -> int {
    if season_ended(d, 4) {
        4
    } else if season_ended(d, 3) {
        3
    } else if season_ended(d, 2) {
        2
    } else if season_ended(d, 1) {
        1
    } else {
        0
    }
}

/// How much a report discloses: all holdings at mid-year and at the year's end, else the ten
/// largest.
pub open spec fn disclosure_of(season: int) -> Seq<char> {
    if season == 2 || season == 4 {
        "full"@
    } else {
        "top10"@
    }
}

/// Reports in one row: four to the year.
pub open spec fn period_index(year: int, season: int) -> int {
    4 * year + season - 1
}

/// The last report that has ended by a date.
pub open spec fn latest_index(d: Date) -> int {
    period_index(d.year as int, seasons_ended(d))
}

/// The last day of a report; outside the range of dates the very last date.
pub fn period_end(year: i32, season: u32) -> (r: Date)
    ensures
        r == (if MIN_YEAR <= year <= crate::date::MAX_YEAR && 1 <= season <= 4 {
            Date {
                year,
                month: (season * 3) as u32,
                day: if season == 1 || season == 4 {
                    31
                } else {
                    30
                },
            }
        } else {
            Date { year: crate::date::MAX_YEAR, month: 12, day: 31 }
        }),
        r.valid(),
{
    let last = Date { year: crate::date::MAX_YEAR, month: 12, day: 31 };
    if season < 1 || season > 4 {
        return last;
    }
    let day: u32 = if season == 1 || season == 4 {
        31
    } else {
        30
    };
    match Date::new(year, season * 3, day) {
        Some(d) => d,
        None => last,
    }
}

/// The reports to ask for on a date: those that have ended, the latest first, twelve at most.
pub fn candidate_periods(now: Date) -> (r: Vec<Period>)
    requires
        now.valid(),
    ensures
        r@.len() == (if latest_index(now) - period_index(MIN_YEAR as int, 1) + 1 < 12 {
            latest_index(now) - period_index(MIN_YEAR as int, 1) + 1
        } else {
            12
        }),
        forall|i: int|
            0 <= i < r@.len() ==> {
                &&& period_index((#[trigger] r@[i]).year as int, r@[i].season as int)
                    == latest_index(now) - i
                &&& 1 <= r@[i].season <= 4
                &&& r@[i].disclosure@ == disclosure_of(r@[i].season as int)
            },
{
    let mut r: Vec<Period> = Vec::new();
    let mut year: i32 = now.year;
    let mut season: u32 = 4;
    while season > 0 && is_earlier(now, period_end(now.year, season))
        invariant
            now.valid(),
            season <= 4,
            forall|s: int| season < s <= 4 ==> !season_ended(now, s),
        decreases season,
    {
        assert(!season_ended(now, season as int));
        season -= 1;
    }
    if season == 0 {
        year = year - 1;
        season = 4;
    }
    assert(period_index(year as int, season as int) == latest_index(now));
    while r.len() < 12 && year >= MIN_YEAR
        invariant
            r@.len() <= 12,
            1 <= season <= 4,
            year >= MIN_YEAR - 1,
            year < MIN_YEAR ==> season == 4,
            period_index(year as int, season as int) == latest_index(now) - r@.len(),
            forall|i: int|
                0 <= i < r@.len() ==> {
                    &&& period_index((#[trigger] r@[i]).year as int, r@[i].season as int)
                        == latest_index(now) - i
                    &&& 1 <= r@[i].season <= 4
                    &&& r@[i].disclosure@ == disclosure_of(r@[i].season as int)
                },
        decreases 12 - r@.len(),
    {
        let disclosure = if season == 2 || season == 4 {
            "full"
        } else {
            "top10"
        };
        r.push(Period { year, season, disclosure });
        if season == 1 {
            season = 4;
            year = year - 1;
        } else {
            season -= 1;
        }
    }
    r
}

/// Of two reports that are asked for, the one asked for first ends later; and each has ended by the
/// date.
pub proof fn law_candidates_ended_newest_first(now: Date, r: Seq<Period>, i: int)
    requires
        now.valid(),
        0 <= i < r.len(),
        forall|k: int|
            0 <= k < r.len() ==> period_index(
                (#[trigger] r[k]).year as int,
                r[k].season as int,
            ) == latest_index(now) - k && 1 <= r[k].season <= 4,
    ensures
        r[i].year < now.year || (r[i].year == now.year && season_ended(now, r[i].season as int)),
        forall|k: int|
            i < k < r.len() ==> (#[trigger] r[k]).year < r[i].year || (r[k].year == r[i].year
                && r[k].season < r[i].season),
{
    assert(period_index(r[i].year as int, r[i].season as int) == latest_index(now) - i);
}

/// Where the days off of a year are published.
pub fn calendar_url(year: i32) -> (r: String)
    ensures
        r@ == "https://cdn.jsdelivr.net/gh/NateScarlet/holiday-cn@master/"@ + (if year < 0 {
            "-"@
        } else {
            Seq::empty()
        }) + decimal_of((if year < 0 {
            -year
        } else {
            year as int
        }) as nat) + ".json"@,
{
    let mut s = "https://cdn.jsdelivr.net/gh/NateScarlet/holiday-cn@master/".to_owned();
    if year < 0 {
        s.append("-");
        s.append(decimal((-(year as i64)) as u64).as_str());
    } else {
        s.append(decimal(year as u64).as_str());
    }
    s.append(".json");
    assert(s@ =~= "https://cdn.jsdelivr.net/gh/NateScarlet/holiday-cn@master/"@ + (if year < 0 {
        "-"@
    } else {
        Seq::empty()
    }) + decimal_of((if year < 0 {
        -year
    } else {
        year as int
    }) as nat) + ".json"@);
    s
}

/// An estimate is of today: its time has at least ten bytes and begins with today's date.
pub fn estimate_is_fresh(gztime: &str, today: &str) -> (r: bool)
    ensures
        r == (encode_utf8(gztime@).len() >= 10 && begins(gztime@, today@)),
{
    gztime.as_bytes().len() >= 10 && starts_with(gztime, today)
}

// ---------------------------------------------------------------------------
// Pace of requests
// ---------------------------------------------------------------------------

/// Least time between two requests, in nanoseconds.
pub const MIN_REQ_INTERVAL: u64 = 500_000_000;

/// Reserves the slot of the next request: how long to wait, and when it goes out. `last` is the
/// slot reserved before.
pub fn reserve_slot(now: u64, last: u64) -> (r: (u64, u64))
    requires
        now <= u64::MAX - MIN_REQ_INTERVAL,
        last <= u64::MAX - MIN_REQ_INTERVAL,
    ensures
        r.1 == now + r.0,
        r.1 == (if now >= last + MIN_REQ_INTERVAL {
            now as int
        } else {
            last + MIN_REQ_INTERVAL
        }),
{
    if now >= last + MIN_REQ_INTERVAL {
        (0, now)
    } else {
        let slot = last + MIN_REQ_INTERVAL;
        (slot - now, slot)
    }
}

/// Any two requests go out at least the interval apart, however close together they are asked for.
pub proof fn law_slots_apart(now: int, last: int, slot: int)
    requires
        slot == (if now >= last + MIN_REQ_INTERVAL {
            now
        } else {
            last + MIN_REQ_INTERVAL
        }),
    ensures
        slot - last >= MIN_REQ_INTERVAL,
        slot >= now,
{
}

} // verus!
