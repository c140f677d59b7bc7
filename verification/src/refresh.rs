//! Bringing official values and disclosed holdings up to date.
//!
//! The network is reached by the caller; what is settled here is which funds are asked for, how long
//! to wait in between, and what is counted.
use vstd::prelude::*;
use crate::calendar::{candidate_periods, disclosure_of, latest_index, period_index, Period};
use crate::date::{earlier, is_earlier, read_ymd, Date, MIN_YEAR};
use crate::symbols::{in_list, push_new, with_new};
use crate::text::views;

verus! {

/// What came of a refresh of quotes.
#[derive(Debug, Clone)]
pub struct RefreshOut {
    pub ok: bool,
    pub at: String,
    pub count: usize,
}

/// What came of a refresh of official values.
#[derive(Debug, Clone)]
pub struct RefreshNavOut {
    /// Number of all funds.
    pub total: usize,
    /// Number of funds whose value was up to date.
    pub skipped: usize,
    /// Number of funds whose value was fetched.
    pub fetched: usize,
    /// Number of those whose value is of today.
    pub got_today: usize,
    /// Number of funds whose value could not be fetched.
    pub failed: usize,
    pub failed_codes: Vec<String>,
    /// Time of completion.
    pub at: String,
}

/// A database file that was written or read.
#[derive(Debug, Clone)]
pub struct BackupInfo {
    pub path: String,
    /// Number of bytes.
    pub size: i64,
    /// Time of completion.
    pub at: String,
}

/// What came of fetching the earlier reports of a fund.
#[derive(Debug, Clone)]
pub struct FetchHistoryOut {
    pub code: String,
    /// Number of reports that were asked for.
    pub attempted: usize,
    /// Reports that were stored, each once, with the number of rows of each.
    pub stored_periods: Vec<String>,
    pub stored_rows: Vec<usize>,
    /// All reports of the fund that are stored by now.
    pub all_periods: Vec<String>,
    pub at: String,
}

/// What came of fetching the reports of all funds.
#[derive(Debug, Clone)]
pub struct FetchAllDisclosuresOut {
    pub total: usize,
    pub ok: usize,
    pub failed: usize,
    pub failed_codes: Vec<String>,
    pub at: String,
}

/// A fund, as far as its official value may be out of date.
#[derive(Debug, Clone)]
pub struct FundNavStatus {
    pub code: String,
    /// Date of the official value; none where there never was one.
    pub nav_date: Option<String>,
    /// Type of the fund; empty where it is not known.
    pub fund_type: String,
}

// ---------------------------------------------------------------------------
// Official values
// ---------------------------------------------------------------------------

/// A date that was read lies before another one.
pub open spec fn read_before(d: Option<(int, int, int)>, today: Date) -> bool {
    match d {
        Some(p) => p.0 < today.year || (p.0 == today.year && (p.1 < today.month || (p.1
            == today.month && p.2 < today.day))),
        None => true,
    }
}

/// The official value of a fund is out of date: it has no date, or one that does not read or lies
/// before today.
pub open spec fn is_stale(f: FundNavStatus, today: Date) -> bool {
    match f.nav_date {
        Some(d) => d@.len() == 0 || read_before(read_ymd(d@), today),
        None => true,
    }
}

/// Whether a fund with this date needs to be asked for. `read` is the date as it reads.
pub fn needs_value(dated: bool, read: Option<Date>, today: Date) -> (r: bool)
    ensures
        r == (!dated || (match read {
            Some(d) => earlier(d, today),
            None => true,
        })),
{
    !dated || (match read {
        Some(d) => is_earlier(d, today),
        None => true,
    })
}

/// Whether the official value of a fund is out of date.
pub fn needs_refresh(f: &FundNavStatus, today: Date) -> (r: bool)
    ensures
        r == is_stale(*f, today),
{
    match &f.nav_date {
        Some(d) => {
            let dated = !d.as_str().is_empty();
            let read = Date::parse(d.as_str());
            needs_value(dated, read, today)
        },
        None => needs_value(false, None, today),
    }
}

/// Pause after every fund that was asked for, in milliseconds.
pub const PAUSE: u64 = 200;

/// Further pause after a failure, in milliseconds.
pub const FAILURE_PAUSE: u64 = 800;

/// Further pause after several failures in a row, in milliseconds.
pub const LONG_PAUSE: u64 = 3000;

/// Number of failures in a row after which the pause is the long one.
pub const FAILURE_LIMIT: usize = 5;

/// A refresh of official values under way.
pub struct NavRefresh {
    pub funds: Vec<FundNavStatus>,
    pub today: Date,
    /// The fund that comes next, or that is being asked for.
    pub next: usize,
    pub skipped: usize,
    pub fetched: usize,
    pub got_today: usize,
    pub failed_codes: Vec<String>,
    /// Failures in a row.
    pub streak: usize,
}

/// Number of funds below `n` whose value is up to date.
pub open spec fn fresh_below(funds: Seq<FundNavStatus>, today: Date, n: int) -> int
    decreases n,
{
    if n <= 0 {
        0
    } else {
        fresh_below(funds, today, n - 1) + (if is_stale(funds[n - 1], today) {
            0int
        } else {
            1int
        })
    }
}

impl NavRefresh {
    /// Every fund before the next one was counted once.
    pub open spec fn wf(&self) -> bool {
        &&& self.today.valid()
        &&& self.next <= self.funds@.len()
        &&& self.skipped == fresh_below(self.funds@, self.today, self.next as int)
        &&& self.skipped + self.fetched + self.failed_codes@.len() == self.next
        &&& self.got_today <= self.fetched
        &&& self.streak < FAILURE_LIMIT
    }

    /// The next fund is to be asked for.
    pub open spec fn asking(&self) -> bool {
        self.next < self.funds@.len() && is_stale(self.funds@[self.next as int], self.today)
    }

    /// Begins a refresh.
    pub fn start(funds: Vec<FundNavStatus>, today: Date) -> (r: Self)
        requires
            today.valid(),
        ensures
            r.wf(),
            r.funds == funds,
            r.today == today,
            r.next == 0,
            r.skipped == 0,
            r.fetched == 0,
            r.got_today == 0,
            r.failed_codes@.len() == 0,
            r.streak == 0,
    {
        NavRefresh {
            funds,
            today,
            next: 0,
            skipped: 0,
            fetched: 0,
            got_today: 0,
            failed_codes: Vec::new(),
            streak: 0,
        }
    }

    /// Goes on to the next fund that is to be asked for, counting those whose value is up to date.
    /// Gives its code and whether its type is to be fetched too, or none where all are done.
    pub fn seek(&mut self) -> (r: Option<(String, bool)>)
        requires
            old(self).wf(),
        ensures
            final(self).wf(),
            final(self).funds == old(self).funds,
            final(self).today == old(self).today,
            final(self).fetched == old(self).fetched,
            final(self).got_today == old(self).got_today,
            final(self).failed_codes == old(self).failed_codes,
            final(self).streak == old(self).streak,
            old(self).next <= final(self).next,
            forall|i: int|
                old(self).next <= i < final(self).next ==> !is_stale(
                    #[trigger] old(self).funds@[i],
                    old(self).today,
                ),
            match r {
                Some(q) => {
                    &&& final(self).asking()
                    &&& q.0@ == final(self).funds@[final(self).next as int].code@
                    &&& q.1 == (final(self).funds@[final(self).next as int].fund_type@.len() == 0)
                },
                None => final(self).next == final(self).funds@.len(),
            },
    {
        while self.next < self.funds.len()
            invariant
                self.wf(),
                self.funds == old(self).funds,
                self.today == old(self).today,
                self.fetched == old(self).fetched,
                self.got_today == old(self).got_today,
                self.failed_codes == old(self).failed_codes,
                self.streak == old(self).streak,
                old(self).next <= self.next,
                forall|i: int|
                    old(self).next <= i < self.next ==> !is_stale(
                        #[trigger] old(self).funds@[i],
                        old(self).today,
                    ),
            decreases self.funds@.len() - self.next,
        {
            if needs_refresh(&self.funds[self.next], self.today) {
                let f = &self.funds[self.next];
                return Some((f.code.clone(), f.fund_type.as_str().is_empty()));
            }
            self.skipped = self.skipped + 1;
            self.next = self.next + 1;
        }
        None
    }

    /// Counts a fund whose value was fetched and says how long to pause. `nav_date` is the date of
    /// the value, `today` today's.
    pub fn took(&mut self, nav_date: &str, today: &str) -> (pause: u64)
        requires
            old(self).wf(),
            old(self).asking(),
        ensures
            final(self).wf(),
            final(self).funds == old(self).funds,
            final(self).today == old(self).today,
            final(self).next == old(self).next + 1,
            final(self).skipped == old(self).skipped,
            final(self).fetched == old(self).fetched + 1,
            final(self).got_today == old(self).got_today + (if nav_date@ == today@ {
                1int
            } else {
                0int
            }),
            final(self).failed_codes == old(self).failed_codes,
            final(self).streak == 0,
            pause == PAUSE,
    {
        assert(self.fetched < self.funds.len());
        if crate::text::same(nav_date, today) {
            self.got_today = self.got_today + 1;
        }
        self.fetched = self.fetched + 1;
        self.streak = 0;
        self.next = self.next + 1;
        PAUSE
    }

    /// Counts a fund whose value could not be fetched and says how long to pause: longer after
    /// several failures in a row, which are then counted afresh.
    pub fn missed(&mut self) -> (pause: u64)
        requires
            old(self).wf(),
            old(self).asking(),
        ensures
            final(self).wf(),
            final(self).funds == old(self).funds,
            final(self).today == old(self).today,
            final(self).next == old(self).next + 1,
            final(self).skipped == old(self).skipped,
            final(self).fetched == old(self).fetched,
            final(self).got_today == old(self).got_today,
            views(final(self).failed_codes@) == views(old(self).failed_codes@).push(
                old(self).funds@[old(self).next as int].code@,
            ),
            if old(self).streak + 1 >= FAILURE_LIMIT {
                final(self).streak == 0 && pause == LONG_PAUSE + PAUSE
            } else {
                final(self).streak == old(self).streak + 1 && pause == FAILURE_PAUSE + PAUSE
            },
    {
        assert(self.next < self.funds.len());
        let ghost before = self.failed_codes@;
        let code = self.funds[self.next].code.clone();
        self.failed_codes.push(code);
        assert(views(self.failed_codes@) =~= views(before).push(code@));
        self.next = self.next + 1;
        if self.streak + 1 >= FAILURE_LIMIT {
            self.streak = 0;
            LONG_PAUSE + PAUSE
        } else {
            self.streak = self.streak + 1;
            FAILURE_PAUSE + PAUSE
        }
    }

    /// What came of a refresh that is done.
    pub fn finish(self, at: &str) -> (r: RefreshNavOut)
        requires
            self.wf(),
            self.next == self.funds@.len(),
        ensures
            r.total == self.funds@.len(),
            r.skipped == self.skipped,
            r.fetched == self.fetched,
            r.got_today == self.got_today,
            r.failed == self.failed_codes@.len(),
            r.failed_codes == self.failed_codes,
            r.at@ == at@,
            r.skipped + r.fetched + r.failed == r.total,
            r.skipped == fresh_below(self.funds@, self.today, self.funds@.len() as int),
    {
        RefreshNavOut {
            total: self.funds.len(),
            skipped: self.skipped,
            fetched: self.fetched,
            got_today: self.got_today,
            failed: self.failed_codes.len(),
            failed_codes: self.failed_codes,
            at: at.to_owned(),
        }
    }
}

/// Whether the value of the day before goes into the history: only where its date is known.
pub fn keeps_prev_point(prev_date: &Option<String>) -> (r: bool)
    ensures
        r == (prev_date matches Some(d) && d@.len() > 0),
{
    match prev_date {
        Some(d) => !d.as_str().is_empty(),
        None => false,
    }
}

/// A refresh that has come to its end has counted every fund once, and asked for exactly those whose
/// value was out of date.
pub proof fn law_refresh_counts_every_fund(run: NavRefresh)
    requires
        run.wf(),
        run.next == run.funds@.len(),
    ensures
        run.skipped + run.fetched + run.failed_codes@.len() == run.funds@.len(),
        run.fetched + run.failed_codes@.len() == run.funds@.len() - fresh_below(
            run.funds@,
            run.today,
            run.funds@.len() as int,
        ),
{
}

// ---------------------------------------------------------------------------
// Disclosed holdings
// ---------------------------------------------------------------------------

/// The codes of funds whose reports could not be fetched.
pub open spec fn failed_of(codes: Seq<Seq<char>>, ok: Seq<bool>) -> Seq<Seq<char>>
    decreases codes.len(),
{
    if codes.len() == 0 {
        Seq::empty()
    } else if ok[codes.len() - 1] {
        failed_of(codes.drop_last(), ok)
    } else {
        failed_of(codes.drop_last(), ok).push(codes.last())
    }
}

/// What came of fetching the reports of all funds; `ok` says of each whether it was fetched.
pub fn sum_up_fetches(codes: &Vec<String>, ok: &Vec<bool>, at: &str) -> (r: FetchAllDisclosuresOut)
    requires
        ok@.len() == codes@.len(),
    ensures
        r.total == codes@.len(),
        views(r.failed_codes@) == failed_of(views(codes@), ok@),
        r.failed == r.failed_codes@.len(),
        r.ok + r.failed == r.total,
        r.at@ == at@,
{
    let mut good: usize = 0;
    let mut failed_codes: Vec<String> = Vec::new();
    let ghost all = views(codes@);
    let mut i: usize = 0;
    assert(views(failed_codes@) =~= failed_of(all.take(0), ok@));
    while i < codes.len()
        invariant
            ok@.len() == codes@.len(),
            all == views(codes@),
            i <= codes.len(),
            good + failed_codes@.len() == i,
            views(failed_codes@) == failed_of(all.take(i as int), ok@),
        decreases codes@.len() - i,
    {
        assert(all.take(i + 1).drop_last() =~= all.take(i as int));
        if ok[i] {
            good += 1;
        } else {
            let ghost before = failed_codes@;
            failed_codes.push(codes[i].clone());
            assert(views(failed_codes@) =~= views(before).push(codes@[i as int]@));
        }
        i += 1;
    }
    assert(all.take(all.len() as int) =~= all);
    FetchAllDisclosuresOut {
        total: codes.len(),
        ok: good,
        failed: failed_codes.len(),
        failed_codes,
        at: at.to_owned(),
    }
}

/// How many reports are asked for: eight unless said otherwise, and between one and twelve.
pub open spec fn quarters_of(quarters: Option<usize>) -> int {
    match quarters {
        None => 8,
        Some(n) => if n < 1 {
            1
        } else if n > 12 {
            12
        } else {
            n as int
        },
    }
}

/// The number of reports asked for.
pub fn quarter_count(quarters: Option<usize>) -> (r: usize)
    ensures
        r == quarters_of(quarters),
{
    match quarters {
        None => 8,
        Some(n) => {
            if n < 1 {
                1
            } else if n > 12 {
                12
            } else {
                n
            }
        },
    }
}

/// The reports of a fund to ask for on a date: the latest ones that have ended, as many as asked for.
pub fn history_periods(quarters: Option<usize>, now: Date) -> (r: Vec<Period>)
    requires
        now.valid(),
    ensures
        r@.len() == (if quarters_of(quarters) < latest_index(now) - period_index(
            MIN_YEAR as int,
            1,
        ) + 1 {
            quarters_of(quarters)
        } else {
            latest_index(now) - period_index(MIN_YEAR as int, 1) + 1
        }),
        forall|i: int|
            0 <= i < r@.len() ==> {
                &&& period_index((#[trigger] r@[i]).year as int, r@[i].season as int)
                    == latest_index(now) - i
                &&& 1 <= r@[i].season <= 4
                &&& r@[i].disclosure@ == disclosure_of(r@[i].season as int)
            },
{
    let all = candidate_periods(now);
    let n = quarter_count(quarters);
    let mut r: Vec<Period> = Vec::new();
    let mut i: usize = 0;
    while i < n && i < all.len()
        invariant
            i <= n,
            i <= all@.len(),
            r@.len() == i,
            forall|k: int| 0 <= k < i ==> #[trigger] r@[k] == all@[k],
        decreases n - i,
    {
        r.push(Period {
            year: all[i].year,
            season: all[i].season,
            disclosure: all[i].disclosure,
        });
        i += 1;
    }
    r
}

/// Stored reports, each once with its number of rows.
pub struct StoredReports {
    pub periods: Vec<String>,
    pub rows: Vec<usize>,
}

impl StoredReports {
    /// One number of rows for each report, and each report once.
    pub open spec fn wf(&self) -> bool {
        self.periods@.len() == self.rows@.len() && views(self.periods@).no_duplicates()
    }

    /// None yet.
    pub fn new() -> (r: Self)
        ensures
            r.wf(),
            r.periods@.len() == 0,
    {
        StoredReports { periods: Vec::new(), rows: Vec::new() }
    }

    /// Takes note of a stored report; one that is there already is not counted again.
    pub fn note(&mut self, period: String, count: usize)
        requires
            old(self).wf(),
        ensures
            final(self).wf(),
            views(final(self).periods@) == with_new(views(old(self).periods@), period@),
            final(self).rows@ == (if views(old(self).periods@).contains(period@) {
                old(self).rows@
            } else {
                old(self).rows@.push(count)
            }),
    {
        let ghost before = views(self.periods@);
        if !in_list(&self.periods, period.as_str()) {
            self.rows.push(count);
            assert forall|i: int, j: int|
                0 <= i < j < before.push(period@).len() implies before.push(period@)[i]
                != before.push(period@)[j] by {
                if j == before.len() {
                    assert(before.contains(before[i]));
                }
            }
            assert(before.push(period@).no_duplicates());
        }
        push_new(&mut self.periods, period);
    }
}

} // verus!
