//! The database: where it lies, and the rules by which its rows are kept.
use vstd::prelude::*;
use crate::text::{is_before, lex_lt, same, views};

verus! {

/// Name of the database file.
pub const DB_NAME: &'static str = "fundlens.db";

/// The directory that holds the database, as path segments: the one that is set, else the one of the
/// application, else one in the home directory, else the current one.
pub open spec fn db_dir(
    set: Option<Seq<char>>,
    app: Option<Seq<char>>,
    home: Option<Seq<char>>,
) -> Seq<Seq<char>> {
    match set {
        Some(d) => seq![d],
        None => match app {
            Some(d) => seq![d],
            None => match home {
                Some(h) => seq![h, "Library"@, "Application Support"@, "FundLens"@],
                None => seq!["."@],
            },
        },
    }
}

/// The text of an optional string.
pub open spec fn text_of(o: Option<String>) -> Option<Seq<char>> {
    match o {
        Some(s) => Some(s@),
        None => None,
    }
}

/// The directory that holds the database, as path segments.
pub fn resolve_db_dir(set: &Option<String>, app: &Option<String>, home: &Option<String>) -> (r: Vec<
    String,
>)
    ensures
        views(r@) == db_dir(text_of(*set), text_of(*app), text_of(*home)),
{
    let mut r: Vec<String> = Vec::new();
    match set {
        Some(d) => {
            r.push(d.clone());
        },
        None => match app {
            Some(d) => {
                r.push(d.clone());
            },
            None => match home {
                Some(h) => {
                    r.push(h.clone());
                    r.push("Library".to_owned());
                    r.push("Application Support".to_owned());
                    r.push("FundLens".to_owned());
                },
                None => {
                    r.push(".".to_owned());
                },
            },
        },
    }
    assert(views(r@) =~= db_dir(text_of(*set), text_of(*app), text_of(*home)));
    r
}

/// The path of the database file, as segments.
pub fn db_path(set: &Option<String>, app: &Option<String>, home: &Option<String>) -> (r: Vec<String>)
    ensures
        views(r@) == db_dir(text_of(*set), text_of(*app), text_of(*home)).push(DB_NAME@),
{
    let mut r = resolve_db_dir(set, app, home);
    let ghost before = r@;
    r.push(DB_NAME.to_owned());
    assert(views(r@) =~= views(before).push(DB_NAME@));
    r
}

/// Whether the database is open, and the path it was first opened under.
pub struct DbState {
    pub ready: bool,
    pub path: Option<Vec<String>>,
}

impl DbState {
    /// Nothing opened yet.
    pub fn new() -> (r: Self)
        ensures
            !r.ready,
            r.path is None,
    {
        DbState { ready: false, path: None }
    }

    /// Whether the database still has to be opened.
    pub fn must_open(&self) -> (r: bool)
        ensures
            r == !self.ready,
    {
        !self.ready
    }

    /// Takes note that the database was opened. The path it was first opened under stays.
    pub fn opened(&mut self, path: Vec<String>)
        ensures
            final(self).ready,
            final(self).path == (match old(self).path {
                Some(p) => Some(p),
                None => Some(path),
            }),
    {
        if self.path.is_none() {
            self.path = Some(path);
        }
        self.ready = true;
    }
}

/// Whether the database is open.
pub fn db_ready(state: &DbState) -> (r: bool)
    ensures
        r == state.ready,
{
    state.ready
}

/// The path of the database file: the one it was opened under, else the one it would be opened under
/// without the application's directory.
pub fn db_file_path(state: &DbState, set: &Option<String>, home: &Option<String>) -> (r: Vec<String>)
    ensures
        views(r@) == (match state.path {
            Some(p) => views(p@),
            None => db_dir(text_of(*set), None, text_of(*home)).push(DB_NAME@),
        }),
{
    match &state.path {
        Some(p) => {
            let mut r: Vec<String> = Vec::new();
            let mut i: usize = 0;
            while i < p.len()
                invariant
                    i <= p@.len(),
                    r@.len() == i,
                    forall|k: int| 0 <= k < i ==> (#[trigger] r@[k])@ == p@[k]@,
                decreases p@.len() - i,
            {
                r.push(p[i].clone());
                i += 1;
            }
            assert(views(r@) =~= views(p@));
            r
        },
        None => db_path(set, &None, home),
    }
}

// ---------------------------------------------------------------------------
// Accounts and platforms
// ---------------------------------------------------------------------------

/// An account.
#[derive(Debug, Clone)]
pub struct AccountRow {
    pub id: i64,
    pub name: String,
    pub note: Option<String>,
}

/// Why an account cannot be deleted: it still holds positions.
pub fn check_delete_account(held: i64) -> (r: Result<(), String>)
    ensures
        match r {
            Ok(_) => held <= 0,
            Err(m) => held > 0 && m@ == "账户仍有持仓，无法删除（请先清空或删除其中基金）"@,
        },
{
    if held > 0 {
        Err("账户仍有持仓，无法删除（请先清空或删除其中基金）".to_owned())
    } else {
        Ok(())
    }
}

/// The first text that is not empty, from a position on.
pub open spec fn first_named(v: Seq<Seq<char>>, from: int) -> Option<Seq<char>>
    decreases v.len() - from,
{
    if from >= v.len() || from < 0 {
        None
    } else if v[from].len() > 0 {
        Some(v[from])
    } else {
        first_named(v, from + 1)
    }
}

/// The platform of a fund's positions: one with a name before one without; none where there are no
/// positions.
pub open spec fn platform_of(v: Seq<Seq<char>>) -> Option<Seq<char>> {
    match first_named(v, 0) {
        Some(p) => Some(p),
        None => if v.len() > 0 {
            Some(Seq::empty())
        } else {
            None
        },
    }
}

/// The platform of a fund's positions, given those of all of them.
pub fn resolve_position_platform(platforms: &Vec<String>) -> (r: Option<String>)
    ensures
        text_of(r) == platform_of(views(platforms@)),
{
    let mut i: usize = 0;
    while i < platforms.len()
        invariant
            i <= platforms@.len(),
            first_named(views(platforms@), 0) == first_named(views(platforms@), i as int),
        decreases platforms@.len() - i,
    {
        assert(views(platforms@)[i as int] == platforms@[i as int]@);
        if !platforms[i].as_str().is_empty() {
            return Some(platforms[i].clone());
        }
        i += 1;
    }
    if platforms.len() > 0 {
        let none = String::new();
        assert(none@ =~= Seq::<char>::empty());
        Some(none)
    } else {
        None
    }
}

/// The platform on which a position is changed: the one that is named, else that of the fund's
/// positions, else none.
pub open spec fn target_platform(given: Option<Seq<char>>, held: Seq<Seq<char>>) -> Seq<char> {
    if given is Some && given->Some_0.len() > 0 {
        given->Some_0
    } else {
        match platform_of(held) {
            Some(p) => p,
            None => Seq::empty(),
        }
    }
}

/// The platform on which a position is changed.
pub fn choose_platform(given: &Option<String>, held: &Vec<String>) -> (r: String)
    ensures
        r@ == target_platform(text_of(*given), views(held@)),
{
    match given {
        Some(p) => {
            if !p.as_str().is_empty() {
                return p.clone();
            }
        },
        None => {},
    }
    match resolve_position_platform(held) {
        Some(p) => p,
        None => {
            let none = String::new();
            assert(none@ =~= Seq::<char>::empty());
            none
        },
    }
}

/// Changing a position whose platform is not named never makes a new one while the fund has any: the
/// platform is that of a position there is.
pub proof fn law_no_phantom_position(given: Option<Seq<char>>, held: Seq<Seq<char>>)
    requires
        held.len() > 0,
        given is None || given->Some_0.len() == 0,
    ensures
        held.contains(target_platform(given, held)),
{
    lemma_first_named(held, 0);
    if first_named(held, 0) is None {
        assert(held[0] =~= Seq::<char>::empty());
    }
}

proof fn lemma_first_named(v: Seq<Seq<char>>, from: int)
    requires
        0 <= from,
    ensures
        match first_named(v, from) {
            Some(p) => v.contains(p),
            None => forall|i: int| from <= i < v.len() ==> (#[trigger] v[i]).len() == 0,
        },
    decreases v.len() - from,
{
    if from < v.len() && v[from].len() == 0 {
        lemma_first_named(v, from + 1);
    }
}

/// What a negative cost is answered with.
pub fn check_cost_price(negative: bool) -> (r: Result<(), String>)
    ensures
        match r {
            Ok(_) => !negative,
            Err(m) => negative && m@ == "成本价不能为负"@,
        },
{
    if negative {
        Err("成本价不能为负".to_owned())
    } else {
        Ok(())
    }
}

// ---------------------------------------------------------------------------
// Official values
// ---------------------------------------------------------------------------

/// Where the value of the day before comes from when an official value is stored.
#[derive(Debug, Clone, Copy, PartialEq, Eq, Structural)]
pub enum PrevFrom {
    /// It was handed in.
    Given,
    /// The official value so far, which is of an earlier day.
    OldValue,
    /// The one stored so far.
    OldPrev,
}

/// What is stored beside a new official value.
pub struct NavUpdate {
    pub nav_date: String,
    pub prev_from: PrevFrom,
}

/// A new value is of a later day than the one so far.
pub open spec fn moves_on(old_date: Option<Seq<char>>, nav_date: Seq<char>) -> bool {
    old_date is Some && old_date->Some_0.len() > 0 && nav_date.len() > 0 && lex_lt(
        old_date->Some_0,
        nav_date,
    )
}

/// The date under which a new value is stored.
pub open spec fn stored_date(old_date: Option<Seq<char>>, nav_date: Seq<char>) -> Seq<char> {
    if nav_date.len() > 0 {
        nav_date
    } else {
        match old_date {
            Some(d) => d,
            None => Seq::empty(),
        }
    }
}

/// What is stored beside a new official value. `given_positive` says whether a value of the day before
/// was handed in that is above zero.
pub fn update_fund_nav(old_date: &Option<String>, nav_date: &str, given_positive: bool) -> (r: NavUpdate)
    ensures
        r.nav_date@ == stored_date(text_of(*old_date), nav_date@),
        r.prev_from == (if given_positive {
            PrevFrom::Given
        } else if moves_on(text_of(*old_date), nav_date@) {
            PrevFrom::OldValue
        } else {
            PrevFrom::OldPrev
        }),
{
    let later = match old_date {
        Some(d) => !d.as_str().is_empty() && !nav_date.is_empty() && is_before(
            d.as_str(),
            nav_date,
        ),
        None => false,
    };
    let date = if nav_date.is_empty() {
        match old_date {
            Some(d) => d.clone(),
            None => {
                let none = String::new();
                assert(none@ =~= Seq::<char>::empty());
                none
            },
        }
    } else {
        nav_date.to_owned()
    };
    let prev_from = if given_positive {
        PrevFrom::Given
    } else if later {
        PrevFrom::OldValue
    } else {
        PrevFrom::OldPrev
    };
    NavUpdate { nav_date: date, prev_from }
}

/// Storing a value of the same day again changes neither the date nor the value of the day before;
/// and a date that is known is never lost.
pub proof fn law_same_day_does_not_slide(old_date: Seq<char>, nav_date: Seq<char>)
    ensures
        !moves_on(Some(old_date), old_date),
        stored_date(Some(old_date), old_date) == old_date || old_date.len() == 0,
        old_date.len() > 0 ==> stored_date(Some(old_date), nav_date).len() > 0,
{
    crate::text::lemma_lex_irreflexive(old_date);
}

/// The name under which a fund of a transaction is stored: its own, or else its code.
pub fn fund_display_name(name: &Option<String>, code: &str) -> (r: String)
    ensures
        r@ == (if name is Some && name->Some_0@.len() > 0 {
            name->Some_0@
        } else {
            code@
        }),
{
    match name {
        Some(n) => {
            if n.as_str().is_empty() {
                code.to_owned()
            } else {
                n.clone()
            }
        },
        None => code.to_owned(),
    }
}

/// The name of a fund among codes and names; the last one counts where a code occurs twice.
pub open spec fn name_in(funds: Seq<(Seq<char>, Seq<char>)>, code: Seq<char>, n: int) -> Option<
    Seq<char>,
>
    decreases n,
{
    if n <= 0 {
        None
    } else if funds[n - 1].0 == code {
        Some(funds[n - 1].1)
    } else {
        name_in(funds, code, n - 1)
    }
}

/// The name of a fund among codes and names.
pub fn fund_name(funds: &Vec<(String, String)>, code: &str) -> (r: Option<String>)
    ensures
        text_of(r) == name_in(crate::relay::pair_views(funds@), code@, funds@.len() as int),
{
    let ghost all = crate::relay::pair_views(funds@);
    let mut n: usize = funds.len();
    while n > 0
        invariant
            all == crate::relay::pair_views(funds@),
            n <= funds@.len(),
            name_in(all, code@, funds@.len() as int) == name_in(all, code@, n as int),
        decreases n,
    {
        assert(all[n - 1] == (funds@[n - 1].0@, funds@[n - 1].1@));
        if same(funds[n - 1].0.as_str(), code) {
            return Some(funds[n - 1].1.clone());
        }
        n -= 1;
    }
    None
}

} // verus!
