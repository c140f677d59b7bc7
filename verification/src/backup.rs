//! Rolling backups of the whole database: their names, how many are kept and which go.
use vstd::prelude::*;
use vstd::utf8::*;
use crate::order::{arranges, lists_all, precedes, stable_order, stably_sorted, Ranked};
use crate::text::{begins, byte_edge, bytes_cut, contains, cut_bytes, decimal, decimal_of, digit, ends, find_chars, find_from, is_before, lemma_ascii_bytes, lemma_find_from, lemma_lex_irreflexive, lemma_lex_total, lemma_lex_transitive, lex_lt, occurs, occurs_at, parse_i64, same, signed_number, slice_text, stands_at, starts_with, to_chars, views};

verus! {

/// Number of backups kept where nothing else is set.
pub const DEFAULT_KEEP: i64 = 7;

/// Setting that holds the number of backups kept.
pub const KEEP_KEY: &'static str = "sync_backup_keep";

/// Name of the backup directory, which stands beside the database file.
pub const DIR_NAME: &'static str = "backups";

/// Beginning of every backup's file name.
pub const PREFIX: &'static str = "fundlens-";

/// End of every backup's file name.
pub const SUFFIX: &'static str = ".db";

/// What is known of a backup.
#[derive(Debug, Clone)]
pub struct BackupEntry {
    /// File name without directory.
    pub file: String,
    /// Number of bytes.
    pub size: i64,
    /// Time of creation.
    pub at: String,
    /// What the backup was made for.
    pub tag: String,
}

/// Model of a backup.
#[verifier::ext_equal]
pub struct BackupView {
    pub file: Seq<char>,
    pub size: i64,
    pub at: Seq<char>,
    pub tag: Seq<char>,
}

impl View for BackupEntry {
    type V = BackupView;

    open spec fn view(&self) -> BackupView {
        BackupView { file: self.file@, size: self.size, at: self.at@, tag: self.tag@ }
    }
}

/// The models of a list of backups.
pub open spec fn backup_views(v: Seq<BackupEntry>) -> Seq<BackupView> {
    v.map_values(|e: BackupEntry| e@)
}

// ---------------------------------------------------------------------------
// How many are kept
// ---------------------------------------------------------------------------

/// A number of backups, brought into the range that is allowed.
pub open spec fn clamp_keep(n: int) -> int {
    if n < 1 {
        1
    } else if n > 60 {
        60
    } else {
        n
    }
}

/// The number of backups kept, from the setting's text; what is missing or no number means the
/// default.
pub open spec fn keep_of(raw: Option<Seq<char>>) -> int {
    match raw {
        Some(s) => match signed_number(s) {
            Some(n) => if i64::MIN <= n <= i64::MAX {
                clamp_keep(n)
            } else {
                clamp_keep(DEFAULT_KEEP as int)
            },
            None => clamp_keep(DEFAULT_KEEP as int),
        },
        None => clamp_keep(DEFAULT_KEEP as int),
    }
}

/// Brings a number of backups into the range from 1 to 60.
fn clamped(n: i64) -> (r: i64)
    ensures
        r == clamp_keep(n as int),
{
    if n < 1 {
        1
    } else if n > 60 {
        60
    } else {
        n
    }
}

/// The number of backups kept, from the text of the setting.
pub fn keep_count(raw: Option<String>) -> (r: i64)
    ensures
        r == keep_of(
            match raw {
                Some(s) => Some(s@),
                None => None,
            },
        ),
{
    match raw {
        Some(s) => match parse_i64(s.as_str()) {
            Some(n) => clamped(n),
            None => clamped(DEFAULT_KEEP),
        },
        None => clamped(DEFAULT_KEEP),
    }
}

/// The number of backups that comes into effect, with the text that the setting then holds.
pub fn set_keep_count(n: i64) -> (r: (i64, String))
    ensures
        r.0 == clamp_keep(n as int),
        r.1@ == decimal_of(r.0 as nat),
{
    let v = clamped(n);
    (v, decimal(v as u64))
}

/// A number of backups that was set is what is read from then on.
pub proof fn law_keep_persists(n: int)
    ensures
        keep_of(Some(decimal_of(clamp_keep(n) as nat))) == clamp_keep(n),
        1 <= clamp_keep(n) <= 60,
        clamp_keep(clamp_keep(n)) == clamp_keep(n),
{
    let k = clamp_keep(n);
    let s = decimal_of(k as nat);
    crate::text::lemma_decimal_reads_back(k as nat);
    assert(crate::text::digit(s[0]));
}

// ---------------------------------------------------------------------------
// Names
// ---------------------------------------------------------------------------

/// A stamp of fifteen bytes with a hyphen in it holds a date and a time.
pub open spec fn short_stamp(s: Seq<char>) -> bool {
    encode_utf8(s).len() == 15 && occurs(s, "-"@)
}

/// The parts of a short stamp can be cut out.
pub open spec fn short_cuttable(s: Seq<char>) -> bool {
    short_stamp(s) ==> byte_edge(s, 4) && byte_edge(s, 6) && byte_edge(s, 8) && byte_edge(s, 9)
        && byte_edge(s, 11) && byte_edge(s, 13)
}

/// The time that a short stamp stands for; anything else stands for itself.
pub open spec fn short_at(s: Seq<char>) -> Seq<char> {
    if short_stamp(s) {
        bytes_cut(s, 0, 4) + "-"@ + bytes_cut(s, 4, 6) + "-"@ + bytes_cut(s, 6, 8) + " "@
            + bytes_cut(s, 9, 11) + ":"@ + bytes_cut(s, 11, 13) + ":"@ + bytes_cut(s, 13, 15)
    } else {
        s
    }
}

/// The time that the stamp in a file name stands for.
pub fn stamp_to_at(stamp: &str) -> (r: String)
    requires
        short_cuttable(stamp@),
    ensures
        r@ == short_at(stamp@),
{
    if stamp.as_bytes().len() != 15 || !contains(stamp, "-") {
        return stamp.to_owned();
    }
    proof {
        let b = encode_utf8(stamp@);
        encode_utf8_valid_utf8(stamp@);
        is_char_boundary_start_end_of_seq(b);
    }
    let mut r = cut_bytes(stamp, 0, 4).to_owned();
    r.append("-");
    r.append(cut_bytes(stamp, 4, 6));
    r.append("-");
    r.append(cut_bytes(stamp, 6, 8));
    r.append(" ");
    r.append(cut_bytes(stamp, 9, 11));
    r.append(":");
    r.append(cut_bytes(stamp, 11, 13));
    r.append(":");
    r.append(cut_bytes(stamp, 13, 15));
    r
}

/// The middle of a backup's file name: what stands between its beginning and its end.
pub open spec fn name_middle(name: Seq<char>) -> Option<Seq<char>> {
    if begins(name, PREFIX@) && ends(name.skip(PREFIX@.len() as int), SUFFIX@) {
        Some(name.subrange(PREFIX@.len() as int, name.len() - SUFFIX@.len()))
    } else {
        None
    }
}

/// The tag in what follows the stamp: without one leading hyphen and up to the first underscore.
pub open spec fn tag_in(rest: Seq<char>) -> Seq<char> {
    let t = if begins(rest, "-"@) {
        rest.skip(1)
    } else {
        rest
    };
    let u = match find_from(t, "_"@, 0) {
        Some(i) => t.take(i),
        None => t,
    };
    if u.len() == 0 {
        "auto"@
    } else {
        u
    }
}

/// A text begins with a stamp of date and time: eight digits, a hyphen and six digits.
pub open spec fn stamp_first(m: Seq<char>) -> bool {
    &&& m.len() >= 15
    &&& forall|i: int| 0 <= i < 8 ==> digit(#[trigger] m[i])
    &&& m[8] == '-'
    &&& forall|i: int| 9 <= i < 15 ==> digit(#[trigger] m[i])
}

/// The stamp and the tag in a backup's file name.
pub open spec fn name_parts(name: Seq<char>) -> Option<(Seq<char>, Seq<char>)> {
    match name_middle(name) {
        Some(m) => if stamp_first(m) {
            Some((m.take(15), tag_in(m.skip(15))))
        } else {
            None
        },
        None => None,
    }
}

/// Whether a text begins with a stamp of date and time.
fn is_stamp_first(m: &Vec<char>) -> (r: bool)
    ensures
        r == stamp_first(m@),
{
    if m.len() < 15 {
        return false;
    }
    let mut i: usize = 0;
    while i < 15
        invariant
            m@.len() >= 15,
            i <= 15,
            forall|j: int|
                0 <= j < i ==> if j == 8 {
                    #[trigger] m@[j] == '-'
                } else {
                    digit(m@[j])
                },
        decreases 15 - i,
    {
        let c = m[i];
        if i == 8 {
            if c != '-' {
                return false;
            }
        } else if !('0' <= c && c <= '9') {
            assert(!digit(m@[i as int]));
            return false;
        }
        i += 1;
    }
    assert(m@[8] == '-');
    true
}

/// The stamp and the tag in a backup's file name; `None` for any other name.
pub fn parse_name(name: &str) -> (r: Option<(String, String)>)
    ensures
        match r {
            Some(p) => name_parts(name@) == Some((p.0@, p.1@)),
            None => name_parts(name@) is None,
        },
{
    let v = to_chars(name);
    let prefix = to_chars(PREFIX);
    let suffix = to_chars(SUFFIX);
    if !stands_at(&v, &prefix, 0) {
        return None;
    }
    let tail = slice_text(&v, prefix.len(), v.len());
    assert(tail@ =~= name@.skip(PREFIX@.len() as int));
    let t = to_chars(tail.as_str());
    if t.len() < suffix.len() || !stands_at(&t, &suffix, t.len() - suffix.len()) {
        return None;
    }
    let rest = slice_text(&t, 0, t.len() - suffix.len());
    assert(rest@ =~= name@.subrange(PREFIX@.len() as int, name@.len() - SUFFIX@.len()));
    let m = to_chars(rest.as_str());
    if !is_stamp_first(&m) {
        return None;
    }
    proof {
        reveal_strlit("-");
        reveal_strlit("_");
    }
    let stamp = slice_text(&m, 0, 15);
    assert(stamp@ =~= m@.take(15));
    let tagged = slice_text(&m, 15, m.len());
    assert(tagged@ =~= m@.skip(15));
    let after = to_chars(tagged.as_str());
    let hyphen = to_chars("-");
    let start: usize = if stands_at(&after, &hyphen, 0) {
        1
    } else {
        0
    };
    let body = slice_text(&after, start, after.len());
    let ghost whole = after@;
    assert(body@ =~= (if begins(whole, "-"@) {
        whole.skip(1)
    } else {
        whole
    }));
    let b = to_chars(body.as_str());
    let underscore = to_chars("_");
    let end: usize = match find_chars(&b, &underscore, 0) {
        Some(i) => i,
        None => b.len(),
    };
    let tag = slice_text(&b, 0, end);
    assert(tag@ =~= (match find_from(b@, "_"@, 0) {
        Some(i) => b@.take(i),
        None => b@,
    }));
    if tag.as_str().is_empty() {
        Some((stamp, "auto".to_owned()))
    } else {
        Some((stamp, tag))
    }
}

/// The stamp in a file name can be cut into its parts.
proof fn lemma_stamp_cuttable(s: Seq<char>)
    requires
        s.len() == 15,
        stamp_first(s),
    ensures
        short_cuttable(s),
{
    assert(is_ascii_chars(s)) by {
        assert forall|i: int| 0 <= i < s.len() implies '\0' <= #[trigger] s[i] <= '\u{7f}' by {
            assert(i == 8 || digit(s[i]));
        }
    }
    lemma_ascii_bytes(s, 4, 15);
    lemma_ascii_bytes(s, 6, 15);
    lemma_ascii_bytes(s, 8, 15);
    lemma_ascii_bytes(s, 9, 15);
    lemma_ascii_bytes(s, 11, 15);
    lemma_ascii_bytes(s, 13, 15);
}

/// The file name of the `n`-th backup with one stamp and one tag.
pub open spec fn name_of(stamp: Seq<char>, tag: Seq<char>, n: int) -> Seq<char> {
    if n <= 1 {
        PREFIX@ + stamp + "-"@ + tag + SUFFIX@
    } else {
        PREFIX@ + stamp + "-"@ + tag + "_"@ + decimal_of(n as nat) + SUFFIX@
    }
}

/// The file name of the `n`-th backup with one stamp and one tag.
pub fn backup_name(stamp: &str, tag: &str, n: u64) -> (r: String)
    ensures
        r@ == name_of(stamp@, tag@, n as int),
{
    let mut s = PREFIX.to_owned();
    s.append(stamp);
    s.append("-");
    s.append(tag);
    if n > 1 {
        s.append("_");
        s.append(decimal(n).as_str());
    }
    s.append(SUFFIX);
    s
}

/// What a backup is tagged with: `manual` where nothing is said.
pub open spec fn tag_or_manual(tag: Seq<char>) -> Seq<char> {
    if tag.len() == 0 {
        "manual"@
    } else {
        tag
    }
}

/// The number of the first file name at or after `n` that is not taken; the ninety-ninth where all
/// up to there are.
pub open spec fn free_number(
    stamp: Seq<char>,
    tag: Seq<char>,
    taken: Seq<Seq<char>>,
    n: int,
) -> int
    decreases 99 - n,
{
    if n >= 99 || !taken.contains(name_of(stamp, tag, n)) {
        n
    } else {
        free_number(stamp, tag, taken, n + 1)
    }
}

/// Whether a name is among those taken.
fn is_taken(taken: &Vec<String>, name: &str) -> (r: bool)
    ensures
        r == views(taken@).contains(name@),
{
    let mut i: usize = 0;
    while i < taken.len()
        invariant
            i <= taken@.len(),
            forall|j: int| 0 <= j < i ==> (#[trigger] taken@[j])@ != name@,
        decreases taken@.len() - i,
    {
        if same(taken[i].as_str(), name) {
            assert(views(taken@)[i as int] == name@);
            return true;
        }
        i += 1;
    }
    false
}

/// The file name of a new backup: the first one with its stamp and tag that is not taken.
pub fn new_backup_name(stamp: &str, tag: &str, taken: &Vec<String>) -> (r: String)
    ensures
        r@ == name_of(
            stamp@,
            tag_or_manual(tag@),
            free_number(stamp@, tag_or_manual(tag@), views(taken@), 1),
        ),
{
    let t = if tag.is_empty() {
        "manual"
    } else {
        tag
    };
    let mut n: u64 = 1;
    let mut name = backup_name(stamp, t, 1);
    while n < 99 && is_taken(taken, name.as_str())
        invariant
            1 <= n <= 99,
            name@ == name_of(stamp@, t@, n as int),
            free_number(stamp@, t@, views(taken@), 1) == free_number(
                stamp@,
                t@,
                views(taken@),
                n as int,
            ),
        decreases 99 - n,
    {
        n += 1;
        name = backup_name(stamp, t, n);
    }
    name
}

/// A stamp as backups bear it: eight digits, a hyphen and six digits.
pub open spec fn plain_stamp(s: Seq<char>) -> bool {
    s.len() == 15 && stamp_first(s)
}

/// A backup's file name gives back its stamp and its tag, whatever its number.
pub proof fn law_name_round_trip(stamp: Seq<char>, tag: Seq<char>, n: int)
    requires
        plain_stamp(stamp),
        tag.len() > 0,
        !tag.contains('_'),
        n >= 1,
    ensures
        name_parts(name_of(stamp, tag, n)) == Some((stamp, tag)),
{
    reveal_strlit("-");
    reveal_strlit("_");
    reveal_strlit(".db");
    reveal_strlit("fundlens-");
    let name = name_of(stamp, tag, n);
    let number = if n <= 1 {
        Seq::empty()
    } else {
        "_"@ + decimal_of(n as nat)
    };
    let mid = stamp + "-"@ + tag + number;
    assert(name =~= PREFIX@ + mid + SUFFIX@);
    assert(name.subrange(0, PREFIX@.len() as int) =~= PREFIX@);
    let tail = name.skip(PREFIX@.len() as int);
    assert(tail =~= mid + SUFFIX@);
    assert(tail.subrange(tail.len() - SUFFIX@.len(), tail.len() as int) =~= SUFFIX@);
    assert(name.subrange(PREFIX@.len() as int, name.len() - SUFFIX@.len()) =~= mid);
    assert(name_middle(name) == Some(mid));
    assert(stamp_first(mid)) by {
        assert forall|i: int| 0 <= i < 15 implies #[trigger] mid[i] == stamp[i] by {}
    }
    assert(mid.take(15) =~= stamp);
    let rest = mid.skip(15);
    assert(rest =~= "-"@ + tag + number);
    assert(rest.subrange(0, 1) =~= "-"@);
    let t = rest.skip(1);
    assert(t =~= tag + number);
    lemma_find_from(t, "_"@, 0);
    if n <= 1 {
        assert(t =~= tag);
        if find_from(t, "_"@, 0) is Some {
            let i = find_from(t, "_"@, 0)->0;
            assert(t.subrange(i, i + 1)[0] == '_');
            assert(tag[i] == '_');
        }
    } else {
        assert(t.subrange(tag.len() as int, tag.len() as int + 1) =~= "_"@);
        assert(occurs_at(t, "_"@, tag.len() as int));
        let i = find_from(t, "_"@, 0)->0;
        if i < tag.len() {
            assert(t.subrange(i, i + 1)[0] == '_');
            assert(tag[i] == '_');
        }
        assert(t.take(i) =~= tag);
    }
}

// ---------------------------------------------------------------------------
// The list and what is removed from it
// ---------------------------------------------------------------------------

/// A file found in the backup directory.
pub struct FoundBackup {
    pub name: String,
    pub size: i64,
}

/// The backups among the files found.
pub open spec fn found_backups(files: Seq<FoundBackup>) -> Seq<BackupView>
    decreases files.len(),
{
    if files.len() == 0 {
        Seq::empty()
    } else {
        let rest = found_backups(files.drop_last());
        match name_parts(files.last().name@) {
            Some(p) => rest.push(
                BackupView {
                    file: files.last().name@,
                    size: files.last().size,
                    at: short_at(p.0),
                    tag: p.1,
                },
            ),
            None => rest,
        }
    }
}

/// Backups with the later file name first.
pub open spec fn newest_first() -> spec_fn(BackupView, BackupView) -> bool {
    |a: BackupView, b: BackupView| lex_lt(b.file, a.file)
}

/// Texts in descending order.
pub struct TextDown {
    pub text: String,
}

impl Ranked for TextDown {
    open spec fn ahead(&self, other: &Self) -> bool {
        lex_lt(other.text@, self.text@)
    }

    proof fn law_irreflexive(a: &Self) {
        lemma_lex_irreflexive(a.text@);
    }

    proof fn law_comparable(a: &Self, b: &Self, c: &Self) {
        if a.ahead(c) && !a.ahead(b) && !b.ahead(c) {
            lemma_lex_total(a.text@, b.text@);
            if lex_lt(a.text@, b.text@) {
                lemma_lex_transitive(c.text@, a.text@, b.text@);
            }
        }
    }

    proof fn law_transitive(a: &Self, b: &Self, c: &Self) {
        if a.ahead(b) && b.ahead(c) {
            lemma_lex_transitive(c.text@, b.text@, a.text@);
        }
    }

    fn is_ahead(&self, other: &Self) -> (r: bool) {
        is_before(other.text.as_str(), self.text.as_str())
    }
}

/// The backups among the files found, the newest first.
pub fn list_backups(files: &Vec<FoundBackup>) -> (out: Vec<BackupEntry>)
    ensures
        stably_sorted(found_backups(files@), backup_views(out@), newest_first()),
{
    let mut kept: Vec<BackupEntry> = Vec::new();
    let mut keys: Vec<TextDown> = Vec::new();
    let mut i: usize = 0;
    assert(backup_views(kept@) =~= found_backups(files@.take(0)));
    while i < files.len()
        invariant
            i <= files@.len(),
            backup_views(kept@) == found_backups(files@.take(i as int)),
            keys@.len() == kept@.len(),
            forall|k: int| 0 <= k < keys@.len() ==> (#[trigger] keys@[k]).text@ == kept@[k]@.file,
        decreases files@.len() - i,
    {
        assert(files@.take(i + 1).drop_last() =~= files@.take(i as int));
        match parse_name(files[i].name.as_str()) {
            None => {},
            Some(p) => {
                let ghost before = kept@;
                proof {
                    let m = name_middle(files@[i as int].name@)->0;
                    assert forall|k: int| 0 <= k < 15 implies #[trigger] p.0@[k] == m[k] by {}
                    lemma_stamp_cuttable(p.0@);
                }
                let e = BackupEntry {
                    file: files[i].name.clone(),
                    size: files[i].size,
                    at: stamp_to_at(p.0.as_str()),
                    tag: p.1,
                };
                keys.push(TextDown { text: e.file.clone() });
                kept.push(e);
                assert(backup_views(kept@) =~= backup_views(before).push(e@));
            },
        }
        i += 1;
    }
    assert(files@.take(files@.len() as int) =~= files@);
    let order = stable_order(&keys);
    let mut out: Vec<BackupEntry> = Vec::new();
    let mut k: usize = 0;
    while k < order.len()
        invariant
            lists_all(order@, kept@.len() as int),
            k <= order@.len(),
            out@.len() == k,
            forall|a: int| 0 <= a < k ==> (#[trigger] out@[a])@ == kept@[order@[a] as int]@,
        decreases order@.len() - k,
    {
        let e = &kept[order[k]];
        out.push(
            BackupEntry {
                file: e.file.clone(),
                size: e.size,
                at: e.at.clone(),
                tag: e.tag.clone(),
            },
        );
        k += 1;
    }
    proof {
        let s = backup_views(kept@);
        let o = backup_views(out@);
        assert forall|a: int, b: int| 0 <= a < b < o.len() implies newest_first()(
            s[#[trigger] order@[a] as int],
            s[#[trigger] order@[b] as int],
        ) || (!newest_first()(s[order@[b] as int], s[order@[a] as int]) && order@[a] < order@[b]) by {
            assert(precedes(keys@, order@[a] as int, order@[b] as int));
        }
        assert(arranges(s, o, order@, newest_first()));
    }
    out
}

/// The files that go when only `keep` backups are kept: those behind the first `keep` of the list,
/// the last one first.
pub open spec fn victims_of(all: Seq<BackupView>, keep: int) -> Seq<Seq<char>>
    decreases all.len(),
{
    if all.len() <= clamp_keep(keep) {
        Seq::empty()
    } else {
        seq![all.last().file] + victims_of(all.drop_last(), keep)
    }
}

/// The files that go when only `keep` backups of the list, newest first, are kept.
pub fn prune(all: &Vec<BackupEntry>, keep: i64) -> (r: Vec<String>)
    ensures
        views(r@) == victims_of(backup_views(all@), keep as int),
{
    let k = clamped(keep) as usize;
    let mut r: Vec<String> = Vec::new();
    let mut n: usize = all.len();
    let ghost v = backup_views(all@);
    assert(v.take(v.len() as int) =~= v);
    assert(views(r@) =~= Seq::<Seq<char>>::empty());
    while n > k
        invariant
            v == backup_views(all@),
            n <= all@.len(),
            k == clamp_keep(keep as int),
            victims_of(v, keep as int) =~= views(r@) + victims_of(v.take(n as int), keep as int),
        decreases n,
    {
        let ghost before = r@;
        assert(v.take(n as int).drop_last() =~= v.take(n - 1));
        assert(v.take(n as int).last() == all@[n - 1]@);
        r.push(all[n - 1].file.clone());
        assert(views(r@) =~= views(before).push(all@[n - 1].file@));
        n -= 1;
    }
    r
}

/// What goes are the oldest backups: every file that goes has a name no later than every one that
/// stays, and exactly the allowed number stays.
pub proof fn law_prune_removes_oldest(found: Seq<BackupView>, all: Seq<BackupView>, keep: int)
    requires
        stably_sorted(found, all, newest_first()),
    ensures
        victims_of(all, keep).len() == (if all.len() > clamp_keep(keep) {
            all.len() - clamp_keep(keep)
        } else {
            0
        }),
        forall|i: int, j: int|
            0 <= i < victims_of(all, keep).len() && 0 <= j < all.len() && j < clamp_keep(keep)
                ==> !lex_lt(
                (#[trigger] all[j]).file,
                #[trigger] victims_of(all, keep)[i],
            ),
{
    lemma_victims(all, keep);
    let p = choose|p: Seq<usize>| #[trigger] arranges(found, all, p, newest_first());
    assert forall|i: int, j: int|
        0 <= i < victims_of(all, keep).len() && 0 <= j < all.len() && j < clamp_keep(
            keep,
        ) implies !lex_lt((#[trigger] all[j]).file, #[trigger] victims_of(all, keep)[i]) by {
        let q = all.len() - 1 - i;
        assert(victims_of(all, keep)[i] == all[q].file);
        assert(j < q);
        let a = found[p[j] as int];
        let b = found[p[q] as int];
        assert(all[j] == a && all[q] == b);
        if lex_lt(a.file, b.file) {
            if lex_lt(b.file, a.file) {
                lemma_lex_transitive(a.file, b.file, a.file);
                lemma_lex_irreflexive(a.file);
            }
        }
    }
}

/// The files that go stand at the end of the list.
proof fn lemma_victims(all: Seq<BackupView>, keep: int)
    ensures
        victims_of(all, keep).len() == (if all.len() > clamp_keep(keep) {
            all.len() - clamp_keep(keep)
        } else {
            0
        }),
        forall|i: int|
            0 <= i < victims_of(all, keep).len() ==> #[trigger] victims_of(all, keep)[i]
                == all[all.len() - 1 - i].file,
    decreases all.len(),
{
    if all.len() > clamp_keep(keep) {
        lemma_victims(all.drop_last(), keep);
        let rest = victims_of(all.drop_last(), keep);
        assert forall|i: int| 0 <= i < victims_of(all, keep).len() implies #[trigger] victims_of(
            all,
            keep,
        )[i] == all[all.len() - 1 - i].file by {
            if i > 0 {
                assert(victims_of(all, keep)[i] == rest[i - 1]);
                assert(rest[i - 1] == all.drop_last()[all.len() - 1 - i].file);
            }
        }
    }
}

/// Some backup of the list was made on the day.
pub open spec fn made_on(all: Seq<BackupView>, day: Seq<char>) -> bool {
    exists|i: int| 0 <= i < all.len() && begins((#[trigger] all[i]).at, day)
}

/// Whether a backup of the list was made on the given day.
pub fn has_backup_today(all: &Vec<BackupEntry>, today: &str) -> (r: bool)
    ensures
        r == made_on(backup_views(all@), today@),
{
    let mut i: usize = 0;
    let ghost v = backup_views(all@);
    while i < all.len()
        invariant
            v == backup_views(all@),
            i <= all@.len(),
            forall|j: int| 0 <= j < i ==> !begins((#[trigger] v[j]).at, today@),
        decreases all@.len() - i,
    {
        if starts_with(all[i].at.as_str(), today) {
            assert(begins(v[i as int].at, today@));
            return true;
        }
        assert(v[i as int].at == all@[i as int].at@);
        i += 1;
    }
    false
}

/// The backup directory, beside the database file. Paths are given as their segments.
pub fn backup_dir(db: &Vec<String>) -> (r: Vec<String>)
    ensures
        views(r@) == (if db@.len() == 0 {
            seq!["."@, DIR_NAME@]
        } else {
            views(db@).drop_last().push(DIR_NAME@)
        }),
{
    let mut r: Vec<String> = Vec::new();
    if db.len() == 0 {
        r.push(".".to_owned());
        r.push(DIR_NAME.to_owned());
        assert(views(r@) =~= seq!["."@, DIR_NAME@]);
        return r;
    }
    let mut i: usize = 0;
    while i < db.len() - 1
        invariant
            db@.len() > 0,
            i <= db@.len() - 1,
            r@.len() == i,
            forall|k: int| 0 <= k < i ==> (#[trigger] r@[k])@ == db@[k]@,
        decreases db@.len() - i,
    {
        r.push(db[i].clone());
        i += 1;
    }
    r.push(DIR_NAME.to_owned());
    assert(views(r@) =~= views(db@).drop_last().push(DIR_NAME@));
    r
}

} // verus!
