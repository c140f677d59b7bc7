//! Laws of backups, of refreshing, of the store and of symbols, stated on names, counts and places.
use vstd::prelude::*;
use crate::backup::{clamp_keep, found_backups, free_number, keep_of, made_on, name_of, name_parts, newest_first, short_at, stamp_first, tag_in, tag_or_manual, victims_of, BackupView, FoundBackup};
use crate::date::{read_ymd, Date};
use crate::order::{arranges, stably_sorted};
use crate::refresh::{failed_of, fresh_below, is_stale, quarters_of, FundNavStatus, NavRefresh};
use crate::store::{db_dir, first_named, moves_on, name_in, platform_of, stored_date, target_platform};
use crate::symbols::{any_alphabetic, benchmark_symbol, hk_only, platform_label, stock_symbol, symbol_of, with_new, FundKind};
use crate::text::{begins, decimal_of, digit, find_from, lemma_find_from, lemma_lex_irreflexive, lemma_lex_transitive, lex_lt, signed_number, trimmed};
use vstd::utf8::{is_ascii_chars, is_ascii_chars_encode_utf8};

verus! {

// ---------------------------------------------------------------------------
// Backups
// ---------------------------------------------------------------------------

/// A number of backups from one to sixty stands; a smaller one means one and a larger one sixty; what
/// does not read as a number means seven.
pub proof fn law_number_of_backups(n: int, raw: Option<Seq<char>>)
    ensures
        1 <= n <= 60 ==> clamp_keep(n) == n,
        n < 1 ==> clamp_keep(n) == 1,
        n > 60 ==> clamp_keep(n) == 60,
        raw is None ==> keep_of(raw) == 7,
        raw is Some && signed_number(raw->Some_0) is None ==> keep_of(raw) == 7,
        raw is Some && signed_number(raw->Some_0) == Some(n) && -9000000000000000000 <= n
            <= 9000000000000000000 ==> keep_of(raw) == (if n < 1 {
            1
        } else if n > 60 {
            60
        } else {
            n
        }),
{
}

/// Pruning removes exactly the backups behind the number that is kept, the last one first; the others
/// stay.
pub proof fn law_pruned_are_those_behind(all: Seq<BackupView>, keep: int, i: int)
    requires
        1 <= keep <= 60,
    ensures
        all.len() <= keep ==> victims_of(all, keep).len() == 0,
        all.len() > keep ==> victims_of(all, keep).len() == all.len() - keep,
        all.len() > keep && 0 <= i < all.len() - keep ==> victims_of(all, keep)[i] == all[all.len() - 1
            - i].file,
    decreases all.len(),
{
    if all.len() > keep {
        law_pruned_are_those_behind(all.drop_last(), keep, i - 1);
        if 0 < i < all.len() - keep {
            assert(victims_of(all, keep)[i] == victims_of(all.drop_last(), keep)[i - 1]);
            assert(all.drop_last()[all.len() - 1 - i] == all[all.len() - 1 - i]);
        }
    }
}

/// A new backup gets the smallest number from one on whose name is not taken yet, as long as one up to
/// ninety-nine is free.
pub proof fn law_smallest_free_number(
    stamp: Seq<char>,
    tag: Seq<char>,
    taken: Seq<Seq<char>>,
    n: int,
)
    requires
        1 <= n <= 99,
        forall|k: int| 1 <= k < n ==> taken.contains(#[trigger] name_of(stamp, tag, k)),
        n < 99 ==> !taken.contains(name_of(stamp, tag, n)),
    ensures
        free_number(stamp, tag, taken, 1) == n,
{
    lemma_free(stamp, tag, taken, 1, n);
}

proof fn lemma_free(stamp: Seq<char>, tag: Seq<char>, taken: Seq<Seq<char>>, from: int, n: int)
    requires
        1 <= from <= n <= 99,
        forall|k: int| 1 <= k < n ==> taken.contains(#[trigger] name_of(stamp, tag, k)),
        n < 99 ==> !taken.contains(name_of(stamp, tag, n)),
    ensures
        free_number(stamp, tag, taken, from) == n,
    decreases n - from,
{
    if from < n {
        assert(taken.contains(name_of(stamp, tag, from)));
        lemma_free(stamp, tag, taken, from + 1, n);
    }
}

/// The name of a backup: the prefix, the stamp, the tag, from the second on its number, and the ending.
/// A backup without a tag is a manual one.
pub proof fn law_backup_names(stamp: Seq<char>, tag: Seq<char>, n: int)
    ensures
        n <= 1 ==> name_of(stamp, tag, n) == "fundlens-"@ + stamp + "-"@ + tag + ".db"@,
        n > 1 ==> name_of(stamp, tag, n) == "fundlens-"@ + stamp + "-"@ + tag + "_"@ + decimal_of(
            n as nat,
        ) + ".db"@,
        tag.len() == 0 ==> tag_or_manual(tag) == "manual"@,
        tag.len() > 0 ==> tag_or_manual(tag) == tag,
{
}

/// What follows the stamp in a name is the tag, without a leading hyphen and up to an underscore;
/// `auto` where nothing is left.
pub proof fn law_tag_of_a_name(tag: Seq<char>, more: Seq<char>)
    requires
        forall|i: int| 0 <= i < tag.len() ==> (#[trigger] tag[i]) != '_',
    ensures
        tag.len() > 0 ==> tag_in(seq!['-'] + tag) == tag,
        tag.len() > 0 ==> tag_in(seq!['-'] + tag + seq!['_'] + more) == tag,
        tag_in(Seq::empty()) == "auto"@,
        tag_in(seq!['-']) == "auto"@,
        tag_in(seq!['-'] + seq!['_'] + more) == "auto"@,
{
    reveal_strlit("-");
    reveal_strlit("_");
    assert("-"@ =~= seq!['-']);
    assert("_"@ =~= seq!['_']);
    let a = seq!['-'] + tag;
    assert(a.subrange(0, 1) =~= "-"@);
    assert(a.skip(1) =~= tag);
    lemma_no_underscore(tag);
    let b = seq!['-'] + tag + seq!['_'] + more;
    let t = tag + seq!['_'] + more;
    assert(b.subrange(0, 1) =~= "-"@);
    assert(b.skip(1) =~= t);
    lemma_underscore_at(tag, more);
    assert(t.take(tag.len() as int) =~= tag);
    lemma_no_underscore(Seq::empty());
    assert(Seq::<char>::empty().subrange(0, 0) =~= Seq::<char>::empty());
    let c = seq!['-'];
    assert(c.subrange(0, 1) =~= "-"@);
    assert(c.skip(1) =~= Seq::<char>::empty());
    let d = seq!['-'] + seq!['_'] + more;
    assert(d.subrange(0, 1) =~= "-"@);
    assert(d.skip(1) =~= Seq::<char>::empty() + seq!['_'] + more);
    lemma_underscore_at(Seq::empty(), more);
    assert((Seq::<char>::empty() + seq!['_'] + more).take(0).len() == 0);
}

proof fn lemma_no_underscore(t: Seq<char>)
    requires
        forall|i: int| 0 <= i < t.len() ==> (#[trigger] t[i]) != '_',
    ensures
        find_from(t, "_"@, 0) is None,
{
    reveal_strlit("_");
    lemma_find_from(t, "_"@, 0);
    if find_from(t, "_"@, 0) is Some {
        let i = find_from(t, "_"@, 0)->Some_0;
        assert(t.subrange(i, i + 1)[0] == t[i]);
    }
}

proof fn lemma_underscore_at(tag: Seq<char>, more: Seq<char>)
    requires
        forall|i: int| 0 <= i < tag.len() ==> (#[trigger] tag[i]) != '_',
    ensures
        find_from(tag + seq!['_'] + more, "_"@, 0) == Some(tag.len() as int),
{
    reveal_strlit("_");
    let t = tag + seq!['_'] + more;
    let n = tag.len() as int;
    let p = "_"@;
    assert(p.len() == 1 && p[0] == '_');
    assert(t[n] == '_');
    assert(t.subrange(n, n + 1).len() == 1 && t.subrange(n, n + 1)[0] == '_');
    assert(t.subrange(n, n + 1) =~= p);
    crate::text_laws::law_search_is_first(t, p, 0, n);
    let i = find_from(t, p, 0)->Some_0;
    assert(t.subrange(i, i + 1)[0] == t[i]);
    if i < n {
        assert(t[i] == tag[i]);
    }
}

/// A file counts as a backup exactly where its name reads: it is listed once, with its size, its tag
/// and the time of its stamp.
pub proof fn law_found_backups(files: Seq<FoundBackup>, f: FoundBackup)
    ensures
        found_backups(Seq::empty()).len() == 0,
        name_parts(f.name@) is None ==> found_backups(files.push(f)) == found_backups(files),
        name_parts(f.name@) matches Some(p) ==> found_backups(files.push(f)) == found_backups(
            files,
        ).push(BackupView { file: f.name@, size: f.size, at: short_at(p.0), tag: p.1 }),
{
    assert(files.push(f).drop_last() =~= files);
    assert(files.push(f).last() == f);
}

/// The stamp at the beginning of a text: eight digits, a hyphen, six digits.
pub proof fn law_leading_stamp(m: Seq<char>)
    ensures
        stamp_first(m) <==> m.len() >= 15 && m[8] == '-' && forall|i: int|
            0 <= i < 15 && i != 8 ==> '0' <= (#[trigger] m[i]) && m[i] <= '9',
{
    if stamp_first(m) {
        assert forall|i: int| 0 <= i < 15 && i != 8 implies '0' <= (#[trigger] m[i]) && m[i]
            <= '9' by {
            assert(digit(m[i]));
        }
    }
}

/// A backup was made on a day exactly where one of them bears a time that begins with the day.
pub proof fn law_made_on(all: Seq<BackupView>, day: Seq<char>, e: BackupView)
    ensures
        !made_on(Seq::empty(), day),
        made_on(all.push(e), day) <==> made_on(all, day) || (e.at.len() >= day.len() && e.at.subrange(
            0,
            day.len() as int,
        ) == day),
{
    let more = all.push(e);
    assert(more[all.len() as int] == e);
    if made_on(all, day) {
        let i = choose|i: int| 0 <= i < all.len() && begins((#[trigger] all[i]).at, day);
        assert(more[i] == all[i]);
    }
    if made_on(more, day) {
        let i = choose|i: int| 0 <= i < more.len() && begins((#[trigger] more[i]).at, day);
        if i < all.len() {
            assert(all[i] == more[i]);
        }
    }
}

// ---------------------------------------------------------------------------
// Refreshing
// ---------------------------------------------------------------------------

/// A fund is asked for exactly where it has no date of its value, where that does not read as a date,
/// or where it lies before today by year, month and day.
pub proof fn law_funds_to_refresh(f: FundNavStatus, today: Date)
    ensures
        f.nav_date is None ==> is_stale(f, today),
        f.nav_date is Some && f.nav_date->Some_0@.len() == 0 ==> is_stale(f, today),
        f.nav_date is Some && read_ymd(f.nav_date->Some_0@) is None ==> is_stale(f, today),
        f.nav_date is Some && f.nav_date->Some_0@.len() > 0 ==> (read_ymd(f.nav_date->Some_0@) matches Some(
            p,
        ) ==> {
            &&& p.0 < today.year ==> is_stale(f, today)
            &&& p.0 > today.year ==> !is_stale(f, today)
            &&& p.0 == today.year && p.1 < today.month ==> is_stale(f, today)
            &&& p.0 == today.year && p.1 > today.month ==> !is_stale(f, today)
            &&& p.0 == today.year && p.1 == today.month ==> (is_stale(f, today) <==> p.2
                < today.day)
        }),
{
}

/// The funds that are up to date are counted one by one.
pub proof fn law_fresh_funds_are_counted(funds: Seq<FundNavStatus>, today: Date, n: int)
    requires
        0 <= n <= funds.len(),
    ensures
        fresh_below(funds, today, n) == funds.take(n).filter(
            |f: FundNavStatus| !is_stale(f, today),
        ).len(),
    decreases n,
{
    let keep = |f: FundNavStatus| !is_stale(f, today);
    reveal(Seq::filter);
    if n > 0 {
        law_fresh_funds_are_counted(funds, today, n - 1);
        assert(funds.take(n).drop_last() =~= funds.take(n - 1));
        assert(funds.take(n).last() == funds[n - 1]);
    } else {
        assert(funds.take(n).filter(keep).len() == 0);
    }
}

/// Eight reports are asked for unless said otherwise; a number from one to twelve stands, a smaller one
/// means one and a larger one twelve.
pub proof fn law_reports_asked_for(n: usize)
    ensures
        quarters_of(None) == 8,
        1 <= n <= 12 ==> quarters_of(Some(n)) == n,
        n < 1 ==> quarters_of(Some(n)) == 1,
        n > 12 ==> quarters_of(Some(n)) == 12,
{
}

/// The funds that failed are those whose fetch did not succeed, all of them and in their order.
pub proof fn law_failed_funds(codes: Seq<Seq<char>>, ok: Seq<bool>, code: Seq<char>, done: bool)
    requires
        ok.len() == codes.len(),
    ensures
        failed_of(Seq::empty(), Seq::empty()).len() == 0,
        done ==> failed_of(codes.push(code), ok.push(done)) == failed_of(codes, ok),
        !done ==> failed_of(codes.push(code), ok.push(done)) == failed_of(codes, ok).push(code),
{
    assert(codes.push(code).drop_last() =~= codes);
    assert(ok.push(done)[codes.len() as int] == done);
    lemma_failed_prefix(codes, ok, ok.push(done));
}

proof fn lemma_failed_prefix(codes: Seq<Seq<char>>, a: Seq<bool>, b: Seq<bool>)
    requires
        a.len() >= codes.len(),
        b.len() >= codes.len(),
        forall|i: int| 0 <= i < codes.len() ==> #[trigger] a[i] == b[i],
    ensures
        failed_of(codes, a) == failed_of(codes, b),
    decreases codes.len(),
{
    if codes.len() > 0 {
        assert(a[codes.len() - 1] == b[codes.len() - 1]);
        lemma_failed_prefix(codes.drop_last(), a, b);
    }
}

// ---------------------------------------------------------------------------
// The store
// ---------------------------------------------------------------------------

/// The directory of the store is the one that is set, else that of the application, else one below the
/// home directory, else the current one.
pub proof fn law_directory_of_the_store(
    set: Option<Seq<char>>,
    app: Option<Seq<char>>,
    home: Option<Seq<char>>,
)
    ensures
        set is Some ==> db_dir(set, app, home) == seq![set->Some_0],
        set is None && app is Some ==> db_dir(set, app, home) == seq![app->Some_0],
        set is None && app is None && home is Some ==> db_dir(set, app, home) == seq![
            home->Some_0,
            "Library"@,
            "Application Support"@,
            "FundLens"@,
        ],
        set is None && app is None && home is None ==> db_dir(set, app, home) == seq!["."@],
{
}

/// A transaction without a platform goes to the first position with a named platform, else to an unnamed
/// one where there is any position; one with a platform goes there.
pub proof fn law_platform_of_a_transaction(given: Option<Seq<char>>, held: Seq<Seq<char>>, j: int)
    requires
        0 <= j <= held.len(),
        forall|i: int| 0 <= i < j ==> (#[trigger] held[i]).len() == 0,
        j < held.len() ==> held[j].len() > 0,
    ensures
        given is Some && given->Some_0.len() > 0 ==> target_platform(given, held) == given->Some_0,
        (given is None || given->Some_0.len() == 0) && j < held.len() ==> target_platform(given, held)
            == held[j],
        (given is None || given->Some_0.len() == 0) && j == held.len() ==> target_platform(
            given,
            held,
        ).len() == 0,
        j < held.len() ==> platform_of(held) == Some(held[j]),
        held.len() == 0 ==> platform_of(held) is None,
        held.len() > 0 && j == held.len() ==> platform_of(held) == Some(Seq::<char>::empty()),
{
    lemma_first_named(held, 0, j);
}

proof fn lemma_first_named(v: Seq<Seq<char>>, from: int, j: int)
    requires
        0 <= from <= j <= v.len(),
        forall|i: int| 0 <= i < j ==> (#[trigger] v[i]).len() == 0,
        j < v.len() ==> v[j].len() > 0,
    ensures
        first_named(v, from) == (if j < v.len() {
            Some(v[j])
        } else {
            None
        }),
    decreases j - from,
{
    if from < j {
        assert(v[from].len() == 0);
        lemma_first_named(v, from + 1, j);
    }
}

/// A new value moves the one so far to the day before exactly where both dates are known and the new one
/// is later; a value without a date keeps the date so far.
pub proof fn law_values_move_on(old_date: Option<Seq<char>>, nav_date: Seq<char>)
    ensures
        moves_on(old_date, nav_date) <==> old_date is Some && old_date->Some_0.len() > 0
            && nav_date.len() > 0 && lex_lt(old_date->Some_0, nav_date),
        nav_date.len() > 0 ==> stored_date(old_date, nav_date) == nav_date,
        nav_date.len() == 0 && old_date is Some ==> stored_date(old_date, nav_date)
            == old_date->Some_0,
        nav_date.len() == 0 && old_date is None ==> stored_date(old_date, nav_date).len() == 0,
{
}

/// The name of a fund is the last one under its code; a code that does not occur has none.
pub proof fn law_name_of_a_fund(funds: Seq<(Seq<char>, Seq<char>)>, code: Seq<char>, j: int, n: int)
    requires
        -1 <= j < n <= funds.len(),
        forall|i: int| j < i < n ==> (#[trigger] funds[i]).0 != code,
        j >= 0 ==> funds[j].0 == code,
    ensures
        j >= 0 ==> name_in(funds, code, n) == Some(funds[j].1),
        j == -1 ==> name_in(funds, code, n) is None,
    decreases n,
{
    if n > 0 && j < n - 1 {
        assert(funds[n - 1].0 != code);
        law_name_of_a_fund(funds, code, j, n - 1);
    }
}

// ---------------------------------------------------------------------------
// Symbols
// ---------------------------------------------------------------------------

/// The symbol of a code of digits alone: six digits that begin with 4 or 8 are of the new board, five
/// digits of Hong Kong; of the others those that begin with 6 are of Shanghai, the rest of Shenzhen.
pub proof fn law_symbol_of_digits(code: Seq<char>, upper: Seq<char>)
    requires
        code.len() > 0,
        forall|i: int| 0 <= i < code.len() ==> '0' <= (#[trigger] code[i]) && code[i] <= '9',
    ensures
        code.len() == 6 && (code[0] == '4' || code[0] == '8') ==> symbol_of(code, false, upper)
            == "nq"@ + code,
        code.len() == 5 ==> symbol_of(code, false, upper) == "hk"@ + code,
        code.len() == 6 && code[0] == '6' ==> symbol_of(code, false, upper) == "sh"@ + code,
        code.len() == 6 && code[0] != '6' && code[0] != '4' && code[0] != '8' ==> symbol_of(
            code,
            false,
            upper,
        ) == "sz"@ + code,
        code.len() != 5 && code.len() != 6 && code[0] == '6' ==> symbol_of(code, false, upper)
            == "sh"@ + code,
        code.len() != 5 && code.len() != 6 && code[0] != '6' ==> symbol_of(code, false, upper)
            == "sz"@ + code,
{
    assert(is_ascii_chars(code)) by {
        assert forall|i: int| 0 <= i < code.len() implies '\0' <= #[trigger] code[i] <= '\u{7f}' by {
            assert('0' <= code[i] && code[i] <= '9');
        }
    }
    is_ascii_chars_encode_utf8(code);
}

/// A code with a letter in it is an American one: its symbol is the code in capitals behind `us`. An
/// empty code has no symbol.
pub proof fn law_symbol_of_letters(code: Seq<char>, upper: Seq<char>)
    ensures
        code.len() > 0 ==> symbol_of(code, true, upper) == "us"@ + upper,
        code.len() == 0 ==> symbol_of(code, true, upper).len() == 0 && symbol_of(
            code,
            false,
            upper,
        ).len() == 0,
        stock_symbol(code) == symbol_of(
            trimmed(code),
            any_alphabetic(trimmed(code)),
            crate::symbols::uppercase_of(trimmed(code)),
        ),
{
}

/// The three platforms bear their names; every other one bears its code.
pub proof fn law_platform_names(code: Seq<char>)
    ensures
        code == "alipay"@ ==> platform_label(code) == "支付宝"@,
        code == "jd_finance"@ ==> platform_label(code) == "京东金融"@,
        code == "tencent_licai"@ ==> platform_label(code) == "腾讯理财通"@,
        code != "alipay"@ && code != "jd_finance"@ && code != "tencent_licai"@ ==> platform_label(
            code,
        ) == code,
{
    reveal_strlit("alipay");
    reveal_strlit("jd_finance");
    reveal_strlit("tencent_licai");
    assert("alipay"@.len() == 6 && "jd_finance"@.len() == 10 && "tencent_licai"@.len() == 13);
}

/// A text joins a list exactly where it is not in it yet, and then at its end.
pub proof fn law_list_grows_by_new_texts(v: Seq<Seq<char>>, s: Seq<char>)
    ensures
        (exists|i: int| 0 <= i < v.len() && #[trigger] v[i] == s) ==> with_new(v, s) == v,
        (forall|i: int| 0 <= i < v.len() ==> #[trigger] v[i] != s) ==> with_new(v, s) == v.push(s),
{
}

/// The Hong Kong indices among symbols are those that begin with `hk`, all of them and in their order.
pub proof fn law_hong_kong_symbols(syms: Seq<Seq<char>>, s: Seq<char>)
    ensures
        s.len() >= 2 && s[0] == 'h' && s[1] == 'k' ==> hk_only(syms.push(s)) == hk_only(syms).push(s),
        !(s.len() >= 2 && s[0] == 'h' && s[1] == 'k') ==> hk_only(syms.push(s)) == hk_only(syms),
{
    reveal_strlit("hk");
    reveal(Seq::filter);
    let p = "hk"@;
    assert(p.len() == 2 && p[0] == 'h' && p[1] == 'k');
    assert(syms.push(s).drop_last() =~= syms);
    if s.len() >= 2 {
        assert(s.subrange(0, 2)[0] == s[0] && s.subrange(0, 2)[1] == s[1]);
        if s[0] == 'h' && s[1] == 'k' {
            assert(s.subrange(0, 2) =~= p);
        }
    }
}

/// A name that reads as that of a backup begins with the prefix and a stamp of digits and ends with the
/// ending; its stamp is that one, and its tag is in what stands between.
pub proof fn law_name_of_a_backup(name: Seq<char>)
    ensures
        name_parts(name) is Some <==> {
            &&& name.len() >= 27
            &&& name.subrange(0, 9) == "fundlens-"@
            &&& name.subrange(name.len() - 3, name.len() as int) == ".db"@
            &&& name[17] == '-'
            &&& forall|i: int| 9 <= i < 24 && i != 17 ==> '0' <= (#[trigger] name[i]) && name[i] <= '9'
        },
        name_parts(name) matches Some(p) ==> p.0 == name.subrange(9, 24) && p.1 == tag_in(
            name.subrange(24, name.len() - 3),
        ),
{
    reveal_strlit("fundlens-");
    reveal_strlit(".db");
    assert("fundlens-"@.len() == 9 && ".db"@.len() == 3);
    if name.len() >= 12 {
        let rest = name.skip(9);
        let m = name.subrange(9, name.len() - 3);
        assert(rest.subrange(rest.len() - 3, rest.len() as int) =~= name.subrange(
            name.len() - 3,
            name.len() as int,
        ));
        law_leading_stamp(m);
        if m.len() >= 15 {
            assert(m.take(15) =~= name.subrange(9, 24));
            assert(m.skip(15) =~= name.subrange(24, name.len() - 3));
            assert forall|i: int| 0 <= i < 15 implies #[trigger] m[i] == name[i + 9] by {
            }
            assert(m[8] == name[17]);
            if forall|i: int| 9 <= i < 24 && i != 17 ==> '0' <= (#[trigger] name[i]) && name[i] <= '9' {
                assert forall|i: int| 0 <= i < 15 && i != 8 implies '0' <= (#[trigger] m[i]) && m[i]
                    <= '9' by {
                    assert(m[i] == name[i + 9]);
                }
            }
            if stamp_first(m) {
                assert forall|i: int| 9 <= i < 24 && i != 17 implies '0' <= (#[trigger] name[i])
                    && name[i] <= '9' by {
                    assert(m[i - 9] == name[i]);
                }
            }
        }
    }
}

/// Backups are listed with the latest name first, each once.
pub proof fn law_latest_backup_first(found: Seq<BackupView>, out: Seq<BackupView>, i: int, j: int)
    requires
        stably_sorted(found, out, newest_first()),
        0 <= i < j < out.len(),
    ensures
        out.len() == found.len(),
        found.contains(out[i]),
        !lex_lt(out[i].file, out[j].file),
{
    let p = choose|p: Seq<usize>| #[trigger] arranges(found, out, p, newest_first());
    assert(out[i] == found[p[i] as int] && out[j] == found[p[j] as int]);
    assert(p[i] < found.len());
    let a = out[i].file;
    let b = out[j].file;
    if lex_lt(a, b) && lex_lt(b, a) {
        lemma_lex_transitive(a, b, a);
        lemma_lex_irreflexive(a);
    }
}

/// A text has a letter exactly where one of its characters is one.
pub proof fn law_texts_with_letters(s: Seq<char>, c: char)
    ensures
        !any_alphabetic(Seq::empty()),
        any_alphabetic(s.push(c)) <==> any_alphabetic(s) || crate::symbols::alphabetic_char(c),
{
    let t = s.push(c);
    assert(t[s.len() as int] == c);
    if any_alphabetic(s) {
        let i = choose|i: int| 0 <= i < s.len() && crate::symbols::alphabetic_char(#[trigger] s[i]);
        assert(t[i] == s[i]);
    }
    if any_alphabetic(t) {
        let i = choose|i: int| 0 <= i < t.len() && crate::symbols::alphabetic_char(#[trigger] t[i]);
        if i < s.len() {
            assert(s[i] == t[i]);
        }
    }
}

/// The symbol of the index that a fund is measured against goes by its type and its name in lower case.
pub proof fn law_symbol_of_the_index(f: FundKind)
    ensures
        benchmark_symbol(f) == crate::funds::benchmark(
            f.fund_type@,
            crate::funds::lowercase_of(f.name@),
        ).0,
{
}

/// A run asks for its next fund exactly where there is one and it is out of date, and passes over it
/// otherwise.
pub proof fn law_asking(run: NavRefresh)
    ensures
        run.asking() <==> run.next < run.funds@.len() && is_stale(run.funds@[run.next as int], run.today),
        run.wf() ==> run.next <= run.funds@.len() && run.skipped + run.fetched + run.failed_codes@.len()
            == run.next && run.got_today <= run.fetched && run.streak < 5,
{
}

} // verus!
