//! Reading a stored snapshot for a rehearsal.
use vstd::prelude::*;
use crate::json::{json_document, parse_json, text_at, Doc};
use crate::pick::{pick, picked};
use crate::text::{begins, is_white, same, split, split_seq, to_chars, trim, trim_left, trimmed, views, white};

verus! {

/// The text is a list as it stands: its first character that is no white space opens one.
pub open spec fn opens_list(raw: Seq<char>) -> bool {
    begins(trim_left(raw), "["@)
}

/// Whether the text is a list as it stands.
pub fn is_list(raw: &str) -> (r: bool)
    ensures
        r == opens_list(raw@),
{
    proof {
        reveal_strlit("[");
    }
    let v = to_chars(raw);
    let mut i: usize = 0;
    assert(v@.skip(0) =~= v@);
    while i < v.len() && is_white(v[i])
        invariant
            i <= v@.len(),
            trim_left(v@) == trim_left(v@.skip(i as int)),
        decreases v@.len() - i,
    {
        assert(v@.skip(i as int).skip(1) =~= v@.skip(i + 1));
        i += 1;
    }
    let ghost t = v@.skip(i as int);
    if i < v.len() {
        assert(t[0] == v@[i as int]);
        assert(trim_left(t) == t);
        if v[i] == '[' {
            assert(t.subrange(0, 1) =~= "["@);
            true
        } else {
            assert(t.subrange(0, 1)[0] != "["@[0]);
            false
        }
    } else {
        false
    }
}

/// The body of a snapshot: that in the first row of a list of rows, else the text itself. `doc` is what
/// the text reads as.
pub open spec fn body_of(raw: Seq<char>, doc: Option<Doc>) -> Seq<char> {
    if opens_list(raw) && doc is Some && doc->Some_0.0.contains_key("/0/body"@) {
        doc->Some_0.0["/0/body"@]
    } else {
        raw
    }
}

/// The body of a snapshot, given what stands in the first row of the text where it is a list.
pub fn choose_body(raw: &str, first_row: Option<String>) -> (r: String)
    ensures
        r@ == (match first_row {
            Some(b) => if opens_list(raw@) {
                b@
            } else {
                raw@
            },
            None => raw@,
        }),
{
    match first_row {
        Some(b) => {
            if is_list(raw) {
                b
            } else {
                raw.to_owned()
            }
        },
        None => raw.to_owned(),
    }
}

/// The body of a snapshot, which may be wrapped in a list of rows.
pub fn extract_body(raw: &str) -> (r: String)
    ensures
        r@ == body_of(raw@, json_document(raw@)),
{
    match parse_json(raw) {
        Some(v) => choose_body(raw, text_at(&v, "/0/body")),
        None => choose_body(raw, None),
    }
}

/// The lines of a snapshot's body.
pub open spec fn body_lines(body: Seq<char>) -> Seq<Seq<char>> {
    split_seq(body, "\n"@)
}

/// Lines without white space round them, those that are empty left out.
pub open spec fn filled_lines(lines: Seq<Seq<char>>) -> Seq<Seq<char>>
    decreases lines.len(),
{
    if lines.len() == 0 {
        Seq::empty()
    } else {
        let rest = filled_lines(lines.drop_last());
        let l = trimmed(lines.last());
        if l.len() == 0 {
            rest
        } else {
            rest.push(l)
        }
    }
}

/// The lines of a snapshot's body that hold its changes: all that are filled but the first, which is the
/// header.
pub fn change_lines(body: &str) -> (r: Vec<String>)
    ensures
        views(r@) == filled_lines(body_lines(body@).skip(1)),
{
    proof {
        reveal_strlit("\n");
    }
    let lines = split(body, "\n");
    let ghost all = body_lines(body@).skip(1);
    let mut r: Vec<String> = Vec::new();
    if lines.len() == 0 {
        assert(all =~= Seq::empty());
        assert(views(r@) =~= Seq::<Seq<char>>::empty());
        return r;
    }
    let mut i: usize = 1;
    assert(all.take(0) =~= Seq::<Seq<char>>::empty());
    assert(views(r@) =~= filled_lines(all.take(0)));
    while i < lines.len()
        invariant
            views(lines@) == body_lines(body@),
            all == body_lines(body@).skip(1),
            1 <= i <= lines@.len(),
            views(r@) == filled_lines(all.take(i - 1)),
        decreases lines@.len() - i,
    {
        proof {
            assert(all.take(i as int).drop_last() =~= all.take(i - 1));
            assert(all.take(i as int).last() == views(lines@)[i as int]);
        }
        let l = trim(lines[i].as_str());
        if !l.as_str().is_empty() {
            let ghost before = r@;
            r.push(l);
            assert(views(r@) =~= views(before).push(l@));
        }
        i += 1;
    }
    assert(all.take(all.len() as int) =~= all);
    r
}

/// Which changes belong to a table; all do where none is named.
pub open spec fn table_marks(tables: Seq<String>, only: Option<String>) -> Seq<bool> {
    tables.map_values(|t: String| only is None || t@ == only->Some_0@)
}

/// The changes that belong to a table, given the tables of all.
pub fn of_table(tables: &Vec<String>, only: &Option<String>) -> (r: Vec<usize>)
    ensures
        r@ == picked(table_marks(tables@, *only)),
{
    let mut marks: Vec<bool> = Vec::new();
    let mut i: usize = 0;
    while i < tables.len()
        invariant
            i <= tables@.len(),
            marks@.len() == i,
            forall|k: int| 0 <= k < i ==> #[trigger] marks@[k] == table_marks(tables@, *only)[k],
        decreases tables@.len() - i,
    {
        let take = match only {
            Some(t) => same(tables[i].as_str(), t.as_str()),
            None => true,
        };
        marks.push(take);
        i += 1;
    }
    assert(marks@ =~= table_marks(tables@, *only));
    pick(&marks)
}

} // verus!
