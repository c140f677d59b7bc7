//! Access to JSON documents.
//!
//! A document is modelled by what stands in it at each JSON pointer: its texts, its numbers as
//! text, and the lengths of its lists.
use vstd::prelude::*;

verus! {

/// The value type of serde_json.
#[verifier::external_type_specification]
#[verifier::external_body]
pub struct ExValue(serde_json::Value);

/// The texts in a document, by JSON pointer.
pub uninterp spec fn json_texts(v: serde_json::Value) -> Map<Seq<char>, Seq<char>>;

/// The numbers in a document, each as text, by JSON pointer.
pub uninterp spec fn json_numbers(v: serde_json::Value) -> Map<Seq<char>, Seq<char>>;

/// The lengths of the lists in a document, by JSON pointer.
pub uninterp spec fn json_lists(v: serde_json::Value) -> Map<Seq<char>, nat>;

/// What `serde_json::from_str` makes of a text: the texts, numbers and lists of the document, where
/// it is one.
pub uninterp spec fn json_document(body: Seq<char>) -> Option<
    (Map<Seq<char>, Seq<char>>, Map<Seq<char>, Seq<char>>, Map<Seq<char>, nat>),
>;

/// Model of a document: its texts, numbers and lists.
pub type Doc = (Map<Seq<char>, Seq<char>>, Map<Seq<char>, Seq<char>>, Map<Seq<char>, nat>);

/// The model of a value.
pub open spec fn doc_of(v: serde_json::Value) -> Doc {
    (json_texts(v), json_numbers(v), json_lists(v))
}

/// Reads a document. Calls `serde_json::from_str`; what it makes of a text is only named.
#[verifier::external_body]
pub(crate) fn parse_json(body: &str) -> (r: Option<serde_json::Value>)
    ensures
        match r {
            Some(v) => json_document(body@) == Some((json_texts(v), json_numbers(v), json_lists(v))),
            None => json_document(body@) is None,
        },
{
    serde_json::from_str(body).ok()
}

/// The text at a pointer. Calls `serde_json::Value::pointer` and `serde_json::Value::as_str`, which
/// give the string there and nothing where there is none.
#[verifier::external_body]
pub(crate) fn text_at(v: &serde_json::Value, pointer: &str) -> (r: Option<String>)
    ensures
        match r {
            Some(t) => json_texts(*v).contains_key(pointer@) && json_texts(*v)[pointer@] == t@,
            None => !json_texts(*v).contains_key(pointer@),
        },
{
    v.pointer(pointer).and_then(|x| x.as_str()).map(|s| s.to_string())
}

/// The number at a pointer, as text. Calls `serde_json::Value::pointer` and
/// `serde_json::Value::as_number`, which give the number there and nothing where there is none, and
/// writes it out as `serde_json::Number` displays it.
#[verifier::external_body]
pub(crate) fn number_at(v: &serde_json::Value, pointer: &str) -> (r: Option<String>)
    ensures
        match r {
            Some(t) => json_numbers(*v).contains_key(pointer@) && json_numbers(*v)[pointer@] == t@,
            None => !json_numbers(*v).contains_key(pointer@),
        },
{
    v.pointer(pointer).and_then(|x| x.as_number()).map(|n| n.to_string())
}

/// The length of the list at a pointer. Calls `serde_json::Value::pointer` and
/// `serde_json::Value::as_array`, which give the list there and nothing where there is none.
#[verifier::external_body]
pub(crate) fn list_len(v: &serde_json::Value, pointer: &str) -> (r: Option<usize>)
    ensures
        match r {
            Some(n) => json_lists(*v).contains_key(pointer@) && json_lists(*v)[pointer@] == n,
            None => !json_lists(*v).contains_key(pointer@),
        },
{
    v.pointer(pointer).and_then(|x| x.as_array()).map(|a| a.len())
}

/// The text at a pointer of a document, empty where there is none.
pub open spec fn text_or_empty(d: Doc, pointer: Seq<char>) -> Seq<char> {
    if d.0.contains_key(pointer) {
        d.0[pointer]
    } else {
        Seq::empty()
    }
}

/// The text at a pointer, empty where there is none.
pub(crate) fn text_at_or_empty(v: &serde_json::Value, pointer: &str) -> (r: String)
    ensures
        r@ == text_or_empty(doc_of(*v), pointer@),
{
    match text_at(v, pointer) {
        Some(t) => t,
        None => String::new(),
    }
}

/// The text at a pointer of a document, else the number there as text, else nothing.
pub open spec fn text_or_number(d: Doc, pointer: Seq<char>) -> Seq<char> {
    if d.0.contains_key(pointer) {
        d.0[pointer]
    } else if d.1.contains_key(pointer) {
        d.1[pointer]
    } else {
        Seq::empty()
    }
}

/// The text at a pointer, else the number there as text, else nothing.
pub(crate) fn text_or_number_at(v: &serde_json::Value, pointer: &str) -> (r: String)
    ensures
        r@ == text_or_number(doc_of(*v), pointer@),
{
    match text_at(v, pointer) {
        Some(t) => t,
        None => match number_at(v, pointer) {
            Some(t) => t,
            None => String::new(),
        },
    }
}

} // verus!
