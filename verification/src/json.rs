//! The library's own model of a JSON-shaped value.
//!
//! Argument values and ABI documents arrive as JSON. The library holds them
//! in `JsonVal`, a tree of plain values, and states every contract over the
//! mathematical view `JsonView`, whose strings are `Seq<char>` and whose
//! collections are `Seq`.

use vstd::prelude::*;

verus! {

/// The number kinds a JSON decoder distinguishes: an integer that fits in
/// `u64`, an integer that fits only in `i64` (negative), or a number that
/// is not 64-bit-integer valued at all, kept as the text the decoder's
/// companion serializer writes for it.
#[derive(Debug)]
pub enum JsonNum {
    Uint(u64),
    Int(i64),
    Float(String),
}

/// The mathematical view of a `JsonNum`.
pub enum NumView {
    Uint(u64),
    Int(i64),
    Float(Seq<char>),
}

/// The view of a number: its text held as a character sequence.
pub open spec fn num_view(n: JsonNum) -> NumView {
    match n {
        JsonNum::Uint(u) => NumView::Uint(u),
        JsonNum::Int(i) => NumView::Int(i),
        JsonNum::Float(s) => NumView::Float(s@),
    }
}

/// A JSON value as executable data: plain Rust values all the way down.
#[derive(Debug)]
pub enum JsonVal {
    Null,
    Bool(bool),
    Num(JsonNum),
    Str(String),
    Arr(Vec<JsonVal>),
    Obj(Vec<(String, JsonVal)>),
}

/// The mathematical view of a `JsonVal`.
pub enum JsonView {
    Null,
    Bool(bool),
    Num(NumView),
    Str(Seq<char>),
    Arr(Seq<JsonView>),
    Obj(Seq<(Seq<char>, JsonView)>),
}

/// The view of a JSON value: each node mapped to its mathematical form.
pub open spec fn jview(v: JsonVal) -> JsonView
    decreases v,
{
    match v {
        JsonVal::Null => JsonView::Null,
        JsonVal::Bool(b) => JsonView::Bool(b),
        JsonVal::Num(n) => JsonView::Num(num_view(n)),
        JsonVal::Str(s) => JsonView::Str(s@),
        JsonVal::Arr(a) => JsonView::Arr(jview_seq(a@)),
        JsonVal::Obj(m) => JsonView::Obj(jview_entries(m@)),
    }
}

/// The views of a sequence of JSON values, element for element.
pub open spec fn jview_seq(s: Seq<JsonVal>) -> Seq<JsonView>
    decreases s,
{
    if s.len() == 0 {
        Seq::empty()
    } else {
        seq![jview(s[0])] + jview_seq(s.subrange(1, s.len() as int))
    }
}

/// The views of a sequence of key-value entries, element for element.
pub open spec fn jview_entries(s: Seq<(String, JsonVal)>) -> Seq<(Seq<char>, JsonView)>
    decreases s,
{
    if s.len() == 0 {
        Seq::empty()
    } else {
        seq![(s[0].0@, jview(s[0].1))] + jview_entries(s.subrange(1, s.len() as int))
    }
}

impl View for JsonVal {
    type V = JsonView;

    open spec fn view(&self) -> JsonView {
        jview(*self)
    }
}

/// `jview_seq` keeps the length and maps each element to its view.
pub proof fn lemma_jview_seq(s: Seq<JsonVal>)
    ensures
        jview_seq(s).len() == s.len(),
        forall|i: int| 0 <= i < s.len() ==> jview_seq(s)[i] == jview(s[i]),
    decreases s.len(),
{
    if s.len() > 0 {
        lemma_jview_seq(s.subrange(1, s.len() as int));
        assert forall|i: int| 0 <= i < s.len() implies jview_seq(s)[i] == jview(s[i]) by {
            if i > 0 {
                assert(s.subrange(1, s.len() as int)[i - 1] == s[i]);
            }
        }
    }
}

/// `jview_entries` keeps the length and maps each entry to its view.
pub proof fn lemma_jview_entries(s: Seq<(String, JsonVal)>)
    ensures
        jview_entries(s).len() == s.len(),
        forall|i: int| 0 <= i < s.len()
            ==> jview_entries(s)[i] == (s[i].0@, jview(s[i].1)),
    decreases s.len(),
{
    if s.len() > 0 {
        lemma_jview_entries(s.subrange(1, s.len() as int));
        assert forall|i: int| 0 <= i < s.len() implies jview_entries(s)[i] == (
            s[i].0@,
            jview(s[i].1),
        ) by {
            if i > 0 {
                assert(s.subrange(1, s.len() as int)[i - 1] == s[i]);
            }
        }
    }
}

/// The length a JSON value counts for when matched against declared inputs:
/// an array's element count, an object's entry count, zero for null, one for
/// any scalar.
pub open spec fn json_len(v: JsonView) -> nat {
    match v {
        JsonView::Arr(a) => a.len(),
        JsonView::Obj(m) => m.len(),
        JsonView::Null => 0,
        _ => 1,
    }
}

/// The computed length of a value's view equals the element or entry count
/// of the value itself.
pub proof fn lemma_json_len(v: JsonVal)
    ensures
        json_len(jview(v)) == match v {
            JsonVal::Arr(a) => a@.len(),
            JsonVal::Obj(m) => m@.len(),
            JsonVal::Null => 0nat,
            _ => 1nat,
        },
{
    match v {
        JsonVal::Arr(a) => lemma_jview_seq(a@),
        JsonVal::Obj(m) => lemma_jview_entries(m@),
        _ => {},
    }
}

} // verus!
