//! The document interchange format: a JSON subset read and written by the
//! library itself, so that both directions are exact and deterministic.
//!
//! Numbers carry either a 64-bit integer magnitude or a fixed-point value
//! with a decimal point; exponent notation is not part of the subset.

use vstd::prelude::*;
use crate::fixed::Fx;

pub mod parse;
pub mod print;

verus! {

/// The mathematical shape of a JSON value.
pub ghost enum JsonV {
    Null,
    Bool(bool),
    /// A number written without a decimal point.
    Int { neg: bool, mag: u64 },
    /// A number written with a decimal point, in raw fixed-point units.
    Fixed(int),
    Text(Seq<char>),
    Arr(Seq<JsonV>),
    Obj(Seq<(Seq<char>, JsonV)>),
}

/// A JSON value.
#[derive(Debug)]
pub enum Json {
    Null,
    Bool(bool),
    /// A number written without a decimal point: sign and magnitude.
    Int { neg: bool, mag: u64 },
    /// A number written with a decimal point.
    Fixed(Fx),
    Text(String),
    Arr(Vec<Json>),
    Obj(Vec<(String, Json)>),
}

impl Json {
    /// The mathematical value of this JSON tree.
    pub open spec fn view(self) -> JsonV
        decreases self,
    {
        match self {
            Json::Null => JsonV::Null,
            Json::Bool(b) => JsonV::Bool(b),
            Json::Int { neg, mag } => JsonV::Int { neg, mag },
            Json::Fixed(f) => JsonV::Fixed(f.raw as int),
            Json::Text(s) => JsonV::Text(s@),
            Json::Arr(items) => JsonV::Arr(spec_view_seq(items@)),
            Json::Obj(entries) => JsonV::Obj(spec_view_entries(entries@)),
        }
    }
}

/// Element-wise view of a sequence of JSON trees.
pub open spec fn spec_view_seq(s: Seq<Json>) -> Seq<JsonV>
    decreases s,
{
    if s.len() == 0 {
        Seq::empty()
    } else {
        spec_view_seq(s.drop_last()).push(s.last().view())
    }
}

/// Element-wise view of the entries of a JSON object.
pub open spec fn spec_view_entries(s: Seq<(String, Json)>) -> Seq<(Seq<char>, JsonV)>
    decreases s,
{
    if s.len() == 0 {
        Seq::empty()
    } else {
        spec_view_entries(s.drop_last()).push((s.last().0@, s.last().1.view()))
    }
}

/// An exec tree and its view take the same variant.
pub proof fn lemma_json_view_variant(j: Json)
    ensures
        j is Null <==> j@ is Null,
        j is Bool <==> j@ is Bool,
        j is Int <==> j@ is Int,
        j is Fixed <==> j@ is Fixed,
        j is Text <==> j@ is Text,
        j is Arr <==> j@ is Arr,
        j is Obj <==> j@ is Obj,
{
    match j {
        Json::Null => {},
        Json::Bool(_) => {},
        Json::Int { .. } => {},
        Json::Fixed(_) => {},
        Json::Text(_) => {},
        Json::Arr(_) => {},
        Json::Obj(_) => {},
    }
}

/// The view of a sequence of trees is the sequence of their views.
pub proof fn lemma_view_seq(s: Seq<Json>)
    ensures
        spec_view_seq(s).len() == s.len(),
        forall|i: int| 0 <= i < s.len() ==> #[trigger] spec_view_seq(s)[i] == s[i].view(),
    decreases s.len(),
{
    if s.len() > 0 {
        lemma_view_seq(s.drop_last());
        assert forall|i: int| 0 <= i < s.len() implies #[trigger] spec_view_seq(s)[i]
            == s[i].view() by {
            if i < s.len() - 1 {
                assert(s.drop_last()[i] == s[i]);
            }
        }
    }
}

/// The view of a sequence of entries is the sequence of their views.
pub proof fn lemma_view_entries(s: Seq<(String, Json)>)
    ensures
        spec_view_entries(s).len() == s.len(),
        forall|i: int|
            0 <= i < s.len() ==> #[trigger] spec_view_entries(s)[i] == (s[i].0@, s[i].1.view()),
    decreases s.len(),
{
    if s.len() > 0 {
        lemma_view_entries(s.drop_last());
        assert forall|i: int| 0 <= i < s.len() implies #[trigger] spec_view_entries(s)[i]
            == (s[i].0@, s[i].1.view()) by {
            if i < s.len() - 1 {
                assert(s.drop_last()[i] == s[i]);
            }
        }
    }
}

} // verus!
