//! Reading JSON text with the help of `serde_json`.
use std::collections::VecDeque;
use vstd::prelude::*;
use crate::json::{plain_numbers, Json, JsonMember, JsonNumber, JsonView, NumberView};
use crate::text::one_line;

verus! {

/// `serde_json`'s own document type.
#[verifier::external_type_specification]
#[verifier::external_body]
pub struct ExValue(serde_json::Value);

/// What a `serde_json::Value` holds; the members of an object stand in the order of its map.
pub uninterp spec fn value_model(value: serde_json::Value) -> JsonView;

/// A `serde_json::Value` one level apart.
pub enum Shape {
    Null,
    Bool(bool),
    /// The number as an unsigned and as a signed integer, where it is one, and its text.
    Number { unsigned: Option<u64>, signed: Option<i64>, text: String },
    Text(String),
    Array(VecDeque<serde_json::Value>),
    Object(VecDeque<(String, serde_json::Value)>),
}

pub open spec fn number_model(unsigned: Option<u64>, signed: Option<i64>, text: Seq<char>) -> NumberView {
    match (unsigned, signed) {
        (Some(n), _) => NumberView::Unsigned(n),
        (None, Some(n)) => NumberView::Negative(n),
        (None, None) => NumberView::Float(text),
    }
}

pub open spec fn value_models(items: Seq<serde_json::Value>) -> Seq<JsonView> {
    items.map_values(|v: serde_json::Value| value_model(v))
}

pub open spec fn member_models(members: Seq<(String, serde_json::Value)>) -> Seq<
    (Seq<char>, JsonView),
> {
    members.map_values(|m: (String, serde_json::Value)| (m.0@, value_model(m.1)))
}

pub open spec fn shape_model(shape: Shape) -> JsonView {
    match shape {
        Shape::Null => JsonView::Null,
        Shape::Bool(b) => JsonView::Bool(b),
        Shape::Number { unsigned, signed, text } => JsonView::Number(
            number_model(unsigned, signed, text@),
        ),
        Shape::Text(s) => JsonView::Text(s@),
        Shape::Array(items) => JsonView::Array(value_models(items@)),
        Shape::Object(members) => JsonView::Object(member_models(members@)),
    }
}

/// Tells the variants of `serde_json::Value` apart. A number is asked for `as_u64`, `as_i64`
/// and its text, which is that of an integer or of a finite decimal and so has no line end, and
/// an object's map is walked in its own order.
#[verifier::external_body]
fn take_apart(value: serde_json::Value) -> (shape: Shape)
    ensures
        shape_model(shape) == value_model(value),
        shape matches Shape::Number { unsigned, signed, text } ==> one_line(text@),
{
    match value {
        serde_json::Value::Null => Shape::Null,
        serde_json::Value::Bool(b) => Shape::Bool(b),
        serde_json::Value::Number(n) => {
            Shape::Number { unsigned: n.as_u64(), signed: n.as_i64(), text: n.to_string() }
        },
        serde_json::Value::String(s) => Shape::Text(s),
        serde_json::Value::Array(items) => Shape::Array(items.into()),
        serde_json::Value::Object(members) => Shape::Object(members.into_iter().collect()),
    }
}

/// The document that a `serde_json::Value` holds.
pub fn from_value(value: serde_json::Value) -> (v: Json)
    ensures
        v@ == value_model(value),
        plain_numbers(v@),
    decreases value_model(value),
{
    let ghost model = value_model(value);
    match take_apart(value) {
        Shape::Null => Json::Null,
        Shape::Bool(b) => Json::Bool(b),
        Shape::Number { unsigned, signed, text } => Json::Number(
            match (unsigned, signed) {
                (Some(n), _) => JsonNumber::Unsigned(n),
                (None, Some(n)) => JsonNumber::Negative(n),
                (None, None) => JsonNumber::Float(text),
            },
        ),
        Shape::Text(s) => Json::Text(s),
        Shape::Array(items) => {
            let ghost all = items@;
            let mut rest = items;
            let mut out: Vec<Json> = Vec::new();
            let mut i: usize = 0;
            let total: usize = rest.len();
            assert(all.skip(0) =~= all);
            while i < total
                invariant
                    i <= total,
                    total == all.len(),
                    rest@ == all.skip(i as int),
                    model == value_model(value),
                    model == JsonView::Array(value_models(all)),
                    out@.len() == i,
                    forall|j: int|
                        0 <= j < i ==> (#[trigger] out@[j])@ == value_model(all[j])
                            && plain_numbers(out@[j]@),
                decreases total - i,
            {
                if let Some(item) = rest.pop_front() {
                    proof {
                        assert(item == all[i as int]);
                        assert(decreases_to!(model => model->Array_0));
                        assert(decreases_to!(model->Array_0 => model->Array_0[i as int]));
                        assert(model->Array_0[i as int] == value_model(item));
                    }
                    out.push(from_value(item));
                }
                assert(rest@ =~= all.skip(i + 1));
                i = i + 1;
            }
            let v = Json::Array(out);
            assert(v@->Array_0 =~= value_models(all));
            assert forall|j: int| 0 <= j < all.len() implies plain_numbers(
                #[trigger] v@->Array_0[j],
            ) by {
                assert(out@[j]@ == v@->Array_0[j]);
            }
            v
        },
        Shape::Object(members) => {
            let ghost all = members@;
            let mut rest = members;
            let mut out: Vec<JsonMember> = Vec::new();
            let mut i: usize = 0;
            let total: usize = rest.len();
            assert(all.skip(0) =~= all);
            while i < total
                invariant
                    i <= total,
                    total == all.len(),
                    rest@ == all.skip(i as int),
                    model == value_model(value),
                    model == JsonView::Object(member_models(all)),
                    out@.len() == i,
                    forall|j: int|
                        0 <= j < i ==> (#[trigger] out@[j])@ == (all[j].0@, value_model(all[j].1))
                            && plain_numbers(out@[j]@.1),
                decreases total - i,
            {
                if let Some((key, item)) = rest.pop_front() {
                    proof {
                        assert((key, item) == all[i as int]);
                        assert(decreases_to!(model => model->Object_0));
                        assert(decreases_to!(model->Object_0 => model->Object_0[i as int]));
                        assert(decreases_to!(model->Object_0[i as int] => model->Object_0[i as int].1));
                        assert(model->Object_0[i as int].1 == value_model(item));
                    }
                    let value = from_value(item);
                    out.push(JsonMember { key, value });
                }
                assert(rest@ =~= all.skip(i + 1));
                i = i + 1;
            }
            let v = Json::Object(out);
            assert forall|j: int| 0 <= j < all.len() implies v@->Object_0[j] == member_models(
                all,
            )[j] by {
                assert(out@[j]@ == (all[j].0@, value_model(all[j].1)));
            }
            assert(v@->Object_0 =~= member_models(all));
            assert forall|j: int| 0 <= j < all.len() implies plain_numbers(
                (#[trigger] v@->Object_0[j]).1,
            ) by {
                assert(out@[j]@ == v@->Object_0[j]);
            }
            v
        },
    }
}

/// What `serde_json::from_str` makes of a text: a document, or the reason why it is none.
pub uninterp spec fn document_in(text: Seq<char>) -> Result<JsonView, Seq<char>>;

pub open spec fn parsed_view(r: Result<serde_json::Value, String>) -> Result<JsonView, Seq<char>> {
    match r {
        Ok(value) => Ok(value_model(value)),
        Err(why) => Err(why@),
    }
}

/// Calls `serde_json::from_str` for a `serde_json::Value`; the document, or the text of the
/// error, depends on the text alone.
#[verifier::external_body]
fn parse(text: &str) -> (r: Result<serde_json::Value, String>)
    ensures
        parsed_view(r) == document_in(text@),
{
    serde_json::from_str(text).map_err(|e: serde_json::Error| e.to_string())
}

/// The content of a document or of the reason why there is none.
pub open spec fn result_view(r: Result<Json, String>) -> Result<JsonView, Seq<char>> {
    match r {
        Ok(v) => Ok(v@),
        Err(why) => Err(why@),
    }
}

/// Reads a JSON text. No number in the document has a line end in its text.
pub fn read_json(text: &str) -> (r: Result<Json, String>)
    ensures
        result_view(r) == document_in(text@),
        r matches Ok(v) ==> plain_numbers(v@),
{
    match parse(text) {
        Ok(value) => Ok(from_value(value)),
        Err(why) => Err(why),
    }
}

} // verus!
