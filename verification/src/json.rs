//! JSON documents as plain values: reading members, building objects, compact rendering.
use vstd::prelude::*;
use vstd::string::*;
use crate::text::{
    decimal, decimal_text, decimal_texts_hold_digits, one_line, quoted, quoted_text,
    quoted_texts_are_one_line, same_text,
};

verus! {

/// A JSON number. A number that is no 64-bit integer is kept as its decimal text.
#[derive(Debug, PartialEq, Eq)]
pub enum JsonNumber {
    Unsigned(u64),
    Negative(i64),
    Float(String),
}

/// A JSON document.
#[derive(Debug, PartialEq, Eq)]
pub enum Json {
    Null,
    Bool(bool),
    Number(JsonNumber),
    Text(String),
    Array(Vec<Json>),
    Object(Vec<JsonMember>),
}

/// One member of a JSON object.
#[derive(Debug, PartialEq, Eq)]
pub struct JsonMember {
    pub key: String,
    pub value: Json,
}

/// The mathematical content of a [`JsonNumber`].
pub enum NumberView {
    Unsigned(u64),
    Negative(i64),
    Float(Seq<char>),
}

/// The mathematical content of a [`Json`] document.
#[verifier::ext_equal]
pub enum JsonView {
    Null,
    Bool(bool),
    Number(NumberView),
    Text(Seq<char>),
    Array(Seq<JsonView>),
    Object(Seq<(Seq<char>, JsonView)>),
}

impl View for JsonNumber {
    type V = NumberView;

    open spec fn view(&self) -> NumberView {
        match self {
            JsonNumber::Unsigned(n) => NumberView::Unsigned(*n),
            JsonNumber::Negative(n) => NumberView::Negative(*n),
            JsonNumber::Float(s) => NumberView::Float(s@),
        }
    }
}

impl Json {
    /// The content of the document.
    pub open spec fn model(self) -> JsonView
        decreases self,
    {
        match self {
            Json::Null => JsonView::Null,
            Json::Bool(b) => JsonView::Bool(b),
            Json::Number(n) => JsonView::Number(n@),
            Json::Text(s) => JsonView::Text(s@),
            Json::Array(items) => JsonView::Array(
                Seq::new(
                    items@.len(),
                    |i: int|
                        if 0 <= i < items@.len() {
                            items@[i].model()
                        } else {
                            JsonView::Null
                        },
                ),
            ),
            Json::Object(members) => JsonView::Object(
                Seq::new(
                    members@.len(),
                    |i: int|
                        if 0 <= i < members@.len() {
                            (members@[i].key@, members@[i].value.model())
                        } else {
                            (Seq::empty(), JsonView::Null)
                        },
                ),
            ),
        }
    }
}

impl View for Json {
    type V = JsonView;

    open spec fn view(&self) -> JsonView {
        self.model()
    }
}

impl View for JsonMember {
    type V = (Seq<char>, JsonView);

    open spec fn view(&self) -> (Seq<char>, JsonView) {
        (self.key@, self.value@)
    }
}

/// The content of an optional document.
pub open spec fn optional(value: Option<Json>) -> Option<JsonView> {
    match value {
        Some(v) => Some(v@),
        None => None,
    }
}

/// A JSON number from an unsigned integer.
pub open spec fn unsigned(n: nat) -> JsonView {
    JsonView::Number(NumberView::Unsigned(n as u64))
}

/// The value of the first member of an object named `key`.
pub open spec fn lookup(v: JsonView, key: Seq<char>) -> Option<JsonView> {
    match v {
        JsonView::Object(members) => first_named(members, key),
        _ => None,
    }
}

pub open spec fn first_named(members: Seq<(Seq<char>, JsonView)>, key: Seq<char>) -> Option<JsonView>
    decreases members.len(),
{
    if members.len() == 0 {
        None
    } else if members[0].0 == key {
        Some(members[0].1)
    } else {
        first_named(members.drop_first(), key)
    }
}

/// The member named `key`, or null where there is none.
pub open spec fn at(v: JsonView, key: Seq<char>) -> JsonView {
    match lookup(v, key) {
        Some(found) => found,
        None => JsonView::Null,
    }
}

/// The characters of a string document.
pub open spec fn text_in(v: JsonView) -> Option<Seq<char>> {
    match v {
        JsonView::Text(s) => Some(s),
        _ => None,
    }
}

/// The number held by an unsigned integer document.
pub open spec fn unsigned_in(v: JsonView) -> Option<u64> {
    match v {
        JsonView::Number(NumberView::Unsigned(n)) => Some(n),
        _ => None,
    }
}

impl Clone for JsonNumber {
    fn clone(&self) -> (copy: Self)
        ensures
            copy@ == self@,
    {
        match self {
            JsonNumber::Unsigned(n) => JsonNumber::Unsigned(*n),
            JsonNumber::Negative(n) => JsonNumber::Negative(*n),
            JsonNumber::Float(s) => JsonNumber::Float(s.clone()),
        }
    }
}

impl Clone for Json {
    fn clone(&self) -> (copy: Self)
        ensures
            copy@ == self@,
        decreases self,
    {
        match self {
            Json::Null => Json::Null,
            Json::Bool(b) => Json::Bool(*b),
            Json::Number(n) => Json::Number(n.clone()),
            Json::Text(s) => Json::Text(s.clone()),
            Json::Array(items) => {
                let mut out: Vec<Json> = Vec::new();
                let mut i: usize = 0;
                while i < items.len()
                    invariant
                        i <= items.len(),
                        *self == Json::Array(*items),
                        out@.len() == i,
                        forall|j: int| 0 <= j < i ==> (#[trigger] out@[j])@ == items@[j]@,
                    decreases items.len() - i,
                {
                    assert(decreases_to!(*self => self->Array_0));
                    assert(decreases_to!(*items => items[i as int]));
                    out.push(items[i].clone());
                    i = i + 1;
                }
                let copy = Json::Array(out);
                assert(copy@->Array_0 =~= self@->Array_0);
                copy
            },
            Json::Object(members) => {
                let mut out: Vec<JsonMember> = Vec::new();
                let mut i: usize = 0;
                while i < members.len()
                    invariant
                        i <= members.len(),
                        *self == Json::Object(*members),
                        out@.len() == i,
                        forall|j: int| 0 <= j < i ==> (#[trigger] out@[j])@ == members@[j]@,
                    decreases members.len() - i,
                {
                    let member = &members[i];
                    assert(decreases_to!(*self => self->Object_0));
                    assert(decreases_to!(*members => members[i as int]));
                    assert(decreases_to!(members[i as int] => members[i as int].value));
                    let value = member.value.clone();
                    out.push(JsonMember { key: member.key.clone(), value });
                    i = i + 1;
                }
                let copy = Json::Object(out);
                assert forall|j: int| 0 <= j < members@.len() implies copy@->Object_0[j]
                    == self@->Object_0[j] by {
                    assert(out@[j]@ == members@[j]@);
                }
                assert(copy@->Object_0 =~= self@->Object_0);
                copy
            },
        }
    }
}

/// The text of a number.
pub open spec fn number_text(n: NumberView) -> Seq<char> {
    match n {
        NumberView::Unsigned(n) => decimal_text(n as nat),
        NumberView::Negative(n) => if n < 0 {
            "-"@ + decimal_text((-n) as nat)
        } else {
            decimal_text(n as nat)
        },
        NumberView::Float(s) => s,
    }
}

/// The two ways in which a document is written out: as compact JSON, and as the developer
/// notation that names the kind of every value.
#[derive(Clone, Copy)]
pub enum Notation {
    Compact,
    Developer,
}

/// `s` between `before` and `after`.
pub open spec fn wrapped(before: Seq<char>, s: Seq<char>, after: Seq<char>) -> Seq<char> {
    before + s + after
}

pub open spec fn flag_text(b: bool) -> Seq<char> {
    if b {
        "true"@
    } else {
        "false"@
    }
}

pub open spec fn separator(notation: Notation) -> Seq<char> {
    match notation {
        Notation::Compact => ","@,
        Notation::Developer => ", "@,
    }
}

/// A member's name and the mark that stands between it and the value.
pub open spec fn key_text(key: Seq<char>, notation: Notation) -> Seq<char> {
    match notation {
        Notation::Compact => quoted_text(key) + ":"@,
        Notation::Developer => debug_text(key) + ": "@,
    }
}

/// A document written out.
pub open spec fn rendered(v: JsonView, notation: Notation) -> Seq<char>
    decreases v,
{
    match (v, notation) {
        (JsonView::Null, Notation::Compact) => "null"@,
        (JsonView::Null, Notation::Developer) => "Null"@,
        (JsonView::Bool(b), Notation::Compact) => flag_text(b),
        (JsonView::Bool(b), Notation::Developer) => wrapped("Bool("@, flag_text(b), ")"@),
        (JsonView::Number(n), Notation::Compact) => number_text(n),
        (JsonView::Number(n), Notation::Developer) => wrapped("Number("@, number_text(n), ")"@),
        (JsonView::Text(s), Notation::Compact) => quoted_text(s),
        (JsonView::Text(s), Notation::Developer) => wrapped("String("@, debug_text(s), ")"@),
        (JsonView::Array(items), Notation::Compact) => wrapped(
            "["@,
            rendered_items(items, notation),
            "]"@,
        ),
        (JsonView::Array(items), Notation::Developer) => wrapped(
            "Array ["@,
            rendered_items(items, notation),
            "]"@,
        ),
        (JsonView::Object(members), Notation::Compact) => wrapped(
            "{"@,
            rendered_members(members, notation),
            "}"@,
        ),
        (JsonView::Object(members), Notation::Developer) => wrapped(
            "Object {"@,
            rendered_members(members, notation),
            "}"@,
        ),
    }
}

pub open spec fn rendered_items(items: Seq<JsonView>, notation: Notation) -> Seq<char>
    decreases items,
{
    if items.len() == 0 {
        Seq::empty()
    } else if items.len() == 1 {
        rendered(items[0], notation)
    } else {
        rendered_items(items.subrange(0, items.len() - 1), notation) + separator(notation)
            + rendered(items[items.len() - 1], notation)
    }
}

pub open spec fn rendered_members(
    members: Seq<(Seq<char>, JsonView)>,
    notation: Notation,
) -> Seq<char>
    decreases members,
{
    if members.len() == 0 {
        Seq::empty()
    } else {
        let last = members[members.len() - 1];
        let this = key_text(last.0, notation) + rendered(last.1, notation);
        if members.len() == 1 {
            this
        } else {
            rendered_members(members.subrange(0, members.len() - 1), notation) + separator(notation)
                + this
        }
    }
}

/// The compact JSON text of a document.
pub open spec fn compact(v: JsonView) -> Seq<char> {
    rendered(v, Notation::Compact)
}

/// What the `Debug` rendering of a text is.
pub uninterp spec fn debug_text(s: Seq<char>) -> Seq<char>;

/// Calls the `Debug` rendering of `str`, which depends on the text alone.
#[verifier::external_body]
pub(crate) fn debug_str(s: &str) -> (text: String)
    ensures
        text@ == debug_text(s@),
{
    format!("{:?}", s)
}

fn number_to_text(n: &JsonNumber) -> (text: String)
    ensures
        text@ == number_text(n@),
{
    match n {
        JsonNumber::Unsigned(n) => decimal(*n),
        JsonNumber::Negative(n) => {
            if *n < 0 {
                let magnitude: u64 = (-(*n + 1)) as u64 + 1;
                let mut text = "-".to_owned();
                text.append(decimal(magnitude).as_str());
                text
            } else {
                decimal(*n as u64)
            }
        },
        JsonNumber::Float(s) => s.clone(),
    }
}

fn flag(b: bool) -> (text: &'static str)
    ensures
        text@ == flag_text(b),
{
    if b {
        "true"
    } else {
        "false"
    }
}

fn enclose(before: &str, inner: &str, after: &str) -> (text: String)
    ensures
        text@ == wrapped(before@, inner@, after@),
{
    let mut text = before.to_owned();
    text.append(inner);
    text.append(after);
    text
}

fn separator_str(notation: Notation) -> (text: &'static str)
    ensures
        text@ == separator(notation),
{
    match notation {
        Notation::Compact => ",",
        Notation::Developer => ", ",
    }
}

fn key_str(key: &str, notation: Notation) -> (text: String)
    ensures
        text@ == key_text(key@, notation),
{
    match notation {
        Notation::Compact => quoted(key).concat(":"),
        Notation::Developer => debug_str(key).concat(": "),
    }
}

impl Json {
    /// A string document.
    pub fn text(s: &str) -> (v: Json)
        ensures
            v@ == JsonView::Text(s@),
    {
        Json::Text(s.to_owned())
    }

    /// An unsigned integer document.
    pub fn unsigned(n: u64) -> (v: Json)
        ensures
            v@ == unsigned(n as nat),
    {
        Json::Number(JsonNumber::Unsigned(n))
    }

    /// The value of the first member named `key` of an object.
    pub fn get(&self, key: &str) -> (found: Option<&Json>)
        ensures
            match found {
                Some(v) => lookup(self@, key@) == Some(v@),
                None => lookup(self@, key@) is None,
            },
    {
        match self {
            Json::Object(members) => {
                let ghost all = self@->Object_0;
                let mut i: usize = 0;
                assert(all.skip(0) =~= all);
                while i < members.len()
                    invariant
                        i <= members.len(),
                        self@ == JsonView::Object(all),
                        *self == Json::Object(*members),
                        first_named(all, key@) == first_named(all.skip(i as int), key@),
                    decreases members.len() - i,
                {
                    assert(all[i as int] == members@[i as int]@);
                    assert(all.skip(i as int)[0] == all[i as int]);
                    if same_text(members[i].key.as_str(), key) {
                        return Some(&members[i].value);
                    }
                    assert(all.skip(i as int).drop_first() =~= all.skip(i + 1));
                    i = i + 1;
                }
                None
            },
            _ => None,
        }
    }

    /// The characters of a string document.
    pub fn as_str(&self) -> (found: Option<&str>)
        ensures
            match found {
                Some(s) => text_in(self@) == Some(s@),
                None => text_in(self@) is None,
            },
    {
        match self {
            Json::Text(s) => Some(s.as_str()),
            _ => None,
        }
    }

    /// The number of an unsigned integer document.
    pub fn as_u64(&self) -> (found: Option<u64>)
        ensures
            found == unsigned_in(self@),
    {
        match self {
            Json::Number(JsonNumber::Unsigned(n)) => Some(*n),
            _ => None,
        }
    }

    /// Whether the document is the string `s`.
    pub fn is_text(&self, s: &str) -> (yes: bool)
        ensures
            yes == (self@ == JsonView::Text(s@)),
    {
        match self {
            Json::Text(own) => same_text(own.as_str(), s),
            _ => false,
        }
    }

    fn render(&self, notation: Notation) -> (text: String)
        ensures
            text@ == rendered(self@, notation),
        decreases self,
    {
        match self {
            Json::Null => match notation {
                Notation::Compact => "null".to_owned(),
                Notation::Developer => "Null".to_owned(),
            },
            Json::Bool(b) => match notation {
                Notation::Compact => flag(*b).to_owned(),
                Notation::Developer => enclose("Bool(", flag(*b), ")"),
            },
            Json::Number(n) => {
                let number = number_to_text(n);
                match notation {
                    Notation::Compact => number,
                    Notation::Developer => enclose("Number(", number.as_str(), ")"),
                }
            },
            Json::Text(s) => match notation {
                Notation::Compact => quoted(s.as_str()),
                Notation::Developer => enclose("String(", debug_str(s.as_str()).as_str(), ")"),
            },
            Json::Array(items) => {
                let ghost all = self@->Array_0;
                let mut inner = String::new();
                let mut i: usize = 0;
                assert(all.take(0) =~= Seq::<JsonView>::empty());
                while i < items.len()
                    invariant
                        i <= items.len(),
                        *self == Json::Array(*items),
                        self@ == JsonView::Array(all),
                        inner@ == rendered_items(all.take(i as int), notation),
                    decreases items.len() - i,
                {
                    assert(decreases_to!(*self => self->Array_0));
                    assert(decreases_to!(*items => items[i as int]));
                    assert(all[i as int] == items@[i as int]@);
                    let item = items[i].render(notation);
                    proof {
                        let next = all.take(i + 1);
                        assert(next.subrange(0, next.len() - 1) =~= all.take(i as int));
                        assert(next[next.len() - 1] == all[i as int]);
                        if i == 0 {
                            assert(inner@ + item@ =~= item@);
                        }
                    }
                    if i > 0 {
                        inner.append(separator_str(notation));
                    }
                    inner.append(item.as_str());
                    i = i + 1;
                }
                assert(all.take(i as int) =~= all);
                match notation {
                    Notation::Compact => enclose("[", inner.as_str(), "]"),
                    Notation::Developer => enclose("Array [", inner.as_str(), "]"),
                }
            },
            Json::Object(members) => {
                let ghost all = self@->Object_0;
                let mut inner = String::new();
                let mut i: usize = 0;
                assert(all.take(0) =~= Seq::<(Seq<char>, JsonView)>::empty());
                while i < members.len()
                    invariant
                        i <= members.len(),
                        *self == Json::Object(*members),
                        self@ == JsonView::Object(all),
                        inner@ == rendered_members(all.take(i as int), notation),
                    decreases members.len() - i,
                {
                    assert(decreases_to!(*self => self->Object_0));
                    assert(decreases_to!(*members => members[i as int]));
                    assert(decreases_to!(members[i as int] => members[i as int].value));
                    assert(all[i as int] == members@[i as int]@);
                    let member = &members[i];
                    let value = member.value.render(notation);
                    let item = key_str(member.key.as_str(), notation).concat(value.as_str());
                    proof {
                        let next = all.take(i + 1);
                        assert(next.subrange(0, next.len() - 1) =~= all.take(i as int));
                        assert(next[next.len() - 1] == all[i as int]);
                        if i == 0 {
                            assert(inner@ + item@ =~= item@);
                        }
                    }
                    if i > 0 {
                        inner.append(separator_str(notation));
                    }
                    inner.append(item.as_str());
                    i = i + 1;
                }
                assert(all.take(i as int) =~= all);
                match notation {
                    Notation::Compact => enclose("{", inner.as_str(), "}"),
                    Notation::Developer => enclose("Object {", inner.as_str(), "}"),
                }
            },
        }
    }

    /// The compact JSON text of the document.
    pub fn to_text(&self) -> (text: String)
        ensures
            text@ == compact(self@),
    {
        self.render(Notation::Compact)
    }

    /// The developer notation of the document.
    pub fn to_debug(&self) -> (text: String)
        ensures
            text@ == rendered(self@, Notation::Developer),
    {
        self.render(Notation::Developer)
    }
}

/// The members of an empty object.
pub open spec fn no_fields() -> Seq<(Seq<char>, JsonView)> {
    Seq::empty()
}

/// A JSON object under construction.
pub struct Fields {
    members: Vec<JsonMember>,
}

impl View for Fields {
    type V = Seq<(Seq<char>, JsonView)>;

    closed spec fn view(&self) -> Seq<(Seq<char>, JsonView)> {
        Json::Object(self.members).model()->Object_0
    }
}

impl Fields {
    /// An object without members.
    pub fn new() -> (fields: Fields)
        ensures
            fields@ == no_fields(),
    {
        let fields = Fields { members: Vec::new() };
        assert(fields@ =~= Seq::<(Seq<char>, JsonView)>::empty());
        fields
    }

    /// The object with one more member at its end.
    pub fn with(self, key: &str, value: Json) -> (fields: Fields)
        ensures
            fields@ == self@.push((key@, value@)),
    {
        let mut members = self.members;
        let ghost before = members@;
        members.push(JsonMember { key: key.to_owned(), value });
        let fields = Fields { members };
        assert(fields@.len() == before.len() + 1);
        assert forall|i: int| 0 <= i < fields@.len() implies fields@[i] == self@.push(
            (key@, value@),
        )[i] by {
            assert(fields@[i] == fields.members@[i]@);
            if i < before.len() {
                assert(fields.members@[i] == before[i]);
                assert(self@[i] == before[i]@);
            }
        }
        assert(fields@ =~= self@.push((key@, value@)));
        fields
    }

    /// The finished object.
    pub fn object(self) -> (v: Json)
        ensures
            v@ == JsonView::Object(self@),
    {
        Json::Object(self.members)
    }
}

/// An array document from its items.
pub fn array(items: Vec<Json>) -> (v: Json)
    ensures
        v@ == JsonView::Array(models(items@)),
{
    let v = Json::Array(items);
    assert(v@->Array_0 =~= models(items@));
    v
}

/// The contents of several documents.
pub open spec fn models(items: Seq<Json>) -> Seq<JsonView> {
    items.map_values(|v: Json| v@)
}

/// Whether the text of every number that is no 64-bit integer has no line end in it.
pub open spec fn plain_numbers(v: JsonView) -> bool
    decreases v,
{
    match v {
        JsonView::Number(NumberView::Float(s)) => one_line(s),
        JsonView::Array(items) => forall|i: int|
            0 <= i < items.len() ==> plain_numbers(#[trigger] items[i]),
        JsonView::Object(members) => forall|i: int|
            0 <= i < members.len() ==> plain_numbers((#[trigger] members[i]).1),
        _ => true,
    }
}

proof fn lemma_joined(a: Seq<char>, b: Seq<char>)
    requires
        one_line(a),
        one_line(b),
    ensures
        one_line(a + b),
{
    assert forall|i: int| 0 <= i < (a + b).len() implies #[trigger] (a + b)[i] != '\n' by {
        if i < a.len() {
            assert((a + b)[i] == a[i]);
        } else {
            assert((a + b)[i] == b[i - a.len()]);
        }
    }
}

proof fn lemma_number_text(n: NumberView)
    requires
        n matches NumberView::Float(s) ==> one_line(s),
    ensures
        one_line(number_text(n)),
{
    reveal_strlit("-");
    match n {
        NumberView::Unsigned(n) => {
            decimal_texts_hold_digits(n as nat);
        },
        NumberView::Negative(n) => {
            if n < 0 {
                decimal_texts_hold_digits((-n) as nat);
                lemma_joined("-"@, decimal_text((-n) as nat));
            } else {
                decimal_texts_hold_digits(n as nat);
            }
        },
        NumberView::Float(s) => {},
    }
}

/// The compact text of a document is a single line: line ends in its strings are escaped.
pub proof fn compact_texts_are_one_line(v: JsonView)
    requires
        plain_numbers(v),
    ensures
        one_line(compact(v)),
    decreases v,
{
    reveal_strlit("null");
    reveal_strlit("true");
    reveal_strlit("false");
    reveal_strlit("[");
    reveal_strlit("]");
    reveal_strlit("{");
    reveal_strlit("}");
    match v {
        JsonView::Null => {},
        JsonView::Bool(b) => {},
        JsonView::Number(n) => lemma_number_text(n),
        JsonView::Text(s) => quoted_texts_are_one_line(s),
        JsonView::Array(items) => {
            lemma_items_are_one_line(items);
            lemma_joined("["@, rendered_items(items, Notation::Compact));
            lemma_joined("["@ + rendered_items(items, Notation::Compact), "]"@);
        },
        JsonView::Object(members) => {
            lemma_members_are_one_line(members);
            lemma_joined("{"@, rendered_members(members, Notation::Compact));
            lemma_joined("{"@ + rendered_members(members, Notation::Compact), "}"@);
        },
    }
}

proof fn lemma_items_are_one_line(items: Seq<JsonView>)
    requires
        forall|i: int| 0 <= i < items.len() ==> plain_numbers(#[trigger] items[i]),
    ensures
        one_line(rendered_items(items, Notation::Compact)),
    decreases items,
{
    reveal_strlit(",");
    if items.len() > 0 {
        let last = items.len() - 1;
        assert(plain_numbers(items[last]));
        compact_texts_are_one_line(items[last]);
        if items.len() > 1 {
            let head = items.subrange(0, last);
            assert forall|i: int| 0 <= i < head.len() implies plain_numbers(#[trigger] head[i]) by {
                assert(plain_numbers(items[i]));
            }
            lemma_items_are_one_line(head);
            lemma_joined(rendered_items(head, Notation::Compact), ","@);
            lemma_joined(
                rendered_items(head, Notation::Compact) + ","@,
                rendered(items[last], Notation::Compact),
            );
        }
    }
}

proof fn lemma_members_are_one_line(members: Seq<(Seq<char>, JsonView)>)
    requires
        forall|i: int| 0 <= i < members.len() ==> plain_numbers((#[trigger] members[i]).1),
    ensures
        one_line(rendered_members(members, Notation::Compact)),
    decreases members,
{
    reveal_strlit(",");
    reveal_strlit(":");
    if members.len() > 0 {
        let last = members.len() - 1;
        let member = members[last];
        assert(plain_numbers(members[last].1));
        compact_texts_are_one_line(member.1);
        quoted_texts_are_one_line(member.0);
        lemma_joined(quoted_text(member.0), ":"@);
        let this = key_text(member.0, Notation::Compact) + rendered(member.1, Notation::Compact);
        lemma_joined(
            key_text(member.0, Notation::Compact),
            rendered(member.1, Notation::Compact),
        );
        if members.len() > 1 {
            let head = members.subrange(0, last);
            assert forall|i: int| 0 <= i < head.len() implies plain_numbers(
                (#[trigger] head[i]).1,
            ) by {
                assert(plain_numbers(members[i].1));
            }
            lemma_members_are_one_line(head);
            lemma_joined(rendered_members(head, Notation::Compact), ","@);
            lemma_joined(rendered_members(head, Notation::Compact) + ","@, this);
        }
    }
}

} // verus!
