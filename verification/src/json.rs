//! JSON documents as plain values.
use vstd::prelude::*;

use crate::text::copy_opt;

verus! {

/// A floating-point number of double precision, held as its IEEE 754 bits.
#[derive(Debug, Clone, Copy, PartialEq, Eq, Structural)]
pub struct Double {
    pub bits: u64,
}

/// The bits of the number one.
pub const ONE_BITS: u64 = 0x3ff0_0000_0000_0000;

/// The bits of positive infinity; above them, up to the sign bit, stand the
/// values that are no numbers.
pub const INFINITY_BITS: u64 = 0x7ff0_0000_0000_0000;

impl Double {
    /// Whether the number is one or more. Numbers without the sign bit are
    /// ordered as their bits are.
    pub open spec fn spec_at_least_one(self) -> bool {
        ONE_BITS <= self.bits <= INFINITY_BITS
    }

    /// Whether the number is one or more; a value that is no number is not.
    pub fn at_least_one(&self) -> (r: bool)
        ensures
            r == self.spec_at_least_one(),
    {
        ONE_BITS <= self.bits && self.bits <= INFINITY_BITS
    }
}

/// A JSON value. An object keeps its members in the order in which they were
/// written.
#[derive(Debug)]
pub enum Json {
    Null,
    Bool(bool),
    Int(i64),
    UInt(u64),
    Double(Double),
    Str(String),
    Array(Vec<Json>),
    Object(Vec<(String, Json)>),
}

/// What a [`Json`] value stands for.
pub enum JsonView {
    Null,
    Bool(bool),
    Int(int),
    Double(Double),
    Str(Seq<char>),
    Array(Seq<JsonView>),
    Object(Seq<(Seq<char>, JsonView)>),
}

impl View for Json {
    type V = JsonView;

    open spec fn view(&self) -> JsonView {
        json_view(*self)
    }
}

/// What a value stands for.
pub open spec fn json_view(j: Json) -> JsonView
    decreases j,
{
    match j {
        Json::Null => JsonView::Null,
        Json::Bool(b) => JsonView::Bool(b),
        Json::Int(n) => JsonView::Int(n as int),
        Json::UInt(n) => JsonView::Int(n as int),
        Json::Double(d) => JsonView::Double(d),
        Json::Str(s) => JsonView::Str(s@),
        Json::Array(items) => JsonView::Array(
            Seq::new(
                items@.len(),
                |i: int|
                    if 0 <= i < items@.len() {
                        json_view(items@[i])
                    } else {
                        JsonView::Null
                    },
            ),
        ),
        Json::Object(members) => JsonView::Object(
            Seq::new(
                members@.len(),
                |i: int|
                    if 0 <= i < members@.len() {
                        (members@[i].0@, json_view(members@[i].1))
                    } else {
                        (Seq::empty(), JsonView::Null)
                    },
            ),
        ),
    }
}

/// What a list of values stands for.
pub open spec fn item_views(items: Seq<Json>) -> Seq<JsonView> {
    items.map_values(|j: Json| j@)
}

/// What the members of an object stand for.
pub open spec fn member_views(members: Seq<(String, Json)>) -> Seq<(Seq<char>, JsonView)> {
    members.map_values(|m: (String, Json)| (m.0@, m.1@))
}

/// A list value.
pub fn json_array(items: Vec<Json>) -> (r: Json)
    ensures
        r@ == JsonView::Array(item_views(items@)),
{
    let r = Json::Array(items);
    proof {
        assert(r@->Array_0 == item_views(items@));
    }
    r
}

/// An object value.
pub fn json_object(members: Vec<(String, Json)>) -> (r: Json)
    ensures
        r@ == JsonView::Object(member_views(members@)),
{
    let r = Json::Object(members);
    proof {
        assert(r@->Object_0 == member_views(members@));
    }
    r
}

/// Appends a member to an object under construction.
pub fn push_member(members: &mut Vec<(String, Json)>, name: &str, value: Json)
    ensures
        member_views(final(members)@) == member_views(old(members)@).push((name@, value@)),
{
    members.push((name.to_owned(), value));
    proof {
        assert(member_views(members@) == member_views(old(members)@).push((name@, value@)));
    }
}

/// Appends a value to a list under construction.
pub fn push_item(items: &mut Vec<Json>, value: Json)
    ensures
        item_views(final(items)@) == item_views(old(items)@).push(value@),
{
    items.push(value);
    proof {
        assert(item_views(items@) == item_views(old(items)@).push(value@));
    }
}

/// The members of an object before the first one is written.
pub fn no_members() -> (r: Vec<(String, Json)>)
    ensures
        r@.len() == 0,
        member_views(r@) == Seq::<(Seq<char>, JsonView)>::empty(),
{
    let r: Vec<(String, Json)> = Vec::new();
    proof {
        assert(member_views(r@) == Seq::<(Seq<char>, JsonView)>::empty());
    }
    r
}

/// The values of a list before the first one is written.
pub fn no_items() -> (r: Vec<Json>)
    ensures
        r@.len() == 0,
        item_views(r@) == Seq::<JsonView>::empty(),
{
    let r: Vec<Json> = Vec::new();
    proof {
        assert(item_views(r@) == Seq::<JsonView>::empty());
    }
    r
}

/// A text value.
pub fn json_text(s: &str) -> (r: Json)
    ensures
        r@ == JsonView::Str(s@),
{
    Json::Str(s.to_owned())
}

/// A text, or null where there is none.
pub open spec fn text_or_null(s: Option<String>) -> JsonView {
    match s {
        Some(text) => JsonView::Str(text@),
        None => JsonView::Null,
    }
}

/// A text, or null where there is none.
pub fn json_opt_text(s: &Option<String>) -> (r: Json)
    ensures
        r@ == text_or_null(*s),
{
    match copy_opt(s) {
        Some(text) => Json::Str(text),
        None => Json::Null,
    }
}

/// A number, or null where there is none.
pub open spec fn i64_or_null(n: Option<i64>) -> JsonView {
    match n {
        Some(m) => JsonView::Int(m as int),
        None => JsonView::Null,
    }
}

/// A number, or null where there is none.
pub fn json_opt_i64(n: Option<i64>) -> (r: Json)
    ensures
        r@ == i64_or_null(n),
{
    match n {
        Some(m) => Json::Int(m),
        None => Json::Null,
    }
}

/// A number, or null where there is none.
pub open spec fn u32_or_null(n: Option<u32>) -> JsonView {
    match n {
        Some(m) => JsonView::Int(m as int),
        None => JsonView::Null,
    }
}

/// A number, or null where there is none.
pub fn json_opt_u32(n: Option<u32>) -> (r: Json)
    ensures
        r@ == u32_or_null(n),
{
    match n {
        Some(m) => Json::UInt(m as u64),
        None => Json::Null,
    }
}

/// A truth value, or null where there is none.
pub open spec fn bool_or_null(b: Option<bool>) -> JsonView {
    match b {
        Some(v) => JsonView::Bool(v),
        None => JsonView::Null,
    }
}

/// A truth value, or null where there is none.
pub fn json_opt_bool(b: Option<bool>) -> (r: Json)
    ensures
        r@ == bool_or_null(b),
{
    match b {
        Some(v) => Json::Bool(v),
        None => Json::Null,
    }
}

/// A floating-point number, or null where there is none.
pub open spec fn double_or_null(d: Option<Double>) -> JsonView {
    match d {
        Some(v) => JsonView::Double(v),
        None => JsonView::Null,
    }
}

/// A floating-point number, or null where there is none.
pub fn json_opt_double(d: Option<Double>) -> (r: Json)
    ensures
        r@ == double_or_null(d),
{
    match d {
        Some(v) => Json::Double(v),
        None => Json::Null,
    }
}

} // verus!
