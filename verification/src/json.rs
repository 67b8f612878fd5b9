//! JSON values.

use crate::text::{copy, same};
use vstd::prelude::*;

verus! {

/// A JSON value. The members of an object are in the order in which they are written.
#[derive(Debug, PartialEq, Eq)]
pub enum Json {
    Null,
    Bool(bool),
    Unsigned(u64),
    Negative(i64),
    /// A number that is no integer, in its notation.
    Float(String),
    Str(String),
    Array(Vec<Json>),
    Object(Vec<(String, Json)>),
}

#[verifier::ext_equal]
pub enum JsonView {
    Null,
    Bool(bool),
    Integer(int),
    Float(Seq<char>),
    Str(Seq<char>),
    Array(Seq<JsonView>),
    Object(Seq<(Seq<char>, JsonView)>),
}

pub open spec fn json_view(value: Json) -> JsonView
    decreases value,
{
    match value {
        Json::Null => JsonView::Null,
        Json::Bool(b) => JsonView::Bool(b),
        Json::Unsigned(n) => JsonView::Integer(n as int),
        Json::Negative(n) => JsonView::Integer(n as int),
        Json::Float(text) => JsonView::Float(text@),
        Json::Str(text) => JsonView::Str(text@),
        Json::Array(items) => JsonView::Array(
            Seq::new(items@.len(), |i: int| if 0 <= i < items@.len() { json_view(items@[i]) } else { JsonView::Null }),
        ),
        Json::Object(members) => JsonView::Object(
            Seq::new(
                members@.len(),
                |i: int| if 0 <= i < members@.len() { (members@[i].0@, json_view(members@[i].1)) } else { (Seq::empty(), JsonView::Null) },
            ),
        ),
    }
}

impl DeepView for Json {
    type V = JsonView;

    open spec fn deep_view(&self) -> JsonView {
        json_view(*self)
    }
}

impl Json {
    pub fn duplicate(&self) -> (r: Json)
        ensures
            r.deep_view() == self.deep_view(),
        decreases self,
    {
        match self {
            Json::Null => Json::Null,
            Json::Bool(b) => Json::Bool(*b),
            Json::Unsigned(n) => Json::Unsigned(*n),
            Json::Negative(n) => Json::Negative(*n),
            Json::Float(text) => Json::Float(text.clone()),
            Json::Str(text) => Json::Str(text.clone()),
            Json::Array(items) => {
                let mut out: Vec<Json> = Vec::new();
                let mut i: usize = 0;
                while i < items.len()
                    invariant
                        i <= items@.len(),
                        out@.len() == i,
                        decreases_to!(self => items),
                        forall|k: int| 0 <= k < i ==> (#[trigger] out@[k]).deep_view() == items@[k].deep_view(),
                    decreases items@.len() - i,
                {
                    let item = items[i].duplicate();
                    out.push(item);
                    i = i + 1;
                }
                let r = Json::Array(out);
                assert(r.deep_view()->Array_0 =~= self.deep_view()->Array_0);
                r
            },
            Json::Object(members) => {
                let mut out: Vec<(String, Json)> = Vec::new();
                let mut i: usize = 0;
                while i < members.len()
                    invariant
                        i <= members@.len(),
                        out@.len() == i,
                        decreases_to!(self => members),
                        forall|k: int| 0 <= k < i ==> (#[trigger] out@[k]).1.deep_view() == members@[k].1.deep_view() && out@[k].0@ == members@[k].0@,
                    decreases members@.len() - i,
                {
                    let item = members[i].1.duplicate();
                    out.push((members[i].0.clone(), item));
                    i = i + 1;
                }
                let r = Json::Object(out);
                assert(r.deep_view()->Object_0 =~= self.deep_view()->Object_0);
                r
            },
        }
    }
}

/// The value of the first member with a name, or null where there is none.
pub open spec fn member(members: Seq<(Seq<char>, JsonView)>, name: Seq<char>) -> JsonView
    decreases members.len(),
{
    if members.len() == 0 {
        JsonView::Null
    } else if members[0].0 == name {
        members[0].1
    } else {
        member(members.skip(1), name)
    }
}

/// The first member with a name is the one that is found.
pub proof fn lemma_member_at(members: Seq<(Seq<char>, JsonView)>, name: Seq<char>, k: int)
    requires
        0 <= k < members.len(),
        members[k].0 == name,
        forall|i: int| 0 <= i < k ==> (#[trigger] members[i]).0 != name,
    ensures
        member(members, name) == members[k].1,
    decreases k,
{
    if k > 0 {
        let rest = members.skip(1);
        assert(members[0].0 != name);
        assert forall|i: int| 0 <= i < k - 1 implies (#[trigger] rest[i]).0 != name by {
            assert(rest[i] == members[i + 1]);
        }
        lemma_member_at(rest, name, k - 1);
    }
}

/// What indexing a value by a name gives: null for what is not there.
pub open spec fn field(value: JsonView, name: Seq<char>) -> JsonView {
    match value {
        JsonView::Object(members) => member(members, name),
        _ => JsonView::Null,
    }
}

pub open spec fn text_of(value: JsonView) -> Option<Seq<char>> {
    match value {
        JsonView::Str(text) => Some(text),
        _ => None,
    }
}

/// The integer that a value is, where it fits an `i64`.
pub open spec fn signed_of(value: JsonView) -> Option<i64> {
    match value {
        JsonView::Integer(n) if i64::MIN <= n <= i64::MAX => Some(n as i64),
        _ => None,
    }
}

/// The integer that a value is, where it fits a `u64`.
pub open spec fn unsigned_of(value: JsonView) -> Option<u64> {
    match value {
        JsonView::Integer(n) if 0 <= n <= u64::MAX => Some(n as u64),
        _ => None,
    }
}

pub open spec fn items_of(value: JsonView) -> Option<Seq<JsonView>> {
    match value {
        JsonView::Array(items) => Some(items),
        _ => None,
    }
}

/// The view of a value that may be missing.
pub open spec fn optional(value: Option<&Json>) -> JsonView {
    match value {
        Some(value) => value.deep_view(),
        None => JsonView::Null,
    }
}

impl Json {
    /// The value of a member, where there is one.
    pub fn get(&self, name: &str) -> (r: Option<&Json>)
        ensures
            optional(r) == field(self.deep_view(), name@),
    {
        match self {
            Json::Object(members) => {
                let ghost all = self.deep_view()->Object_0;
                assert(all.skip(0) =~= all);
                let mut i: usize = 0;
                while i < members.len()
                    invariant
                        i <= members@.len(),
                        self == Json::Object(*members),
                        all == self.deep_view()->Object_0,
                        member(all, name@) == member(all.skip(i as int), name@),
                    decreases members@.len() - i,
                {
                    assert(all.skip(i as int).skip(1) =~= all.skip(i + 1));
                    assert(all.skip(i as int)[0] == (
                        members@[i as int].0@,
                        members@[i as int].1.deep_view(),
                    ));
                    if same(members[i].0.as_str(), name) {
                        return Some(&members[i].1);
                    }
                    i = i + 1;
                }
                None
            },
            _ => None,
        }
    }

    /// The text of a string.
    pub fn as_str(&self) -> (r: Option<&str>)
        ensures
            r.deep_view() == text_of(self.deep_view()),
    {
        match self {
            Json::Str(text) => Some(text.as_str()),
            _ => None,
        }
    }

    /// A number that fits.
    pub fn as_i64(&self) -> (r: Option<i64>)
        ensures
            r == signed_of(self.deep_view()),
    {
        match self {
            Json::Unsigned(n) => if *n <= i64::MAX as u64 {
                Some(*n as i64)
            } else {
                None
            },
            Json::Negative(n) => Some(*n),
            _ => None,
        }
    }

    /// A number that fits.
    pub fn as_u64(&self) -> (r: Option<u64>)
        ensures
            r == unsigned_of(self.deep_view()),
    {
        match self {
            Json::Unsigned(n) => Some(*n),
            Json::Negative(n) => if *n >= 0 {
                Some(*n as u64)
            } else {
                None
            },
            _ => None,
        }
    }

    /// The items of an array.
    pub fn as_array(&self) -> (r: Option<&Vec<Json>>)
        ensures
            match r {
                Some(items) => items_of(self.deep_view()) == Some(items.deep_view()),
                None => items_of(self.deep_view()) is None,
            },
    {
        match self {
            Json::Array(items) => {
                assert(self.deep_view()->Array_0 =~= items.deep_view());
                Some(items)
            },
            _ => None,
        }
    }
}

pub fn object(members: Vec<(String, Json)>) -> (r: Json)
    ensures
        r.deep_view() == JsonView::Object(members.deep_view()),
{
    let r = Json::Object(members);
    assert(r.deep_view()->Object_0 =~= members.deep_view());
    r
}

pub fn array(items: Vec<Json>) -> (r: Json)
    ensures
        r.deep_view() == JsonView::Array(items.deep_view()),
{
    let r = Json::Array(items);
    assert(r.deep_view()->Array_0 =~= items.deep_view());
    r
}

pub fn string(text: &str) -> (r: Json)
    ensures
        r.deep_view() == JsonView::Str(text@),
{
    Json::Str(copy(text))
}

pub fn signed(n: i64) -> (r: Json)
    ensures
        r.deep_view() == JsonView::Integer(n as int),
{
    if n >= 0 {
        Json::Unsigned(n as u64)
    } else {
        Json::Negative(n)
    }
}

/// A member of an object.
pub fn pair(name: &str, value: Json) -> (r: (String, Json))
    ensures
        r.deep_view() == (name@, value.deep_view()),
{
    (copy(name), value)
}

/// A copy of a value that may be missing; null stands for what is missing.
pub fn duplicate_optional(value: Option<&Json>) -> (r: Json)
    ensures
        r.deep_view() == optional(value),
{
    match value {
        Some(value) => value.duplicate(),
        None => Json::Null,
    }
}

/// A member of the `arguments` of a request.
pub open spec fn argument(request: JsonView, name: Seq<char>) -> JsonView {
    field(field(request, "arguments"@), name)
}

/// Finds a member of the `arguments` of a request.
pub fn find_argument<'a>(request: &'a Json, name: &str) -> (r: Option<&'a Json>)
    ensures
        optional(r) == argument(request.deep_view(), name@),
{
    match request.get("arguments") {
        Some(arguments) => arguments.get(name),
        None => None,
    }
}

/// The text of a value that may be missing.
pub fn optional_text<'a>(value: Option<&'a Json>) -> (r: Option<&'a str>)
    ensures
        r.deep_view() == text_of(optional(value)),
{
    match value {
        Some(value) => value.as_str(),
        None => None,
    }
}

/// The `i64` of a value that may be missing.
pub fn optional_i64(value: Option<&Json>) -> (r: Option<i64>)
    ensures
        r == signed_of(optional(value)),
{
    match value {
        Some(value) => value.as_i64(),
        None => None,
    }
}

/// The `u64` of a value that may be missing.
pub fn optional_u64(value: Option<&Json>) -> (r: Option<u64>)
    ensures
        r == unsigned_of(optional(value)),
{
    match value {
        Some(value) => value.as_u64(),
        None => None,
    }
}

/// The items of a value that may be missing.
pub fn optional_items<'a>(value: Option<&'a Json>) -> (r: Option<&'a Vec<Json>>)
    ensures
        match r {
            Some(items) => items_of(optional(value)) == Some(items.deep_view()),
            None => items_of(optional(value)) is None,
        },
{
    match value {
        Some(value) => value.as_array(),
        None => None,
    }
}

} // verus!
