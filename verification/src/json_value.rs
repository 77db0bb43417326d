//! A JSON document as the importers read it: null, booleans, numbers (kept as
//! their text), strings, arrays and objects with their fields in order.
use vstd::prelude::*;
use crate::text::str_equal;

verus! {

/// A JSON value.
#[derive(Debug)]
pub enum JsonValue {
    Null,
    Bool(bool),
    Number(String),
    Str(String),
    Array(Vec<JsonValue>),
    Object(Vec<(String, JsonValue)>),
}

/// The value of the first field with the key.
pub open spec fn field_of(fields: Seq<(String, JsonValue)>, key: Seq<char>) -> Option<JsonValue>
    decreases fields.len(),
{
    if fields.len() == 0 {
        None
    } else if fields[0].0@ == key {
        Some(fields[0].1)
    } else {
        field_of(fields.drop_first(), key)
    }
}

/// `Value::get` with a key: the field of an object, `None` for anything else.
pub open spec fn json_get(v: JsonValue, key: Seq<char>) -> Option<JsonValue> {
    match v {
        JsonValue::Object(fields) => field_of(fields@, key),
        _ => None,
    }
}

/// `json_get` on an optional value.
pub open spec fn opt_get(v: Option<JsonValue>, key: Seq<char>) -> Option<JsonValue> {
    match v {
        Some(x) => json_get(x, key),
        None => None,
    }
}

/// The text of a string value.
pub open spec fn str_of(v: Option<JsonValue>) -> Option<Seq<char>> {
    match v {
        Some(JsonValue::Str(s)) => Some(s@),
        _ => None,
    }
}

/// The truth value of a boolean value.
pub open spec fn bool_of(v: Option<JsonValue>) -> Option<bool> {
    match v {
        Some(JsonValue::Bool(b)) => Some(b),
        _ => None,
    }
}

/// The elements of an array value.
pub open spec fn array_of(v: Option<JsonValue>) -> Option<Seq<JsonValue>> {
    match v {
        Some(JsonValue::Array(a)) => Some(a@),
        _ => None,
    }
}

/// A text, or a default when there is none.
pub open spec fn text_or(o: Option<Seq<char>>, d: Seq<char>) -> Seq<char> {
    match o {
        Some(s) => s,
        None => d,
    }
}

/// A value found by key lies inside the object, so recursion on it terminates.
pub proof fn lemma_field_of_smaller(fields: Seq<(String, JsonValue)>, key: Seq<char>)
    ensures
        field_of(fields, key) matches Some(v) ==> exists|i: int|
            0 <= i < fields.len() && #[trigger] fields[i].1 == v,
    decreases fields.len(),
{
    if fields.len() > 0 && fields[0].0@ != key {
        lemma_field_of_smaller(fields.drop_first(), key);
        if let Some(v) = field_of(fields.drop_first(), key) {
            let i = choose|i: int| 0 <= i < fields.drop_first().len() && #[trigger] fields.drop_first()[i].1 == v;
            assert(fields[i + 1].1 == v);
        }
    }
}

/// A value found by key in `v` is smaller than `v`.
pub proof fn lemma_get_decreases(v: JsonValue, key: Seq<char>)
    ensures
        json_get(v, key) matches Some(w) ==> decreases_to!(v => w),
{
    if let JsonValue::Object(fields) = v {
        lemma_field_of_smaller(fields@, key);
        if let Some(w) = field_of(fields@, key) {
            let i = choose|i: int| 0 <= i < fields@.len() && #[trigger] fields@[i].1 == w;
            assert(decreases_to!(v => fields));
            assert(decreases_to!(fields => fields@));
            assert(decreases_to!(fields@ => fields@[i]));
            assert(decreases_to!(fields@[i] => fields@[i].1));
        }
    }
}

impl JsonValue {
    /// The field of an object with the key (the first such), `None` for anything
    /// else.
    pub fn get(&self, key: &str) -> (r: Option<&JsonValue>)
        ensures
            r is Some == json_get(*self, key@) is Some,
            r matches Some(x) ==> json_get(*self, key@) == Some(*x),
    {
        match self {
            JsonValue::Object(fields) => {
                let mut i: usize = 0;
                assert(fields@.skip(0) =~= fields@);
                while i < fields.len()
                    invariant
                        0 <= i <= fields@.len(),
                        json_get(*self, key@) == field_of(fields@, key@),
                        field_of(fields@, key@) == field_of(fields@.skip(i as int), key@),
                    decreases fields@.len() - i,
                {
                    let ghost rest = fields@.skip(i as int);
                    proof {
                        assert(fields@.skip(i as int).drop_first() =~= fields@.skip(i + 1));
                        assert(fields@.skip(i as int)[0] == fields@[i as int]);
                    }
                    if str_equal(fields[i].0.as_str(), key) {
                        return Some(&fields[i].1);
                    }
                    i = i + 1;
                }
                assert(fields@.skip(i as int) =~= Seq::<(String, JsonValue)>::empty());
                None
            },
            _ => None,
        }
    }

    /// The text of a string value.
    pub fn as_str(&self) -> (r: Option<&str>)
        ensures
            match r {
                Some(s) => str_of(Some(*self)) == Some(s@),
                None => str_of(Some(*self)) is None,
            },
    {
        match self {
            JsonValue::Str(s) => Some(s.as_str()),
            _ => None,
        }
    }

    /// The truth value of a boolean value.
    pub fn as_bool(&self) -> (r: Option<bool>)
        ensures
            r == bool_of(Some(*self)),
    {
        match self {
            JsonValue::Bool(b) => Some(*b),
            _ => None,
        }
    }

    /// The elements of an array value.
    pub fn as_array(&self) -> (r: Option<&Vec<JsonValue>>)
        ensures
            match r {
                Some(a) => array_of(Some(*self)) == Some(a@) && *self == JsonValue::Array(*a),
                None => array_of(Some(*self)) is None,
            },
    {
        match self {
            JsonValue::Array(a) => Some(a),
            _ => None,
        }
    }

    /// Whether the value is a string.
    pub fn is_string(&self) -> (r: bool)
        ensures
            r == (*self is Str),
    {
        match self {
            JsonValue::Str(_) => true,
            _ => false,
        }
    }
}

} // verus!

verus! {

/// The mathematical value of a JSON value.
pub enum JsonView {
    Null,
    Bool(bool),
    Number(Seq<char>),
    Str(Seq<char>),
    Array(Seq<JsonView>),
    Object(Seq<(Seq<char>, JsonView)>),
}

/// The value of a JSON value.
pub open spec fn json_view(v: JsonValue) -> JsonView
    decreases v, 0nat,
{
    match v {
        JsonValue::Null => JsonView::Null,
        JsonValue::Bool(b) => JsonView::Bool(b),
        JsonValue::Number(n) => JsonView::Number(n@),
        JsonValue::Str(s) => JsonView::Str(s@),
        JsonValue::Array(items) => JsonView::Array(json_views(items@)),
        JsonValue::Object(fields) => JsonView::Object(field_views(fields@)),
    }
}

/// The values of a list of JSON values.
pub open spec fn json_views(s: Seq<JsonValue>) -> Seq<JsonView>
    decreases s, s.len(),
{
    if s.len() == 0 {
        Seq::empty()
    } else {
        seq![json_view(s[0])] + json_views(s.drop_first())
    }
}

/// The values of a list of object fields.
pub open spec fn field_views(s: Seq<(String, JsonValue)>) -> Seq<(Seq<char>, JsonView)>
    decreases s, s.len(),
{
    if s.len() == 0 {
        Seq::empty()
    } else {
        proof {
            assert(decreases_to!(s => s[0]));
        }
        seq![(s[0].0@, json_view(s[0].1))] + field_views(s.drop_first())
    }
}

/// `json_views` element by element.
pub proof fn lemma_json_views_index(s: Seq<JsonValue>)
    ensures
        json_views(s).len() == s.len(),
        forall|k: int| 0 <= k < s.len() ==> #[trigger] json_views(s)[k] == json_view(s[k]),
    decreases s.len(),
{
    if s.len() > 0 {
        lemma_json_views_index(s.drop_first());
        assert forall|k: int| 0 <= k < s.len() implies #[trigger] json_views(s)[k] == json_view(s[k]) by {
            if k > 0 {
                assert(s.drop_first()[k - 1] == s[k]);
            }
        }
    }
}

/// `field_views` element by element.
pub proof fn lemma_field_views_index(s: Seq<(String, JsonValue)>)
    ensures
        field_views(s).len() == s.len(),
        forall|k: int| 0 <= k < s.len() ==> #[trigger] field_views(s)[k] == (s[k].0@, json_view(s[k].1)),
    decreases s.len(),
{
    if s.len() > 0 {
        lemma_field_views_index(s.drop_first());
        assert forall|k: int| 0 <= k < s.len() implies #[trigger] field_views(s)[k] == (s[k].0@, json_view(s[k].1)) by {
            if k > 0 {
                assert(s.drop_first()[k - 1] == s[k]);
            }
        }
    }
}

} // verus!
