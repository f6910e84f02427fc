//! A JSON value model: the payloads, details and metrics that travel through
//! the archive.

use vstd::prelude::*;
use crate::text::{chars_of, chars_eq, str_eq};

verus! {

/// A JSON value. Numbers are integers; an object keeps its members in order.
#[derive(Debug, PartialEq)]
pub enum Json {
    Null,
    Bool(bool),
    Number(i128),
    Str(String),
    Array(Vec<Json>),
    Object(Vec<(String, Json)>),
}

/// The first member of `members` named `key`.
pub open spec fn member(members: Seq<(String, Json)>, key: Seq<char>) -> Option<Json>
    decreases members.len(),
{
    if members.len() == 0 {
        None
    } else if members[0].0@ == key {
        Some(members[0].1)
    } else {
        member(members.drop_first(), key)
    }
}

impl Json {
    /// The member named `key` of an object; `None` for other values.
    pub open spec fn field(self, key: Seq<char>) -> Option<Json> {
        match self {
            Json::Object(m) => member(m@, key),
            _ => None,
        }
    }

    /// The text of a string value.
    pub open spec fn text(self) -> Option<Seq<char>> {
        match self {
            Json::Str(s) => Some(s@),
            _ => None,
        }
    }

    /// The text of the string member `key`, if the member exists and is a string.
    pub open spec fn str_field(self, key: Seq<char>) -> Option<Seq<char>> {
        match self.field(key) {
            Some(v) => v.text(),
            None => None,
        }
    }

    /// The member named `key` of an object (`Value::get` with a string key).
    pub fn get(&self, key: &str) -> (r: Option<&Json>)
        ensures
            r matches Some(v) ==> self.field(key@) == Some(*v),
            r is None ==> self.field(key@) is None,
    {
        match self {
            Json::Object(m) => {
                let mut i: usize = 0;
                assert(m@.subrange(0, m@.len() as int) =~= m@);
                while i < m.len()
                    invariant
                        i <= m@.len(),
                        self.field(key@) == member(m@, key@),
                        member(m@, key@) == member(m@.subrange(i as int, m@.len() as int), key@),
                    decreases m@.len() - i,
                {
                    let ghost rest = m@.subrange(i as int, m@.len() as int);
                    assert(rest.drop_first() =~= m@.subrange(i + 1, m@.len() as int));
                    assert(rest[0] == m@[i as int]);
                    if str_eq(m[i].0.as_str(), key) {
                        assert(member(rest, key@) == Some(m@[i as int].1));
                        return Some(&m[i].1);
                    }
                    i = i + 1;
                }
                assert(m@.subrange(i as int, m@.len() as int).len() == 0);
                None
            },
            _ => None,
        }
    }

    /// The text of a string value (`Value::as_str`).
    pub fn as_str(&self) -> (r: Option<&str>)
        ensures
            r matches Some(s) ==> self.text() == Some(s@),
            r is None ==> self.text() is None,
    {
        match self {
            Json::Str(s) => Some(s.as_str()),
            _ => None,
        }
    }

    /// A non-negative number that fits in `u64` (`Value::as_u64`).
    pub fn as_u64(&self) -> (r: Option<u64>)
        ensures
            r == (match *self {
                Json::Number(n) => if 0 <= n <= u64::MAX { Some(n as u64) } else { None },
                _ => None,
            }),
    {
        match self {
            Json::Number(n) => if 0 <= *n && *n <= 18446744073709551615i128 {
                Some(*n as u64)
            } else {
                None
            },
            _ => None,
        }
    }

    /// A number that fits in `i64` (`Value::as_i64`).
    pub fn as_i64(&self) -> (r: Option<i64>)
        ensures
            r == (match *self {
                Json::Number(n) => if i64::MIN <= n <= i64::MAX { Some(n as i64) } else { None },
                _ => None,
            }),
    {
        match self {
            Json::Number(n) => if -9223372036854775808i128 <= *n && *n <= 9223372036854775807i128 {
                Some(*n as i64)
            } else {
                None
            },
            _ => None,
        }
    }

    /// Whether the value is an object.
    pub fn is_object(&self) -> (r: bool)
        ensures
            r == (*self is Object),
    {
        match self {
            Json::Object(_) => true,
            _ => false,
        }
    }

    /// The text of the string member `key` (`get(key).and_then(as_str)`).
    pub fn get_str(&self, key: &str) -> (r: Option<&str>)
        ensures
            r matches Some(s) ==> self.str_field(key@) == Some(s@),
            r is None ==> self.str_field(key@) is None,
    {
        match self.get(key) {
            Some(v) => v.as_str(),
            None => None,
        }
    }
}

/// The mathematical value of a JSON document.
pub ghost enum JsonValue {
    Null,
    Bool(bool),
    Number(int),
    Str(Seq<char>),
    Array(Seq<JsonValue>),
    Object(Seq<(Seq<char>, JsonValue)>),
}

impl Json {
    /// The value a JSON document stands for: strings as text, arrays and
    /// objects as sequences.
    pub open spec fn value(self) -> JsonValue
        decreases self,
    {
        match self {
            Json::Null => JsonValue::Null,
            Json::Bool(b) => JsonValue::Bool(b),
            Json::Number(n) => JsonValue::Number(n as int),
            Json::Str(s) => JsonValue::Str(s@),
            Json::Array(v) => JsonValue::Array(Seq::new(v@.len(), |i: int| {
                if 0 <= i < v@.len() { v@[i].value() } else { JsonValue::Null }
            })),
            Json::Object(m) => JsonValue::Object(Seq::new(m@.len(), |i: int| {
                if 0 <= i < m@.len() { (m@[i].0@, m@[i].1.value()) } else { (Seq::empty(), JsonValue::Null) }
            })),
        }
    }
}

impl Clone for Json {
    /// A copy with the same value (see `json_clone`).
    fn clone(&self) -> (r: Self)
        ensures
            r.value() == self.value(),
    {
        json_clone(self)
    }
}

/// A copy of a JSON document, with the same value.
pub fn json_clone(j: &Json) -> (r: Json)
    ensures
        r.value() == j.value(),
    decreases j,
{
    match j {
        Json::Null => Json::Null,
        Json::Bool(b) => Json::Bool(*b),
        Json::Number(n) => Json::Number(*n),
        Json::Str(s) => Json::Str(crate::text::owned(s.as_str())),
        Json::Array(v) => {
            let mut out: Vec<Json> = Vec::new();
            let mut i: usize = 0;
            while i < v.len()
                invariant
                    *j == Json::Array(*v),
                    i <= v@.len(),
                    out@.len() == i,
                    forall|k: int| 0 <= k < i ==> (#[trigger] out@[k]).value() == v@[k].value(),
                decreases v@.len() - i,
            {
                proof {
                    assert(decreases_to!(*j => (*j)->Array_0));
                    assert(decreases_to!(*v => v@));
                    assert(decreases_to!(v@ => v@[i as int]));
                }
                out.push(json_clone(&v[i]));
                i = i + 1;
            }
            let r = Json::Array(out);
            proof {
                assert(r.value()->Array_0 =~= j.value()->Array_0);
            }
            r
        },
        Json::Object(m) => {
            let mut out: Vec<(String, Json)> = Vec::new();
            let mut i: usize = 0;
            while i < m.len()
                invariant
                    *j == Json::Object(*m),
                    i <= m@.len(),
                    out@.len() == i,
                    forall|k: int| 0 <= k < i ==> (#[trigger] out@[k]).0@ == m@[k].0@ && out@[k].1.value() == m@[k].1.value(),
                decreases m@.len() - i,
            {
                proof {
                    assert(decreases_to!(*j => (*j)->Object_0));
                    assert(decreases_to!(*m => m@));
                    assert(decreases_to!(m@ => m@[i as int]));
                    assert(decreases_to!(m@[i as int] => m@[i as int].1));
                }
                out.push((m[i].0.clone(), json_clone(&m[i].1)));
                i = i + 1;
            }
            let r = Json::Object(out);
            proof {
                assert(r.value()->Object_0 =~= j.value()->Object_0);
            }
            r
        },
    }
}

} // verus!
