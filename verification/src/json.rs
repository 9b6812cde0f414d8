//! JSON documents as the library reads them: replies of Audiobookshelf and
//! of the metadata provider.
use vstd::prelude::*;

use crate::models::str_eq;

verus! {

/// A JSON value. A number is kept as the text of its value as an `f64`;
/// an object keeps its members in order, each key once.
#[derive(Debug)]
pub enum Json {
    Null,
    Bool(bool),
    Number(String),
    Str(String),
    Array(Vec<Json>),
    Object(Vec<(String, Json)>),
}

/// Position of the member `key` among `members`.
pub open spec fn find_member(members: Seq<(String, Json)>, key: Seq<char>) -> Option<int>
    decreases members.len(),
{
    if members.len() == 0 {
        None
    } else {
        match find_member(members.drop_last(), key) {
            Some(k) => Some(k),
            None => if members.last().0@ == key {
                Some(members.len() - 1)
            } else {
                None
            },
        }
    }
}

pub proof fn lemma_find_member(members: Seq<(String, Json)>, key: Seq<char>)
    ensures
        find_member(members, key) matches Some(k) ==> 0 <= k < members.len() && members[k].0@
            == key,
    decreases members.len(),
{
    if members.len() > 0 {
        lemma_find_member(members.drop_last(), key);
    }
}

pub proof fn lemma_find_member_prefix(s: Seq<(String, Json)>, key: Seq<char>, n: int)
    requires
        0 <= n <= s.len(),
        find_member(s.take(n), key) is Some,
    ensures
        find_member(s, key) == find_member(s.take(n), key),
    decreases s.len() - n,
{
    if n < s.len() {
        assert(s.take(n + 1).drop_last() =~= s.take(n));
        lemma_find_member_prefix(s, key, n + 1);
    } else {
        assert(s.take(n) =~= s);
    }
}

impl Json {
    /// `value.get(key)`: the member `key` of an object.
    pub open spec fn spec_get(self, key: Seq<char>) -> Option<Json> {
        match self {
            Json::Object(m) => match find_member(m@, key) {
                Some(k) => Some(m@[k].1),
                None => None,
            },
            _ => None,
        }
    }

    pub fn get(&self, key: &str) -> (r: Option<&Json>)
        ensures
            match self.spec_get(key@) {
                Some(v) => r == Some(&v),
                None => r is None,
            },
    {
        match self {
            Json::Object(m) => {
                let mut i: usize = 0;
                while i < m.len()
                    invariant
                        i <= m.len(),
                        *self == Json::Object(*m),
                        find_member(m@.take(i as int), key@) is None,
                    decreases m.len() - i,
                {
                    assert(m@.take(i + 1).drop_last() =~= m@.take(i as int));
                    if str_eq(m[i].0.as_str(), key) {
                        assert(m@.take(i + 1).last() == m@[i as int]);
                        assert(find_member(m@.take(i + 1), key@) == Some(i as int));
                        proof {
                            lemma_find_member_prefix(m@, key@, i + 1);
                        }
                        return Some(&m[i].1);
                    }
                    i += 1;
                }
                assert(m@.take(m.len() as int) =~= m@);
                None
            },
            _ => None,
        }
    }

    /// `value.as_str()`.
    pub open spec fn spec_as_str(self) -> Option<Seq<char>> {
        match self {
            Json::Str(s) => Some(s@),
            _ => None,
        }
    }

    pub fn as_str(&self) -> (r: Option<&str>)
        ensures
            crate::text::opt_str_view(r) == self.spec_as_str(),
    {
        match self {
            Json::Str(s) => Some(s.as_str()),
            _ => None,
        }
    }

    /// `value.as_bool()`.
    pub open spec fn spec_as_bool(self) -> Option<bool> {
        match self {
            Json::Bool(b) => Some(b),
            _ => None,
        }
    }

    pub fn as_bool(&self) -> (r: Option<bool>)
        ensures
            r == self.spec_as_bool(),
    {
        match self {
            Json::Bool(b) => Some(*b),
            _ => None,
        }
    }

    /// The items of an array (`value.as_array()`).
    pub open spec fn spec_items(self) -> Option<Seq<Json>> {
        match self {
            Json::Array(v) => Some(v@),
            _ => None,
        }
    }

    pub fn items(&self) -> (r: Option<&Vec<Json>>)
        ensures
            match self.spec_items() {
                Some(s) => r is Some && r->0@ == s,
                None => r is None,
            },
    {
        match self {
            Json::Array(v) => Some(v),
            _ => None,
        }
    }
}

/// `value.get(key).and_then(as_str)`.
pub open spec fn str_member(j: Json, key: Seq<char>) -> Option<Seq<char>> {
    match j.spec_get(key) {
        Some(v) => v.spec_as_str(),
        None => None,
    }
}

pub fn get_str<'a>(j: &'a Json, key: &str) -> (r: Option<&'a str>)
    ensures
        crate::text::opt_str_view(r) == str_member(*j, key@),
{
    match j.get(key) {
        Some(v) => v.as_str(),
        None => None,
    }
}

/// `value.get(key).and_then(as_bool)`.
pub open spec fn bool_member(j: Json, key: Seq<char>) -> Option<bool> {
    match j.spec_get(key) {
        Some(v) => v.spec_as_bool(),
        None => None,
    }
}

pub fn get_bool(j: &Json, key: &str) -> (r: Option<bool>)
    ensures
        r == bool_member(*j, key@),
{
    match j.get(key) {
        Some(v) => v.as_bool(),
        None => None,
    }
}

/// `value.get(key).and_then(as_array)`, empty when absent.
pub open spec fn items_member(j: Json, key: Seq<char>) -> Seq<Json> {
    match j.spec_get(key) {
        Some(v) => match v.spec_items() {
            Some(s) => s,
            None => Seq::empty(),
        },
        None => Seq::empty(),
    }
}

pub fn get_items<'a>(j: &'a Json, key: &str) -> (r: &'a [Json])
    ensures
        r@ == items_member(*j, key@),
{
    match j.get(key) {
        Some(v) => match v.items() {
            Some(s) => s.as_slice(),
            None => &[],
        },
        None => &[],
    }
}

} // verus!
