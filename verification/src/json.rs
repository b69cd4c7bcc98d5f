//! A JSON document model for the free-form configuration of custom limiters
//! and matchers.

use vstd::prelude::*;

use crate::text::str_eq;

verus! {

/// A JSON number, kept as the parser produced it.
#[derive(Debug, Clone, Copy, PartialEq)]
pub enum JsonNumber {
    /// A nonnegative integer.
    PosInt(u64),
    /// A negative integer.
    NegInt(i64),
    /// A floating-point number, held as its IEEE-754 bit pattern.
    Float(u64),
}

/// A JSON value. Object members keep their order; keys are unique in
/// documents produced by a parser.
#[derive(Debug, PartialEq)]
pub enum JsonValue {
    Null,
    Bool(bool),
    Number(JsonNumber),
    String(String),
    Array(Vec<JsonValue>),
    Object(Vec<(String, JsonValue)>),
}

/// The value of the first member named `key`.
pub open spec fn spec_lookup(members: Seq<(String, JsonValue)>, key: Seq<char>) -> Option<JsonValue>
    decreases members.len(),
{
    if members.len() == 0 {
        None
    } else if members[0].0@ == key {
        Some(members[0].1)
    } else {
        spec_lookup(members.drop_first(), key)
    }
}

impl JsonValue {
    /// The member `key` of an object; nothing for other values or a missing
    /// member (where indexing would give `null`).
    pub open spec fn spec_get(&self, key: Seq<char>) -> Option<JsonValue> {
        match self {
            JsonValue::Object(m) => spec_lookup(m@, key),
            _ => None,
        }
    }

    /// A nonnegative integer as `u64`.
    pub open spec fn spec_as_u64(&self) -> Option<u64> {
        match self {
            JsonValue::Number(JsonNumber::PosInt(n)) => Some(*n),
            _ => None,
        }
    }

    /// Whether the value is `null`.
    pub fn is_null(&self) -> (r: bool)
        ensures
            r == (self is Null),
    {
        match self {
            JsonValue::Null => true,
            _ => false,
        }
    }

    /// The member `key` of an object.
    pub fn get(&self, key: &str) -> (r: Option<&JsonValue>)
        ensures
            match r {
                Some(v) => self.spec_get(key@) == Some(*v),
                None => self.spec_get(key@) is None,
            },
    {
        match self {
            JsonValue::Object(members) => {
                let mut i: usize = 0;
                assert(members@.skip(0) =~= members@);
                while i < members.len()
                    invariant
                        i <= members@.len(),
                        self.spec_get(key@) == spec_lookup(members@, key@),
                        spec_lookup(members@, key@) == spec_lookup(members@.skip(i as int), key@),
                    decreases members@.len() - i,
                {
                    assert(members@.skip(i as int).drop_first() =~= members@.skip(i + 1));
                    assert(members@.skip(i as int)[0] == members@[i as int]);
                    if str_eq(members[i].0.as_str(), key) {
                        return Some(&members[i].1);
                    }
                    i = i + 1;
                }
                None
            },
            _ => None,
        }
    }

    /// A nonnegative integer as `u64`.
    pub fn as_u64(&self) -> (r: Option<u64>)
        ensures
            r == self.spec_as_u64(),
    {
        match self {
            JsonValue::Number(JsonNumber::PosInt(n)) => Some(*n),
            _ => None,
        }
    }

    /// A string value.
    pub fn as_str(&self) -> (r: Option<&str>)
        ensures
            match self {
                JsonValue::String(s) => r matches Some(x) && x@ == s@,
                _ => r is None,
            },
    {
        match self {
            JsonValue::String(s) => Some(s.as_str()),
            _ => None,
        }
    }

    /// A boolean value.
    pub fn as_bool(&self) -> (r: Option<bool>)
        ensures
            match self {
                JsonValue::Bool(b) => r == Some(*b),
                _ => r is None,
            },
    {
        match self {
            JsonValue::Bool(b) => Some(*b),
            _ => None,
        }
    }

    /// The elements of an array.
    pub fn as_array(&self) -> (r: Option<&Vec<JsonValue>>)
        ensures
            match self {
                JsonValue::Array(a) => r matches Some(x) && x@ == a@,
                _ => r is None,
            },
    {
        match self {
            JsonValue::Array(a) => Some(a),
            _ => None,
        }
    }
}

/// `value[key].as_u64()`: the member `key` of an object, when it is a
/// nonnegative integer.
pub open spec fn spec_member_u64(value: JsonValue, key: Seq<char>) -> Option<u64> {
    match value.spec_get(key) {
        Some(v) => v.spec_as_u64(),
        None => None,
    }
}

/// `value[key].as_u64()`.
pub fn member_u64(value: &JsonValue, key: &str) -> (r: Option<u64>)
    ensures
        r == spec_member_u64(*value, key@),
{
    match value.get(key) {
        Some(v) => v.as_u64(),
        None => None,
    }
}

} // verus!

verus! {

/// In members whose keys are pairwise distinct, looking a key up finds the
/// member that has it.
pub proof fn lemma_lookup_distinct(members: Seq<(String, JsonValue)>, i: int)
    requires
        0 <= i < members.len(),
        forall|a: int, b: int|
            0 <= a < b < members.len() ==> (#[trigger] members[a]).0@ != (#[trigger] members[b]).0@,
    ensures
        spec_lookup(members, members[i].0@) == Some(members[i].1),
    decreases i,
{
    if i > 0 {
        let rest = members.drop_first();
        assert(members[0].0@ != members[i].0@);
        assert(rest[i - 1] == members[i]);
        assert forall|a: int, b: int|
            0 <= a < b < rest.len() implies (#[trigger] rest[a]).0@ != (#[trigger] rest[b]).0@ by {
            assert(rest[a] == members[a + 1]);
            assert(rest[b] == members[b + 1]);
        }
        lemma_lookup_distinct(rest, i - 1);
    }
}

} // verus!
