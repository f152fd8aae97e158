//! JSON values as the library reads them, and member lookup.
use vstd::prelude::*;
use crate::text::{chars_eq, chars_of};

verus! {

/// A JSON value; a number is kept as its JSON text.
#[derive(Debug, PartialEq, Eq)]
pub enum JsonValue {
    Null,
    Bool(bool),
    Number(String),
    Text(String),
    Array(Vec<JsonValue>),
    /// Members in order; a name occurs at most once.
    Object(Vec<(String, JsonValue)>),
}

/// The index of the first member named `key`, or the number of members.
pub open spec fn member_index(members: Seq<(String, JsonValue)>, key: Seq<char>) -> int
    decreases members.len(),
{
    if members.len() == 0 {
        0
    } else if members[0].0@ == key {
        0
    } else {
        1 + member_index(members.drop_first(), key)
    }
}

proof fn lemma_member_index(members: Seq<(String, JsonValue)>, key: Seq<char>)
    ensures
        0 <= member_index(members, key) <= members.len(),
        member_index(members, key) < members.len() ==> members[member_index(members, key)].0@ == key,
        forall|j: int| 0 <= j < member_index(members, key) ==> (#[trigger] members[j]).0@ != key,
    decreases members.len(),
{
    if members.len() > 0 && members[0].0@ != key {
        lemma_member_index(members.drop_first(), key);
        assert forall|j: int| 0 <= j < member_index(members, key) implies (#[trigger] members[j]).0@ != key by {
            if j > 0 {
                assert(members[j] == members.drop_first()[j - 1]);
            }
        }
    }
}

/// `value.get(key)`: the member `key` of an object; `None` for a missing
/// member and for anything but an object.
pub open spec fn json_get(v: JsonValue, key: Seq<char>) -> Option<JsonValue> {
    match v {
        JsonValue::Object(members) => {
            let i = member_index(members@, key);
            if i < members@.len() {
                Some(members@[i].1)
            } else {
                None
            }
        },
        _ => None,
    }
}

/// The member `key` of an object value.
pub fn get_member<'a>(v: &'a JsonValue, key: &str) -> (r: Option<&'a JsonValue>)
    ensures
        match json_get(*v, key@) {
            Some(m) => r matches Some(x) && *x == m,
            None => r is None,
        },
{
    match v {
        JsonValue::Object(members) => {
            let k = chars_of(key);
            let mut i: usize = 0;
            proof {
                lemma_member_index(members@, key@);
            }
            assert(members@.skip(0) =~= members@);
            while i < members.len()
                invariant
                    i <= members@.len(),
                    *v == JsonValue::Object(*members),
                    k@ == key@,
                    member_index(members@, key@) == i + member_index(members@.skip(i as int), key@),
                    forall|j: int| 0 <= j < i ==> (#[trigger] members@[j]).0@ != key@,
                decreases members.len() - i,
            {
                let name = chars_of(members[i].0.as_str());
                if chars_eq(&name, &k) {
                    assert(members@.skip(i as int)[0] == members@[i as int]);
                    return Some(&members[i].1);
                }
                assert(members@.skip(i as int).drop_first() =~= members@.skip(i + 1));
                i = i + 1;
            }
            None
        },
        _ => None,
    }
}

} // verus!
