use vstd::prelude::*;

verus! {

/// A JSON document as the logic reads it. A number holds its value as an `i64`
/// where it has one (`None` for fractions and for integers out of that range);
/// an object holds its members in the order the parsed map yields them.
#[derive(Debug)]
pub enum JsonValue {
    Null,
    Bool(bool),
    Number(Option<i64>),
    Str(String),
    Array(Vec<JsonValue>),
    Object(Vec<(String, JsonValue)>),
}

/// The value of the first member of `members` named `key`.
pub open spec fn lookup(members: Seq<(String, JsonValue)>, key: Seq<char>) -> Option<JsonValue>
    decreases members.len(),
{
    if members.len() == 0 {
        None
    } else if members[0].0@ == key {
        Some(members[0].1)
    } else {
        lookup(members.drop_first(), key)
    }
}

/// The member `key` of an object; nothing for other values.
pub open spec fn json_get(v: JsonValue, key: Seq<char>) -> Option<JsonValue> {
    match v {
        JsonValue::Object(members) => lookup(members@, key),
        _ => None,
    }
}

/// The text of a string value.
pub open spec fn json_str(v: JsonValue) -> Option<Seq<char>> {
    match v {
        JsonValue::Str(s) => Some(s@),
        _ => None,
    }
}

/// The elements of an array value.
pub open spec fn json_array(v: JsonValue) -> Option<Seq<JsonValue>> {
    match v {
        JsonValue::Array(items) => Some(items@),
        _ => None,
    }
}

/// The members of an object value.
pub open spec fn json_object(v: JsonValue) -> Option<Seq<(String, JsonValue)>> {
    match v {
        JsonValue::Object(members) => Some(members@),
        _ => None,
    }
}

/// The value of a number that is an `i64`.
pub open spec fn json_i64(v: JsonValue) -> Option<i64> {
    match v {
        JsonValue::Number(n) => n,
        _ => None,
    }
}

/// The text of the string member `key`, if there is one.
pub open spec fn member_str(v: JsonValue, key: Seq<char>) -> Option<Seq<char>> {
    match json_get(v, key) {
        Some(m) => json_str(m),
        None => None,
    }
}

/// The elements of the array member `key`, if there is one.
pub open spec fn member_array(v: JsonValue, key: Seq<char>) -> Option<Seq<JsonValue>> {
    match json_get(v, key) {
        Some(m) => json_array(m),
        None => None,
    }
}

/// The members of the object member `key`, if there is one.
pub open spec fn member_object(v: JsonValue, key: Seq<char>) -> Option<Seq<(String, JsonValue)>> {
    match json_get(v, key) {
        Some(m) => json_object(m),
        None => None,
    }
}

impl JsonValue {
    /// The member `key` of an object (the first one of that name); `None` for other values.
    pub fn get(&self, key: &str) -> (res: Option<&JsonValue>)
        ensures
            match res {
                Some(r) => json_get(*self, key@) == Some(*r),
                None => json_get(*self, key@) is None,
            },
    {
        match self {
            JsonValue::Object(members) => {
                let k = String::from_str(key);
                let mut i: usize = 0;
                assert(members@.skip(0) =~= members@);
                while i < members.len()
                    invariant
                        i <= members.len(),
                        k@ == key@,
                        json_get(*self, key@) == lookup(members@, key@),
                        lookup(members@, key@) == lookup(members@.skip(i as int), key@),
                    decreases members.len() - i,
                {
                    assert(members@.skip(i as int).drop_first() =~= members@.skip(i + 1));
                    assert(members@.skip(i as int)[0] == members@[i as int]);
                    if members[i].0 == k {
                        assert(members@[i as int].0@ == key@);
                        assert(lookup(members@.skip(i as int), key@) == Some(members@[i as int].1));
                        return Some(&members[i].1);
                    }
                    i = i + 1;
                }
                None
            },
            _ => None,
        }
    }

    /// The text of a string value.
    pub fn as_str(&self) -> (res: Option<&String>)
        ensures
            match res {
                Some(s) => json_str(*self) == Some(s@),
                None => json_str(*self) is None,
            },
    {
        match self {
            JsonValue::Str(s) => Some(s),
            _ => None,
        }
    }

    /// The elements of an array value.
    pub fn as_array(&self) -> (res: Option<&Vec<JsonValue>>)
        ensures
            match res {
                Some(a) => json_array(*self) == Some(a@),
                None => json_array(*self) is None,
            },
    {
        match self {
            JsonValue::Array(a) => Some(a),
            _ => None,
        }
    }

    /// The members of an object value.
    pub fn as_object(&self) -> (res: Option<&Vec<(String, JsonValue)>>)
        ensures
            match res {
                Some(m) => json_object(*self) == Some(m@),
                None => json_object(*self) is None,
            },
    {
        match self {
            JsonValue::Object(m) => Some(m),
            _ => None,
        }
    }

    /// The value of a number that is an `i64`.
    pub fn as_i64(&self) -> (res: Option<i64>)
        ensures
            res == json_i64(*self),
    {
        match self {
            JsonValue::Number(n) => *n,
            _ => None,
        }
    }
}

} // verus!
