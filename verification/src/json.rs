//! JSON values, as the encoder reads them.
use vstd::prelude::*;

verus! {

/// A JSON value.
///
/// A number is held as the IEEE 754 binary64 bit pattern of its value as a
/// double, which is what the encoder hands to the token writer.
pub enum JsonValue {
    Null,
    Bool(bool),
    Number(u64),
    String(String),
    Array(Vec<JsonValue>),
    Object(JsonObject),
}

/// A JSON object: its members, in order.
///
/// A well-formed object (`wf`) has no key twice, as a JSON map has. A
/// lookup finds the first member with the given key, which in a well-formed
/// object is the only one.
pub struct JsonObject {
    pub entries: Vec<(String, JsonValue)>,
}

impl JsonObject {
    /// No key occurs twice among the members.
    pub open spec fn wf(&self) -> bool {
        keys_distinct(self.entries@)
    }
}

/// No key occurs twice among the members.
pub open spec fn keys_distinct(entries: Seq<(String, JsonValue)>) -> bool {
    forall|i: int, j: int|
        0 <= i < entries.len() && 0 <= j < entries.len() && i != j ==> (#[trigger] entries[i]).0@
            != (#[trigger] entries[j]).0@
}

/// Some member has the key `key` and the value `value`.
pub open spec fn has_member(entries: Seq<(String, JsonValue)>, key: Seq<char>, value: JsonValue) -> bool {
    exists|i: int| 0 <= i < entries.len() && (#[trigger] entries[i]).0@ == key && entries[i].1 == value
}

/// The value that a lookup of `key` finds: that of the first member with
/// the key, if any.
pub open spec fn member_value(entries: Seq<(String, JsonValue)>, key: Seq<char>) -> Option<JsonValue> {
    match key_index(entries, key) {
        Some(i) => Some(entries[i].1),
        None => None,
    }
}

/// `i` is the position of the first member of `entries` whose key is `key`.
pub open spec fn is_first_key(entries: Seq<(String, JsonValue)>, key: Seq<char>, i: int) -> bool {
    &&& 0 <= i < entries.len()
    &&& entries[i].0@ == key
    &&& forall|j: int| 0 <= j < i ==> (#[trigger] entries[j]).0@ != key
}

/// The position of the first member of `entries` whose key is `key`, if any.
pub open spec fn key_index(entries: Seq<(String, JsonValue)>, key: Seq<char>) -> Option<int> {
    if exists|i: int| is_first_key(entries, key, i) {
        Some(choose|i: int| is_first_key(entries, key, i))
    } else {
        None
    }
}

/// There is at most one first position of a key, and there is one when some
/// member has the key.
pub proof fn lemma_key_index(entries: Seq<(String, JsonValue)>, key: Seq<char>)
    ensures
        forall|i: int| #[trigger] is_first_key(entries, key, i) ==> key_index(entries, key) == Some(i),
        key_index(entries, key) is None <==> forall|i: int|
            0 <= i < entries.len() ==> (#[trigger] entries[i]).0@ != key,
        key_index(entries, key) matches Some(i) ==> is_first_key(entries, key, i),
{
    assert forall|i: int| #[trigger] is_first_key(entries, key, i) implies key_index(entries, key)
        == Some(i) by {
        let k = choose|k: int| is_first_key(entries, key, k);
        assert(is_first_key(entries, key, k));
        if k < i {
            assert(entries[k].0@ != key);
        } else if i < k {
            assert(entries[i].0@ != key);
        }
    }
    if !(forall|i: int| 0 <= i < entries.len() ==> (#[trigger] entries[i]).0@ != key) {
        let w = choose|i: int| 0 <= i < entries.len() && (#[trigger] entries[i]).0@ == key;
        lemma_first_key_exists(entries, key, w);
    }
}

proof fn lemma_first_key_exists(entries: Seq<(String, JsonValue)>, key: Seq<char>, w: int)
    requires
        0 <= w < entries.len(),
        entries[w].0@ == key,
    ensures
        exists|i: int| is_first_key(entries, key, i),
    decreases w,
{
    if forall|j: int| 0 <= j < w ==> (#[trigger] entries[j]).0@ != key {
        assert(is_first_key(entries, key, w));
    } else {
        let v = choose|j: int| 0 <= j < w && (#[trigger] entries[j]).0@ == key;
        lemma_first_key_exists(entries, key, v);
    }
}

/// In an object with no key twice, a member with the key is the one that a
/// lookup finds.
pub proof fn lemma_distinct_lookup(entries: Seq<(String, JsonValue)>, key: Seq<char>, i: int)
    requires
        keys_distinct(entries),
        0 <= i < entries.len(),
        entries[i].0@ == key,
    ensures
        key_index(entries, key) == Some(i),
        member_value(entries, key) == Some(entries[i].1),
{
    assert forall|j: int| 0 <= j < i implies (#[trigger] entries[j]).0@ != key by {
        assert(entries[j].0@ != entries[i].0@);
    }
    assert(is_first_key(entries, key, i));
    lemma_key_index(entries, key);
}

/// In objects with no key twice, a lookup does not depend on the order of
/// the members: two such objects with the same members give every key the
/// same value.
pub proof fn lemma_lookup_order_independent(
    a: Seq<(String, JsonValue)>,
    b: Seq<(String, JsonValue)>,
    key: Seq<char>,
)
    requires
        keys_distinct(a),
        keys_distinct(b),
        forall|k: Seq<char>, v: JsonValue| has_member(a, k, v) <==> has_member(b, k, v),
    ensures
        member_value(a, key) == member_value(b, key),
{
    lemma_key_index(a, key);
    lemma_key_index(b, key);
    match key_index(a, key) {
        Some(i) => {
            assert(has_member(a, key, a[i].1));
            assert(has_member(b, key, a[i].1));
            let j = choose|j: int| 0 <= j < b.len() && (#[trigger] b[j]).0@ == key && b[j].1 == a[i].1;
            lemma_distinct_lookup(b, key, j);
        },
        None => match key_index(b, key) {
            Some(j) => {
                assert(has_member(b, key, b[j].1));
                assert(has_member(a, key, b[j].1));
                let i = choose|i: int| 0 <= i < a.len() && (#[trigger] a[i]).0@ == key && a[i].1 == b[j].1;
                assert(a[i].0@ != key);
            },
            None => {},
        },
    }
}

/// Inserting, at any position, members whose keys are not `key` leaves the
/// value that a lookup of `key` finds unchanged.
pub proof fn lemma_lookup_insert_other_keys(
    entries: Seq<(String, JsonValue)>,
    extra: Seq<(String, JsonValue)>,
    k: int,
    key: Seq<char>,
)
    requires
        0 <= k <= entries.len(),
        forall|i: int| 0 <= i < extra.len() ==> (#[trigger] extra[i]).0@ != key,
    ensures
        member_value(entries.take(k) + extra + entries.skip(k), key) == member_value(entries, key),
{
    let merged = entries.take(k) + extra + entries.skip(k);
    let n = extra.len();
    assert forall|i: int| 0 <= i < k implies #[trigger] merged[i] == entries[i] by {}
    assert forall|i: int| k <= i < k + n implies #[trigger] merged[i] == extra[i - k] by {}
    assert forall|i: int| k + n <= i < merged.len() implies #[trigger] merged[i] == entries[i - n] by {}
    lemma_key_index(entries, key);
    lemma_key_index(merged, key);
    match key_index(entries, key) {
        Some(j) => {
            let jm = if j < k { j } else { j + n };
            assert(merged[jm] == entries[j]);
            assert forall|m: int| 0 <= m < jm implies (#[trigger] merged[m]).0@ != key by {
                if m < k {
                    assert(merged[m] == entries[m]);
                    assert(entries[m].0@ != key);
                } else if m < k + n {
                    assert(merged[m] == extra[m - k]);
                } else {
                    assert(merged[m] == entries[m - n]);
                    assert(entries[m - n].0@ != key);
                }
            }
            assert(is_first_key(merged, key, jm));
        },
        None => {
            assert forall|m: int| 0 <= m < merged.len() implies (#[trigger] merged[m]).0@ != key by {
                if m < k {
                    assert(merged[m] == entries[m]);
                } else if m < k + n {
                    assert(merged[m] == extra[m - k]);
                } else {
                    assert(merged[m] == entries[m - n]);
                }
            }
        },
    }
}

impl JsonObject {
    /// The value of the first member whose key is `key`.
    pub fn get(&self, key: &String) -> (r: Option<&JsonValue>)
        ensures
            match key_index(self.entries@, key@) {
                Some(i) => r == Some(&self.entries@[i].1),
                None => r is None,
            },
    {
        proof {
            lemma_key_index(self.entries@, key@);
        }
        let mut i: usize = 0;
        while i < self.entries.len()
            invariant
                i <= self.entries@.len(),
                forall|j: int| 0 <= j < i ==> (#[trigger] self.entries@[j]).0@ != key@,
            decreases self.entries.len() - i,
        {
            if self.entries[i].0 == *key {
                assert(is_first_key(self.entries@, key@, i as int));
                return Some(&self.entries[i].1);
            }
            i = i + 1;
        }
        None
    }
}

/// The name of the JSON type of a value, as reported in mismatch errors.
pub open spec fn json_kind_name(v: JsonValue) -> Seq<char> {
    match v {
        JsonValue::Null => "Null"@,
        JsonValue::Bool(_) => "Bool"@,
        JsonValue::Number(_) => "Number"@,
        JsonValue::String(_) => "String"@,
        JsonValue::Array(_) => "Array"@,
        JsonValue::Object(_) => "Object"@,
    }
}

/// The name of the JSON type of a value.
pub fn type_of(value: &JsonValue) -> (r: String)
    ensures
        r@ == json_kind_name(*value),
{
    match value {
        JsonValue::Null => "Null".to_owned(),
        JsonValue::Bool(_) => "Bool".to_owned(),
        JsonValue::Number(_) => "Number".to_owned(),
        JsonValue::String(_) => "String".to_owned(),
        JsonValue::Array(_) => "Array".to_owned(),
        JsonValue::Object(_) => "Object".to_owned(),
    }
}

} // verus!
