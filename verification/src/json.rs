//! The JSON document model that the viewer's store is made of.
//!
//! `JsonValue` mirrors the shape of a JSON value; its view `JsonData` is the
//! mathematical value: arrays are sequences and objects are maps from keys to
//! values.  An object keeps its members in a vector of entries; when a key
//! occurs more than once, the last entry is the one that counts.
use vstd::prelude::*;

use crate::text::text_eq;

verus! {

/// A JSON number as it was read: a non-negative integer, a negative integer,
/// or a floating-point number, kept by its IEEE-754 bit pattern.
#[derive(Clone, Copy, Debug)]
pub enum JsonNumber {
    PosInt(u64),
    NegInt(i64),
    Float(u64),
}

/// A JSON value.
#[derive(Debug)]
pub enum JsonValue {
    Null,
    Bool(bool),
    Number(JsonNumber),
    String(String),
    Array(Vec<JsonValue>),
    Object(JsonMap),
}

/// A JSON object: its members in the order they were written.
#[derive(Debug)]
pub struct JsonMap {
    pub entries: Vec<(String, JsonValue)>,
}

/// The mathematical value of a JSON value.
pub enum JsonData {
    Null,
    Bool(bool),
    Number(JsonNumber),
    Str(Seq<char>),
    Array(Seq<JsonData>),
    Object(Map<Seq<char>, JsonData>),
}

/// The mathematical value of `v`.
pub open spec fn value_data(v: JsonValue) -> JsonData
    decreases v,
{
    match v {
        JsonValue::Null => JsonData::Null,
        JsonValue::Bool(b) => JsonData::Bool(b),
        JsonValue::Number(n) => JsonData::Number(n),
        JsonValue::String(s) => JsonData::Str(s@),
        JsonValue::Array(a) => JsonData::Array(seq_data(a@)),
        JsonValue::Object(m) => JsonData::Object(entries_data(m.entries@)),
    }
}

/// The mathematical values of a sequence of values.
pub open spec fn seq_data(s: Seq<JsonValue>) -> Seq<JsonData>
    decreases s,
{
    if s.len() == 0 {
        Seq::empty()
    } else {
        seq_data(s.drop_last()).push(value_data(s.last()))
    }
}

/// The map that a sequence of entries stands for: each entry sets its key,
/// later entries overriding earlier ones.
pub open spec fn entries_data(s: Seq<(String, JsonValue)>) -> Map<Seq<char>, JsonData>
    decreases s,
{
    if s.len() == 0 {
        Map::empty()
    } else {
        entries_data(s.drop_last()).insert(s.last().0@, value_data(s.last().1))
    }
}

impl View for JsonValue {
    type V = JsonData;

    open spec fn view(&self) -> JsonData {
        value_data(*self)
    }
}

impl View for JsonMap {
    type V = Map<Seq<char>, JsonData>;

    open spec fn view(&self) -> Map<Seq<char>, JsonData> {
        entries_data(self.entries@)
    }
}


/// The member `k` of an object, if `d` is an object that has it.
pub open spec fn field(d: JsonData, k: Seq<char>) -> Option<JsonData> {
    match d {
        JsonData::Object(m) => if m.contains_key(k) { Some(m[k]) } else { None },
        _ => None,
    }
}

/// The text of a string value.
pub open spec fn text_of(d: JsonData) -> Option<Seq<char>> {
    match d {
        JsonData::Str(s) => Some(s),
        _ => None,
    }
}

/// The truth value of a boolean value.
pub open spec fn bool_of(d: JsonData) -> Option<bool> {
    match d {
        JsonData::Bool(b) => Some(b),
        _ => None,
    }
}

/// The value of a number that is a non-negative integer.
pub open spec fn u64_of(d: JsonData) -> Option<u64> {
    match d {
        JsonData::Number(JsonNumber::PosInt(n)) => Some(n),
        _ => None,
    }
}

/// The elements of an array value.
pub open spec fn array_of(d: JsonData) -> Option<Seq<JsonData>> {
    match d {
        JsonData::Array(a) => Some(a),
        _ => None,
    }
}

/// The members of an object value.
pub open spec fn object_of(d: JsonData) -> Option<Map<Seq<char>, JsonData>> {
    match d {
        JsonData::Object(m) => Some(m),
        _ => None,
    }
}

/// The mathematical value behind an optional reference.
pub open spec fn opt_data(o: Option<&JsonValue>) -> Option<JsonData> {
    match o {
        Some(v) => Some(v@),
        None => None,
    }
}

/// An optional text as a sequence of characters.
pub open spec fn opt_text(o: Option<&str>) -> Option<Seq<char>> {
    match o {
        Some(s) => Some(s@),
        None => None,
    }
}

/// `seq_data` maps the values one by one.
pub proof fn lemma_seq_data(s: Seq<JsonValue>)
    ensures
        seq_data(s).len() == s.len(),
        forall|i: int| 0 <= i < s.len() ==> #[trigger] seq_data(s)[i] == value_data(s[i]),
    decreases s.len(),
{
    if s.len() > 0 {
        lemma_seq_data(s.drop_last());
    }
}

/// Sequences whose values have the same mathematical values have the same data.
pub proof fn lemma_seq_data_same(a: Seq<JsonValue>, b: Seq<JsonValue>)
    requires
        a.len() == b.len(),
        forall|i: int| 0 <= i < a.len() ==> value_data(#[trigger] a[i]) == value_data(b[i]),
    ensures
        seq_data(a) == seq_data(b),
{
    lemma_seq_data(a);
    lemma_seq_data(b);
    assert(seq_data(a) =~= seq_data(b));
}

/// A key that no entry has is not in the map.
pub proof fn lemma_entries_absent(s: Seq<(String, JsonValue)>, k: Seq<char>)
    requires
        forall|j: int| 0 <= j < s.len() ==> (#[trigger] s[j]).0@ != k,
    ensures
        !entries_data(s).contains_key(k),
    decreases s.len(),
{
    if s.len() > 0 {
        lemma_entries_absent(s.drop_last(), k);
    }
}

/// The last entry with a key gives that key's value.
pub proof fn lemma_entries_last(s: Seq<(String, JsonValue)>, k: Seq<char>, i: int)
    requires
        0 <= i < s.len(),
        s[i].0@ == k,
        forall|j: int| i < j < s.len() ==> (#[trigger] s[j]).0@ != k,
    ensures
        entries_data(s).contains_key(k),
        entries_data(s)[k] == value_data(s[i].1),
    decreases s.len(),
{
    if i < s.len() - 1 {
        lemma_entries_last(s.drop_last(), k, i);
    }
}

/// Replacing the last entry with a key by another entry for that key sets the key.
pub proof fn lemma_entries_update(s: Seq<(String, JsonValue)>, i: int, e: (String, JsonValue))
    requires
        0 <= i < s.len(),
        s[i].0@ == e.0@,
        forall|j: int| i < j < s.len() ==> (#[trigger] s[j]).0@ != e.0@,
    ensures
        entries_data(s.update(i, e)) == entries_data(s).insert(e.0@, value_data(e.1)),
    decreases s.len(),
{
    let t = s.update(i, e);
    if i == s.len() - 1 {
        assert(t.drop_last() =~= s.drop_last());
        assert(entries_data(t) =~= entries_data(s).insert(e.0@, value_data(e.1)));
    } else {
        lemma_entries_update(s.drop_last(), i, e);
        assert(t.drop_last() =~= s.drop_last().update(i, e));
        assert(t.last() == s.last());
        assert(entries_data(t) =~= entries_data(s).insert(e.0@, value_data(e.1)));
    }
}

/// The entries up to `i + 1` set one key more than the entries up to `i`.
pub proof fn lemma_entries_take(s: Seq<(String, JsonValue)>, i: int)
    requires
        0 <= i < s.len(),
    ensures
        entries_data(s.take(i + 1)) == entries_data(s.take(i)).insert(
            s[i].0@,
            value_data(s[i].1),
        ),
{
    assert(s.take(i + 1).drop_last() =~= s.take(i));
}

/// Entries with the same keys and the same values stand for the same map.
pub proof fn lemma_entries_same(a: Seq<(String, JsonValue)>, b: Seq<(String, JsonValue)>)
    requires
        a.len() == b.len(),
        forall|i: int|
            0 <= i < a.len() ==> (#[trigger] a[i]).0@ == b[i].0@ && value_data(a[i].1)
                == value_data(b[i].1),
    ensures
        entries_data(a) == entries_data(b),
    decreases a.len(),
{
    if a.len() > 0 {
        lemma_entries_same(a.drop_last(), b.drop_last());
    }
}


impl JsonMap {
    /// An object without members.
    pub fn new() -> (r: JsonMap)
        ensures
            r@ == Map::<Seq<char>, JsonData>::empty(),
    {
        JsonMap { entries: Vec::new() }
    }

    /// The value of member `key`, if the object has it.
    pub fn get(&self, key: &str) -> (r: Option<&JsonValue>)
        ensures
            opt_data(r) == (if self@.contains_key(key@) {
                Some(self@[key@])
            } else {
                None
            }),
    {
        let mut i = self.entries.len();
        while i > 0
            invariant
                i <= self.entries@.len(),
                forall|j: int| i <= j < self.entries@.len() ==> (#[trigger] self.entries@[j]).0@ != key@,
            decreases i,
        {
            i = i - 1;
            if text_eq(self.entries[i].0.as_str(), key) {
                proof {
                    lemma_entries_last(self.entries@, key@, i as int);
                }
                return Some(&self.entries[i].1);
            }
        }
        proof {
            lemma_entries_absent(self.entries@, key@);
        }
        None
    }

    /// Sets member `key` to `value`.
    pub fn insert(&mut self, key: String, value: JsonValue)
        ensures
            final(self)@ == old(self)@.insert(key@, value@),
    {
        let ghost before = self.entries@;
        let mut i = self.entries.len();
        while i > 0
            invariant
                self.entries@ == before,
                before == old(self).entries@,
                i <= before.len(),
                forall|j: int| i <= j < before.len() ==> (#[trigger] before[j]).0@ != key@,
            decreases i,
        {
            i = i - 1;
            if self.entries[i].0 == key {
                let ghost e = (key, value);
                proof {
                    lemma_entries_update(before, i as int, e);
                }
                self.entries.set(i, (key, value));
                assert(self.entries@ == before.update(i as int, e));
                return;
            }
        }
        proof {
            lemma_entries_absent(before, key@);
        }
        self.entries.push((key, value));
        assert(self.entries@.drop_last() =~= before);
    }

    /// Removes every member.
    pub fn clear(&mut self)
        ensures
            final(self)@ == Map::<Seq<char>, JsonData>::empty(),
    {
        self.entries = Vec::new();
    }

    /// Sets every member of `other` in this object, in order.
    pub fn extend_from(&mut self, other: &JsonMap)
        ensures
            final(self)@ == old(self)@.union_prefer_right(other@),
    {
        let ghost start = self@;
        let n = other.entries.len();
        let mut i: usize = 0;
        while i < n
            invariant
                n == other.entries@.len(),
                i <= n,
                self@ == start.union_prefer_right(entries_data(other.entries@.take(i as int))),
            decreases n - i,
        {
            let k = other.entries[i].0.clone();
            let v = other.entries[i].1.duplicate();
            proof {
                lemma_entries_take(other.entries@, i as int);
            }
            self.insert(k, v);
            i = i + 1;
            assert(self@ =~= start.union_prefer_right(entries_data(other.entries@.take(i as int))));
        }
        assert(other.entries@.take(n as int) =~= other.entries@);
    }

    /// A copy of this object.
    pub fn duplicate(&self) -> (r: JsonMap)
        ensures
            r@ == self@,
        decreases self,
    {
        let n = self.entries.len();
        let mut out: Vec<(String, JsonValue)> = Vec::new();
        let mut i: usize = 0;
        while i < n
            invariant
                n == self.entries@.len(),
                i <= n,
                out@.len() == i,
                forall|j: int|
                    0 <= j < i ==> (#[trigger] out@[j]).0@ == self.entries@[j].0@ && value_data(
                        out@[j].1,
                    ) == value_data(self.entries@[j].1),
            decreases n - i,
        {
            let k = self.entries[i].0.clone();
            let v = self.entries[i].1.duplicate();
            out.push((k, v));
            i = i + 1;
        }
        proof {
            lemma_entries_same(out@, self.entries@);
        }
        JsonMap { entries: out }
    }
}

/// Copies of the values, in order.
pub fn duplicate_values(a: &Vec<JsonValue>) -> (r: Vec<JsonValue>)
    ensures
        seq_data(r@) == seq_data(a@),
    decreases a,
{
    let n = a.len();
    let mut out: Vec<JsonValue> = Vec::new();
    let mut i: usize = 0;
    while i < n
        invariant
            n == a@.len(),
            i <= n,
            out@.len() == i,
            forall|j: int| 0 <= j < i ==> value_data(#[trigger] out@[j]) == value_data(a@[j]),
        decreases n - i,
    {
        let v = a[i].duplicate();
        out.push(v);
        i = i + 1;
    }
    proof {
        lemma_seq_data_same(out@, a@);
    }
    out
}

impl JsonValue {
    /// A copy of this value.
    pub fn duplicate(&self) -> (r: JsonValue)
        ensures
            r@ == self@,
        decreases self,
    {
        match self {
            JsonValue::Null => JsonValue::Null,
            JsonValue::Bool(b) => JsonValue::Bool(*b),
            JsonValue::Number(n) => JsonValue::Number(*n),
            JsonValue::String(s) => JsonValue::String(s.clone()),
            JsonValue::Array(a) => JsonValue::Array(duplicate_values(a)),
            JsonValue::Object(m) => JsonValue::Object(m.duplicate()),
        }
    }

    /// The member `key` of this value, when it is an object that has it.
    pub fn get(&self, key: &str) -> (r: Option<&JsonValue>)
        ensures
            opt_data(r) == field(self@, key@),
    {
        match self {
            JsonValue::Object(m) => m.get(key),
            _ => None,
        }
    }

    /// The text of this value, when it is a string.
    pub fn as_str(&self) -> (r: Option<&str>)
        ensures
            opt_text(r) == text_of(self@),
    {
        match self {
            JsonValue::String(s) => Some(s.as_str()),
            _ => None,
        }
    }

    /// The truth value of this value, when it is a boolean.
    pub fn as_bool(&self) -> (r: Option<bool>)
        ensures
            r == bool_of(self@),
    {
        match self {
            JsonValue::Bool(b) => Some(*b),
            _ => None,
        }
    }

    /// The value of this number, when it is a non-negative integer.
    pub fn as_u64(&self) -> (r: Option<u64>)
        ensures
            r == u64_of(self@),
    {
        match self {
            JsonValue::Number(JsonNumber::PosInt(n)) => Some(*n),
            _ => None,
        }
    }

    /// The elements of this value, when it is an array.
    pub fn as_array(&self) -> (r: Option<&Vec<JsonValue>>)
        ensures
            match r {
                Some(a) => array_of(self@) == Some(seq_data(a@)),
                None => array_of(self@) is None,
            },
    {
        match self {
            JsonValue::Array(a) => Some(a),
            _ => None,
        }
    }

    /// The members of this value, when it is an object.
    pub fn as_object(&self) -> (r: Option<&JsonMap>)
        ensures
            match r {
                Some(m) => object_of(self@) == Some(m@),
                None => object_of(self@) is None,
            },
    {
        match self {
            JsonValue::Object(m) => Some(m),
            _ => None,
        }
    }
}

} // verus!
