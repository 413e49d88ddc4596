//! Tagged runtime value type mirroring guest scripting values, and the
//! insertion-ordered string-keyed map used for snapshots, arguments and
//! object values.
//!
//! Numbers carry the IEEE-754 bit pattern of the guest's 64-bit float
//! as a plain 64-bit integer, so value equality is bit-exact and the
//! host side converts to and from its native float representation at
//! the boundary.

use vstd::prelude::*;

verus! {

broadcast use vstd::std_specs::vec::group_vec_axioms;

/// A guest-visible runtime value.
#[derive(Debug, PartialEq)]
pub enum RuntimeValue {
    /// Null value.
    Null,
    /// Boolean value.
    Bool(bool),
    /// Numeric value, held as the bit pattern of a 64-bit IEEE-754 float.
    Number(u64),
    /// String value.
    String(String),
    /// Ordered sequence of values.
    Array(Vec<RuntimeValue>),
    /// String-keyed mapping with insertion order preserved.
    Object(ValueMap),
}

/// Insertion-ordered mapping from string keys to runtime values.
#[derive(Debug, PartialEq)]
pub struct ValueMap {
    /// Key-value pairs in insertion order.
    pub entries: Vec<(String, RuntimeValue)>,
}

/// Mathematical model of a runtime value: strings become character
/// sequences, vectors become sequences, so equality is structural.
#[verifier::ext_equal]
pub enum ValModel {
    /// Null value.
    Null,
    /// Boolean value.
    Bool(bool),
    /// Number as IEEE-754 bit pattern.
    Number(u64),
    /// String as its character sequence.
    String(Seq<char>),
    /// Array of value models.
    Array(Seq<ValModel>),
    /// Object as key/value pairs in insertion order.
    Object(Seq<(Seq<char>, ValModel)>),
}

/// Models of a sequence of values, element by element.
pub open spec fn arr_model(items: Seq<RuntimeValue>) -> Seq<ValModel>
    decreases items,
{
    Seq::new(
        items.len(),
        |i: int|
            if 0 <= i < items.len() {
                items[i].model()
            } else {
                ValModel::Null
            },
    )
}

/// Models of a sequence of key/value entries, element by element.
pub open spec fn entries_model(entries: Seq<(String, RuntimeValue)>) -> Seq<
    (Seq<char>, ValModel),
>
    decreases entries,
{
    Seq::new(
        entries.len(),
        |i: int|
            if 0 <= i < entries.len() {
                (entries[i].0@, entries[i].1.model())
            } else {
                (Seq::empty(), ValModel::Null)
            },
    )
}

impl RuntimeValue {
    /// Model of this value.
    pub open spec fn model(self) -> ValModel
        decreases self,
    {
        match self {
            RuntimeValue::Null => ValModel::Null,
            RuntimeValue::Bool(b) => ValModel::Bool(b),
            RuntimeValue::Number(bits) => ValModel::Number(bits),
            RuntimeValue::String(s) => ValModel::String(s@),
            RuntimeValue::Array(items) => ValModel::Array(arr_model(items@)),
            RuntimeValue::Object(map) => ValModel::Object(map.model()),
        }
    }

    /// Whether this value is null.
    pub fn is_null(&self) -> (r: bool)
        ensures
            r == (self.model() is Null),
    {
        match self {
            RuntimeValue::Null => true,
            _ => false,
        }
    }

    /// The boolean payload, if this value is a boolean.
    pub fn as_bool(&self) -> (r: Option<bool>)
        ensures
            match r {
                Some(b) => self.model() == ValModel::Bool(b),
                None => !(self.model() is Bool),
            },
    {
        match self {
            RuntimeValue::Bool(b) => Some(*b),
            _ => None,
        }
    }

    /// The number's bit pattern, if this value is a number.
    pub fn as_number_bits(&self) -> (r: Option<u64>)
        ensures
            match r {
                Some(bits) => self.model() == ValModel::Number(bits),
                None => !(self.model() is Number),
            },
    {
        match self {
            RuntimeValue::Number(bits) => Some(*bits),
            _ => None,
        }
    }

    /// The string payload, if this value is a string.
    pub fn as_str(&self) -> (r: Option<&str>)
        ensures
            match r {
                Some(s) => self.model() == ValModel::String(s@),
                None => !(self.model() is String),
            },
    {
        match self {
            RuntimeValue::String(s) => Some(s.as_str()),
            _ => None,
        }
    }

    /// The element vector, if this value is an array.
    pub fn as_array(&self) -> (r: Option<&Vec<RuntimeValue>>)
        ensures
            match r {
                Some(items) => self.model() == ValModel::Array(arr_model(items@)),
                None => !(self.model() is Array),
            },
    {
        match self {
            RuntimeValue::Array(items) => Some(items),
            _ => None,
        }
    }

    /// The entry map, if this value is an object.
    pub fn as_object(&self) -> (r: Option<&ValueMap>)
        ensures
            match r {
                Some(map) => self.model() == ValModel::Object(map.model()),
                None => !(self.model() is Object),
            },
    {
        match self {
            RuntimeValue::Object(map) => Some(map),
            _ => None,
        }
    }
}

impl Clone for RuntimeValue {
    /// Deep copy with the same model.
    fn clone(&self) -> (r: Self)
        ensures
            r.model() == self.model(),
        decreases self,
    {
        match self {
            RuntimeValue::Null => RuntimeValue::Null,
            RuntimeValue::Bool(b) => RuntimeValue::Bool(*b),
            RuntimeValue::Number(bits) => RuntimeValue::Number(*bits),
            RuntimeValue::String(s) => RuntimeValue::String(s.clone()),
            RuntimeValue::Array(items) => {
                let n = items.len();
                let mut out: Vec<RuntimeValue> = Vec::new();
                let mut i: usize = 0;
                while i < n
                    invariant
                        i <= n,
                        n == items@.len(),
                        *self == RuntimeValue::Array(*items),
                        out@.len() == i,
                        forall|j: int| 0 <= j < i ==> out@[j].model() == items@[j].model(),
                    decreases n - i,
                {
                    proof {
                        assert(decreases_to!(*self => self->Array_0));
                        assert(decreases_to!(*items => items@));
                        assert(decreases_to!(items@ => items@[i as int]));
                        assert(decreases_to!(*self => items@[i as int]));
                    }
                    out.push(items[i].clone());
                    i += 1;
                }
                let r = RuntimeValue::Array(out);
                assert(arr_model(out@) =~= arr_model(items@));
                r
            },
            RuntimeValue::Object(map) => RuntimeValue::Object(map.clone()),
        }
    }
}

impl Clone for ValueMap {
    /// Deep copy with the same model.
    fn clone(&self) -> (r: Self)
        ensures
            r.model() == self.model(),
        decreases self,
    {
        let n = self.entries.len();
        let mut out: Vec<(String, RuntimeValue)> = Vec::new();
        let mut i: usize = 0;
        while i < n
            invariant
                i <= n,
                n == self.entries@.len(),
                out@.len() == i,
                forall|j: int| 0 <= j < i ==> out@[j].0@ == self.entries@[j].0@
                    && out@[j].1.model() == self.entries@[j].1.model(),
            decreases n - i,
        {
            let pair = (self.entries[i].0.clone(), self.entries[i].1.clone());
            out.push(pair);
            i += 1;
        }
        let r = ValueMap { entries: out };
        assert(r.model() =~= self.model());
        r
    }
}

/// Model lookup in an association sequence: the value at the first
/// matching key, if any.
pub open spec fn assoc_lookup(entries: Seq<(Seq<char>, ValModel)>, key: Seq<char>) -> Option<
    ValModel,
>
    decreases entries.len(),
{
    if entries.len() == 0 {
        None
    } else if entries[0].0 == key {
        Some(entries[0].1)
    } else {
        assoc_lookup(entries.drop_first(), key)
    }
}

/// Whether an association sequence contains a key.
pub open spec fn assoc_contains(entries: Seq<(Seq<char>, ValModel)>, key: Seq<char>) -> bool {
    assoc_lookup(entries, key) is Some
}

impl ValueMap {
    /// Model of this map: key/value pairs in insertion order.
    pub open spec fn model(self) -> Seq<(Seq<char>, ValModel)>
        decreases self,
    {
        entries_model(self.entries@)
    }

    /// Creates an empty map.
    pub fn new() -> (r: ValueMap)
        ensures
            r.model() =~= Seq::<(Seq<char>, ValModel)>::empty(),
    {
        ValueMap { entries: Vec::new() }
    }

    /// Number of entries.
    pub fn len(&self) -> (r: usize)
        ensures
            r == self.model().len(),
    {
        self.entries.len()
    }

    /// Whether the map has no entries.
    pub fn is_empty(&self) -> (r: bool)
        ensures
            r == (self.model().len() == 0),
    {
        self.entries.len() == 0
    }

    /// The value at the first occurrence of `key`, if present.
    pub fn get(&self, key: &str) -> (r: Option<&RuntimeValue>)
        ensures
            match r {
                Some(v) => assoc_lookup(self.model(), key@) == Some(v.model()),
                None => !assoc_contains(self.model(), key@),
            },
    {
        let n = self.entries.len();
        let mut i: usize = 0;
        assert(self.model().subrange(0, n as int) =~= self.model());
        while i < n
            invariant
                i <= n,
                n == self.entries@.len(),
                forall|j: int| 0 <= j < i ==> self.model()[j].0 != key@,
                assoc_lookup(self.model(), key@) == assoc_lookup(
                    self.model().subrange(i as int, n as int),
                    key@,
                ),
            decreases n - i,
        {
            let ghost pre = self.model().subrange(i as int, n as int);
            if crate::text::str_eq(self.entries[i].0.as_str(), key) {
                assert(pre[0].0 == key@);
                assert(pre[0].1 == self.entries@[i as int].1.model());
                return Some(&self.entries[i].1);
            }
            assert(pre[0].0 != key@);
            assert(pre.drop_first() =~= self.model().subrange(i + 1, n as int));
            i += 1;
        }
        assert(self.model().subrange(n as int, n as int) =~= Seq::<
            (Seq<char>, ValModel),
        >::empty());
        None
    }

    /// Whether the map contains `key`.
    pub fn contains_key(&self, key: &str) -> (r: bool)
        ensures
            r == assoc_contains(self.model(), key@),
    {
        match self.get(key) {
            Some(_) => true,
            None => false,
        }
    }

    /// Appends an entry at the end, regardless of duplicates.
    pub fn push(&mut self, key: String, value: RuntimeValue)
        ensures
            final(self).model() =~= old(self).model().push((key@, value.model())),
    {
        self.entries.push((key, value));
    }

    /// The keys, in insertion order.
    pub fn keys(&self) -> (r: Vec<String>)
        ensures
            r@.len() == self.model().len(),
            forall|i: int| 0 <= i < r@.len() ==> r@[i]@ == self.model()[i].0,
    {
        let n = self.entries.len();
        let mut out: Vec<String> = Vec::new();
        let mut i: usize = 0;
        while i < n
            invariant
                i <= n,
                n == self.entries@.len(),
                out@.len() == i,
                forall|j: int| 0 <= j < i ==> out@[j]@ == self.model()[j].0,
            decreases n - i,
        {
            out.push(self.entries[i].0.clone());
            i += 1;
        }
        out
    }
}

} // verus!
