//! The steps by which serde's data model is turned into a [`Value`].
//!
//! Each method here is one step of serde's `Serializer` protocol; where serde
//! hands over a nested value, these steps take the `Value` that serializing
//! it produced.

use crate::error::Error;
use crate::text::{decimal_string, push_char, push_str, spec_decimal};
use crate::value::{spec_bool_text, spec_debug, Value};
use vstd::prelude::*;

verus! {

/// The serializer whose output is a [`Value`].
pub struct ValueSerializer;

/// Whether a field value is left out of a struct: `None`, and (as for
/// `()` and unit structs) a null.
pub open spec fn spec_is_omitted_field(v: Value) -> bool {
    v is Absent || v is Null
}

impl ValueSerializer {
    pub fn serialize_bool(self, v: bool) -> (r: Result<Value, Error>)
        ensures
            r == Ok::<Value, Error>(Value::Bool(v)),
    {
        Ok(Value::Bool(v))
    }

    pub fn serialize_i8(self, v: i8) -> (r: Result<Value, Error>)
        ensures
            r == Ok::<Value, Error>(Value::Integer(v as i128)),
    {
        Ok(Value::Integer(v as i128))
    }

    pub fn serialize_i16(self, v: i16) -> (r: Result<Value, Error>)
        ensures
            r == Ok::<Value, Error>(Value::Integer(v as i128)),
    {
        Ok(Value::Integer(v as i128))
    }

    pub fn serialize_i32(self, v: i32) -> (r: Result<Value, Error>)
        ensures
            r == Ok::<Value, Error>(Value::Integer(v as i128)),
    {
        Ok(Value::Integer(v as i128))
    }

    pub fn serialize_i64(self, v: i64) -> (r: Result<Value, Error>)
        ensures
            r == Ok::<Value, Error>(Value::Integer(v as i128)),
    {
        Ok(Value::Integer(v as i128))
    }

    pub fn serialize_i128(self, v: i128) -> (r: Result<Value, Error>)
        ensures
            r == Ok::<Value, Error>(Value::Integer(v)),
    {
        Ok(Value::Integer(v))
    }

    pub fn serialize_u8(self, v: u8) -> (r: Result<Value, Error>)
        ensures
            r == Ok::<Value, Error>(Value::Integer(v as i128)),
    {
        Ok(Value::Integer(v as i128))
    }

    pub fn serialize_u16(self, v: u16) -> (r: Result<Value, Error>)
        ensures
            r == Ok::<Value, Error>(Value::Integer(v as i128)),
    {
        Ok(Value::Integer(v as i128))
    }

    pub fn serialize_u32(self, v: u32) -> (r: Result<Value, Error>)
        ensures
            r == Ok::<Value, Error>(Value::Integer(v as i128)),
    {
        Ok(Value::Integer(v as i128))
    }

    pub fn serialize_u64(self, v: u64) -> (r: Result<Value, Error>)
        ensures
            r == Ok::<Value, Error>(Value::Integer(v as i128)),
    {
        Ok(Value::Integer(v as i128))
    }

    /// A `u128` above `i128::MAX` is refused; the error carries the value
    /// wrapped into `i128`, that is the value less 2^128.
    pub fn serialize_u128(self, v: u128) -> (r: Result<Value, Error>)
        ensures
            v <= i128::MAX ==> r == Ok::<Value, Error>(Value::Integer(v as i128)),
            v > i128::MAX ==> r == Err::<Value, Error>(Error::IntegerOutOfRange(v as i128)),
            v > i128::MAX ==> v as i128 == v - 0x1_0000_0000_0000_0000_0000_0000_0000_0000int,
    {
        if v <= 0x7fff_ffff_ffff_ffff_ffff_ffff_ffff_ffffu128 {
            Ok(Value::Integer(v as i128))
        } else {
            assert(v as i128 == v - 0x1_0000_0000_0000_0000_0000_0000_0000_0000int) by (bit_vector)
                requires
                    v > 0x7fff_ffff_ffff_ffff_ffff_ffff_ffff_ffffu128,
            ;
            Err(Error::IntegerOutOfRange(v as i128))
        }
    }

    pub fn serialize_char(self, v: char) -> (r: Result<Value, Error>)
        ensures
            r matches Ok(Value::String(s)) && s@ == seq![v],
    {
        let mut s = String::new();
        push_char(&mut s, v);
        Ok(Value::String(s))
    }

    pub fn serialize_str(self, v: &str) -> (r: Result<Value, Error>)
        ensures
            r matches Ok(Value::String(s)) && s@ == v@,
    {
        Ok(Value::String(v.to_owned()))
    }

    /// Bytes become a sequence of integers.
    pub fn serialize_bytes(self, v: &[u8]) -> (r: Result<Value, Error>)
        ensures
            r matches Ok(Value::Sequence(es)) && es@.len() == v@.len() && forall|i: int|
                0 <= i < v@.len() ==> es@[i] == Value::Integer(#[trigger] v@[i] as i128),
    {
        let mut es: Vec<Value> = Vec::new();
        for i in 0..v.len()
            invariant
                es@.len() == i,
                forall|j: int| 0 <= j < i ==> es@[j] == Value::Integer(#[trigger] v@[j] as i128),
        {
            es.push(Value::Integer(v[i] as i128));
        }
        Ok(Value::Sequence(es))
    }

    pub fn serialize_none(self) -> (r: Result<Value, Error>)
        ensures
            r == Ok::<Value, Error>(Value::Absent),
    {
        Ok(Value::Absent)
    }

    pub fn serialize_unit(self) -> (r: Result<Value, Error>)
        ensures
            r == Ok::<Value, Error>(Value::Null),
    {
        Ok(Value::Null)
    }

    pub fn serialize_unit_struct(self, _name: &str) -> (r: Result<Value, Error>)
        ensures
            r == Ok::<Value, Error>(Value::Null),
    {
        Ok(Value::Null)
    }

    /// A unit variant becomes its name as a string.
    pub fn serialize_unit_variant(self, _name: &str, _variant_index: u32, variant: &str) -> (r:
        Result<Value, Error>)
        ensures
            r matches Ok(Value::String(s)) && s@ == variant@,
    {
        Ok(Value::String(variant.to_owned()))
    }

    /// A newtype variant becomes a map with one field, named after the
    /// variant, holding the inner value.
    pub fn serialize_newtype_variant(
        self,
        _name: &str,
        _variant_index: u32,
        variant: &str,
        value: Value,
    ) -> (r: Result<Value, Error>)
        ensures
            r matches Ok(Value::Mapping(entries)) && entries@.len() == 1 && entries@[0].0@
                == variant@ && entries@[0].1 == value,
    {
        let entries = vec![(variant.to_owned(), value)];
        Ok(Value::Mapping(entries))
    }

    pub fn serialize_seq(self, len: Option<usize>) -> (r: Result<SerializeSeq, Error>)
        ensures
            r matches Ok(s) && s@ == Seq::<Value>::empty(),
    {
        let capacity = match len {
            Some(n) => n,
            None => 0,
        };
        Ok(SerializeSeq { elements: Vec::with_capacity(capacity) })
    }

    pub fn serialize_tuple(self, len: usize) -> (r: Result<SerializeSeq, Error>)
        ensures
            r matches Ok(s) && s@ == Seq::<Value>::empty(),
    {
        self.serialize_seq(Some(len))
    }

    pub fn serialize_tuple_struct(self, _name: &str, len: usize) -> (r: Result<SerializeSeq, Error>)
        ensures
            r matches Ok(s) && s@ == Seq::<Value>::empty(),
    {
        self.serialize_seq(Some(len))
    }

    pub fn serialize_tuple_variant(
        self,
        _name: &str,
        _variant_index: u32,
        variant: &str,
        len: usize,
    ) -> (r: Result<SerializeTupleVariant, Error>)
        ensures
            r matches Ok(s) && s@ == (variant@, Seq::<Value>::empty()),
    {
        Ok(SerializeTupleVariant { variant: variant.to_owned(), elements: Vec::with_capacity(len) })
    }

    pub fn serialize_map(self, len: Option<usize>) -> (r: Result<SerializeMap, Error>)
        ensures
            r matches Ok(m) && m@ == (Seq::<(String, Value)>::empty(), Option::<Seq<char>>::None),
    {
        let capacity = match len {
            Some(n) => n,
            None => 0,
        };
        Ok(SerializeMap { entries: Vec::with_capacity(capacity), current_key: None })
    }

    pub fn serialize_struct(self, _name: &str, len: usize) -> (r: Result<SerializeMap, Error>)
        ensures
            r matches Ok(m) && m@ == (Seq::<(String, Value)>::empty(), Option::<Seq<char>>::None),
    {
        self.serialize_map(Some(len))
    }

    pub fn serialize_struct_variant(
        self,
        _name: &str,
        _variant_index: u32,
        variant: &str,
        len: usize,
    ) -> (r: Result<SerializeStructVariant, Error>)
        ensures
            r matches Ok(s) && s@ == (variant@, Seq::<(String, Value)>::empty()),
    {
        Ok(SerializeStructVariant { variant: variant.to_owned(), entries: Vec::with_capacity(len) })
    }
}

/// The items of a sequence, tuple or tuple struct collected so far.
pub struct SerializeSeq {
    elements: Vec<Value>,
}

impl View for SerializeSeq {
    type V = Seq<Value>;

    closed spec fn view(&self) -> Seq<Value> {
        self.elements@
    }
}

impl SerializeSeq {
    pub fn serialize_element(&mut self, value: Value) -> (r: Result<(), Error>)
        ensures
            r is Ok,
            final(self)@ == old(self)@.push(value),
    {
        self.elements.push(value);
        Ok(())
    }

    pub fn serialize_field(&mut self, value: Value) -> (r: Result<(), Error>)
        ensures
            r is Ok,
            final(self)@ == old(self)@.push(value),
    {
        self.serialize_element(value)
    }

    /// The sequence of the items, in order.
    pub fn end(self) -> (r: Result<Value, Error>)
        ensures
            r matches Ok(Value::Sequence(es)) && es@ == self@,
    {
        Ok(Value::Sequence(self.elements))
    }
}

/// A tuple variant's name and the fields collected so far.
pub struct SerializeTupleVariant {
    variant: String,
    elements: Vec<Value>,
}

impl View for SerializeTupleVariant {
    type V = (Seq<char>, Seq<Value>);

    closed spec fn view(&self) -> (Seq<char>, Seq<Value>) {
        (self.variant@, self.elements@)
    }
}

impl SerializeTupleVariant {
    pub fn serialize_field(&mut self, value: Value) -> (r: Result<(), Error>)
        ensures
            r is Ok,
            final(self)@ == (old(self)@.0, old(self)@.1.push(value)),
    {
        self.elements.push(value);
        Ok(())
    }

    /// A map with one field, named after the variant, holding the sequence
    /// of the fields.
    pub fn end(self) -> (r: Result<Value, Error>)
        ensures
            r matches Ok(Value::Mapping(entries)) && entries@.len() == 1 && entries@[0].0@
                == self@.0 && (entries@[0].1 matches Value::Sequence(es) && es@ == self@.1),
    {
        let entries = vec![(self.variant, Value::Sequence(self.elements))];
        Ok(Value::Mapping(entries))
    }
}

/// The entries of a map or struct collected so far, and the key that waits
/// for its value.
pub struct SerializeMap {
    entries: Vec<(String, Value)>,
    current_key: Option<String>,
}

impl View for SerializeMap {
    type V = (Seq<(String, Value)>, Option<Seq<char>>);

    closed spec fn view(&self) -> (Seq<(String, Value)>, Option<Seq<char>>) {
        (
            self.entries@,
            match self.current_key {
                Some(k) => Some(k@),
                None => None,
            },
        )
    }
}

impl SerializeMap {
    /// Sets the key for the next value. Strings are keys as they are,
    /// integers in decimal, booleans as `true`/`false`; any other key is
    /// refused and the map is left as it was.
    pub fn serialize_key(&mut self, key: Value) -> (r: Result<(), Error>)
        ensures
            final(self)@.0 == old(self)@.0,
            match key {
                Value::String(s) => r is Ok && final(self)@.1 == Some(s@),
                Value::Integer(i) => r is Ok && final(self)@.1 == Some(spec_decimal(i as int)),
                Value::Bool(b) => r is Ok && final(self)@.1 == Some(spec_bool_text(b)),
                _ => {
                    &&& final(self)@.1 == old(self)@.1
                    &&& r matches Err(Error::Unsupported(msg)) && msg@ == "map key must be a string, got "@
                        + spec_debug(key)
                },
            },
    {
        let key_str = match key {
            Value::String(s) => s,
            Value::Integer(i) => decimal_string(i),
            Value::Bool(b) => {
                if b {
                    "true".to_owned()
                } else {
                    "false".to_owned()
                }
            },
            other => {
                let mut msg = "map key must be a string, got ".to_owned();
                let shown = other.debug_string();
                push_str(&mut msg, shown.as_str());
                return Err(Error::Unsupported(msg));
            },
        };
        self.current_key = Some(key_str);
        Ok(())
    }

    /// Takes the key that waits for its value; with no waiting key the value
    /// step is refused. Either way no key waits afterwards.
    pub fn take_key(&mut self) -> (r: Result<String, Error>)
        ensures
            final(self)@.0 == old(self)@.0,
            final(self)@.1 == Option::<Seq<char>>::None,
            match old(self)@.1 {
                Some(k) => r matches Ok(key) && key@ == k,
                None => r matches Err(Error::Message(msg)) && msg@
                    == "serialize_value called before serialize_key"@,
            },
    {
        match self.current_key.take() {
            Some(k) => Ok(k),
            None => Err(Error::Message("serialize_value called before serialize_key".to_owned())),
        }
    }

    /// Adds `value` under `key`, unless the value is `None`.
    pub fn insert_value(&mut self, key: String, value: Value) -> (r: Result<(), Error>)
        ensures
            r is Ok,
            final(self)@.1 == old(self)@.1,
            final(self)@.0 == if value is Absent {
                old(self)@.0
            } else {
                old(self)@.0.push((key, value))
            },
    {
        let absent = match value {
            Value::Absent => true,
            _ => false,
        };
        if !absent {
            self.entries.push((key, value));
        }
        Ok(())
    }

    /// Adds the value for the waiting key, unless the value is `None`; with
    /// no waiting key it is refused.
    pub fn serialize_value(&mut self, value: Value) -> (r: Result<(), Error>)
        ensures
            match old(self)@.1 {
                Some(k) => r is Ok && final(self)@.1 == Option::<Seq<char>>::None && if value is Absent {
                    final(self)@.0 == old(self)@.0
                } else {
                    final(self)@.0.len() == old(self)@.0.len() + 1
                        && final(self)@.0.subrange(0, old(self)@.0.len() as int) == old(self)@.0
                        && final(self)@.0.last().0@ == k && final(self)@.0.last().1 == value
                },
                None => {
                    &&& final(self)@ == old(self)@
                    &&& r matches Err(Error::Message(msg)) && msg@
                        == "serialize_value called before serialize_key"@
                },
            },
    {
        let key = self.take_key()?;
        let r = self.insert_value(key, value);
        proof {
            if !(value is Absent) {
                assert(self@.0.subrange(0, old(self)@.0.len() as int) =~= old(self)@.0);
            }
        }
        r
    }

    /// Adds a struct field, unless its value is `None` or null.
    pub fn serialize_field(&mut self, key: &str, value: Value) -> (r: Result<(), Error>)
        ensures
            r is Ok,
            final(self)@.1 == old(self)@.1,
            if spec_is_omitted_field(value) {
                final(self)@.0 == old(self)@.0
            } else {
                final(self)@.0.len() == old(self)@.0.len() + 1
                    && final(self)@.0.subrange(0, old(self)@.0.len() as int) == old(self)@.0
                    && final(self)@.0.last().0@ == key@ && final(self)@.0.last().1 == value
            },
    {
        let omitted = match value {
            Value::Absent | Value::Null => true,
            _ => false,
        };
        if !omitted {
            self.entries.push((key.to_owned(), value));
        }
        Ok(())
    }

    /// The map of the entries, in order.
    pub fn end(self) -> (r: Result<Value, Error>)
        ensures
            r matches Ok(Value::Mapping(entries)) && entries@ == self@.0,
    {
        Ok(Value::Mapping(self.entries))
    }
}

/// A struct variant's name and the fields collected so far.
pub struct SerializeStructVariant {
    variant: String,
    entries: Vec<(String, Value)>,
}

impl View for SerializeStructVariant {
    type V = (Seq<char>, Seq<(String, Value)>);

    closed spec fn view(&self) -> (Seq<char>, Seq<(String, Value)>) {
        (self.variant@, self.entries@)
    }
}

impl SerializeStructVariant {
    /// Adds a field, unless its value is `None`.
    pub fn serialize_field(&mut self, key: &str, value: Value) -> (r: Result<(), Error>)
        ensures
            r is Ok,
            final(self)@.0 == old(self)@.0,
            if value is Absent {
                final(self)@.1 == old(self)@.1
            } else {
                final(self)@.1.len() == old(self)@.1.len() + 1
                    && final(self)@.1.subrange(0, old(self)@.1.len() as int) == old(self)@.1
                    && final(self)@.1.last().0@ == key@ && final(self)@.1.last().1 == value
            },
    {
        let omitted = match value {
            Value::Absent => true,
            _ => false,
        };
        if !omitted {
            self.entries.push((key.to_owned(), value));
        }
        Ok(())
    }

    /// A map with one field, named after the variant, holding the map of
    /// the fields.
    pub fn end(self) -> (r: Result<Value, Error>)
        ensures
            r matches Ok(Value::Mapping(entries)) && entries@.len() == 1 && entries@[0].0@
                == self@.0 && (entries@[0].1 matches Value::Mapping(fields) && fields@ == self@.1),
    {
        let entries = vec![(self.variant, Value::Mapping(self.entries))];
        Ok(Value::Mapping(entries))
    }
}

} // verus!
