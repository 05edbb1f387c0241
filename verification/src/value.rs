//! The value tree that sits between serde's data model and KDL's tree.

use crate::kdl_bridge::{
    kdl_value_debug_text, kdl_value_view, value_bool, value_clone, value_debug, value_integer,
    value_null, ScalarView,
};
use crate::text::{push_decimal, push_str, spec_decimal, str_debug, str_debug_text};
use kdl::KdlValue;
use vstd::prelude::*;

verus! {

broadcast use vstd::std_specs::vec::axiom_vec_decreases_to_view, vstd::seq::axiom_seq_index_decreases;

/// A serialized value, before it is laid out as KDL nodes.
#[derive(Debug)]
pub enum Value {
    /// `Option::None`: the field is left out.
    Absent,
    /// `()` and unit structs: written as `#null`.
    Null,
    Bool(bool),
    Integer(i128),
    /// A floating-point number, held as the `KdlValue` that writes it.
    Float(KdlValue),
    String(String),
    Sequence(Vec<Value>),
    Mapping(Vec<(String, Value)>),
}

impl Value {
    /// Whether the value is written as a single KDL argument.
    pub open spec fn spec_is_primitive(self) -> bool {
        ||| self is Null
        ||| self is Bool
        ||| self is Integer
        ||| self is Float
        ||| self is String
    }

    /// The KDL scalar that a primitive value other than a string is
    /// written as.
    pub open spec fn spec_scalar(self) -> ScalarView
        recommends
            self.spec_is_primitive(),
            !(self is String),
    {
        match self {
            Value::Bool(b) => ScalarView::Bool(b),
            Value::Integer(i) => ScalarView::Integer(i),
            Value::Float(k) => kdl_value_view(k),
            _ => ScalarView::Null,
        }
    }

    /// Whether the value is written as a single KDL argument.
    pub fn is_primitive(&self) -> (r: bool)
        ensures
            r == self.spec_is_primitive(),
    {
        match self {
            Value::Null | Value::Bool(_) | Value::Integer(_) | Value::Float(_) | Value::String(_) => true,
            _ => false,
        }
    }

    /// The `KdlValue` that a primitive value other than a string is written
    /// as.
    pub fn to_kdl_value(&self) -> (r: Option<KdlValue>)
        requires
            self.spec_is_primitive(),
            !(self is String),
        ensures
            r matches Some(k) && kdl_value_view(k) == self.spec_scalar(),
    {
        match self {
            Value::Null => Some(value_null()),
            Value::Bool(b) => Some(value_bool(*b)),
            Value::Integer(i) => Some(value_integer(*i)),
            Value::Float(f) => Some(value_clone(f)),
            _ => None,
        }
    }
}

/// `"true"` or `"false"`.
pub open spec fn spec_bool_text(b: bool) -> Seq<char> {
    if b {
        "true"@
    } else {
        "false"@
    }
}

/// The text that `{:?}` writes for a value: the variant's name (`None`,
/// `Null`, `Bool`, `Integer`, `Float`, `String`, `Seq`, `Map`) and its
/// contents in brackets.
pub open spec fn spec_debug(v: Value) -> Seq<char>
    decreases v,
{
    match v {
        Value::Absent => "None"@,
        Value::Null => "Null"@,
        Value::Bool(b) => "Bool("@ + spec_bool_text(b) + ")"@,
        Value::Integer(i) => "Integer("@ + spec_decimal(i as int) + ")"@,
        Value::Float(k) => kdl_value_debug_text(k),
        Value::String(s) => "String("@ + str_debug_text(s@) + ")"@,
        Value::Sequence(es) => "Seq(["@ + spec_debug_items(es@) + "])"@,
        Value::Mapping(entries) => "Map(["@ + spec_debug_fields(entries@) + "])"@,
    }
}

/// The items of a sequence as `{:?}` lists them, separated by `, `.
pub open spec fn spec_debug_items(es: Seq<Value>) -> Seq<char>
    decreases es,
{
    if es.len() == 0 {
        seq![]
    } else if es.len() == 1 {
        spec_debug(es[0])
    } else {
        spec_debug_items(es.subrange(0, es.len() - 1)) + ", "@ + spec_debug(es[es.len() - 1])
    }
}

/// The `(key, value)` pairs of a map as `{:?}` lists them, separated by
/// `, `.
pub open spec fn spec_debug_fields(entries: Seq<(String, Value)>) -> Seq<char>
    decreases entries,
{
    if entries.len() == 0 {
        seq![]
    } else {
        let last = entries[entries.len() - 1];
        let pair = "("@ + str_debug_text(last.0@) + ", "@ + spec_debug(last.1) + ")"@;
        if entries.len() == 1 {
            pair
        } else {
            spec_debug_fields(entries.subrange(0, entries.len() - 1)) + ", "@ + pair
        }
    }
}

impl Value {
    /// The text that `{:?}` writes for the value.
    pub fn debug_string(&self) -> (text: String)
        ensures
            text@ == spec_debug(*self),
    {
        let mut text = String::new();
        push_debug(&mut text, self);
        text
    }
}

fn push_debug(out: &mut String, v: &Value)
    ensures
        final(out)@ == old(out)@ + spec_debug(*v),
    decreases v,
{
    let ghost start = out@;
    match v {
        Value::Absent => push_str(out, "None"),
        Value::Null => push_str(out, "Null"),
        Value::Bool(b) => {
            push_str(out, "Bool(");
            if *b {
                push_str(out, "true");
            } else {
                push_str(out, "false");
            }
            push_str(out, ")");
            assert(out@ == start + spec_debug(*v));
        },
        Value::Integer(i) => {
            push_str(out, "Integer(");
            push_decimal(out, *i);
            push_str(out, ")");
            assert(out@ == start + spec_debug(*v));
        },
        Value::Float(k) => {
            let t = value_debug(k);
            push_str(out, t.as_str());
        },
        Value::String(s) => {
            push_str(out, "String(");
            let t = str_debug(s.as_str());
            push_str(out, t.as_str());
            push_str(out, ")");
            assert(out@ == start + spec_debug(*v));
        },
        Value::Sequence(es) => {
            push_str(out, "Seq([");
            let ghost mid = out@;
            for i in 0..es.len()
                invariant
                    *v == Value::Sequence(*es),
                    out@ == mid + spec_debug_items(es@.take(i as int)),
            {
                proof {
                    let t = es@.take(i + 1);
                    assert(t.subrange(0, i as int) == es@.take(i as int));
                    assert(t[i as int] == es@[i as int]);
                    assert(decreases_to!(*v => v->Sequence_0));
                    assert(decreases_to!(v->Sequence_0 => v->Sequence_0@));
                    assert(decreases_to!(v->Sequence_0@ => v->Sequence_0@[i as int]));
                }
                if i > 0 {
                    push_str(out, ", ");
                }
                push_debug(out, &es[i]);
                proof {
                    if i == 0 {
                        assert(es@.take(0) =~= seq![]);
                        assert(mid + seq![] == mid);
                    }
                }
            }
            proof {
                assert(es@.take(es@.len() as int) == es@);
            }
            push_str(out, "])");
            assert(out@ == start + spec_debug(*v));
        },
        Value::Mapping(entries) => {
            push_str(out, "Map([");
            let ghost mid = out@;
            for i in 0..entries.len()
                invariant
                    *v == Value::Mapping(*entries),
                    out@ == mid + spec_debug_fields(entries@.take(i as int)),
            {
                proof {
                    let t = entries@.take(i + 1);
                    assert(t.subrange(0, i as int) == entries@.take(i as int));
                    assert(t[i as int] == entries@[i as int]);
                    assert(decreases_to!(*v => v->Mapping_0));
                    assert(decreases_to!(v->Mapping_0 => v->Mapping_0@));
                    assert(decreases_to!(v->Mapping_0@ => v->Mapping_0@[i as int]));
                }
                let ghost before = out@;
                if i > 0 {
                    push_str(out, ", ");
                }
                let ghost sep = out@;
                let entry = &entries[i];
                push_str(out, "(");
                let t = str_debug(entry.0.as_str());
                push_str(out, t.as_str());
                push_str(out, ", ");
                push_debug(out, &entry.1);
                push_str(out, ")");
                proof {
                    let last = entries@[i as int];
                    let pair = "("@ + str_debug_text(last.0@) + ", "@ + spec_debug(last.1) + ")"@;
                    assert(out@ == sep + pair);
                    if i == 0 {
                        assert(entries@.take(0) =~= seq![]);
                        assert(mid + seq![] == mid);
                    }
                }
            }
            proof {
                assert(entries@.take(entries@.len() as int) == entries@);
            }
            push_str(out, "])");
            assert(out@ == start + spec_debug(*v));
        },
    }
}

} // verus!
