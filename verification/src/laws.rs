//! Properties of the KDL layout that hold for every value.

use crate::kdl_bridge::{
    kdl_value_view, NodeFormatView, ScalarView,
    autoformat_node, autoformat_node_format, autoformat_nodes, EntryFormatView, EntryView, NodeView,
};
use crate::ser::{
    spec_all_maps, spec_all_primitive, spec_arg_entry, spec_dash_nodes, spec_fields_nodes,
    spec_document, spec_node, spec_nodes, spec_parent, spec_repeated_nodes, spec_string_entry,
};
use crate::error::Error;
use crate::escape::spec_needs_escape;
use crate::serializer::spec_is_omitted_field;
use crate::value::Value;
use vstd::prelude::*;

verus! {

/// A field holding a primitive (null, boolean, integer, float or string)
/// is written as one node named after the field, with the value as its only
/// argument and no children.
pub proof fn lemma_primitive_field_is_one_argument(name: Seq<char>, v: Value)
    requires
        v.spec_is_primitive(),
    ensures
        spec_nodes(name, v) == seq![spec_node(name, seq![spec_arg_entry(v)], None)],
{
}

/// A field holding a struct or map is written as one node named after the
/// field, without arguments, whose children are the nodes of the inner
/// fields.
pub proof fn lemma_struct_field_is_children_block(name: Seq<char>, entries: Vec<(String, Value)>)
    ensures
        spec_nodes(name, Value::Mapping(entries)) == seq![
            spec_node(name, seq![], Some(spec_fields_nodes(entries@))),
        ],
{
}

/// The document of a struct or map holds exactly the nodes of its fields,
/// in order (those that the same fields give as a children block); any
/// other top-level value is refused with `TopLevelNotStruct`.
pub proof fn lemma_document_is_the_fields(v: Value)
    ensures
        match v {
            Value::Mapping(entries) => spec_document(v) == Ok::<Seq<NodeView>, Error>(
                spec_fields_nodes(entries@),
            ),
            _ => spec_document(v) == Err::<Seq<NodeView>, Error>(Error::TopLevelNotStruct),
        },
{
}

proof fn lemma_repeated_nodes_shape(name: Seq<char>, es: Seq<Value>)
    ensures
        spec_repeated_nodes(name, es).len() == es.len(),
        forall|i: int|
            0 <= i < es.len() ==> #[trigger] spec_repeated_nodes(name, es)[i] == match es[i] {
                Value::Mapping(entries) => spec_parent(name, spec_fields_nodes(entries@)),
                _ => spec_parent(name, seq![]),
            },
    decreases es.len(),
{
    if es.len() > 0 {
        let init = es.subrange(0, es.len() - 1);
        lemma_repeated_nodes_shape(name, init);
        assert forall|i: int| 0 <= i < es.len() - 1 implies es[i] == #[trigger] init[i] by {}
    }
}

/// Every node written for a field carries the field's name, and a field
/// always gives at least one node.
pub proof fn lemma_nodes_are_named(name: Seq<char>, v: Value)
    ensures
        spec_nodes(name, v).len() >= 1,
        forall|i: int|
            0 <= i < spec_nodes(name, v).len() ==> (#[trigger] spec_nodes(name, v)[i]).name == name,
{
    if let Value::Sequence(es) = v {
        if es@.len() > 0 && !spec_all_primitive(es@) && spec_all_maps(es@) {
            lemma_repeated_nodes_shape(name, es@);
        }
    }
}

/// A non-empty sequence whose items are all primitives is written as a
/// single node with one argument per item, in order, and no children.
pub proof fn lemma_primitive_sequence_is_one_node(name: Seq<char>, es: Vec<Value>)
    requires
        es@.len() > 0,
        spec_all_primitive(es@),
    ensures
        spec_nodes(name, Value::Sequence(es)).len() == 1,
        spec_nodes(name, Value::Sequence(es))[0].children is None,
        spec_nodes(name, Value::Sequence(es))[0].entries.len() == es@.len(),
        forall|i: int|
            0 <= i < es@.len() ==> #[trigger] spec_nodes(name, Value::Sequence(es))[0].entries[i]
                == spec_arg_entry(es@[i]),
{
}

/// A non-empty sequence of structs or maps is written as one node per
/// item, each with the sequence's name and the item's fields as children.
pub proof fn lemma_struct_sequence_is_repeated_nodes(name: Seq<char>, es: Vec<Value>)
    requires
        es@.len() > 0,
        spec_all_maps(es@),
    ensures
        spec_nodes(name, Value::Sequence(es)).len() == es@.len(),
        forall|i: int|
            0 <= i < es@.len() ==> {
                let n = #[trigger] spec_nodes(name, Value::Sequence(es))[i];
                &&& n.name == name
                &&& n.entries.len() == 0
                &&& n.children == Some(spec_fields_nodes(es@[i]->Mapping_0@))
            },
{
    assert(es@[0] is Mapping);
    assert(!es@[0].spec_is_primitive());
    lemma_repeated_nodes_shape(name, es@);
    assert forall|i: int| 0 <= i < es@.len() implies {
        let n = #[trigger] spec_nodes(name, Value::Sequence(es))[i];
        &&& n.name == name
        &&& n.entries.len() == 0
        &&& n.children == Some(spec_fields_nodes(es@[i]->Mapping_0@))
    } by {
        assert(es@[i] is Mapping);
    }
}

proof fn lemma_dash_nodes_are_dashes(es: Seq<Value>)
    ensures
        forall|i: int|
            0 <= i < spec_dash_nodes(es).len() ==> (#[trigger] spec_dash_nodes(es)[i]).name
                == seq!['-'],
    decreases es.len(),
{
    if es.len() > 0 {
        let init = es.subrange(0, es.len() - 1);
        lemma_dash_nodes_are_dashes(init);
        lemma_nodes_are_named(seq!['-'], es[es.len() - 1]);
        let a = spec_dash_nodes(init);
        let b = spec_nodes(seq!['-'], es[es.len() - 1]);
        assert forall|i: int| 0 <= i < (a + b).len() implies (#[trigger] (a + b)[i]).name
            == seq!['-'] by {
            if i >= a.len() {
                assert((a + b)[i] == b[i - a.len()]);
            }
        }
    }
}

/// A sequence that is neither empty, nor all primitives, nor all structs
/// is written as a single node without arguments whose children are the
/// items, each written as `-` nodes, in order.
pub proof fn lemma_mixed_sequence_uses_dash_children(name: Seq<char>, es: Vec<Value>)
    requires
        es@.len() > 0,
        !spec_all_primitive(es@),
        !spec_all_maps(es@),
    ensures
        spec_nodes(name, Value::Sequence(es)) == seq![spec_parent(name, spec_dash_nodes(es@))],
        forall|i: int|
            0 <= i < spec_dash_nodes(es@).len() ==> (#[trigger] spec_dash_nodes(es@)[i]).name
                == seq!['-'],
{
    lemma_dash_nodes_are_dashes(es@);
}

/// An empty sequence is written as a node with an empty children block.
pub proof fn lemma_empty_sequence_is_empty_block(name: Seq<char>, es: Vec<Value>)
    requires
        es@.len() == 0,
    ensures
        spec_nodes(name, Value::Sequence(es)) == seq![spec_parent(name, seq![])],
{
}

/// The fields of a struct are written one after the other: the nodes for
/// `a` followed by `b` are the nodes for `a` followed by those for `b`.
pub proof fn lemma_fields_concatenate(a: Seq<(String, Value)>, b: Seq<(String, Value)>)
    ensures
        spec_fields_nodes(a + b) == spec_fields_nodes(a) + spec_fields_nodes(b),
    decreases b.len(),
{
    if b.len() == 0 {
        assert(a + b == a);
    } else {
        let b0 = b.subrange(0, b.len() - 1);
        lemma_fields_concatenate(a, b0);
        assert((a + b).subrange(0, (a + b).len() - 1) == a + b0);
        assert((a + b)[(a + b).len() - 1] == b[b.len() - 1]);
    }
}

/// The entry with its format's keep mark cleared.
pub open spec fn unmark_entry(e: EntryView) -> EntryView {
    EntryView {
        value: e.value,
        name: e.name,
        ty: e.ty,
        format: match e.format {
            Some(f) => Some(EntryFormatView { repr: f.repr, leading: f.leading, keep: false }),
            None => None,
        },
    }
}

/// The node with every keep mark in it cleared and its own formatting
/// made the pretty one, children included.
pub open spec fn unmark_node(n: NodeView) -> NodeView
    decreases n, 1int,
{
    NodeView {
        name: n.name,
        ty: n.ty,
        entries: n.entries.map_values(|e: EntryView| unmark_entry(e)),
        children: match n.children {
            Some(cs) => Some(unmark_nodes(cs)),
            None => None,
        },
        format: autoformat_node_format(n.format),
    }
}

/// The nodes with every keep mark in them cleared and their formatting
/// made the pretty one.
pub open spec fn unmark_nodes(ns: Seq<NodeView>) -> Seq<NodeView>
    decreases ns, 0int,
{
    if ns.len() == 0 {
        ns
    } else {
        unmark_nodes(ns.drop_last()).push(unmark_node(ns.last()))
    }
}

/// Every entry that has a format has it marked to be kept.
pub open spec fn entries_kept(es: Seq<EntryView>) -> bool {
    forall|i: int| 0 <= i < es.len() ==> ((#[trigger] es[i]).format matches Some(f) ==> f.keep)
}

/// Every entry in the node (children included) that has a format has it
/// marked to be kept.
pub open spec fn node_kept(n: NodeView) -> bool
    decreases n, 1int,
{
    &&& entries_kept(n.entries)
    &&& match n.children {
        Some(cs) => nodes_kept(cs),
        None => true,
    }
}

/// Every entry in the nodes that has a format has it marked to be kept.
pub open spec fn nodes_kept(ns: Seq<NodeView>) -> bool
    decreases ns, 0int,
{
    if ns.len() == 0 {
        true
    } else {
        nodes_kept(ns.drop_last()) && node_kept(ns.last())
    }
}

proof fn lemma_autoformat_kept_node(n: NodeView)
    requires
        node_kept(n),
    ensures
        autoformat_node(n) == unmark_node(n),
    decreases n, 1int,
{
    assert(n.entries.map_values(|e: EntryView| crate::kdl_bridge::autoformat_entry(e))
        =~= n.entries.map_values(|e: EntryView| unmark_entry(e)));
    if let Some(cs) = n.children {
        lemma_autoformat_kept_nodes(cs);
    }
}

proof fn lemma_autoformat_kept_nodes(ns: Seq<NodeView>)
    requires
        nodes_kept(ns),
    ensures
        autoformat_nodes(ns) == unmark_nodes(ns),
    decreases ns, 0int,
{
    if ns.len() > 0 {
        lemma_autoformat_kept_nodes(ns.drop_last());
        lemma_autoformat_kept_node(ns.last());
    }
}

proof fn lemma_kept_concat(a: Seq<NodeView>, b: Seq<NodeView>)
    requires
        nodes_kept(a),
        nodes_kept(b),
    ensures
        nodes_kept(a + b),
    decreases b.len(),
{
    if b.len() == 0 {
        assert(a + b == a);
    } else {
        lemma_kept_concat(a, b.drop_last());
        assert((a + b).drop_last() == a + b.drop_last());
        assert((a + b).last() == b.last());
    }
}

proof fn lemma_kept_single(n: NodeView)
    requires
        node_kept(n),
    ensures
        nodes_kept(seq![n]),
{
    assert(seq![n].drop_last() =~= Seq::<NodeView>::empty());
    assert(nodes_kept(Seq::<NodeView>::empty()));
    assert(seq![n].last() == n);
}

proof fn lemma_value_nodes_kept(name: Seq<char>, v: Value)
    ensures
        nodes_kept(spec_nodes(name, v)),
    decreases v, 0int,
{
    match v {
        Value::Sequence(es) => {
            if es@.len() == 0 {
                lemma_kept_single(spec_parent(name, seq![]));
            } else if spec_all_primitive(es@) {
                let n = spec_nodes(name, v)[0];
                assert forall|i: int| 0 <= i < n.entries.len() implies ((#[trigger] n.entries[i]).format
                    matches Some(f) ==> f.keep) by {
                    assert(n.entries[i] == spec_arg_entry(es@[i]));
                }
                lemma_kept_single(n);
            } else if spec_all_maps(es@) {
                lemma_repeated_kept(name, es@);
            } else {
                lemma_dash_kept(es@);
                lemma_kept_single(spec_parent(name, spec_dash_nodes(es@)));
            }
        },
        Value::Mapping(entries) => {
            lemma_fields_kept(entries@);
            lemma_kept_single(spec_parent(name, spec_fields_nodes(entries@)));
        },
        _ => {
            let n = spec_nodes(name, v)[0];
            lemma_kept_single(n);
        },
    }
}

proof fn lemma_fields_kept(entries: Seq<(String, Value)>)
    ensures
        nodes_kept(spec_fields_nodes(entries)),
    decreases entries, 0int,
{
    if entries.len() > 0 {
        lemma_fields_kept(entries.subrange(0, entries.len() - 1));
        lemma_value_nodes_kept(entries[entries.len() - 1].0@, entries[entries.len() - 1].1);
        lemma_kept_concat(
            spec_fields_nodes(entries.subrange(0, entries.len() - 1)),
            spec_nodes(entries[entries.len() - 1].0@, entries[entries.len() - 1].1),
        );
    }
}

proof fn lemma_dash_kept(es: Seq<Value>)
    ensures
        nodes_kept(spec_dash_nodes(es)),
    decreases es, 0int,
{
    if es.len() > 0 {
        lemma_dash_kept(es.subrange(0, es.len() - 1));
        lemma_value_nodes_kept(seq!['-'], es[es.len() - 1]);
        lemma_kept_concat(
            spec_dash_nodes(es.subrange(0, es.len() - 1)),
            spec_nodes(seq!['-'], es[es.len() - 1]),
        );
    }
}

proof fn lemma_repeated_kept(name: Seq<char>, es: Seq<Value>)
    ensures
        nodes_kept(spec_repeated_nodes(name, es)),
    decreases es, 0int,
{
    if es.len() > 0 {
        let init = es.subrange(0, es.len() - 1);
        lemma_repeated_kept(name, init);
        let last = es[es.len() - 1];
        let node = match last {
            Value::Mapping(entries) => {
                lemma_fields_kept(entries@);
                spec_parent(name, spec_fields_nodes(entries@))
            },
            _ => {
                assert(nodes_kept(Seq::<NodeView>::empty()));
                spec_parent(name, seq![])
            },
        };
        assert(entries_kept(node.entries));
        assert(node_kept(node));
        let ns = spec_repeated_nodes(name, es);
        assert(ns.drop_last() == spec_repeated_nodes(name, init));
        assert(ns.last() == node);
    }
}

/// Pretty printing changes nothing that the model holds but node formatting
/// and the marks that keep hand-escaped strings from being reformatted: the
/// document that `to_string_pretty` writes for a struct has the same nodes,
/// names, arguments and escaped string texts as the one `to_string` writes.
pub proof fn lemma_pretty_keeps_escapes(entries: Seq<(String, Value)>)
    ensures
        autoformat_nodes(spec_fields_nodes(entries)) == unmark_nodes(spec_fields_nodes(entries)),
{
    lemma_fields_kept(entries);
    lemma_autoformat_kept_nodes(spec_fields_nodes(entries));
}

/// A field holding a primitive is written as one freshly made node named
/// after the field, without type annotation or children, whose only entry
/// is a positional argument holding exactly the field's value: the integer
/// itself, the boolean itself, `#null`, the string's characters, or the
/// float's `KdlValue`.
pub proof fn lemma_primitive_field_holds_its_value(name: Seq<char>, v: Value)
    requires
        v.spec_is_primitive(),
    ensures
        spec_nodes(name, v).len() == 1,
        spec_nodes(name, v)[0].name == name,
        spec_nodes(name, v)[0].ty is None,
        spec_nodes(name, v)[0].children is None,
        spec_nodes(name, v)[0].format == Some(
            NodeFormatView { before_children: Seq::<char>::empty(), terminator: Seq::<char>::empty() },
        ),
        spec_nodes(name, v)[0].entries.len() == 1,
        spec_nodes(name, v)[0].entries[0].name is None,
        spec_nodes(name, v)[0].entries[0].ty is None,
        spec_nodes(name, v)[0].entries[0].value == match v {
            Value::Integer(i) => ScalarView::Integer(i),
            Value::Bool(b) => ScalarView::Bool(b),
            Value::String(s) => ScalarView::Text(s@),
            Value::Float(k) => kdl_value_view(k),
            _ => ScalarView::Null,
        },
        !(v is String) ==> spec_nodes(name, v)[0].entries[0].format is None,
{
}

/// In a sequence written as one node with many arguments, the argument at
/// each position holds exactly the item at that position.
pub proof fn lemma_primitive_sequence_holds_its_items(name: Seq<char>, es: Vec<Value>)
    requires
        es@.len() > 0,
        spec_all_primitive(es@),
    ensures
        forall|i: int|
            0 <= i < es@.len() ==> (#[trigger] spec_nodes(name, Value::Sequence(es))[0].entries[i]).value
                == match es@[i] {
                Value::Integer(n) => ScalarView::Integer(n),
                Value::Bool(b) => ScalarView::Bool(b),
                Value::String(s) => ScalarView::Text(s@),
                Value::Float(k) => kdl_value_view(k),
                _ => ScalarView::Null,
            },
{
}

/// A field list with one field gives exactly the nodes of that field.
pub proof fn lemma_single_field_gives_its_nodes(key: String, v: Value)
    ensures
        spec_fields_nodes(seq![(key, v)]) == spec_nodes(key@, v),
{
    let es = seq![(key, v)];
    assert(es.subrange(0, 0) =~= Seq::<(String, Value)>::empty());
    assert(spec_fields_nodes(Seq::<(String, Value)>::empty()) == Seq::<NodeView>::empty());
    assert(Seq::<NodeView>::empty() + spec_nodes(key@, v) =~= spec_nodes(key@, v));
}

/// No field is dropped: a field list gives at least as many nodes as it has
/// fields, and for every field some node carries the field's key as its
/// name.
pub proof fn lemma_every_field_has_a_node(entries: Seq<(String, Value)>)
    ensures
        spec_fields_nodes(entries).len() >= entries.len(),
        forall|i: int|
            0 <= i < entries.len() ==> exists|j: int|
                0 <= j < spec_fields_nodes(entries).len() && (#[trigger] spec_fields_nodes(
                    entries,
                )[j]).name == (#[trigger] entries[i]).0@,
    decreases entries.len(),
{
    if entries.len() > 0 {
        let init = entries.subrange(0, entries.len() - 1);
        let last = entries[entries.len() - 1];
        lemma_every_field_has_a_node(init);
        lemma_nodes_are_named(last.0@, last.1);
        let a = spec_fields_nodes(init);
        let b = spec_nodes(last.0@, last.1);
        let all = spec_fields_nodes(entries);
        assert(all == a + b);
        assert forall|i: int| 0 <= i < entries.len() implies exists|j: int|
            0 <= j < all.len() && (#[trigger] all[j]).name == (#[trigger] entries[i]).0@ by {
            if i < entries.len() - 1 {
                assert(entries[i] == init[i]);
                let j = choose|j: int| 0 <= j < a.len() && (#[trigger] a[j]).name == init[i].0@;
                assert(all[j] == a[j]);
            } else {
                assert(all[a.len() as int] == b[0]);
            }
        }
    }
}

/// The `-` children of a list of items are the `-` nodes of each item, one
/// item after the other.
pub proof fn lemma_dash_nodes_concatenate(a: Seq<Value>, b: Seq<Value>)
    ensures
        spec_dash_nodes(a + b) == spec_dash_nodes(a) + spec_dash_nodes(b),
    decreases b.len(),
{
    if b.len() == 0 {
        assert(a + b =~= a);
        assert(spec_dash_nodes(a) + Seq::<NodeView>::empty() =~= spec_dash_nodes(a));
    } else {
        let b0 = b.subrange(0, b.len() - 1);
        lemma_dash_nodes_concatenate(a, b0);
        assert((a + b).subrange(0, (a + b).len() - 1) =~= a + b0);
        assert((a + b)[(a + b).len() - 1] == b[b.len() - 1]);
        assert(spec_dash_nodes(a) + spec_dash_nodes(b) =~= spec_dash_nodes(a) + spec_dash_nodes(b0)
            + spec_nodes(seq!['-'], b[b.len() - 1]));
    }
}

/// A single item gives, as `-` children, exactly its own nodes named `-`.
pub proof fn lemma_single_item_gives_its_dash_nodes(e: Value)
    ensures
        spec_dash_nodes(seq![e]) == spec_nodes(seq!['-'], e),
{
    let es = seq![e];
    assert(es.subrange(0, 0) =~= Seq::<Value>::empty());
    assert(spec_dash_nodes(Seq::<Value>::empty()) == Seq::<NodeView>::empty());
    assert(Seq::<NodeView>::empty() + spec_nodes(seq!['-'], e) =~= spec_nodes(seq!['-'], e));
}

/// No item of a mixed sequence is dropped: its `-` children are at least
/// as many as its items.
pub proof fn lemma_every_item_has_a_dash_node(es: Seq<Value>)
    ensures
        spec_dash_nodes(es).len() >= es.len(),
    decreases es.len(),
{
    if es.len() > 0 {
        lemma_every_item_has_a_dash_node(es.subrange(0, es.len() - 1));
        lemma_nodes_are_named(seq!['-'], es[es.len() - 1]);
    }
}

/// A struct field is left out exactly when its value is `None` or null;
/// every other value (any string, the empty one included, any number,
/// boolean, sequence or map) is kept.
pub proof fn lemma_only_none_and_null_fields_are_left_out(v: Value)
    ensures
        spec_is_omitted_field(v) <==> (v is Absent || v is Null),
{
}

/// A string is escaped by hand exactly when it holds a character that
/// `kdl` writes raw inside a quoted string although KDL v2 forbids it: a C0
/// control other than backspace, tab, newline, form feed and carriage
/// return; DEL; a C1 control (U+0080 to U+009F, NEL among them); or U+2028
/// or U+2029. The entry written for any string is a positional argument
/// without type annotation holding exactly the string's characters.
pub proof fn lemma_string_escaped_exactly_when_forbidden_char(s: Seq<char>)
    ensures
        spec_needs_escape(s) <==> exists|i: int|
            0 <= i < s.len() && {
                let cp = (#[trigger] s[i]) as u32;
                ||| cp <= 0x07
                ||| cp == 0x0B
                ||| 0x0E <= cp <= 0x1F
                ||| cp == 0x7F
                ||| 0x80 <= cp <= 0x9F
                ||| cp == 0x2028
                ||| cp == 0x2029
            },
        spec_string_entry(s).format is Some <==> spec_needs_escape(s),
        spec_string_entry(s).value == ScalarView::Text(s),
        spec_string_entry(s).name is None,
        spec_string_entry(s).ty is None,
{
}

} // verus!
