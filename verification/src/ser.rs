//! Laying a value tree out as a KDL document.
//!
//! - A struct or map becomes a document: each field becomes nodes named
//!   after the field.
//! - A primitive becomes one node with one argument.
//! - A nested struct or map becomes a node with a children block.
//! - A sequence of primitives becomes one node with one argument per item.
//! - A sequence of structs becomes one node per item, all with the same name.
//! - Any other sequence becomes one node whose children are `-` nodes.
//! - An empty sequence becomes a node with an empty children block.

use crate::error::Error;
use crate::escape::{escape_repr, needs_escape, spec_escape_repr, spec_needs_escape};
use crate::kdl_bridge::{
    autoformat_nodes, document_autoformat, document_new, document_push, document_to_string,
    entry_new, entry_set_format, kdl_document_nodes, kdl_document_text, kdl_entry_view,
    kdl_node_view, kdl_pretty_text, new_node_format, node_new, node_push, node_set_children, value_bool, value_clone, value_integer,
    value_null, value_string, EntryFormatView, EntryView, NodeView, ScalarView,
};
use crate::value::Value;
use kdl::{KdlDocument, KdlEntry, KdlNode};
use vstd::prelude::*;

verus! {

broadcast use vstd::std_specs::vec::axiom_vec_decreases_to_view, vstd::seq::axiom_seq_index_decreases;

/// The entry written for a string: its value, and, when some character of
/// it must be escaped by hand, a format whose value text is the escaped
/// quoted string, written after one space and kept by `autoformat`.
pub open spec fn spec_string_entry(s: Seq<char>) -> EntryView {
    EntryView {
        value: ScalarView::Text(s),
        name: None,
        ty: None,
        format: if spec_needs_escape(s) {
            Some(EntryFormatView { repr: spec_escape_repr(s), leading: seq![' '], keep: true })
        } else {
            None
        },
    }
}

/// The argument written for a value that is written as one argument.
pub open spec fn spec_arg_entry(v: Value) -> EntryView {
    match v {
        Value::String(s) => spec_string_entry(s@),
        _ => spec_plain_entry(v.spec_scalar()),
    }
}

/// A positional argument holding `value`, with no type annotation and no
/// format of its own.
pub open spec fn spec_plain_entry(value: ScalarView) -> EntryView {
    EntryView { value: value, name: None, ty: None, format: None }
}

/// A freshly made node with the given arguments and children block.
pub open spec fn spec_node(
    name: Seq<char>,
    entries: Seq<EntryView>,
    children: Option<Seq<NodeView>>,
) -> NodeView {
    NodeView {
        name: name,
        ty: None,
        entries: entries,
        children: children,
        format: Some(new_node_format()),
    }
}

/// A node with one argument and no children.
pub open spec fn spec_leaf(name: Seq<char>, e: EntryView) -> NodeView {
    spec_node(name, seq![e], None)
}

/// A node with no arguments and the given children block.
pub open spec fn spec_parent(name: Seq<char>, children: Seq<NodeView>) -> NodeView {
    spec_node(name, seq![], Some(children))
}

/// Every item is written as one argument.
pub open spec fn spec_all_primitive(es: Seq<Value>) -> bool {
    forall|i: int| 0 <= i < es.len() ==> (#[trigger] es[i]).spec_is_primitive()
}

/// Every item is a struct or map.
pub open spec fn spec_all_maps(es: Seq<Value>) -> bool {
    forall|i: int| 0 <= i < es.len() ==> #[trigger] es[i] is Mapping
}

/// The nodes written for the field `name` holding `v`.
pub open spec fn spec_nodes(name: Seq<char>, v: Value) -> Seq<NodeView>
    decreases v,
{
    match v {
        Value::Sequence(es) => {
            if es@.len() == 0 {
                seq![spec_parent(name, seq![])]
            } else if spec_all_primitive(es@) {
                seq![spec_node(name, es@.map_values(|e: Value| spec_arg_entry(e)), None)]
            } else if spec_all_maps(es@) {
                spec_repeated_nodes(name, es@)
            } else {
                seq![spec_parent(name, spec_dash_nodes(es@))]
            }
        },
        Value::Mapping(entries) => seq![spec_parent(name, spec_fields_nodes(entries@))],
        Value::Absent => seq![spec_leaf(name, spec_plain_entry(ScalarView::Null))],
        _ => seq![spec_leaf(name, spec_arg_entry(v))],
    }
}

/// The nodes written for a list of fields, one field after the other.
pub open spec fn spec_fields_nodes(entries: Seq<(String, Value)>) -> Seq<NodeView>
    decreases entries,
{
    if entries.len() == 0 {
        seq![]
    } else {
        spec_fields_nodes(entries.subrange(0, entries.len() - 1)) + spec_nodes(
            entries[entries.len() - 1].0@,
            entries[entries.len() - 1].1,
        )
    }
}

/// The `-` children written for the items of a mixed sequence.
pub open spec fn spec_dash_nodes(es: Seq<Value>) -> Seq<NodeView>
    decreases es,
{
    if es.len() == 0 {
        seq![]
    } else {
        spec_dash_nodes(es.subrange(0, es.len() - 1)) + spec_nodes(seq!['-'], es[es.len() - 1])
    }
}

/// The nodes written for a sequence of structs: one node per item, each
/// named `name`, with the item's fields as children.
pub open spec fn spec_repeated_nodes(name: Seq<char>, es: Seq<Value>) -> Seq<NodeView>
    decreases es,
{
    if es.len() == 0 {
        seq![]
    } else {
        spec_repeated_nodes(name, es.subrange(0, es.len() - 1)).push(
            match es[es.len() - 1] {
                Value::Mapping(entries) => spec_parent(name, spec_fields_nodes(entries@)),
                _ => spec_parent(name, seq![]),
            },
        )
    }
}

/// What the given `kdl` nodes hold, in order.
pub open spec fn node_views(ns: Seq<KdlNode>) -> Seq<NodeView> {
    ns.map_values(|n: KdlNode| kdl_node_view(n))
}

/// Build a `KdlEntry` for a string value, escaping by hand the control
/// characters that `kdl` would write verbatim.
pub fn string_entry(s: &str) -> (entry: KdlEntry)
    ensures
        kdl_entry_view(entry) == spec_string_entry(s@),
{
    let needs = needs_escape(s);
    let mut entry = entry_new(value_string(s.to_owned()));
    if needs {
        let repr = escape_repr(s);
        let leading = " ".to_owned();
        proof {
            reveal_strlit(" ");
            assert(leading@ =~= seq![' ']);
        }
        entry_set_format(&mut entry, repr, leading, true);
    }
    entry
}

/// Appends `nodes` to the nodes of `doc`.
fn push_nodes(doc: &mut KdlDocument, nodes: Vec<KdlNode>)
    ensures
        kdl_document_nodes(*final(doc)) == kdl_document_nodes(*old(doc)) + node_views(nodes@),
{
    let ghost start = kdl_document_nodes(*doc);
    let ghost all = nodes@;
    for node in it: nodes
        invariant
            it.seq() == all,
            kdl_document_nodes(*doc) == start + node_views(all.take(it.index() as int)),
    {
        proof {
            assert(all.take(it.index() + 1) == all.take(it.index() as int).push(node));
            assert(node_views(all.take(it.index() + 1)) =~= node_views(
                all.take(it.index() as int),
            ).push(kdl_node_view(node)));
        }
        document_push(doc, node);
    }
    proof {
        assert(all.take(all.len() as int) == all);
    }
}

fn all_primitive(elements: &Vec<Value>) -> (r: bool)
    ensures
        r == spec_all_primitive(elements@),
{
    for i in 0..elements.len()
        invariant
            forall|j: int| 0 <= j < i ==> (#[trigger] elements@[j]).spec_is_primitive(),
    {
        if !elements[i].is_primitive() {
            return false;
        }
    }
    true
}

fn all_maps(elements: &Vec<Value>) -> (r: bool)
    ensures
        r == spec_all_maps(elements@),
{
    for i in 0..elements.len()
        invariant
            forall|j: int| 0 <= j < i ==> #[trigger] elements@[j] is Mapping,
    {
        match &elements[i] {
            Value::Mapping(_) => {},
            _ => {
                return false;
            },
        }
    }
    true
}

/// A node named `name` with one argument.
fn leaf(name: &str, entry: KdlEntry) -> (nodes: Vec<KdlNode>)
    ensures
        node_views(nodes@) == seq![spec_leaf(name@, kdl_entry_view(entry))],
{
    let mut node = node_new(name);
    node_push(&mut node, entry);
    let nodes = vec![node];
    proof {
        assert(node_views(nodes@) =~= seq![kdl_node_view(node)]);
    }
    nodes
}

/// A node named `name` with the given children block.
fn parent(name: &str, children: KdlDocument) -> (node: KdlNode)
    ensures
        kdl_node_view(node) == spec_parent(name@, kdl_document_nodes(children)),
{
    let mut node = node_new(name);
    node_set_children(&mut node, children);
    node
}

/// Convert a key-value pair to one or more KDL nodes.
fn value_to_nodes(name: &str, value: &Value) -> (res: Result<Vec<KdlNode>, Error>)
    ensures
        res matches Ok(ns) && node_views(ns@) == spec_nodes(name@, *value),
    decreases value,
{
    match value {
        Value::Absent | Value::Null => Ok(leaf(name, entry_new(value_null()))),
        Value::Bool(b) => Ok(leaf(name, entry_new(value_bool(*b)))),
        Value::Integer(i) => Ok(leaf(name, entry_new(value_integer(*i)))),
        Value::Float(f) => Ok(leaf(name, entry_new(value_clone(f)))),
        Value::String(s) => Ok(leaf(name, string_entry(s.as_str()))),
        Value::Sequence(elements) => {
            if elements.len() == 0 {
                let node = parent(name, document_new());
                let nodes = vec![node];
                proof {
                    assert(node_views(nodes@) =~= seq![kdl_node_view(node)]);
                }
                return Ok(nodes);
            }
            if all_primitive(elements) {
                let mut node = node_new(name);
                proof {
                    assert(elements@.take(0).map_values(|e: Value| spec_arg_entry(e)) =~= seq![]);
                }
                for i in 0..elements.len()
                    invariant
                        spec_all_primitive(elements@),
                        kdl_node_view(node) == spec_node(
                            name@,
                            elements@.take(i as int).map_values(|e: Value| spec_arg_entry(e)),
                            None,
                        ),
                {
                    let elem = &elements[i];
                    proof {
                        assert(elements@.take(i + 1) == elements@.take(i as int).push(*elem));
                        assert(elem.spec_is_primitive());
                    }
                    match elem {
                        Value::String(s) => node_push(&mut node, string_entry(s.as_str())),
                        _ => {
                            if let Some(kv) = elem.to_kdl_value() {
                                node_push(&mut node, entry_new(kv));
                            }
                        },
                    }
                    proof {
                        assert(elements@.take(i + 1).map_values(|e: Value| spec_arg_entry(e))
                            =~= elements@.take(i as int).map_values(|e: Value| spec_arg_entry(e)).push(
                            spec_arg_entry(*elem),
                        ));
                    }
                }
                proof {
                    assert(elements@.take(elements@.len() as int) == elements@);
                }
                let nodes = vec![node];
                proof {
                    assert(node_views(nodes@) =~= seq![kdl_node_view(node)]);
                }
                Ok(nodes)
            } else if all_maps(elements) {
                let mut nodes: Vec<KdlNode> = Vec::new();
                for i in 0..elements.len()
                    invariant
                        *value == Value::Sequence(*elements),
                        spec_all_maps(elements@),
                        node_views(nodes@) == spec_repeated_nodes(name@, elements@.take(i as int)),
                {
                    proof {
                        assert(elements@.take(i + 1).subrange(0, i as int) == elements@.take(
                            i as int,
                        ));
                        assert(elements@[i as int] is Mapping);
                    }
                    if let Value::Mapping(entries) = &elements[i] {
                        proof {
                            assert(decreases_to!(*value => value->Sequence_0));
                            assert(decreases_to!(value->Sequence_0 => value->Sequence_0@));
                            assert(decreases_to!(value->Sequence_0@ => value->Sequence_0@[i as int]));
                            let item = value->Sequence_0@[i as int];
                            assert(decreases_to!(item => item->Mapping_0));
                        }
                        let children = map_entries_to_doc(entries)?;
                        let node = parent(name, children);
                        let ghost prev = nodes@;
                        nodes.push(node);
                        proof {
                            assert(node_views(nodes@) =~= node_views(prev).push(
                                kdl_node_view(node),
                            ));
                        }
                    }
                }
                proof {
                    assert(elements@.take(elements@.len() as int) == elements@);
                }
                Ok(nodes)
            } else {
                let mut children = document_new();
                for i in 0..elements.len()
                    invariant
                        *value == Value::Sequence(*elements),
                        kdl_document_nodes(children) == spec_dash_nodes(elements@.take(i as int)),
                {
                    let dash = "-";
                    proof {
                        reveal_strlit("-");
                        assert(dash@ =~= seq!['-']);
                        assert(elements@.take(i + 1).subrange(0, i as int) == elements@.take(
                            i as int,
                        ));
                        assert(elements@.take(i + 1)[i as int] == elements@[i as int]);
                        assert(decreases_to!(*value => value->Sequence_0));
                        assert(decreases_to!(value->Sequence_0 => value->Sequence_0@));
                        assert(decreases_to!(value->Sequence_0@ => value->Sequence_0@[i as int]));
                    }
                    let child_nodes = value_to_nodes(dash, &elements[i])?;
                    push_nodes(&mut children, child_nodes);
                }
                proof {
                    assert(elements@.take(elements@.len() as int) == elements@);
                }
                let node = parent(name, children);
                let nodes = vec![node];
                proof {
                    assert(node_views(nodes@) =~= seq![kdl_node_view(node)]);
                }
                Ok(nodes)
            }
        },
        Value::Mapping(entries) => {
            let children = map_entries_to_doc(entries)?;
            let node = parent(name, children);
            let nodes = vec![node];
            proof {
                assert(node_views(nodes@) =~= seq![kdl_node_view(node)]);
            }
            Ok(nodes)
        },
    }
}

/// The document whose nodes are those written for each field in turn.
fn map_entries_to_doc(entries: &Vec<(String, Value)>) -> (res: Result<KdlDocument, Error>)
    ensures
        res matches Ok(doc) && kdl_document_nodes(doc) == spec_fields_nodes(entries@),
    decreases entries,
{
    let mut doc = document_new();
    for i in 0..entries.len()
        invariant
            kdl_document_nodes(doc) == spec_fields_nodes(entries@.take(i as int)),
    {
        proof {
            assert(entries@.take(i + 1).subrange(0, i as int) == entries@.take(i as int));
        }
        let entry = &entries[i];
        let nodes = value_to_nodes(entry.0.as_str(), &entry.1)?;
        push_nodes(&mut doc, nodes);
    }
    proof {
        assert(entries@.take(entries@.len() as int) == entries@);
    }
    Ok(doc)
}

/// The nodes of the document written for a top-level value: a struct or
/// map gives the nodes of its fields; anything else is refused.
pub open spec fn spec_document(value: Value) -> Result<Seq<NodeView>, Error> {
    match value {
        Value::Mapping(entries) => Ok(spec_fields_nodes(entries@)),
        _ => Err(Error::TopLevelNotStruct),
    }
}

/// `text` is what `kdl` writes for a document whose nodes are `nodes`.
pub open spec fn spec_is_text_of(text: Seq<char>, nodes: Seq<NodeView>) -> bool {
    exists|doc: KdlDocument|
        #[trigger] kdl_document_nodes(doc) == nodes && text == kdl_document_text(doc)
}

/// `text` is what `kdl` writes, once `autoformat` has run, for a document
/// whose nodes are `nodes`.
pub open spec fn spec_is_pretty_text_of(text: Seq<char>, nodes: Seq<NodeView>) -> bool {
    exists|doc: KdlDocument|
        #[trigger] kdl_document_nodes(doc) == nodes && text == kdl_pretty_text(doc)
}

/// The document for a top-level value, which must be a struct or a map.
fn value_to_doc(value: Value) -> (res: Result<KdlDocument, Error>)
    ensures
        match spec_document(value) {
            Ok(nodes) => res matches Ok(doc) && kdl_document_nodes(doc) == nodes,
            Err(e) => res matches Err(e2) && e2 == e,
        },
{
    match value {
        Value::Mapping(entries) => map_entries_to_doc(&entries),
        _ => Err(Error::TopLevelNotStruct),
    }
}

/// Serialize a value to a [`KdlDocument`]: the value must be a struct or a
/// map, whose fields become the document's nodes.
pub fn to_doc(value: Value) -> (res: Result<KdlDocument, Error>)
    ensures
        match spec_document(value) {
            Ok(nodes) => res matches Ok(doc) && kdl_document_nodes(doc) == nodes,
            Err(e) => res matches Err(e2) && e2 == e,
        },
{
    value_to_doc(value)
}

/// Serialize a value to a KDL string.
pub fn to_string(value: Value) -> (res: Result<String, Error>)
    ensures
        match spec_document(value) {
            Ok(nodes) => res matches Ok(text) && spec_is_text_of(text@, nodes),
            Err(e) => res matches Err(e2) && e2 == e,
        },
{
    let doc = to_doc(value)?;
    let text = document_to_string(&doc);
    proof {
        assert(kdl_document_nodes(doc) == kdl_document_nodes(doc) && text@ == kdl_document_text(doc));
    }
    Ok(text)
}

/// Serialize a value to a KDL string with auto-formatting.
pub fn to_string_pretty(value: Value) -> (res: Result<String, Error>)
    ensures
        match spec_document(value) {
            Ok(nodes) => res matches Ok(text) && spec_is_pretty_text_of(text@, nodes)
                && spec_is_text_of(text@, autoformat_nodes(nodes)),
            Err(e) => res matches Err(e2) && e2 == e,
        },
{
    let mut doc = to_doc(value)?;
    let ghost built = doc;
    document_autoformat(&mut doc);
    let text = document_to_string(&doc);
    proof {
        assert(kdl_document_nodes(built) == kdl_document_nodes(built) && text@ == kdl_pretty_text(
            built,
        ));
        assert(kdl_document_nodes(doc) == kdl_document_nodes(doc) && text@ == kdl_document_text(doc));
    }
    Ok(text)
}

} // verus!
