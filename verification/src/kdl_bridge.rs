//! The parts of the `kdl` crate that the serializer builds documents with.
//!
//! Documents, nodes, entries and values of `kdl` are opaque here. What the
//! serializer needs to know of them is given by a model of plain values
//! ([`NodeView`], [`EntryView`], [`ScalarView`]) and by names for what each
//! `kdl` value holds in that model. Every item marked `external_body` below
//! is trusted: its contract is read off the source of `kdl` 6.7.

use kdl::{KdlDocument, KdlEntry, KdlEntryFormat, KdlNode, KdlValue};
use vstd::prelude::*;

verus! {

#[verifier::external_type_specification]
#[verifier::external_body]
pub struct ExKdlDocument(KdlDocument);

#[verifier::external_type_specification]
#[verifier::external_body]
pub struct ExKdlNode(KdlNode);

#[verifier::external_type_specification]
#[verifier::external_body]
pub struct ExKdlEntry(KdlEntry);

#[verifier::external_type_specification]
#[verifier::external_body]
pub struct ExKdlValue(KdlValue);

/// A scalar KDL value as far as the serializer tells scalars apart.
/// Floating-point numbers are carried through opaquely and have no
/// variant here.
pub enum ScalarView {
    Null,
    Bool(bool),
    Integer(i128),
    Text(Seq<char>),
}

/// The formatting that an entry carries: the text written for its value,
/// the text written before it, and whether `autoformat` leaves it alone.
/// (The whitespace fields around a property's `=` and a type annotation
/// are not modelled.)
pub struct EntryFormatView {
    pub repr: Seq<char>,
    pub leading: Seq<char>,
    pub keep: bool,
}

/// A KDL entry: its value, its property name (`None` for a positional
/// argument), its type annotation (`None` when it has none), and its custom
/// formatting if any.
pub struct EntryView {
    pub value: ScalarView,
    pub name: Option<Seq<char>>,
    pub ty: Option<Seq<char>>,
    pub format: Option<EntryFormatView>,
}

/// The part of a node's formatting that the serializer's output tells
/// apart: the text before its children block and its terminator. (Its
/// leading and trailing text are not modelled.)
pub struct NodeFormatView {
    pub before_children: Seq<char>,
    pub terminator: Seq<char>,
}

/// A KDL node: its name, its type annotation, its entries in order, its
/// children block if it has one, and its formatting if it has one.
pub struct NodeView {
    pub name: Seq<char>,
    pub ty: Option<Seq<char>>,
    pub entries: Seq<EntryView>,
    pub children: Option<Seq<NodeView>>,
    pub format: Option<NodeFormatView>,
}

/// The formatting that `KdlNode::new` gives a node: empty before the
/// children block and an empty terminator (the node ends with its trailing
/// newline).
pub open spec fn new_node_format() -> NodeFormatView {
    NodeFormatView { before_children: seq![], terminator: seq![] }
}

/// The nodes of a `KdlDocument`, in order.
pub uninterp spec fn kdl_document_nodes(doc: KdlDocument) -> Seq<NodeView>;

/// What a `KdlNode` holds.
pub uninterp spec fn kdl_node_view(node: KdlNode) -> NodeView;

/// What a `KdlEntry` holds.
pub uninterp spec fn kdl_entry_view(entry: KdlEntry) -> EntryView;

/// What a `KdlValue` holds. For a float the model pins nothing.
pub uninterp spec fn kdl_value_view(value: KdlValue) -> ScalarView;

/// The text that `kdl` writes for a document (its `Display` output).
pub uninterp spec fn kdl_document_text(doc: KdlDocument) -> Seq<char>;

/// The text that `kdl` writes for a document once `autoformat` has run on
/// it.
pub uninterp spec fn kdl_pretty_text(doc: KdlDocument) -> Seq<char>;

/// The entry that `autoformat` leaves of `e`: a format marked to be kept
/// survives with its value text and leading text (and loses the mark), any
/// other format is dropped; value, name and type annotation stay.
pub open spec fn autoformat_entry(e: EntryView) -> EntryView {
    EntryView {
        value: e.value,
        name: e.name,
        ty: e.ty,
        format: match e.format {
            Some(f) => if f.keep {
                Some(EntryFormatView { repr: f.repr, leading: f.leading, keep: false })
            } else {
                None
            },
            None => None,
        },
    }
}

pub open spec fn autoformat_entries(es: Seq<EntryView>) -> Seq<EntryView> {
    es.map_values(|e: EntryView| autoformat_entry(e))
}

/// The node formatting that `autoformat` leaves: one space before the
/// children block, and a terminator that starts with a newline (a newline
/// unless it already starts with one); a node without formatting gets a
/// newline terminator and nothing else.
pub open spec fn autoformat_node_format(f: Option<NodeFormatView>) -> Option<NodeFormatView> {
    match f {
        Some(f) => Some(
            NodeFormatView {
                before_children: seq![' '],
                terminator: if f.terminator.len() > 0 && f.terminator[0] == '\n' {
                    f.terminator
                } else {
                    seq!['\n']
                },
            },
        ),
        None => Some(NodeFormatView { before_children: seq![], terminator: seq!['\n'] }),
    }
}

/// The node that `autoformat` leaves of `n`, children included.
pub open spec fn autoformat_node(n: NodeView) -> NodeView
    decreases n, 1int,
{
    NodeView {
        name: n.name,
        ty: n.ty,
        entries: autoformat_entries(n.entries),
        children: match n.children {
            Some(cs) => Some(autoformat_nodes(cs)),
            None => None,
        },
        format: autoformat_node_format(n.format),
    }
}

/// The nodes that `autoformat` leaves of `ns`.
pub open spec fn autoformat_nodes(ns: Seq<NodeView>) -> Seq<NodeView>
    decreases ns, 0int,
{
    if ns.len() == 0 {
        ns
    } else {
        autoformat_nodes(ns.drop_last()).push(autoformat_node(ns.last()))
    }
}

/// `KdlDocument::new`: a document with no nodes.
#[verifier::external_body]
pub(crate) fn document_new() -> (doc: KdlDocument)
    ensures
        kdl_document_nodes(doc) == Seq::<NodeView>::empty(),
{
    KdlDocument::new()
}

/// `KdlDocument::nodes_mut` followed by `Vec::push`: appends `node` to the
/// document's nodes.
#[verifier::external_body]
pub(crate) fn document_push(doc: &mut KdlDocument, node: KdlNode)
    ensures
        kdl_document_nodes(*final(doc)) == kdl_document_nodes(*old(doc)).push(kdl_node_view(node)),
{
    doc.nodes_mut().push(node)
}

/// `KdlNode::new`: a node with the given name, no entries and no children.
#[verifier::external_body]
pub(crate) fn node_new(name: &str) -> (node: KdlNode)
    ensures
        kdl_node_view(node) == (NodeView {
            name: name@,
            ty: None,
            entries: seq![],
            children: None,
            format: Some(new_node_format()),
        }),
{
    KdlNode::new(name)
}

/// `KdlNode::push`: appends `entry` to the node's entries.
#[verifier::external_body]
pub(crate) fn node_push(node: &mut KdlNode, entry: KdlEntry)
    ensures
        kdl_node_view(*final(node)) == (NodeView {
            entries: kdl_node_view(*old(node)).entries.push(kdl_entry_view(entry)),
            ..kdl_node_view(*old(node))
        }),
{
    node.push(entry)
}

/// `KdlNode::set_children`: the node's children block becomes `children`.
#[verifier::external_body]
pub(crate) fn node_set_children(node: &mut KdlNode, children: KdlDocument)
    ensures
        kdl_node_view(*final(node)) == (NodeView {
            children: Some(kdl_document_nodes(children)),
            ..kdl_node_view(*old(node))
        }),
{
    node.set_children(children)
}

/// `KdlEntry::new`: a positional entry (no property name) holding
/// `value`, with no type annotation and no format.
#[verifier::external_body]
pub(crate) fn entry_new(value: KdlValue) -> (entry: KdlEntry)
    ensures
        kdl_entry_view(entry) == (EntryView {
            value: kdl_value_view(value),
            name: None,
            ty: None,
            format: None,
        }),
{
    KdlEntry::new(value)
}

/// `KdlEntry::set_format` with a `KdlEntryFormat` whose `value_repr`,
/// `leading` and `autoformat_keep` are the given ones and whose other
/// fields are empty.
#[verifier::external_body]
pub(crate) fn entry_set_format(entry: &mut KdlEntry, repr: String, leading: String, keep: bool)
    ensures
        kdl_entry_view(*final(entry)) == (EntryView {
            format: Some(EntryFormatView { repr: repr@, leading: leading@, keep: keep }),
            ..kdl_entry_view(*old(entry))
        }),
{
    entry.set_format(
        KdlEntryFormat { value_repr: repr, leading, autoformat_keep: keep, ..Default::default() },
    )
}

/// `KdlValue::Null`.
#[verifier::external_body]
pub(crate) fn value_null() -> (value: KdlValue)
    ensures
        kdl_value_view(value) == ScalarView::Null,
{
    KdlValue::Null
}

/// `KdlValue::from(bool)`: `KdlValue::Bool`.
#[verifier::external_body]
pub(crate) fn value_bool(b: bool) -> (value: KdlValue)
    ensures
        kdl_value_view(value) == ScalarView::Bool(b),
{
    KdlValue::from(b)
}

/// `KdlValue::from(i128)`: `KdlValue::Integer`.
#[verifier::external_body]
pub(crate) fn value_integer(i: i128) -> (value: KdlValue)
    ensures
        kdl_value_view(value) == ScalarView::Integer(i),
{
    KdlValue::from(i)
}

/// `KdlValue::from(String)`: `KdlValue::String`.
#[verifier::external_body]
pub(crate) fn value_string(s: String) -> (value: KdlValue)
    ensures
        kdl_value_view(value) == ScalarView::Text(s@),
{
    KdlValue::from(s)
}

/// `KdlValue::clone`: a copy holding the same value.
#[verifier::external_body]
pub(crate) fn value_clone(value: &KdlValue) -> (copy: KdlValue)
    ensures
        kdl_value_view(copy) == kdl_value_view(*value),
{
    value.clone()
}

/// The text that `{:?}` writes for a `KdlValue` (its derived `Debug`).
pub uninterp spec fn kdl_value_debug_text(value: KdlValue) -> Seq<char>;

/// `format!("{:?}", value)` on a `KdlValue`.
#[verifier::external_body]
pub(crate) fn value_debug(value: &KdlValue) -> (text: String)
    ensures
        text@ == kdl_value_debug_text(*value),
{
    format!("{:?}", value)
}

/// `KdlDocument::autoformat`: node names, type annotations, entry values
/// and names, and the tree shape stay; entry and node formats change as
/// [`autoformat_entry`] and [`autoformat_node_format`] say (the leading and
/// trailing text, which the model does not hold, is rewritten too); the
/// document then writes the text named [`kdl_pretty_text`] of the document
/// before the call.
#[verifier::external_body]
pub(crate) fn document_autoformat(doc: &mut KdlDocument)
    ensures
        kdl_document_nodes(*final(doc)) == autoformat_nodes(kdl_document_nodes(*old(doc))),
        kdl_document_text(*final(doc)) == kdl_pretty_text(*old(doc)),
{
    doc.autoformat()
}

/// `KdlDocument`'s `Display`, through `ToString::to_string`.
#[verifier::external_body]
pub(crate) fn document_to_string(doc: &KdlDocument) -> (text: String)
    ensures
        text@ == kdl_document_text(*doc),
{
    doc.to_string()
}

} // verus!
