//! Reading and editing configuration documents through `toml_edit`.
//!
//! The items of this file that carry `external_body` state what `toml_edit`
//! does; nothing here proves them. Everything else is proved from them.

use crate::document::{entry_views, lookup, node_views, Node, NodeView};
use toml_edit::{DocumentMut, Item, TomlError, Value};
use vstd::prelude::*;

verus! {

/// `toml_edit::DocumentMut`, a document that can be edited; carried as it
/// is.
#[verifier::external_type_specification]
#[verifier::external_body]
pub struct ExDocumentMut(DocumentMut);

/// `toml_edit::Item`, a node of a document; carried as it is.
#[verifier::external_type_specification]
#[verifier::external_body]
pub struct ExItem(Item);

/// `toml_edit::TomlError`, the report of a text that is no document;
/// carried as it is.
#[verifier::external_type_specification]
#[verifier::external_body]
pub struct ExTomlError(TomlError);

/// What an item of a `toml_edit` document holds. The entries of a table or
/// an inline table are those that its `TableLike::iter` yields, in that
/// order; the elements of an array are those of its underlying list; a
/// float is held by the bits of `f64::to_bits` and a date-time by the text
/// of its `to_string`.
pub uninterp spec fn item_model(item: Item) -> NodeView;

/// What the root of a `toml_edit` document holds.
pub uninterp spec fn document_model(doc: DocumentMut) -> NodeView;

/// The text that a `toml_edit` document is written as.
pub uninterp spec fn document_text(doc: DocumentMut) -> Seq<char>;

/// What the root of the document holds that `toml_edit` parses a text
/// into, if the text is a document.
pub uninterp spec fn parsed_document(text: Seq<char>) -> Option<NodeView>;

/// The kind of a node, without what it holds.
#[derive(Clone, Copy, Debug, PartialEq, Eq, Structural)]
pub enum Shape {
    Empty,
    Scalar,
    Array,
    InlineTable,
    Table,
    ArrayOfTables,
}

/// Whether a node is a string, a number, a truth value or a date-time.
pub open spec fn is_scalar(node: NodeView) -> bool {
    node is String || node is Integer || node is Float || node is Boolean || node is Datetime
}

/// The kind of a node.
pub open spec fn shape_of(node: NodeView) -> Shape {
    match node {
        NodeView::Empty => Shape::Empty,
        NodeView::Array(_) => Shape::Array,
        NodeView::InlineTable(_) => Shape::InlineTable,
        NodeView::Table(_) => Shape::Table,
        NodeView::ArrayOfTables(_) => Shape::ArrayOfTables,
        _ => Shape::Scalar,
    }
}

/// The entries of a table or an inline table; any other node has none.
pub open spec fn entries_of(node: NodeView) -> Seq<(Seq<char>, NodeView)> {
    match node {
        NodeView::Table(entries) => entries,
        NodeView::InlineTable(entries) => entries,
        _ => Seq::empty(),
    }
}

/// The elements of an array or an array of tables; any other node has none.
pub open spec fn elements_of(node: NodeView) -> Seq<NodeView> {
    match node {
        NodeView::Array(elements) => elements,
        NodeView::ArrayOfTables(tables) => tables,
        _ => Seq::empty(),
    }
}

/// The entries of a table as a map from each key to its node.
pub open spec fn entry_map(node: NodeView) -> Map<Seq<char>, NodeView> {
    Map::new(
        |key: Seq<char>| lookup(entries_of(node), key) is Some,
        |key: Seq<char>| lookup(entries_of(node), key).unwrap(),
    )
}

/// `str::parse` to a `toml_edit::DocumentMut`: whether a text is a document,
/// and what the document then holds, depends on the text alone. The root of
/// a parsed document is a table.
#[verifier::external_body]
pub(crate) fn parse_document(text: &str) -> (parsed: Result<DocumentMut, TomlError>)
    ensures
        match parsed {
            Ok(doc) => parsed_document(text@) == Some(document_model(doc)) && document_model(
                doc,
            ) is Table,
            Err(_) => parsed_document(text@) is None,
        },
{
    text.parse::<DocumentMut>()
}

/// `DocumentMut::as_item`: the root of the document.
#[verifier::external_body]
pub(crate) fn document_root(doc: &DocumentMut) -> (root: &Item)
    ensures
        item_model(*root) == document_model(*doc),
{
    doc.as_item()
}

/// Assignment through `DocumentMut`'s `IndexMut` of a copy made by
/// `Item::clone`: the root table then holds the copy under `key`, in place
/// of what it held there, and every other entry as before. The root has to
/// be a table, else the index panics; so has what `parse_document` returns
/// and what this function leaves.
#[verifier::external_body]
pub(crate) fn set_item(doc: &mut DocumentMut, key: &str, item: &Item)
    requires
        document_model(*old(doc)) is Table,
        !(item_model(*item) is Empty),
    ensures
        document_model(*final(doc)) is Table,
        entry_map(document_model(*final(doc))) == entry_map(document_model(*old(doc))).insert(
            key@,
            item_model(*item),
        ),
{
    doc[key] = item.clone();
}

/// `DocumentMut`'s `to_string`: the text of the document. The root has to
/// be a table, else writing panics.
#[verifier::external_body]
pub(crate) fn render_document(doc: &DocumentMut) -> (text: String)
    requires
        document_model(*doc) is Table,
    ensures
        text@ == document_text(*doc),
{
    doc.to_string()
}

/// The variants of `toml_edit::Item` and `toml_edit::Value`, told apart.
#[verifier::external_body]
pub(crate) fn item_shape(item: &Item) -> (shape: Shape)
    ensures
        shape == shape_of(item_model(*item)),
{
    match item {
        Item::None => Shape::Empty,
        Item::Table(_) => Shape::Table,
        Item::ArrayOfTables(_) => Shape::ArrayOfTables,
        Item::Value(Value::Array(_)) => Shape::Array,
        Item::Value(Value::InlineTable(_)) => Shape::InlineTable,
        Item::Value(_) => Shape::Scalar,
    }
}

/// `Formatted::value` on the scalar variants of `toml_edit::Value`: the
/// scalar that an item holds, a float as the bits of `f64::to_bits` and a
/// date-time as the text of its `to_string`; nothing for any other item.
#[verifier::external_body]
pub(crate) fn item_scalar(item: &Item) -> (scalar: Option<Node>)
    ensures
        match scalar {
            Some(node) => is_scalar(node@) && node@ == item_model(*item),
            None => !is_scalar(item_model(*item)),
        },
{
    match item.as_value()? {
        Value::String(held) => Some(Node::String(held.value().clone())),
        Value::Integer(held) => Some(Node::Integer(*held.value())),
        Value::Float(held) => Some(Node::Float(held.value().to_bits())),
        Value::Boolean(held) => Some(Node::Boolean(*held.value())),
        Value::Datetime(held) => Some(Node::Datetime(held.value().to_string())),
        _ => None,
    }
}

/// `Item::as_table_like` and `TableLike::iter`: the keys of the entries of
/// a table or an inline table, in order. No key occurs twice. Any other
/// item has no keys.
#[verifier::external_body]
pub(crate) fn item_keys(item: &Item) -> (keys: Vec<String>)
    ensures
        keys@.len() == entries_of(item_model(*item)).len(),
        forall|i: int|
            0 <= i < keys@.len() ==> (#[trigger] keys@[i])@ == entries_of(item_model(*item))[i].0,
        forall|i: int, j: int|
            0 <= i < j < keys@.len() ==> (#[trigger] keys@[i])@ != (#[trigger] keys@[j])@,
{
    match item.as_table_like() {
        Some(table) => table.iter().map(|(key, _)| key.to_owned()).collect(),
        None => Vec::new(),
    }
}

/// `Item::get` with a key: the node that a table or an inline table holds
/// under the key, unless that is an empty one; nothing where the entry is
/// empty or there is none under the key.
#[verifier::external_body]
pub(crate) fn item_child<'a>(item: &'a Item, key: &str) -> (child: Option<&'a Item>)
    ensures
        match child {
            Some(found) => lookup(entries_of(item_model(*item)), key@) == Some(item_model(*found))
                && !(item_model(*found) is Empty),
            None => lookup(entries_of(item_model(*item)), key@) is None || lookup(
                entries_of(item_model(*item)),
                key@,
            ) == Some(NodeView::Empty),
        },
{
    item.get(key)
}

/// `Array::len` and `ArrayOfTables::len`: the number of elements of an
/// array; zero for any other item.
#[verifier::external_body]
pub(crate) fn item_len(item: &Item) -> (len: usize)
    ensures
        len == elements_of(item_model(*item)).len(),
{
    match item {
        Item::ArrayOfTables(tables) => tables.len(),
        Item::Value(Value::Array(array)) => array.len(),
        _ => 0,
    }
}

/// `Item::get` with a position: the element of an array at the position, or
/// nothing where the position is past its end.
#[verifier::external_body]
pub(crate) fn item_at<'a>(item: &'a Item, position: usize) -> (element: Option<&'a Item>)
    ensures
        match element {
            Some(found) => position < elements_of(item_model(*item)).len() && item_model(*found)
                == elements_of(item_model(*item))[position as int],
            None => position >= elements_of(item_model(*item)).len(),
        },
{
    item.get(position)
}

/// In a list of entries without a repeated key, each key finds its own
/// entry.
pub proof fn lemma_lookup_finds(entries: Seq<(Seq<char>, NodeView)>, i: int)
    requires
        0 <= i < entries.len(),
        forall|p: int, q: int|
            0 <= p < q < entries.len() ==> (#[trigger] entries[p]).0 != (#[trigger] entries[q]).0,
    ensures
        lookup(entries, entries[i].0) == Some(entries[i].1),
    decreases entries.len(),
{
    if i > 0 {
        let rest = entries.drop_first();
        assert(entries[0].0 != entries[i].0);
        assert forall|p: int, q: int| 0 <= p < q < rest.len() implies (#[trigger] rest[p]).0 != (
        #[trigger] rest[q]).0 by {
            assert(rest[p] == entries[p + 1]);
            assert(rest[q] == entries[q + 1]);
        }
        assert(rest[i - 1] == entries[i]);
        lemma_lookup_finds(rest, i - 1);
    }
}

/// A key that is found is the key of some entry, and a key that is not
/// found is the key of none.
pub proof fn lemma_lookup_is_an_entry(entries: Seq<(Seq<char>, NodeView)>, key: Seq<char>)
    ensures
        match lookup(entries, key) {
            Some(node) => exists|i: int|
                0 <= i < entries.len() && (#[trigger] entries[i]).0 == key && entries[i].1 == node,
            None => forall|i: int| 0 <= i < entries.len() ==> (#[trigger] entries[i]).0 != key,
        },
    decreases entries.len(),
{
    if entries.len() > 0 {
        if entries[0].0 == key {
            assert(entries[0].1 == lookup(entries, key).unwrap());
        } else {
            let rest = entries.drop_first();
            lemma_lookup_is_an_entry(rest, key);
            match lookup(rest, key) {
                Some(node) => {
                    let i = choose|i: int|
                        0 <= i < rest.len() && (#[trigger] rest[i]).0 == key && rest[i].1 == node;
                    assert(entries[i + 1] == rest[i]);
                },
                None => {
                    assert forall|i: int| 0 <= i < entries.len() implies (#[trigger] entries[i]).0
                        != key by {
                        if i > 0 {
                            assert(rest[i - 1] == entries[i]);
                        }
                    }
                },
            }
        }
    }
}

/// Reads the elements of an array, or of an array of tables, into nodes.
fn read_elements(item: &Item) -> (elements: Vec<Node>)
    ensures
        node_views(elements) == elements_of(item_model(*item)),
    decreases item_model(*item), 0int,
{
    let len = item_len(item);
    let mut elements: Vec<Node> = Vec::new();
    let mut i: usize = 0;
    while i < len
        invariant
            i <= len,
            len == elements_of(item_model(*item)).len(),
            elements@.len() == i,
            forall|j: int| 0 <= j < i ==> (#[trigger] elements@[j])@ == elements_of(item_model(*item))[j],
        decreases len - i,
    {
        let node = match item_at(item, i) {
            Some(found) => {
                proof {
                    lemma_element_is_smaller(item_model(*item), i as int);
                }
                read_item(found)
            },
            None => Node::Empty,
        };
        elements.push(node);
        i += 1;
    }
    assert(node_views(elements) =~= elements_of(item_model(*item)));
    elements
}

/// Reads the entries of a table, or of an inline table, into nodes.
fn read_entries(item: &Item) -> (entries: Vec<(String, Node)>)
    ensures
        entry_views(entries) == entries_of(item_model(*item)),
    decreases item_model(*item), 0int,
{
    let keys = item_keys(item);
    let ghost held = entries_of(item_model(*item));
    let mut entries: Vec<(String, Node)> = Vec::new();
    let mut i: usize = 0;
    while i < keys.len()
        invariant
            i <= keys.len(),
            held == entries_of(item_model(*item)),
            keys@.len() == held.len(),
            forall|j: int| 0 <= j < keys@.len() ==> (#[trigger] keys@[j])@ == held[j].0,
            forall|p: int, q: int|
                0 <= p < q < keys@.len() ==> (#[trigger] keys@[p])@ != (#[trigger] keys@[q])@,
            entries@.len() == i,
            forall|j: int|
                0 <= j < i ==> (#[trigger] entries@[j]).0@ == held[j].0 && entries@[j].1@
                    == held[j].1,
        decreases keys.len() - i,
    {
        proof {
            assert forall|p: int, q: int| 0 <= p < q < held.len() implies (#[trigger] held[p]).0 != (
            #[trigger] held[q]).0 by {
                assert(keys@[p]@ != keys@[q]@);
            }
            lemma_lookup_finds(held, i as int);
        }
        let key = keys[i].clone();
        let node = match item_child(item, key.as_str()) {
            Some(found) => {
                proof {
                    lemma_entry_is_smaller(item_model(*item), i as int);
                }
                read_item(found)
            },
            None => Node::Empty,
        };
        entries.push((key, node));
        i += 1;
    }
    assert(entry_views(entries) =~= entries_of(item_model(*item)));
    entries
}

/// An element of an array is a smaller node than the array.
proof fn lemma_element_is_smaller(node: NodeView, i: int)
    requires
        0 <= i < elements_of(node).len(),
    ensures
        decreases_to!(node => elements_of(node)[i]),
{
    let elements = elements_of(node);
    assert(decreases_to!(elements => elements[i]));
    match node {
        NodeView::Array(held) => {
            assert(decreases_to!(node => node->Array_0));
        },
        NodeView::ArrayOfTables(held) => {
            assert(decreases_to!(node => node->ArrayOfTables_0));
        },
        _ => {},
    }
}

/// The node of an entry of a table is a smaller node than the table.
proof fn lemma_entry_is_smaller(node: NodeView, i: int)
    requires
        0 <= i < entries_of(node).len(),
    ensures
        decreases_to!(node => entries_of(node)[i].1),
{
    let entries = entries_of(node);
    assert(decreases_to!(entries => entries[i]));
    assert(decreases_to!(entries[i] => entries[i].1));
    match node {
        NodeView::Table(held) => {
            assert(decreases_to!(node => node->Table_0));
        },
        NodeView::InlineTable(held) => {
            assert(decreases_to!(node => node->InlineTable_0));
        },
        _ => {},
    }
}

/// Reads an item of a document into a node that holds the same.
pub(crate) fn read_item(item: &Item) -> (node: Node)
    ensures
        node@ == item_model(*item),
    decreases item_model(*item), 1int,
{
    match item_shape(item) {
        Shape::Empty => Node::Empty,
        Shape::Scalar => match item_scalar(item) {
            Some(scalar) => scalar,
            None => Node::Empty,
        },
        Shape::Array => Node::Array(read_elements(item)),
        Shape::InlineTable => Node::InlineTable(read_entries(item)),
        Shape::Table => Node::Table(read_entries(item)),
        Shape::ArrayOfTables => Node::ArrayOfTables(read_elements(item)),
    }
}

} // verus!
