//! Configuration documents as trees of plain values, and the comparison that
//! decides whether an entry on disk is out of date.

use crate::buttons::same_text;
use vstd::prelude::*;

verus! {

/// A node of a document: nothing, a value, a table, or an array of tables.
///
/// A float is held by its bit pattern and a date-time by its text.
#[derive(Debug)]
pub enum Node {
    /// No node at all: an entry that was taken out.
    Empty,
    String(String),
    Integer(i64),
    Float(u64),
    Boolean(bool),
    Datetime(String),
    Array(Vec<Node>),
    InlineTable(Vec<(String, Node)>),
    Table(Vec<(String, Node)>),
    ArrayOfTables(Vec<Node>),
}

/// What a `Node` holds, as plain values.
pub enum NodeView {
    Empty,
    String(Seq<char>),
    Integer(i64),
    Float(u64),
    Boolean(bool),
    Datetime(Seq<char>),
    Array(Seq<NodeView>),
    InlineTable(Seq<(Seq<char>, NodeView)>),
    Table(Seq<(Seq<char>, NodeView)>),
    ArrayOfTables(Seq<NodeView>),
}

/// The views of a list of nodes, in the same order.
pub open spec fn node_views(nodes: Vec<Node>) -> Seq<NodeView>
    decreases nodes,
{
    Seq::new(
        nodes.len() as nat,
        |i: int|
            if 0 <= i < nodes.len() {
                nodes[i].view()
            } else {
                NodeView::Empty
            },
    )
}

/// The views of a list of entries, in the same order.
pub open spec fn entry_views(entries: Vec<(String, Node)>) -> Seq<(Seq<char>, NodeView)>
    decreases entries,
{
    Seq::new(
        entries.len() as nat,
        |i: int|
            if 0 <= i < entries.len() {
                (entries[i].0@, entries[i].1.view())
            } else {
                (Seq::empty(), NodeView::Empty)
            },
    )
}

impl View for Node {
    type V = NodeView;

    open spec fn view(&self) -> NodeView
        decreases self,
    {
        match self {
            Node::Empty => NodeView::Empty,
            Node::String(text) => NodeView::String(text@),
            Node::Integer(number) => NodeView::Integer(*number),
            Node::Float(bits) => NodeView::Float(*bits),
            Node::Boolean(truth) => NodeView::Boolean(*truth),
            Node::Datetime(text) => NodeView::Datetime(text@),
            Node::Array(elements) => NodeView::Array(node_views(*elements)),
            Node::InlineTable(entries) => NodeView::InlineTable(entry_views(*entries)),
            Node::Table(entries) => NodeView::Table(entry_views(*entries)),
            Node::ArrayOfTables(tables) => NodeView::ArrayOfTables(node_views(*tables)),
        }
    }
}

/// The node that a table holds under `key`: that of the first entry with
/// this key.
pub open spec fn lookup(entries: Seq<(Seq<char>, NodeView)>, key: Seq<char>) -> Option<NodeView>
    decreases entries.len(),
{
    if entries.len() == 0 {
        None
    } else if entries[0].0 == key {
        Some(entries[0].1)
    } else {
        lookup(entries.drop_first(), key)
    }
}

/// The bit pattern of a float without its sign.
pub open spec fn float_magnitude(bits: u64) -> int {
    bits as int % 0x8000_0000_0000_0000
}

/// Whether a bit pattern is that of a float that is not a number: the
/// exponent is all ones and the fraction is not zero.
pub open spec fn is_nan(bits: u64) -> bool {
    float_magnitude(bits) > 0x7FF0_0000_0000_0000
}

/// Whether two floats, given by their bit patterns, are equal as numbers:
/// both are numbers, and they have the same bits or are both zero, whatever
/// the sign of each zero.
pub open spec fn floats_equal(x: u64, y: u64) -> bool {
    !is_nan(x) && !is_nan(y) && (x == y || (float_magnitude(x) == 0 && float_magnitude(y) == 0))
}

/// Whether the entry at `i` is the first with its key.
pub open spec fn first_at(entries: Seq<(Seq<char>, NodeView)>, i: int) -> bool {
    forall|p: int| 0 <= p < i ==> (#[trigger] entries[p]).0 != entries[i].0
}

/// Whether a node is a value: a scalar, an array or an inline table.
pub open spec fn is_value(node: NodeView) -> bool {
    !(node is Empty || node is Table || node is ArrayOfTables)
}

/// Whether two nodes hold the same.
///
/// Two nodes of different kinds never do. Two scalars do when they are
/// equal, floats as numbers. Two arrays, and two arrays of tables, do when
/// they have the same length and hold the same at each position. Two
/// tables, and two inline tables, do when each key of either is a key of the
/// other and both hold the same under it, in whatever order; where a key
/// occurs twice, its first entry counts.
pub open spec fn nodes_match(a: NodeView, b: NodeView) -> bool
    decreases a,
{
    match (a, b) {
        (NodeView::Empty, NodeView::Empty) => true,
        (NodeView::String(x), NodeView::String(y)) => x == y,
        (NodeView::Integer(x), NodeView::Integer(y)) => x == y,
        (NodeView::Float(x), NodeView::Float(y)) => floats_equal(x, y),
        (NodeView::Boolean(x), NodeView::Boolean(y)) => x == y,
        (NodeView::Datetime(x), NodeView::Datetime(y)) => x == y,
        (NodeView::Array(x), NodeView::Array(y)) => x.len() == y.len() && forall|i: int|
            0 <= i < x.len() ==> nodes_match(#[trigger] x[i], y[i]),
        (NodeView::ArrayOfTables(x), NodeView::ArrayOfTables(y)) => x.len() == y.len()
            && forall|i: int| 0 <= i < x.len() ==> nodes_match(#[trigger] x[i], y[i]),
        (NodeView::InlineTable(x), NodeView::InlineTable(y)) => (forall|i: int|
            0 <= i < x.len() && first_at(x, i) ==> match lookup(y, (#[trigger] x[i]).0) {
                Some(other) => nodes_match(x[i].1, other),
                None => false,
            }) && forall|j: int| 0 <= j < y.len() ==> lookup(x, (#[trigger] y[j]).0) is Some,
        (NodeView::Table(x), NodeView::Table(y)) => (forall|i: int|
            0 <= i < x.len() && first_at(x, i) ==> match lookup(y, (#[trigger] x[i]).0) {
                Some(other) => nodes_match(x[i].1, other),
                None => false,
            }) && forall|j: int| 0 <= j < y.len() ==> lookup(x, (#[trigger] y[j]).0) is Some,
        _ => false,
    }
}

/// Whether two lists of nodes have the same length and hold the same at
/// each position.
pub open spec fn lists_match(x: Seq<NodeView>, y: Seq<NodeView>) -> bool {
    x.len() == y.len() && forall|i: int| 0 <= i < x.len() ==> nodes_match(#[trigger] x[i], y[i])
}

/// Whether two lists of entries have the same keys and hold the same under
/// each.
pub open spec fn entries_match(
    x: Seq<(Seq<char>, NodeView)>,
    y: Seq<(Seq<char>, NodeView)>,
) -> bool {
    (forall|i: int|
        0 <= i < x.len() && first_at(x, i) ==> match lookup(y, (#[trigger] x[i]).0) {
            Some(other) => nodes_match(x[i].1, other),
            None => false,
        }) && forall|j: int| 0 <= j < y.len() ==> lookup(x, (#[trigger] y[j]).0) is Some
}

/// An element of a list of nodes is smaller than a node that holds the list.
proof fn lemma_elements_are_smaller(a: NodeView, x: Seq<NodeView>)
    requires
        a == NodeView::Array(x) || a == NodeView::ArrayOfTables(x),
    ensures
        forall|i: int| 0 <= i < x.len() ==> decreases_to!(a => #[trigger] x[i]),
{
    assert forall|i: int| 0 <= i < x.len() implies decreases_to!(a => #[trigger] x[i]) by {
        if a is Array {
            assert(decreases_to!(a => a->Array_0));
        } else {
            assert(decreases_to!(a => a->ArrayOfTables_0));
        }
        assert(decreases_to!(x => x[i]));
    }
}

/// The node of an entry is smaller than a node that holds the entries.
proof fn lemma_entries_are_smaller(a: NodeView, x: Seq<(Seq<char>, NodeView)>)
    requires
        a == NodeView::Table(x) || a == NodeView::InlineTable(x),
    ensures
        forall|i: int| 0 <= i < x.len() ==> decreases_to!(a => (#[trigger] x[i]).1),
{
    assert forall|i: int| 0 <= i < x.len() implies decreases_to!(a => (#[trigger] x[i]).1) by {
        if a is Table {
            assert(decreases_to!(a => a->Table_0));
        } else {
            assert(decreases_to!(a => a->InlineTable_0));
        }
        assert(decreases_to!(x => x[i]));
        assert(decreases_to!(x[i] => x[i].1));
    }
}

/// Two nodes of one kind that hold lists match exactly when their lists do.
pub proof fn lemma_nodes_match_unfolds(a: NodeView, b: NodeView)
    ensures
        a is Array && b is Array ==> nodes_match(a, b) == lists_match(a->Array_0, b->Array_0),
        a is ArrayOfTables && b is ArrayOfTables ==> nodes_match(a, b) == lists_match(
            a->ArrayOfTables_0,
            b->ArrayOfTables_0,
        ),
        a is InlineTable && b is InlineTable ==> nodes_match(a, b) == entries_match(
            a->InlineTable_0,
            b->InlineTable_0,
        ),
        a is Table && b is Table ==> nodes_match(a, b) == entries_match(a->Table_0, b->Table_0),
{
    if a is Array {
        lemma_elements_are_smaller(a, a->Array_0);
    }
    if a is ArrayOfTables {
        lemma_elements_are_smaller(a, a->ArrayOfTables_0);
    }
    if a is InlineTable {
        lemma_entries_are_smaller(a, a->InlineTable_0);
    }
    if a is Table {
        lemma_entries_are_smaller(a, a->Table_0);
    }
}

/// The entry that is the first with its key is the one that a lookup of the
/// key finds.
pub proof fn lemma_lookup_at_first(entries: Seq<(Seq<char>, NodeView)>, i: int)
    requires
        0 <= i < entries.len(),
        first_at(entries, i),
    ensures
        lookup(entries, entries[i].0) == Some(entries[i].1),
    decreases entries.len(),
{
    if i > 0 {
        let rest = entries.drop_first();
        assert(entries[0].0 != entries[i].0);
        assert(rest[i - 1] == entries[i]);
        assert forall|p: int| 0 <= p < i - 1 implies (#[trigger] rest[p]).0 != rest[i - 1].0 by {
            assert(rest[p] == entries[p + 1]);
        }
        lemma_lookup_at_first(rest, i - 1);
    }
}

/// What a lookup finds is the first entry with the key; it finds nothing
/// exactly where no entry has the key.
pub proof fn lemma_lookup_first(entries: Seq<(Seq<char>, NodeView)>, key: Seq<char>)
    ensures
        match lookup(entries, key) {
            Some(node) => exists|i: int|
                0 <= i < entries.len() && first_at(entries, i) && (#[trigger] entries[i]).0 == key
                    && entries[i].1 == node,
            None => forall|i: int| 0 <= i < entries.len() ==> (#[trigger] entries[i]).0 != key,
        },
    decreases entries.len(),
{
    if entries.len() > 0 {
        if entries[0].0 == key {
            assert(first_at(entries, 0) && entries[0].0 == key && entries[0].1 == lookup(
                entries,
                key,
            ).unwrap());
        } else {
            let rest = entries.drop_first();
            lemma_lookup_first(rest, key);
            match lookup(rest, key) {
                Some(node) => {
                    let i = choose|i: int|
                        0 <= i < rest.len() && first_at(rest, i) && (#[trigger] rest[i]).0 == key
                            && rest[i].1 == node;
                    assert(entries[i + 1] == rest[i]);
                    assert forall|p: int| 0 <= p < i + 1 implies (#[trigger] entries[p]).0
                        != entries[i + 1].0 by {
                        if p > 0 {
                            assert(entries[p] == rest[p - 1]);
                        }
                    }
                    assert(first_at(entries, i + 1));
                },
                None => {
                    assert forall|i: int| 0 <= i < entries.len() implies (#[trigger] entries[i]).0
                        != key by {
                        if i > 0 {
                            assert(rest[i - 1] == entries[i]);
                        }
                    }
                },
            }
        }
    }
}

/// Whether no float in a node is not a number.
pub open spec fn free_of_nan(node: NodeView) -> bool
    decreases node,
{
    match node {
        NodeView::Float(bits) => !is_nan(bits),
        NodeView::Array(x) => forall|i: int| 0 <= i < x.len() ==> free_of_nan(#[trigger] x[i]),
        NodeView::ArrayOfTables(x) => forall|i: int|
            0 <= i < x.len() ==> free_of_nan(#[trigger] x[i]),
        NodeView::InlineTable(x) => forall|i: int|
            0 <= i < x.len() ==> free_of_nan((#[trigger] x[i]).1),
        NodeView::Table(x) => forall|i: int| 0 <= i < x.len() ==> free_of_nan((#[trigger] x[i]).1),
        _ => true,
    }
}

/// Every node holds the same as itself, unless a float in it is not a
/// number: such a float equals nothing.
pub proof fn lemma_match_is_reflexive(a: NodeView)
    requires
        free_of_nan(a),
    ensures
        nodes_match(a, a),
    decreases a,
{
    lemma_nodes_match_unfolds(a, a);
    match a {
        NodeView::Array(x) => {
            lemma_elements_are_smaller(a, x);
            assert forall|i: int| 0 <= i < x.len() implies nodes_match(#[trigger] x[i], x[i]) by {
                lemma_match_is_reflexive(x[i]);
            }
        },
        NodeView::ArrayOfTables(x) => {
            lemma_elements_are_smaller(a, x);
            assert forall|i: int| 0 <= i < x.len() implies nodes_match(#[trigger] x[i], x[i]) by {
                lemma_match_is_reflexive(x[i]);
            }
        },
        NodeView::InlineTable(x) => {
            lemma_entries_are_smaller(a, x);
            assert forall|i: int| 0 <= i < x.len() implies nodes_match((#[trigger] x[i]).1, x[i].1) by {
                lemma_match_is_reflexive(x[i].1);
            }
            lemma_entries_match_themselves(x);
        },
        NodeView::Table(x) => {
            lemma_entries_are_smaller(a, x);
            assert forall|i: int| 0 <= i < x.len() implies nodes_match((#[trigger] x[i]).1, x[i].1) by {
                lemma_match_is_reflexive(x[i].1);
            }
            lemma_entries_match_themselves(x);
        },
        _ => {},
    }
}

/// A list of entries matches itself where each of its nodes does.
proof fn lemma_entries_match_themselves(x: Seq<(Seq<char>, NodeView)>)
    requires
        forall|i: int| 0 <= i < x.len() ==> nodes_match((#[trigger] x[i]).1, x[i].1),
    ensures
        entries_match(x, x),
{
    assert forall|i: int| 0 <= i < x.len() && first_at(x, i) implies match lookup(
        x,
        (#[trigger] x[i]).0,
    ) {
        Some(other) => nodes_match(x[i].1, other),
        None => false,
    } by {
        lemma_lookup_at_first(x, i);
    }
    assert forall|j: int| 0 <= j < x.len() implies lookup(x, (#[trigger] x[j]).0) is Some by {
        lemma_lookup_first(x, x[j].0);
    }
}

/// Where one node holds the same as another, the other holds the same as
/// the one.
pub proof fn lemma_match_is_symmetric(a: NodeView, b: NodeView)
    requires
        nodes_match(a, b),
    ensures
        nodes_match(b, a),
    decreases a,
{
    lemma_nodes_match_unfolds(a, b);
    lemma_nodes_match_unfolds(b, a);
    match (a, b) {
        (NodeView::Array(x), NodeView::Array(y)) => {
            lemma_elements_are_smaller(a, x);
            assert forall|i: int| 0 <= i < y.len() implies nodes_match(#[trigger] y[i], x[i]) by {
                assert(nodes_match(x[i], y[i]));
                lemma_match_is_symmetric(x[i], y[i]);
            }
        },
        (NodeView::ArrayOfTables(x), NodeView::ArrayOfTables(y)) => {
            lemma_elements_are_smaller(a, x);
            assert forall|i: int| 0 <= i < y.len() implies nodes_match(#[trigger] y[i], x[i]) by {
                assert(nodes_match(x[i], y[i]));
                lemma_match_is_symmetric(x[i], y[i]);
            }
        },
        (NodeView::InlineTable(x), NodeView::InlineTable(y)) => {
            lemma_entries_are_smaller(a, x);
            assert forall|j: int| 0 <= j < y.len() && first_at(y, j) implies match lookup(
                x,
                (#[trigger] y[j]).0,
            ) {
                Some(other) => nodes_match(y[j].1, other),
                None => false,
            } by {
                let key = y[j].0;
                lemma_lookup_first(x, key);
                let i = choose|i: int|
                    0 <= i < x.len() && first_at(x, i) && (#[trigger] x[i]).0 == key && x[i].1
                        == lookup(x, key).unwrap();
                lemma_lookup_at_first(y, j);
                assert(nodes_match(x[i].1, y[j].1));
                lemma_match_is_symmetric(x[i].1, y[j].1);
            }
            assert forall|i: int| 0 <= i < x.len() implies lookup(y, (#[trigger] x[i]).0) is Some by {
                let key = x[i].0;
                lemma_lookup_first(x, key);
                let first = choose|p: int|
                    0 <= p < x.len() && first_at(x, p) && (#[trigger] x[p]).0 == key && x[p].1
                        == lookup(x, key).unwrap();
                assert(lookup(y, x[first].0) is Some);
            }
        },
        (NodeView::Table(x), NodeView::Table(y)) => {
            lemma_entries_are_smaller(a, x);
            assert forall|j: int| 0 <= j < y.len() && first_at(y, j) implies match lookup(
                x,
                (#[trigger] y[j]).0,
            ) {
                Some(other) => nodes_match(y[j].1, other),
                None => false,
            } by {
                let key = y[j].0;
                lemma_lookup_first(x, key);
                let i = choose|i: int|
                    0 <= i < x.len() && first_at(x, i) && (#[trigger] x[i]).0 == key && x[i].1
                        == lookup(x, key).unwrap();
                lemma_lookup_at_first(y, j);
                assert(nodes_match(x[i].1, y[j].1));
                lemma_match_is_symmetric(x[i].1, y[j].1);
            }
            assert forall|i: int| 0 <= i < x.len() implies lookup(y, (#[trigger] x[i]).0) is Some by {
                let key = x[i].0;
                lemma_lookup_first(x, key);
                let first = choose|p: int|
                    0 <= p < x.len() && first_at(x, p) && (#[trigger] x[p]).0 == key && x[p].1
                        == lookup(x, key).unwrap();
                assert(lookup(y, x[first].0) is Some);
            }
        },
        _ => {},
    }
}

/// The position of the first entry of a table under `key`.
pub fn first_position(entries: &Vec<(String, Node)>, key: &str) -> (found: Option<usize>)
    ensures
        match found {
            Some(i) => i < entries.len() && entry_views(*entries)[i as int].0 == key@ && first_at(
                entry_views(*entries),
                i as int,
            ),
            None => forall|p: int|
                0 <= p < entries.len() ==> (#[trigger] entry_views(*entries)[p]).0 != key@,
        },
{
    let mut i: usize = 0;
    while i < entries.len()
        invariant
            i <= entries.len(),
            forall|p: int| 0 <= p < i ==> (#[trigger] entry_views(*entries)[p]).0 != key@,
        decreases entries.len() - i,
    {
        if same_text(entries[i].0.as_str(), key) {
            return Some(i);
        }
        i += 1;
    }
    None
}

/// The first entry of a table under `key`.
pub fn find_entry<'a>(entries: &'a Vec<(String, Node)>, key: &str) -> (found: Option<&'a Node>)
    ensures
        match found {
            Some(node) => lookup(entry_views(*entries), key@) == Some(node@),
            None => lookup(entry_views(*entries), key@) is None,
        },
{
    proof {
        lemma_lookup_first(entry_views(*entries), key@);
    }
    match first_position(entries, key) {
        Some(i) => {
            proof {
                lemma_lookup_at_first(entry_views(*entries), i as int);
            }
            Some(&entries[i].1)
        },
        None => None,
    }
}

fn is_a_value(node: &Node) -> (yes: bool)
    ensures
        yes == is_value(node@),
{
    match node {
        Node::Empty => false,
        Node::Table(_) => false,
        Node::ArrayOfTables(_) => false,
        _ => true,
    }
}

fn floats_are_equal(x: u64, y: u64) -> (same: bool)
    ensures
        same == floats_equal(x, y),
{
    let p: u64 = x % 0x8000_0000_0000_0000;
    let q: u64 = y % 0x8000_0000_0000_0000;
    p <= 0x7FF0_0000_0000_0000 && q <= 0x7FF0_0000_0000_0000 && (x == y || (p == 0 && q == 0))
}

/// Compares two values: whether both are values and hold the same.
pub fn cmp_value(a: &Node, b: &Node) -> (same: bool)
    ensures
        same == (is_value(a@) && is_value(b@) && nodes_match(a@, b@)),
{
    is_a_value(a) && is_a_value(b) && deep_cmp(a, b)
}

/// Compares two arrays: whether they have the same length and hold the same
/// at each position.
pub fn array_cmp(a: &Vec<Node>, b: &Vec<Node>) -> (same: bool)
    ensures
        same == lists_match(node_views(*a), node_views(*b)),
    decreases a,
{
    if a.len() != b.len() {
        return false;
    }
    let mut i: usize = 0;
    let ghost mut at: int = 0;
    while i < a.len()
        invariant
            at == i,
            i <= a.len(),
            a.len() == b.len(),
            forall|j: int|
                0 <= j < i ==> nodes_match(#[trigger] node_views(*a)[j], node_views(*b)[j]),
        decreases a.len() - i,
    {
        if !deep_cmp(&a[i], &b[i]) {
            assert(!nodes_match(node_views(*a)[at], node_views(*b)[at]));
            return false;
        }
        i += 1;
        proof {
            at = at + 1;
        }
    }
    true
}

/// Compares two inline tables: whether they have the same keys and hold the
/// same under each.
pub fn inline_table_cmp(a: &Vec<(String, Node)>, b: &Vec<(String, Node)>) -> (same: bool)
    ensures
        same == entries_match(entry_views(*a), entry_views(*b)),
    decreases a, 1int,
{
    table_cmp(a, b)
}

/// Compares two tables: whether they have the same keys and hold the same
/// under each.
pub fn table_cmp(a: &Vec<(String, Node)>, b: &Vec<(String, Node)>) -> (same: bool)
    ensures
        same == entries_match(entry_views(*a), entry_views(*b)),
    decreases a, 0int,
{
    let ghost x = entry_views(*a);
    let ghost y = entry_views(*b);
    let mut i: usize = 0;
    let ghost mut at: int = 0;
    while i < a.len()
        invariant
            at == i,
            i <= a.len(),
            x == entry_views(*a),
            y == entry_views(*b),
            forall|p: int|
                0 <= p < i && first_at(x, p) ==> match lookup(y, (#[trigger] x[p]).0) {
                    Some(other) => nodes_match(x[p].1, other),
                    None => false,
                },
        decreases a.len() - i,
    {
        let first = first_position(a, a[i].0.as_str());
        if first == Some(i) {
            let same = match find_entry(b, a[i].0.as_str()) {
                Some(other) => deep_cmp(&a[i].1, other),
                None => false,
            };
            if !same {
                assert(x[at] == (a[at].0@, a[at].1@));
                assert(first_at(x, at));
                return false;
            }
        } else {
            assert(!first_at(x, at));
        }
        i += 1;
        proof {
            at = at + 1;
        }
    }
    let mut j: usize = 0;
    let ghost mut seen: int = 0;
    while j < b.len()
        invariant
            seen == j,
            j <= b.len(),
            x == entry_views(*a),
            y == entry_views(*b),
            forall|q: int| 0 <= q < j ==> lookup(x, (#[trigger] y[q]).0) is Some,
        decreases b.len() - j,
    {
        if find_entry(a, b[j].0.as_str()).is_none() {
            assert(y[seen] == (b[seen].0@, b[seen].1@));
            return false;
        }
        j += 1;
        proof {
            seen = seen + 1;
        }
    }
    true
}

/// Compares two nodes: whether they hold the same, as `nodes_match` says.
pub fn deep_cmp(a: &Node, b: &Node) -> (same: bool)
    ensures
        same == nodes_match(a@, b@),
    decreases a, 2int,
{
    proof {
        lemma_nodes_match_unfolds(a@, b@);
    }
    match (a, b) {
        (Node::Empty, Node::Empty) => true,
        (Node::String(x), Node::String(y)) => same_text(x.as_str(), y.as_str()),
        (Node::Integer(x), Node::Integer(y)) => *x == *y,
        (Node::Float(x), Node::Float(y)) => floats_are_equal(*x, *y),
        (Node::Boolean(x), Node::Boolean(y)) => *x == *y,
        (Node::Datetime(x), Node::Datetime(y)) => same_text(x.as_str(), y.as_str()),
        (Node::Array(x), Node::Array(y)) => array_cmp(x, y),
        (Node::ArrayOfTables(x), Node::ArrayOfTables(y)) => array_cmp(x, y),
        (Node::InlineTable(x), Node::InlineTable(y)) => inline_table_cmp(x, y),
        (Node::Table(x), Node::Table(y)) => table_cmp(x, y),
        _ => false,
    }
}

} // verus!
