//! The tunable parameters of the engine and the binding table.

use crate::bindings::{default_bindings, ActionMap};
use crate::document::{
    deep_cmp, find_entry, lemma_match_is_symmetric, lookup, nodes_match, Node, NodeView,
};
use crate::fixed::{clamp, div_toward_zero, lemma_product_bound, trunc_div, MILLI};
use crate::reader::{
    document_model, document_root, document_text, entries_of, entry_map, item_child, item_keys,
    item_model, lemma_lookup_finds, lemma_lookup_is_an_entry, parse_document, parsed_document,
    read_item, render_document, set_item,
};
use toml_edit::{DocumentMut, TomlError};
use vstd::prelude::*;

verus! {

/// Handle of a connected controller.
#[derive(Clone, Copy, Debug, PartialEq, Eq, Structural, Hash)]
pub struct DeviceId(pub usize);

/// Base speed of a fresh configuration: 70.
pub const SPEED_DEFAULT: i32 = 70_000;

/// Both factors of a fresh configuration: 3.
pub const SPEED_UP_DEFAULT: i32 = 3_000;

/// Step of the speed-increment and speed-decrement actions of a fresh
/// configuration: 5.
pub const SPEED_STEP_DEFAULT: i32 = 5_000;

/// The largest magnitude that the effective multiplier takes.
pub const GAIN_LIMIT: i32 = 2_147_483_647;

/// The transient multiplier, held as the number of times that each of the
/// two factors is applied (a negative number: divided out). A press of a
/// speed action applies its factor once more and its release divides it out
/// once more, so a matching release restores the multiplier exactly.
#[derive(Clone, Copy, Debug, PartialEq, Eq, Structural)]
pub struct Multiplier {
    /// Power of `speed_up`.
    pub up: i32,
    /// Power of `speed_down`.
    pub down: i32,
}

/// The parameters of the engine. Speeds and factors are in thousandths.
#[derive(Debug)]
pub struct Config {
    /// Base speed.
    pub speed: i32,
    /// The transient multiplier; both powers are 0 for 1.0.
    pub speed_mult: Multiplier,
    /// Factor of the speed-up action.
    pub speed_up: i32,
    /// Factor of the speed-down action.
    pub speed_down: i32,
    /// Step of the speed-increment and speed-decrement actions.
    pub speed_step: i32,
    /// The active controller, if one is bound.
    pub gamepad_id: Option<DeviceId>,
    /// What each button triggers.
    pub actions: ActionMap,
}

/// `value` times `factor`, both in thousandths, held within the gain limit.
pub open spec fn applied(value: int, factor: int) -> int {
    clamp(trunc_div(value * factor, MILLI as int), -GAIN_LIMIT, GAIN_LIMIT as int)
}

/// `value` divided by `factor`, both in thousandths, held within the gain
/// limit. Division by a zero factor gives the limit with the sign of
/// `value`.
pub open spec fn released(value: int, factor: int) -> int {
    if factor == 0 {
        if value > 0 {
            GAIN_LIMIT as int
        } else if value < 0 {
            -GAIN_LIMIT
        } else {
            0
        }
    } else {
        clamp(trunc_div(value * MILLI, factor), -GAIN_LIMIT, GAIN_LIMIT as int)
    }
}

/// `value` with `factor` applied `power` times, or divided out `-power`
/// times where `power` is negative; all in thousandths.
pub open spec fn scaled(value: int, factor: int, power: int) -> int
    decreases
            (if power >= 0 {
                power
            } else {
                -power
            }),
{
    if power == 0 {
        value
    } else if power > 0 {
        applied(scaled(value, factor, power - 1), factor)
    } else {
        released(scaled(value, factor, power + 1), factor)
    }
}

/// The effective multiplier in thousandths: one, scaled by `speed_up` as
/// often as the speed-up action is held, then by `speed_down` as often as
/// the speed-down action is held.
pub open spec fn multiplier(config: Config) -> int {
    scaled(
        scaled(MILLI as int, config.speed_up as int, config.speed_mult.up as int),
        config.speed_down as int,
        config.speed_mult.down as int,
    )
}

fn apply_factor(value: i32, factor: i32) -> (scaled: i32)
    requires
        -GAIN_LIMIT <= value,
    ensures
        scaled == applied(value as int, factor as int),
{
    proof {
        lemma_product_bound(value as int, factor as int, 0x8000_0000, 0x8000_0000);
    }
    let product: i64 = (value as i64) * (factor as i64);
    let quotient = div_toward_zero(product as i128, MILLI as i128);
    if quotient > GAIN_LIMIT as i128 {
        GAIN_LIMIT
    } else if quotient < -(GAIN_LIMIT as i128) {
        -GAIN_LIMIT
    } else {
        quotient as i32
    }
}

fn release_factor(value: i32, factor: i32) -> (scaled: i32)
    requires
        -GAIN_LIMIT <= value,
    ensures
        scaled == released(value as int, factor as int),
{
    if factor == 0 {
        if value > 0 {
            GAIN_LIMIT
        } else if value < 0 {
            -GAIN_LIMIT
        } else {
            0
        }
    } else {
        proof {
            lemma_product_bound(value as int, MILLI as int, 0x8000_0000, 1000);
        }
        let product: i64 = (value as i64) * (MILLI as i64);
        let quotient = div_toward_zero(product as i128, factor as i128);
        if quotient > GAIN_LIMIT as i128 {
            GAIN_LIMIT
        } else if quotient < -(GAIN_LIMIT as i128) {
            -GAIN_LIMIT
        } else {
            quotient as i32
        }
    }
}

fn scale(value: i32, factor: i32, power: i32) -> (gain: i32)
    requires
        -GAIN_LIMIT <= value,
    ensures
        gain == scaled(value as int, factor as int, power as int),
        -GAIN_LIMIT <= gain,
{
    let mut gain: i32 = value;
    let mut done: i32 = 0;
    if power >= 0 {
        while done < power
            invariant
                0 <= done <= power,
                gain == scaled(value as int, factor as int, done as int),
                -GAIN_LIMIT <= gain,
            decreases power - done,
        {
            gain = apply_factor(gain, factor);
            done = done + 1;
        }
    } else {
        while done > power
            invariant
                power <= done <= 0,
                gain == scaled(value as int, factor as int, done as int),
                -GAIN_LIMIT <= gain,
            decreases done - power,
        {
            gain = release_factor(gain, factor);
            done = done - 1;
        }
    }
    gain
}

impl Config {
    /// A configuration from persisted values. Whatever was stored, the
    /// transient multiplier starts at one and no controller is active.
    pub fn new(
        speed: i32,
        speed_up: i32,
        speed_down: i32,
        speed_step: i32,
        actions: ActionMap,
    ) -> (config: Self)
        ensures
            config.speed == speed,
            config.speed_mult == (Multiplier { up: 0, down: 0 }),
            config.speed_up == speed_up,
            config.speed_down == speed_down,
            config.speed_step == speed_step,
            config.gamepad_id is None,
            config.actions == actions,
            multiplier(config) == MILLI,
    {
        Config {
            speed,
            speed_mult: Multiplier { up: 0, down: 0 },
            speed_up,
            speed_down,
            speed_step,
            gamepad_id: None,
            actions,
        }
    }

    /// The transient multiplier in thousandths.
    pub fn multiplier(&self) -> (gain: i32)
        ensures
            gain == multiplier(*self),
    {
        let by_up = scale(MILLI, self.speed_up, self.speed_mult.up);
        scale(by_up, self.speed_down, self.speed_mult.down)
    }
}

impl Clone for Config {
    /// A snapshot of the configuration.
    fn clone(&self) -> (copy: Self)
        ensures
            copy.speed == self.speed,
            copy.speed_mult == self.speed_mult,
            copy.speed_up == self.speed_up,
            copy.speed_down == self.speed_down,
            copy.speed_step == self.speed_step,
            copy.gamepad_id == self.gamepad_id,
            copy.actions.wf(),
            copy.actions@ == self.actions@,
            copy.actions.buttons() == self.actions.buttons(),
    {
        Config {
            speed: self.speed,
            speed_mult: self.speed_mult,
            speed_up: self.speed_up,
            speed_down: self.speed_down,
            speed_step: self.speed_step,
            gamepad_id: self.gamepad_id,
            actions: self.actions.clone(),
        }
    }
}

impl Default for Config {
    /// The fresh configuration: speed 70, factors 3, step 5, the multiplier
    /// at one, no active controller, and the default bindings.
    fn default() -> (config: Self)
        ensures
            config.speed == SPEED_DEFAULT,
            config.speed_mult == (Multiplier { up: 0, down: 0 }),
            config.speed_up == SPEED_UP_DEFAULT,
            config.speed_down == SPEED_UP_DEFAULT,
            config.speed_step == SPEED_STEP_DEFAULT,
            config.gamepad_id is None,
            config.actions.wf(),
            config.actions@ == default_bindings(),
    {
        Config {
            speed: SPEED_DEFAULT,
            speed_mult: Multiplier { up: 0, down: 0 },
            speed_up: SPEED_UP_DEFAULT,
            speed_down: SPEED_UP_DEFAULT,
            speed_step: SPEED_STEP_DEFAULT,
            gamepad_id: None,
            actions: ActionMap::default(),
        }
    }
}

/// Why a configuration could not be merged with the document on disk.
#[derive(Debug)]
pub enum ConfigError {
    /// A text is not a well-formed document; the report says where.
    Parse(TomlError),
}

/// Reads a text into the tree of the document it holds. Fails exactly where
/// the text is not a document.
pub fn read_document(text: &str) -> (tree: Result<Node, ConfigError>)
    ensures
        match tree {
            Ok(node) => parsed_document(text@) == Some(node@) && node@ is Table,
            Err(_) => parsed_document(text@) is None,
        },
{
    match parse_document(text) {
        Ok(doc) => Ok(read_item(document_root(&doc))),
        Err(report) => Err(ConfigError::Parse(report)),
    }
}

/// Whether the entry that the document on disk holds under a key has to be
/// written anew: it is missing there, or it does not hold the same as the
/// fresh node.
pub open spec fn is_stale(old: NodeView, key: Seq<char>, fresh: NodeView) -> bool {
    match lookup(entries_of(old), key) {
        Some(held) => !nodes_match(held, fresh),
        None => true,
    }
}

/// What the merged document holds under a key: the fresh node where the
/// fresh document holds one under the key and the entry on disk is stale,
/// else what the document on disk holds there.
pub open spec fn merged_entry(old: NodeView, fresh: NodeView, key: Seq<char>) -> Option<NodeView> {
    match lookup(entries_of(fresh), key) {
        Some(node) => if !(node is Empty) && is_stale(old, key, node) {
            Some(node)
        } else {
            lookup(entries_of(old), key)
        },
        None => lookup(entries_of(old), key),
    }
}

/// The entries of the merged document.
pub open spec fn merged_entries(old: NodeView, fresh: NodeView) -> Map<Seq<char>, NodeView> {
    Map::new(
        |key: Seq<char>| merged_entry(old, fresh, key) is Some,
        |key: Seq<char>| merged_entry(old, fresh, key).unwrap(),
    )
}

/// Decides whether an entry of the document on disk has to be written anew.
pub fn stale(old: &Node, key: &str, fresh: &Node) -> (yes: bool)
    ensures
        yes == is_stale(old@, key@, fresh@),
{
    match old {
        Node::Table(entries) => match find_entry(entries, key) {
            Some(held) => !deep_cmp(held, fresh),
            None => true,
        },
        Node::InlineTable(entries) => match find_entry(entries, key) {
            Some(held) => !deep_cmp(held, fresh),
            None => true,
        },
        _ => true,
    }
}

/// Whether a key is among the first `done` keys of a list of entries.
spec fn named_before(entries: Seq<(Seq<char>, NodeView)>, done: int, key: Seq<char>) -> bool {
    exists|j: int| 0 <= j < done && j < entries.len() && (#[trigger] entries[j]).0 == key
}

/// What the document holds under a key while the first `done` keys of the
/// fresh document have been dealt with.
spec fn partly_merged_entry(old: NodeView, fresh: NodeView, done: int, key: Seq<char>) -> Option<
    NodeView,
> {
    if named_before(entries_of(fresh), done, key) {
        merged_entry(old, fresh, key)
    } else {
        lookup(entries_of(old), key)
    }
}

/// The document while the first `done` keys of the fresh document have been
/// dealt with.
spec fn partly_merged(old: NodeView, fresh: NodeView, done: int) -> Map<Seq<char>, NodeView> {
    Map::new(
        |key: Seq<char>| partly_merged_entry(old, fresh, done, key) is Some,
        |key: Seq<char>| partly_merged_entry(old, fresh, done, key).unwrap(),
    )
}

/// Merges a freshly serialised configuration into the document on disk.
///
/// Both texts have to be documents, else the merge fails. The result is the
/// text of a document that holds what `merged_entries` says: every entry of
/// the document on disk that the fresh one does not name stays as it is, an
/// entry that both name is replaced wherever the two do not hold the same,
/// and an entry that only the fresh one names is added.
pub fn diff(serialized: &str, toml_content: &str) -> (merged: Result<String, ConfigError>)
    ensures
        match merged {
            Ok(text) => parsed_document(toml_content@) is Some && parsed_document(serialized@) is Some
                && exists|doc: DocumentMut|
                text@ == document_text(doc) && #[trigger] entry_map(document_model(doc))
                    == merged_entries(
                    parsed_document(toml_content@).unwrap(),
                    parsed_document(serialized@).unwrap(),
                ),
            Err(_) => parsed_document(toml_content@) is None || parsed_document(serialized@) is None,
        },
{
    let mut doc = match parse_document(toml_content) {
        Ok(doc) => doc,
        Err(report) => {
            return Err(ConfigError::Parse(report));
        },
    };
    let new_doc = match parse_document(serialized) {
        Ok(doc) => doc,
        Err(report) => {
            return Err(ConfigError::Parse(report));
        },
    };
    let old_tree = read_item(document_root(&doc));
    let new_root = document_root(&new_doc);
    let keys = item_keys(new_root);
    let ghost old = old_tree@;
    let ghost fresh = item_model(*new_root);
    let ghost held = entries_of(fresh);
    proof {
        assert forall|p: int, q: int| 0 <= p < q < held.len() implies (#[trigger] held[p]).0 != (
        #[trigger] held[q]).0 by {
            assert(keys@[p]@ != keys@[q]@);
        }
        assert(entry_map(document_model(doc)) =~= partly_merged(old, fresh, 0));
    }
    let mut i: usize = 0;
    while i < keys.len()
        invariant
            i <= keys.len(),
            held == entries_of(fresh),
            fresh == item_model(*new_root),
            old == old_tree@,
            keys@.len() == held.len(),
            forall|j: int| 0 <= j < keys@.len() ==> (#[trigger] keys@[j])@ == held[j].0,
            forall|p: int, q: int|
                0 <= p < q < held.len() ==> (#[trigger] held[p]).0 != (#[trigger] held[q]).0,
            document_model(doc) is Table,
            entry_map(document_model(doc)) == partly_merged(old, fresh, i as int),
        decreases keys.len() - i,
    {
        let key = keys[i].as_str();
        proof {
            lemma_lookup_finds(held, i as int);
        }
        let ghost before = entry_map(document_model(doc));
        match item_child(new_root, key) {
            Some(new_item) => {
                let new_value = read_item(new_item);
                if stale(&old_tree, key, &new_value) {
                    set_item(&mut doc, key, new_item);
                }
            },
            None => {},
        }
        proof {
            let key = held[i as int].0;
            assert forall|other: Seq<char>| #[trigger]
                named_before(held, i + 1, other) <==> (other == key || named_before(
                    held,
                    i as int,
                    other,
                )) by {
                if other == key {
                    assert(held[i as int].0 == other);
                }
            }
            assert(!named_before(held, i as int, key));
            assert(lookup(held, key) == Some(held[i as int].1));
            assert forall|other: Seq<char>| #[trigger]
                partly_merged_entry(old, fresh, i + 1, other) == (if other == key {
                    merged_entry(old, fresh, key)
                } else {
                    partly_merged_entry(old, fresh, i as int, other)
                }) by {}
            assert(before.dom().contains(key) == lookup(entries_of(old), key) is Some);
            assert(entry_map(document_model(doc)) =~= partly_merged(old, fresh, i + 1));
        }
        i += 1;
    }
    proof {
        assert forall|key: Seq<char>| #[trigger]
            named_before(held, held.len() as int, key) <==> lookup(held, key) is Some by {
            lemma_lookup_is_an_entry(held, key);
        }
        assert(partly_merged(old, fresh, held.len() as int) =~= merged_entries(old, fresh));
    }
    Ok(render_document(&doc))
}

/// The text to write when the configuration is saved.
///
/// Where a document is on disk and the merge succeeds, that is the merged
/// document; where none is on disk, or one of the two texts is no document,
/// it is the fresh text as it stands.
pub fn persisted_text(existing: Option<&str>, serialized: &str) -> (text: String)
    ensures
        match existing {
            Some(content) => match (parsed_document(content@), parsed_document(serialized@)) {
                (Some(old), Some(fresh)) => exists|doc: DocumentMut|
                    text@ == document_text(doc) && #[trigger] entry_map(document_model(doc))
                        == merged_entries(old, fresh),
                _ => text@ == serialized@,
            },
            None => text@ == serialized@,
        },
{
    match existing {
        Some(content) => match diff(serialized, content) {
            Ok(text) => text,
            Err(_) => serialized.to_string(),
        },
        None => serialized.to_string(),
    }
}

/// An entry of the document on disk that the fresh configuration does not
/// name is still there after the merge, and holds what it held.
pub proof fn lemma_unknown_entry_survives(old: NodeView, fresh: NodeView, key: Seq<char>)
    requires
        lookup(entries_of(old), key) is Some,
        lookup(entries_of(fresh), key) is None,
    ensures
        merged_entries(old, fresh).dom().contains(key),
        merged_entries(old, fresh)[key] == lookup(entries_of(old), key).unwrap(),
{
}

/// Under every key under which the fresh configuration holds a node, the
/// merged document holds that node or one that holds the same.
pub proof fn lemma_merged_holds_fresh(old: NodeView, fresh: NodeView, key: Seq<char>)
    requires
        lookup(entries_of(fresh), key) is Some,
        !(lookup(entries_of(fresh), key).unwrap() is Empty),
    ensures
        merged_entries(old, fresh).dom().contains(key),
        merged_entries(old, fresh)[key] == lookup(entries_of(fresh), key).unwrap() || (nodes_match(
            merged_entries(old, fresh)[key],
            lookup(entries_of(fresh), key).unwrap(),
        ) && nodes_match(
            lookup(entries_of(fresh), key).unwrap(),
            merged_entries(old, fresh)[key],
        )),
{
    let node = lookup(entries_of(fresh), key).unwrap();
    if !is_stale(old, key, node) {
        lemma_match_is_symmetric(lookup(entries_of(old), key).unwrap(), node);
    }
}

/// The merged document names exactly the keys that the document on disk
/// names and those under which the fresh configuration holds a node.
pub proof fn lemma_merged_keys(old: NodeView, fresh: NodeView, key: Seq<char>)
    ensures
        merged_entries(old, fresh).dom().contains(key) <==> lookup(entries_of(old), key) is Some || (
        lookup(entries_of(fresh), key) is Some && !(lookup(entries_of(fresh), key).unwrap() is Empty)),
{
}

} // verus!
