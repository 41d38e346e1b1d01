//! Nodes of the tree and the values attached to them, as navigation sees
//! them.

use vstd::prelude::*;
use vstd::utf8::encode_utf8;
use crate::order::bytes_le;
use crate::order::bytes_le_exec;
use crate::order::lemma_bytes_le_total;
use crate::order::lemma_bytes_le_transitive;
use crate::sort::KeySort;

verus! {

/// The typed payload of a value.
#[derive(Debug)]
pub enum ValueContent {
    Absent,
    Binary(Vec<u8>),
    Text(String),
    MultiText(Vec<String>),
    U32(u32),
    I32(i32),
    U64(u64),
    I64(i64),
    Error,
}

/// A named datum that belongs to one node.
#[derive(Debug)]
pub struct Value {
    pub name: String,
    pub data_type: String,
    pub content: ValueContent,
}

/// An entry of the tree. Navigation orders and selects nodes and never
/// changes them.
#[derive(Debug)]
pub struct Node {
    /// Stable identity, unique within the tree.
    pub identity: usize,
    /// Display name.
    pub name: String,
    /// The names from the root down to this node, separated by backslashes.
    pub path: String,
    /// Number of direct children.
    pub subkey_count: u32,
    /// Time of the last change, in ticks since a fixed epoch.
    pub last_written: u64,
    /// The node's values, in the order of the tree.
    pub values: Vec<Value>,
}

/// The bytes by which a name sorts.
pub open spec fn name_bytes(node: Node) -> Seq<u8> {
    encode_utf8(node.name@)
}

/// `a` does not sort after `b` under the criterion: ascending numbers and
/// times, names in lexicographic order.
pub open spec fn key_le(a: Node, b: Node, mode: KeySort) -> bool {
    match mode {
        KeySort::SubkeyCount => a.subkey_count <= b.subkey_count,
        KeySort::KeyName => bytes_le(name_bytes(a), name_bytes(b)),
        KeySort::LastWrite => a.last_written <= b.last_written,
    }
}

/// Under each criterion any two nodes are comparable.
pub proof fn lemma_key_le_total(a: Node, b: Node, mode: KeySort)
    ensures
        key_le(a, b, mode) || key_le(b, a, mode),
{
    lemma_bytes_le_total(name_bytes(a), name_bytes(b));
}

/// Each criterion is transitive.
pub proof fn lemma_key_le_transitive(a: Node, b: Node, c: Node, mode: KeySort)
    requires
        key_le(a, b, mode),
        key_le(b, c, mode),
    ensures
        key_le(a, c, mode),
{
    if mode == KeySort::KeyName {
        lemma_bytes_le_transitive(name_bytes(a), name_bytes(b), name_bytes(c));
    }
}

impl Node {
    /// Decides `key_le`.
    pub fn sorts_le(&self, other: &Node, mode: KeySort) -> (le: bool)
        ensures
            le == key_le(*self, *other, mode),
    {
        match mode {
            KeySort::SubkeyCount => self.subkey_count <= other.subkey_count,
            KeySort::KeyName => bytes_le_exec(
                self.name.as_str().as_bytes(),
                other.name.as_str().as_bytes(),
            ),
            KeySort::LastWrite => self.last_written <= other.last_written,
        }
    }
}

} // verus!
