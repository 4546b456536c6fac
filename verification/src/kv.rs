//! Key-value trees and resource containers, as plain values: what the decoders of meshes, models,
//! materials and worlds read from a parsed resource.

use crate::text::same;
use vstd::prelude::*;

verus! {

/// A number of a key-value tree, in each of the readings that a decoder may ask for: as a signed
/// and as an unsigned integer, where it is one, and as a single-precision number.
#[derive(Debug, Clone, Copy, PartialEq, Eq, Structural)]
pub struct Number {
    pub signed: Option<i64>,
    pub unsigned: Option<u64>,
    /// The bits of the single-precision reading.
    pub single: u32,
}

/// A node of a key-value tree.
#[derive(Debug)]
pub enum Value {
    Null,
    Bool(bool),
    Number(Number),
    String(String),
    Blob(Vec<u8>),
    Array(Vec<Value>),
    Object(Object),
}

/// The entries of a node, in the order in which they were written.
#[derive(Debug)]
pub struct Object {
    pub entries: Vec<(String, Value)>,
}

/// The first entry from `from` on whose key is `key`.
pub open spec fn entry_from(entries: Seq<(String, Value)>, key: Seq<char>, from: int) -> Option<
    Value,
>
    decreases entries.len() - from,
{
    if from < 0 || from >= entries.len() {
        None
    } else if entries[from].0@ == key {
        Some(entries[from].1)
    } else {
        entry_from(entries, key, from + 1)
    }
}

/// The value under `key`: the first such entry of an object, nothing of any other node.
pub open spec fn child(v: Value, key: Seq<char>) -> Option<Value> {
    match v {
        Value::Object(o) => entry_from(o.entries@, key, 0),
        _ => None,
    }
}

/// The node as a signed integer.
pub open spec fn signed_of(v: Value) -> Option<i64> {
    match v {
        Value::Number(n) => n.signed,
        _ => None,
    }
}

/// The node as an unsigned integer.
pub open spec fn unsigned_of(v: Value) -> Option<u64> {
    match v {
        Value::Number(n) => n.unsigned,
        _ => None,
    }
}

/// The node as the bits of a single.
pub open spec fn single_of(v: Value) -> Option<u32> {
    match v {
        Value::Number(n) => Some(n.single),
        _ => None,
    }
}

/// The node as a truth value.
pub open spec fn bool_of(v: Value) -> Option<bool> {
    match v {
        Value::Bool(b) => Some(b),
        _ => None,
    }
}

/// The node as a string.
pub open spec fn string_in(v: Value) -> Option<String> {
    match v {
        Value::String(s) => Some(s),
        _ => None,
    }
}

/// The node as a run of bytes.
pub open spec fn blob_of(v: Value) -> Option<Seq<u8>> {
    match v {
        Value::Blob(b) => Some(b@),
        _ => None,
    }
}

/// The node as a list.
pub open spec fn items_of(v: Value) -> Option<Seq<Value>> {
    match v {
        Value::Array(a) => Some(a@),
        _ => None,
    }
}

/// A truth value, or an integer that is not zero.
pub open spec fn truth_of(v: Value) -> Option<bool> {
    match bool_of(v) {
        Some(b) => Some(b),
        None => match signed_of(v) {
            Some(i) => Some(i != 0),
            None => None,
        },
    }
}

/// The signed integer under `key`.
pub open spec fn signed_at(v: Value, key: Seq<char>) -> Option<i64> {
    match child(v, key) {
        Some(c) => signed_of(c),
        None => None,
    }
}

/// The unsigned integer under `key`.
pub open spec fn unsigned_at(v: Value, key: Seq<char>) -> Option<u64> {
    match child(v, key) {
        Some(c) => unsigned_of(c),
        None => None,
    }
}

/// The single under `key`.
pub open spec fn single_at(v: Value, key: Seq<char>) -> Option<u32> {
    match child(v, key) {
        Some(c) => single_of(c),
        None => None,
    }
}

/// The string under `key`.
pub open spec fn string_at(v: Value, key: Seq<char>) -> Option<String> {
    match child(v, key) {
        Some(c) => string_in(c),
        None => None,
    }
}

/// The truth value, or integer that is not zero, under `key`.
pub open spec fn truth_at(v: Value, key: Seq<char>) -> Option<bool> {
    match child(v, key) {
        Some(c) => truth_of(c),
        None => None,
    }
}

/// The list under `key`.
pub open spec fn items_at(v: Value, key: Seq<char>) -> Option<Seq<Value>> {
    match child(v, key) {
        Some(c) => items_of(c),
        None => None,
    }
}

/// The strings of a list, without its other nodes.
pub open spec fn strings_of(items: Seq<Value>) -> Seq<String>
    decreases items.len(),
{
    if items.len() == 0 {
        Seq::empty()
    } else {
        let before = strings_of(items.drop_last());
        match items.last() {
            Value::String(s) => before.push(s),
            _ => before,
        }
    }
}

/// The strings of the list under `key`; none where there is no list.
pub open spec fn strings_at(v: Value, key: Seq<char>) -> Seq<String> {
    match items_at(v, key) {
        Some(items) => strings_of(items),
        None => Seq::empty(),
    }
}

impl Object {
    /// An object without entries.
    pub fn new() -> (r: Object)
        ensures
            r.entries@.len() == 0,
    {
        Object { entries: Vec::new() }
    }

    /// Appends an entry.
    pub fn push(&mut self, key: &str, value: Value)
        ensures
            final(self).entries@.len() == old(self).entries@.len() + 1,
            forall|i: int|
                0 <= i < old(self).entries@.len() ==> final(self).entries@[i] == old(
                    self,
                ).entries@[i],
            final(self).entries@.last().0@ == key@,
            final(self).entries@.last().1 == value,
    {
        self.entries.push((key.to_owned(), value));
    }
}

impl Value {
    /// The value under `key`.
    pub fn get(&self, key: &str) -> (r: Option<&Value>)
        ensures
            match r {
                Some(c) => child(*self, key@) == Some(*c),
                None => child(*self, key@) is None,
            },
    {
        match self {
            Value::Object(o) => {
                let mut i: usize = 0;
                while i < o.entries.len()
                    invariant
                        i <= o.entries@.len(),
                        *self matches Value::Object(ob) && ob == *o,
                        entry_from(o.entries@, key@, 0) == entry_from(o.entries@, key@, i as int),
                    decreases o.entries@.len() - i,
                {
                    if same(o.entries[i].0.as_str(), key) {
                        return Some(&o.entries[i].1);
                    }
                    i += 1;
                }
                None
            },
            _ => None,
        }
    }

    /// The node as a signed integer.
    pub fn as_i64(&self) -> (r: Option<i64>)
        ensures
            r == signed_of(*self),
    {
        match self {
            Value::Number(n) => n.signed,
            _ => None,
        }
    }

    /// The node as an unsigned integer.
    pub fn as_u64(&self) -> (r: Option<u64>)
        ensures
            r == unsigned_of(*self),
    {
        match self {
            Value::Number(n) => n.unsigned,
            _ => None,
        }
    }

    /// The node as the bits of a single.
    pub fn as_f32(&self) -> (r: Option<u32>)
        ensures
            r == single_of(*self),
    {
        match self {
            Value::Number(n) => Some(n.single),
            _ => None,
        }
    }

    /// The node as a truth value.
    pub fn as_bool(&self) -> (r: Option<bool>)
        ensures
            r == bool_of(*self),
    {
        match self {
            Value::Bool(b) => Some(*b),
            _ => None,
        }
    }

    /// The node as a string.
    pub fn as_str(&self) -> (r: Option<&String>)
        ensures
            match r {
                Some(s) => string_in(*self) == Some(*s),
                None => string_in(*self) is None,
            },
    {
        match self {
            Value::String(s) => Some(s),
            _ => None,
        }
    }

    /// The node as a run of bytes.
    pub fn as_blob(&self) -> (r: Option<&[u8]>)
        ensures
            match r {
                Some(b) => blob_of(*self) == Some(b@),
                None => blob_of(*self) is None,
            },
    {
        match self {
            Value::Blob(b) => Some(b.as_slice()),
            _ => None,
        }
    }

    /// The node as a list.
    pub fn as_array(&self) -> (r: Option<&Vec<Value>>)
        ensures
            match r {
                Some(a) => items_of(*self) == Some(a@),
                None => items_of(*self) is None,
            },
    {
        match self {
            Value::Array(a) => Some(a),
            _ => None,
        }
    }

    /// A truth value, or an integer that is not zero.
    pub fn as_truth(&self) -> (r: Option<bool>)
        ensures
            r == truth_of(*self),
    {
        match self.as_bool() {
            Some(b) => Some(b),
            None => match self.as_i64() {
                Some(i) => Some(i != 0),
                None => None,
            },
        }
    }

    /// The signed integer under `key`.
    pub fn get_i64(&self, key: &str) -> (r: Option<i64>)
        ensures
            r == signed_at(*self, key@),
    {
        match self.get(key) {
            Some(c) => c.as_i64(),
            None => None,
        }
    }

    /// The unsigned integer under `key`.
    pub fn get_u64(&self, key: &str) -> (r: Option<u64>)
        ensures
            r == unsigned_at(*self, key@),
    {
        match self.get(key) {
            Some(c) => c.as_u64(),
            None => None,
        }
    }

    /// The single under `key`.
    pub fn get_f32(&self, key: &str) -> (r: Option<u32>)
        ensures
            r == single_at(*self, key@),
    {
        match self.get(key) {
            Some(c) => c.as_f32(),
            None => None,
        }
    }

    /// A copy of the string under `key`.
    pub fn get_string(&self, key: &str) -> (r: Option<String>)
        ensures
            r == string_at(*self, key@),
    {
        match self.get(key) {
            Some(c) => match c.as_str() {
                Some(s) => Some(s.clone()),
                None => None,
            },
            None => None,
        }
    }

    /// The truth value, or integer that is not zero, under `key`.
    pub fn get_truth(&self, key: &str) -> (r: Option<bool>)
        ensures
            r == truth_at(*self, key@),
    {
        match self.get(key) {
            Some(c) => c.as_truth(),
            None => None,
        }
    }

    /// The list under `key`.
    pub fn get_array(&self, key: &str) -> (r: Option<&Vec<Value>>)
        ensures
            match r {
                Some(a) => items_at(*self, key@) == Some(a@),
                None => items_at(*self, key@) is None,
            },
    {
        match self.get(key) {
            Some(c) => c.as_array(),
            None => None,
        }
    }

    /// Copies of the strings of the list under `key`.
    pub fn get_strings(&self, key: &str) -> (r: Vec<String>)
        ensures
            r@ == strings_at(*self, key@),
    {
        match self.get_array(key) {
            Some(a) => copy_strings(a),
            None => Vec::new(),
        }
    }
}

/// Copies of the strings of a list.
pub fn copy_strings(items: &Vec<Value>) -> (r: Vec<String>)
    ensures
        r@ == strings_of(items@),
{
    let mut r: Vec<String> = Vec::new();
    let mut i: usize = 0;
    while i < items.len()
        invariant
            i <= items@.len(),
            r@ == strings_of(items@.take(i as int)),
        decreases items@.len() - i,
    {
        proof {
            let t = items@.take(i as int + 1);
            assert(t.drop_last() =~= items@.take(i as int));
            assert(t.last() == items@[i as int]);
        }
        match items[i].as_str() {
            Some(s) => r.push(s.clone()),
            None => {},
        }
        i += 1;
    }
    assert(items@.take(i as int) =~= items@);
    r
}

/// A block of a resource: its four-character kind, its bytes, and what reading them as a key-value
/// tree gave (the tree, or the reader's message).
#[derive(Debug)]
pub struct Block {
    pub kind: [u8; 4],
    pub bytes: Vec<u8>,
    pub tree: Result<Value, String>,
}

/// A resource: what reading its data block as a key-value tree gave, and its blocks.
#[derive(Debug)]
pub struct Resource {
    pub data: Result<Value, String>,
    pub blocks: Vec<Block>,
}

/// The kind of the block that lists embedded meshes.
pub const CTRL: [u8; 4] = [0x43, 0x54, 0x52, 0x4C];

/// The kind of the block with legacy material data.
pub const RED2: [u8; 4] = [0x52, 0x45, 0x44, 0x32];

/// The kind of the binary buffer block.
pub const VBIB: [u8; 4] = [0x56, 0x42, 0x49, 0x42];

/// The first block of a kind, from `from` on.
pub open spec fn block_from(blocks: Seq<Block>, kind: Seq<u8>, from: int) -> Option<Block>
    decreases blocks.len() - from,
{
    if from < 0 || from >= blocks.len() {
        None
    } else if blocks[from].kind@ == kind {
        Some(blocks[from])
    } else {
        block_from(blocks, kind, from + 1)
    }
}

/// The blocks that hold any bytes. Indices in a resource count these alone.
pub open spec fn filled(blocks: Seq<Block>) -> Seq<Block>
    decreases blocks.len(),
{
    if blocks.len() == 0 {
        Seq::empty()
    } else {
        let before = filled(blocks.drop_last());
        if blocks.last().bytes@.len() > 0 {
            before.push(blocks.last())
        } else {
            before
        }
    }
}

/// The block with index `index` among those that hold bytes.
pub open spec fn filled_block(r: Resource, index: int) -> Option<Block> {
    if 0 <= index < filled(r.blocks@).len() {
        Some(filled(r.blocks@)[index])
    } else {
        None
    }
}

/// Adding blocks keeps the ones before in place.
proof fn lemma_filled_prefix(blocks: Seq<Block>, n: int)
    requires
        0 <= n <= blocks.len(),
    ensures
        filled(blocks.take(n)).is_prefix_of(filled(blocks)),
    decreases blocks.len() - n,
{
    if n == blocks.len() {
        assert(blocks.take(n) =~= blocks);
    } else {
        lemma_filled_prefix(blocks, n + 1);
        let longer = blocks.take(n + 1);
        assert(longer.drop_last() =~= blocks.take(n));
        let a = filled(blocks.take(n));
        let b = filled(longer);
        let c = filled(blocks);
        assert(a =~= b.subrange(0, a.len() as int));
        assert(a =~= c.subrange(0, a.len() as int)) by {
            assert(b =~= c.subrange(0, b.len() as int));
            assert forall|i: int| 0 <= i < a.len() implies a[i] == c[i] by {
                assert(a[i] == b[i]);
                assert(b[i] == c.subrange(0, b.len() as int)[i]);
            }
        }
    }
}

/// Whether two block kinds are the same.
fn same_kind(a: &[u8; 4], b: &[u8; 4]) -> (r: bool)
    ensures
        r == (a@ == b@),
{
    let r: bool = a[0] == b[0] && a[1] == b[1] && a[2] == b[2] && a[3] == b[3];
    proof {
        if r {
            assert(a@ =~= b@);
        }
    }
    r
}

impl Resource {
    /// The first block of a kind.
    pub fn block(&self, kind: &[u8; 4]) -> (r: Option<&Block>)
        ensures
            match r {
                Some(b) => block_from(self.blocks@, kind@, 0) == Some(*b),
                None => block_from(self.blocks@, kind@, 0) is None,
            },
    {
        let mut i: usize = 0;
        while i < self.blocks.len()
            invariant
                i <= self.blocks@.len(),
                block_from(self.blocks@, kind@, 0) == block_from(self.blocks@, kind@, i as int),
            decreases self.blocks@.len() - i,
        {
            if same_kind(&self.blocks[i].kind, kind) {
                return Some(&self.blocks[i]);
            }
            i += 1;
        }
        None
    }

    /// The block with index `index` among those that hold bytes.
    pub fn block_by_filtered_index(&self, index: usize) -> (r: Option<&Block>)
        ensures
            match r {
                Some(b) => filled_block(*self, index as int) == Some(*b),
                None => filled_block(*self, index as int) is None,
            },
    {
        let mut seen: usize = 0;
        let mut i: usize = 0;
        while i < self.blocks.len()
            invariant
                i <= self.blocks@.len(),
                seen <= i,
                seen == filled(self.blocks@.take(i as int)).len(),
                seen <= index,
            decreases self.blocks@.len() - i,
        {
            proof {
                let t = self.blocks@.take(i as int + 1);
                assert(t.drop_last() =~= self.blocks@.take(i as int));
                assert(t.last() == self.blocks@[i as int]);
            }
            if self.blocks[i].bytes.len() > 0 {
                if seen == index {
                    proof {
                        lemma_filled_prefix(self.blocks@, i as int + 1);
                        let f = filled(self.blocks@.take(i as int + 1));
                        assert(f[seen as int] == self.blocks@[i as int]);
                        assert(filled(self.blocks@).subrange(0, f.len() as int)[seen as int]
                            == f[seen as int]);
                    }
                    return Some(&self.blocks[i]);
                }
                seen += 1;
            }
            i += 1;
        }
        assert(self.blocks@.take(i as int) =~= self.blocks@);
        None
    }

    /// The block under a signed index.
    pub fn block_at(&self, index: i64) -> (r: Option<&Block>)
        ensures
            match r {
                Some(b) => filled_block(*self, index as int) == Some(*b),
                None => filled_block(*self, index as int) is None,
            },
    {
        if index < 0 || index as u64 > usize::MAX as u64 {
            proof {
                lemma_filled_len(self.blocks@);
                assert(self.blocks@.len() <= usize::MAX) by {
                    assert(self.blocks.len() == self.blocks@.len());
                }
            }
            return None;
        }
        self.block_by_filtered_index(index as usize)
    }
}

/// There are no more filled blocks than blocks.
proof fn lemma_filled_len(blocks: Seq<Block>)
    ensures
        filled(blocks).len() <= blocks.len(),
    decreases blocks.len(),
{
    if blocks.len() > 0 {
        lemma_filled_len(blocks.drop_last());
    }
}

} // verus!
