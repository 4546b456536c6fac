//! What is read of a tree, of a run of bytes and of a document, in terms of what stands there.

use crate::json::JsonView;
use crate::kv::{Block, Object, Resource, Value};
use vstd::prelude::*;

verus! {

/// Whether entry `i` is the first of an object with a key.
pub open spec fn comes_first(o: Object, key: Seq<char>, i: int) -> bool {
    &&& 0 <= i < o.entries@.len()
    &&& o.entries@[i].0@ == key
    &&& forall|j: int| 0 <= j < i ==> (#[trigger] o.entries@[j]).0@ != key
}

/// Whether `c` is what stands under `key` in a tree: the tree is an object, and `c` belongs to the
/// first of its entries that has the key.
pub open spec fn stands_under(v: Value, key: Seq<char>, c: Value) -> bool {
    match v {
        Value::Object(o) => exists|i: int|
            #[trigger] comes_first(o, key, i) && o.entries@[i].1 == c,
        _ => false,
    }
}

/// Where the search for a key ends.
proof fn lemma_entry_from(o: Object, key: Seq<char>, from: int)
    requires
        0 <= from <= o.entries@.len(),
        forall|j: int| 0 <= j < from ==> (#[trigger] o.entries@[j]).0@ != key,
    ensures
        match crate::kv::entry_from(o.entries@, key, from) {
            Some(c) => exists|i: int| #[trigger] comes_first(o, key, i) && o.entries@[i].1 == c,
            None => forall|j: int|
                0 <= j < o.entries@.len() ==> (#[trigger] o.entries@[j]).0@ != key,
        },
    decreases o.entries@.len() - from,
{
    if from < o.entries@.len() {
        if o.entries@[from].0@ != key {
            lemma_entry_from(o, key, from + 1);
        } else {
            assert(comes_first(o, key, from));
        }
    }
}

/// A key gives what stands under it, and nothing where nothing does.
pub proof fn a_key_gives_what_stands_under_it(v: Value, key: Seq<char>, c: Value)
    ensures
        (crate::kv::child(v, key) == Some(c)) == stands_under(v, key, c),
{
    match v {
        Value::Object(o) => {
            lemma_entry_from(o, key, 0);
            if stands_under(v, key, c) {
                let i = choose|i: int| #[trigger] comes_first(o, key, i) && o.entries@[i].1 == c;
                assert(crate::kv::child(v, key) is Some);
                let d = crate::kv::child(v, key)->Some_0;
                let k = choose|k: int| #[trigger] comes_first(o, key, k) && o.entries@[k].1 == d;
                assert(i == k) by {
                    if i < k {
                        assert(o.entries@[i].0@ != key);
                    } else if k < i {
                        assert(o.entries@[k].0@ != key);
                    }
                }
            }
        },
        _ => {},
    }
}

/// Each kind of node reads as what it holds, and as nothing else; a truth value may also be written
/// as a number.
pub proof fn a_node_reads_as_what_it_holds(v: Value)
    ensures
        match v {
            Value::Number(n) => {
                &&& crate::kv::signed_of(v) == n.signed
                &&& crate::kv::unsigned_of(v) == n.unsigned
                &&& crate::kv::single_of(v) == Some(n.single)
            },
            _ => {
                &&& crate::kv::signed_of(v) is None
                &&& crate::kv::unsigned_of(v) is None
                &&& crate::kv::single_of(v) is None
            },
        },
        match v {
            Value::String(s) => crate::kv::string_in(v) == Some(s),
            _ => crate::kv::string_in(v) is None,
        },
        match v {
            Value::Blob(b) => crate::kv::blob_of(v) == Some(b@),
            _ => crate::kv::blob_of(v) is None,
        },
        match v {
            Value::Array(a) => crate::kv::items_of(v) == Some(a@),
            _ => crate::kv::items_of(v) is None,
        },
        match v {
            Value::Bool(b) => crate::kv::truth_of(v) == Some(b),
            Value::Number(n) => match n.signed {
                Some(i) => crate::kv::truth_of(v) == Some(i != 0),
                None => crate::kv::truth_of(v) is None,
            },
            _ => crate::kv::truth_of(v) is None,
        },
{
}

/// What is read under a key is read of the node that stands there.
pub proof fn a_reading_is_of_what_stands_under_its_key(v: Value, key: Seq<char>, c: Value)
    requires
        stands_under(v, key, c),
    ensures
        crate::kv::signed_at(v, key) == crate::kv::signed_of(c),
        crate::kv::unsigned_at(v, key) == crate::kv::unsigned_of(c),
        crate::kv::single_at(v, key) == crate::kv::single_of(c),
        crate::kv::string_at(v, key) == crate::kv::string_in(c),
        crate::kv::truth_at(v, key) == crate::kv::truth_of(c),
        crate::kv::items_at(v, key) == crate::kv::items_of(c),
        c matches Value::Array(a) ==> crate::model::list_at(v, key) == a@,
        crate::buffer::flag_at(v, key) == (crate::kv::truth_of(c) == Some(true)),
{
    a_key_gives_what_stands_under_it(v, key, c);
}

/// The strings of two lists, one behind the other, are those of the one and then of the other; a
/// string gives itself, and any other node nothing.
pub proof fn strings_come_in_order(a: Seq<Value>, b: Seq<Value>, v: Value)
    ensures
        crate::kv::strings_of(a + b) == crate::kv::strings_of(a) + crate::kv::strings_of(b),
        crate::kv::strings_of(seq![v]) == (match v {
            Value::String(s) => seq![s],
            _ => Seq::empty(),
        }),
    decreases b.len(),
{
    reveal_with_fuel(crate::kv::strings_of, 2);
    assert(seq![v].drop_last() =~= Seq::<Value>::empty());
    assert(crate::kv::strings_of(seq![v]) =~= (match v {
        Value::String(s) => seq![s],
        _ => Seq::empty(),
    }));
    if b.len() == 0 {
        assert(a + b =~= a);
        assert(crate::kv::strings_of(a) + crate::kv::strings_of(b) =~= crate::kv::strings_of(a));
    } else {
        strings_come_in_order(a, b.drop_last(), v);
        assert((a + b).drop_last() =~= a + b.drop_last());
        assert(crate::kv::strings_of(a + b) =~= crate::kv::strings_of(a) + crate::kv::strings_of(
            b,
        ));
    }
}

/// The integers of a list likewise.
pub proof fn integers_come_in_order(a: Seq<Value>, b: Seq<Value>, v: Value)
    ensures
        crate::model::integers_of(a + b) == crate::model::integers_of(a)
            + crate::model::integers_of(b),
        crate::model::integers_of(seq![v]) == (match v {
            Value::Number(n) => match n.signed {
                Some(i) => seq![i],
                None => Seq::empty(),
            },
            _ => Seq::empty(),
        }),
    decreases b.len(),
{
    reveal_with_fuel(crate::model::integers_of, 2);
    assert(seq![v].drop_last() =~= Seq::<Value>::empty());
    assert(crate::model::integers_of(seq![v]) =~= (match v {
        Value::Number(n) => match n.signed {
            Some(i) => seq![i],
            None => Seq::empty(),
        },
        _ => Seq::empty(),
    }));
    if b.len() == 0 {
        assert(a + b =~= a);
        assert(crate::model::integers_of(a) + crate::model::integers_of(b)
            =~= crate::model::integers_of(a));
    } else {
        integers_come_in_order(a, b.drop_last(), v);
        assert((a + b).drop_last() =~= a + b.drop_last());
        assert(crate::model::integers_of(a + b) =~= crate::model::integers_of(a)
            + crate::model::integers_of(b));
    }
}

/// The singles of a list likewise.
pub proof fn singles_come_in_order(a: Seq<Value>, b: Seq<Value>, v: Value)
    ensures
        crate::model::singles_of(a + b) == crate::model::singles_of(a) + crate::model::singles_of(b),
        crate::model::singles_of(seq![v]) == (match v {
            Value::Number(n) => seq![n.single],
            _ => Seq::empty(),
        }),
    decreases b.len(),
{
    reveal_with_fuel(crate::model::singles_of, 2);
    assert(seq![v].drop_last() =~= Seq::<Value>::empty());
    assert(crate::model::singles_of(seq![v]) =~= (match v {
        Value::Number(n) => seq![n.single],
        _ => Seq::empty(),
    }));
    if b.len() == 0 {
        assert(a + b =~= a);
        assert(crate::model::singles_of(a) + crate::model::singles_of(b)
            =~= crate::model::singles_of(a));
    } else {
        singles_come_in_order(a, b.drop_last(), v);
        assert((a + b).drop_last() =~= a + b.drop_last());
        assert(crate::model::singles_of(a + b) =~= crate::model::singles_of(a)
            + crate::model::singles_of(b));
    }
}

/// The block of a kind is the first that has the kind.
pub proof fn a_kind_gives_its_first_block(blocks: Seq<Block>, kind: Seq<u8>, from: int)
    requires
        0 <= from <= blocks.len(),
        forall|j: int| 0 <= j < from ==> #[trigger] blocks[j].kind@ != kind,
    ensures
        match crate::kv::block_from(blocks, kind, from) {
            Some(b) => exists|i: int|
                0 <= i < blocks.len() && #[trigger] blocks[i] == b && b.kind@ == kind && forall|j:
                    int| 0 <= j < i ==> #[trigger] blocks[j].kind@ != kind,
            None => forall|j: int| 0 <= j < blocks.len() ==> #[trigger] blocks[j].kind@ != kind,
        },
    decreases blocks.len() - from,
{
    if from < blocks.len() {
        if blocks[from].kind@ != kind {
            a_kind_gives_its_first_block(blocks, kind, from + 1);
        } else {
            assert(blocks[from] == blocks[from]);
        }
    }
}

/// Blocks are counted without those that hold no bytes: block `i`, where it holds any, has as its
/// index how many before it do.
pub proof fn empty_blocks_do_not_count(r: Resource, i: int)
    requires
        0 <= i < r.blocks@.len(),
        r.blocks@[i].bytes@.len() > 0,
    ensures
        crate::kv::filled_block(r, crate::kv::filled(r.blocks@.take(i)).len() as int) == Some(
            r.blocks@[i],
        ),
        crate::kv::filled(r.blocks@.take(i)).len() <= i,
        (forall|j: int| 0 <= j < i ==> #[trigger] r.blocks@[j].bytes@.len() > 0)
            ==> crate::kv::filled_block(r, i) == Some(r.blocks@[i]),
{
    lemma_filled(r.blocks@, i);
    lemma_filled_count(r.blocks@, i);
}

/// Where a block stands among those that hold bytes.
proof fn lemma_filled(blocks: Seq<Block>, i: int)
    requires
        0 <= i < blocks.len(),
        blocks[i].bytes@.len() > 0,
    ensures
        crate::kv::filled(blocks.take(i)).len() < crate::kv::filled(blocks).len(),
        crate::kv::filled(blocks)[crate::kv::filled(blocks.take(i)).len() as int] == blocks[i],
    decreases blocks.len(),
{
    let front = blocks.drop_last();
    if i < front.len() {
        lemma_filled(front, i);
        assert(front.take(i) =~= blocks.take(i));
        assert(front[i] == blocks[i]);
    } else {
        assert(blocks.take(i) =~= front);
    }
}

/// How many of the blocks before one hold bytes.
proof fn lemma_filled_count(blocks: Seq<Block>, n: int)
    requires
        0 <= n <= blocks.len(),
    ensures
        crate::kv::filled(blocks.take(n)).len() <= n,
        (forall|j: int| 0 <= j < n ==> #[trigger] blocks[j].bytes@.len() > 0) ==> crate::kv::filled(
            blocks.take(n),
        ).len() == n,
    decreases n,
{
    if n > 0 {
        lemma_filled_count(blocks, n - 1);
        assert(blocks.take(n).drop_last() =~= blocks.take(n - 1));
        assert(blocks.take(n).last() == blocks[n - 1]);
    }
}

/// Numbers are stored with their low byte first: the first byte is what is left of the number by
/// 256, and the others store the number without it. Reading gives the number back.
pub proof fn the_low_byte_comes_first(x: u32, w: u16)
    ensures
        crate::bytes::bytes32(x as int).len() == 4,
        crate::bytes::bytes32(x as int)[0] == x % 0x100,
        crate::bytes::bytes32(x as int)[1] == x / 0x100 % 0x100,
        crate::bytes::bytes32(x as int)[2] == x / 0x1_0000 % 0x100,
        crate::bytes::bytes32(x as int)[3] == x / 0x100_0000,
        crate::bytes::le32(crate::bytes::bytes32(x as int), 0) == x,
        crate::bytes::bytes16(w as int).len() == 2,
        crate::bytes::bytes16(w as int)[0] == w % 0x100,
        crate::bytes::bytes16(w as int)[1] == w / 0x100,
        crate::bytes::le16(crate::bytes::bytes16(w as int), 0) == w,
{
}

/// What is read of a run of bytes at a place is what four bytes there say, whatever stands around
/// them.
pub proof fn a_word_is_read_where_it_stands(before: Seq<u8>, x: u32, after: Seq<u8>)
    ensures
        crate::bytes::le32(
            before + crate::bytes::bytes32(x as int) + after,
            before.len() as int,
        ) == x,
{
    let all = before + crate::bytes::bytes32(x as int) + after;
    let n = before.len() as int;
    let b = crate::bytes::bytes32(x as int);
    assert(all[n] == b[0] && all[n + 1] == b[1] && all[n + 2] == b[2] && all[n + 3] == b[3]);
    the_low_byte_comes_first(x, 0);
}

/// A number with a sign is itself where it is not negative, and the number that is left of the range
/// where it is.
pub proof fn signs_are_read_off_the_top(x: u32, w: u16)
    ensures
        crate::bytes::as_signed32(x as int) == (x as i32) as int,
        crate::bytes::as_signed16(w as int) == (w as i16) as int,
{
    assert(x < 0x8000_0000 ==> (x as i32) as int == x as int) by (bit_vector);
    assert(x >= 0x8000_0000 ==> (x as i32) as int == x as int - 0x1_0000_0000) by (bit_vector);
    assert(w < 0x8000 ==> (w as i16) as int == w as int) by (bit_vector);
    assert(w >= 0x8000 ==> (w as i16) as int == w as int - 0x1_0000) by (bit_vector);
}

/// Whether a member of a document is there: the document is an object, and the first of its members
/// with the key has the value.
pub open spec fn has_member(j: JsonView, key: Seq<char>, value: JsonView) -> bool {
    j matches JsonView::Object(m) && exists|i: int|
        {
            &&& 0 <= i < m.len()
            &&& #[trigger] m[i].0 == key
            &&& m[i].1 == value
            &&& forall|k: int| 0 <= k < i ==> #[trigger] m[k].0 != key
        }
}

/// Whether a document has no member with a key.
pub open spec fn lacks_member(j: JsonView, key: Seq<char>) -> bool {
    j matches JsonView::Object(m) ==> forall|i: int|
        0 <= i < m.len() ==> #[trigger] m[i].0 != key
}

/// Where the search for a member ends.
proof fn lemma_member(m: Seq<(Seq<char>, JsonView)>, key: Seq<char>, from: int)
    requires
        0 <= from <= m.len(),
        forall|k: int| 0 <= k < from ==> #[trigger] m[k].0 != key,
    ensures
        match crate::json::index_from(m, key, from) {
            Some(i) => 0 <= i < m.len() && m[i].0 == key && forall|k: int|
                0 <= k < i ==> #[trigger] m[k].0 != key,
            None => forall|k: int| 0 <= k < m.len() ==> #[trigger] m[k].0 != key,
        },
    decreases m.len() - from,
{
    if from < m.len() && m[from].0 != key {
        lemma_member(m, key, from + 1);
    }
}

/// Asking a document for a key gives the first member that has it, and nothing where none has.
pub proof fn a_document_gives_its_members(j: JsonView, key: Seq<char>, value: JsonView)
    ensures
        has_member(j, key, value) == (crate::json::field_of(j, key) == Some(value)),
        lacks_member(j, key) == (crate::json::field_of(j, key) is None),
{
    match j {
        JsonView::Object(m) => {
            lemma_member(m, key, 0);
            if has_member(j, key, value) {
                let i = choose|i: int|
                    {
                        &&& 0 <= i < m.len()
                        &&& #[trigger] m[i].0 == key
                        &&& m[i].1 == value
                        &&& forall|k: int| 0 <= k < i ==> #[trigger] m[k].0 != key
                    };
                let k = crate::json::index_from(m, key, 0)->Some_0;
                assert(crate::json::index_from(m, key, 0) is Some);
                assert(i == k) by {
                    if i < k {
                        assert(m[i].0 != key);
                    } else if k < i {
                        assert(m[k].0 != key);
                    }
                }
            }
        },
        _ => {},
    }
}

} // verus!
