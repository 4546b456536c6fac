//! Little-endian integers in byte sequences.

use vstd::prelude::*;

verus! {

/// The 16-bit number stored at `pos`, low byte first.
pub open spec fn le16(s: Seq<u8>, pos: int) -> int {
    s[pos] + 0x100 * s[pos + 1]
}

/// The 32-bit number stored at `pos`, low byte first.
pub open spec fn le32(s: Seq<u8>, pos: int) -> int {
    s[pos] + 0x100 * s[pos + 1] + 0x1_0000 * s[pos + 2] + 0x100_0000 * s[pos + 3]
}

/// The signed reading of a 32-bit pattern.
pub open spec fn as_signed32(x: int) -> int {
    if x >= 0x8000_0000 {
        x - 0x1_0000_0000
    } else {
        x
    }
}

/// The signed reading of a 16-bit pattern.
pub open spec fn as_signed16(x: int) -> int {
    if x >= 0x8000 {
        x - 0x1_0000
    } else {
        x
    }
}

/// The two bytes of a 16-bit number, low byte first.
pub open spec fn bytes16(x: int) -> Seq<u8> {
    seq![(x % 0x100) as u8, (x / 0x100 % 0x100) as u8]
}

/// The four bytes of a 32-bit number, low byte first.
pub open spec fn bytes32(x: int) -> Seq<u8> {
    seq![
        (x % 0x100) as u8,
        (x / 0x100 % 0x100) as u8,
        (x / 0x1_0000 % 0x100) as u8,
        (x / 0x100_0000 % 0x100) as u8,
    ]
}

/// The bytes of a list of 16-bit numbers, one after the other.
pub open spec fn all_bytes16(v: Seq<u16>) -> Seq<u8>
    decreases v.len(),
{
    if v.len() == 0 {
        Seq::empty()
    } else {
        all_bytes16(v.drop_last()) + bytes16(v.last() as int)
    }
}

/// The bytes of a list of 32-bit numbers, one after the other.
pub open spec fn all_bytes32(v: Seq<u32>) -> Seq<u8>
    decreases v.len(),
{
    if v.len() == 0 {
        Seq::empty()
    } else {
        all_bytes32(v.drop_last()) + bytes32(v.last() as int)
    }
}

/// Reading back a stored 32-bit number gives that number.
pub proof fn lemma_le32_of_bytes32(x: u32)
    ensures
        le32(bytes32(x as int), 0) == x,
        bytes32(x as int).len() == 4,
{
}

/// Reading back a stored 16-bit number gives that number.
pub proof fn lemma_le16_of_bytes16(x: u16)
    ensures
        le16(bytes16(x as int), 0) == x,
        bytes16(x as int).len() == 2,
{
}

/// Every 32-bit number of the list takes four bytes, at four times its index.
pub proof fn lemma_all_bytes32(v: Seq<u32>)
    ensures
        all_bytes32(v).len() == 4 * v.len(),
        forall|i: int| 0 <= i < v.len() ==> le32(all_bytes32(v), 4 * i) == #[trigger] v[i],
    decreases v.len(),
{
    if v.len() > 0 {
        let front = v.drop_last();
        lemma_all_bytes32(front);
        lemma_le32_of_bytes32(v.last());
        let all = all_bytes32(v);
        assert forall|i: int| 0 <= i < v.len() implies le32(all, 4 * i) == #[trigger] v[i] by {
            if i < front.len() {
                assert(v[i] == front[i]);
                assert(all[4 * i] == all_bytes32(front)[4 * i]);
                assert(all[4 * i + 1] == all_bytes32(front)[4 * i + 1]);
                assert(all[4 * i + 2] == all_bytes32(front)[4 * i + 2]);
                assert(all[4 * i + 3] == all_bytes32(front)[4 * i + 3]);
            } else {
                let tail = bytes32(v.last() as int);
                assert(all[4 * i] == tail[0]);
                assert(all[4 * i + 1] == tail[1]);
                assert(all[4 * i + 2] == tail[2]);
                assert(all[4 * i + 3] == tail[3]);
            }
        }
    }
}

/// Every 16-bit number of the list takes two bytes, at twice its index.
pub proof fn lemma_all_bytes16(v: Seq<u16>)
    ensures
        all_bytes16(v).len() == 2 * v.len(),
        forall|i: int| 0 <= i < v.len() ==> le16(all_bytes16(v), 2 * i) == #[trigger] v[i],
    decreases v.len(),
{
    if v.len() > 0 {
        let front = v.drop_last();
        lemma_all_bytes16(front);
        lemma_le16_of_bytes16(v.last());
        let all = all_bytes16(v);
        assert forall|i: int| 0 <= i < v.len() implies le16(all, 2 * i) == #[trigger] v[i] by {
            if i < front.len() {
                assert(v[i] == front[i]);
                assert(all[2 * i] == all_bytes16(front)[2 * i]);
                assert(all[2 * i + 1] == all_bytes16(front)[2 * i + 1]);
            } else {
                let tail = bytes16(v.last() as int);
                assert(all[2 * i] == tail[0]);
                assert(all[2 * i + 1] == tail[1]);
            }
        }
    }
}

/// Reads the 16-bit number at `pos`.
pub fn read16(s: &[u8], pos: usize) -> (r: u16)
    requires
        pos + 2 <= s@.len(),
    ensures
        r == le16(s@, pos as int),
{
    s[pos] as u16 + 0x100u16 * (s[pos + 1] as u16)
}

/// Reads the 32-bit number at `pos`.
pub fn read32(s: &[u8], pos: usize) -> (r: u32)
    requires
        pos + 4 <= s@.len(),
    ensures
        r == le32(s@, pos as int),
{
    s[pos] as u32 + 0x100u32 * (s[pos + 1] as u32) + 0x1_0000u32 * (s[pos + 2] as u32)
        + 0x100_0000u32 * (s[pos + 3] as u32)
}

/// The signed reading of a 32-bit pattern.
pub fn signed32(x: u32) -> (r: i32)
    ensures
        r == as_signed32(x as int),
{
    if x >= 0x8000_0000 {
        (x as i64 - 0x1_0000_0000i64) as i32
    } else {
        x as i32
    }
}

/// The signed reading of a 16-bit pattern.
pub fn signed16(x: u16) -> (r: i16)
    ensures
        r == as_signed16(x as int),
{
    if x >= 0x8000 {
        (x as i32 - 0x1_0000i32) as i16
    } else {
        x as i16
    }
}

/// Appends the two bytes of `x`.
pub fn push16(out: &mut Vec<u8>, x: u16)
    ensures
        final(out)@ == old(out)@ + bytes16(x as int),
{
    out.push((x % 0x100) as u8);
    out.push((x / 0x100) as u8);
    assert(out@ =~= old(out)@ + bytes16(x as int));
}

/// Appends the four bytes of `x`.
pub fn push32(out: &mut Vec<u8>, x: u32)
    ensures
        final(out)@ == old(out)@ + bytes32(x as int),
{
    out.push((x % 0x100) as u8);
    out.push((x / 0x100 % 0x100) as u8);
    out.push((x / 0x1_0000 % 0x100) as u8);
    out.push((x / 0x100_0000) as u8);
    assert(out@ =~= old(out)@ + bytes32(x as int));
}

/// Appends every byte of `bytes`.
pub fn push_all(out: &mut Vec<u8>, bytes: &[u8])
    ensures
        final(out)@ == old(out)@ + bytes@,
{
    let mut i: usize = 0;
    assert(out@ =~= old(out)@ + bytes@.take(0));
    while i < bytes.len()
        invariant
            i <= bytes@.len(),
            out@ == old(out)@ + bytes@.take(i as int),
        decreases bytes@.len() - i,
    {
        out.push(bytes[i]);
        i += 1;
        assert(out@ =~= old(out)@ + bytes@.take(i as int));
    }
    assert(bytes@.take(i as int) =~= bytes@);
}

/// A copy of `bytes`.
pub fn copy_of(bytes: &[u8]) -> (r: Vec<u8>)
    ensures
        r@ == bytes@,
{
    let mut r: Vec<u8> = Vec::new();
    push_all(&mut r, bytes);
    assert(r@ =~= bytes@);
    r
}

/// The bytes of a list of 16-bit numbers.
pub fn flatten16(v: &Vec<u16>) -> (r: Vec<u8>)
    ensures
        r@ == all_bytes16(v@),
{
    let mut r: Vec<u8> = Vec::new();
    let mut i: usize = 0;
    while i < v.len()
        invariant
            i <= v@.len(),
            r@ == all_bytes16(v@.take(i as int)),
        decreases v@.len() - i,
    {
        proof {
            let t = v@.take(i as int + 1);
            assert(t.drop_last() =~= v@.take(i as int));
            assert(t.last() == v@[i as int]);
        }
        push16(&mut r, v[i]);
        i += 1;
    }
    assert(v@.take(i as int) =~= v@);
    r
}

/// The bytes of a list of 32-bit numbers.
pub fn flatten32(v: &Vec<u32>) -> (r: Vec<u8>)
    ensures
        r@ == all_bytes32(v@),
{
    let mut r: Vec<u8> = Vec::new();
    let mut i: usize = 0;
    while i < v.len()
        invariant
            i <= v@.len(),
            r@ == all_bytes32(v@.take(i as int)),
        decreases v@.len() - i,
    {
        proof {
            let t = v@.take(i as int + 1);
            assert(t.drop_last() =~= v@.take(i as int));
            assert(t.last() == v@[i as int]);
        }
        push32(&mut r, v[i]);
        i += 1;
    }
    assert(v@.take(i as int) =~= v@);
    r
}

} // verus!
