//! A bounds-checked little-endian cursor over a byte slice.

use crate::bytes::{read32, signed32};
use vstd::prelude::*;
use vstd::utf8::*;

verus! {

/// A read that does not fit the buffer.
#[derive(Debug, Clone, Copy, PartialEq, Eq, Structural)]
pub struct OutOfBounds {
    pub offset: usize,
    pub len: usize,
    pub size: usize,
}

/// The text of an [`OutOfBounds`].
pub open spec fn out_of_bounds_text(e: OutOfBounds) -> Seq<char> {
    "read of "@ + crate::text::decimal_digits(e.len as nat) + " bytes at offset "@
        + crate::text::decimal_digits(e.offset as nat) + " exceeds buffer of "@
        + crate::text::decimal_digits(e.size as nat) + " bytes"@
}

impl OutOfBounds {
    /// The error in words.
    pub fn message(&self) -> (r: String)
        ensures
            r@ == out_of_bounds_text(*self),
    {
        let mut r: String = "read of ".to_owned();
        r.append(crate::text::decimal(self.len as u64).as_str());
        r.append(" bytes at offset ");
        r.append(crate::text::decimal(self.offset as u64).as_str());
        r.append(" exceeds buffer of ");
        r.append(crate::text::decimal(self.size as u64).as_str());
        r.append(" bytes");
        r
    }
}

/// The text that `String::from_utf8_lossy` gives for `bytes`.
pub uninterp spec fn utf8_lossy_text(bytes: Seq<u8>) -> Seq<char>;

/// `String::from_utf8_lossy` of the standard library. Bytes that are valid UTF-8 give the text
/// they encode; of other bytes it is only claimed that the text depends on them alone (the
/// replacement characters that it puts in are left unsaid).
#[verifier::external_body]
pub(crate) fn utf8_lossy(bytes: &[u8]) -> (s: String)
    ensures
        s@ == utf8_lossy_text(bytes@),
        valid_utf8(bytes@) ==> s@ == decode_utf8(bytes@),
{
    String::from_utf8_lossy(bytes).into_owned()
}

/// The bytes before the first zero byte.
pub open spec fn until_nul(s: Seq<u8>) -> Seq<u8>
    decreases s.len(),
{
    if s.len() == 0 || s[0] == 0 {
        Seq::empty()
    } else {
        seq![s[0]] + until_nul(s.drop_first())
    }
}

/// The text of a slot that holds a zero-terminated string: the text that its bytes encode, or, where
/// they are not UTF-8, what stands for them.
pub open spec fn slot_text(s: Seq<u8>) -> Seq<char> {
    if valid_utf8(until_nul(s)) {
        decode_utf8(until_nul(s))
    } else {
        utf8_lossy_text(until_nul(s))
    }
}

/// Bytes without a zero byte end at the first zero byte behind them.
proof fn lemma_until_nul(b: Seq<u8>, padding: Seq<u8>)
    requires
        forall|i: int| 0 <= i < b.len() ==> #[trigger] b[i] != 0,
        padding.len() > 0 ==> padding[0] == 0,
    ensures
        until_nul(b + padding) == b,
    decreases b.len(),
{
    if b.len() == 0 {
        assert(b + padding =~= padding);
        assert(until_nul(padding) =~= b);
    } else {
        let rest = b.drop_first();
        assert forall|i: int| 0 <= i < rest.len() implies #[trigger] rest[i] != 0 by {
            assert(rest[i] == b[i + 1]);
        }
        lemma_until_nul(rest, padding);
        assert((b + padding).drop_first() =~= rest + padding);
        assert(seq![b[0]] + rest =~= b);
    }
}

/// A text that is written into a slot is read back from it, whatever stands behind the zero byte that
/// ends it. A text that holds a zero byte itself ends there.
pub proof fn a_slot_gives_its_text_back(text: Seq<char>, padding: Seq<u8>)
    requires
        forall|i: int| 0 <= i < encode_utf8(text).len() ==> #[trigger] encode_utf8(text)[i] != 0,
        padding.len() > 0 ==> padding[0] == 0,
    ensures
        slot_text(encode_utf8(text) + padding) == text,
{
    lemma_until_nul(encode_utf8(text), padding);
    encode_utf8_valid_utf8(text);
    encode_utf8_decode_utf8(text);
}

/// Reads the text of a slot up to its first zero byte; a slot without one is all text.
pub fn cstr_text(slot: &[u8]) -> (r: String)
    ensures
        r@ == slot_text(slot@),
        valid_utf8(until_nul(slot@)) ==> r@ == decode_utf8(until_nul(slot@)),
{
    let mut end: usize = 0;
    assert(slot@.subrange(0, slot@.len() as int) =~= slot@);
    assert(slot@.take(0) + until_nul(slot@) =~= until_nul(slot@));
    while end < slot.len() && slot[end] != 0
        invariant
            end <= slot@.len(),
            until_nul(slot@) == slot@.take(end as int) + until_nul(
                slot@.subrange(end as int, slot@.len() as int),
            ),
        decreases slot@.len() - end,
    {
        proof {
            let rest = slot@.subrange(end as int, slot@.len() as int);
            assert(rest.drop_first() =~= slot@.subrange(end as int + 1, slot@.len() as int));
            assert(slot@.take(end as int) + (seq![rest[0]] + until_nul(rest.drop_first()))
                =~= slot@.take(end as int + 1) + until_nul(rest.drop_first()));
        }
        end += 1;
    }
    proof {
        let rest = slot@.subrange(end as int, slot@.len() as int);
        assert(until_nul(rest) =~= Seq::<u8>::empty());
        assert(until_nul(slot@) =~= slot@.subrange(0, end as int));
    }
    utf8_lossy(&slot[0..end])
}

/// Whether `n` bytes can be read at `pos`.
pub open spec fn readable(data: Seq<u8>, pos: int, n: int) -> bool {
    pos + n <= data.len()
}

/// The error of a read of `n` bytes at `pos` that does not fit.
pub open spec fn beyond(data: Seq<u8>, pos: int, n: int) -> OutOfBounds {
    OutOfBounds { offset: pos as usize, len: n as usize, size: data.len() as usize }
}

/// The 32-bit number at `pos`, where there is one.
pub open spec fn word_at(data: Seq<u8>, pos: int) -> Result<u32, OutOfBounds> {
    if readable(data, pos, 4) {
        Ok(crate::bytes::le32(data, pos) as u32)
    } else {
        Err(beyond(data, pos, 4))
    }
}

/// A cursor over a byte slice. It may stand anywhere; only a read checks the bounds.
pub struct Reader<'a> {
    buf: &'a [u8],
    pos: usize,
}

impl<'a> Reader<'a> {
    /// The bytes under the cursor's slice.
    pub closed spec fn data(&self) -> Seq<u8> {
        self.buf@
    }

    /// Where the cursor stands.
    pub closed spec fn at(&self) -> int {
        self.pos as int
    }

    /// A cursor at the start of `buf`.
    pub fn new(buf: &'a [u8]) -> (r: Self)
        ensures
            r.data() == buf@,
            r.at() == 0,
    {
        Reader { buf, pos: 0 }
    }

    /// Where the cursor stands.
    pub fn pos(&self) -> (r: usize)
        ensures
            r == self.at(),
    {
        self.pos
    }

    /// Moves the cursor to `pos`.
    pub fn set_pos(&mut self, pos: usize)
        ensures
            final(self).at() == pos,
            final(self).data() == old(self).data(),
    {
        self.pos = pos;
    }

    /// Whether `len` bytes can be read from here.
    pub fn check(&self, len: usize) -> (r: Result<(), OutOfBounds>)
        ensures
            readable(self.data(), self.at(), len as int) ==> r == Ok::<(), OutOfBounds>(()),
            !readable(self.data(), self.at(), len as int) ==> r == Err::<(), OutOfBounds>(
                beyond(self.data(), self.at(), len as int),
            ),
    {
        let fits: bool = match self.pos.checked_add(len) {
            Some(end) => end <= self.buf.len(),
            None => false,
        };
        if fits {
            Ok(())
        } else {
            Err(OutOfBounds { offset: self.pos, len, size: self.buf.len() })
        }
    }

    /// Reads `n` bytes; the cursor stays where it is when they do not fit.
    pub fn bytes(&mut self, n: usize) -> (r: Result<&'a [u8], OutOfBounds>)
        ensures
            final(self).data() == old(self).data(),
            readable(old(self).data(), old(self).at(), n as int) ==> {
                &&& r matches Ok(s) && s@ == old(self).data().subrange(
                    old(self).at(),
                    old(self).at() + n,
                )
                &&& final(self).at() == old(self).at() + n
            },
            !readable(old(self).data(), old(self).at(), n as int) ==> {
                &&& r == Err::<&'a [u8], OutOfBounds>(
                    beyond(old(self).data(), old(self).at(), n as int),
                )
                &&& final(self).at() == old(self).at()
            },
    {
        match self.check(n) {
            Ok(_) => {
                let buf: &'a [u8] = self.buf;
                assert(self.pos + n <= buf.len());
                let slice: &'a [u8] = &buf[self.pos..self.pos + n];
                self.pos = self.pos + n;
                Ok(slice)
            },
            Err(e) => Err(e),
        }
    }

    /// Reads an unsigned 32-bit number.
    pub fn u32(&mut self) -> (r: Result<u32, OutOfBounds>)
        ensures
            final(self).data() == old(self).data(),
            r == word_at(old(self).data(), old(self).at()),
            final(self).at() == old(self).at() + if r is Ok {
                4int
            } else {
                0
            },
    {
        match self.bytes(4) {
            Ok(s) => {
                proof {
                    let d = old(self).data();
                    let p = old(self).at();
                    assert(s@[0] == d[p] && s@[1] == d[p + 1] && s@[2] == d[p + 2] && s@[3] == d[p
                        + 3]);
                }
                Ok(read32(s, 0))
            },
            Err(e) => Err(e),
        }
    }

    /// Reads a signed 32-bit number.
    pub fn i32(&mut self) -> (r: Result<i32, OutOfBounds>)
        ensures
            final(self).data() == old(self).data(),
            match word_at(old(self).data(), old(self).at()) {
                Ok(w) => r == Ok::<i32, OutOfBounds>(crate::bytes::as_signed32(w as int) as i32),
                Err(e) => r == Err::<i32, OutOfBounds>(e),
            },
            final(self).at() == old(self).at() + if r is Ok {
                4int
            } else {
                0
            },
    {
        match self.u32() {
            Ok(w) => Ok(signed32(w)),
            Err(e) => Err(e),
        }
    }

    /// Reads an `n`-byte slot that holds a zero-terminated string. Bytes that are not UTF-8 are
    /// replaced, not refused.
    pub fn fixed_cstr(&mut self, n: usize) -> (r: Result<String, OutOfBounds>)
        ensures
            final(self).data() == old(self).data(),
            readable(old(self).data(), old(self).at(), n as int) ==> {
                let slot = old(self).data().subrange(old(self).at(), old(self).at() + n);
                &&& r matches Ok(s) && s@ == slot_text(slot) && (valid_utf8(until_nul(slot))
                    ==> s@ == decode_utf8(until_nul(slot)))
                &&& final(self).at() == old(self).at() + n
            },
            !readable(old(self).data(), old(self).at(), n as int) ==> {
                &&& r == Err::<String, OutOfBounds>(
                    beyond(old(self).data(), old(self).at(), n as int),
                )
                &&& final(self).at() == old(self).at()
            },
    {
        match self.bytes(n) {
            Ok(slot) => Ok(cstr_text(slot)),
            Err(e) => Err(e),
        }
    }
}

} // verus!
