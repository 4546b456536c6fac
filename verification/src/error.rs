//! Errors of decoding buffers, meshes and models. Every variant carries a `path`: a dotted and
//! indexed key path into the source value, or the name of the block and field that was read.

use crate::format::DxgiFormat;
use crate::reader::OutOfBounds;
use vstd::prelude::*;

verus! {

/// Why a mesh or model could not be decoded.
#[derive(Debug)]
#[allow(inconsistent_fields)]
pub enum MeshError {
    Missing { path: String },
    WrongType { path: String, expected: &'static str },
    IndexOutOfRange { path: String, index: i64, len: usize },
    BlockNotFound { path: String, index: i64 },
    SizeTooLarge { path: String, count: u64, size: u64, limit: u64 },
    Truncated { path: String, source: OutOfBounds },
    Zstd { path: String, message: String },
    LengthMismatch { path: String, actual: usize, expected: usize },
    MeshoptVertex { path: String, code: i32 },
    MeshoptIndex { path: String, message: String },
    BadIndexElementSize { path: String, size: u32 },
    MeshoptLayout { path: String, element_count: u64, element_size: u64 },
    AttributeRange { path: String, vertex: usize, offset: usize, len: usize, stride: usize },
    UnsupportedFormat { path: String, semantic: String, format: DxgiFormat },
    Kv3 { path: String, message: String },
    Resource { path: String, message: String },
}

/// A [`MeshError`] with its texts as sequences of characters.
#[allow(inconsistent_fields)]
pub enum Fault {
    Missing { path: Seq<char> },
    WrongType { path: Seq<char>, expected: Seq<char> },
    IndexOutOfRange { path: Seq<char>, index: i64, len: usize },
    BlockNotFound { path: Seq<char>, index: i64 },
    SizeTooLarge { path: Seq<char>, count: u64, size: u64, limit: u64 },
    Truncated { path: Seq<char>, source: OutOfBounds },
    Zstd { path: Seq<char>, message: Seq<char> },
    LengthMismatch { path: Seq<char>, actual: usize, expected: usize },
    /// What code the vertex decoder gives a stream that it refuses may differ from one machine to
    /// the next: without it, it is left open.
    MeshoptVertex { path: Seq<char>, code: Option<i32> },
    MeshoptIndex { path: Seq<char>, message: Seq<char> },
    BadIndexElementSize { path: Seq<char>, size: u32 },
    MeshoptLayout { path: Seq<char>, element_count: u64, element_size: u64 },
    AttributeRange { path: Seq<char>, vertex: usize, offset: usize, len: usize, stride: usize },
    UnsupportedFormat { path: Seq<char>, semantic: Seq<char>, format: DxgiFormat },
    Kv3 { path: Seq<char>, message: Seq<char> },
    Resource { path: Seq<char>, message: Seq<char> },
}

impl View for MeshError {
    type V = Fault;

    open spec fn view(&self) -> Fault {
        match *self {
            MeshError::Missing { path } => Fault::Missing { path: path@ },
            MeshError::WrongType { path, expected } => Fault::WrongType {
                path: path@,
                expected: expected@,
            },
            MeshError::IndexOutOfRange { path, index, len } => Fault::IndexOutOfRange {
                path: path@,
                index,
                len,
            },
            MeshError::BlockNotFound { path, index } => Fault::BlockNotFound { path: path@, index },
            MeshError::SizeTooLarge { path, count, size, limit } => Fault::SizeTooLarge {
                path: path@,
                count,
                size,
                limit,
            },
            MeshError::Truncated { path, source } => Fault::Truncated { path: path@, source },
            MeshError::Zstd { path, message } => Fault::Zstd { path: path@, message: message@ },
            MeshError::LengthMismatch { path, actual, expected } => Fault::LengthMismatch {
                path: path@,
                actual,
                expected,
            },
            MeshError::MeshoptVertex { path, code } => Fault::MeshoptVertex {
                path: path@,
                code: Some(code),
            },
            MeshError::MeshoptIndex { path, message } => Fault::MeshoptIndex {
                path: path@,
                message: message@,
            },
            MeshError::BadIndexElementSize { path, size } => Fault::BadIndexElementSize {
                path: path@,
                size,
            },
            MeshError::MeshoptLayout { path, element_count, element_size } => Fault::MeshoptLayout {
                path: path@,
                element_count,
                element_size,
            },
            MeshError::AttributeRange { path, vertex, offset, len, stride } =>
            Fault::AttributeRange { path: path@, vertex, offset, len, stride },
            MeshError::UnsupportedFormat { path, semantic, format } => Fault::UnsupportedFormat {
                path: path@,
                semantic: semantic@,
                format,
            },
            MeshError::Kv3 { path, message } => Fault::Kv3 { path: path@, message: message@ },
            MeshError::Resource { path, message } => Fault::Resource {
                path: path@,
                message: message@,
            },
        }
    }
}

/// What of an error is known beforehand: all of it but the code of the vertex decoder.
pub open spec fn known(f: Fault) -> Fault {
    match f {
        Fault::MeshoptVertex { path, code: _ } => Fault::MeshoptVertex { path, code: None },
        _ => f,
    }
}

/// What a fallible decoder gave back, with texts and lists as sequences, and without the code of
/// the vertex decoder.
pub open spec fn outcome<T: View>(r: Result<T, MeshError>) -> Result<T::V, Fault> {
    match r {
        Ok(v) => Ok(v@),
        Err(e) => Err(known(e@)),
    }
}

/// The items `0..n` that `step` gives, up to the first that it refuses.
pub open spec fn gather<T>(step: spec_fn(int) -> Result<T, Fault>, n: nat) -> Result<Seq<T>, Fault>
    decreases n,
{
    if n == 0 {
        Ok(Seq::empty())
    } else {
        match gather(step, (n - 1) as nat) {
            Err(f) => Err(f),
            Ok(before) => match step(n - 1) {
                Err(f) => Err(f),
                Ok(item) => Ok(before.push(item)),
            },
        }
    }
}

/// A refusal stays the answer however many items follow.
pub proof fn lemma_gather_refused<T>(step: spec_fn(int) -> Result<T, Fault>, k: nat, n: nat)
    requires
        k <= n,
        gather(step, k) is Err,
    ensures
        gather(step, n) == gather(step, k),
    decreases n - k,
{
    if k < n {
        lemma_gather_refused(step, k, (n - 1) as nat);
    }
}

/// Everything gathered was given by `step`, in order.
pub proof fn lemma_gathered<T>(step: spec_fn(int) -> Result<T, Fault>, n: nat)
    requires
        gather(step, n) is Ok,
    ensures
        gather(step, n)->Ok_0.len() == n,
        forall|i: int|
            0 <= i < n ==> step(i) == Ok::<T, Fault>(#[trigger] gather(step, n)->Ok_0[i]),
    decreases n,
{
    if n > 0 {
        lemma_gathered(step, (n - 1) as nat);
    }
}

/// A number in decimal.
pub open spec fn num(n: int) -> Seq<char> {
    crate::text::decimal_text(n)
}

/// An error in words.
pub open spec fn fault_text(f: Fault) -> Seq<char> {
    match f {
        Fault::Missing { path } => "missing required key "@ + path,
        Fault::WrongType { path, expected } => path + ": expected "@ + expected,
        Fault::IndexOutOfRange { path, index, len } => path + ": index "@ + num(index as int)
            + " out of range (have "@ + num(len as int) + ")"@,
        Fault::BlockNotFound { path, index } => path + ": block index "@ + num(index as int)
            + " does not resolve to a block of this resource"@,
        Fault::SizeTooLarge { path, count, size, limit } => path + ": element count "@ + num(
            count as int,
        ) + " * element size "@ + num(size as int) + " exceeds the sanity limit of "@ + num(
            limit as int,
        ) + " bytes"@,
        Fault::Truncated { path, source } => path + ": truncated: "@
            + crate::reader::out_of_bounds_text(source),
        Fault::Zstd { path, message } => path + ": zstd decode failed: "@ + message,
        Fault::LengthMismatch { path, actual, expected } => path + ": decompressed size "@ + num(
            actual as int,
        ) + " bytes does not match the declared element_count * element_size of "@ + num(
            expected as int,
        ) + " bytes"@,
        Fault::MeshoptVertex { path, code } => path
            + ": meshopt vertex buffer decode failed with code "@ + (match code {
            Some(code) => num(code as int),
            None => Seq::empty(),
        }),
        Fault::MeshoptIndex { path, message } => path + ": meshopt index buffer decode failed: "@
            + message,
        Fault::BadIndexElementSize { path, size } => path + ": index element size "@ + num(
            size as int,
        ) + " is neither 2 nor 4 bytes"@,
        Fault::MeshoptLayout { path, element_count, element_size } => path + ": element_count "@
            + num(element_count as int) + " / element_size "@ + num(element_size as int)
            + " violates meshoptimizer's own decode precondition (vertex element_size must be a multiple of 4 in 4..=256, index element_count must be a multiple of 3)"@,
        Fault::AttributeRange { path, vertex, offset, len, stride } => path + ": vertex "@ + num(
            vertex as int,
        ) + " attribute at offset "@ + num(offset as int) + " len "@ + num(len as int)
            + " exceeds the stride of "@ + num(stride as int) + " bytes"@,
        Fault::UnsupportedFormat { path, semantic, format } => path + ": unsupported "@ + semantic
            + " attribute format "@ + crate::format::format_name(format),
        Fault::Kv3 { path, message } => "KV3 error at "@ + path + ": "@ + message,
        Fault::Resource { path, message } => "resource error at "@ + path + ": "@ + message,
    }
}

/// Appends a natural number in decimal.
fn append_u64(r: &mut String, n: u64)
    ensures
        final(r)@ == old(r)@ + num(n as int),
{
    let d: String = crate::text::decimal(n);
    r.append(d.as_str());
}

/// Appends an integer in decimal.
fn append_i64(r: &mut String, n: i64)
    ensures
        final(r)@ == old(r)@ + num(n as int),
{
    let d: String = crate::text::decimal_i64(n);
    r.append(d.as_str());
}

impl MeshError {
    /// The error in words.
    pub fn message(&self) -> (r: String)
        ensures
            r@ == fault_text(self@),
    {
        match self {
            MeshError::Missing { path } => {
                let mut r: String = "missing required key ".to_owned();
                r.append(path.as_str());
                r
            },
            MeshError::WrongType { path, expected } => {
                let mut r: String = path.clone();
                r.append(": expected ");
                r.append(expected);
                r
            },
            MeshError::IndexOutOfRange { path, index, len } => {
                let mut r: String = path.clone();
                r.append(": index ");
                append_i64(&mut r, *index);
                r.append(" out of range (have ");
                append_u64(&mut r, *len as u64);
                r.append(")");
                r
            },
            MeshError::BlockNotFound { path, index } => {
                let mut r: String = path.clone();
                r.append(": block index ");
                append_i64(&mut r, *index);
                r.append(" does not resolve to a block of this resource");
                r
            },
            MeshError::SizeTooLarge { path, count, size, limit } => {
                let mut r: String = path.clone();
                r.append(": element count ");
                append_u64(&mut r, *count);
                r.append(" * element size ");
                append_u64(&mut r, *size);
                r.append(" exceeds the sanity limit of ");
                append_u64(&mut r, *limit);
                r.append(" bytes");
                r
            },
            MeshError::Truncated { path, source } => {
                let mut r: String = path.clone();
                r.append(": truncated: ");
                r.append(source.message().as_str());
                r
            },
            MeshError::Zstd { path, message } => {
                let mut r: String = path.clone();
                r.append(": zstd decode failed: ");
                r.append(message.as_str());
                r
            },
            MeshError::LengthMismatch { path, actual, expected } => {
                let mut r: String = path.clone();
                r.append(": decompressed size ");
                append_u64(&mut r, *actual as u64);
                r.append(
                    " bytes does not match the declared element_count * element_size of ",
                );
                append_u64(&mut r, *expected as u64);
                r.append(" bytes");
                r
            },
            MeshError::MeshoptVertex { path, code } => {
                let mut r: String = path.clone();
                r.append(": meshopt vertex buffer decode failed with code ");
                append_i64(&mut r, *code as i64);
                r
            },
            MeshError::MeshoptIndex { path, message } => {
                let mut r: String = path.clone();
                r.append(": meshopt index buffer decode failed: ");
                r.append(message.as_str());
                r
            },
            MeshError::BadIndexElementSize { path, size } => {
                let mut r: String = path.clone();
                r.append(": index element size ");
                append_u64(&mut r, *size as u64);
                r.append(" is neither 2 nor 4 bytes");
                r
            },
            MeshError::MeshoptLayout { path, element_count, element_size } => {
                let mut r: String = path.clone();
                r.append(": element_count ");
                append_u64(&mut r, *element_count);
                r.append(" / element_size ");
                append_u64(&mut r, *element_size);
                r.append(
                    " violates meshoptimizer's own decode precondition (vertex element_size must be a multiple of 4 in 4..=256, index element_count must be a multiple of 3)",
                );
                r
            },
            MeshError::AttributeRange { path, vertex, offset, len, stride } => {
                let mut r: String = path.clone();
                r.append(": vertex ");
                append_u64(&mut r, *vertex as u64);
                r.append(" attribute at offset ");
                append_u64(&mut r, *offset as u64);
                r.append(" len ");
                append_u64(&mut r, *len as u64);
                r.append(" exceeds the stride of ");
                append_u64(&mut r, *stride as u64);
                r.append(" bytes");
                r
            },
            MeshError::UnsupportedFormat { path, semantic, format } => {
                let mut r: String = path.clone();
                r.append(": unsupported ");
                r.append(semantic.as_str());
                r.append(" attribute format ");
                r.append(format.name().as_str());
                r
            },
            MeshError::Kv3 { path, message } => {
                let mut r: String = "KV3 error at ".to_owned();
                r.append(path.as_str());
                r.append(": ");
                r.append(message.as_str());
                r
            },
            MeshError::Resource { path, message } => {
                let mut r: String = "resource error at ".to_owned();
                r.append(path.as_str());
                r.append(": ");
                r.append(message.as_str());
                r
            },
        }
    }
}

} // verus!
