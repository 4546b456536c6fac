//! Vertex attributes of a buffer: positions, texture coordinates, colours and normals.
//!
//! A component is handed out as it is stored, so that no rounding stands between the buffer and
//! the value: the bits of a single or a half, or a numerator over a fixed denominator.

use crate::buffer::{Buffer, InputLayoutField};
use crate::bytes::{read16, read32, signed16};
use crate::error::{Fault, MeshError};
use crate::format::DxgiFormat;
use vstd::prelude::*;

verus! {

/// The bytes of one field of one vertex.
pub open spec fn field_bytes(
    buffer: crate::buffer::BufferView,
    offset: u32,
    vertex: int,
    len: int,
) -> Option<Seq<u8>> {
    let start = vertex * buffer.element_size + offset;
    if start + len <= buffer.data.len() {
        Some(buffer.data.subrange(start, start + len))
    } else {
        None
    }
}

/// The error for a vertex whose field lies outside the buffer.
pub open spec fn outside(
    buffer: crate::buffer::BufferView,
    offset: u32,
    vertex: int,
    len: int,
    path: Seq<char>,
) -> Fault {
    Fault::AttributeRange {
        path,
        vertex: vertex as usize,
        offset: offset as usize,
        len: len as usize,
        stride: buffer.element_size as usize,
    }
}

/// The `len` bytes of a field of one vertex; an error where the buffer does not hold them.
pub fn vertex_slice<'a>(
    buffer: &'a Buffer,
    field: &InputLayoutField,
    vertex: usize,
    len: usize,
    path: &str,
) -> (r: Result<&'a [u8], MeshError>)
    ensures
        match r {
            Ok(b) => field_bytes(buffer@, field.offset, vertex as int, len as int) == Some(b@),
            Err(e) => {
                &&& field_bytes(buffer@, field.offset, vertex as int, len as int) is None
                &&& e@ == outside(buffer@, field.offset, vertex as int, len as int, path@)
            },
        },
{
    let stride: usize = buffer.element_size as usize;
    let data: &[u8] = buffer.data.as_slice();
    match vertex.checked_mul(stride) {
        Some(s) => match s.checked_add(field.offset as usize) {
            Some(start) => match start.checked_add(len) {
                Some(end) => {
                    if end <= data.len() {
                        return Ok(&data[start..end]);
                    }
                },
                None => {
                    assert(data.len() <= usize::MAX);
                },
            },
            None => {
                assert(data.len() <= usize::MAX);
            },
        },
        None => {
            assert(data.len() <= usize::MAX);
        },
    }
    Err(
        MeshError::AttributeRange {
            path: path.to_owned(),
            vertex,
            offset: field.offset as usize,
            len,
            stride,
        },
    )
}

/// How one component is stored.
#[derive(Debug, Clone, Copy, PartialEq, Eq, Structural)]
pub enum Component {
    F32,
    Half,
    Unorm16,
    Snorm16,
    Unorm8,
}

/// One component of an attribute.
#[derive(Debug, Clone, Copy, PartialEq, Eq, Structural)]
pub enum Scalar {
    /// The bits of a single.
    Single(u32),
    /// The bits of a half.
    Half(u16),
    /// A numerator and a denominator.
    Ratio(i32, i32),
}

/// How the components of a format are stored, and how many there are.
pub open spec fn components_of(format: DxgiFormat) -> Option<(Component, usize)> {
    match format {
        DxgiFormat::R32Float => Some((Component::F32, 1)),
        DxgiFormat::R32G32Float => Some((Component::F32, 2)),
        DxgiFormat::R32G32B32Float => Some((Component::F32, 3)),
        DxgiFormat::R32G32B32A32Float => Some((Component::F32, 4)),
        DxgiFormat::R16G16Float => Some((Component::Half, 2)),
        DxgiFormat::R16G16B16A16Float => Some((Component::Half, 4)),
        DxgiFormat::R16G16Unorm => Some((Component::Unorm16, 2)),
        DxgiFormat::R16G16Snorm => Some((Component::Snorm16, 2)),
        DxgiFormat::R8G8B8A8Unorm => Some((Component::Unorm8, 4)),
        _ => None,
    }
}

/// How the components of a format are stored, and how many there are.
pub fn component_kind(format: DxgiFormat) -> (r: Option<(Component, usize)>)
    ensures
        r == components_of(format),
{
    match format {
        DxgiFormat::R32Float => Some((Component::F32, 1)),
        DxgiFormat::R32G32Float => Some((Component::F32, 2)),
        DxgiFormat::R32G32B32Float => Some((Component::F32, 3)),
        DxgiFormat::R32G32B32A32Float => Some((Component::F32, 4)),
        DxgiFormat::R16G16Float => Some((Component::Half, 2)),
        DxgiFormat::R16G16B16A16Float => Some((Component::Half, 4)),
        DxgiFormat::R16G16Unorm => Some((Component::Unorm16, 2)),
        DxgiFormat::R16G16Snorm => Some((Component::Snorm16, 2)),
        DxgiFormat::R8G8B8A8Unorm => Some((Component::Unorm8, 4)),
        _ => None,
    }
}

/// The bytes that a component takes.
pub open spec fn component_width(kind: Component) -> int {
    match kind {
        Component::F32 => 4,
        Component::Half => 2,
        Component::Unorm16 => 2,
        Component::Snorm16 => 2,
        Component::Unorm8 => 1,
    }
}

/// Component `c` of a vertex.
pub open spec fn scalar_at(kind: Component, b: Seq<u8>, c: int) -> Scalar {
    match kind {
        Component::F32 => Scalar::Single(crate::bytes::le32(b, 4 * c) as u32),
        Component::Half => Scalar::Half(crate::bytes::le16(b, 2 * c) as u16),
        Component::Unorm16 => Scalar::Ratio(crate::bytes::le16(b, 2 * c) as i32, 65535),
        Component::Snorm16 => Scalar::Ratio(
            crate::bytes::as_signed16(crate::bytes::le16(b, 2 * c)) as i32,
            32767,
        ),
        Component::Unorm8 => Scalar::Ratio(b[c] as i32, 255),
    }
}

/// Reads component `c` of a vertex.
fn read_scalar(kind: Component, b: &[u8], c: usize) -> (r: Scalar)
    requires
        c < 4,
        (c + 1) * component_width(kind) <= b@.len(),
    ensures
        r == scalar_at(kind, b@, c as int),
{
    match kind {
        Component::F32 => Scalar::Single(read32(b, 4 * c)),
        Component::Half => Scalar::Half(read16(b, 2 * c)),
        Component::Unorm16 => Scalar::Ratio(read16(b, 2 * c) as i32, 65535),
        Component::Snorm16 => Scalar::Ratio(signed16(read16(b, 2 * c)) as i32, 32767),
        Component::Unorm8 => Scalar::Ratio(b[c] as i32, 255),
    }
}

/// The components of one vertex.
pub open spec fn row_of(kind: Component, n: usize, b: Seq<u8>) -> Seq<Scalar> {
    Seq::new(n as nat, |c: int| scalar_at(kind, b, c))
}

/// The components of each vertex.
pub open spec fn row_step(
    buffer: crate::buffer::BufferView,
    offset: u32,
    kind: Component,
    n: usize,
    semantic: Seq<char>,
) -> spec_fn(int) -> Result<Seq<Scalar>, Fault> {
    |i: int|
        match field_bytes(buffer, offset, i, component_width(kind) * n) {
            Some(b) => Ok(row_of(kind, n, b)),
            None => Err(outside(buffer, offset, i, component_width(kind) * n, semantic)),
        }
}

/// Rows, one after the other.
pub open spec fn flat(rows: Seq<Seq<Scalar>>) -> Seq<Scalar>
    decreases rows.len(),
{
    if rows.len() == 0 {
        Seq::empty()
    } else {
        flat(rows.drop_last()) + rows.last()
    }
}

/// Row `i` of rows of one length stands at its own place among the flat values.
pub proof fn row_stands_in_place(rows: Seq<Seq<Scalar>>, n: int, i: int)
    requires
        n >= 0,
        0 <= i < rows.len(),
        forall|k: int| 0 <= k < rows.len() ==> #[trigger] rows[k].len() == n,
    ensures
        flat(rows).len() == rows.len() * n,
        0 <= i * n <= (i + 1) * n <= flat(rows).len(),
        flat(rows).subrange(i * n, (i + 1) * n) == rows[i],
    decreases rows.len(),
{
    let before = rows.drop_last();
    assert(rows.last().len() == n);
    assert(forall|k: int| 0 <= k < before.len() ==> before[k] == rows[k]);
    lemma_flat_len(before, n);
    assert(flat(rows).len() == rows.len() * n) by (nonlinear_arith)
        requires
            flat(rows).len() == (rows.len() - 1) * n + n,
    ;
    assert(0 <= i * n && i * n <= (i + 1) * n && (i + 1) * n <= rows.len() * n) by (
    nonlinear_arith)
        requires
            0 <= i < rows.len(),
            n >= 0,
    ;
    if i < rows.len() - 1 {
        row_stands_in_place(before, n, i);
        assert(flat(rows).subrange(i * n, (i + 1) * n) =~= flat(before).subrange(
            i * n,
            (i + 1) * n,
        ));
    } else {
        assert((i + 1) * n == i * n + n) by (nonlinear_arith);
        assert(flat(rows).subrange(i * n, (i + 1) * n) =~= rows[i]);
    }
}

/// The number of flat values.
proof fn lemma_flat_len(rows: Seq<Seq<Scalar>>, n: int)
    requires
        forall|k: int| 0 <= k < rows.len() ==> #[trigger] rows[k].len() == n,
    ensures
        flat(rows).len() == rows.len() * n,
    decreases rows.len(),
{
    if rows.len() > 0 {
        let before = rows.drop_last();
        assert(rows.last().len() == n);
        assert(forall|k: int| 0 <= k < before.len() ==> before[k] == rows[k]);
        lemma_flat_len(before, n);
        assert((rows.len() - 1) * n + n == rows.len() * n) by (nonlinear_arith);
    } else {
        assert(0 * n == 0);
    }
}

/// A decoded attribute: `components` values (1 to 4) per vertex.
#[derive(Debug, Clone)]
pub struct FloatAttribute {
    pub components: usize,
    pub values: Vec<Scalar>,
}

impl FloatAttribute {
    /// The values of vertex `i`.
    pub fn get(&self, i: usize) -> (r: &[Scalar])
        requires
            (i + 1) * self.components <= self.values@.len(),
        ensures
            r@ == self.values@.subrange(i * self.components, (i + 1) * self.components),
    {
        let values: &[Scalar] = self.values.as_slice();
        assert(values.len() <= usize::MAX);
        assert(i * self.components <= (i + 1) * self.components && (i + 1) * self.components == i
            * self.components + self.components && 0 <= i * self.components) by (nonlinear_arith);
        let start: usize = i * self.components;
        let end: usize = start + self.components;
        &values[start..end]
    }
}

/// What a decoder of an attribute gave back, as plain values.
pub open spec fn attribute_outcome(r: Result<FloatAttribute, MeshError>) -> Result<
    (usize, Seq<Scalar>),
    Fault,
> {
    match r {
        Ok(a) => Ok((a.components, a.values@)),
        Err(e) => Err(crate::error::known(e@)),
    }
}

/// A format that a semantic cannot have.
pub open spec fn unsupported(semantic: Seq<char>, format: DxgiFormat) -> Fault {
    Fault::UnsupportedFormat { path: semantic, semantic, format }
}

/// An attribute of every vertex of a buffer.
pub open spec fn attribute_of(
    buffer: crate::buffer::BufferView,
    field: crate::buffer::FieldView,
    semantic: Seq<char>,
) -> Result<(usize, Seq<Scalar>), Fault> {
    match components_of(field.format) {
        None => Err(unsupported(semantic, field.format)),
        Some(k) => match crate::error::gather(
            row_step(buffer, field.offset, k.0, k.1, semantic),
            buffer.element_count as nat,
        ) {
            Err(f) => Err(f),
            Ok(rows) => Ok((k.1, flat(rows))),
        },
    }
}

/// The error for a format that a semantic cannot have.
fn refuse(semantic: &str, format: DxgiFormat) -> (r: MeshError)
    ensures
        r@ == unsupported(semantic@, format),
{
    MeshError::UnsupportedFormat {
        path: semantic.to_owned(),
        semantic: semantic.to_owned(),
        format,
    }
}

/// Decodes an attribute of every vertex of a buffer.
pub fn decode_float_attribute(
    buffer: &Buffer,
    field: &InputLayoutField,
    semantic: &str,
) -> (r: Result<FloatAttribute, MeshError>)
    ensures
        attribute_outcome(r) == attribute_of(buffer@, field@, semantic@),
{
    let (kind, components) = match component_kind(field.format) {
        Some(k) => k,
        None => {
            return Err(refuse(semantic, field.format));
        },
    };
    let width: usize = match kind {
        Component::F32 => 4,
        Component::Half => 2,
        Component::Unorm16 => 2,
        Component::Snorm16 => 2,
        Component::Unorm8 => 1,
    };
    let len: usize = width * components;
    let ghost step = row_step(buffer@, field.offset, kind, components, semantic@);
    let ghost mut rows: Seq<Seq<Scalar>> = Seq::empty();
    let mut values: Vec<Scalar> = Vec::new();
    let mut i: u32 = 0;
    while i < buffer.element_count
        invariant
            i <= buffer.element_count,
            components_of(field.format) == Some((kind, components)),
            components <= 4,
            width == component_width(kind),
            len == width * components,
            step == row_step(buffer@, field.offset, kind, components, semantic@),
            crate::error::gather(step, i as nat) == Ok::<Seq<Seq<Scalar>>, Fault>(rows),
            values@ == flat(rows),
        decreases buffer.element_count - i,
    {
        let b: &[u8] = match vertex_slice(buffer, field, i as usize, len, semantic) {
            Ok(b) => b,
            Err(e) => {
                proof {
                    assert(step(i as int) == Err::<Seq<Scalar>, Fault>(crate::error::known(e@)));
                    crate::error::lemma_gather_refused(
                        step,
                        (i + 1) as nat,
                        buffer.element_count as nat,
                    );
                }
                return Err(e);
            },
        };
        let ghost row = row_of(kind, components, b@);
        let mut c: usize = 0;
        while c < components
            invariant
                c <= components <= 4,
                width == component_width(kind),
                b@.len() == width * components,
                row == row_of(kind, components, b@),
                values@ == flat(rows) + row.take(c as int),
            decreases components - c,
        {
            values.push(read_scalar(kind, b, c));
            proof {
                assert(row.take(c + 1) =~= row.take(c as int).push(row[c as int]));
                assert(flat(rows) + row.take(c + 1) =~= (flat(rows) + row.take(c as int)).push(
                    row[c as int],
                ));
            }
            c += 1;
        }
        proof {
            assert(row.take(components as int) =~= row);
            assert(step(i as int) == Ok::<Seq<Scalar>, Fault>(row));
            assert(rows.push(row).drop_last() =~= rows);
            rows = rows.push(row);
        }
        i += 1;
    }
    Ok(FloatAttribute { components, values })
}

/// Every vertex of a decoded attribute has its components, and they are those stored in the
/// buffer: the values at its place are the row that the buffer holds for it.
pub proof fn attribute_holds_every_vertex(
    buffer: crate::buffer::BufferView,
    field: crate::buffer::FieldView,
    semantic: Seq<char>,
    i: int,
)
    requires
        attribute_of(buffer, field, semantic) is Ok,
        0 <= i < buffer.element_count,
    ensures
        ({
            let (n, values) = attribute_of(buffer, field, semantic)->Ok_0;
            let (kind, count) = components_of(field.format)->Some_0;
            let b = field_bytes(buffer, field.offset, i, component_width(kind) * count);
            &&& n == count
            &&& values.len() == buffer.element_count * n
            &&& b is Some
            &&& values.subrange(i * n, (i + 1) * n) == row_of(kind, count, b->Some_0)
        }),
{
    let (kind, count) = components_of(field.format)->Some_0;
    let step = row_step(buffer, field.offset, kind, count, semantic);
    let total = buffer.element_count as nat;
    crate::error::lemma_gathered(step, total);
    let rows = crate::error::gather(step, total)->Ok_0;
    assert forall|k: int| 0 <= k < rows.len() implies #[trigger] rows[k].len() == count by {
        assert(step(k) == Ok::<Seq<Scalar>, Fault>(rows[k]));
    }
    assert(step(i) == Ok::<Seq<Scalar>, Fault>(rows[i]));
    row_stands_in_place(rows, count as int, i);
}

/// Three words from `pos` on.
pub open spec fn three_words(b: Seq<u8>) -> Seq<u32> {
    seq![
        crate::bytes::le32(b, 0) as u32,
        crate::bytes::le32(b, 4) as u32,
        crate::bytes::le32(b, 8) as u32,
    ]
}

/// The sequences behind a list of triples.
pub open spec fn triples(v: Seq<[u32; 3]>) -> Seq<Seq<u32>> {
    Seq::new(v.len(), |i: int| v[i]@)
}

/// The position of each vertex.
pub open spec fn position_step(buffer: crate::buffer::BufferView, offset: u32) -> spec_fn(
    int,
) -> Result<Seq<u32>, Fault> {
    |i: int|
        match field_bytes(buffer, offset, i, 12) {
            Some(b) => Ok(three_words(b)),
            None => Err(outside(buffer, offset, i, 12, "POSITION"@)),
        }
}

/// The positions of a buffer.
pub open spec fn positions_of(
    buffer: crate::buffer::BufferView,
    field: crate::buffer::FieldView,
) -> Result<Seq<Seq<u32>>, Fault> {
    if field.format != DxgiFormat::R32G32B32Float {
        Err(unsupported("POSITION"@, field.format))
    } else {
        crate::error::gather(position_step(buffer, field.offset), buffer.element_count as nat)
    }
}

/// Reads three words.
fn read_three(b: &[u8]) -> (r: [u32; 3])
    requires
        b@.len() >= 12,
    ensures
        r@ == three_words(b@),
{
    let t: [u32; 3] = [read32(b, 0), read32(b, 4), read32(b, 8)];
    assert(t@ =~= three_words(b@));
    t
}

/// The positions of a buffer, as the bits of three singles each. Only one format is a position.
pub fn decode_positions(buffer: &Buffer, field: &InputLayoutField) -> (r: Result<
    Vec<[u32; 3]>,
    MeshError,
>)
    ensures
        match r {
            Ok(v) => positions_of(buffer@, field@) == Ok::<Seq<Seq<u32>>, Fault>(triples(v@)),
            Err(e) => positions_of(buffer@, field@) == Err::<Seq<Seq<u32>>, Fault>(crate::error::known(e@)),
        },
{
    match field.format {
        DxgiFormat::R32G32B32Float => {},
        _ => {
            return Err(refuse("POSITION", field.format));
        },
    }
    let ghost step = position_step(buffer@, field.offset);
    let mut out: Vec<[u32; 3]> = Vec::new();
    assert(triples(out@) =~= Seq::<Seq<u32>>::empty());
    let mut i: u32 = 0;
    while i < buffer.element_count
        invariant
            i <= buffer.element_count,
            field.format == DxgiFormat::R32G32B32Float,
            step == position_step(buffer@, field.offset),
            crate::error::gather(step, i as nat) == Ok::<Seq<Seq<u32>>, Fault>(triples(out@)),
        decreases buffer.element_count - i,
    {
        match vertex_slice(buffer, field, i as usize, 12, "POSITION") {
            Ok(b) => {
                let t: [u32; 3] = read_three(b);
                proof {
                    assert(step(i as int) == Ok::<Seq<u32>, Fault>(t@));
                    assert(triples(out@.push(t)) =~= triples(out@).push(t@));
                }
                out.push(t);
            },
            Err(e) => {
                proof {
                    assert(step(i as int) == Err::<Seq<u32>, Fault>(crate::error::known(e@)));
                    crate::error::lemma_gather_refused(
                        step,
                        (i + 1) as nat,
                        buffer.element_count as nat,
                    );
                }
                return Err(e);
            },
        }
        i += 1;
    }
    Ok(out)
}

/// A texture coordinate may have any of the formats that [`component_kind`] knows.
pub fn decode_texcoord(buffer: &Buffer, field: &InputLayoutField) -> (r: Result<
    FloatAttribute,
    MeshError,
>)
    ensures
        attribute_outcome(r) == attribute_of(buffer@, field@, "TEXCOORD"@),
{
    decode_float_attribute(buffer, field, "TEXCOORD")
}

/// Whether a format can be a colour.
pub open spec fn is_color(format: DxgiFormat) -> bool {
    format == DxgiFormat::R8G8B8A8Unorm || format == DxgiFormat::R32G32B32A32Float
}

/// A colour is four bytes or four singles.
pub fn decode_color(buffer: &Buffer, field: &InputLayoutField) -> (r: Result<
    FloatAttribute,
    MeshError,
>)
    ensures
        is_color(field.format) ==> attribute_outcome(r) == attribute_of(
            buffer@,
            field@,
            "COLOR"@,
        ),
        !is_color(field.format) ==> attribute_outcome(r) == Err::<(usize, Seq<Scalar>), Fault>(
            unsupported("COLOR"@, field.format),
        ),
{
    match field.format {
        DxgiFormat::R8G8B8A8Unorm => decode_float_attribute(buffer, field, "COLOR"),
        DxgiFormat::R32G32B32A32Float => decode_float_attribute(buffer, field, "COLOR"),
        _ => Err(refuse("COLOR", field.format)),
    }
}

/// A direction on the folded octahedron: `x` and `y` in 63rds, and the signs of the three axes.
#[derive(Debug, Clone, Copy, PartialEq, Eq, Structural)]
pub struct Folded {
    pub x: u8,
    pub y: u8,
    pub x_negative: bool,
    pub y_negative: bool,
    pub z_negative: bool,
}

/// A normal as it is stored.
#[derive(Debug, Clone, Copy)]
#[allow(inconsistent_fields)]
pub enum Normal {
    /// The bits of three singles; no tangent.
    Plain([u32; 3]),
    /// A folded normal and a folded tangent.
    Bytes {
        normal: Folded,
        tangent: Folded,
        /// Whether the bitangent sign is positive.
        positive: bool,
    },
    /// A normal in 1023rds of the folded square, and the tangent's turn around it.
    Frame {
        x: u16,
        y: u16,
        /// In 2047ths of a full turn.
        turn: u16,
        /// Whether the bitangent sign is positive.
        positive: bool,
    },
}

/// A [`Normal`] with its singles as a sequence.
#[allow(inconsistent_fields)]
pub enum NormalView {
    Plain(Seq<u32>),
    Bytes { normal: Folded, tangent: Folded, positive: bool },
    Frame { x: u16, y: u16, turn: u16, positive: bool },
}

impl View for Normal {
    type V = NormalView;

    open spec fn view(&self) -> NormalView {
        match *self {
            Normal::Plain(t) => NormalView::Plain(t@),
            Normal::Bytes { normal, tangent, positive } => NormalView::Bytes {
                normal,
                tangent,
                positive,
            },
            Normal::Frame { x, y, turn, positive } => NormalView::Frame { x, y, turn, positive },
        }
    }
}

/// The distance of a byte from the middle of its range: 0 to 127 on either side.
pub open spec fn from_middle(b: u8) -> int {
    if b >= 128 {
        b - 128
    } else {
        127 - b
    }
}

/// The 63rds of a byte: 0 to 63 on either side of its half's middle.
pub open spec fn sixty_thirds(b: u8) -> u8 {
    (if from_middle(b) >= 64 {
        from_middle(b) - 64
    } else {
        63 - from_middle(b)
    }) as u8
}

/// The direction that two bytes stand for.
pub open spec fn unfolded(x: u8, y: u8) -> Folded {
    Folded {
        x: sixty_thirds(x),
        y: sixty_thirds(y),
        x_negative: from_middle(x) < 64,
        y_negative: from_middle(y) < 64,
        z_negative: x < 128,
    }
}

/// The 63rds of a byte, and whether it lies below its half's middle.
fn fold_byte(b: u8) -> (r: (u8, bool))
    ensures
        r.0 == sixty_thirds(b),
        r.1 == (from_middle(b) < 64),
        r.0 <= 63,
{
    let d: u8 = if b >= 128 {
        b - 128
    } else {
        127 - b
    };
    if d >= 64 {
        (d - 64, false)
    } else {
        (63 - d, true)
    }
}

/// The direction that two bytes stand for.
pub fn decompress_normal_v1(x: u8, y: u8) -> (r: Folded)
    ensures
        r == unfolded(x, y),
        r.x <= 63 && r.y <= 63,
{
    let (fx, x_negative) = fold_byte(x);
    let (fy, y_negative) = fold_byte(y);
    Folded { x: fx, y: fy, x_negative, y_negative, z_negative: x < 128 }
}

/// The fields of a packed frame, from the lowest bit up: a sign, eleven bits of turn, and ten bits
/// each of `x` and `y`.
pub open spec fn frame_of(packed: u32) -> NormalView {
    NormalView::Frame {
        x: (packed as int / 4096 % 1024) as u16,
        y: (packed as int / 0x40_0000 % 1024) as u16,
        turn: (packed as int / 2 % 2048) as u16,
        positive: packed % 2 == 1,
    }
}

/// Takes a packed frame apart.
pub fn decompress_normal_tangent_v2(packed: u32) -> (r: Normal)
    ensures
        r@ == frame_of(packed),
{
    Normal::Frame {
        x: (packed / 4096 % 1024) as u16,
        y: (packed / 0x40_0000 % 1024) as u16,
        turn: (packed / 2 % 2048) as u16,
        positive: packed % 2 == 1,
    }
}

/// The bytes that a normal takes, by its format.
pub open spec fn normal_len(format: DxgiFormat) -> Option<int> {
    match format {
        DxgiFormat::R32G32B32Float => Some(12),
        DxgiFormat::R8G8B8A8Unorm => Some(4),
        DxgiFormat::R32Uint => Some(4),
        _ => None,
    }
}

/// The normal that the bytes of a vertex hold.
pub open spec fn normal_in(format: DxgiFormat, b: Seq<u8>) -> NormalView {
    match format {
        DxgiFormat::R32G32B32Float => NormalView::Plain(three_words(b)),
        DxgiFormat::R8G8B8A8Unorm => NormalView::Bytes {
            normal: unfolded(b[0], b[1]),
            tangent: unfolded(b[2], b[3]),
            positive: b[3] >= 128,
        },
        _ => frame_of(crate::bytes::le32(b, 0) as u32),
    }
}

/// The normal of each vertex.
pub open spec fn normal_step(
    buffer: crate::buffer::BufferView,
    offset: u32,
    format: DxgiFormat,
    len: int,
) -> spec_fn(int) -> Result<NormalView, Fault> {
    |i: int|
        match field_bytes(buffer, offset, i, len) {
            Some(b) => Ok(normal_in(format, b)),
            None => Err(outside(buffer, offset, i, len, "NORMAL"@)),
        }
}

/// The normals of a buffer.
pub open spec fn normals_of(
    buffer: crate::buffer::BufferView,
    field: crate::buffer::FieldView,
) -> Result<Seq<NormalView>, Fault> {
    match normal_len(field.format) {
        None => Err(unsupported("NORMAL"@, field.format)),
        Some(len) => crate::error::gather(
            normal_step(buffer, field.offset, field.format, len),
            buffer.element_count as nat,
        ),
    }
}

/// The views of a list of normals.
pub open spec fn normal_views(v: Seq<Normal>) -> Seq<NormalView> {
    Seq::new(v.len(), |i: int| v[i]@)
}

/// Reads the normal that the bytes of a vertex hold.
fn read_normal(format: DxgiFormat, b: &[u8]) -> (r: Normal)
    requires
        normal_len(format) == Some(b@.len() as int),
    ensures
        r@ == normal_in(format, b@),
{
    match format {
        DxgiFormat::R32G32B32Float => Normal::Plain(read_three(b)),
        DxgiFormat::R8G8B8A8Unorm => Normal::Bytes {
            normal: decompress_normal_v1(b[0], b[1]),
            tangent: decompress_normal_v1(b[2], b[3]),
            positive: b[3] >= 128,
        },
        _ => decompress_normal_tangent_v2(read32(b, 0)),
    }
}

/// The normals of a buffer: plain, folded into bytes, or packed into a word.
pub fn decode_normals(buffer: &Buffer, field: &InputLayoutField) -> (r: Result<
    Vec<Normal>,
    MeshError,
>)
    ensures
        match r {
            Ok(v) => normals_of(buffer@, field@) == Ok::<Seq<NormalView>, Fault>(normal_views(v@)),
            Err(e) => normals_of(buffer@, field@) == Err::<Seq<NormalView>, Fault>(crate::error::known(e@)),
        },
{
    let len: usize = match field.format {
        DxgiFormat::R32G32B32Float => 12,
        DxgiFormat::R8G8B8A8Unorm => 4,
        DxgiFormat::R32Uint => 4,
        _ => {
            return Err(refuse("NORMAL", field.format));
        },
    };
    let ghost step = normal_step(buffer@, field.offset, field.format, len as int);
    let mut out: Vec<Normal> = Vec::new();
    assert(normal_views(out@) =~= Seq::<NormalView>::empty());
    let mut i: u32 = 0;
    while i < buffer.element_count
        invariant
            i <= buffer.element_count,
            normal_len(field.format) == Some(len as int),
            step == normal_step(buffer@, field.offset, field.format, len as int),
            crate::error::gather(step, i as nat) == Ok::<Seq<NormalView>, Fault>(
                normal_views(out@),
            ),
        decreases buffer.element_count - i,
    {
        match vertex_slice(buffer, field, i as usize, len, "NORMAL") {
            Ok(b) => {
                let n: Normal = read_normal(field.format, b);
                proof {
                    assert(step(i as int) == Ok::<NormalView, Fault>(n@));
                    assert(normal_views(out@.push(n)) =~= normal_views(out@).push(n@));
                }
                out.push(n);
            },
            Err(e) => {
                proof {
                    assert(step(i as int) == Err::<NormalView, Fault>(crate::error::known(e@)));
                    crate::error::lemma_gather_refused(
                        step,
                        (i + 1) as nat,
                        buffer.element_count as nat,
                    );
                }
                return Err(e);
            },
        }
        i += 1;
    }
    Ok(out)
}

} // verus!
