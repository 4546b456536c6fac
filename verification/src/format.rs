//! The vertex and index element formats that render meshes use, out of the `DXGI_FORMAT`
//! numbering. Every other number is kept as [`DxgiFormat::Other`]; whether a format suits an
//! attribute is for the attribute's decoder to say.

use vstd::prelude::*;

verus! {

/// A vertex or index element format, as `RenderInputLayoutField_t::m_Format` stores it.
#[derive(Debug, Clone, Copy, PartialEq, Eq, Structural)]
pub enum DxgiFormat {
    R32Float,
    R32G32Float,
    R32G32B32Float,
    R32G32B32A32Float,
    R16G16Float,
    R16G16Unorm,
    R16G16Snorm,
    R16G16B16A16Float,
    R8G8B8A8Unorm,
    R8G8B8A8Uint,
    R32Uint,
    /// Any other number, kept for reporting.
    Other(u32),
}

/// The number of a format.
pub open spec fn raw_of(f: DxgiFormat) -> u32 {
    match f {
        DxgiFormat::R32G32B32A32Float => 2,
        DxgiFormat::R32G32B32Float => 6,
        DxgiFormat::R16G16B16A16Float => 10,
        DxgiFormat::R32G32Float => 16,
        DxgiFormat::R8G8B8A8Unorm => 28,
        DxgiFormat::R8G8B8A8Uint => 30,
        DxgiFormat::R16G16Float => 34,
        DxgiFormat::R16G16Unorm => 35,
        DxgiFormat::R16G16Snorm => 37,
        DxgiFormat::R32Float => 41,
        DxgiFormat::R32Uint => 42,
        DxgiFormat::Other(v) => v,
    }
}

/// The numbers that have a format of their own.
pub open spec fn is_known(value: u32) -> bool {
    value == 2 || value == 6 || value == 10 || value == 16 || value == 28 || value == 30 || value
        == 34 || value == 35 || value == 37 || value == 41 || value == 42
}

/// The format of a number: its own where it has one, [`DxgiFormat::Other`] where it has none.
pub open spec fn format_of(value: u32) -> DxgiFormat {
    if value == 2 {
        DxgiFormat::R32G32B32A32Float
    } else if value == 6 {
        DxgiFormat::R32G32B32Float
    } else if value == 10 {
        DxgiFormat::R16G16B16A16Float
    } else if value == 16 {
        DxgiFormat::R32G32Float
    } else if value == 28 {
        DxgiFormat::R8G8B8A8Unorm
    } else if value == 30 {
        DxgiFormat::R8G8B8A8Uint
    } else if value == 34 {
        DxgiFormat::R16G16Float
    } else if value == 35 {
        DxgiFormat::R16G16Unorm
    } else if value == 37 {
        DxgiFormat::R16G16Snorm
    } else if value == 41 {
        DxgiFormat::R32Float
    } else if value == 42 {
        DxgiFormat::R32Uint
    } else {
        DxgiFormat::Other(value)
    }
}

/// Bytes per component and components per element, where the format is laid out that way.
pub open spec fn layout_of(f: DxgiFormat) -> Option<(usize, usize)> {
    match f {
        DxgiFormat::R8G8B8A8Unorm | DxgiFormat::R8G8B8A8Uint => Some((1usize, 4usize)),
        DxgiFormat::R16G16Float | DxgiFormat::R16G16Snorm | DxgiFormat::R16G16Unorm => Some(
            (2usize, 2usize),
        ),
        DxgiFormat::R16G16B16A16Float => Some((2usize, 4usize)),
        DxgiFormat::R32Float | DxgiFormat::R32Uint => Some((4usize, 1usize)),
        DxgiFormat::R32G32Float => Some((4usize, 2usize)),
        DxgiFormat::R32G32B32Float => Some((4usize, 3usize)),
        DxgiFormat::R32G32B32A32Float => Some((4usize, 4usize)),
        DxgiFormat::Other(_) => None,
    }
}

impl DxgiFormat {
    /// Decodes a `DXGI_FORMAT` number.
    pub fn from_raw(value: u32) -> (r: DxgiFormat)
        ensures
            r == format_of(value),
    {
        match value {
            2 => DxgiFormat::R32G32B32A32Float,
            6 => DxgiFormat::R32G32B32Float,
            10 => DxgiFormat::R16G16B16A16Float,
            16 => DxgiFormat::R32G32Float,
            28 => DxgiFormat::R8G8B8A8Unorm,
            30 => DxgiFormat::R8G8B8A8Uint,
            34 => DxgiFormat::R16G16Float,
            35 => DxgiFormat::R16G16Unorm,
            37 => DxgiFormat::R16G16Snorm,
            41 => DxgiFormat::R32Float,
            42 => DxgiFormat::R32Uint,
            other => DxgiFormat::Other(other),
        }
    }

    /// The `DXGI_FORMAT` number of this format.
    pub fn raw(self) -> (r: u32)
        ensures
            r == raw_of(self),
    {
        match self {
            DxgiFormat::R32G32B32A32Float => 2,
            DxgiFormat::R32G32B32Float => 6,
            DxgiFormat::R16G16B16A16Float => 10,
            DxgiFormat::R32G32Float => 16,
            DxgiFormat::R8G8B8A8Unorm => 28,
            DxgiFormat::R8G8B8A8Uint => 30,
            DxgiFormat::R16G16Float => 34,
            DxgiFormat::R16G16Unorm => 35,
            DxgiFormat::R16G16Snorm => 37,
            DxgiFormat::R32Float => 41,
            DxgiFormat::R32Uint => 42,
            DxgiFormat::Other(v) => v,
        }
    }

    /// `(bytes per component, component count)`; `None` for a format that no attribute uses.
    pub fn element_size_and_components(self) -> (r: Option<(usize, usize)>)
        ensures
            r == layout_of(self),
    {
        match self {
            DxgiFormat::R8G8B8A8Unorm | DxgiFormat::R8G8B8A8Uint => Some((1, 4)),
            DxgiFormat::R16G16Float | DxgiFormat::R16G16Snorm | DxgiFormat::R16G16Unorm => Some(
                (2, 2),
            ),
            DxgiFormat::R16G16B16A16Float => Some((2, 4)),
            DxgiFormat::R32Float | DxgiFormat::R32Uint => Some((4, 1)),
            DxgiFormat::R32G32Float => Some((4, 2)),
            DxgiFormat::R32G32B32Float => Some((4, 3)),
            DxgiFormat::R32G32B32A32Float => Some((4, 4)),
            DxgiFormat::Other(_) => None,
        }
    }

    /// The name of the variant, with the number of an unknown format in brackets.
    pub fn name(self) -> (r: String)
        ensures
            r@ == format_name(self),
    {
        match self {
            DxgiFormat::R32Float => "R32Float".to_owned(),
            DxgiFormat::R32G32Float => "R32G32Float".to_owned(),
            DxgiFormat::R32G32B32Float => "R32G32B32Float".to_owned(),
            DxgiFormat::R32G32B32A32Float => "R32G32B32A32Float".to_owned(),
            DxgiFormat::R16G16Float => "R16G16Float".to_owned(),
            DxgiFormat::R16G16Unorm => "R16G16Unorm".to_owned(),
            DxgiFormat::R16G16Snorm => "R16G16Snorm".to_owned(),
            DxgiFormat::R16G16B16A16Float => "R16G16B16A16Float".to_owned(),
            DxgiFormat::R8G8B8A8Unorm => "R8G8B8A8Unorm".to_owned(),
            DxgiFormat::R8G8B8A8Uint => "R8G8B8A8Uint".to_owned(),
            DxgiFormat::R32Uint => "R32Uint".to_owned(),
            DxgiFormat::Other(v) => {
                let mut r: String = "Other(".to_owned();
                r.append(crate::text::decimal(v as u64).as_str());
                r.append(")");
                r
            },
        }
    }
}

/// The name of a format, as reports show it.
pub open spec fn format_name(f: DxgiFormat) -> Seq<char> {
    match f {
        DxgiFormat::R32Float => "R32Float"@,
        DxgiFormat::R32G32Float => "R32G32Float"@,
        DxgiFormat::R32G32B32Float => "R32G32B32Float"@,
        DxgiFormat::R32G32B32A32Float => "R32G32B32A32Float"@,
        DxgiFormat::R16G16Float => "R16G16Float"@,
        DxgiFormat::R16G16Unorm => "R16G16Unorm"@,
        DxgiFormat::R16G16Snorm => "R16G16Snorm"@,
        DxgiFormat::R16G16B16A16Float => "R16G16B16A16Float"@,
        DxgiFormat::R8G8B8A8Unorm => "R8G8B8A8Unorm"@,
        DxgiFormat::R8G8B8A8Uint => "R8G8B8A8Uint"@,
        DxgiFormat::R32Uint => "R32Uint"@,
        DxgiFormat::Other(v) => "Other("@ + crate::text::decimal_digits(v as nat) + ")"@,
    }
}

/// Decoding a number and taking the number of the format gives the number back.
pub proof fn raw_undoes_from_raw(value: u32)
    ensures
        raw_of(format_of(value)) == value,
{
}

/// Taking the number of a format and decoding it gives the format back, unless the format is an
/// `Other` that holds a number with a format of its own.
pub proof fn from_raw_undoes_raw(f: DxgiFormat)
    requires
        !(f matches DxgiFormat::Other(v) && is_known(v)),
    ensures
        format_of(raw_of(f)) == f,
{
}

} // verus!
