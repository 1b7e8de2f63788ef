//! Descriptions of the types that values are decoded as.

use vstd::prelude::*;
use crate::decoded::{Decoded, DecodedView};
use crate::parse_type::DerivedTypeInfo;

verus! {

/// The width of an integer type.
#[derive(Debug, Clone, Copy, PartialEq, Eq)]
pub enum IntWidth {
    W8,
    W16,
    W32,
    W64,
    /// The width of a pointer.
    Size,
}

impl IntWidth {
    /// The largest value of the unsigned type of this width.
    pub open spec fn unsigned_limit(self) -> int {
        match self {
            IntWidth::W8 => u8::MAX as int,
            IntWidth::W16 => u16::MAX as int,
            IntWidth::W32 => u32::MAX as int,
            IntWidth::W64 => u64::MAX as int,
            IntWidth::Size => usize::MAX as int,
        }
    }

    /// The largest value of the signed type of this width.
    pub open spec fn signed_limit(self) -> int {
        match self {
            IntWidth::W8 => i8::MAX as int,
            IntWidth::W16 => i16::MAX as int,
            IntWidth::W32 => i32::MAX as int,
            IntWidth::W64 => i64::MAX as int,
            IntWidth::Size => isize::MAX as int,
        }
    }

    /// The smallest value of the signed type of this width.
    pub open spec fn signed_floor(self) -> int {
        match self {
            IntWidth::W8 => i8::MIN as int,
            IntWidth::W16 => i16::MIN as int,
            IntWidth::W32 => i32::MIN as int,
            IntWidth::W64 => i64::MIN as int,
            IntWidth::Size => isize::MIN as int,
        }
    }

    /// The largest value of the unsigned type of this width.
    pub fn unsigned_bound(&self) -> (bound: u64)
        ensures
            bound == self.unsigned_limit(),
    {
        match self {
            IntWidth::W8 => u8::MAX as u64,
            IntWidth::W16 => u16::MAX as u64,
            IntWidth::W32 => u32::MAX as u64,
            IntWidth::W64 => u64::MAX,
            IntWidth::Size => usize::MAX as u64,
        }
    }

    /// The largest value of the signed type of this width.
    pub fn signed_bound(&self) -> (bound: i64)
        ensures
            bound == self.signed_limit(),
            -bound - 1 == self.signed_floor(),
    {
        match self {
            IntWidth::W8 => i8::MAX as i64,
            IntWidth::W16 => i16::MAX as i64,
            IntWidth::W32 => i32::MAX as i64,
            IntWidth::W64 => i64::MAX,
            IntWidth::Size => isize::MAX as i64,
        }
    }

    /// Whether the unsigned type of this width holds `n`.
    pub fn fits_unsigned(&self, n: u64) -> (fits: bool)
        ensures
            fits == (n <= self.unsigned_limit()),
    {
        match self {
            IntWidth::W8 => n <= u8::MAX as u64,
            IntWidth::W16 => n <= u16::MAX as u64,
            IntWidth::W32 => n <= u32::MAX as u64,
            IntWidth::W64 => true,
            IntWidth::Size => n <= usize::MAX as u64,
        }
    }

    /// Whether the signed type of this width holds `n`.
    pub fn fits_signed(&self, n: i64) -> (fits: bool)
        ensures
            fits == (self.signed_floor() <= n <= self.signed_limit()),
    {
        match self {
            IntWidth::W8 => i8::MIN as i64 <= n && n <= i8::MAX as i64,
            IntWidth::W16 => i16::MIN as i64 <= n && n <= i16::MAX as i64,
            IntWidth::W32 => i32::MIN as i64 <= n && n <= i32::MAX as i64,
            IntWidth::W64 => true,
            IntWidth::Size => isize::MIN as i64 <= n && n <= isize::MAX as i64,
        }
    }
}

/// The type of the keys of a mapping: what the text of a key is parsed as.
#[derive(Debug, Clone, Copy, PartialEq, Eq)]
pub enum KeyShape {
    String,
    Unsigned(IntWidth),
    Signed(IntWidth),
}

/// The type that a value is decoded as.
#[derive(Debug)]
pub enum Shape {
    /// The unit type: decoded from null.
    Unit,
    Bool,
    Unsigned(IntWidth),
    Signed(IntWidth),
    Float,
    String,
    /// An optional value: null decodes as none.
    Optional(Box<Shape>),
    /// A boxed value.
    Boxed(Box<Shape>),
    /// A homogeneous sequence.
    Sequence(Box<Shape>),
    /// A mapping from parsed keys to values of one type.
    Mapping(KeyShape, Box<Shape>),
    /// A tuple: a sequence of exactly as many items as there are shapes.
    Tuple(Vec<Shape>),
    /// A struct with named fields, or an internally tagged enum.
    Derived(DerivedTypeInfo),
}

impl Shape {
    /// What an absent field of this type is taken to hold, if anything.
    pub open spec fn absent(self) -> Option<DecodedView> {
        match self {
            Shape::Optional(_) => Some(DecodedView::Optional(None)),
            _ => None,
        }
    }

    /// The value of a field of this type that the input lacks: none for an
    /// optional value, and no value at all for any other type.
    pub fn default(&self) -> (value: Option<Decoded>)
        ensures
            (match value {
                Some(d) => Some(d@),
                None => None,
            }) == self.absent(),
    {
        match self {
            Shape::Optional(_) => Some(Decoded::Optional(None)),
            _ => None,
        }
    }
}

} // verus!
