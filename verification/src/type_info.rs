use vstd::prelude::*;

verus! {

/// A static classification of an encodable type. Containers read the
/// classification of their element type to recognise special cases, above all
/// "every element is one raw byte", without inspecting values at run time.
#[allow(non_camel_case_types)]
#[derive(Clone, Copy, Debug, PartialEq, Eq, Structural)]
pub enum TypeInfo {
    /// The classification of every type that does not declare another one.
    Unknown,
    U8,
    I8,
    U16,
    I16,
    U32,
    I32,
    USIZE,
    ISIZE,
    U64,
    I64,
    Bool,
    BigUint,
    BigInt,
    Unit,
}

} // verus!
