//! Field elements and bytes.
//!
//! A memory image is addressed by byte, yet the older schema stores each of
//! its values as a field element. The conversion here refuses every element
//! that does not fit in a byte, so that no value is ever truncated.
use vstd::prelude::*;

verus! {

/// The number of values that a byte can hold.
pub const BYTE_RANGE: u32 = 256;

/// A field element, held by its canonical representative.
#[derive(Clone, Copy, Debug, PartialEq, Eq, Structural)]
pub struct FieldElement {
    pub value: u32,
}

/// A field element that was asked to become a byte and is too large for one.
#[derive(Clone, Copy, Debug, PartialEq, Eq, Structural)]
pub struct OutOfByteRange {
    /// The canonical representative of the offending element.
    pub value: u32,
}

/// The byte that stands for `element`, if there is one.
pub open spec fn byte_of(element: FieldElement) -> Option<u8> {
    if element.value < BYTE_RANGE {
        Some(element.value as u8)
    } else {
        None
    }
}

/// The field element that stands for `byte`.
pub open spec fn element_of(byte: u8) -> FieldElement {
    FieldElement { value: byte as u32 }
}

/// Narrows a field element to a byte.
///
/// Fails on every element whose canonical representative is 256 or more; the
/// error carries that representative.
pub fn to_byte(element: FieldElement) -> (narrowed: Result<u8, OutOfByteRange>)
    ensures
        match narrowed {
            Ok(byte) => byte_of(element) == Some(byte),
            Err(fault) => byte_of(element) is None && fault.value == element.value,
        },
{
    if element.value < BYTE_RANGE {
        Ok(element.value as u8)
    } else {
        Err(OutOfByteRange { value: element.value })
    }
}

/// Widens a byte to a field element.
pub fn from_byte(byte: u8) -> (element: FieldElement)
    ensures
        element == element_of(byte),
{
    FieldElement { value: byte as u32 }
}

/// Widening is injective: two bytes that widen to the same element are the
/// same byte.
pub proof fn lemma_element_of_injective(first: u8, second: u8)
    requires
        element_of(first) == element_of(second),
    ensures
        first == second,
{
}

/// Narrowing undoes widening: every byte comes back from its element.
pub proof fn lemma_byte_of_element_of(byte: u8)
    ensures
        byte_of(element_of(byte)) == Some(byte),
{
}

/// Widening undoes narrowing: an element that narrows to a byte is the
/// element of that byte.
pub proof fn lemma_element_of_byte_of(element: FieldElement, byte: u8)
    requires
        byte_of(element) == Some(byte),
    ensures
        element_of(byte) == element,
{
}

/// An element narrows exactly when its representative is below 256, and then
/// to that representative.
pub proof fn lemma_byte_of_range(element: FieldElement)
    ensures
        byte_of(element) is Some <==> element.value < 256,
        byte_of(element) matches Some(byte) ==> byte as int == element.value as int,
{
}

} // verus!
