use prover_inputs::field::{from_byte, to_byte, FieldElement, OutOfByteRange, BYTE_RANGE};

#[test]
fn largest_byte_value_narrows() {
    assert_eq!(to_byte(FieldElement { value: 255 }), Ok(255u8));
}

#[test]
fn first_wide_value_is_refused() {
    assert_eq!(
        to_byte(FieldElement { value: 256 }),
        Err(OutOfByteRange { value: 256 })
    );
}

#[test]
fn zero_narrows_to_zero() {
    assert_eq!(to_byte(FieldElement { value: 0 }), Ok(0u8));
}

#[test]
fn wide_values_are_never_truncated() {
    for value in [257u32, 511, 512, 65_536, 2_013_265_920, u32::MAX] {
        assert_eq!(
            to_byte(FieldElement { value }),
            Err(OutOfByteRange { value })
        );
    }
}

#[test]
fn byte_range_is_256() {
    assert_eq!(BYTE_RANGE, 256);
}

#[test]
fn widening_keeps_the_value() {
    assert_eq!(from_byte(0), FieldElement { value: 0 });
    assert_eq!(from_byte(7), FieldElement { value: 7 });
    assert_eq!(from_byte(255), FieldElement { value: 255 });
}

#[test]
fn every_byte_comes_back_from_its_element() {
    for byte in 0..=255u8 {
        assert_eq!(to_byte(from_byte(byte)), Ok(byte));
    }
}

#[test]
fn widening_is_injective_on_all_bytes() {
    for first in 0..=255u8 {
        for second in 0..=255u8 {
            if first != second {
                assert_ne!(from_byte(first), from_byte(second));
            }
        }
    }
}

#[test]
fn narrowed_element_widens_back() {
    for value in 0..256u32 {
        let element = FieldElement { value };
        let byte = to_byte(element).unwrap();
        assert_eq!(from_byte(byte), element);
    }
}
