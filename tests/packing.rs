use bladerf_adsb::{binary_to_bytes, icao_bytes_to_hex, PackError};

#[test]
fn packs_single_bytes() {
    assert_eq!(binary_to_bytes("00000000"), Ok(vec![0]));
    assert_eq!(binary_to_bytes("11111111"), Ok(vec![255]));
    assert_eq!(binary_to_bytes("10000001"), Ok(vec![129]));
}

#[test]
fn packs_most_significant_bit_first() {
    assert_eq!(binary_to_bytes("0100101110101100"), Ok(vec![0x4B, 0xAC]));
    assert_eq!(binary_to_bytes(""), Ok(vec![]));
}

#[test]
fn packs_a_full_message() {
    let bits = "1000110101000000011000100001110101011000110000111000001011010110100100001100100010101100001010000110001110100111";
    assert_eq!(
        binary_to_bytes(bits),
        Ok(vec![0x8D, 0x40, 0x62, 0x1D, 0x58, 0xC3, 0x82, 0xD6, 0x90, 0xC8, 0xAC, 0x28, 0x63, 0xA7])
    );
}

#[test]
fn bit_count_not_multiple_of_eight_fails() {
    assert_eq!(binary_to_bytes("0000000"), Err(PackError::MalformedBitLength));
    assert_eq!(binary_to_bytes("000000001"), Err(PackError::MalformedBitLength));
    assert_eq!(binary_to_bytes("x"), Err(PackError::MalformedBitLength));
}

#[test]
fn non_binary_character_fails() {
    assert_eq!(binary_to_bytes("00000002"), Err(PackError::InvalidDigit));
    assert_eq!(binary_to_bytes("0000000011111a11"), Err(PackError::InvalidDigit));
}

#[test]
fn icao_renders_as_uppercase_hex() {
    assert_eq!(icao_bytes_to_hex([0x4B, 0xAC, 0x06]), "4BAC06");
    assert_eq!(icao_bytes_to_hex([0x00, 0x00, 0x00]), "000000");
    assert_eq!(icao_bytes_to_hex([0xFF, 0x0A, 0x9F]), "FF0A9F");
}
