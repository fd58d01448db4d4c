use png_chunk::chunk_type::{ChunkType, ChunkTypeError};

#[test]
pub fn test_chunk_type_from_bytes() {
    let expected = [82, 117, 83, 116];
    let actual = ChunkType::from_bytes([82, 117, 83, 116]).unwrap();

    assert_eq!(expected, actual.bytes());
}

#[test]
pub fn test_chunk_type_from_str() {
    let expected = ChunkType::from_bytes([82, 117, 83, 116]).unwrap();
    let actual = ChunkType::from_text("RuSt").unwrap();
    assert_eq!(expected, actual);
}

#[test]
pub fn test_chunk_type_is_critical() {
    let chunk = ChunkType::from_text("RuSt").unwrap();
    assert!(chunk.is_critical());
}

#[test]
pub fn test_chunk_type_is_not_critical() {
    let chunk = ChunkType::from_text("ruSt").unwrap();
    assert!(!chunk.is_critical());
}

#[test]
pub fn test_chunk_type_is_public() {
    let chunk = ChunkType::from_text("RUSt").unwrap();
    assert!(chunk.is_public());
}

#[test]
pub fn test_chunk_type_is_not_public() {
    let chunk = ChunkType::from_text("RuSt").unwrap();
    assert!(!chunk.is_public());
}

#[test]
pub fn test_chunk_type_is_reserved_bit_valid() {
    let chunk = ChunkType::from_text("RuSt").unwrap();
    assert!(chunk.is_reserved_bit_valid());
}

#[test]
pub fn test_chunk_type_is_reserved_bit_invalid() {
    let chunk = ChunkType::from_text("Rust").unwrap();
    assert!(!chunk.is_reserved_bit_valid());
}

#[test]
pub fn test_chunk_type_is_safe_to_copy() {
    let chunk = ChunkType::from_text("RuSt").unwrap();
    assert!(chunk.is_safe_to_copy());
}

#[test]
pub fn test_chunk_type_is_unsafe_to_copy() {
    let chunk = ChunkType::from_text("RuST").unwrap();
    assert!(!chunk.is_safe_to_copy());
}

#[test]
pub fn test_valid_chunk_is_valid() {
    let chunk = ChunkType::from_text("RuSt").unwrap();
    assert!(chunk.is_valid());
}

#[test]
pub fn test_invalid_chunk_is_valid() {
    let chunk = ChunkType::from_text("Rust").unwrap();
    assert!(!chunk.is_valid());

    let chunk = ChunkType::from_text("Ru1t");
    assert!(chunk.is_err());
}

#[test]
pub fn test_chunk_type_string() {
    let chunk = ChunkType::from_text("RuSt").unwrap();
    assert_eq!(&chunk.to_text(), "RuSt");
}

#[test]
pub fn test_chunk_type_trait_impls() {
    let chunk_type_1: ChunkType = ChunkType::from_bytes([82, 117, 83, 116]).unwrap();
    let chunk_type_2: ChunkType = ChunkType::from_text("RuSt").unwrap();
    let _chunk_string = chunk_type_1.to_text();
    let _are_chunks_equal = chunk_type_1 == chunk_type_2;
}

#[test]
fn rust_tag_has_the_documented_properties() {
    let tag = ChunkType::from_bytes([82, 117, 83, 116]).unwrap();
    assert_eq!(tag.to_text(), "RuSt");
    assert!(tag.is_critical());
    assert!(!tag.is_public());
    assert!(tag.is_reserved_bit_valid());
    assert!(tag.is_safe_to_copy());
    assert!(tag.is_valid());
    assert!(!tag.is_err());
}

#[test]
fn digit_byte_is_rejected() {
    assert_eq!(
        ChunkType::from_bytes([82, 117, 49, 116]),
        Err(ChunkTypeError::InvalidChunkType)
    );
}

#[test]
fn bytes_next_to_the_letter_ranges_are_rejected() {
    for outside in [0u8, 64, 91, 96, 123, 127, 128, 255] {
        assert!(!ChunkType::is_valid_byte(outside));
        for at in 0..4 {
            let mut bytes = [82u8, 117, 83, 116];
            bytes[at] = outside;
            assert_eq!(
                ChunkType::from_bytes(bytes),
                Err(ChunkTypeError::InvalidChunkType)
            );
        }
    }
    for inside in [65u8, 90, 97, 122] {
        assert!(ChunkType::is_valid_byte(inside));
        assert!(ChunkType::from_bytes([inside; 4]).is_ok());
    }
}

#[test]
fn every_byte_is_judged_as_a_letter_or_not() {
    for byte in 0..=255u8 {
        assert_eq!(
            ChunkType::is_valid_byte(byte),
            byte.is_ascii_alphabetic()
        );
    }
}

#[test]
fn property_bits_follow_bit_five() {
    for text in ["RuSt", "ruSt", "RUSt", "Rust", "RuST", "abcd", "ABCD", "zZzZ"] {
        let tag = ChunkType::from_text(text).unwrap();
        let bytes = tag.bytes();
        assert_eq!(tag.is_critical(), bytes[0] & 32 == 0);
        assert_eq!(tag.is_public(), bytes[1] & 32 == 0);
        assert_eq!(tag.is_reserved_bit_valid(), bytes[2] & 32 == 0);
        assert_eq!(tag.is_safe_to_copy(), bytes[3] & 32 == 32);
        assert_eq!(tag.is_valid(), tag.is_reserved_bit_valid());
        assert_eq!(tag.is_err(), !tag.is_valid());
    }
}

#[test]
fn text_of_the_wrong_length_is_rejected() {
    for text in ["", "R", "Ru", "RuS", "RuStx", "RuStRuSt"] {
        assert_eq!(
            ChunkType::from_text(text),
            Err(ChunkTypeError::InvalidChunkType)
        );
    }
}

#[test]
fn text_with_a_character_that_is_no_ascii_letter_is_rejected() {
    for text in ["Ru1t", "Ru t", "R-St", "RuS\n", "\u{141}uSt", "Ru\u{e9}t", "\u{1f600}abc"] {
        assert_eq!(
            ChunkType::from_text(text),
            Err(ChunkTypeError::InvalidChunkType)
        );
    }
}

#[test]
fn text_and_bytes_build_the_same_tag() {
    let from_text = ChunkType::from_text("IEND").unwrap();
    assert_eq!(from_text.bytes(), [73, 69, 78, 68]);
    let from_bytes = ChunkType::from_bytes([73, 69, 78, 68]).unwrap();
    assert_eq!(from_bytes.to_text(), "IEND");
    assert_eq!(from_text, from_bytes);
}

#[test]
fn rendering_a_tag_gives_its_text_back() {
    for text in ["RuSt", "IHDR", "tEXt", "zzzz", "AAAA"] {
        let tag = ChunkType::from_text(text).unwrap();
        assert_eq!(tag.to_text(), text);
        assert_eq!(ChunkType::from_text(&tag.to_text()).unwrap(), tag);
    }
}

#[test]
fn tags_are_equal_when_their_bytes_are() {
    let a = ChunkType::from_text("RuSt").unwrap();
    let b = ChunkType::from_bytes([82, 117, 83, 116]).unwrap();
    assert!(a == b);
    for other in ["ruSt", "RUSt", "Rust", "RuST"] {
        let c = ChunkType::from_text(other).unwrap();
        assert!(a != c);
    }
    let copy = a.clone();
    assert_eq!(copy, a);
    assert_eq!(copy.bytes(), a.bytes());
}
