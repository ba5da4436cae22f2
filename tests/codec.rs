use asuka::embedding::{deserialize_embedding, serialize_embedding};

#[test]
fn serialize_is_little_endian() {
    let bytes = serialize_embedding(&vec![0x3f80_0000u32, 0x0102_0304u32]);
    assert_eq!(bytes, vec![0x00, 0x00, 0x80, 0x3f, 0x04, 0x03, 0x02, 0x01]);
}

#[test]
fn deserialize_round_trips() {
    let words = vec![1u32, 0xdead_beef, 0, u32::MAX];
    let bytes = serialize_embedding(&words);
    assert_eq!(bytes.len(), 16);
    assert_eq!(deserialize_embedding(&bytes), Some(words));
}

#[test]
fn deserialize_rejects_partial_word() {
    assert_eq!(deserialize_embedding(&vec![1u8, 2, 3]), None);
}
