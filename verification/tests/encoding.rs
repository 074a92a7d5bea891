use query_bundler::encoding::{
    encode_length, encode_uint_key, raw_map_key, EncodingError, ToRawKey,
};
use query_bundler::error::ContractError;
use query_bundler::msg::IntType;

#[test]
fn text_key_layout() {
    let key = "alice".to_string().to_raw_map_key("balance").unwrap();
    let mut expected = vec![0u8, 7u8];
    expected.extend_from_slice(b"balance");
    expected.extend_from_slice(b"alice");
    assert_eq!(key, expected);
}

#[test]
fn first_two_bytes_spell_the_namespace_length() {
    let namespace = "n".repeat(300);
    let key = "k".to_string().to_raw_map_key(&namespace).unwrap();
    assert_eq!(key[0], 1);
    assert_eq!(key[1], 44);
    assert_eq!(key.len(), 2 + 300 + 1);
    assert_eq!(&key[2..302], namespace.as_bytes());
    assert_eq!(&key[302..], b"k");
}

#[test]
fn same_input_same_key() {
    let first = 77u32.to_raw_map_key("tokens").unwrap();
    let second = 77u32.to_raw_map_key("tokens").unwrap();
    assert_eq!(first, second);
    let first = "id".to_string().to_raw_map_key("tokens").unwrap();
    let second = "id".to_string().to_raw_map_key("tokens").unwrap();
    assert_eq!(first, second);
}

#[test]
fn integer_keys_are_big_endian() {
    assert_eq!(0x42u8.to_raw_map_key("ns").unwrap(), vec![0, 2, b'n', b's', 0x42]);
    assert_eq!(0x4243u16.to_raw_map_key("ns").unwrap(), vec![0, 2, b'n', b's', 0x42, 0x43]);
    assert_eq!(
        0x424344u32.to_raw_map_key("ns").unwrap(),
        vec![0, 2, b'n', b's', 0x00, 0x42, 0x43, 0x44]
    );
    assert_eq!(
        0x0102030405060708u64.to_raw_map_key("ns").unwrap(),
        vec![0, 2, b'n', b's', 1, 2, 3, 4, 5, 6, 7, 8]
    );
    assert_eq!(
        0x0102030405060708090a0b0c0d0e0f10u128.to_raw_map_key("ns").unwrap(),
        vec![0, 2, b'n', b's', 1, 2, 3, 4, 5, 6, 7, 8, 9, 10, 11, 12, 13, 14, 15, 16]
    );
}

#[test]
fn keys_are_width_sensitive() {
    let narrow = 1u8.to_raw_map_key("ns").unwrap();
    let wide = 1u64.to_raw_map_key("ns").unwrap();
    assert_ne!(narrow, wide);
    assert_eq!(narrow.len(), 2 + 2 + 1);
    assert_eq!(wide.len(), 2 + 2 + 8);
    assert_eq!(narrow, vec![0, 2, b'n', b's', 1]);
    assert_eq!(wide, vec![0, 2, b'n', b's', 0, 0, 0, 0, 0, 0, 0, 1]);
}

#[test]
fn empty_namespace_is_rejected() {
    assert_eq!("k".to_string().to_raw_map_key(""), Err(EncodingError::NamespaceEmpty));
    assert_eq!(5u16.to_raw_map_key(""), Err(EncodingError::NamespaceEmpty));
}

#[test]
fn empty_primary_key_is_rejected() {
    assert_eq!(String::new().to_raw_map_key("ns"), Err(EncodingError::PrimaryKeyEmpty));
    assert_eq!(String::new().to_raw_map_key(""), Err(EncodingError::PrimaryKeyEmpty));
    assert_eq!(raw_map_key("ns", b""), Err(EncodingError::PrimaryKeyEmpty));
}

#[test]
fn namespace_of_65536_bytes_is_rejected() {
    let namespace = "x".repeat(65536);
    assert_eq!("k".to_string().to_raw_map_key(&namespace), Err(EncodingError::NamespaceTooLong));
    assert_eq!(1u128.to_raw_map_key(&namespace), Err(EncodingError::NamespaceTooLong));
}

#[test]
fn namespace_of_65535_bytes_is_accepted() {
    let namespace = "x".repeat(65535);
    let key = "k".to_string().to_raw_map_key(&namespace).unwrap();
    assert_eq!(key[0], 0xFF);
    assert_eq!(key[1], 0xFF);
    assert_eq!(key.len(), 2 + 65535 + 1);
}

#[test]
fn length_bytes() {
    assert_eq!(encode_length(b""), Ok([0, 0]));
    assert_eq!(encode_length(b"abc"), Ok([0, 3]));
    assert_eq!(encode_length(&vec![0u8; 256]), Ok([1, 0]));
    assert_eq!(encode_length(&vec![0u8; 65535]), Ok([255, 255]));
    assert_eq!(encode_length(&vec![0u8; 65536]), Err(EncodingError::NamespaceTooLong));
}

#[test]
fn encoding_error_messages() {
    assert_eq!(EncodingError::PrimaryKeyEmpty.message(), "Primary Key length cannot be 0");
    assert_eq!(EncodingError::NamespaceEmpty.message(), "Namespace length cannot be 0");
    assert_eq!(EncodingError::NamespaceTooLong.message(), "Namespace length cannot be > 0xFFFF");
}

#[test]
fn uint_key_takes_the_named_width() {
    assert_eq!(encode_uint_key(1, IntType::U8, "ns").unwrap(), vec![0, 2, b'n', b's', 1]);
    assert_eq!(encode_uint_key(1, IntType::U16, "ns").unwrap(), vec![0, 2, b'n', b's', 0, 1]);
    assert_eq!(
        encode_uint_key(1, IntType::U32, "ns").unwrap(),
        vec![0, 2, b'n', b's', 0, 0, 0, 1]
    );
    assert_eq!(
        encode_uint_key(258, IntType::U64, "ns").unwrap(),
        vec![0, 2, b'n', b's', 0, 0, 0, 0, 0, 0, 1, 2]
    );
    assert_eq!(
        encode_uint_key(u64::MAX, IntType::U128, "ns").unwrap(),
        vec![
            0, 2, b'n', b's', 0, 0, 0, 0, 0, 0, 0, 0, 255, 255, 255, 255, 255, 255, 255, 255
        ]
    );
}

#[test]
fn uint_key_overflow_is_refused() {
    assert_eq!(
        encode_uint_key(256, IntType::U8, "ns"),
        Err(ContractError::GenericError("u8 key overflow".to_string()))
    );
    assert_eq!(
        encode_uint_key(65536, IntType::U16, "ns"),
        Err(ContractError::GenericError("u16 key overflow".to_string()))
    );
    assert_eq!(
        encode_uint_key(1 << 32, IntType::U32, "ns"),
        Err(ContractError::GenericError("u32 key overflow".to_string()))
    );
    assert_eq!(encode_uint_key(255, IntType::U8, "ns").unwrap().len(), 5);
    assert_eq!(encode_uint_key(65535, IntType::U16, "ns").unwrap().len(), 6);
    assert_eq!(encode_uint_key(u32::MAX as u64, IntType::U32, "ns").unwrap().len(), 8);
}

#[test]
fn uint_key_overflow_comes_before_the_namespace() {
    assert_eq!(
        encode_uint_key(256, IntType::U8, ""),
        Err(ContractError::GenericError("u8 key overflow".to_string()))
    );
    assert_eq!(
        encode_uint_key(255, IntType::U8, ""),
        Err(ContractError::GenericError("Namespace length cannot be 0".to_string()))
    );
}
