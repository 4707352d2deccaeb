//! Keys and the bytes they are stored under.
use fulcrum::data_access::{KeyString, KeyU64, KeyVec, Uid};
use fulcrum::error_handling::{Cause, InternalError};
use fulcrum::pb::{CdnUid, KeyUid};
use prost::Message;

fn bytes_of<T: Uid>(key: &T) -> Vec<u8> {
    match key.to_key_bytes() {
        Ok(bytes) => bytes,
        Err(_) => panic!("a key without bytes"),
    }
}

fn description(error: InternalError) -> String {
    match error.cause {
        Some(Cause::StorageValueDecodingError(e)) => {
            assert!(e.stack.is_empty());
            e.description
        }
        other => panic!("unexpected cause {:?}", other),
    }
}

fn name(text: &str) -> CdnUid {
    CdnUid { message: text.to_string() }
}

#[test]
fn number_is_stored_most_significant_byte_first() {
    assert_eq!(bytes_of(&KeyU64(0x0102030405060708)), vec![1, 2, 3, 4, 5, 6, 7, 8]);
    assert_eq!(bytes_of(&KeyU64(0)), vec![0; 8]);
    assert_eq!(bytes_of(&KeyU64(u64::MAX)), vec![255; 8]);
    assert_eq!(bytes_of(&KeyU64(256)), vec![0, 0, 0, 0, 0, 0, 1, 0]);
}

#[test]
fn number_reads_back() {
    for n in [0, 1, 255, 256, 0x0102030405060708, u64::MAX - 1, u64::MAX] {
        assert_eq!(KeyU64::from_key_bytes(&bytes_of(&KeyU64(n))), Ok(KeyU64(n)));
    }
}

#[test]
fn number_is_read_from_the_first_eight_bytes() {
    assert_eq!(KeyU64::from_key_bytes(&vec![0, 0, 0, 0, 0, 0, 2, 1, 9, 9]), Ok(KeyU64(513)));
}

#[test]
fn numbers_are_in_the_order_of_their_bytes() {
    let numbers = [0u64, 1, 255, 256, 65535, 65536, 1 << 40, u64::MAX];
    for a in numbers {
        for b in numbers {
            assert_eq!(a < b, bytes_of(&KeyU64(a)) < bytes_of(&KeyU64(b)));
        }
    }
}

#[test]
fn text_is_stored_as_utf8() {
    assert_eq!(bytes_of(&KeyString("abc".to_string())), b"abc".to_vec());
    assert_eq!(bytes_of(&KeyString("ü€".to_string())), vec![0xc3, 0xbc, 0xe2, 0x82, 0xac]);
    assert_eq!(bytes_of(&KeyString(String::new())), Vec::<u8>::new());
}

#[test]
fn text_reads_back() {
    for text in ["", "abc", "ü€", "𝄞 clef"] {
        let key = KeyString(text.to_string());
        assert_eq!(KeyString::from_key_bytes(&bytes_of(&key)), Ok(key));
    }
}

#[test]
fn bytes_that_are_no_text_are_refused() {
    let bad = vec![b'a', 0xff];
    let expected = String::from_utf8(bad.clone()).unwrap_err().to_string();
    let error = KeyString::from_key_bytes(&bad).unwrap_err();
    assert_eq!(description(error), expected);
    assert_eq!(expected, "invalid utf-8 sequence of 1 bytes from index 1");
}

#[test]
fn texts_start_as_their_bytes_do() {
    let texts = ["", "a", "ab", "ü", "üb", "b", "€", "ä"];
    for prefix in texts {
        for text in texts {
            let p = bytes_of(&KeyString(prefix.to_string()));
            let t = bytes_of(&KeyString(text.to_string()));
            assert_eq!(t.starts_with(&p), text.starts_with(prefix));
        }
    }
}

#[test]
fn byte_string_is_stored_as_it_is() {
    let key = KeyVec::from_key_bytes(&vec![0, 255, 7]).unwrap();
    assert_eq!(bytes_of(&key), vec![0, 255, 7]);
}

#[test]
fn name_is_stored_as_a_message() {
    assert_eq!(bytes_of(&name("abc")), vec![0x0a, 3, b'a', b'b', b'c']);
    assert_eq!(bytes_of(&name("")), Vec::<u8>::new());
    let long = "x".repeat(300);
    let mut expected = vec![0x0a, 0xac, 0x02];
    expected.extend_from_slice(long.as_bytes());
    assert_eq!(bytes_of(&name(&long)), expected);
}

#[test]
fn name_reads_back() {
    for text in ["", "abc", "ü€"] {
        assert_eq!(CdnUid::from_key_bytes(&bytes_of(&name(text))), Ok(name(text)));
    }
}

fn bad_name(bytes: &[u8]) -> String {
    description(CdnUid::from_key_bytes(&bytes.to_vec()).unwrap_err())
}

#[test]
fn bytes_that_are_no_name_are_refused() {
    assert_eq!(
        bad_name(&[0x0a, 5, b'a']),
        "failed to decode Protobuf message: CdnUid.message: buffer underflow"
    );
    assert_eq!(
        bad_name(&[0x0a, 1, 0xff]),
        "failed to decode Protobuf message: CdnUid.message: \
         invalid string value: data is not UTF-8 encoded"
    );
    assert_eq!(
        bad_name(&[0x08, 1]),
        "failed to decode Protobuf message: CdnUid.message: \
         invalid wire type: Varint (expected LengthDelimited)"
    );
}

#[test]
fn only_errors_in_the_field_of_a_name_tell_the_field() {
    for bytes in [vec![0x00], vec![0x80], vec![0x10], vec![0x12, 9, 1], vec![0x14]] {
        let expected = String::decode(bytes.as_slice()).unwrap_err().to_string();
        assert!(!expected.contains("CdnUid"));
        assert_eq!(bad_name(&bytes), expected);
    }
}

#[test]
fn other_fields_of_a_name_are_passed_over_and_the_last_text_counts() {
    let bytes = vec![0x10, 5, 0x0a, 1, b'a', 0x1a, 2, 1, 2, 0x0a, 2, b'b', b'c', 0x25, 1, 2, 3, 4];
    assert_eq!(CdnUid::from_key_bytes(&bytes), Ok(name("bc")));
    assert_eq!(CdnUid::from_key_bytes(&vec![0x10, 5]), Ok(name("")));
}

#[test]
fn hash_is_stored_as_a_message() {
    let hash = KeyUid { sip: vec![9, 8, 7] };
    assert_eq!(bytes_of(&hash), vec![0x0a, 3, 9, 8, 7]);
    assert_eq!(KeyUid::from_key_bytes(&bytes_of(&hash)), Ok(hash));
    assert_eq!(bytes_of(&KeyUid { sip: vec![] }), Vec::<u8>::new());
}

#[test]
fn bytes_that_are_no_hash_are_refused() {
    let refused = |bytes: Vec<u8>| description(KeyUid::from_key_bytes(&bytes).unwrap_err());
    assert_eq!(
        refused(vec![0x0a, 20]),
        "failed to decode Protobuf message: KeyUid.sip: buffer underflow"
    );
    let expected = <Vec<u8>>::decode([0x00].as_ref()).unwrap_err().to_string();
    assert_eq!(refused(vec![0x00]), expected);
}

#[test]
fn other_fields_of_a_hash_are_passed_over_and_the_last_value_counts() {
    let bytes = vec![0x10, 5, 0x0a, 1, 7, 0x0a, 2, 8, 9];
    assert_eq!(KeyUid::from_key_bytes(&bytes), Ok(KeyUid { sip: vec![8, 9] }));
}

#[test]
fn different_keys_have_different_bytes() {
    let names = ["", "a", "b", "ab", "\n\u{1}a"];
    for a in names {
        for b in names {
            assert_eq!(a == b, bytes_of(&name(a)) == bytes_of(&name(b)));
        }
    }
}

#[test]
fn name_is_shown_with_what_it_is() {
    assert_eq!(name("abc").display(), "Uid: abc");
    assert_eq!(name("").display(), "Uid: ");
}
