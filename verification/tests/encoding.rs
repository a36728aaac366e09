use sukusho::file_list::{contains_nul, decode, encode, payload_size, DecodeError, EncodeError, HEADER_SIZE};

fn wide(text: &str) -> Vec<u16> {
    text.encode_utf16().collect()
}

const HEADER: [u8; 20] = [20, 0, 0, 0, 0, 0, 0, 0, 0, 0, 0, 0, 0, 0, 0, 0, 1, 0, 0, 0];

#[test]
fn header_is_twenty_bytes() {
    assert_eq!(HEADER_SIZE, 20);
    let payload = encode(&vec![]).unwrap();
    assert_eq!(&payload[..20], &HEADER[..]);
}

#[test]
fn empty_list_is_header_and_list_terminator() {
    let payload = encode(&vec![]).unwrap();
    let mut expected = HEADER.to_vec();
    expected.extend_from_slice(&[0, 0]);
    assert_eq!(payload, expected);
}

#[test]
fn one_path_is_laid_out_low_byte_first() {
    let payload = encode(&vec![wide("C:\\a")]).unwrap();
    let mut expected = HEADER.to_vec();
    expected.extend_from_slice(&[0x43, 0, 0x3A, 0, 0x5C, 0, 0x61, 0, 0, 0, 0, 0]);
    assert_eq!(payload, expected);
}

#[test]
fn high_bytes_follow_low_bytes() {
    let payload = encode(&vec![vec![0x1234, 0xD83D, 0xDE00]]).unwrap();
    assert_eq!(&payload[20..], &[0x34, 0x12, 0x3D, 0xD8, 0x00, 0xDE, 0, 0, 0, 0]);
}

#[test]
fn two_paths_follow_each_other() {
    let payload = encode(&vec![wide("a"), wide("bc")]).unwrap();
    assert_eq!(&payload[20..], &[0x61, 0, 0, 0, 0x62, 0, 0x63, 0, 0, 0, 0, 0]);
}

#[test]
fn payload_length_follows_the_formula() {
    let paths = vec![wide("C:\\shots\\one.png"), wide("D:\\x"), wide("E:\\스크린샷\\😀.png")];
    let units: usize = paths.iter().map(|path| path.len() + 1).sum();
    let payload = encode(&paths).unwrap();
    assert_eq!(payload.len(), 20 + units * 2 + 2);
    assert_eq!(payload_size(&paths), Some(payload.len()));
    assert_eq!(payload_size(&vec![]), Some(22));
    assert_eq!(payload_size(&vec![wide("abc")]), Some(20 + 8 + 2));
}

#[test]
fn encoding_is_deterministic() {
    let paths = vec![wide("C:\\shots\\one.png"), wide("C:\\shots\\two.png")];
    assert_eq!(encode(&paths), encode(&paths.clone()));
}

#[test]
fn embedded_nul_is_rejected_for_the_first_such_path() {
    let paths = vec![wide("C:\\ok"), vec![0x43, 0, 0x44], vec![0]];
    assert_eq!(encode(&paths), Err(EncodeError::EmbeddedNul { path: 1 }));
    assert!(contains_nul(&vec![0x43, 0, 0x44]));
    assert!(!contains_nul(&wide("C:\\ok")));
    assert!(!contains_nul(&vec![]));
}

#[test]
fn decoding_recovers_the_paths() {
    let paths = vec![wide("C:\\shots\\one.png"), wide("D:\\x"), wide("E:\\스크린샷\\😀.png")];
    let payload = encode(&paths).unwrap();
    assert_eq!(decode(&payload), Ok(paths));
}

#[test]
fn decoding_an_empty_list() {
    let payload = encode(&vec![]).unwrap();
    assert_eq!(decode(&payload), Ok(vec![]));
}

#[test]
fn an_empty_path_ends_the_list_for_a_reader() {
    let payload = encode(&vec![wide("a"), vec![], wide("b")]).unwrap();
    assert_eq!(decode(&payload), Ok(vec![wide("a")]));
}

#[test]
fn bytes_after_the_list_are_not_read() {
    let mut payload = encode(&vec![wide("a")]).unwrap();
    payload.extend_from_slice(&[0x62, 0, 7]);
    assert_eq!(decode(&payload), Ok(vec![wide("a")]));
}

#[test]
fn short_input_is_truncated() {
    assert_eq!(decode(&[]), Err(DecodeError::Truncated));
    assert_eq!(decode(&HEADER[..19]), Err(DecodeError::Truncated));
}

#[test]
fn a_changed_header_is_rejected() {
    for index in 0..20 {
        let mut payload = encode(&vec![wide("a")]).unwrap();
        payload[index] ^= 0x40;
        assert_eq!(decode(&payload), Err(DecodeError::BadHeader));
    }
}

#[test]
fn a_list_that_is_not_closed_is_unterminated() {
    assert_eq!(decode(&HEADER), Err(DecodeError::Unterminated));
    let payload = encode(&vec![wide("a")]).unwrap();
    assert_eq!(decode(&payload[..payload.len() - 2]), Err(DecodeError::Unterminated));
    assert_eq!(decode(&payload[..payload.len() - 1]), Err(DecodeError::Unterminated));
    assert_eq!(decode(&payload[..payload.len() - 4]), Err(DecodeError::Unterminated));
    let mut odd = HEADER.to_vec();
    odd.push(0);
    assert_eq!(decode(&odd), Err(DecodeError::Unterminated));
}
