use rbuilder_constraints::building::hex_vec::{deserialize, serialize};

#[test]
fn bytes_are_written_in_hex() {
    let data = vec![vec![0x00u8, 0xab, 0xff], vec![], vec![0x10]];
    assert_eq!(serialize(&data), vec!["0x00abff", "0x", "0x10"]);
}

#[test]
fn written_bytes_are_read_back() {
    let data: Vec<Vec<u8>> = vec![(0u8..=255).collect(), vec![], vec![7]];
    assert_eq!(deserialize(&serialize(&data)).unwrap(), data);
}

#[test]
fn prefix_is_optional_and_case_does_not_matter() {
    let strings = vec!["ABcd".to_string(), "0xABcd".to_string(), "".to_string()];
    assert_eq!(
        deserialize(&strings).unwrap(),
        vec![vec![0xab, 0xcd], vec![0xab, 0xcd], vec![]]
    );
}

#[test]
fn first_bad_string_is_named() {
    let strings = vec!["0x00".to_string(), "0x0g".to_string(), "0x1".to_string()];
    let error = deserialize(&strings).unwrap_err();
    assert_eq!(error.index, 1);
    assert_eq!(error.error, hex::FromHexError::InvalidHexCharacter { c: 'g', index: 1 });
    let error = deserialize(&vec!["0x123".to_string()]).unwrap_err();
    assert_eq!(error.index, 0);
    assert_eq!(error.error, hex::FromHexError::OddLength);
}
