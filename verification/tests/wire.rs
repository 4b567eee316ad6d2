use cookbook::traverse::{has_file_name, is_hidden};
use cookbook::wire::{read_protocol, write_protocol, ProtocolError};

#[test]
fn decodes_the_dummy_message() {
    // `MyProtocol`, little-endian tag, then 0xDEAD and 0xBEEF as words.
    let mut data: Vec<u8> = b"MyProtocolLE".to_vec();
    data.extend_from_slice(&[0xAD, 0xDE, 0x00, 0x00]);
    data.extend_from_slice(&[0xEF, 0xBE, 0x00, 0x00]);
    let payload = read_protocol(&data).expect("the dummy message decodes");
    assert_eq!(payload, vec![0xDEAD, 0xBEEF]);
}

#[test]
fn decodes_big_endian_words() {
    let mut data: Vec<u8> = b"MyProtocolBE".to_vec();
    data.extend_from_slice(&[0x00, 0x00, 0xDE, 0xAD]);
    let payload = read_protocol(&data).expect("the big-endian message decodes");
    assert_eq!(payload, vec![0xDEAD]);
}

#[test]
fn an_empty_payload_is_a_valid_message() {
    let payload = read_protocol(b"MyProtocolLE").expect("an empty payload decodes");
    assert_eq!(payload, Vec::<u32>::new());
}

#[test]
fn rejects_a_wrong_magic_string() {
    assert_eq!(read_protocol(b"NoProtocolLE"), Err(ProtocolError::BadMagic));
    assert_eq!(read_protocol(b"My"), Err(ProtocolError::BadMagic));
    assert_eq!(read_protocol(b""), Err(ProtocolError::BadMagic));
}

#[test]
fn rejects_an_unknown_endianness_tag() {
    assert_eq!(read_protocol(b"MyProtocolXX"), Err(ProtocolError::BadEndianness));
    assert_eq!(read_protocol(b"MyProtocol"), Err(ProtocolError::BadEndianness));
}

#[test]
fn rejects_a_payload_cut_off_inside_a_word() {
    assert_eq!(
        read_protocol(b"MyProtocolLE\xAD\xDE\x00"),
        Err(ProtocolError::TruncatedPayload)
    );
}

#[test]
fn what_is_written_reads_back_unchanged() {
    for little_endian in [true, false] {
        let words = [0xDEADu32, 0xBEEF, 0, u32::MAX, 1];
        let data = write_protocol(&words, little_endian);
        let decoded = read_protocol(&data).expect("an encoded message decodes");
        assert_eq!(decoded, words.to_vec());
    }
}

#[test]
fn hidden_entries_open_with_a_dot() {
    assert!(is_hidden(".git"));
    assert!(is_hidden("."));
    assert!(!is_hidden("src"));
    assert!(!is_hidden(""));
}

#[test]
fn file_names_match_exactly() {
    assert!(has_file_name("vector.rs", "vector.rs"));
    assert!(!has_file_name("vector.rs", "vector.r"));
    assert!(!has_file_name("vec", "vector.rs"));
    assert!(!has_file_name("vector.rx", "vector.rs"));
}
