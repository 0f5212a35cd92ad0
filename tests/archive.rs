use doodle_remap::archive::{
    archive_path_words, collect_senders, encode_path, is_letter_folder, join_path, leading_numeric,
    shard_folders, string_from_filename, FileAttributes, FileReader, MessageRecord,
    NOTES_TITLE_ID, READ_BATCH,
};
use doodle_remap::avatar::Avatar;

fn name_field(text: &str) -> [u16; 262] {
    let mut field = [0u16; 262];
    for (i, u) in text.encode_utf16().enumerate() {
        field[i] = u;
    }
    field
}

#[test]
fn filename_stops_at_nul() {
    let field = name_field("0001");
    assert_eq!(string_from_filename(&field), Some("0001".to_string()));
}

#[test]
fn filename_ignores_units_after_nul() {
    let mut field = name_field("note.bpk");
    field[20] = 0xD800;
    assert_eq!(string_from_filename(&field), Some("note.bpk".to_string()));
}

#[test]
fn filename_decodes_surrogate_pairs() {
    let field = name_field("a\u{1F600}b");
    assert_eq!(string_from_filename(&field), Some("a\u{1F600}b".to_string()));
}

#[test]
fn filename_with_unpaired_surrogate_is_rejected() {
    let mut field = [0u16; 262];
    field[0] = 0x41;
    field[1] = 0xDC00;
    assert_eq!(string_from_filename(&field), None);
}

#[test]
fn filename_of_full_field() {
    let field = [0x41u16; 262];
    assert_eq!(string_from_filename(&field), Some("A".repeat(262)));
}

#[test]
fn empty_filename() {
    assert_eq!(string_from_filename(&[0u16; 262]), Some(String::new()));
}

#[test]
fn numeric_folders_are_shards() {
    assert!(is_letter_folder("0000".to_string()));
    assert!(is_letter_folder("0001abc".to_string()));
    assert!(is_letter_folder("12".to_string()));
    assert!(is_letter_folder(String::new()));
    assert!(is_letter_folder("\u{0663}\u{0663}\u{0663}\u{0663}".to_string()));
}

#[test]
fn other_folders_are_not_shards() {
    assert!(!is_letter_folder("abcd".to_string()));
    assert!(!is_letter_folder("000a".to_string()));
    assert!(!is_letter_folder("00-1".to_string()));
    assert!(!is_letter_folder("x".to_string()));
}

#[test]
fn shard_walk_keeps_only_numeric_folders() {
    let names = vec![
        "0000".to_string(),
        "temp".to_string(),
        "0001".to_string(),
        "12ab".to_string(),
        "0002x".to_string(),
    ];
    let shards = shard_folders(names);
    assert_eq!(shards, vec!["/letter/0000", "/letter/0001", "/letter/0002x"]);
    for s in &shards {
        let name = &s["/letter/".len()..];
        assert!(name.chars().take(4).all(|c| c.is_numeric()));
    }
}

#[test]
fn shard_walk_of_nothing() {
    assert!(shard_folders(Vec::new()).is_empty());
}

#[test]
fn paths_join_with_slash() {
    assert_eq!(join_path("/letter/0000", "abc.bpk"), "/letter/0000/abc.bpk");
}

#[test]
fn path_is_utf16_with_terminator() {
    let units = encode_path("/letter");
    let mut expected: Vec<u16> = "/letter".encode_utf16().collect();
    expected.push(0);
    assert_eq!(units, expected);
    assert_eq!(encode_path("\u{1F600}"), vec![0xD83D, 0xDE00, 0]);
    assert_eq!(encode_path(""), vec![0]);
}

#[test]
fn archive_selector_words() {
    assert_eq!(archive_path_words(1, NOTES_TITLE_ID), vec![1, 0x1A2E, 0]);
    assert_eq!(archive_path_words(2, 0xFFFF_FFFF_1234_5678), vec![2, 0x12_3456, 0]);
}

#[test]
fn read_only_attribute_word() {
    let attrs = FileAttributes {
        is_directory: false,
        is_hidden: false,
        is_archive: false,
        readonly: true,
    };
    assert_eq!(attrs.word(), 0x0100_0000);
    let all = FileAttributes { is_directory: true, is_hidden: true, is_archive: true, readonly: true };
    assert_eq!(all.word(), 0x0101_0101);
}

#[test]
fn reader_stops_at_short_batch() {
    let mut reader = FileReader::new();
    assert_eq!(reader.offset(), 0);
    let full = vec![7u8; READ_BATCH];
    reader.absorb(&full);
    assert!(!reader.done);
    assert_eq!(reader.offset(), 1024);
    reader.absorb(&[1, 2, 3]);
    assert!(reader.done);
    assert_eq!(reader.offset(), 1027);
    assert_eq!(&reader.bytes[1024..], &[1, 2, 3]);
}

#[test]
fn reader_of_empty_file() {
    let mut reader = FileReader::new();
    reader.absorb(&[]);
    assert!(reader.done);
    assert!(reader.bytes.is_empty());
}

#[test]
fn senders_skip_unknown_and_avatarless_notes() {
    let records = vec![
        MessageRecord { sender: 0, avatar: Some(Avatar { name: "Anon".to_string(), key: 1 }) },
        MessageRecord { sender: 10, avatar: Some(Avatar { name: "A".to_string(), key: 0xAA }) },
        MessageRecord { sender: 30, avatar: None },
        MessageRecord { sender: 20, avatar: Some(Avatar { name: "C".to_string(), key: 0xCC }) },
        MessageRecord { sender: 10, avatar: Some(Avatar { name: "A2".to_string(), key: 0xAB }) },
    ];
    let senders = collect_senders(records);
    assert_eq!(senders.len(), 2);
    assert_eq!(senders.get(10).unwrap().name, "A2");
    assert_eq!(senders.get(20).unwrap().key, 0xCC);
    assert!(senders.get(0).is_none());
    assert!(senders.get(30).is_none());
}

#[test]
fn leading_flags_decide_shard() {
    assert!(leading_numeric(&[true, true, true, true, false]));
    assert!(!leading_numeric(&[true, true, false, true]));
    assert!(leading_numeric(&[true]));
    assert!(leading_numeric(&[]));
}
