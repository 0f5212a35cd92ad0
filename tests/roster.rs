use doodle_remap::avatar::Avatar;
use doodle_remap::roster::{
    assemble_roster, check_status, decode_enumerate, decode_local_avatar, decode_local_id,
    encode_enumerate, encode_fetch_details, encode_local_avatar, encode_local_id,
    mapped_write_descriptor, pair_records, static_buffer_descriptor, RosterError, AVATAR_LEN,
    ENUMERATE_HEADER, FETCH_DETAILS_HEADER, INFO_AVATAR_OFFSET, LOCAL_AVATAR_HEADER,
    LOCAL_ID_HEADER, ROSTER_LIMIT,
};

fn avatar(name: &str, key: u64) -> Avatar {
    Avatar { name: name.to_string(), key }
}

#[test]
fn enumerate_request_words() {
    let r = encode_enumerate(0, ROSTER_LIMIT, 16, 0x1234_5678);
    assert_eq!(r.params, vec![0x0011_0080, 0, 100]);
    assert_eq!(r.static_buffers, vec![(100u32 << 18) | 2, 0x1234_5678]);
    assert_eq!(ENUMERATE_HEADER, 0x110080);
}

#[test]
fn fetch_details_request_words() {
    let r = encode_fetch_details(3, 16, 0x100, 0xAAAA_0000, 0xBBBB_0000);
    assert_eq!(
        r.params,
        vec![
            0x001A_00C4,
            3,
            0,
            0,
            ((3 * 16) << 14) | 0x2,
            0xAAAA_0000,
            ((3 * 0x100) << 4) | 0x8 | 0x4,
            0xBBBB_0000,
        ]
    );
    assert!(r.static_buffers.is_empty());
    assert_eq!(FETCH_DETAILS_HEADER, 0x1A00C4);
}

#[test]
fn local_identity_requests() {
    assert_eq!(encode_local_id().params, vec![LOCAL_ID_HEADER]);
    assert_eq!(encode_local_avatar().params, vec![LOCAL_AVATAR_HEADER]);
    assert_eq!(LOCAL_ID_HEADER, 0x0005_0000);
    assert_eq!(LOCAL_AVATAR_HEADER, 0x000A_0000);
}

#[test]
fn descriptor_encodings() {
    assert_eq!(static_buffer_descriptor(1600, 0), 0x0190_0002);
    assert_eq!(static_buffer_descriptor(8, 3), (8 << 14) | (3 << 10) | 2);
    assert_eq!(mapped_write_descriptor(0x100), 0x100C);
}

#[test]
fn status_word_decides() {
    assert_eq!(check_status(&[0, 0]), Ok(()));
    assert_eq!(check_status(&[0, 0xC8A1_0BF0]), Err(RosterError::Status(0xC8A1_0BF0)));
}

#[test]
fn enumerate_response_count() {
    assert_eq!(decode_enumerate(&[0, 0, 42], 100), Ok(42));
    assert_eq!(decode_enumerate(&[0, 0, 0], 100), Ok(0));
    assert_eq!(decode_enumerate(&[0, 0, 100], 100), Ok(100));
    assert_eq!(decode_enumerate(&[0, 7, 42], 100), Err(RosterError::Status(7)));
    assert_eq!(decode_enumerate(&[0, 0, 101], 100), Err(RosterError::CountAboveLimit(101)));
}

#[test]
fn local_id_response() {
    assert_eq!(decode_local_id(&[0, 0, 0xDEAD_BEEF]), Ok(0xDEAD_BEEF));
    assert_eq!(decode_local_id(&[0, 3, 0xDEAD_BEEF]), Err(RosterError::Status(3)));
}

#[test]
fn local_avatar_bytes_are_little_endian() {
    let mut response = vec![0u32, 0u32];
    for k in 0..23u32 {
        response.push(0x0403_0201 + k * 0x0404_0404);
    }
    let bytes = decode_local_avatar(&response).unwrap();
    assert_eq!(bytes.len(), AVATAR_LEN);
    let expected: Vec<u8> = (1..=92u32).map(|b| b as u8).collect();
    assert_eq!(bytes, expected);
    response[1] = 9;
    assert_eq!(decode_local_avatar(&response), Err(RosterError::Status(9)));
}

#[test]
fn records_pair_keys_with_infos() {
    let key_len = 16;
    let info_len = 0x100;
    let mut keys = vec![0u8; 2 * key_len];
    keys[0..4].copy_from_slice(&0x0102_0304u32.to_le_bytes());
    keys[16..20].copy_from_slice(&77u32.to_le_bytes());
    let mut infos = vec![0u8; 2 * info_len];
    for i in 0..AVATAR_LEN {
        infos[INFO_AVATAR_OFFSET + i] = i as u8;
        infos[info_len + INFO_AVATAR_OFFSET + i] = 200 - i as u8;
    }
    let records = pair_records(&keys, &infos, 2, key_len, info_len);
    assert_eq!(records.len(), 2);
    assert_eq!(records[0].id, 0x0102_0304);
    assert_eq!(records[1].id, 77);
    assert_eq!(records[0].avatar, (0..AVATAR_LEN).map(|i| i as u8).collect::<Vec<u8>>());
    assert_eq!(records[1].avatar, (0..AVATAR_LEN).map(|i| 200 - i as u8).collect::<Vec<u8>>());
}

#[test]
fn roster_holds_decoded_entries_and_local_identity() {
    let friends = vec![
        (5, Some(avatar("Eve", 0xE))),
        (3, None),
        (9, Some(avatar("Ivy", 0x9))),
    ];
    let roster = assemble_roster(1, avatar("Me", 0x1), friends);
    assert_eq!(roster.len(), 3);
    assert_eq!(roster.get(1).unwrap().name, "Me");
    assert_eq!(roster.get(5).unwrap().name, "Eve");
    assert_eq!(roster.get(9).unwrap().key, 0x9);
    assert!(roster.get(3).is_none());
    assert_eq!(roster.id_at(0), 1);
    assert_eq!(roster.id_at(1), 5);
    assert_eq!(roster.id_at(2), 9);
}

#[test]
fn roster_with_no_contacts_is_local_identity() {
    let roster = assemble_roster(42, avatar("Me", 7), Vec::new());
    assert_eq!(roster.len(), 1);
    assert_eq!(roster.get(42).unwrap().key, 7);
}

#[test]
fn roster_with_all_decodes_failing_is_local_identity() {
    let friends = (0..100u32).map(|i| (i + 100, None)).collect();
    let roster = assemble_roster(42, avatar("Me", 7), friends);
    assert_eq!(roster.len(), 1);
}

#[test]
fn roster_later_entry_replaces_earlier() {
    let friends = vec![(5, Some(avatar("Old", 1))), (5, Some(avatar("New", 2))), (5, None)];
    let roster = assemble_roster(1, avatar("Me", 0), friends);
    assert_eq!(roster.len(), 2);
    assert_eq!(roster.get(5).unwrap().name, "New");
}
