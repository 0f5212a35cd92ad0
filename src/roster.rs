//! The transactions of the roster service, as words of its command buffer.
//!
//! A request is a run of parameter words written from the start of the
//! buffer, and a run of static-buffer words written from word
//! `STATIC_BUFFER_WORD`. A response is read back as the words of the buffer
//! from its start; word 1 is always the status.

use vstd::prelude::*;

use crate::avatar::{Avatar, AvatarMap};
use crate::table::IdMap;

verus! {

/// Most contacts the roster holds besides the local identity.
pub const ROSTER_LIMIT: u32 = 100;

/// Header of the request that lists the contacts' keys.
pub const ENUMERATE_HEADER: u32 = 0x0011_0080;

/// Header of the request that fetches the contacts' details.
pub const FETCH_DETAILS_HEADER: u32 = 0x001A_00C4;

/// Header of the request for the local identity's principal id.
pub const LOCAL_ID_HEADER: u32 = 0x0005_0000;

/// Header of the request for the local identity's avatar.
pub const LOCAL_AVATAR_HEADER: u32 = 0x000A_0000;

/// Word of the command buffer where static-buffer descriptors begin.
pub const STATIC_BUFFER_WORD: usize = 64;

/// Length in bytes of an encoded avatar descriptor.
pub const AVATAR_LEN: usize = 0x5C;

/// Byte offset of the avatar descriptor inside a contact's info record.
pub const INFO_AVATAR_OFFSET: usize = 0x80;

/// Word of the local-avatar response where the descriptor begins.
pub const LOCAL_AVATAR_WORD: usize = 2;

/// Words of a request, to be written into the command buffer.
pub struct CommandWords {
    /// Written from word 0.
    pub params: Vec<u32>,
    /// Written from word `STATIC_BUFFER_WORD`.
    pub static_buffers: Vec<u32>,
}

/// A failed exchange with the roster service.
#[derive(PartialEq, Eq, Structural, Debug, Clone, Copy)]
pub enum RosterError {
    /// The service answered with this nonzero status code.
    Status(u32),
    /// The service listed more contacts than were asked for.
    CountAboveLimit(u32),
}

/// The descriptor of a static buffer of `size` bytes with slot `id`.
pub open spec fn static_buffer_spec(size: int, id: int) -> int {
    size * 0x4000 + id * 0x400 + 2
}

/// The descriptor of a buffer of `size` bytes that the service writes into.
pub open spec fn mapped_write_spec(size: int) -> int {
    size * 0x10 + 0xC
}

/// Encodes a static-buffer descriptor.
pub fn static_buffer_descriptor(size: u32, id: u32) -> (r: u32)
    requires
        size < 0x4_0000,
        id < 16,
    ensures
        r == static_buffer_spec(size as int, id as int),
{
    size * 0x4000 + id * 0x400 + 2
}

/// Encodes the descriptor of a buffer that the service writes into.
pub fn mapped_write_descriptor(size: u32) -> (r: u32)
    requires
        size < 0x1000_0000,
    ensures
        r == mapped_write_spec(size as int),
{
    size * 0x10 + 0xC
}

/// The request that lists up to `limit` contact keys from `offset`, into a
/// buffer at `keys_addr` of records of `key_len` bytes.
pub fn encode_enumerate(offset: u32, limit: u32, key_len: u32, keys_addr: u32) -> (r: CommandWords)
    requires
        limit * key_len < 0x4_0000,
    ensures
        r.params@ == seq![ENUMERATE_HEADER, offset, limit],
        r.static_buffers@ == seq![
            static_buffer_spec(limit * key_len, 0) as u32,
            keys_addr,
        ],
{
    let mut params: Vec<u32> = Vec::new();
    params.push(ENUMERATE_HEADER);
    params.push(offset);
    params.push(limit);
    let mut static_buffers: Vec<u32> = Vec::new();
    static_buffers.push(static_buffer_descriptor(limit * key_len, 0));
    static_buffers.push(keys_addr);
    CommandWords { params, static_buffers }
}

/// The request that fetches the info records of `count` contacts, reading
/// their keys at `keys_addr` and writing the records at `info_addr`.
pub fn encode_fetch_details(
    count: u32,
    key_len: u32,
    info_len: u32,
    keys_addr: u32,
    info_addr: u32,
) -> (r: CommandWords)
    requires
        count * key_len < 0x4_0000,
        count * info_len < 0x1000_0000,
    ensures
        r.params@ == seq![
            FETCH_DETAILS_HEADER,
            count,
            0u32,
            0u32,
            static_buffer_spec(count * key_len, 0) as u32,
            keys_addr,
            mapped_write_spec(count * info_len) as u32,
            info_addr,
        ],
        r.static_buffers@.len() == 0,
{
    let mut params: Vec<u32> = Vec::new();
    params.push(FETCH_DETAILS_HEADER);
    params.push(count);
    params.push(0);
    params.push(0);
    params.push(static_buffer_descriptor(count * key_len, 0));
    params.push(keys_addr);
    params.push(mapped_write_descriptor(count * info_len));
    params.push(info_addr);
    CommandWords { params, static_buffers: Vec::new() }
}

/// A request that is its header alone.
fn header_only(header: u32) -> (r: CommandWords)
    ensures
        r.params@ == seq![header],
        r.static_buffers@.len() == 0,
{
    let mut params: Vec<u32> = Vec::new();
    params.push(header);
    CommandWords { params, static_buffers: Vec::new() }
}

/// The request for the local identity's principal id.
pub fn encode_local_id() -> (r: CommandWords)
    ensures
        r.params@ == seq![LOCAL_ID_HEADER],
        r.static_buffers@.len() == 0,
{
    header_only(LOCAL_ID_HEADER)
}

/// The request for the local identity's avatar.
pub fn encode_local_avatar() -> (r: CommandWords)
    ensures
        r.params@ == seq![LOCAL_AVATAR_HEADER],
        r.static_buffers@.len() == 0,
{
    header_only(LOCAL_AVATAR_HEADER)
}

/// Checks the status word of a response.
pub fn check_status(response: &[u32]) -> (r: Result<(), RosterError>)
    requires
        response@.len() >= 2,
    ensures
        response@[1] == 0 ==> r == Ok::<(), RosterError>(()),
        response@[1] != 0 ==> r == Err::<(), RosterError>(RosterError::Status(response@[1])),
{
    let status = response[1];
    if status != 0 {
        Err(RosterError::Status(status))
    } else {
        Ok(())
    }
}

/// Reads the number of listed contacts from an enumerate response.
pub fn decode_enumerate(response: &[u32], limit: u32) -> (r: Result<u32, RosterError>)
    requires
        response@.len() >= 3,
    ensures
        response@[1] != 0 ==> r == Err::<u32, RosterError>(RosterError::Status(response@[1])),
        response@[1] == 0 && response@[2] > limit ==> r == Err::<u32, RosterError>(
            RosterError::CountAboveLimit(response@[2]),
        ),
        response@[1] == 0 && response@[2] <= limit ==> r == Ok::<u32, RosterError>(response@[2]),
{
    check_status(response)?;
    let count = response[2];
    if count > limit {
        Err(RosterError::CountAboveLimit(count))
    } else {
        Ok(count)
    }
}

/// Reads the local identity's principal id from its response.
pub fn decode_local_id(response: &[u32]) -> (r: Result<u32, RosterError>)
    requires
        response@.len() >= 3,
    ensures
        response@[1] != 0 ==> r == Err::<u32, RosterError>(RosterError::Status(response@[1])),
        response@[1] == 0 ==> r == Ok::<u32, RosterError>(response@[2]),
{
    check_status(response)?;
    Ok(response[2])
}

/// The four bytes of `w`, least significant first.
pub open spec fn le_bytes_of(w: u32) -> Seq<u8> {
    seq![
        (w % 0x100) as u8,
        ((w / 0x100) % 0x100) as u8,
        ((w / 0x1_0000) % 0x100) as u8,
        ((w / 0x100_0000) % 0x100) as u8,
    ]
}

/// The bytes of a run of words, each word least significant byte first.
pub open spec fn words_le_bytes(ws: Seq<u32>) -> Seq<u8>
    decreases ws.len(),
{
    if ws.len() == 0 {
        Seq::empty()
    } else {
        words_le_bytes(ws.drop_last()) + le_bytes_of(ws.last())
    }
}

/// The length of the bytes of a run of words.
pub proof fn lemma_words_le_bytes_len(ws: Seq<u32>)
    ensures
        words_le_bytes(ws).len() == 4 * ws.len(),
    decreases ws.len(),
{
    if ws.len() > 0 {
        lemma_words_le_bytes_len(ws.drop_last());
    }
}

/// The value of four bytes read least significant first.
pub open spec fn le_u32_spec(b: Seq<u8>) -> int {
    b[0] + b[1] * 0x100 + b[2] * 0x1_0000 + b[3] * 0x100_0000
}

/// Reads the avatar descriptor of the local identity from its response.
pub fn decode_local_avatar(response: &[u32]) -> (r: Result<Vec<u8>, RosterError>)
    requires
        response@.len() >= LOCAL_AVATAR_WORD + AVATAR_LEN / 4,
    ensures
        response@[1] != 0 ==> r == Err::<Vec<u8>, RosterError>(RosterError::Status(response@[1])),
        response@[1] == 0 ==> r is Ok,
        r matches Ok(bytes) ==> bytes@ == words_le_bytes(
            response@.subrange(
                LOCAL_AVATAR_WORD as int,
                (LOCAL_AVATAR_WORD + AVATAR_LEN / 4) as int,
            ),
        ) && bytes@.len() == AVATAR_LEN,
{
    check_status(response)?;
    let end: usize = LOCAL_AVATAR_WORD + AVATAR_LEN / 4;
    let mut bytes: Vec<u8> = Vec::new();
    let mut i: usize = LOCAL_AVATAR_WORD;
    while i < end
        invariant
            LOCAL_AVATAR_WORD <= i <= end,
            end == LOCAL_AVATAR_WORD + AVATAR_LEN / 4,
            end <= response@.len(),
            bytes@ == words_le_bytes(response@.subrange(LOCAL_AVATAR_WORD as int, i as int)),
        decreases end - i,
    {
        let w = response[i];
        bytes.push((w % 0x100) as u8);
        bytes.push(((w / 0x100) % 0x100) as u8);
        bytes.push(((w / 0x1_0000) % 0x100) as u8);
        bytes.push(((w / 0x100_0000) % 0x100) as u8);
        let ghost prev = response@.subrange(LOCAL_AVATAR_WORD as int, i as int);
        let ghost next = response@.subrange(LOCAL_AVATAR_WORD as int, i + 1);
        assert(next.drop_last() =~= prev);
        assert(bytes@ =~= words_le_bytes(next));
        i = i + 1;
    }
    proof {
        lemma_words_le_bytes_len(response@.subrange(LOCAL_AVATAR_WORD as int, end as int));
    }
    Ok(bytes)
}

/// A contact as the details response gives it: its principal id, and the
/// bytes of its avatar descriptor, not yet decoded.
pub struct FriendRecord {
    pub id: u32,
    pub avatar: Vec<u8>,
}

/// Pairs the `i`-th key record with the `i`-th info record, for the first
/// `count` of each: the principal id is the first word of the key record,
/// the avatar the descriptor inside the info record.
pub fn pair_records(
    keys: &[u8],
    infos: &[u8],
    count: usize,
    key_len: usize,
    info_len: usize,
) -> (r: Vec<FriendRecord>)
    requires
        count <= ROSTER_LIMIT,
        4 <= key_len <= 0x1_0000,
        INFO_AVATAR_OFFSET + AVATAR_LEN <= info_len <= 0x1_0000,
        count * key_len <= keys@.len(),
        count * info_len <= infos@.len(),
    ensures
        r@.len() == count,
        forall|i: int|
            0 <= i < count ==> {
                &&& (#[trigger] r@[i]).id == le_u32_spec(keys@.subrange(i * key_len, i * key_len + 4))
                &&& r@[i].avatar@ == infos@.subrange(
                    i * info_len + INFO_AVATAR_OFFSET,
                    i * info_len + INFO_AVATAR_OFFSET + AVATAR_LEN,
                )
            },
{
    let n_keys = keys.len();
    let n_infos = infos.len();
    let mut r: Vec<FriendRecord> = Vec::new();
    let mut i: usize = 0;
    while i < count
        invariant
            i <= count,
            n_keys == keys@.len(),
            n_infos == infos@.len(),
            count <= ROSTER_LIMIT,
            4 <= key_len <= 0x1_0000,
            INFO_AVATAR_OFFSET + AVATAR_LEN <= info_len <= 0x1_0000,
            count * key_len <= keys@.len(),
            count * info_len <= infos@.len(),
            r@.len() == i,
            forall|k: int|
                0 <= k < i ==> {
                    &&& (#[trigger] r@[k]).id == le_u32_spec(
                        keys@.subrange(k * key_len, k * key_len + 4),
                    )
                    &&& r@[k].avatar@ == infos@.subrange(
                        k * info_len + INFO_AVATAR_OFFSET,
                        k * info_len + INFO_AVATAR_OFFSET + AVATAR_LEN,
                    )
                },
        decreases count - i,
    {
        assert((i + 1) * key_len <= count * key_len) by (nonlinear_arith)
            requires
                i + 1 <= count,
                key_len >= 0,
        ;
        assert((i + 1) * info_len <= count * info_len) by (nonlinear_arith)
            requires
                i + 1 <= count,
                info_len >= 0,
        ;
        assert(i * key_len + key_len == (i + 1) * key_len) by (nonlinear_arith);
        assert(i * info_len + info_len == (i + 1) * info_len) by (nonlinear_arith);
        let k = i * key_len;
        let id = keys[k] as u32 + keys[k + 1] as u32 * 0x100 + keys[k + 2] as u32 * 0x1_0000
            + keys[k + 3] as u32 * 0x100_0000;
        let start = i * info_len + INFO_AVATAR_OFFSET;
        let mut avatar: Vec<u8> = Vec::new();
        let mut j: usize = 0;
        while j < AVATAR_LEN
            invariant
                j <= AVATAR_LEN,
                n_infos == infos@.len(),
                start + AVATAR_LEN <= infos@.len(),
                avatar@ == infos@.subrange(start as int, start + j),
            decreases AVATAR_LEN - j,
        {
            avatar.push(infos[start + j]);
            assert(avatar@ =~= infos@.subrange(start as int, start + j + 1));
            j = j + 1;
        }
        let ghost key_bytes = keys@.subrange(k as int, k + 4);
        assert(id == le_u32_spec(key_bytes));
        r.push(FriendRecord { id, avatar });
        i = i + 1;
    }
    r
}

/// The roster that the local identity and the listed contacts make, taken
/// in order: a contact whose avatar failed to decode is left out, and a
/// later entry replaces an earlier one with the same id.
pub open spec fn roster_of(local_id: u32, local: Avatar, friends: Seq<(u32, Option<Avatar>)>) -> Map<
    u32,
    Avatar,
>
    decreases friends.len(),
{
    if friends.len() == 0 {
        Map::empty().insert(local_id, local)
    } else {
        let prev = roster_of(local_id, local, friends.drop_last());
        match friends.last().1 {
            Some(a) => prev.insert(friends.last().0, a),
            None => prev,
        }
    }
}

/// Builds the roster from the local identity and the decoded contacts.
pub fn assemble_roster(local_id: u32, local: Avatar, friends: Vec<(u32, Option<Avatar>)>) -> (r:
    AvatarMap)
    ensures
        r.wf(),
        r@ == roster_of(local_id, local, friends@),
{
    let ghost all = friends@;
    let ghost me = local;
    let mut r: AvatarMap = IdMap::new();
    r.insert(local_id, local);
    assert(all.subrange(0, 0).len() == 0);
    assert(r@ =~= roster_of(local_id, me, all.subrange(0, 0)));
    let total = friends.len();
    let mut rest = friends;
    let mut k: usize = 0;
    while rest.len() > 0
        invariant
            r.wf(),
            total == all.len(),
            k <= all.len(),
            rest@ == all.subrange(k as int, all.len() as int),
            r@ == roster_of(local_id, me, all.subrange(0, k as int)),
        decreases rest@.len(),
    {
        let (id, decoded) = rest.remove(0);
        assert(all.subrange(0, k + 1).drop_last() =~= all.subrange(0, k as int));
        assert(all[k as int] == (id, decoded));
        match decoded {
            Some(a) => r.insert(id, a),
            None => {},
        }
        k = k + 1;
        assert(rest@ =~= all.subrange(k as int, all.len() as int));
    }
    assert(all.subrange(0, k as int) =~= all);
    r
}

/// Which ids the roster holds: the local identity's, and each contact's whose
/// avatar decoded.
proof fn lemma_roster_domain(local_id: u32, local: Avatar, friends: Seq<(u32, Option<Avatar>)>)
    ensures
        forall|id: u32|
            #[trigger] roster_of(local_id, local, friends).contains_key(id) <==> (id == local_id
                || exists|i: int|
                0 <= i < friends.len() && (#[trigger] friends[i]).0 == id && friends[i].1 is Some),
    decreases friends.len(),
{
    if friends.len() > 0 {
        let prev = friends.drop_last();
        lemma_roster_domain(local_id, local, prev);
        let n = friends.len() - 1;
        assert(prev.len() == n);
        assert forall|id: u32|
            #[trigger] roster_of(local_id, local, friends).contains_key(id) <==> (id == local_id
                || exists|i: int|
                0 <= i < friends.len() && (#[trigger] friends[i]).0 == id && friends[i].1 is Some) by {
            let rp = roster_of(local_id, local, prev);
            assert(rp.contains_key(id) <==> (id == local_id || exists|i: int|
                0 <= i < prev.len() && (#[trigger] prev[i]).0 == id && prev[i].1 is Some));
            if friends[n].1 is Some && friends[n].0 == id {
                assert(friends[n].0 == id && friends[n].1 is Some);
            }
            if exists|i: int|
                0 <= i < friends.len() && (#[trigger] friends[i]).0 == id && friends[i].1 is Some {
                let i = choose|i: int|
                    0 <= i < friends.len() && (#[trigger] friends[i]).0 == id && friends[i].1 is Some;
                if i < n {
                    assert(prev[i] == friends[i]);
                }
            }
            if exists|i: int| 0 <= i < prev.len() && (#[trigger] prev[i]).0 == id && prev[i].1 is Some {
                let i = choose|i: int|
                    0 <= i < prev.len() && (#[trigger] prev[i]).0 == id && prev[i].1 is Some;
                assert(friends[i] == prev[i]);
            }
        }
    }
}

/// A contact whose avatar decoded, and that no later entry with its id
/// replaces, maps to that avatar.
proof fn lemma_roster_value(
    local_id: u32,
    local: Avatar,
    friends: Seq<(u32, Option<Avatar>)>,
    i: int,
)
    requires
        0 <= i < friends.len(),
        friends[i].1 is Some,
        forall|j: int|
            i < j < friends.len() && (#[trigger] friends[j]).0 == friends[i].0 ==> friends[j].1 is None,
    ensures
        roster_of(local_id, local, friends)[friends[i].0] == friends[i].1->0,
    decreases friends.len(),
{
    let n = friends.len() - 1;
    let prev = friends.drop_last();
    if i < n {
        assert(prev[i] == friends[i]);
        assert forall|j: int| i < j < prev.len() && (#[trigger] prev[j]).0 == prev[i].0 implies prev[j].1 is None by {
            assert(friends[j] == prev[j]);
        }
        lemma_roster_value(local_id, local, prev, i);
        if friends[n].0 == friends[i].0 {
            assert(friends[n].1 is None);
        }
    }
}

/// The local identity keeps its own avatar when no decoded contact shares
/// its id.
proof fn lemma_roster_local(local_id: u32, local: Avatar, friends: Seq<(u32, Option<Avatar>)>)
    requires
        forall|i: int|
            0 <= i < friends.len() && (#[trigger] friends[i]).0 == local_id ==> friends[i].1 is None,
    ensures
        roster_of(local_id, local, friends)[local_id] == local,
    decreases friends.len(),
{
    if friends.len() > 0 {
        let prev = friends.drop_last();
        assert forall|i: int| 0 <= i < prev.len() && (#[trigger] prev[i]).0 == local_id implies prev[i].1 is None by {
            assert(friends[i] == prev[i]);
        }
        lemma_roster_local(local_id, local, prev);
    }
}

/// The roster holds exactly the local identity and each contact whose avatar
/// decoded: each id it holds is one of those, and each of those maps to the
/// last avatar that decoded for it (the local identity's own avatar when no
/// contact shares its id).
pub proof fn roster_holds_decoded_and_local(
    local_id: u32,
    local: Avatar,
    friends: Seq<(u32, Option<Avatar>)>,
)
    ensures
        forall|id: u32|
            #[trigger] roster_of(local_id, local, friends).contains_key(id) <==> (id == local_id
                || exists|i: int|
                0 <= i < friends.len() && (#[trigger] friends[i]).0 == id && friends[i].1 is Some),
        forall|i: int|
            0 <= i < friends.len() && (#[trigger] friends[i]).1 is Some && (forall|j: int|
                i < j < friends.len() && (#[trigger] friends[j]).0 == friends[i].0 ==> friends[j].1 is None)
                ==> roster_of(local_id, local, friends)[friends[i].0] == friends[i].1->0,
        (forall|i: int|
            0 <= i < friends.len() && (#[trigger] friends[i]).0 == local_id ==> friends[i].1 is None)
            ==> roster_of(local_id, local, friends)[local_id] == local,
{
    lemma_roster_domain(local_id, local, friends);
    assert forall|i: int|
        0 <= i < friends.len() && (#[trigger] friends[i]).1 is Some && (forall|j: int|
            i < j < friends.len() && (#[trigger] friends[j]).0 == friends[i].0 ==> friends[j].1 is None)
            implies roster_of(local_id, local, friends)[friends[i].0] == friends[i].1->0 by {
        lemma_roster_value(local_id, local, friends, i);
    }
    if forall|i: int|
        0 <= i < friends.len() && (#[trigger] friends[i]).0 == local_id ==> friends[i].1 is None {
        lemma_roster_local(local_id, local, friends);
    }
}

} // verus!
