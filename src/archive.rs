//! The rules for walking the note archive: which folders hold notes, how
//! paths are built and encoded, how a file is read in batches, and which
//! decoded notes name a sender.
//!
//! The archive holds notes at `/letter/<shard>/<file>`, where a shard is a
//! folder whose name begins with four numeric characters.

use vstd::prelude::*;
use vstd::string::*;

use crate::avatar::{Avatar, AvatarMap};
use crate::table::IdMap;

verus! {

/// Number of UTF-16 units in a directory entry's name field.
pub const NAME_UNITS: usize = 262;

/// Number of leading characters of a folder name that must be numeric.
pub const SHARD_DIGITS: usize = 4;

/// Number of bytes asked for by each read of a file.
pub const READ_BATCH: usize = 1024;

/// The archive kind of application extended data.
pub const EXTDATA_ARCHIVE: u32 = 6;

/// The application whose extended data holds the notes.
pub const NOTES_TITLE_ID: u64 = 0x0004_0000_001A_2E00;

/// Open flag: read access.
pub const OPEN_READ: u32 = 1;

/// Whether a character is in one of Unicode's number categories.
pub uninterp spec fn numeric_char(c: char) -> bool;

/// Relies on `char::is_numeric`, which tells whether `c` has one of the
/// general categories for numbers (Nd, Nl, No); the ASCII digits have Nd.
#[verifier::external_body]
fn char_is_numeric(c: char) -> (r: bool)
    ensures
        r == numeric_char(c),
        0x30 <= c as u32 <= 0x39 ==> r,
{
    c.is_numeric()
}

/// A folder name marks a shard when each of its first four characters (all
/// of them, if it has fewer) is numeric.
pub open spec fn letter_folder(name: Seq<char>) -> bool {
    forall|i: int| 0 <= i < name.len() && i < SHARD_DIGITS ==> numeric_char(#[trigger] name[i])
}

/// Whether a folder name marks a shard, given for each of its leading
/// characters whether it is numeric: the first four flags (all of them, if
/// there are fewer) must be set.
pub fn leading_numeric(numeric: &[bool]) -> (r: bool)
    ensures
        r == forall|i: int| 0 <= i < numeric@.len() && i < SHARD_DIGITS ==> #[trigger] numeric@[i],
{
    let n = numeric.len();
    let mut i: usize = 0;
    while i < n && i < SHARD_DIGITS
        invariant
            i <= n,
            n == numeric@.len(),
            i <= SHARD_DIGITS,
            forall|k: int| 0 <= k < i ==> #[trigger] numeric@[k],
        decreases n - i,
    {
        if !numeric[i] {
            return false;
        }
        i = i + 1;
    }
    true
}

/// Whether the folder `path` is a shard of the note archive.
pub fn is_letter_folder(path: String) -> (r: bool)
    ensures
        r == letter_folder(path@),
{
    let s = path.as_str();
    let n = s.unicode_len();
    let mut flags: Vec<bool> = Vec::new();
    let mut i: usize = 0;
    while i < n && i < SHARD_DIGITS
        invariant
            i <= n,
            n == s@.len(),
            i <= SHARD_DIGITS,
            s@ == path@,
            flags@.len() == i,
            forall|k: int| 0 <= k < i ==> #[trigger] flags@[k] == numeric_char(s@[k]),
        decreases n - i,
    {
        flags.push(char_is_numeric(s.get_char(i)));
        i = i + 1;
    }
    let r = leading_numeric(flags.as_slice());
    proof {
        assert(i == n || i == SHARD_DIGITS);
        if r {
            assert forall|k: int| 0 <= k < path@.len() && k < SHARD_DIGITS implies numeric_char(
                #[trigger] path@[k],
            ) by {
                assert(flags@[k] == numeric_char(s@[k]));
            }
        } else {
            let k = choose|k: int| 0 <= k < flags@.len() && k < SHARD_DIGITS && !#[trigger] flags@[k];
            assert(flags@[k] == numeric_char(s@[k]));
        }
    }
    r
}

/// The scalar value that a surrogate pair stands for.
pub open spec fn surrogate_pair_value(high: u16, low: u16) -> u32 {
    (0x1_0000 + (high - 0xD800) * 0x400 + (low - 0xDC00)) as u32
}

/// Whether a unit is a high (leading) surrogate.
pub open spec fn is_high_surrogate(u: u16) -> bool {
    0xD800 <= u <= 0xDBFF
}

/// Whether a unit is a low (trailing) surrogate.
pub open spec fn is_low_surrogate(u: u16) -> bool {
    0xDC00 <= u <= 0xDFFF
}

/// The characters that UTF-16 units encode, or `None` where they hold an
/// unpaired surrogate.
pub open spec fn utf16_decode(u: Seq<u16>) -> Option<Seq<char>>
    decreases u.len(),
{
    if u.len() == 0 {
        Some(Seq::empty())
    } else if !is_high_surrogate(u[0]) && !is_low_surrogate(u[0]) {
        match utf16_decode(u.drop_first()) {
            Some(rest) => Some(seq![(u[0] as u32) as char] + rest),
            None => None,
        }
    } else if is_high_surrogate(u[0]) && u.len() >= 2 && is_low_surrogate(u[1]) {
        match utf16_decode(u.subrange(2, u.len() as int)) {
            Some(rest) => Some(seq![surrogate_pair_value(u[0], u[1]) as char] + rest),
            None => None,
        }
    } else {
        None
    }
}

/// Relies on `String::from_utf16`, which decodes UTF-16 and fails exactly
/// when the units hold an unpaired surrogate.
#[verifier::external_body]
fn decode_utf16(units: &[u16]) -> (r: Option<String>)
    ensures
        r is Some <==> utf16_decode(units@) is Some,
        r matches Some(s) ==> utf16_decode(units@) == Some(s@),
{
    String::from_utf16(units).ok()
}

/// The units of `u` before its first NUL, or all of them if it has none.
pub open spec fn until_nul(u: Seq<u16>) -> Seq<u16>
    decreases u.len(),
{
    if u.len() == 0 || u[0] == 0 {
        Seq::empty()
    } else {
        seq![u[0]] + until_nul(u.drop_first())
    }
}

/// The units before a NUL at `i`, with no NUL before it, are `until_nul`.
proof fn lemma_until_nul(u: Seq<u16>, i: int)
    requires
        0 <= i <= u.len(),
        i == u.len() || u[i] == 0,
        forall|k: int| 0 <= k < i ==> u[k] != 0,
    ensures
        until_nul(u) == u.subrange(0, i),
    decreases i,
{
    if i > 0 {
        let t = u.drop_first();
        assert forall|k: int| 0 <= k < i - 1 implies t[k] != 0 by {
            assert(t[k] == u[k + 1]);
        }
        lemma_until_nul(t, i - 1);
        assert(u.subrange(0, i) =~= seq![u[0]] + t.subrange(0, i - 1));
    } else {
        assert(u.subrange(0, 0) =~= Seq::<u16>::empty());
    }
}

/// The name held in a directory entry's name field: the units before the
/// first NUL, decoded from UTF-16; `None` when they are not valid UTF-16.
pub fn string_from_filename(name: &[u16; 262]) -> (r: Option<String>)
    ensures
        r is Some <==> utf16_decode(until_nul(name@)) is Some,
        r matches Some(s) ==> utf16_decode(until_nul(name@)) == Some(s@),
{
    let mut units: Vec<u16> = Vec::new();
    let mut i: usize = 0;
    while i < NAME_UNITS && name[i] != 0
        invariant
            i <= NAME_UNITS,
            name@.len() == NAME_UNITS,
            units@ == name@.subrange(0, i as int),
            forall|k: int| 0 <= k < i ==> name@[k] != 0,
        decreases NAME_UNITS - i,
    {
        units.push(name[i]);
        assert(units@ =~= name@.subrange(0, i + 1));
        i = i + 1;
    }
    proof {
        lemma_until_nul(name@, i as int);
    }
    decode_utf16(units.as_slice())
}

/// The UTF-16 units of one character.
pub open spec fn utf16_of_char(c: char) -> Seq<u16> {
    let v = c as u32;
    if v < 0x1_0000 {
        seq![v as u16]
    } else {
        seq![(0xD800 + (v - 0x1_0000) / 0x400) as u16, (0xDC00 + (v - 0x1_0000) % 0x400) as u16]
    }
}

/// The UTF-16 units of a run of characters.
pub open spec fn utf16_encode(chars: Seq<char>) -> Seq<u16>
    decreases chars.len(),
{
    if chars.len() == 0 {
        Seq::empty()
    } else {
        utf16_encode(chars.drop_last()) + utf16_of_char(chars.last())
    }
}

/// A path as the archive service takes it: UTF-16 with a NUL terminator.
pub fn encode_path(path: &str) -> (r: Vec<u16>)
    ensures
        r@ == utf16_encode(path@).push(0u16),
{
    let n = path.unicode_len();
    let mut units: Vec<u16> = Vec::new();
    let mut i: usize = 0;
    while i < n
        invariant
            i <= n,
            n == path@.len(),
            units@ == utf16_encode(path@.subrange(0, i as int)),
        decreases n - i,
    {
        let c = path.get_char(i);
        let v = c as u32;
        proof {
            vstd::utf8::char_is_scalar(c);
        }
        if v < 0x1_0000 {
            units.push(v as u16);
        } else {
            let w = v - 0x1_0000;
            units.push((0xD800 + w / 0x400) as u16);
            units.push((0xDC00 + w % 0x400) as u16);
        }
        assert(path@.subrange(0, i + 1).drop_last() =~= path@.subrange(0, i as int));
        i = i + 1;
    }
    assert(path@.subrange(0, n as int) =~= path@);
    units.push(0);
    units
}

/// The folder under which the shards lie.
pub open spec fn letter_root() -> Seq<char> {
    "/letter"@
}

/// The path of a folder or file `name` inside the folder `dir`.
pub open spec fn child_path(dir: Seq<char>, name: Seq<char>) -> Seq<char> {
    dir + "/"@ + name
}

/// Joins a folder and a name into a path.
pub fn join_path(dir: &str, name: &str) -> (r: String)
    ensures
        r@ == child_path(dir@, name@),
{
    let mut r = String::from_str(dir);
    r.append("/");
    r.append(name);
    r
}

/// The root folder of the shards, as a string.
pub fn letter_root_path() -> (r: String)
    ensures
        r@ == letter_root(),
{
    String::from_str("/letter")
}

/// The paths of the shard folders among the names listed in the root folder,
/// in listing order.
pub open spec fn shard_paths(names: Seq<Seq<char>>) -> Seq<Seq<char>>
    decreases names.len(),
{
    if names.len() == 0 {
        Seq::empty()
    } else if letter_folder(names.last()) {
        shard_paths(names.drop_last()).push(child_path(letter_root(), names.last()))
    } else {
        shard_paths(names.drop_last())
    }
}

/// The views of a run of strings.
pub open spec fn views(names: Seq<String>) -> Seq<Seq<char>> {
    names.map_values(|s: String| s@)
}

/// Picks the shard folders out of the names listed in the root folder and
/// returns their paths.
pub fn shard_folders(names: Vec<String>) -> (r: Vec<String>)
    ensures
        views(r@) == shard_paths(views(names@)),
{
    let ghost all = names@;
    let n = names.len();
    let root = letter_root_path();
    let mut r: Vec<String> = Vec::new();
    let mut i: usize = 0;
    while i < n
        invariant
            i <= n,
            n == all.len(),
            names@ == all,
            root@ == letter_root(),
            views(r@) == shard_paths(views(all.subrange(0, i as int))),
        decreases n - i,
    {
        let name = names[i].clone();
        let ghost nv = name@;
        assert(views(all.subrange(0, i + 1)).drop_last() =~= views(all.subrange(0, i as int)));
        assert(views(all.subrange(0, i + 1)).last() == all[i as int]@);
        let keep = is_letter_folder(name.clone());
        if keep {
            let path = join_path(root.as_str(), names[i].as_str());
            r.push(path);
            assert(views(r@) =~= shard_paths(views(all.subrange(0, i + 1))));
        }
        i = i + 1;
    }
    assert(all.subrange(0, n as int) =~= all);
    r
}

/// `path` is the root folder joined with one of `names` that marks a shard.
pub open spec fn from_shard(names: Seq<Seq<char>>, path: Seq<char>) -> bool {
    exists|i: int|
        0 <= i < names.len() && letter_folder(#[trigger] names[i]) && path == child_path(
            letter_root(),
            names[i],
        )
}

/// No path that the shard walk yields names a folder whose first four
/// characters are not all numeric: each one is the root folder joined with
/// a listed name that marks a shard.
pub proof fn shard_paths_are_numeric(names: Seq<Seq<char>>)
    ensures
        forall|k: int|
            0 <= k < shard_paths(names).len() ==> from_shard(names, #[trigger] shard_paths(names)[k]),
    decreases names.len(),
{
    if names.len() > 0 {
        let prev = names.drop_last();
        shard_paths_are_numeric(prev);
        let n = names.len() - 1;
        let sp = shard_paths(prev);
        assert(names[n] == names.last());
        if letter_folder(names[n]) {
            assert(shard_paths(names) == sp.push(child_path(letter_root(), names[n])));
        } else {
            assert(shard_paths(names) == sp);
        }
        assert forall|k: int| 0 <= k < shard_paths(names).len() implies from_shard(
            names,
            #[trigger] shard_paths(names)[k],
        ) by {
            if k < sp.len() {
                assert(shard_paths(names)[k] == sp[k]);
                assert(from_shard(prev, sp[k]));
                let i = choose|i: int|
                    0 <= i < prev.len() && letter_folder(#[trigger] prev[i]) && sp[k] == child_path(
                        letter_root(),
                        prev[i],
                    );
                assert(names[i] == prev[i]);
                assert(letter_folder(names[i]));
            } else {
                assert(letter_folder(names[n]));
            }
        }
    }
}

/// The three words that select an application's extended data: the media
/// kind, the low word of the title id without its last byte, and zero.
pub fn archive_path_words(media: u32, title_id: u64) -> (r: Vec<u32>)
    ensures
        r@ == seq![media, ((title_id % 0x1_0000_0000) / 0x100) as u32, 0u32],
{
    let low = (title_id % 0x1_0000_0000) as u32;
    let mut r: Vec<u32> = Vec::new();
    r.push(media);
    r.push(low / 0x100);
    r.push(0);
    r
}

/// The attributes a file is opened with.
#[derive(PartialEq, Eq, Structural, Debug, Clone, Copy)]
pub struct FileAttributes {
    pub is_directory: bool,
    pub is_hidden: bool,
    pub is_archive: bool,
    pub readonly: bool,
}

/// One attribute as a byte value.
pub open spec fn flag(b: bool) -> int {
    if b {
        1
    } else {
        0
    }
}

impl FileAttributes {
    /// The attribute word: one byte per attribute, least significant first.
    pub fn word(&self) -> (r: u32)
        ensures
            r == flag(self.is_directory) + flag(self.is_hidden) * 0x100 + flag(self.is_archive)
                * 0x1_0000 + flag(self.readonly) * 0x100_0000,
    {
        let mut r: u32 = 0;
        if self.is_directory {
            r = r + 1;
        }
        if self.is_hidden {
            r = r + 0x100;
        }
        if self.is_archive {
            r = r + 0x1_0000;
        }
        if self.readonly {
            r = r + 0x100_0000;
        }
        r
    }
}

/// A file being read in batches of `READ_BATCH` bytes; the read is over at
/// the first batch that comes back short.
pub struct FileReader {
    pub bytes: Vec<u8>,
    pub done: bool,
}

impl FileReader {
    /// A reader that has read nothing.
    pub fn new() -> (r: Self)
        ensures
            r.bytes@.len() == 0,
            !r.done,
    {
        FileReader { bytes: Vec::new(), done: false }
    }

    /// The offset of the next batch: the number of bytes read so far.
    pub fn offset(&self) -> (r: u64)
        ensures
            r == self.bytes@.len(),
    {
        self.bytes.len() as u64
    }

    /// Takes in the bytes one batch returned.
    pub fn absorb(&mut self, chunk: &[u8])
        requires
            !old(self).done,
            chunk@.len() <= READ_BATCH,
            old(self).bytes@.len() + chunk@.len() <= u64::MAX,
        ensures
            final(self).bytes@ == old(self).bytes@ + chunk@,
            final(self).done == (chunk@.len() < READ_BATCH),
    {
        let ghost start = self.bytes@;
        let n = chunk.len();
        let mut i: usize = 0;
        while i < n
            invariant
                i <= n,
                n == chunk@.len(),
                self.bytes@ == start + chunk@.subrange(0, i as int),
            decreases n - i,
        {
            self.bytes.push(chunk[i]);
            assert(self.bytes@ =~= start + chunk@.subrange(0, i + 1));
            i = i + 1;
        }
        assert(chunk@.subrange(0, n as int) =~= chunk@);
        self.done = n < READ_BATCH;
    }
}

/// A decoded note, as far as reconciliation reads it.
pub struct MessageRecord {
    /// The sender's principal id; 0 when unknown.
    pub sender: u32,
    /// The sender's avatar, when the note embeds one.
    pub avatar: Option<Avatar>,
}

/// The senders of a run of notes with their avatars, taken in order: a note
/// with no sender id or no avatar is left out, and a later note replaces an
/// earlier one from the same sender.
pub open spec fn senders_of(records: Seq<MessageRecord>) -> Map<u32, Avatar>
    decreases records.len(),
{
    if records.len() == 0 {
        Map::empty()
    } else {
        let prev = senders_of(records.drop_last());
        let last = records.last();
        if last.sender != 0 && last.avatar is Some {
            prev.insert(last.sender, last.avatar->0)
        } else {
            prev
        }
    }
}

/// Collects the senders of the decoded notes.
pub fn collect_senders(records: Vec<MessageRecord>) -> (r: AvatarMap)
    ensures
        r.wf(),
        r@ == senders_of(records@),
{
    let ghost all = records@;
    let total = records.len();
    let mut r: AvatarMap = IdMap::new();
    let mut rest = records;
    let mut k: usize = 0;
    assert(all.subrange(0, 0).len() == 0);
    assert(r@ =~= senders_of(all.subrange(0, 0)));
    while rest.len() > 0
        invariant
            r.wf(),
            total == all.len(),
            k <= all.len(),
            rest@ == all.subrange(k as int, all.len() as int),
            r@ == senders_of(all.subrange(0, k as int)),
        decreases rest@.len(),
    {
        let record = rest.remove(0);
        assert(all.subrange(0, k + 1).drop_last() =~= all.subrange(0, k as int));
        assert(all[k as int] == record);
        if record.sender != 0 {
            match record.avatar {
                Some(a) => r.insert(record.sender, a),
                None => {},
            }
        }
        k = k + 1;
        assert(rest@ =~= all.subrange(k as int, all.len() as int));
    }
    assert(all.subrange(0, k as int) =~= all);
    r
}

} // verus!
