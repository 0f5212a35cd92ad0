//! Reconciliation: the mapping from note senders to roster contacts, its
//! automatic first guess, and the edits an operator makes to it.
//!
//! The automatic guess maps each sender to the first contact, in ascending
//! id order, whose avatar carries the same correlation key as the sender's.

use vstd::prelude::*;

use crate::avatar::{Avatar, AvatarMap};
use crate::table::{ids_ascending, lemma_ascending_unique, lemma_map_entries, seq_to_map, IdMap};

verus! {

/// Sender id to contact id.
pub type Mapping = IdMap<u32>;

/// Some contact of the roster carries `key`.
pub open spec fn has_match(roster: Map<u32, Avatar>, key: u64) -> bool {
    exists|c: u32| #[trigger] roster.contains_key(c) && roster[c].key == key
}

/// `contact` is the least id of the roster whose avatar carries `key`.
pub open spec fn first_match(roster: Map<u32, Avatar>, key: u64, contact: u32) -> bool {
    &&& roster.contains_key(contact)
    &&& roster[contact].key == key
    &&& forall|c: u32| #[trigger] roster.contains_key(c) && c < contact ==> roster[c].key != key
}

/// The mapping that automatic matching proposes: each sender whose key some
/// contact carries maps to the least such contact.
pub open spec fn auto_match_of(roster: Map<u32, Avatar>, senders: Map<u32, Avatar>) -> Map<u32, u32> {
    Map::new(
        |s: u32| senders.contains_key(s) && has_match(roster, senders[s].key),
        |s: u32| choose|c: u32| first_match(roster, senders[s].key, c),
    )
}

/// Every key of the mapping is a sender, and every value a contact.
pub open spec fn mapping_valid(
    mapping: Map<u32, u32>,
    senders: Map<u32, Avatar>,
    roster: Map<u32, Avatar>,
) -> bool {
    forall|s: u32| #[trigger]
        mapping.contains_key(s) ==> senders.contains_key(s) && roster.contains_key(mapping[s])
}

/// At most one contact is the first to carry a key.
proof fn lemma_first_match_unique(roster: Map<u32, Avatar>, key: u64, a: u32, b: u32)
    requires
        first_match(roster, key, a),
        first_match(roster, key, b),
    ensures
        a == b,
{
    if a < b {
        assert(roster.contains_key(a) && a < b);
    } else if b < a {
        assert(roster.contains_key(b) && b < a);
    }
}

/// The first contact of the roster, in ascending id order, whose avatar
/// carries `key`.
pub fn first_contact_with_key(roster: &AvatarMap, key: u64) -> (r: Option<u32>)
    requires
        roster.wf(),
    ensures
        r matches Some(c) ==> first_match(roster@, key, c),
        r is None ==> !has_match(roster@, key),
{
    let ghost s = roster.entries@;
    proof {
        lemma_map_entries(s);
    }
    let n = roster.entries.len();
    let mut i: usize = 0;
    while i < n
        invariant
            i <= n,
            n == s.len(),
            s == roster.entries@,
            ids_ascending(s),
            forall|k: int| 0 <= k < i ==> (#[trigger] s[k]).1.key != key,
        decreases n - i,
    {
        if roster.entries[i].1.key == key {
            let id = roster.entries[i].0;
            assert forall|c: u32| #[trigger] roster@.contains_key(c) && c < id implies roster@[c].key
                != key by {
                let j = choose|j: int| 0 <= j < s.len() && (#[trigger] s[j]).0 == c;
                if j >= i {
                    if j > i {
                        assert(s[i as int].0 < s[j].0);
                    }
                }
                assert(s[j].1.key != key);
            }
            return Some(id);
        }
        i = i + 1;
    }
    assert forall|c: u32| #[trigger] roster@.contains_key(c) implies roster@[c].key != key by {
        let j = choose|j: int| 0 <= j < s.len() && (#[trigger] s[j]).0 == c;
        assert(s[j].1.key != key);
    }
    None
}

/// Proposes the initial mapping: each sender maps to the first contact, in
/// ascending id order, that carries the sender's correlation key; a sender
/// that no contact matches stays unmapped.
pub fn auto_match(roster: &AvatarMap, senders: &AvatarMap) -> (r: Mapping)
    requires
        roster.wf(),
        senders.wf(),
    ensures
        r.wf(),
        r@ == auto_match_of(roster@, senders@),
        mapping_valid(r@, senders@, roster@),
{
    let ghost s = senders.entries@;
    proof {
        lemma_map_entries(s);
    }
    let n = senders.entries.len();
    let mut r: Mapping = IdMap::new();
    let mut i: usize = 0;
    while i < n
        invariant
            i <= n,
            n == s.len(),
            s == senders.entries@,
            ids_ascending(s),
            roster.wf(),
            r.wf(),
            forall|j: int|
                0 <= j < i ==> {
                    &&& has_match(roster@, (#[trigger] s[j]).1.key) ==> r@.contains_key(s[j].0)
                        && first_match(roster@, s[j].1.key, r@[s[j].0])
                    &&& !has_match(roster@, s[j].1.key) ==> !r@.contains_key(s[j].0)
                },
            forall|x: u32| #[trigger]
                r@.contains_key(x) ==> exists|j: int| 0 <= j < i && (#[trigger] s[j]).0 == x,
        decreases n - i,
    {
        let id = senders.entries[i].0;
        let found = first_contact_with_key(roster, senders.entries[i].1.key);
        let ghost before = r@;
        match found {
            Some(c) => {
                r.insert(id, c);
            },
            None => {},
        }
        assert forall|j: int| 0 <= j < i implies (#[trigger] s[j]).0 != id by {
            assert(s[j].0 < s[i as int].0);
        }
        assert forall|x: u32| #[trigger] r@.contains_key(x) implies exists|j: int|
            0 <= j < i + 1 && (#[trigger] s[j]).0 == x by {
            if x != id {
                assert(before.contains_key(x));
                let j = choose|j: int| 0 <= j < i && (#[trigger] s[j]).0 == x;
                assert(0 <= j < i + 1 && s[j].0 == x);
            } else {
                assert(s[i as int].0 == x);
            }
        }
        i = i + 1;
    }
    proof {
        assert forall|x: u32| #[trigger]
            r@.contains_key(x) <==> auto_match_of(roster@, senders@).contains_key(x) by {
            if r@.contains_key(x) {
                let j = choose|j: int| 0 <= j < i && (#[trigger] s[j]).0 == x;
                if !has_match(roster@, s[j].1.key) {
                    assert(!r@.contains_key(s[j].0));
                }
            }
            if senders@.contains_key(x) {
                let j = choose|j: int| 0 <= j < s.len() && (#[trigger] s[j]).0 == x;
                assert(senders@[x] == s[j].1);
            }
        }
        assert forall|x: u32| #[trigger] r@.contains_key(x) implies r@[x] == auto_match_of(
            roster@,
            senders@,
        )[x] by {
            let j = choose|j: int| 0 <= j < i && (#[trigger] s[j]).0 == x;
            assert(senders@[x] == s[j].1);
            if !has_match(roster@, s[j].1.key) {
                assert(!r@.contains_key(s[j].0));
            }
            let c = choose|c: u32| first_match(roster@, senders@[x].key, c);
            lemma_first_match_unique(roster@, senders@[x].key, c, r@[x]);
        }
        assert(r@ =~= auto_match_of(roster@, senders@));
        assert forall|x: u32| #[trigger] r@.contains_key(x) implies senders@.contains_key(x)
            && roster@.contains_key(r@[x]) by {
            let j = choose|j: int| 0 <= j < i && (#[trigger] s[j]).0 == x;
            if !has_match(roster@, s[j].1.key) {
                assert(!r@.contains_key(s[j].0));
            }
        }
    }
    r
}

/// Maps `sender` to `contact`, replacing any contact it was mapped to.
pub fn set_mapping(mapping: &mut Mapping, sender: u32, contact: u32)
    requires
        old(mapping).wf(),
    ensures
        final(mapping).wf(),
        final(mapping)@ == old(mapping)@.insert(sender, contact),
{
    mapping.insert(sender, contact);
}

/// Leaves `sender` unmapped.
pub fn clear_mapping(mapping: &mut Mapping, sender: u32)
    requires
        old(mapping).wf(),
    ensures
        final(mapping).wf(),
        final(mapping)@ == old(mapping)@.remove(sender),
{
    mapping.remove(sender);
}

/// Clearing a sender twice leaves the same mapping as clearing it once.
pub proof fn clear_mapping_idempotent(mapping: Map<u32, u32>, sender: u32)
    ensures
        mapping.remove(sender).remove(sender) == mapping.remove(sender),
{
    assert(mapping.remove(sender).remove(sender) =~= mapping.remove(sender));
}

/// Automatic matching is deterministic: the same roster and the same senders
/// give the same mapping, down to the order in which its entries are held.
pub proof fn auto_match_is_deterministic(
    roster_a: Map<u32, Avatar>,
    senders_a: Map<u32, Avatar>,
    roster_b: Map<u32, Avatar>,
    senders_b: Map<u32, Avatar>,
    result_a: Seq<(u32, u32)>,
    result_b: Seq<(u32, u32)>,
)
    requires
        roster_a == roster_b,
        senders_a == senders_b,
        ids_ascending(result_a),
        ids_ascending(result_b),
        seq_to_map(result_a) == auto_match_of(roster_a, senders_a),
        seq_to_map(result_b) == auto_match_of(roster_b, senders_b),
    ensures
        result_a == result_b,
{
    lemma_ascending_unique(result_a, result_b);
}

} // verus!
