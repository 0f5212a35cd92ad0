//! The parts of a decoded avatar descriptor that the tool reads.

use vstd::prelude::*;

use crate::table::IdMap;

verus! {

/// A decoded avatar: its display name and the correlation key of the device
/// that created it.
pub struct Avatar {
    pub name: String,
    pub key: u64,
}

/// Avatars by principal id: the roster, or the senders of the stored notes.
pub type AvatarMap = IdMap<Avatar>;

} // verus!
