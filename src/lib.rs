//! Reconciles the senders of stored notes with the contacts of a roster.
//!
//! The library holds the logic of the tool: the binary transactions of the
//! roster service, the rules for walking the note archive, the matching of
//! senders to contacts, and the interactive session that lets an operator
//! correct the matching. The program around it performs the platform calls
//! and hands the results in as plain values.

pub mod table;
pub mod avatar;
pub mod roster;
pub mod archive;
pub mod mapping;
pub mod session;
pub mod menu;
