//! An encrypted note store.
//!
//! A journal is a directory of notes, each encrypted under a key that is
//! derived from a passphrase and the directory's salt. A note is edited by
//! decrypting it to a scratch file, handing the terminal to an editor, and
//! encrypting the scratch file over the note.
//!
//! - [`salt`]: the salt record of a directory, read or made anew.
//! - [`key`]: the session key and its derivation.
//! - [`cipher`]: the AES-256 block primitive, taken on trust.
//! - [`codec`]: byte strings to ciphertext and back, with zero padding.
//! - [`stream`]: the same codec, fed piece by piece.
//! - [`terminal`]: the terminal session as a state machine.
//! - [`edit_cycle`]: the steps of one edit.
//! - [`entry_list`]: the list of notes and its selection.
//! - [`startup`]: what is settled before a session starts.
//!
//! Nothing here reads a file or touches the terminal: callers do that and
//! hand over bytes and outcomes.

pub mod cipher;
pub mod codec;
pub mod edit_cycle;
pub mod entry_list;
pub mod key;
pub mod salt;
pub mod startup;
pub mod stream;
pub mod terminal;
