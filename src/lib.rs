//! A terminal key-input library: decodes the bytes that a terminal sends into
//! key events, and renders key events to text and parses them back.
//!
//! A `TermKey` owns a byte buffer, its settings and a table of key names.
//! Bytes go in through `push_bytes`; keys come out of `getkey`, which reports
//! `Again` while the buffer may still grow into a longer sequence, and
//! `getkey_force`, which always makes progress. `strfkey` and `strpkey` turn
//! keys into text and back.

pub mod csi;
pub mod decoder;
pub mod event;
pub mod format;
pub mod keysym;
pub mod parse;
pub mod roundtrip;

pub use decoder::{DecodeError, Flag, Result, Step, TermKey};
pub use event::{canonicalize, Canon, Event, KeyMod, MouseEvent, Type, Utf8Char};
pub use format::{format_key, Format};
pub use keysym::{KeyNames, Sym};
