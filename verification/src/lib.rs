//! Lectic documents: a YAML header that describes a persona, and a body of
//! turns, those of the persona between colon fences and those of the user
//! outside them.
//!
//! `parse::parse` reads a document into a `types::LecticData`, from which the
//! message list, the system prompt, the temperature and the token limit for
//! a chat client derive. Every function states what it returns over the
//! characters of its input, and `laws` states what holds of every parsed
//! document.

pub mod args;
pub mod encode;
pub mod error;
pub mod header;
pub mod laws;
pub mod parse;
pub mod reply;
pub mod round_trip;
pub mod scan_laws;
pub mod segment;
pub mod shape;
pub mod text;
pub mod types;
pub mod yaml;
