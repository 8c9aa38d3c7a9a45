//! Derives artist, album, track number and title of an audio file from its
//! path, and writes them into the file's ID3 tag.
//!
//! The library holds the decisions: which paths count as audio files, how a
//! path is taken apart, what is written to a tag, and what is reported. It
//! reads no file and prints nothing; a caller walks the directory tree,
//! performs the reads and writes, and hands the results back.

pub mod digits;
pub mod entry;
pub mod fields;
pub mod frames;
pub mod matcher;
pub mod report;
pub mod tag;
pub mod text;
