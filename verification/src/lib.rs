//! Dictionary-backed word-to-phonetic conversion.
//!
//! Words are looked up, after normalization (lowercasing and dot-stripping),
//! first in a simplified pronunciation dictionary and then in a broad
//! phonetic-alphabet dictionary; a word found in neither passes through
//! unchanged. A full text is split on whitespace and resolved word by word,
//! producing either (original, phonetic) pairs or a flat phonetic sequence.

pub mod boundary;
pub mod dict;
pub mod resolver;
pub mod text;
