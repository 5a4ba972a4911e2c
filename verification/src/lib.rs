//! Splits a format template with embedded expressions, such as
//! `"lorem {dolor} ipsum"`, into the template with empty placeholders and the
//! expressions that stood in them. The scanner knows enough of the lexical
//! structure of an expression (strings, characters, raw strings, comments) to
//! tell a brace that closes a marker from one that only occurs in its text.

pub mod error;
pub mod literals;
pub mod boundary;
pub mod modifier;
pub mod segmenter;
pub mod laws;
