//! Repair of malformed, cross-platform CSV source bytes into clean UTF-8 text.
//!
//! The stages are pure functions over bytes and characters, applied in a fixed
//! order: the encoding is classified, a leading byte-order mark is removed,
//! the bytes are decoded as UTF-8 with line endings rewritten to a bare line
//! feed, and control characters are filtered out. Every stage is stated over a
//! mathematical model (`Seq<u8>`, `Seq<char>`) and proved against it.
//!
//! Nothing here keeps state between calls or touches anything but its
//! arguments. [`strip_bom`] returns a view into its input; every other stage
//! returns a buffer of its own.
//!
//! Two policies are fixed: the canonical line ending is a bare line feed, and
//! the sanitizer drops carriage returns along with the other control codes.

pub mod bom;
pub mod decode;
pub mod encoding;
pub mod filtering;
pub mod injection;
pub mod line_endings;
pub mod pipeline;
pub mod sanitize;
pub mod utf8_facts;
pub mod validate;

pub use bom::strip_bom;
pub use decode::{decode, is_decodable, is_decodable_len};
pub use encoding::{detect, EncodingTag};
pub use injection::is_risky;
pub use line_endings::normalize_line_endings;
pub use pipeline::{
    init_context, normalize, repair, repair_and_normalize, CsvContext, RepairError,
    RepairMetrics,
};
pub use sanitize::{remove_nulls, sanitize};
pub use validate::is_valid_utf8;
