//! Detection and repair of text tags whose Windows-1251 bytes were read as Latin-1.
pub mod text;
pub mod types;
pub mod detect;
pub mod fixing;

pub use fixing::fix_encoding;
pub mod scan;
pub mod laws;
