//! Generator for a C header that declares camera control and property
//! enums: identifier transliteration (`ExampleName` -> `example_name` /
//! `EXAMPLE_NAME` / `LIBCAMERA_CONTROL_ID_EXAMPLE_NAME`), doc-comment
//! formatting, and deterministic enum emission from an ordered catalog.

pub mod docfmt;
pub mod emit;
pub mod numfmt;
pub mod translit;
