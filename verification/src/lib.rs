//! Extraction of structured novel metadata and content from pages of a
//! serialized-fiction site: a work title split into bare title and embedded
//! author, a chapter list recovered from an embedded JSON state blob, and
//! per-chapter body segmentation into paragraphs and break markers.

pub mod cli;
pub mod html;
pub mod json;
pub mod render;
pub mod stdio;
pub mod text;
pub mod title;
