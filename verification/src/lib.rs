//! Loader for triangulated wavefront-style model files.
//!
//! The library parses the text format (records `v`, `vt`, `vn`, `f`, `g`,
//! `s`, `o`, `usemtl`, `mtllib`), parses companion material files, and
//! reindexes multi-index faces into one deduplicated vertex array with a
//! single flat triangle index array, as the GPU wants them. Scalar values
//! travel through the pipeline as opaque 32-bit words (the bit patterns of
//! the single-precision values an application decodes from the numeric
//! tokens), so every rule of the formats and of the reindexing is stated
//! and proved here; the caller supplies the decoded scalars and hands the
//! finished arrays to its rendering backend.

pub mod error;
pub mod gpu;
pub mod model;
pub mod mtl;
pub mod num;
pub mod obj;
pub mod parse;
pub mod reindex;
pub mod tok;
