//! Hybrid lexical/semantic resolution engine for canonical field naming.
//!
//! The library standardizes free-form phrases into canonical identifiers
//! drawn from a controlled vocabulary of word roots, and searches that
//! vocabulary by exact text or by vector similarity. It holds the verified
//! core: text normalization, dictionary-backed segmentation (through the
//! `jieba_rs` segmenter), per-token lexical resolution against the catalog,
//! a tiered query router, and an in-memory similarity index mirroring the
//! catalog.

pub mod api;
pub mod catalog;
pub mod errors;
pub mod index;
pub mod mirror;
pub mod resolver;
pub mod router;
pub mod text;
pub mod vocabulary;
