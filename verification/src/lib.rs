//! Signature decipher engine and stream/manifest extraction core for a
//! video platform whose stream URLs are protected by an obfuscated,
//! per-player-version signature transform.
//!
//! The library is organised leaf-first: primitive cipher operations and
//! their replay engine, a structural pattern matcher that recovers a
//! decipher program from raw player code, a memoizing cache store, the
//! decipher orchestration that ties the two caches together, manifest
//! extraction, and the single entry-point type `Ty`.

pub mod cache;
pub mod cipher;
pub mod cookies;
pub mod decipher;
pub mod error;
pub mod extractor;
pub mod player;
pub mod ty;
pub mod yt_interface;
