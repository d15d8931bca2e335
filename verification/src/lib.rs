//! Safe, verified core of a text-to-phoneme boundary around the espeak-ng
//! native engine.
//!
//! The native engine is a single process-wide resource with mutable global
//! state, reached through a fixed C ABI. Everything that can be stated and
//! checked — argument validation, the exactly-once initialization protocol,
//! native result-code mapping, the multi-call phoneme streaming protocol, and
//! the decoding of the sentinel-terminated voice catalog — lives here as
//! verified functions over plain values. The unsafe calls themselves, the
//! process-wide lock that serializes them, and the managed-runtime bindings
//! stand outside this crate and drive these functions.

pub mod catalog;
pub mod errors;
pub mod init;
pub mod stream;
mod textenc;
pub mod voice;

pub use errors::EspeakError;
