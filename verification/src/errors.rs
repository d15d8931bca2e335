//! Typed failures of the boundary, and the native result codes they map from.

use vstd::prelude::*;
use vstd::string::StringExecFns;

verus! {

/// Result code the native voice-selection entry points return on success.
pub const NATIVE_OK: i32 = 0;

/// Result code for an internal failure inside the native engine.
pub const NATIVE_INTERNAL_ERROR: i32 = -1;

/// Result code for a full native buffer.
pub const NATIVE_BUFFER_FULL: i32 = 1;

/// Result code for a voice or language that is not installed.
pub const NATIVE_NOT_FOUND: i32 = 2;

/// Typed failures of the text-to-phoneme boundary.
///
/// Every native-call failure is converted at the point of the call into one
/// of these and returned immediately; each carries enough context to act on
/// without inspecting native internals.
#[derive(Debug, Clone, PartialEq, Eq)]
pub enum EspeakError {
    /// No candidate data directory exists on this system.
    DataPathNotFound,
    /// The native initialize entry point reported failure.
    InitializationFailed,
    /// Exactly one of language and voice name must be given, and the text
    /// handed to the engine must not contain a nul byte.
    InvalidArguments,
    /// The requested voice or language is not installed.
    VoiceNotFound { identifier: String },
    /// The native engine reported an internal error.
    InternalNativeError,
    /// The native engine returned a result code outside the documented set.
    UnknownNativeError { code: i32 },
    /// Native phoneme output was not valid text.
    TextEncodingError,
    /// The native voice catalog held a malformed language blob.
    CatalogDecodingError,
}

impl EspeakError {
    /// Human-readable description, with a remediation hint where one exists.
    pub fn message(&self) -> (r: String)
        ensures
            match self {
                EspeakError::DataPathNotFound => r@ == (
                    "espeak-ng data files were not found; install them (for example: sudo apt install espeak-ng-data)"
                )@,
                EspeakError::InitializationFailed => r@ == (
                    "error while initializing espeak; are the espeak-ng data files installed?"
                )@,
                EspeakError::InvalidArguments => r@ == (
                    "exactly one of 'language' and 'voice_name' must be passed, without embedded nul bytes"
                )@,
                EspeakError::VoiceNotFound { identifier } => r@ == "voice '"@ + identifier@
                    + "' not found; have you installed espeak data files?"@,
                EspeakError::InternalNativeError => r@ == (
                    "espeak internal error while setting voice"
                )@,
                EspeakError::UnknownNativeError { .. } => r@ == (
                    "espeak unknown error while setting voice"
                )@,
                EspeakError::TextEncodingError => r@ == (
                    "espeak returned phoneme text that is not valid UTF-8"
                )@,
                EspeakError::CatalogDecodingError => r@ == (
                    "espeak language string decoding error"
                )@,
            },
    {
        match self {
            EspeakError::DataPathNotFound => String::from_str(
                "espeak-ng data files were not found; install them (for example: sudo apt install espeak-ng-data)",
            ),
            EspeakError::InitializationFailed => String::from_str(
                "error while initializing espeak; are the espeak-ng data files installed?",
            ),
            EspeakError::InvalidArguments => String::from_str(
                "exactly one of 'language' and 'voice_name' must be passed, without embedded nul bytes",
            ),
            EspeakError::VoiceNotFound { identifier } => {
                let mut m = String::from_str("voice '");
                m.append(identifier.as_str());
                m.append("' not found; have you installed espeak data files?");
                m
            },
            EspeakError::InternalNativeError => String::from_str(
                "espeak internal error while setting voice",
            ),
            EspeakError::UnknownNativeError { .. } => String::from_str(
                "espeak unknown error while setting voice",
            ),
            EspeakError::TextEncodingError => String::from_str(
                "espeak returned phoneme text that is not valid UTF-8",
            ),
            EspeakError::CatalogDecodingError => String::from_str(
                "espeak language string decoding error",
            ),
        }
    }
}

} // verus!
