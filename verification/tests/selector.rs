//! Selector validation, request marshaling, and native result-code mapping.

use espeak_py::errors::{
    EspeakError, NATIVE_BUFFER_FULL, NATIVE_INTERNAL_ERROR, NATIVE_NOT_FOUND, NATIVE_OK,
};
use espeak_py::voice::{
    map_select_result, nul_terminate, prepare_request, validate_selector, VoiceQuery,
};

#[test]
fn both_language_and_name_is_invalid() {
    let r = validate_selector(Some("en"), Some("en-us"));
    assert_eq!(r, Err(EspeakError::InvalidArguments));
}

#[test]
fn neither_language_nor_name_is_invalid() {
    let r = validate_selector(None, None);
    assert_eq!(r, Err(EspeakError::InvalidArguments));
}

#[test]
fn language_alone_selects_by_language() {
    let r = validate_selector(Some("en"), None);
    assert_eq!(r, Ok(VoiceQuery::ByLanguage { language: String::from("en") }));
}

#[test]
fn name_alone_selects_by_name() {
    let r = validate_selector(None, Some("en-us"));
    assert_eq!(r, Ok(VoiceQuery::ByName { name: String::from("en-us") }));
}

#[test]
fn prepare_rejects_both_for_any_text() {
    let r = prepare_request("hello", Some("en"), Some("en-us"));
    assert!(matches!(r, Err(EspeakError::InvalidArguments)));
    let r = prepare_request("", Some("en"), Some("en-us"));
    assert!(matches!(r, Err(EspeakError::InvalidArguments)));
}

#[test]
fn prepare_rejects_neither_for_any_text() {
    let r = prepare_request("hello", None, None);
    assert!(matches!(r, Err(EspeakError::InvalidArguments)));
    let r = prepare_request("whatever else", None, None);
    assert!(matches!(r, Err(EspeakError::InvalidArguments)));
}

#[test]
fn prepare_marshals_nul_terminated_buffers() {
    let req = prepare_request("hello", Some("en"), None).unwrap();
    assert_eq!(req.query, VoiceQuery::ByLanguage { language: String::from("en") });
    assert_eq!(req.query_z, vec![b'e', b'n', 0]);
    assert_eq!(req.text_z, vec![b'h', b'e', b'l', b'l', b'o', 0]);
}

#[test]
fn prepare_keeps_empty_text() {
    let req = prepare_request("", None, Some("en-us")).unwrap();
    assert_eq!(req.text_z, vec![0]);
}

#[test]
fn prepare_rejects_embedded_nul() {
    let r = prepare_request("he\0llo", Some("en"), None);
    assert!(matches!(r, Err(EspeakError::InvalidArguments)));
    let r = prepare_request("hello", Some("e\0n"), None);
    assert!(matches!(r, Err(EspeakError::InvalidArguments)));
}

#[test]
fn nul_terminate_appends_one_nul() {
    assert_eq!(nul_terminate("en").unwrap(), vec![b'e', b'n', 0]);
    assert_eq!(nul_terminate("").unwrap(), vec![0]);
    assert_eq!(nul_terminate("a\0b"), Err(EspeakError::InvalidArguments));
}

#[test]
fn ok_code_maps_to_success() {
    assert_eq!(map_select_result(NATIVE_OK, "en"), Ok(()));
}

#[test]
fn internal_error_code_maps_to_internal_error() {
    assert_eq!(
        map_select_result(NATIVE_INTERNAL_ERROR, "en"),
        Err(EspeakError::InternalNativeError)
    );
}

#[test]
fn not_found_code_carries_the_exact_identifier() {
    let r = map_select_result(NATIVE_NOT_FOUND, "xx-not-a-real-language");
    assert_eq!(
        r,
        Err(EspeakError::VoiceNotFound {
            identifier: String::from("xx-not-a-real-language")
        })
    );
}

#[test]
fn undocumented_code_maps_to_unknown_with_code() {
    assert_eq!(
        map_select_result(7, "en"),
        Err(EspeakError::UnknownNativeError { code: 7 })
    );
    // Buffer-full is outside the voice-selection entry points' documented
    // result set, so it maps to the catch-all too.
    assert_eq!(
        map_select_result(NATIVE_BUFFER_FULL, "en"),
        Err(EspeakError::UnknownNativeError { code: NATIVE_BUFFER_FULL })
    );
}

#[test]
fn not_found_message_contains_the_identifier() {
    let e = EspeakError::VoiceNotFound { identifier: String::from("xx-not-a-real-language") };
    let m = e.message();
    assert!(m.contains("xx-not-a-real-language"));
    assert!(m.contains("not found"));
}
