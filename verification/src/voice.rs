//! Voice selection: argument validation, nul-terminated marshaling, and
//! native result-code mapping.

use vstd::prelude::*;
use vstd::string::{StrSliceExecFns, StringSliceAdditionalSpecFns};
use vstd::utf8::encode_utf8;
use crate::errors::{EspeakError, NATIVE_INTERNAL_ERROR, NATIVE_NOT_FOUND, NATIVE_OK};

verus! {

/// Which native voice-selection entry point a validated request will use.
#[derive(Debug, Clone, PartialEq, Eq)]
pub enum VoiceQuery {
    /// Select with the set-voice-by-name entry point.
    ByName { name: String },
    /// Select with the set-voice-by-properties entry point, the language tag
    /// being the only populated property.
    ByLanguage { language: String },
}

/// The exclusivity rule on the selector inputs: exactly one must be given.
pub open spec fn selector_exclusive(language: Option<&str>, voice_name: Option<&str>) -> bool {
    (language is Some && voice_name is None) || (language is None && voice_name is Some)
}

/// The identifier the caller chose, meaningful when the inputs are exclusive.
pub open spec fn chosen_identifier(language: Option<&str>, voice_name: Option<&str>) -> Seq<
    char,
> {
    if language is Some {
        language->0@
    } else {
        voice_name->0@
    }
}

/// The identifier a query carries.
pub open spec fn query_identifier(q: VoiceQuery) -> Seq<char> {
    match q {
        VoiceQuery::ByName { name } => name@,
        VoiceQuery::ByLanguage { language } => language@,
    }
}

/// Validate the caller's selector inputs before any native state is touched:
/// exactly one of language and voice name may be present.
pub fn validate_selector(language: Option<&str>, voice_name: Option<&str>) -> (r: Result<
    VoiceQuery,
    EspeakError,
>)
    ensures
        r is Ok <==> selector_exclusive(language, voice_name),
        r is Err ==> r == Err::<VoiceQuery, EspeakError>(EspeakError::InvalidArguments),
        r matches Ok(q) ==> {
            &&& (q is ByLanguage <==> language is Some)
            &&& query_identifier(q) == chosen_identifier(language, voice_name)
        },
{
    match (language, voice_name) {
        (None, None) => Err(EspeakError::InvalidArguments),
        (Some(_), Some(_)) => Err(EspeakError::InvalidArguments),
        (Some(l), None) => Ok(VoiceQuery::ByLanguage { language: l.to_owned() }),
        (None, Some(n)) => Ok(VoiceQuery::ByName { name: n.to_owned() }),
    }
}

/// Copy of the bytes of `s` with a terminating nul, ready for the native ABI.
/// Text with an embedded nul byte cannot cross the C boundary intact and is
/// rejected.
pub fn nul_terminate(s: &str) -> (r: Result<Vec<u8>, EspeakError>)
    ensures
        r is Ok <==> !s.spec_bytes().contains(0u8),
        r matches Ok(b) ==> b@ == s.spec_bytes() + seq![0u8],
        r is Err ==> r == Err::<Vec<u8>, EspeakError>(EspeakError::InvalidArguments),
{
    let mut b = s.as_bytes_vec();
    let mut i: usize = 0;
    while i < b.len()
        invariant
            b@ == s.spec_bytes(),
            i <= b.len(),
            forall|j: int| 0 <= j < i ==> b@[j] != 0u8,
        decreases b.len() - i,
    {
        if b[i] == 0u8 {
            proof {
                assert(s.spec_bytes().contains(0u8)) by {
                    assert(s.spec_bytes()[i as int] == 0u8);
                }
            }
            return Err(EspeakError::InvalidArguments);
        }
        i += 1;
    }
    proof {
        assert(!s.spec_bytes().contains(0u8)) by {
            assert(forall|j: int| 0 <= j < s.spec_bytes().len() ==> s.spec_bytes()[j] != 0u8);
        }
    }
    b.push(0u8);
    Ok(b)
}

/// Map a native voice-selection result code to a typed outcome, keeping the
/// offending identifier for diagnosability.
pub fn map_select_result(code: i32, identifier: &str) -> (r: Result<(), EspeakError>)
    ensures
        r is Ok <==> code == NATIVE_OK,
        code == NATIVE_INTERNAL_ERROR ==> r == Err::<(), EspeakError>(
            EspeakError::InternalNativeError,
        ),
        code == NATIVE_NOT_FOUND ==> (r matches Err(EspeakError::VoiceNotFound { identifier: id })
            && id@ == identifier@),
        code != NATIVE_OK && code != NATIVE_INTERNAL_ERROR && code != NATIVE_NOT_FOUND ==> r
            == Err::<(), EspeakError>((EspeakError::UnknownNativeError { code })),
{
    if code == NATIVE_OK {
        Ok(())
    } else if code == NATIVE_INTERNAL_ERROR {
        Err(EspeakError::InternalNativeError)
    } else if code == NATIVE_NOT_FOUND {
        Err(EspeakError::VoiceNotFound { identifier: identifier.to_owned() })
    } else {
        Err(EspeakError::UnknownNativeError { code })
    }
}

/// A fully validated phoneme request: the selector choice and the
/// nul-terminated buffers the native calls take. The text buffer must stay
/// alive and unmoved for the whole streaming loop, because the native library
/// keeps reading it across calls.
pub struct PhonemeRequest {
    /// Which voice-selection entry point to use, with the owned identifier.
    pub query: VoiceQuery,
    /// The identifier of `query`, nul-terminated for the native call.
    pub query_z: Vec<u8>,
    /// The input text, nul-terminated for the native call.
    pub text_z: Vec<u8>,
}

/// Validate a full text-to-phonemes request and marshal its buffers, before
/// any native state is touched.
pub fn prepare_request(text: &str, language: Option<&str>, voice_name: Option<&str>) -> (r: Result<
    PhonemeRequest,
    EspeakError,
>)
    ensures
        r is Ok <==> selector_exclusive(language, voice_name) && !encode_utf8(
            chosen_identifier(language, voice_name),
        ).contains(0u8) && !text.spec_bytes().contains(0u8),
        r is Err ==> r == Err::<PhonemeRequest, EspeakError>(EspeakError::InvalidArguments),
        r matches Ok(req) ==> {
            &&& (req.query is ByLanguage <==> language is Some)
            &&& query_identifier(req.query) == chosen_identifier(language, voice_name)
            &&& req.query_z@ == encode_utf8(chosen_identifier(language, voice_name)) + seq![0u8]
            &&& req.text_z@ == text.spec_bytes() + seq![0u8]
        },
{
    let query = match validate_selector(language, voice_name) {
        Ok(q) => q,
        Err(e) => { return Err(e) },
    };
    let query_z = match &query {
        VoiceQuery::ByName { name } => nul_terminate(name.as_str()),
        VoiceQuery::ByLanguage { language } => nul_terminate(language.as_str()),
    };
    let query_z = match query_z {
        Ok(b) => b,
        Err(e) => { return Err(e) },
    };
    let text_z = match nul_terminate(text) {
        Ok(b) => b,
        Err(e) => { return Err(e) },
    };
    Ok(PhonemeRequest { query, query_z, text_z })
}

} // verus!
