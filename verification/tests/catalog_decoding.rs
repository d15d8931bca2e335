//! Decoding the priority-tagged language blob and assembling voice records.

use espeak_py::catalog::{
    list_language_codes, make_voice_record, voice_names, FeedResult, LangBlobDecoder, LangEntry,
    Language, VoiceRecord,
};
use espeak_py::errors::EspeakError;

fn feed_all(decoder: &mut LangBlobDecoder, bytes: &[u8]) -> FeedResult {
    let mut last = FeedResult::More;
    for b in bytes {
        last = decoder.feed(*b);
        if last != FeedResult::More {
            break;
        }
    }
    last
}

#[test]
fn decodes_a_two_language_blob() {
    // One voice with languages [(5, "en"), (10, "en-gb")], as the native
    // blob lays them out: priority byte, nul-terminated code, final zero.
    let blob = [5, b'e', b'n', 0, 10, b'e', b'n', b'-', b'g', b'b', 0, 0];
    let mut d = LangBlobDecoder::new();
    assert_eq!(feed_all(&mut d, &blob), FeedResult::Done);
    let entries = d.into_entries();
    assert_eq!(entries.len(), 2);
    assert_eq!(entries[0].priority, 5);
    assert_eq!(entries[0].code, b"en".to_vec());
    assert_eq!(entries[1].priority, 10);
    assert_eq!(entries[1].code, b"en-gb".to_vec());
}

#[test]
fn empty_blob_decodes_to_no_languages() {
    let mut d = LangBlobDecoder::new();
    assert_eq!(d.feed(0), FeedResult::Done);
    assert_eq!(d.into_entries().len(), 0);
}

#[test]
fn zero_length_code_is_corruption() {
    // A zero right after a priority byte would make an empty code.
    let mut d = LangBlobDecoder::new();
    assert_eq!(d.feed(5), FeedResult::More);
    assert_eq!(d.feed(0), FeedResult::Corrupt);
}

#[test]
fn voice_record_copies_name_and_languages() {
    let blob = [5, b'e', b'n', 0, 10, b'e', b'n', b'-', b'g', b'b', 0, 0];
    let mut d = LangBlobDecoder::new();
    assert_eq!(feed_all(&mut d, &blob), FeedResult::Done);
    let record = make_voice_record(b"English".to_vec(), &d.into_entries()).unwrap();
    assert_eq!(record.name, "English");
    assert_eq!(record.languages.len(), 2);
    assert_eq!(record.languages[0].priority, 5);
    assert_eq!(record.languages[0].code, "en");
    assert_eq!(record.languages[1].priority, 10);
    assert_eq!(record.languages[1].code, "en-gb");
}

#[test]
fn invalid_name_bytes_are_a_catalog_decoding_error() {
    let r = make_voice_record(vec![0xff, 0xfe], &Vec::new());
    assert!(matches!(r, Err(EspeakError::CatalogDecodingError)));
}

#[test]
fn invalid_code_bytes_are_a_catalog_decoding_error() {
    let entries = vec![LangEntry { priority: 5, code: vec![0xff] }];
    let r = make_voice_record(b"English".to_vec(), &entries);
    assert!(matches!(r, Err(EspeakError::CatalogDecodingError)));
}

#[test]
fn one_name_per_catalog_record() {
    let catalog = vec![
        VoiceRecord { name: String::from("English"), languages: Vec::new() },
        VoiceRecord { name: String::from("German"), languages: Vec::new() },
        VoiceRecord { name: String::from("French"), languages: Vec::new() },
    ];
    let names = voice_names(&catalog);
    assert_eq!(names, vec!["English", "German", "French"]);
    // Same catalog in, same names out.
    assert_eq!(voice_names(&catalog), names);
}

#[test]
fn languages_flatten_in_blob_order() {
    // The concrete catalog scenario: one voice with [(5, "en"), (10, "en-gb")].
    let catalog = vec![VoiceRecord {
        name: String::from("English"),
        languages: vec![
            Language { priority: 5, code: String::from("en") },
            Language { priority: 10, code: String::from("en-gb") },
        ],
    }];
    assert_eq!(list_language_codes(&catalog), vec!["en", "en-gb"]);
}

#[test]
fn languages_keep_duplicates_across_voices() {
    let catalog = vec![
        VoiceRecord {
            name: String::from("A"),
            languages: vec![Language { priority: 1, code: String::from("en") }],
        },
        VoiceRecord {
            name: String::from("B"),
            languages: vec![
                Language { priority: 2, code: String::from("en") },
                Language { priority: 3, code: String::from("de") },
            ],
        },
    ];
    assert_eq!(list_language_codes(&catalog), vec!["en", "en", "de"]);
}
