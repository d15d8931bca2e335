//! The multi-call phoneme streaming accumulator.

use espeak_py::errors::EspeakError;
use espeak_py::stream::{PhonemeAccumulator, PHONEME_MODE_IPA, SEGMENT_SEPARATOR, TEXT_MODE_AUTO};

#[test]
fn two_segments_one_separator_no_trailing() {
    let mut acc = PhonemeAccumulator::new();
    acc.push_segment(&b"h@l'oU".to_vec(), false);
    acc.push_segment(&b"w'3:ld".to_vec(), true);
    let s = acc.finish().unwrap();
    assert_eq!(s, "h@l'oU\nw'3:ld");
    assert_eq!(s.bytes().filter(|b| *b == SEGMENT_SEPARATOR).count(), 1);
    assert!(!s.ends_with('\n'));
}

#[test]
fn three_segments_two_separators() {
    let mut acc = PhonemeAccumulator::new();
    acc.push_segment(&b"a".to_vec(), false);
    acc.push_segment(&b"b".to_vec(), false);
    acc.push_segment(&b"c".to_vec(), true);
    assert_eq!(acc.finish().unwrap(), "a\nb\nc");
}

#[test]
fn single_segment_has_no_separator() {
    let mut acc = PhonemeAccumulator::new();
    acc.push_segment(&b"h@l'oU".to_vec(), true);
    assert_eq!(acc.finish().unwrap(), "h@l'oU");
}

#[test]
fn empty_input_still_yields_a_result() {
    // Empty input still makes one native call, whose segment may be empty.
    let mut acc = PhonemeAccumulator::new();
    acc.push_segment(&Vec::new(), true);
    assert_eq!(acc.finish().unwrap(), "");
}

#[test]
fn invalid_utf8_output_is_a_text_encoding_error() {
    let mut acc = PhonemeAccumulator::new();
    acc.push_segment(&vec![0xff, 0xfe], true);
    assert_eq!(acc.finish(), Err(EspeakError::TextEncodingError));
}

#[test]
fn native_mode_constants() {
    // The streamer asks for auto-detected input text and IPA-style output.
    assert_eq!(TEXT_MODE_AUTO, 0);
    assert_eq!(PHONEME_MODE_IPA, 2);
    assert_eq!(SEGMENT_SEPARATOR, b'\n');
}
