//! The phoneme streamer: accumulates the segments of the native engine's
//! multi-call protocol into one owned result, with a separator between
//! consecutive segments and none after the last.

use vstd::prelude::*;
use vstd::utf8::{
    char_u32_cast, decode_first_scalar, decode_utf8, decode_utf8_encode_utf8,
    decode_utf8_first_scalar, encode_scalar, encode_utf8, has_width_1_encoding,
    is_continuation_byte, is_leading_byte_width_1, leading_byte_width_1, length_of_first_scalar,
    pop_first_scalar, take_first_scalar, valid_leading_and_continuation_bytes_first_codepoint,
    valid_utf8,
};
use crate::errors::EspeakError;
use crate::textenc::utf8_to_string;

verus! {

/// Separator written between two segments, reproducing the native engine's
/// own command-line behavior when it processes input in chunks.
pub const SEGMENT_SEPARATOR: u8 = 10;

/// Text-encoding mode asking the engine to auto-detect the input encoding.
pub const TEXT_MODE_AUTO: i32 = 0;

/// Phoneme-output mode requesting IPA-style symbolic output.
pub const PHONEME_MODE_IPA: i32 = 2;

/// The segments of a finished stream, joined with the separator between
/// consecutive segments and nothing after the last.
pub open spec fn joined(segs: Seq<Seq<u8>>) -> Seq<u8>
    decreases segs.len(),
{
    if segs.len() == 0 {
        Seq::empty()
    } else if segs.len() == 1 {
        segs[0]
    } else {
        segs[0] + seq![SEGMENT_SEPARATOR] + joined(segs.drop_first())
    }
}

/// Joining one more segment at the end extends the join with one separator
/// and the new segment.
pub proof fn lemma_joined_push(segs: Seq<Seq<u8>>, seg: Seq<u8>)
    ensures
        joined(segs.push(seg)) == if segs.len() == 0 {
            seg
        } else {
            joined(segs) + seq![SEGMENT_SEPARATOR] + seg
        },
    decreases segs.len(),
{
    if segs.len() == 0 {
        assert(segs.push(seg)[0] == seg);
        assert(joined(segs.push(seg)) == seg);
    } else {
        lemma_joined_push(segs.drop_first(), seg);
        assert(segs.push(seg).drop_first() =~= segs.drop_first().push(seg));
        assert(segs.push(seg)[0] == segs[0]);
        if segs.len() == 1 {
            assert(joined(segs.push(seg)) == segs[0] + seq![SEGMENT_SEPARATOR] + seg);
            assert(joined(segs) == segs[0]);
        } else {
            assert(joined(segs.push(seg)) == segs[0] + seq![SEGMENT_SEPARATOR] + (joined(
                segs.drop_first(),
            ) + seq![SEGMENT_SEPARATOR] + seg));
            assert(joined(segs.push(seg)) =~= (segs[0] + seq![SEGMENT_SEPARATOR] + joined(
                segs.drop_first(),
            )) + seq![SEGMENT_SEPARATOR] + seg);
        }
    }
}

/// How many times `b` occurs in `s`.
pub open spec fn count_byte(s: Seq<u8>, b: u8) -> nat
    decreases s.len(),
{
    if s.len() == 0 {
        0nat
    } else {
        (if s[0] == b {
            1nat
        } else {
            0nat
        }) + count_byte(s.drop_first(), b)
    }
}

/// A byte absent from a sequence occurs zero times in it.
pub proof fn lemma_count_byte_absent(s: Seq<u8>, b: u8)
    requires
        forall|i: int| 0 <= i < s.len() ==> s[i] != b,
    ensures
        count_byte(s, b) == 0,
    decreases s.len(),
{
    if s.len() > 0 {
        assert(forall|i: int| 0 <= i < s.drop_first().len() ==> s.drop_first()[i] == s[i + 1]);
        lemma_count_byte_absent(s.drop_first(), b);
    }
}

/// Occurrences in a concatenation are the occurrences in the parts.
pub proof fn lemma_count_byte_concat(s1: Seq<u8>, s2: Seq<u8>, b: u8)
    ensures
        count_byte(s1 + s2, b) == count_byte(s1, b) + count_byte(s2, b),
    decreases s1.len(),
{
    if s1.len() == 0 {
        assert(s1 + s2 =~= s2);
    } else {
        assert((s1 + s2).drop_first() =~= s1.drop_first() + s2);
        assert((s1 + s2)[0] == s1[0]);
        lemma_count_byte_concat(s1.drop_first(), s2, b);
    }
}

/// A finished stream of k separator-free segments holds exactly k - 1
/// separators, and does not end with one when its last segment is non-empty.
pub proof fn lemma_separator_count(segs: Seq<Seq<u8>>)
    requires
        segs.len() > 0,
        forall|i: int, j: int|
            0 <= i < segs.len() && 0 <= j < segs[i].len() ==> segs[i][j] != SEGMENT_SEPARATOR,
    ensures
        count_byte(joined(segs), SEGMENT_SEPARATOR) == segs.len() - 1,
        segs.last().len() > 0 ==> joined(segs).len() > 0 && joined(segs).last()
            != SEGMENT_SEPARATOR,
    decreases segs.len(),
{
    if segs.len() == 1 {
        lemma_count_byte_absent(segs[0], SEGMENT_SEPARATOR);
        assert(segs.last() == segs[0]);
    } else {
        let rest = segs.drop_first();
        assert(forall|i: int, j: int|
            0 <= i < rest.len() && 0 <= j < rest[i].len() ==> rest[i][j] == segs[i + 1][j]);
        lemma_separator_count(rest);
        lemma_count_byte_absent(segs[0], SEGMENT_SEPARATOR);
        lemma_count_byte_concat(segs[0], seq![SEGMENT_SEPARATOR], SEGMENT_SEPARATOR);
        lemma_count_byte_concat(segs[0] + seq![SEGMENT_SEPARATOR], joined(rest), SEGMENT_SEPARATOR);
        assert(count_byte(seq![SEGMENT_SEPARATOR], SEGMENT_SEPARATOR) == 1) by {
            let s1 = seq![SEGMENT_SEPARATOR];
            assert(s1[0] == SEGMENT_SEPARATOR);
            assert(s1.drop_first() =~= Seq::<u8>::empty());
            assert(count_byte(Seq::<u8>::empty(), SEGMENT_SEPARATOR) == 0);
        }
        assert(segs.last() == rest.last());
        if segs.last().len() > 0 {
            let j = joined(segs);
            let jr = joined(rest);
            assert(j == segs[0] + seq![SEGMENT_SEPARATOR] + jr);
            assert(j.len() == segs[0].len() + 1 + jr.len());
            assert(j.last() == jr.last());
        }
    }
}

/// How many times `c` occurs in a character sequence.
pub open spec fn count_char(s: Seq<char>, c: char) -> nat
    decreases s.len(),
{
    if s.len() == 0 {
        0nat
    } else {
        (if s[0] == c {
            1nat
        } else {
            0nat
        }) + count_char(s.drop_first(), c)
    }
}

/// In valid UTF-8 the separator byte stands exactly where the separator
/// character does: a one-byte scalar is its own byte, and no byte of a
/// multi-byte scalar lies below 0x80.
pub proof fn lemma_separator_chars_match_bytes(bytes: Seq<u8>)
    requires
        valid_utf8(bytes),
    ensures
        count_char(decode_utf8(bytes), '\n') == count_byte(bytes, SEGMENT_SEPARATOR),
    decreases bytes.len(),
{
    if bytes.len() != 0 {
        let w = length_of_first_scalar(bytes);
        let head = take_first_scalar(bytes);
        let rest = pop_first_scalar(bytes);
        let v = decode_first_scalar(bytes);
        let c0 = v as char;
        assert(1 <= w <= 4);
        assert(rest.len() < bytes.len());
        assert(bytes =~= head + rest);
        lemma_count_byte_concat(head, rest, SEGMENT_SEPARATOR);
        lemma_separator_chars_match_bytes(rest);
        let chars = decode_utf8(bytes);
        assert(chars == seq![c0] + decode_utf8(rest));
        assert(chars.drop_first() =~= decode_utf8(rest));
        assert(chars[0] == c0);
        assert('\n' as u32 == 10);
        decode_utf8_first_scalar(bytes);
        if w == 1 {
            assert(is_leading_byte_width_1(bytes[0]));
            assert(head =~= seq![bytes[0]]);
            let b0 = bytes[0];
            assert(b0 & 0x7F == b0) by (bit_vector)
                requires
                    b0 <= 0x7f,
            ;
            assert(v == b0);
            if b0 == SEGMENT_SEPARATOR {
                assert(count_byte(head, SEGMENT_SEPARATOR) == 1) by {
                    assert(head[0] == SEGMENT_SEPARATOR);
                    assert(head.drop_first() =~= Seq::<u8>::empty());
                    assert(count_byte(Seq::<u8>::empty(), SEGMENT_SEPARATOR) == 0);
                }
                char_u32_cast('\n', 10);
                assert(c0 == '\n');
            } else {
                assert(forall|i: int| 0 <= i < head.len() ==> head[i] != SEGMENT_SEPARATOR);
                lemma_count_byte_absent(head, SEGMENT_SEPARATOR);
                if c0 == '\n' {
                    assert(c0 as u32 == 10);
                    assert(encode_scalar(10u32) == head);
                    assert(10u32 & 0x7F == 10u32) by (bit_vector);
                    assert(leading_byte_width_1(10u32) == 10u8);
                    assert(head[0] == 10u8);
                    assert(false);
                }
            }
        } else {
            assert(valid_leading_and_continuation_bytes_first_codepoint(bytes));
            assert forall|i: int| 0 <= i < head.len() implies head[i] != SEGMENT_SEPARATOR by {
                assert(head[i] == bytes[i]);
                if i == 0 {
                    assert(!is_leading_byte_width_1(bytes[0]));
                    assert(bytes[0] >= 0xc0);
                } else {
                    assert(is_continuation_byte(bytes[i]));
                }
            }
            lemma_count_byte_absent(head, SEGMENT_SEPARATOR);
            if c0 == '\n' {
                assert(c0 as u32 == 10);
                assert(encode_scalar(10u32) == head);
                assert(has_width_1_encoding(10u32));
                assert(encode_scalar(10u32).len() == 1);
                assert(head.len() == w);
                assert(false);
            }
        }
    }
}

/// Encoding one more character at the end appends that character's scalar
/// encoding.
pub proof fn lemma_encode_utf8_snoc(chars: Seq<char>, c: char)
    ensures
        encode_utf8(chars.push(c)) == encode_utf8(chars) + encode_scalar(c as u32),
    decreases chars.len(),
{
    if chars.len() == 0 {
        assert(chars =~= Seq::<char>::empty());
        assert(chars.push(c)[0] == c);
        assert(chars.push(c).drop_first() =~= Seq::<char>::empty());
        assert(encode_utf8(Seq::<char>::empty()) == Seq::<u8>::empty());
        assert(encode_utf8(chars.push(c)) =~= encode_utf8(chars) + encode_scalar(c as u32));
    } else {
        lemma_encode_utf8_snoc(chars.drop_first(), c);
        assert(chars.push(c).drop_first() =~= chars.drop_first().push(c));
        assert(chars.push(c)[0] == chars[0]);
        assert(encode_utf8(chars.push(c)) =~= (encode_scalar(chars[0] as u32) + encode_utf8(
            chars.drop_first(),
        )) + encode_scalar(c as u32));
    }
}

/// The finished stream, at the character level: when the joined bytes are
/// valid UTF-8 (as every successful finish requires), the decoded string
/// holds exactly k - 1 separator characters for k separator-free segments,
/// and does not end with one when the last segment is non-empty.
pub proof fn lemma_separator_count_chars(segs: Seq<Seq<u8>>)
    requires
        segs.len() > 0,
        forall|i: int, j: int|
            0 <= i < segs.len() && 0 <= j < segs[i].len() ==> segs[i][j] != SEGMENT_SEPARATOR,
        valid_utf8(joined(segs)),
    ensures
        count_char(decode_utf8(joined(segs)), '\n') == segs.len() - 1,
        segs.last().len() > 0 ==> decode_utf8(joined(segs)).len() > 0 && decode_utf8(
            joined(segs),
        ).last() != '\n',
{
    let bytes = joined(segs);
    let chars = decode_utf8(bytes);
    lemma_separator_count(segs);
    lemma_separator_chars_match_bytes(bytes);
    if segs.last().len() > 0 {
        assert(bytes.len() > 0 && bytes.last() != SEGMENT_SEPARATOR);
        assert(chars.len() > 0);
        if chars.last() == '\n' {
            decode_utf8_encode_utf8(bytes);
            assert(encode_utf8(chars) == bytes);
            assert(chars =~= chars.drop_last().push('\n'));
            lemma_encode_utf8_snoc(chars.drop_last(), '\n');
            assert(bytes == encode_utf8(chars.drop_last()) + encode_scalar('\n' as u32));
            assert('\n' as u32 == 10);
            assert(10u32 & 0x7F == 10u32) by (bit_vector);
            assert(encode_scalar(10u32) =~= seq![10u8]);
            assert(bytes.last() == 10u8);
            assert(false);
        }
    }
}

/// Accumulates the output of the multi-call phoneme streaming protocol. While
/// the stream is open, the buffer ends with a separator ready for the next
/// segment; pushing the final segment closes it with no trailing separator.
pub struct PhonemeAccumulator {
    out: Vec<u8>,
    finished: bool,
    segs: Ghost<Seq<Seq<u8>>>,
}

impl PhonemeAccumulator {
    /// The segments pushed so far.
    pub closed spec fn segments(&self) -> Seq<Seq<u8>> {
        self.segs@
    }

    /// Whether the final segment has been pushed.
    pub closed spec fn is_finished(&self) -> bool {
        self.finished
    }

    /// The accumulated bytes.
    pub closed spec fn bytes(&self) -> Seq<u8> {
        self.out@
    }

    /// The accumulator's invariant: the buffer holds the pushed segments
    /// joined, plus one pending separator while the stream is open and
    /// non-empty.
    pub open spec fn wf(&self) -> bool {
        if self.is_finished() {
            self.bytes() == joined(self.segments())
        } else if self.segments().len() == 0 {
            self.bytes() == Seq::<u8>::empty()
        } else {
            self.bytes() == joined(self.segments()) + seq![SEGMENT_SEPARATOR]
        }
    }

    /// An empty, open accumulator.
    pub fn new() -> (r: PhonemeAccumulator)
        ensures
            r.wf(),
            !r.is_finished(),
            r.segments() == Seq::<Seq<u8>>::empty(),
    {
        PhonemeAccumulator { out: Vec::new(), finished: false, segs: Ghost(Seq::empty()) }
    }

    /// Record one segment copied out of the native output buffer. `is_last`
    /// is whether the native call nulled the cursor, ending the stream: then
    /// no separator follows the segment.
    pub fn push_segment(&mut self, seg: &Vec<u8>, is_last: bool)
        requires
            old(self).wf(),
            !old(self).is_finished(),
        ensures
            final(self).wf(),
            final(self).segments() == old(self).segments().push(seg@),
            final(self).is_finished() == is_last,
            is_last ==> final(self).bytes() == joined(final(self).segments()),
    {
        let ghost old_out = self.out@;
        let mut i: usize = 0;
        while i < seg.len()
            invariant
                i <= seg.len(),
                self.out@ == old_out + seg@.subrange(0, i as int),
                self.finished == old(self).is_finished(),
                self.segs@ == old(self).segments(),
            decreases seg.len() - i,
        {
            let b = seg[i];
            self.out.push(b);
            proof {
                assert(seg@.subrange(0, i + 1) =~= seg@.subrange(0, i as int).push(seg@[i as int]));
            }
            i += 1;
        }
        proof {
            assert(seg@.subrange(0, seg@.len() as int) =~= seg@);
        }
        if !is_last {
            self.out.push(SEGMENT_SEPARATOR);
        }
        self.finished = is_last;
        proof {
            self.segs@ = self.segs@.push(seg@);
            lemma_joined_push(old(self).segments(), seg@);
            if old(self).segments().len() == 0 {
                assert(old_out == Seq::<u8>::empty());
                assert(old_out + seg@ =~= seg@);
                if is_last {
                    assert(self.out@ =~= joined(self.segs@));
                } else {
                    assert(self.out@ =~= joined(self.segs@) + seq![SEGMENT_SEPARATOR]);
                }
            } else {
                assert(old_out == joined(old(self).segments()) + seq![SEGMENT_SEPARATOR]);
                assert(joined(self.segs@) =~= joined(old(self).segments()) + seq![
                    SEGMENT_SEPARATOR,
                ] + seg@);
                if is_last {
                    assert(self.out@ =~= joined(self.segs@));
                } else {
                    assert(self.out@ =~= joined(self.segs@) + seq![SEGMENT_SEPARATOR]);
                }
            }
        }
    }

    /// Close the stream and hand back the accumulated result as an owned
    /// string, or TextEncodingError when the native output was not valid
    /// text.
    pub fn finish(self) -> (r: Result<String, EspeakError>)
        requires
            self.wf(),
            self.is_finished(),
        ensures
            r is Ok <==> valid_utf8(joined(self.segments())),
            r matches Ok(s) ==> s@ == decode_utf8(joined(self.segments())),
            r is Err ==> r == Err::<String, EspeakError>(EspeakError::TextEncodingError),
    {
        match utf8_to_string(self.out) {
            Some(s) => Ok(s),
            None => Err(EspeakError::TextEncodingError),
        }
    }
}

} // verus!
