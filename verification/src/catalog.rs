//! The voice/language catalog reader: a byte-at-a-time decoder for the
//! priority-tagged, nul-delimited language blob each voice carries, and the
//! assembly of owned voice records.
//!
//! The blob is a packed sequence of records, each one priority byte followed
//! by a nul-terminated language code, the whole list ended by a zero byte
//! where a priority byte would start. The decoder is fed one byte at a time,
//! so the caller walking native memory decides nothing: it reads a byte,
//! hands it over, and stops when the decoder says so.

use vstd::prelude::*;
use vstd::utf8::{decode_utf8, valid_utf8};
use crate::errors::EspeakError;
use crate::textenc::utf8_to_string;

verus! {

/// One record of the language blob: the priority byte and the code's bytes,
/// without the delimiting nul.
pub struct LangEntry {
    /// The record's priority byte (informational; not interpreted here).
    pub priority: u8,
    /// The language code's bytes.
    pub code: Vec<u8>,
}

/// View of a list of raw records.
pub open spec fn entries_view(v: Seq<LangEntry>) -> Seq<(u8, Seq<u8>)> {
    v.map(|i: int, e: LangEntry| (e.priority, e.code@))
}

/// A well-formed record: a non-zero priority byte (a zero there reads as the
/// end of the list) and a non-empty, nul-free code.
pub open spec fn wf_entry(p: u8, code: Seq<u8>) -> bool {
    &&& p != 0
    &&& code.len() > 0
    &&& forall|i: int| 0 <= i < code.len() ==> code[i] != 0
}

/// The bytes of one encoded record.
pub open spec fn encode_entry(p: u8, code: Seq<u8>) -> Seq<u8> {
    seq![p] + code + seq![0u8]
}

/// The bytes of a list of encoded records, back to back.
pub open spec fn encode_entries(es: Seq<(u8, Seq<u8>)>) -> Seq<u8>
    decreases es.len(),
{
    if es.len() == 0 {
        Seq::empty()
    } else {
        encode_entries(es.drop_last()) + encode_entry(es.last().0, es.last().1)
    }
}

/// The whole blob: the encoded records, then a zero where the next priority
/// byte would start.
pub open spec fn encode_blob(es: Seq<(u8, Seq<u8>)>) -> Seq<u8> {
    encode_entries(es) + seq![0u8]
}

/// What one fed byte did.
#[derive(Debug, Clone, Copy, PartialEq, Eq, Structural)]
pub enum FeedResult {
    /// The blob continues; feed the next byte.
    More,
    /// The byte was the terminating zero; the decoded records are complete.
    Done,
    /// A zero stood where a code's first byte was expected: the blob is
    /// corrupt. Reported, never silently skipped.
    Corrupt,
}

/// The blob decoder. Feed it the blob's bytes in order until it answers
/// something other than More.
pub struct LangBlobDecoder {
    entries: Vec<LangEntry>,
    in_code: bool,
    cur_priority: u8,
    cur_code: Vec<u8>,
    done: bool,
    corrupt: bool,
    fed: Ghost<Seq<u8>>,
}

impl LangBlobDecoder {
    /// Every byte fed so far, in order.
    pub closed spec fn fed(&self) -> Seq<u8> {
        self.fed@
    }

    /// The complete records decoded so far.
    pub closed spec fn decoded(&self) -> Seq<(u8, Seq<u8>)> {
        entries_view(self.entries@)
    }

    /// Whether the terminating zero has been seen.
    pub closed spec fn is_done(&self) -> bool {
        self.done
    }

    /// Whether a malformed record has been seen.
    pub closed spec fn is_corrupt(&self) -> bool {
        self.corrupt
    }

    /// Whether the decoder stands between records, where the next byte is
    /// either the terminating zero or the next record's priority byte.
    pub closed spec fn at_record_boundary(&self) -> bool {
        !self.in_code
    }

    /// The bytes of the record being read, priority byte first.
    pub closed spec fn partial_record(&self) -> Seq<u8> {
        if self.in_code {
            seq![self.cur_priority] + self.cur_code@
        } else {
            Seq::empty()
        }
    }

    /// The decoder's invariant: the fed bytes are exactly the decoded
    /// records' encoding followed by the partial record, every decoded
    /// record is well-formed, and once done the fed bytes are a whole blob.
    pub closed spec fn wf(&self) -> bool {
        &&& !(self.done && self.corrupt)
        &&& forall|i: int|
            0 <= i < self.decoded().len() ==> wf_entry(
                self.decoded()[i].0,
                self.decoded()[i].1,
            )
        &&& !self.done && !self.corrupt ==> self.fed@ == encode_entries(self.decoded())
            + self.partial_record()
        &&& self.done ==> self.fed@ == encode_blob(self.decoded()) && !self.in_code
        &&& self.in_code ==> self.cur_priority != 0 && (forall|i: int|
            0 <= i < self.cur_code@.len() ==> self.cur_code@[i] != 0)
        &&& !self.in_code ==> self.cur_code@ == Seq::<u8>::empty()
    }

    /// A fresh decoder, at a record boundary with nothing fed.
    pub fn new() -> (r: LangBlobDecoder)
        ensures
            r.wf(),
            !r.is_done(),
            !r.is_corrupt(),
            r.fed() == Seq::<u8>::empty(),
            r.decoded() == Seq::<(u8, Seq<u8>)>::empty(),
            r.at_record_boundary(),
            r.partial_record() == Seq::<u8>::empty(),
    {
        let r = LangBlobDecoder {
            entries: Vec::new(),
            in_code: false,
            cur_priority: 0,
            cur_code: Vec::new(),
            done: false,
            corrupt: false,
            fed: Ghost(Seq::empty()),
        };
        proof {
            assert(r.decoded() =~= Seq::<(u8, Seq<u8>)>::empty());
            assert(r.fed@ =~= encode_entries(r.decoded()) + r.partial_record());
        }
        r
    }

    /// Feed the next byte of the blob.
    ///
    /// A zero at a record boundary ends the whole list; a zero right after a
    /// priority byte would make an empty code, which no well-formed blob
    /// holds, so it is reported as corruption; any other zero ends the
    /// current record.
    pub fn feed(&mut self, b: u8) -> (r: FeedResult)
        requires
            old(self).wf(),
            !old(self).is_done(),
            !old(self).is_corrupt(),
        ensures
            final(self).wf(),
            final(self).fed() == old(self).fed().push(b),
            r == FeedResult::Done <==> (b == 0 && old(self).at_record_boundary()),
            r == FeedResult::Corrupt <==> (b == 0 && !old(self).at_record_boundary() && old(
                self,
            ).partial_record().len() == 1),
            final(self).is_done() <==> r == FeedResult::Done,
            final(self).is_corrupt() <==> r == FeedResult::Corrupt,
            final(self).at_record_boundary() <==> b == 0,
            final(self).partial_record() == if b == 0 {
                Seq::<u8>::empty()
            } else {
                old(self).partial_record().push(b)
            },
            final(self).decoded() == if b == 0 && !old(self).at_record_boundary() && old(
                self,
            ).partial_record().len() >= 2 {
                old(self).decoded().push(
                    (old(self).partial_record()[0], old(self).partial_record().drop_first()),
                )
            } else {
                old(self).decoded()
            },
            final(self).is_done() ==> final(self).fed() == encode_blob(final(self).decoded()),
    {
        proof {
            self.fed@ = self.fed@.push(b);
        }
        if b == 0 {
            if !self.in_code {
                self.done = true;
                proof {
                    assert(old(self).partial_record() =~= Seq::<u8>::empty());
                    assert(self.fed@ =~= encode_blob(self.decoded()));
                }
                FeedResult::Done
            } else if self.cur_code.len() == 0 {
                self.corrupt = true;
                self.in_code = false;
                proof {
                    assert(self.cur_code@ =~= Seq::<u8>::empty());
                    assert(old(self).partial_record().len() == 1);
                }
                FeedResult::Corrupt
            } else {
                let mut code: Vec<u8> = Vec::new();
                core::mem::swap(&mut code, &mut self.cur_code);
                let p = self.cur_priority;
                self.in_code = false;
                let ghost prev = self.entries@;
                self.entries.push(LangEntry { priority: p, code });
                proof {
                    let e = (p, code@);
                    assert(entries_view(self.entries@) =~= entries_view(prev).push(e));
                    assert(old(self).partial_record() =~= seq![p] + code@);
                    assert(old(self).partial_record()[0] == p);
                    assert(old(self).partial_record().drop_first() =~= code@);
                    assert(wf_entry(e.0, e.1));
                    assert(self.decoded().drop_last() =~= entries_view(prev));
                    assert(self.decoded().last() == e);
                    assert(encode_entries(self.decoded()) == encode_entries(entries_view(prev))
                        + encode_entry(p, code@));
                    assert(self.fed@ =~= encode_entries(entries_view(prev)) + (seq![p] + code@
                        + seq![0u8]));
                    assert(self.fed@ =~= encode_entries(self.decoded()) + self.partial_record());
                }
                FeedResult::More
            }
        } else {
            if !self.in_code {
                self.in_code = true;
                self.cur_priority = b;
                proof {
                    assert(self.partial_record() =~= old(self).partial_record().push(b));
                    assert(self.fed@ =~= encode_entries(self.decoded()) + self.partial_record());
                }
                FeedResult::More
            } else {
                self.cur_code.push(b);
                proof {
                    assert(self.partial_record() =~= old(self).partial_record().push(b));
                    assert(self.fed@ =~= encode_entries(self.decoded()) + self.partial_record());
                }
                FeedResult::More
            }
        }
    }

    /// Hand out the decoded records once the terminating zero was seen.
    pub fn into_entries(self) -> (r: Vec<LangEntry>)
        requires
            self.wf(),
            self.is_done(),
        ensures
            entries_view(r@) == self.decoded(),
            self.fed() == encode_blob(entries_view(r@)),
            forall|i: int|
                0 <= i < r@.len() ==> wf_entry(r@[i].priority, r@[i].code@),
    {
        proof {
            assert forall|i: int| 0 <= i < self.entries@.len() implies wf_entry(
                self.entries@[i].priority,
                self.entries@[i].code@,
            ) by {
                assert(self.decoded()[i] == (self.entries@[i].priority, self.entries@[i].code@));
            }
        }
        self.entries
    }
}

/// One language of a voice, decoded and owned.
pub struct Language {
    /// The record's priority byte (informational; lower is preferred).
    pub priority: u8,
    /// The language code.
    pub code: String,
}

/// One voice of the catalog, copied fully into owned values before the
/// native buffers can be invalidated.
pub struct VoiceRecord {
    /// The voice's name.
    pub name: String,
    /// The voice's languages, in blob order.
    pub languages: Vec<Language>,
}

/// Fresh copy of a byte vector.
fn copy_bytes(src: &Vec<u8>) -> (r: Vec<u8>)
    ensures
        r@ == src@,
{
    let mut r: Vec<u8> = Vec::new();
    let mut i: usize = 0;
    while i < src.len()
        invariant
            i <= src@.len(),
            r@ == src@.subrange(0, i as int),
        decreases src@.len() - i,
    {
        r.push(src[i]);
        proof {
            assert(src@.subrange(0, i + 1) =~= src@.subrange(0, i as int).push(src@[i as int]));
        }
        i += 1;
    }
    proof {
        assert(src@.subrange(0, src@.len() as int) =~= src@);
    }
    r
}

/// Build one owned voice record from a voice's copied name bytes and its
/// decoded language records. Bytes that are not valid text are a catalog
/// decoding failure: they mean a native version mismatch or worse, and are
/// reported, never skipped.
pub fn make_voice_record(name_bytes: Vec<u8>, entries: &Vec<LangEntry>) -> (r: Result<
    VoiceRecord,
    EspeakError,
>)
    ensures
        r is Ok <==> valid_utf8(name_bytes@) && (forall|i: int|
            0 <= i < entries@.len() ==> valid_utf8(entries@[i].code@)),
        r matches Ok(v) ==> {
            &&& v.name@ == decode_utf8(name_bytes@)
            &&& v.languages@.len() == entries@.len()
            &&& forall|i: int|
                0 <= i < entries@.len() ==> v.languages@[i].priority == entries@[i].priority
                    && v.languages@[i].code@ == decode_utf8(entries@[i].code@)
        },
        r is Err ==> r == Err::<VoiceRecord, EspeakError>(EspeakError::CatalogDecodingError),
{
    let name = match utf8_to_string(name_bytes) {
        Some(s) => s,
        None => { return Err(EspeakError::CatalogDecodingError) },
    };
    let mut languages: Vec<Language> = Vec::new();
    let mut i: usize = 0;
    while i < entries.len()
        invariant
            i <= entries@.len(),
            languages@.len() == i,
            forall|j: int|
                0 <= j < i ==> valid_utf8(entries@[j].code@) && languages@[j].priority
                    == entries@[j].priority && languages@[j].code@ == decode_utf8(
                    entries@[j].code@,
                ),
        decreases entries@.len() - i,
    {
        let code_bytes = copy_bytes(&entries[i].code);
        let code = match utf8_to_string(code_bytes) {
            Some(s) => s,
            None => { return Err(EspeakError::CatalogDecodingError) },
        };
        languages.push(Language { priority: entries[i].priority, code });
        i += 1;
    }
    Ok(VoiceRecord { name, languages })
}

/// The names of the catalog's voices, one per record, in catalog order: as
/// many names as the catalog has records.
pub fn voice_names(catalog: &Vec<VoiceRecord>) -> (r: Vec<String>)
    ensures
        r@.len() == catalog@.len(),
        forall|i: int| 0 <= i < r@.len() ==> r@[i]@ == catalog@[i].name@,
{
    let mut r: Vec<String> = Vec::new();
    let mut i: usize = 0;
    while i < catalog.len()
        invariant
            i <= catalog@.len(),
            r@.len() == i,
            forall|j: int| 0 <= j < i ==> r@[j]@ == catalog@[j].name@,
        decreases catalog@.len() - i,
    {
        r.push(catalog[i].name.clone());
        i += 1;
    }
    r
}

/// The code views of one voice's languages, in blob order.
pub open spec fn language_codes(ls: Seq<Language>) -> Seq<Seq<char>> {
    ls.map(|i: int, l: Language| l.code@)
}

/// All language codes across the catalog, flattened in voice order then blob
/// order, duplicates kept.
pub open spec fn flat_codes(cat: Seq<VoiceRecord>) -> Seq<Seq<char>>
    decreases cat.len(),
{
    if cat.len() == 0 {
        Seq::empty()
    } else {
        flat_codes(cat.drop_last()) + language_codes(cat.last().languages@)
    }
}

/// The views of a list of owned strings.
pub open spec fn string_views(v: Seq<String>) -> Seq<Seq<char>> {
    v.map(|i: int, s: String| s@)
}

/// Every language code of every voice of the catalog, flattened.
pub fn list_language_codes(catalog: &Vec<VoiceRecord>) -> (r: Vec<String>)
    ensures
        string_views(r@) == flat_codes(catalog@),
{
    let mut r: Vec<String> = Vec::new();
    let mut i: usize = 0;
    proof {
        assert(string_views(r@) =~= flat_codes(catalog@.subrange(0, 0)));
    }
    while i < catalog.len()
        invariant
            i <= catalog@.len(),
            string_views(r@) == flat_codes(catalog@.subrange(0, i as int)),
        decreases catalog@.len() - i,
    {
        let voice = &catalog[i];
        let mut k: usize = 0;
        while k < voice.languages.len()
            invariant
                i < catalog@.len(),
                k <= voice.languages@.len(),
                voice == catalog@[i as int],
                string_views(r@) == flat_codes(catalog@.subrange(0, i as int)) + language_codes(
                    voice.languages@.subrange(0, k as int),
                ),
            decreases voice.languages@.len() - k,
        {
            let ghost prev = r@;
            r.push(voice.languages[k].code.clone());
            proof {
                assert(string_views(r@) =~= string_views(prev).push(r@.last()@));
                assert(language_codes(voice.languages@.subrange(0, k + 1)) =~= language_codes(
                    voice.languages@.subrange(0, k as int),
                ).push(voice.languages@[k as int].code@));
                assert(string_views(r@) =~= flat_codes(catalog@.subrange(0, i as int))
                    + language_codes(voice.languages@.subrange(0, k + 1)));
            }
            k += 1;
        }
        proof {
            let sub = catalog@.subrange(0, i + 1);
            assert(sub.drop_last() =~= catalog@.subrange(0, i as int));
            assert(sub.last() == catalog@[i as int]);
            assert(voice.languages@.subrange(0, voice.languages@.len() as int)
                =~= voice.languages@);
            assert(string_views(r@) == flat_codes(catalog@.subrange(0, i + 1)));
        }
        i += 1;
    }
    proof {
        assert(catalog@.subrange(0, catalog@.len() as int) =~= catalog@);
    }
    r
}

} // verus!
