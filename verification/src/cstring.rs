//! The finder of C strings: runs of printable ASCII that a null byte ends.
//!
//! A run is a maximal stretch of text bytes. A run that a null byte ends and
//! that is longer than `MIN_STR_LEN` becomes an annotation that spans the run
//! and its terminator. A run that any other byte ends is dropped.

use vstd::prelude::*;
use vstd::slice::slice_subrange;
use vstd::utf8::{
    decode_utf8,
    encode_utf8,
    encode_utf8_decode_utf8,
    encode_utf8_valid_utf8,
    is_ascii_chars,
    is_ascii_chars_encode_utf8,
    valid_utf8,
};
use crate::annotation::{Annotation, AnnotationKind, AnnotationModel, AnnotationStore};

verus! {

/// A run has to be longer than this to be annotated.
pub const MIN_STR_LEN: usize = 4;

/// The confidence of every C string annotation: the highest.
pub const FULL_CONFIDENCE: u8 = 255;

/// Text bytes: printable ASCII (0x20 to 0x7e), tab and line feed. Every other
/// byte ends a run, carriage return among them.
pub open spec fn is_text_byte(b: u8) -> bool {
    b == 9 || b == 10 || (0x20 <= b && b <= 0x7e)
}

/// The text that bytes below 0x80 spell: one character per byte.
pub open spec fn ascii_text(bytes: Seq<u8>) -> Seq<char> {
    bytes.map_values(|b: u8| b as char)
}

/// Where the run of text bytes that ends just before `i` starts; `i` itself
/// where no text byte stands before `i`.
pub open spec fn run_start(data: Seq<u8>, i: int) -> int
    decreases i,
{
    if 0 < i <= data.len() && is_text_byte(data[i - 1]) {
        run_start(data, i - 1)
    } else {
        i
    }
}

/// Tells whether a C string ends at `i`: a null byte stands there, after a
/// run of more than `MIN_STR_LEN` text bytes.
pub open spec fn c_string_ends_at(data: Seq<u8>, i: int) -> bool {
    0 <= i < data.len() && data[i] == 0 && i - run_start(data, i) > MIN_STR_LEN
}

/// The annotation of the C string that ends at `i`.
pub open spec fn c_string_at(data: Seq<u8>, i: int) -> AnnotationModel {
    AnnotationModel {
        start: run_start(data, i),
        end: i + 1,
        text: ascii_text(data.subrange(run_start(data, i), i)),
        kind: AnnotationKind::AsciiString,
        confidence: FULL_CONFIDENCE as int,
    }
}

/// The annotations of the C strings that end before `n`, by rising position.
pub open spec fn c_strings_upto(data: Seq<u8>, n: int) -> Seq<AnnotationModel>
    decreases n,
{
    if n <= 0 {
        Seq::empty()
    } else if c_string_ends_at(data, n - 1) {
        c_strings_upto(data, n - 1).push(c_string_at(data, n - 1))
    } else {
        c_strings_upto(data, n - 1)
    }
}

/// The annotations of all C strings in `data`, by rising position.
pub open spec fn c_strings(data: Seq<u8>) -> Seq<AnnotationModel> {
    c_strings_upto(data, data.len() as int)
}

/// Tells whether a byte continues a run.
pub fn text_byte(b: u8) -> (is_text: bool)
    ensures
        is_text == is_text_byte(b),
{
    b == 9 || b == 10 || (0x20 <= b && b <= 0x7e)
}

/// Decodes bytes with `String::from_utf8_lossy`. Stated of it: bytes that are
/// valid UTF-8 decode to the characters that they encode. What it puts in
/// place of invalid bytes is left open.
#[verifier::external_body]
fn decode_lossy(bytes: &[u8]) -> (text: String)
    ensures
        valid_utf8(bytes@) ==> text@ == decode_utf8(bytes@),
{
    String::from_utf8_lossy(bytes).into_owned()
}

/// An annotation of a C string.
pub struct CStringAnnotation {
    /// First byte of the run.
    pub start: usize,
    /// One past the terminator.
    pub end: usize,
    /// The run, as text.
    pub contents: String,
}

impl Annotation for CStringAnnotation {
    open spec fn model(&self) -> AnnotationModel {
        AnnotationModel {
            start: self.start as int,
            end: self.end as int,
            text: self.contents@,
            kind: AnnotationKind::AsciiString,
            confidence: FULL_CONFIDENCE as int,
        }
    }

    fn span(&self) -> (span: (usize, usize)) {
        (self.start, self.end)
    }

    fn comments(&self) -> (text: &str) {
        self.contents.as_str()
    }

    fn type_str(&self) -> (name: &str) {
        "ASCII String"
    }

    fn confidence(&self) -> (confidence: u8) {
        FULL_CONFIDENCE
    }
}

/// A finder of annotations in raw bytes.
pub trait AnnotationEngine: Sized {
    /// The annotations that the engine makes.
    type Found: Annotation;

    /// What the engine finds in `raw_data`. The scan is a function of the bytes alone.
    spec fn finds(&self, raw_data: Seq<u8>) -> Seq<AnnotationModel>;

    /// An engine.
    fn new() -> Self;

    /// Scans `raw_data` and returns a fresh store of what was found.
    fn build_annotations(&self, raw_data: &[u8]) -> (store: AnnotationStore<Self::Found>)
        ensures
            store@ == self.finds(raw_data@),
    ;
}

/// The finder of C strings.
pub struct CStringAnnotationEngine {}

impl AnnotationEngine for CStringAnnotationEngine {
    type Found = CStringAnnotation;

    open spec fn finds(&self, raw_data: Seq<u8>) -> Seq<AnnotationModel> {
        c_strings(raw_data)
    }

    fn new() -> Self {
        CStringAnnotationEngine {  }
    }

    fn build_annotations(&self, raw_data: &[u8]) -> (store: AnnotationStore<CStringAnnotation>)
        ensures
            store.title_view() == "C Strings"@,
    {
        let mut annotations: AnnotationStore<CStringAnnotation> = AnnotationStore::new("C Strings");
        let mut start: Option<usize> = None;
        let mut idx: usize = 0;
        while idx < raw_data.len()
            invariant
                idx <= raw_data.len(),
                annotations@ == c_strings_upto(raw_data@, idx as int),
                annotations.title_view() == "C Strings"@,
                start == if run_start(raw_data@, idx as int) < idx {
                    Some(run_start(raw_data@, idx as int) as usize)
                } else {
                    None::<usize>
                },
                0 <= run_start(raw_data@, idx as int) <= idx,
            decreases raw_data.len() - idx,
        {
            let c = raw_data[idx];
            if c == 0 {
                match start {
                    Some(w) => {
                        if idx - w > MIN_STR_LEN {
                            let run = slice_subrange(raw_data, w, idx);
                            proof {
                                assert forall|k: int| 0 <= k < run@.len() implies run@[k]
                                    < 0x80 by {
                                    lemma_run_is_text(raw_data@, idx as int, w + k);
                                }
                                lemma_ascii_decodes(run@);
                            }
                            let a = CStringAnnotation {
                                start: w,
                                end: idx + 1,
                                contents: decode_lossy(run),
                            };
                            assert(a.model() == c_string_at(raw_data@, idx as int));
                            annotations.insert(a);
                        }
                    },
                    None => {},
                }
                start = None;
            } else if !text_byte(c) {
                start = None;
            } else if start.is_none() {
                start = Some(idx);
            }
            idx = idx + 1;
        }
        annotations
    }
}

/// Bytes below 0x80 are valid UTF-8 and decode to one character each.
pub proof fn lemma_ascii_decodes(bytes: Seq<u8>)
    requires
        forall|k: int| 0 <= k < bytes.len() ==> bytes[k] < 0x80,
    ensures
        valid_utf8(bytes),
        decode_utf8(bytes) == ascii_text(bytes),
{
    let chars = ascii_text(bytes);
    assert(is_ascii_chars(chars));
    is_ascii_chars_encode_utf8(chars);
    assert(encode_utf8(chars) =~= bytes);
    encode_utf8_valid_utf8(chars);
    encode_utf8_decode_utf8(chars);
}

/// A run starts at or before the place where it ends.
pub proof fn lemma_run_start_bounds(data: Seq<u8>, i: int)
    requires
        0 <= i <= data.len(),
    ensures
        0 <= run_start(data, i) <= i,
    decreases i,
{
    if 0 < i && is_text_byte(data[i - 1]) {
        lemma_run_start_bounds(data, i - 1);
    }
}

/// A run holds text bytes only.
pub proof fn lemma_run_is_text(data: Seq<u8>, i: int, k: int)
    requires
        0 <= i <= data.len(),
        run_start(data, i) <= k < i,
    ensures
        is_text_byte(data[k]),
    decreases i,
{
    if 0 < i && is_text_byte(data[i - 1]) {
        if k < i - 1 {
            lemma_run_is_text(data, i - 1, k);
        }
    }
}

/// A run is maximal: no text byte stands just before it.
pub proof fn lemma_run_is_maximal(data: Seq<u8>, i: int)
    requires
        0 <= i <= data.len(),
    ensures
        run_start(data, i) == 0 || !is_text_byte(data[run_start(data, i) - 1]),
    decreases i,
{
    if 0 < i && is_text_byte(data[i - 1]) {
        lemma_run_is_maximal(data, i - 1);
    }
}

/// A run does not reach back over a byte that is no text byte.
pub proof fn lemma_run_starts_after(data: Seq<u8>, i: int, k: int)
    requires
        0 <= k < i <= data.len(),
        !is_text_byte(data[k]),
    ensures
        k < run_start(data, i),
    decreases i,
{
    if is_text_byte(data[i - 1]) {
        lemma_run_starts_after(data, i - 1, k);
    }
}

/// Every annotation of the scan is the C string that ends at its last byte:
/// it lies inside the data, holds a run of more than `MIN_STR_LEN` text bytes
/// and ends with the null byte.
pub proof fn lemma_c_strings_shape(data: Seq<u8>, n: int, i: int)
    requires
        0 <= n <= data.len(),
        0 <= i < c_strings_upto(data, n).len(),
    ensures
        ({
            let found = c_strings_upto(data, n)[i];
            &&& 0 <= found.start
            &&& found.start + MIN_STR_LEN + 1 < found.end <= n
            &&& c_string_ends_at(data, found.end - 1)
            &&& found == c_string_at(data, found.end - 1)
        }),
    decreases n,
{
    if n > 0 {
        let before = c_strings_upto(data, n - 1);
        if i < before.len() {
            lemma_c_strings_shape(data, n - 1, i);
        } else {
            lemma_run_start_bounds(data, n - 1);
        }
    }
}

/// The annotations of the scan do not overlap, and stand by rising position.
pub proof fn lemma_c_strings_disjoint(data: Seq<u8>, n: int, i: int, j: int)
    requires
        0 <= n <= data.len(),
        0 <= i < j < c_strings_upto(data, n).len(),
    ensures
        c_strings_upto(data, n)[i].end <= c_strings_upto(data, n)[j].start,
    decreases n,
{
    if n > 0 {
        let before = c_strings_upto(data, n - 1);
        if j < before.len() {
            lemma_c_strings_disjoint(data, n - 1, i, j);
        } else {
            lemma_c_strings_shape(data, n - 1, i);
            let earlier = before[i];
            lemma_run_starts_after(data, n - 1, earlier.end - 1);
        }
    }
}

/// The scan misses nothing: the C string that ends at `k` is among the
/// annotations of every scan that reaches past `k`.
pub proof fn lemma_c_strings_complete(data: Seq<u8>, n: int, k: int)
    requires
        0 <= k < n <= data.len(),
        c_string_ends_at(data, k),
    ensures
        c_strings_upto(data, n).contains(c_string_at(data, k)),
    decreases n,
{
    let found = c_strings_upto(data, n);
    if k == n - 1 {
        assert(found[found.len() - 1] == c_string_at(data, k));
    } else {
        lemma_c_strings_complete(data, n - 1, k);
        let before = c_strings_upto(data, n - 1);
        let at = choose|at: int| 0 <= at < before.len() && before[at] == c_string_at(data, k);
        assert(found[at] == c_string_at(data, k));
    }
}

} // verus!
