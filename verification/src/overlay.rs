//! The annotation overlay: one byte per byte of the tiled buffer, marked
//! wherever an annotation's span lies.
//!
//! The overlay takes a span as the half-open range `start .. end`. The
//! store's point query counts `end` as inside; the overlay does not.

use vstd::prelude::*;
use crate::annotation::{Annotation, AnnotationModel, AnnotationStore};

verus! {

/// The byte that marks an annotated offset.
pub const ANNOTATION_MARK: u8 = 0x66;

/// Tells whether the span of some entry holds `offset`.
pub open spec fn marked(entries: Seq<AnnotationModel>, offset: int) -> bool {
    exists|i: int| 0 <= i < entries.len() && (#[trigger] entries[i]).marks(offset)
}

/// The overlay with the mark at every offset that some entry's span holds.
/// What lies past the end of the overlay is not drawn.
pub open spec fn painted(overlay: Seq<u8>, entries: Seq<AnnotationModel>) -> Seq<u8> {
    Seq::new(
        overlay.len(),
        |n: int|
            if marked(entries, n) {
                ANNOTATION_MARK
            } else {
                overlay[n]
            },
    )
}

/// Marks the spans of all annotations of `store` in `overlay`.
pub fn paint_annotations<A: Annotation>(overlay: &mut Vec<u8>, store: &AnnotationStore<A>)
    ensures
        final(overlay)@ == painted(old(overlay)@, store@),
{
    let count: usize = store.len();
    let mut i: usize = 0;
    while i < count
        invariant
            count == store@.len(),
            i <= count,
            overlay@.len() == old(overlay)@.len(),
            forall|m: int|
                0 <= m < overlay@.len() ==> overlay@[m] == if marked(store@.take(i as int), m) {
                    ANNOTATION_MARK
                } else {
                    old(overlay)@[m]
                },
        decreases count - i,
    {
        match store.get(i) {
            Some(a) => {
                let span = a.span();
                let stop: usize = if span.1 < overlay.len() {
                    span.1
                } else {
                    overlay.len()
                };
                let mut n: usize = span.0;
                while n < stop
                    invariant
                        stop <= overlay@.len(),
                        overlay@.len() == old(overlay)@.len(),
                        span.0 <= n,
                        n <= stop || n == span.0,
                        forall|m: int|
                            0 <= m < overlay@.len() ==> overlay@[m] == if marked(
                                store@.take(i as int),
                                m,
                            ) || (span.0 <= m < n) {
                                ANNOTATION_MARK
                            } else {
                                old(overlay)@[m]
                            },
                    decreases stop - n,
                {
                    overlay.set(n, ANNOTATION_MARK);
                    n = n + 1;
                }
                proof {
                    let before = store@.take(i as int);
                    let after = store@.take(i + 1);
                    assert forall|m: int| 0 <= m < overlay@.len() implies (marked(after, m) <==> (
                    marked(before, m) || (span.0 <= m < n))) by {
                        lemma_marked_push(store@, i as int, m);
                        assert(store@[i as int].marks(m) <==> (span.0 <= m < n));
                    }
                }
            },
            None => {},
        }
        i = i + 1;
    }
    assert(store@.take(i as int) =~= store@);
    assert(overlay@ =~= painted(old(overlay)@, store@));
}

/// One more entry marks what the entries before it mark and what its own span holds.
pub proof fn lemma_marked_push(entries: Seq<AnnotationModel>, i: int, offset: int)
    requires
        0 <= i < entries.len(),
    ensures
        marked(entries.take(i + 1), offset) <==> (marked(entries.take(i), offset)
            || entries[i].marks(offset)),
{
    let before = entries.take(i);
    let after = entries.take(i + 1);
    if marked(after, offset) {
        let k = choose|k: int| 0 <= k < after.len() && (#[trigger] after[k]).marks(offset);
        if k < i {
            assert(before[k].marks(offset));
        }
    }
    if marked(before, offset) {
        let k = choose|k: int| 0 <= k < before.len() && (#[trigger] before[k]).marks(offset);
        assert(after[k].marks(offset));
    }
    if entries[i].marks(offset) {
        assert(after[i].marks(offset));
    }
}

} // verus!
