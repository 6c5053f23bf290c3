//! Annotations: spans of interest in a buffer, the store that holds them and
//! the scan that finds null-terminated runs of printable ASCII.
//!
//! A span is the half-open byte range `start .. end`. The point query of the
//! store nevertheless counts `end` itself as inside the span.

use vstd::prelude::*;

verus! {

/// What an annotation marks.
#[derive(Clone, Copy, Debug, PartialEq, Eq, Structural)]
pub enum AnnotationKind {
    /// A run of printable ASCII that a null byte ends.
    AsciiString,
}

/// The mathematical model of an annotation.
pub struct AnnotationModel {
    /// First byte of the span.
    pub start: int,
    /// One past the last byte of the span.
    pub end: int,
    /// The comment shown for the span.
    pub text: Seq<char>,
    /// What the span marks.
    pub kind: AnnotationKind,
    /// How sure the finder is, from 0 to 255.
    pub confidence: int,
}

impl AnnotationModel {
    /// The point query's notion of "inside": both ends count.
    pub open spec fn covers(self, point: int) -> bool {
        self.start <= point <= self.end
    }

    /// The overlay's notion of "inside": the half-open span.
    pub open spec fn marks(self, offset: int) -> bool {
        self.start <= offset < self.end
    }
}

/// The name under which a kind is shown.
pub open spec fn kind_name(kind: AnnotationKind) -> Seq<char> {
    match kind {
        AnnotationKind::AsciiString => "ASCII String"@,
    }
}

/// A span of interest with its comment.
pub trait Annotation {
    /// What the annotation is.
    spec fn model(&self) -> AnnotationModel;

    /// The span, as `(start, end)`.
    fn span(&self) -> (span: (usize, usize))
        ensures
            span.0 == self.model().start,
            span.1 == self.model().end,
    ;

    /// The comment.
    fn comments(&self) -> (text: &str)
        ensures
            text@ == self.model().text,
    ;

    /// The name of the annotation's kind.
    fn type_str(&self) -> (name: &str)
        ensures
            name@ == kind_name(self.model().kind),
    ;

    /// How sure the finder is.
    fn confidence(&self) -> (confidence: u8)
        ensures
            confidence == self.model().confidence,
    ;
}

/// The models of a sequence of annotations, in order.
pub open spec fn models<A: Annotation>(items: Seq<A>) -> Seq<AnnotationModel> {
    items.map_values(|a: A| a.model())
}

/// The models of a sequence of borrowed annotations, in order.
pub open spec fn models_of_refs<A: Annotation>(items: Seq<&A>) -> Seq<AnnotationModel> {
    items.map_values(|a: &A| a.model())
}

/// The annotations that a sequence of borrows points to, in order.
pub open spec fn referents<A>(items: Seq<&A>) -> Seq<A> {
    items.map_values(|a: &A| *a)
}

/// The entries of `entries` whose span covers `point`, in order.
pub open spec fn hits(entries: Seq<AnnotationModel>, point: int) -> Seq<AnnotationModel> {
    entries.filter(|m: AnnotationModel| m.covers(point))
}

/// Annotations in the order in which they were inserted, under a title.
pub struct AnnotationStore<A: Annotation> {
    v: Vec<A>,
    title: String,
}

impl<A: Annotation> View for AnnotationStore<A> {
    type V = Seq<AnnotationModel>;

    open spec fn view(&self) -> Seq<AnnotationModel> {
        models(self.entries())
    }
}

impl<A: Annotation> AnnotationStore<A> {
    /// The annotations themselves, in the order of insertion.
    pub closed spec fn entries(&self) -> Seq<A> {
        self.v@
    }

    /// The title of the store.
    pub closed spec fn title_view(&self) -> Seq<char> {
        self.title@
    }

    /// An empty store.
    pub fn new(title: &str) -> (store: AnnotationStore<A>)
        ensures
            store.entries() == Seq::<A>::empty(),
            store@ == Seq::<AnnotationModel>::empty(),
            store.title_view() == title@,
    {
        let store = AnnotationStore { v: Vec::<A>::new(), title: title.to_owned() };
        assert(store@ =~= Seq::<AnnotationModel>::empty());
        store
    }

    /// Appends an annotation. Nothing is merged or reordered.
    pub fn insert(&mut self, a: A)
        ensures
            final(self).entries() == old(self).entries().push(a),
            final(self)@ == old(self)@.push(a.model()),
            final(self).title_view() == old(self).title_view(),
    {
        self.v.push(a);
        assert(self@ =~= old(self)@.push(a.model()));
    }

    /// The annotations whose span covers `point`, both ends counted, in the
    /// order of insertion.
    pub fn query<'a>(&'a self, point: usize) -> (found: Vec<&'a A>)
        ensures
            referents(found@) == self.entries().filter(|a: A| a.model().covers(point as int)),
            models_of_refs(found@) == hits(self@, point as int),
    {
        let mut found: Vec<&'a A> = Vec::new();
        let mut i: usize = 0;
        let ghost covering = |a: A| a.model().covers(point as int);
        let ghost covered = |m: AnnotationModel| m.covers(point as int);
        assert(self.v@.take(0) =~= Seq::<A>::empty());
        assert(referents(found@) =~= self.v@.take(0).filter(covering));
        assert(models_of_refs(found@) =~= models(self.v@.take(0)).filter(covered));
        while i < self.v.len()
            invariant
                i <= self.v.len(),
                covering == |a: A| a.model().covers(point as int),
                covered == |m: AnnotationModel| m.covers(point as int),
                referents(found@) == self.v@.take(i as int).filter(covering),
                models_of_refs(found@) == models(self.v@.take(i as int)).filter(covered),
            decreases self.v.len() - i,
        {
            let a: &'a A = &self.v[i];
            let span = a.span();
            proof {
                let before = self.v@.take(i as int);
                assert(self.v@.take(i + 1) =~= before.push(*a));
                assert(models(self.v@.take(i + 1)) =~= models(before).push(a.model()));
                before.lemma_filter_push(*a, covering);
                models(before).lemma_filter_push(a.model(), covered);
            }
            if point >= span.0 && point <= span.1 {
                let ghost earlier = found@;
                found.push(a);
                assert(referents(found@) =~= referents(earlier).push(*a));
                assert(models_of_refs(found@) =~= models_of_refs(earlier).push(a.model()));
            }
            i = i + 1;
        }
        assert(self.v@.take(i as int) =~= self.v@);
        found
    }

    /// Walks the annotations in the order of insertion.
    pub fn iter(&self) -> (it: std::slice::Iter<'_, A>)
        ensures
            vstd::std_specs::slice::into_iter_elts(it) == self.entries(),
    {
        let it = self.v.iter();
        assert(vstd::std_specs::slice::into_iter_elts(it) =~= self.v@);
        it
    }

    /// Number of annotations.
    pub fn len(&self) -> (n: usize)
        ensures
            n == self.entries().len(),
            n == self@.len(),
    {
        self.v.len()
    }

    /// The annotation inserted as number `i`, if there are that many.
    pub fn get(&self, i: usize) -> (a: Option<&A>)
        ensures
            match a {
                Some(a) => i < self.entries().len() && *a == self.entries()[i as int],
                None => i >= self.entries().len(),
            },
    {
        if i < self.v.len() {
            Some(&self.v[i])
        } else {
            None
        }
    }

    /// The title of the store.
    pub fn title(&self) -> (title: &str)
        ensures
            title@ == self.title_view(),
    {
        self.title.as_str()
    }
}

impl<A: Annotation> IntoIterator for AnnotationStore<A> {
    type Item = A;

    type IntoIter = std::vec::IntoIter<A>;

    /// Hands the annotations out in the order of insertion.
    fn into_iter(self) -> (it: std::vec::IntoIter<A>)
        ensures
            vstd::std_specs::iter::IteratorSpec::remaining(&it) == self.entries(),
    {
        self.v.into_iter()
    }
}

} // verus!
