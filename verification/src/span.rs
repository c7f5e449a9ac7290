//! Source ranges: where a token or a syntax node sits in its source text.

use vstd::prelude::*;

verus! {

/// A range of one source text, from the byte offset where it starts to the
/// byte offset where it ends. The start never lies behind the end.
#[derive(Clone, Copy, Debug, PartialEq, Eq, Structural, Hash)]
pub struct Span {
    pub(crate) source: u16,
    pub(crate) start: u32,
    pub(crate) end: u32,
}

impl Span {
    /// Every span that executable code holds is ordered.
    #[verifier::type_invariant]
    pub open spec fn ordered(self) -> bool {
        self.spec_start() <= self.spec_end()
    }

    pub open(crate) spec fn spec_source(self) -> u16 {
        self.source
    }

    pub open(crate) spec fn spec_start(self) -> u32 {
        self.start
    }

    pub open(crate) spec fn spec_end(self) -> u32 {
        self.end
    }

    /// The span of `source` that runs from `start` to `end`.
    pub open(crate) spec fn spec_of(source: u16, start: u32, end: u32) -> Span {
        Span { source, start, end }
    }

    /// A span has the source, the start and the end it was made of. The
    /// fields are hidden from code outside this crate: this and the next
    /// law are what such code knows of them.
    pub proof fn law_parts_of_a_span(source: u16, start: u32, end: u32)
        ensures
            Span::spec_of(source, start, end).spec_source() == source,
            Span::spec_of(source, start, end).spec_start() == start,
            Span::spec_of(source, start, end).spec_end() == end,
    {
    }

    /// Two spans with the same source, start and end are the same span.
    pub proof fn law_same_parts_same_span(self, other: Span)
        requires
            self.spec_source() == other.spec_source(),
            self.spec_start() == other.spec_start(),
            self.spec_end() == other.spec_end(),
        ensures
            self == other,
    {
    }

    /// The span from `start` to `end`, or nothing where `end` lies before `start`.
    pub fn new(source: u16, start: u32, end: u32) -> (span: Option<Span>)
        ensures
            span == if start <= end {
                Some(Span::spec_of(source, start, end))
            } else {
                None
            },
            span matches Some(made) ==> made.spec_source() == source && made.spec_start() == start
                && made.spec_end() == end,
    {
        if start <= end {
            Some(Span { source, start, end })
        } else {
            None
        }
    }

    /// The empty span at the start of source 0.
    pub open(crate) spec fn spec_zero() -> Span {
        Span { source: 0, start: 0, end: 0 }
    }

    #[verifier::when_used_as_spec(spec_zero)]
    pub fn zero() -> (span: Span)
        ensures
            span == Span::spec_zero(),
            span == Span::spec_of(0, 0, 0),
            span.spec_source() == 0 && span.spec_start() == 0 && span.spec_end() == 0,
    {
        Span { source: 0, start: 0, end: 0 }
    }

    #[verifier::when_used_as_spec(spec_source)]
    pub fn source(self) -> (source: u16)
        ensures
            source == self.spec_source(),
    {
        self.source
    }

    #[verifier::when_used_as_spec(spec_start)]
    pub fn start(self) -> (start: u32)
        ensures
            start == self.spec_start(),
    {
        self.start
    }

    #[verifier::when_used_as_spec(spec_end)]
    pub fn end(self) -> (end: u32)
        ensures
            end == self.spec_end(),
    {
        self.end
    }

    /// Whether `other` lies wholly inside this span.
    pub open spec fn covers(self, other: Span) -> bool {
        self.spec_start() <= other.spec_start() && other.spec_end() <= self.spec_end()
    }

    /// The empty span at the end of this one.
    pub open spec fn spec_end_point(self) -> Span {
        Span::spec_of(self.spec_source(), self.spec_end(), self.spec_end())
    }

    #[verifier::when_used_as_spec(spec_end_point)]
    pub fn end_point(self) -> (point: Span)
        ensures
            point == self.spec_end_point(),
            point.spec_source() == self.spec_source(),
            point.spec_start() == self.spec_end(),
            point.spec_end() == self.spec_end(),
    {
        Span { source: self.source, start: self.end, end: self.end }
    }

    /// The smallest span that covers both, in the source of the first.
    pub open spec fn spec_merge(self, other: Span) -> Span {
        Span::spec_of(
            self.spec_source(),
            if self.spec_start() <= other.spec_start() {
                self.spec_start()
            } else {
                other.spec_start()
            },
            if self.spec_end() >= other.spec_end() {
                self.spec_end()
            } else {
                other.spec_end()
            },
        )
    }

    #[verifier::when_used_as_spec(spec_merge)]
    pub fn merge(self, other: Span) -> (merged: Span)
        ensures
            merged == self.spec_merge(other),
            merged.spec_source() == self.spec_source(),
            merged.spec_start() == if self.spec_start() <= other.spec_start() {
                self.spec_start()
            } else {
                other.spec_start()
            },
            merged.spec_end() == if self.spec_end() >= other.spec_end() {
                self.spec_end()
            } else {
                other.spec_end()
            },
    {
        proof {
            use_type_invariant(self);
            use_type_invariant(other);
        }
        let start: u32 = if self.start <= other.start {
            self.start
        } else {
            other.start
        };
        let end: u32 = if self.end >= other.end {
            self.end
        } else {
            other.end
        };
        Span { source: self.source, start, end }
    }

    /// The span of a construct whose optional leading token may reach further
    /// left: with such a token the span starts where the token starts and
    /// covers both, without one it is `existing` as it stands.
    pub open spec fn spec_leftmost_override(existing: Span, maybe_earlier: Option<Span>) -> Span {
        match maybe_earlier {
            Some(earlier) => Span::spec_of(
                existing.spec_source(),
                earlier.spec_start(),
                if existing.spec_end() >= earlier.spec_end() {
                    existing.spec_end()
                } else {
                    earlier.spec_end()
                },
            ),
            None => existing,
        }
    }

    #[verifier::when_used_as_spec(spec_leftmost_override)]
    pub fn leftmost_override(existing: Span, maybe_earlier: Option<Span>) -> (span: Span)
        ensures
            span == Span::spec_leftmost_override(existing, maybe_earlier),
            span.spec_source() == existing.spec_source(),
            span.spec_start() == match maybe_earlier {
                Some(earlier) => earlier.spec_start(),
                None => existing.spec_start(),
            },
            span.spec_end() == match maybe_earlier {
                Some(earlier) => if existing.spec_end() >= earlier.spec_end() {
                    existing.spec_end()
                } else {
                    earlier.spec_end()
                },
                None => existing.spec_end(),
            },
    {
        match maybe_earlier {
            Some(earlier) => {
                proof {
                    use_type_invariant(existing);
                    use_type_invariant(earlier);
                }
                let end: u32 = if existing.end >= earlier.end {
                    existing.end
                } else {
                    earlier.end
                };
                Span { source: existing.source, start: earlier.start, end }
            },
            None => existing,
        }
    }

    /// A merged span covers both of its parts, and is ordered where they are.
    pub proof fn lemma_merge_covers(self, other: Span)
        ensures
            self.spec_merge(other).covers(self),
            self.spec_merge(other).covers(other),
            self.spec_merge(other).spec_source() == self.spec_source(),
            self.ordered() || other.ordered() ==> self.spec_merge(other).ordered(),
    {
    }

    /// A merged span is the least one: whatever covers both parts covers it.
    pub proof fn law_merge_is_least(self, other: Span, cover: Span)
        requires
            cover.covers(self),
            cover.covers(other),
        ensures
            cover.covers(self.spec_merge(other)),
    {
    }

    /// Merging does not depend on the order of the parts, but for the source.
    pub proof fn law_merge_commutes(self, other: Span)
        ensures
            self.spec_merge(other).spec_start() == other.spec_merge(self).spec_start(),
            self.spec_merge(other).spec_end() == other.spec_merge(self).spec_end(),
    {
    }

    /// A span merged with itself, or with a span it covers, is unchanged.
    pub proof fn law_merge_absorbs(self, other: Span)
        requires
            self.covers(other),
        ensures
            self.spec_merge(other) == self,
    {
    }

    /// With a leading token the span starts at that token, and still reaches
    /// the end of what it had; without one nothing changes.
    pub proof fn lemma_leftmost_override(existing: Span, maybe_earlier: Option<Span>)
        ensures
            maybe_earlier matches Some(earlier) ==> Span::spec_leftmost_override(
                existing,
                maybe_earlier,
            ).spec_start() == earlier.spec_start(),
            maybe_earlier matches Some(earlier) ==> Span::spec_leftmost_override(
                existing,
                maybe_earlier,
            ).spec_end() >= existing.spec_end(),
            maybe_earlier matches Some(earlier) ==> Span::spec_leftmost_override(
                existing,
                maybe_earlier,
            ).spec_end() >= earlier.spec_end(),
            maybe_earlier is None ==> Span::spec_leftmost_override(existing, maybe_earlier)
                == existing,
            Span::spec_leftmost_override(existing, maybe_earlier).spec_source()
                == existing.spec_source(),
    {
    }
}

} // verus!
