//! The protocol that every syntax node follows: it can be parsed from a
//! token stream, printed to a buffer, and asked where it stood in the source.

use crate::errors::ParseError;
use crate::span::Span;
use crate::state::{IdCounters, ParseSettings, ParsingState, ToStringSettings};
use crate::tokens::{Token, TokenReader};
use vstd::prelude::*;

verus! {

/// What parsing a node at one place of a token sequence comes to.
pub enum Parsed<V> {
    /// The node, the place behind its last token, and the identifier
    /// counters after it.
    Accepted { value: V, next: int, ids: IdCounters },
    /// The failure, the place of the token that was not accepted, and the
    /// identifier counters at that place.
    Rejected { error: ParseError, place: int, counters: IdCounters },
}

impl<V> Parsed<V> {
    /// An accepted parse that started at `at` with the counters `ids` ends
    /// inside the tokens, not before `at`, and has handed out at most one
    /// identifier of each sort for each token it consumed.
    pub open spec fn advances(self, tokens: Seq<Token>, at: int, ids: IdCounters) -> bool {
        self matches Parsed::Accepted { next, ids: after, .. } ==> at <= next <= tokens.len()
            && ids.within(after, next - at)
    }
}

/// Whether a call that returned `result` and left the reader at `to` and
/// the counters at `after` did what `model` says: on success the node, on
/// failure the error, and either way the place of the reader and the
/// counters are those of the model.
pub open spec fn carried_out<T: View>(
    model: Parsed<T::V>,
    result: Result<T, ParseError>,
    to: int,
    after: IdCounters,
) -> bool {
    match model {
        Parsed::Accepted { value, next, ids } => {
            &&& result matches Ok(node)
            &&& node@ == value
            &&& to == next
            &&& after == ids
        },
        Parsed::Rejected { error, place, counters } => {
            &&& result matches Err(found)
            &&& found == error
            &&& to == place
            &&& after == counters
        },
    }
}

/// A syntax node.
pub trait ASTNode: Sized + View {
    /// What `from_reader` does at place `at` of `tokens`, the pass having
    /// handed out `ids` so far.
    spec fn parse(tokens: Seq<Token>, at: int, ids: IdCounters) -> Parsed<Self::V>;

    /// The source range that was consumed to build the node.
    spec fn position_of(node: Self::V) -> Span;

    /// The text of the node at nesting depth `depth`.
    spec fn text_of(node: Self::V, settings: ToStringSettings, depth: u8) -> Seq<char>;

    /// Parsing only moves forward.
    proof fn lemma_parse_advances(tokens: Seq<Token>, at: int, ids: IdCounters)
        requires
            0 <= at <= tokens.len(),
        ensures
            Self::parse(tokens, at, ids).advances(tokens, at, ids),
    ;

    fn get_position(&self) -> (position: Span)
        ensures
            position == Self::position_of(self@),
    ;

    /// Consumes the tokens of one node and builds it, or fails.
    fn from_reader(
        reader: &mut TokenReader,
        state: &mut ParsingState,
        settings: &ParseSettings,
    ) -> (result: Result<Self, ParseError>)
        requires
            old(state)@.room_for(old(reader).remaining()),
        ensures
            final(reader).tokens() == old(reader).tokens(),
            carried_out(
                Self::parse(old(reader).tokens(), old(reader).cursor(), old(state)@),
                result,
                final(reader).cursor(),
                final(state)@,
            ),
    ;

    /// Appends the text of the node to `buf`.
    fn to_string_from_buffer(&self, buf: &mut String, settings: &ToStringSettings, depth: u8)
        ensures
            final(buf)@ == old(buf)@ + Self::text_of(self@, *settings, depth),
    ;
}

} // verus!
