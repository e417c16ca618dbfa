//! The changes that the editor makes to a selection and to the text under
//! it, as functions from a text and a span to a text and a span.

use crate::location::{Movement, MovementError, Place, Span};
use vstd::prelude::*;

verus! {

/// A change to one selection of a window and to the text under it.
#[derive(Debug, Copy, Clone, PartialEq, Eq, Structural)]
pub enum Change {
    /// The cursor takes a step; the anchor follows it unless `drag` is set.
    Move { movement: Movement, drag: bool },
    /// The anchor takes a step, then the cursor takes the same step.
    Shift { movement: Movement },
    /// The characters of the selection leave the text.
    Delete,
    /// The earlier end becomes the anchor.
    Order,
    /// Anchor and cursor change places.
    Flip,
    /// A character goes into the text in front of the anchor.
    InsertBefore { c: char },
    /// A character goes into the text in front of the cursor.
    InsertAfter { c: char },
    /// A new line opens below the line of the cursor, and the selection
    /// goes to its start.
    OpenLine,
    /// A character goes in front of the anchor, and the selection shifts to
    /// the right.
    TypeBefore { c: char },
    /// The cursor goes to the right with the anchor held, and a character
    /// goes in front of it.
    TypeAfter { c: char },
}

/// What a change makes of a text and a span, and why it failed, if it did.
pub struct Changed {
    pub text: Seq<char>,
    pub span: Span,
    pub failure: Option<MovementError>,
}

/// Where a character goes that is to stand in front of `place`: at the
/// place itself where the text can take a character there, and else at the
/// validated place.
pub open spec fn insertion_place(text: Seq<char>, place: Place) -> Place {
    if place.takes_insert(text) {
        place
    } else {
        place.validated(text)
    }
}

/// The text with `c` in front of `place`.
pub open spec fn with_char(text: Seq<char>, place: Place, c: char) -> Seq<char> {
    text.insert(insertion_place(text, place).char_index(text), c)
}

/// What a change of one step makes of a text and a span. A movement that
/// fails still leaves the place where its validation put it, and a shift
/// whose first step fails does not take the second. A change of several
/// steps is none of these and changes nothing here: see `changed`.
#[verifier::opaque]
pub open spec fn stepped(text: Seq<char>, span: Span, change: Change) -> Changed {
    match change {
        Change::Move { movement, drag } => {
            let end = span.end.moved(text, movement);
            let failure = span.end.move_failure(text, movement);
            let start = if failure is None && !drag {
                end
            } else {
                span.start
            };
            Changed { text, span: Span { start, end }, failure }
        },
        Change::Shift { movement } => {
            let start = span.start.moved(text, movement);
            if span.start.move_failure(text, movement) is Some {
                Changed {
                    text,
                    span: Span { start, end: span.end },
                    failure: span.start.move_failure(text, movement),
                }
            } else {
                Changed {
                    text,
                    span: Span { start, end: span.end.moved(text, movement) },
                    failure: span.end.move_failure(text, movement),
                }
            }
        },
        Change::Delete => {
            if text.len() == 0 {
                Changed {
                    text,
                    span: Span { start: Place { line: 1, column: 1 }, end: span.end },
                    failure: Some(MovementError::SelectionEmpty),
                }
            } else {
                Changed { text: span.text_without(text), span: span.collapsed(text), failure: None }
            }
        },
        Change::Order => Changed { text, span: span.ordered(), failure: None },
        Change::Flip => Changed { text, span: span.flipped(), failure: None },
        Change::InsertBefore { c } => Changed {
            text: with_char(text, span.start, c),
            span: Span { start: insertion_place(text, span.start), end: span.end },
            failure: None,
        },
        Change::InsertAfter { c } => Changed {
            text: with_char(text, span.end, c),
            span: Span { start: span.start, end: insertion_place(text, span.end) },
            failure: None,
        },
        _ => Changed { text, span, failure: None },
    }
}

/// Moving, shifting, ordering and flipping leave the text as it is, and
/// ordering and flipping cannot fail.
pub proof fn lemma_stepped_apart(text: Seq<char>, span: Span, change: Change)
    requires
        change is Move || change is Shift || change == Change::Order || change == Change::Flip,
    ensures
        stepped(text, span, change).text == text,
        change == Change::Order ==> stepped(text, span, change).span == span.ordered(),
        change == Change::Flip ==> stepped(text, span, change).span == span.flipped(),
        change == Change::Order || change == Change::Flip ==> stepped(
            text,
            span,
            change,
        ).failure is None,
{
    reveal(stepped);
}

/// Why a change of one step fails on the first of the spans from number
/// `from` on that it fails on, if on any.
pub open spec fn first_failure(
    text: Seq<char>,
    spans: Seq<Span>,
    change: Change,
    from: int,
) -> Option<MovementError>
    decreases spans.len() - from,
{
    if from < 0 || from >= spans.len() {
        None
    } else if stepped(text, spans[from], change).failure is Some {
        stepped(text, spans[from], change).failure
    } else {
        first_failure(text, spans, change, from + 1)
    }
}

impl Changed {
    /// One more change of one step, which is not made where a step before
    /// it has failed.
    pub open spec fn and(self, change: Change) -> Changed {
        if self.failure is Some {
            self
        } else {
            stepped(self.text, self.span, change)
        }
    }
}

/// What a change makes of a text and a span. A change of one step is made
/// as `stepped` says. To open a line, the cursor goes to the end of its
/// line, a line feed goes in front of it, and the selection goes down and
/// to the start of the line. To type in front, the character goes in front
/// of the anchor and the selection shifts right. To type behind, the cursor
/// goes right with the anchor held and the character goes in front of it.
/// The first step that fails ends the change.
pub open spec fn changed(text: Seq<char>, span: Span, change: Change) -> Changed {
    match change {
        Change::OpenLine => stepped(
            text,
            span,
            Change::Move { movement: Movement::LineEnd, drag: false },
        ).and(Change::InsertAfter { c: '\n' }).and(
            Change::Move { movement: Movement::Down, drag: false },
        ).and(Change::Move { movement: Movement::LineStart, drag: false }),
        Change::TypeBefore { c } => stepped(text, span, Change::InsertBefore { c }).and(
            Change::Shift { movement: Movement::Right },
        ),
        Change::TypeAfter { c } => stepped(
            text,
            span,
            Change::Move { movement: Movement::Right, drag: true },
        ).and(Change::InsertAfter { c }),
        _ => stepped(text, span, change),
    }
}

} // verus!
