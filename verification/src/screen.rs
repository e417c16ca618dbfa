//! What a window shows on the screen: the characters of its buffer row by
//! row, and which of them lie in a selection.

use crate::edot::{spans, Edot, Window, WindowId};
use crate::location::{len_of_line, start_of_line, Column, Line, Place, Position, Span};
use crate::text::{countable, lemma_lines, line_count, rope_text};
use ropey::Rope;
use vstd::prelude::*;

verus! {

/// One place of the screen: the character shown there, and whether it is
/// shown as part of a selection.
#[derive(Debug, Copy, Clone, PartialEq, Eq, Structural)]
pub struct Cell {
    pub c: char,
    pub selected: bool,
}

/// The character that stands for `c` on the screen: a line feed is shown as
/// a sign of its own.
pub open spec fn glyph(c: char) -> char {
    if c == '\n' {
        '\u{2424}'
    } else {
        c
    }
}

/// Whether one of the spans, once validated, contains `place`. In an empty
/// text nothing is selected.
pub open spec fn is_selected(text: Seq<char>, spans: Seq<Span>, place: Place) -> bool {
    text.len() > 0 && exists|i: int|
        0 <= i < spans.len() && (#[trigger] spans[i]).validated(text).contains(place)
}

/// The cells for the `count` characters of line `line` that follow its
/// first `from` characters.
pub open spec fn cells(text: Seq<char>, spans: Seq<Span>, line: int, from: int, count: int) -> Seq<
    Cell,
> {
    Seq::new(
        count as nat,
        |x: int|
            Cell {
                c: glyph(text[start_of_line(text, line) + from + x]),
                selected: is_selected(text, spans, Place { line, column: from + x + 1 }),
            },
    )
}

/// The next `rows` rows of the screen, which begin behind the first `from`
/// characters of line `line`. A row shows as many characters as it has
/// columns, a line that is longer goes on in the next row, every line
/// begins a row of its own, and the rows behind the last line are empty.
pub open spec fn screen(
    text: Seq<char>,
    spans: Seq<Span>,
    line: int,
    from: int,
    columns: int,
    rows: int,
) -> Seq<Seq<Cell>>
    decreases rows,
{
    if rows <= 0 {
        Seq::empty()
    } else if line > line_count(text) {
        seq![Seq::<Cell>::empty()] + screen(text, spans, line, from, columns, rows - 1)
    } else if from + columns < len_of_line(text, line) {
        seq![cells(text, spans, line, from, columns)] + screen(
            text,
            spans,
            line,
            from + columns,
            columns,
            rows - 1,
        )
    } else {
        seq![cells(text, spans, line, from, len_of_line(text, line) - from)] + screen(
            text,
            spans,
            line + 1,
            0,
            columns,
            rows - 1,
        )
    }
}

/// What each row of `rows` holds.
pub open spec fn rows_view(rows: Seq<Vec<Cell>>) -> Seq<Seq<Cell>> {
    rows.map_values(|row: Vec<Cell>| row@)
}

impl Window {
    /// Whether one of the selections of the window, once validated in the
    /// rope, contains `position`.
    pub fn is_selected(&self, rope: &Rope, position: Position) -> (selected: bool)
        ensures
            selected == is_selected(rope_text(*rope), self@.selections, position@),
    {
        if rope.len_chars() == 0 {
            return false;
        }
        let selections = self.selections();
        let mut i: usize = 0;
        while i < selections.len()
            invariant
                rope_text(*rope).len() > 0,
                spans(selections@) == self@.selections,
                i <= selections@.len(),
                forall|j: int|
                    0 <= j < i ==> !(#[trigger] self@.selections[j]).validated(
                        rope_text(*rope),
                    ).contains(position@),
            decreases selections@.len() - i,
        {
            if let Ok(valid) = selections[i].valid(rope) {
                if valid.contains(position) {
                    assert(self@.selections[i as int].validated(rope_text(*rope)).contains(
                        position@,
                    ));
                    return true;
                }
            }
            i += 1;
        }
        false
    }
}

impl Edot {
    /// What a window shows on a screen of `rows` rows and `columns`
    /// columns, from the first line that the window shows on: see `screen`.
    pub fn screen(&self, window_id: WindowId, columns: usize, rows: usize) -> (drawn: Vec<
        Vec<Cell>,
    >)
        requires
            self.wf(),
            window_id.0 < self@.windows.len(),
        ensures
            rows_view(drawn@) == screen(
                self@.text_of(window_id.0 as int),
                self@.windows[window_id.0 as int].selections,
                self@.windows[window_id.0 as int].top,
                0,
                columns as int,
                rows as int,
            ),
    {
        let window = self.window(window_id);
        let rope = self.buffer(window.buffer()).content();
        let ghost text = rope_text(*rope);
        let ghost spans = window@.selections;
        let ghost whole = screen(text, spans, window@.top, 0, columns as int, rows as int);
        countable(rope);
        let lines = rope.len_lines();
        let mut drawn: Vec<Vec<Cell>> = Vec::new();
        let mut line: usize = window.top().one_based();
        let mut beyond = line > lines;
        let mut from: usize = 0;
        let ghost mut at: int = line as int;
        assert(rows_view(drawn@) + whole =~= whole);
        while drawn.len() < rows
            invariant
                text == rope_text(*rope),
                text.len() <= usize::MAX,
                spans == window@.selections,
                lines == line_count(text),
                drawn@.len() <= rows,
                line >= 1,
                beyond ==> at > line_count(text),
                !beyond ==> at == line && line <= lines && from <= len_of_line(text, at),
                rows_view(drawn@) + screen(
                    text,
                    spans,
                    at,
                    from as int,
                    columns as int,
                    rows - drawn@.len(),
                ) == whole,
            decreases rows - drawn@.len(),
        {
            let ghost before = drawn@;
            let ghost rest = screen(
                text,
                spans,
                at,
                from as int,
                columns as int,
                rows - before.len(),
            );
            let mut row: Vec<Cell> = Vec::new();
            if !beyond {
                proof {
                    lemma_lines(text, (line - 1) as nat);
                }
                let current = Line::from_one_based(line);
                let len = current.len_in(rope);
                let start = current.char_of(rope);
                let count = if columns < len - from {
                    columns
                } else {
                    len - from
                };
                let mut x: usize = 0;
                while x < count
                    invariant
                        text == rope_text(*rope),
                        text.len() <= usize::MAX,
                        spans == window@.selections,
                        current@ == line,
                        x <= count,
                        from + count <= len,
                        len == len_of_line(text, line as int),
                        start == start_of_line(text, line as int),
                        start + len <= text.len(),
                        row@ == cells(text, spans, line as int, from as int, x as int),
                    decreases count - x,
                {
                    let c = rope.char(start + from + x);
                    let position = Position {
                        line: current,
                        column: Column::from_zero_based(from + x),
                    };
                    let selected = window.is_selected(rope, position);
                    row.push(
                        Cell {
                            c: if c == '\n' {
                                '\u{2424}'
                            } else {
                                c
                            },
                            selected,
                        },
                    );
                    x += 1;
                    assert(row@ =~= cells(text, spans, line as int, from as int, x as int));
                }
                if columns < len - from {
                    from = from + columns;
                } else {
                    from = 0;
                    if line < lines {
                        line += 1;
                        proof {
                            at = line as int;
                        }
                    } else {
                        beyond = true;
                        proof {
                            at = line + 1;
                        }
                    }
                }
            }
            drawn.push(row);
            proof {
                let next = screen(
                    text,
                    spans,
                    at,
                    from as int,
                    columns as int,
                    rows - drawn@.len(),
                );
                assert(rest == seq![row@] + next);
                assert(rows_view(drawn@) =~= rows_view(before) + seq![row@]);
                assert(rows_view(drawn@) + next =~= rows_view(before) + rest);
            }
        }
        assert(rows_view(drawn@) + Seq::<Seq<Cell>>::empty() =~= rows_view(drawn@));
        drawn
    }
}

} // verus!
