//! Lines, columns, positions and selections, and the movements of a
//! position through the text of a buffer.

use crate::text::{
    breaks_from, countable, ends_line, lemma_line_start_monotone, lemma_lines, line_count,
    line_len, line_start, line_start_from, rope_remove, rope_slice, rope_text, slice_text,
    without_range,
};
use ropey::Rope;
use ropey::RopeSlice;
use vstd::prelude::*;
use vstd::std_specs::ops::{AddSpecImpl, SubSpecImpl};

verus! {

/// The number of a line, counted from one.
#[derive(Debug, Copy, Clone, PartialEq, Eq, PartialOrd, Ord, Structural)]
pub struct Line(usize);

impl View for Line {
    type V = int;

    /// The number of the line, counted from one.
    closed spec fn view(&self) -> int {
        self.0 as int
    }
}

impl Line {
    #[verifier::type_invariant]
    spec fn positive(self) -> bool {
        self.0 >= 1
    }

    /// The line with the number `n`, counted from one.
    pub closed spec fn at(n: int) -> Line {
        Line(n as usize)
    }

    /// The line that is `i` behind the first, so that counting starts at
    /// zero.
    pub fn from_zero_based(i: usize) -> (line: Self)
        requires
            i < usize::MAX,
        ensures
            line@ == i + 1,
            line == Line::at(i + 1),
    {
        Self::from_one_based(i + 1)
    }

    /// The line with the number `i`, where counting starts at one.
    pub fn from_one_based(i: usize) -> (line: Self)
        requires
            i >= 1,
        ensures
            line@ == i,
            line == Line::at(i as int),
    {
        Line(i)
    }

    /// How far behind the first this one is.
    pub fn zero_based(self) -> (i: usize)
        ensures
            i == self@ - 1,
    {
        self.one_based() - 1
    }

    /// The number, where counting starts at one.
    pub fn one_based(self) -> (i: usize)
        ensures
            i == self@,
            i >= 1,
    {
        proof {
            use_type_invariant(&self);
        }
        self.0
    }
}

impl core::ops::Add<usize> for Line {
    type Output = Line;

    /// The line that is `rhs` further on; its number must fit a `usize`.
    fn add(self, rhs: usize) -> (sum: Line)
        ensures
            sum@ == self@ + rhs,
    {
        proof {
            use_type_invariant(&self);
        }
        Line(self.0 + rhs)
    }
}

impl AddSpecImpl<usize> for Line {
    open spec fn obeys_add_spec() -> bool {
        true
    }

    open spec fn add_req(self, rhs: usize) -> bool {
        self@ + rhs <= usize::MAX
    }

    open spec fn add_spec(self, rhs: usize) -> Line {
        Line::at(self@ + rhs)
    }
}

impl core::ops::Sub<usize> for Line {
    type Output = Line;

    /// The line that is `rhs` further back, which must exist: there is none
    /// in front of the first.
    fn sub(self, rhs: usize) -> (difference: Line)
        ensures
            difference@ == self@ - rhs,
    {
        proof {
            use_type_invariant(&self);
        }
        Line(self.0 - rhs)
    }
}

impl SubSpecImpl<usize> for Line {
    open spec fn obeys_sub_spec() -> bool {
        true
    }

    open spec fn sub_req(self, rhs: usize) -> bool {
        self@ - rhs >= 1
    }

    open spec fn sub_spec(self, rhs: usize) -> Line {
        Line::at(self@ - rhs)
    }
}

/// The number of a column, counted from one.
#[derive(Debug, Copy, Clone, PartialEq, Eq, PartialOrd, Ord, Structural)]
pub struct Column(usize);

impl View for Column {
    type V = int;

    /// The number of the column, counted from one.
    closed spec fn view(&self) -> int {
        self.0 as int
    }
}

impl Column {
    #[verifier::type_invariant]
    spec fn positive(self) -> bool {
        self.0 >= 1
    }

    /// The column with the number `n`, counted from one.
    pub closed spec fn at(n: int) -> Column {
        Column(n as usize)
    }

    /// The column that is `i` behind the first, so that counting starts at
    /// zero.
    pub fn from_zero_based(i: usize) -> (column: Self)
        requires
            i < usize::MAX,
        ensures
            column@ == i + 1,
            column == Column::at(i + 1),
    {
        Self::from_one_based(i + 1)
    }

    /// The column with the number `i`, where counting starts at one.
    pub fn from_one_based(i: usize) -> (column: Self)
        requires
            i >= 1,
        ensures
            column@ == i,
            column == Column::at(i as int),
    {
        Column(i)
    }

    /// How far behind the first this one is.
    pub fn zero_based(self) -> (i: usize)
        ensures
            i == self@ - 1,
    {
        self.one_based() - 1
    }

    /// The number, where counting starts at one.
    pub fn one_based(self) -> (i: usize)
        ensures
            i == self@,
            i >= 1,
    {
        proof {
            use_type_invariant(&self);
        }
        self.0
    }

    /// Whether this is the first one.
    pub fn is_first(self) -> (first: bool)
        ensures
            first == (self@ == 1),
    {
        self.one_based() == 1
    }
}

impl core::ops::Add<usize> for Column {
    type Output = Column;

    /// The column that is `rhs` further on; its number must fit a `usize`.
    fn add(self, rhs: usize) -> (sum: Column)
        ensures
            sum@ == self@ + rhs,
    {
        proof {
            use_type_invariant(&self);
        }
        Column(self.0 + rhs)
    }
}

impl AddSpecImpl<usize> for Column {
    open spec fn obeys_add_spec() -> bool {
        true
    }

    open spec fn add_req(self, rhs: usize) -> bool {
        self@ + rhs <= usize::MAX
    }

    open spec fn add_spec(self, rhs: usize) -> Column {
        Column::at(self@ + rhs)
    }
}

impl core::ops::Sub<usize> for Column {
    type Output = Column;

    /// The column that is `rhs` further back, which must exist: there is none
    /// in front of the first.
    fn sub(self, rhs: usize) -> (difference: Column)
        ensures
            difference@ == self@ - rhs,
    {
        proof {
            use_type_invariant(&self);
        }
        Column(self.0 - rhs)
    }
}

impl SubSpecImpl<usize> for Column {
    open spec fn obeys_sub_spec() -> bool {
        true
    }

    open spec fn sub_req(self, rhs: usize) -> bool {
        self@ - rhs >= 1
    }

    open spec fn sub_spec(self, rhs: usize) -> Column {
        Column::at(self@ - rhs)
    }
}

/// Counting from one and counting from zero differ by one, and building a
/// line or a column from a number and reading the number back gives the
/// number: for every `n` of at least one and every `i` that a `usize` can
/// hold beside its successor.
pub proof fn lemma_round_trip(n: usize, i: usize)
    requires
        n >= 1,
        i < usize::MAX,
    ensures
        Line::at(n as int)@ == n,
        Line::at(i + 1)@ - 1 == i,
        Column::at(n as int)@ == n,
        Column::at(i + 1)@ - 1 == i,
{
}

/// A step that a position can take through a text.
#[derive(Debug, Copy, Clone, PartialEq, Eq, Structural)]
pub enum Movement {
    Left,
    Right,
    Up,
    Down,
    LineStart,
    LineEnd,
    FileStart,
    FileEnd,
}

impl Movement {
    /// How many simpler movements a movement can be made of, one after the
    /// other.
    pub open spec fn steps(self) -> nat {
        match self {
            Movement::Left | Movement::Right | Movement::FileStart | Movement::FileEnd => 2,
            _ => 1,
        }
    }
}

/// Why a position could not take a step.
#[derive(Debug, Copy, Clone, PartialEq, Eq, Structural)]
pub enum MovementError {
    /// The text holds no character to stand on.
    SelectionEmpty,
    /// The position is on the first line.
    NoPrevLine,
    /// No line with characters follows the line of the position.
    NoNextLine,
}

impl MovementError {
    /// The words in which the error is shown to the user.
    pub fn message(&self) -> (words: &'static str)
        ensures
            words@ == match *self {
                MovementError::SelectionEmpty => "selection is empty"@,
                MovementError::NoPrevLine => "no previous line"@,
                MovementError::NoNextLine => "no next line"@,
            },
    {
        match self {
            MovementError::SelectionEmpty => "selection is empty",
            MovementError::NoPrevLine => "no previous line",
            MovementError::NoNextLine => "no next line",
        }
    }
}

/// The number of characters of the line with the number `line`, counted
/// from one, its line break included; zero for a line that the text does
/// not have.
pub open spec fn len_of_line(text: Seq<char>, line: int) -> nat {
    if line >= 1 {
        line_len(text, (line - 1) as nat)
    } else {
        0
    }
}

/// The index in the text of the first character of the line with the
/// number `line`, counted from one.
pub open spec fn start_of_line(text: Seq<char>, line: int) -> int {
    if line >= 1 {
        line_start(text, (line - 1) as nat)
    } else {
        0
    }
}

/// The number of the last line that holds a character: the last line, or
/// the one before it where the text ends with a line break.
pub open spec fn last_full_line(text: Seq<char>) -> int {
    if len_of_line(text, line_count(text) as int) > 0 {
        line_count(text) as int
    } else {
        line_count(text) - 1
    }
}

/// The text, or a single line feed where the text is empty.
pub open spec fn mended(text: Seq<char>) -> Seq<char> {
    if text.len() == 0 {
        seq!['\n']
    } else {
        text
    }
}

/// A place in a text: the numbers of a line and of a column, both counted
/// from one. It is what a `Position` stands for.
pub struct Place {
    pub line: int,
    pub column: int,
}

impl Place {
    /// Line and column are both at least one.
    pub open spec fn wf(self) -> bool {
        self.line >= 1 && self.column >= 1
    }

    /// The place is on a character of the text: the text has the line, and
    /// the column is not behind the last character of the line, which is
    /// the line break where the line has one.
    pub open spec fn is_valid(self, text: Seq<char>) -> bool {
        self.wf() && self.column <= len_of_line(text, self.line)
    }

    /// The index in the text of the character at this place.
    pub open spec fn char_index(self, text: Seq<char>) -> int {
        start_of_line(text, self.line) + self.column - 1
    }

    /// The order of places: by line, then by column.
    pub open spec fn le(self, other: Place) -> bool {
        self.line < other.line || (self.line == other.line && self.column <= other.column)
    }

    /// The same column on the last line of the text, for a place behind the
    /// last line; the place itself otherwise.
    pub open spec fn on_text(self, text: Seq<char>) -> Place {
        if self.line > line_count(text) {
            Place { line: line_count(text) as int, column: self.column }
        } else {
            self
        }
    }

    /// Where validation puts a place. A place behind the last line counts
    /// as on the last line. A valid place stays. A column behind the end of
    /// a line with characters becomes the last column of the line. On an
    /// empty line the place goes to the end of the line above; an empty
    /// first line means an empty text, and the place becomes the first
    /// column of the first line.
    pub open spec fn validated(self, text: Seq<char>) -> Place {
        let p = self.on_text(text);
        if p.is_valid(text) {
            p
        } else if len_of_line(text, p.line) > 0 {
            Place { line: p.line, column: len_of_line(text, p.line) as int }
        } else if p.line > 1 {
            Place { line: p.line - 1, column: len_of_line(text, p.line - 1) as int }
        } else {
            Place { line: 1, column: 1 }
        }
    }

    /// Whether a character can go into the text in front of this place: the
    /// place is on a character of the text, or just behind the last one, or
    /// its column runs over the end of its line by no more than what
    /// follows in the text.
    pub open spec fn takes_insert(self, text: Seq<char>) -> bool {
        self.wf() && self.line <= line_count(text) + 1 && self.char_index(text) <= text.len()
    }

    /// Whether a line with characters follows the line of this place.
    pub open spec fn has_line_below(self, text: Seq<char>) -> bool {
        self.line < line_count(text) && len_of_line(text, self.line + 1) > 0
    }

    /// Where a movement puts a place. `Left` and `Right` validate the place
    /// first and wrap to the end of the line above and to the start of the
    /// line below. `Up` and `Down` keep the column as it is. `LineEnd`
    /// validates the place and goes to the last character of the line.
    /// `FileEnd` goes to the first column of the last line that holds a
    /// character. Where the movement fails the place is only validated, if
    /// the movement validates, and kept otherwise.
    pub open spec fn moved(self, text: Seq<char>, movement: Movement) -> Place {
        let v = self.validated(text);
        match movement {
            Movement::Left => {
                if text.len() == 0 {
                    v
                } else if v.column > 1 {
                    Place { line: v.line, column: v.column - 1 }
                } else if v.line > 1 {
                    Place { line: v.line - 1, column: len_of_line(text, v.line - 1) as int }
                } else {
                    v
                }
            },
            Movement::Right => {
                if text.len() == 0 {
                    v
                } else if v.column < len_of_line(text, v.line) {
                    Place { line: v.line, column: v.column + 1 }
                } else if v.has_line_below(text) {
                    Place { line: v.line + 1, column: 1 }
                } else {
                    v
                }
            },
            Movement::Up => {
                if self.line > 1 {
                    Place { line: self.line - 1, column: self.column }
                } else {
                    self
                }
            },
            Movement::Down => {
                if self.has_line_below(text) {
                    Place { line: self.line + 1, column: self.column }
                } else {
                    self
                }
            },
            Movement::LineStart => Place { line: self.line, column: 1 },
            Movement::LineEnd => {
                if text.len() == 0 {
                    v
                } else {
                    Place { line: v.line, column: len_of_line(text, v.line) as int }
                }
            },
            Movement::FileStart => Place { line: 1, column: 1 },
            Movement::FileEnd => {
                if text.len() == 0 {
                    self
                } else {
                    Place { line: last_full_line(text), column: 1 }
                }
            },
        }
    }

    /// Why a movement fails, if it does. An empty text has no character to
    /// stand on, which stops every movement that looks for one. `Left`
    /// fails on the first character of the text, and `Up` on the first
    /// line. `Down` fails where no line with characters follows, and so does
    /// `Right` on the last character of a line.
    pub open spec fn move_failure(self, text: Seq<char>, movement: Movement) -> Option<
        MovementError,
    > {
        let v = self.validated(text);
        match movement {
            Movement::Left => {
                if text.len() == 0 {
                    Some(MovementError::SelectionEmpty)
                } else if v.column == 1 && v.line == 1 {
                    Some(MovementError::NoPrevLine)
                } else {
                    None
                }
            },
            Movement::Right => {
                if text.len() == 0 {
                    Some(MovementError::SelectionEmpty)
                } else if v.column >= len_of_line(text, v.line) && !v.has_line_below(text) {
                    Some(MovementError::NoNextLine)
                } else {
                    None
                }
            },
            Movement::Up => {
                if self.line > 1 {
                    None
                } else {
                    Some(MovementError::NoPrevLine)
                }
            },
            Movement::Down => {
                if self.has_line_below(text) {
                    None
                } else {
                    Some(MovementError::NoNextLine)
                }
            },
            Movement::LineStart => None,
            Movement::LineEnd => {
                if text.len() == 0 {
                    Some(MovementError::SelectionEmpty)
                } else {
                    None
                }
            },
            Movement::FileStart => None,
            Movement::FileEnd => {
                if text.len() == 0 {
                    Some(MovementError::SelectionEmpty)
                } else {
                    None
                }
            },
        }
    }
}

/// What a fallible step returns: `Ok` where nothing went wrong, the error
/// otherwise.
pub open spec fn outcome(failure: Option<MovementError>) -> Result<(), MovementError> {
    match failure {
        None => Ok(()),
        Some(e) => Err(e),
    }
}

/// The lines of the text that is a single line feed: the line feed, and an
/// empty line behind it.
pub proof fn lemma_single_line_feed()
    ensures
        line_count(seq!['\n']) == 2,
        len_of_line(seq!['\n'], 1) == 1,
        len_of_line(seq!['\n'], 2) == 0,
        start_of_line(seq!['\n'], 1) == 0,
{
    let text = seq!['\n'];
    assert(text.len() == 1);
    assert(text[0] == '\n');
    assert(ends_line(text, 0));
    reveal_with_fuel(breaks_from, 3);
    reveal_with_fuel(line_start_from, 3);
    lemma_lines(text, 0);
    lemma_lines(text, 1);
}

/// Validation puts a place on a character of a text that is not empty, and
/// leaves a valid place where it is.
pub proof fn lemma_validated(place: Place, text: Seq<char>)
    requires
        place.wf(),
    ensures
        place.validated(text).wf(),
        text.len() > 0 ==> place.validated(text).is_valid(text),
        text.len() == 0 ==> place.validated(text) == (Place { line: 1, column: 1 }),
        place.is_valid(text) ==> place.validated(text) == place && text.len() > 0,
        place.validated(text).line <= line_count(text),
        place.validated(text).line <= place.line,
{
    let p = place.on_text(text);
    lemma_lines(text, 0);
    lemma_lines(text, (p.line - 1) as nat);
    if p.line > 1 {
        lemma_lines(text, (p.line - 2) as nat);
    }
    lemma_lines(text, (place.line - 1) as nat);
}

impl Line {
    /// The indices of the characters of this line in the rope, from its
    /// first character up to, but without, the first of the next line.
    pub fn range_of(self, rope: &Rope) -> (range: core::ops::Range<usize>)
        requires
            self@ <= line_count(rope_text(*rope)),
        ensures
            range.start == start_of_line(rope_text(*rope), self@),
            range.end == start_of_line(rope_text(*rope), self@ + 1),
    {
        proof {
            lemma_lines(rope_text(*rope), (self@ - 1) as nat);
        }
        countable(rope);
        self.char_of(rope)..self.char_of(rope) + self.slice_of(rope).len_chars()
    }

    /// The characters of this line, its line break included.
    pub fn slice_of<'a>(self, rope: &'a Rope) -> (slice: RopeSlice<'a>)
        requires
            self@ <= line_count(rope_text(*rope)),
        ensures
            slice_text(slice) == rope_text(*rope).subrange(
                start_of_line(rope_text(*rope), self@),
                start_of_line(rope_text(*rope), self@ + 1),
            ),
            slice_text(slice).len() == len_of_line(rope_text(*rope), self@),
    {
        proof {
            lemma_lines(rope_text(*rope), (self@ - 1) as nat);
        }
        rope.line(self.zero_based())
    }

    /// The index in the rope of the first character of this line. The line
    /// behind the last one starts at the end of the text.
    pub fn char_of(self, rope: &Rope) -> (index: usize)
        requires
            self@ <= line_count(rope_text(*rope)) + 1,
        ensures
            index == start_of_line(rope_text(*rope), self@),
    {
        rope.line_to_char(self.zero_based())
    }

    /// Takes this line out of the rope, its line break included.
    pub fn remove_from(self, rope: &mut Rope)
        requires
            self@ <= line_count(rope_text(*old(rope))),
        ensures
            rope_text(*final(rope)) == without_range(
                rope_text(*old(rope)),
                start_of_line(rope_text(*old(rope)), self@),
                start_of_line(rope_text(*old(rope)), self@ + 1),
            ),
    {
        proof {
            lemma_lines(rope_text(*rope), (self@ - 1) as nat);
        }
        let range = self.range_of(rope);
        rope_remove(rope, range.start, range.end)
    }

    /// Whether this is the first one.
    pub fn is_first(self) -> (first: bool)
        ensures
            first == (self@ == 1),
    {
        self.one_based() == 1
    }

    /// Whether this is the last line of the rope, which is empty where the
    /// text ends with a line break.
    pub fn is_last(self, rope: &Rope) -> (last: bool)
        ensures
            last == (self@ == line_count(rope_text(*rope))),
    {
        self.one_based() == rope.len_lines()
    }

    /// Whether the rope holds no character on this line. A line that the
    /// rope does not have is empty.
    pub fn is_empty(self, rope: &Rope) -> (empty: bool)
        ensures
            empty == (len_of_line(rope_text(*rope), self@) == 0),
    {
        self.len_in(rope) == 0
    }

    /// The number of characters of this line in the rope, and zero for a
    /// line that the rope does not have.
    pub fn len_in(self, rope: &Rope) -> (len: usize)
        ensures
            len == len_of_line(rope_text(*rope), self@),
    {
        proof {
            lemma_lines(rope_text(*rope), (self@ - 1) as nat);
        }
        if self.one_based() <= rope.len_lines() {
            self.slice_of(rope).len_chars()
        } else {
            0
        }
    }
}

/// A line and a column of a text, both counted from one.
#[derive(Debug, Copy, Clone, PartialEq, Eq, PartialOrd, Ord, Structural)]
pub struct Position {
    pub line: Line,
    pub column: Column,
}

impl View for Position {
    type V = Place;

    open spec fn view(&self) -> Place {
        Place { line: self.line@, column: self.column@ }
    }
}

impl Position {
    /// The index in the rope of the character at this position.
    pub fn char_of(self, rope: &Rope) -> (index: usize)
        requires
            self@.line <= line_count(rope_text(*rope)) + 1,
            self@.char_index(rope_text(*rope)) <= usize::MAX,
        ensures
            index == self@.char_index(rope_text(*rope)),
    {
        self.line.char_of(rope) + self.column.zero_based()
    }

    /// Whether this position is on a character of the rope.
    pub fn is_valid(self, rope: &Rope) -> (valid: bool)
        ensures
            valid == self@.is_valid(rope_text(*rope)),
    {
        proof {
            use_type_invariant(&self.line);
            use_type_invariant(&self.column);
        }
        self.column.one_based() <= self.line.len_in(rope)
    }

    /// Whether this position is just behind the last character of its line.
    pub fn is_full_line(self, rope: &Rope) -> (full: bool)
        ensures
            full == (len_of_line(rope_text(*rope), self@.line) == self@.column - 1),
    {
        self.line.len_in(rope) == self.column.zero_based()
    }

    /// Whether `insert_char` can put a character into the rope at this
    /// position.
    pub fn can_insert(self, rope: &Rope) -> (can: bool)
        ensures
            can == self@.takes_insert(rope_text(*rope)),
    {
        proof {
            use_type_invariant(&self.line);
            use_type_invariant(&self.column);
            lemma_lines(rope_text(*rope), (self@.line - 1) as nat);
        }
        if self.line.zero_based() <= rope.len_lines() {
            let start = self.line.char_of(rope);
            self.column.zero_based() <= rope.len_chars() - start
        } else {
            false
        }
    }

    /// Puts `c` into the rope in front of the character at this position.
    pub fn insert_char(self, rope: &mut Rope, c: char)
        requires
            self@.line <= line_count(rope_text(*old(rope))) + 1,
            self@.char_index(rope_text(*old(rope))) <= rope_text(*old(rope)).len(),
        ensures
            rope_text(*final(rope)) == rope_text(*old(rope)).insert(
                self@.char_index(rope_text(*old(rope))),
                c,
            ),
    {
        countable(rope);
        let index = self.char_of(rope);
        rope.insert_char(index, c)
    }
}

impl Position {
    /// Puts a position that an edit left behind back on a character of the
    /// rope, as `Place::validated` says. Fails on an empty rope, which has
    /// no character, and leaves the position on the first column of the
    /// first line then.
    pub fn validate(&mut self, rope: &Rope) -> (result: Result<(), MovementError>)
        ensures
            final(self)@ == old(self)@.validated(rope_text(*rope)),
            result == if rope_text(*rope).len() == 0 {
                Err::<(), MovementError>(MovementError::SelectionEmpty)
            } else {
                Ok(())
            },
            result is Ok ==> final(self)@.is_valid(rope_text(*rope)),
            final(self)@.takes_insert(rope_text(*rope)),
    {
        proof {
            use_type_invariant(&self.line);
            use_type_invariant(&self.column);
            lemma_validated(self@, rope_text(*rope));
            lemma_lines(rope_text(*rope), 0);
            if rope_text(*rope).len() > 0 {
                lemma_char_index(rope_text(*rope), self@.validated(rope_text(*rope)));
            }
        }
        let lines = rope.len_lines();
        if self.line.one_based() > lines {
            self.line = Line::from_one_based(lines);
        }
        if !self.is_valid(rope) {
            if self.line.is_empty(rope) {
                if !self.line.is_first() {
                    self.line = self.line - 1;
                    proof {
                        lemma_lines(rope_text(*rope), (self.line@ - 1) as nat);
                    }
                    self.column = Column::from_one_based(self.line.len_in(rope));
                } else {
                    self.line = Line::from_one_based(1);
                    self.column = Column::from_one_based(1);
                    return Err(MovementError::SelectionEmpty);
                }
            } else {
                self.column = Column::from_one_based(self.line.len_in(rope));
            }
        }
        Ok(())
    }

    /// Validates the position as `validate` does, but mends an empty rope
    /// with a line feed instead of failing, so that the position is on a
    /// character afterwards.
    pub fn validate_fix(&mut self, rope: &mut Rope)
        ensures
            rope_text(*final(rope)) == mended(rope_text(*old(rope))),
            final(self)@ == old(self)@.validated(mended(rope_text(*old(rope)))),
            final(self)@.is_valid(rope_text(*final(rope))),
    {
        proof {
            use_type_invariant(&self.line);
            use_type_invariant(&self.column);
            lemma_validated(self@, mended(rope_text(*rope)));
            lemma_lines(rope_text(*rope), 0);
        }
        let lines = rope.len_lines();
        if self.line.one_based() > lines {
            self.line = Line::from_one_based(lines);
        }
        if !self.is_valid(rope) {
            if self.line.is_empty(rope) {
                if !self.line.is_first() {
                    self.line = self.line - 1;
                    proof {
                        lemma_lines(rope_text(*rope), (self.line@ - 1) as nat);
                    }
                    self.column = Column::from_one_based(self.line.len_in(rope));
                } else {
                    self.line = Line::from_one_based(1);
                    self.column = Column::from_one_based(1);
                    rope.insert_char(0, '\n');
                    proof {
                        assert(rope_text(*rope) =~= seq!['\n']);
                        lemma_single_line_feed();
                    }
                }
            } else {
                self.column = Column::from_one_based(self.line.len_in(rope));
            }
        }
    }

    /// Takes one step through the rope, as `Place::moved` says, or fails as
    /// `Place::move_failure` says. A step that fails leaves the position as
    /// it was but for the validation that `Left`, `Right` and `LineEnd`
    /// begin with.
    pub fn move_to(&mut self, rope: &Rope, movement: Movement) -> (result: Result<
        (),
        MovementError,
    >)
        ensures
            final(self)@ == old(self)@.moved(rope_text(*rope), movement),
            result == outcome(old(self)@.move_failure(rope_text(*rope), movement)),
        decreases movement.steps(),
    {
        proof {
            use_type_invariant(&self.line);
            use_type_invariant(&self.column);
            lemma_validated(self@, rope_text(*rope));
            lemma_lines(rope_text(*rope), 0);
            lemma_lines(rope_text(*rope), (line_count(rope_text(*rope)) - 1) as nat);
            if line_count(rope_text(*rope)) >= 2 {
                lemma_lines(rope_text(*rope), (line_count(rope_text(*rope)) - 2) as nat);
            }
        }
        match movement {
            Movement::Left => {
                self.validate(rope)?;
                if self.column.is_first() {
                    if !self.line.is_first() {
                        self.move_to(rope, Movement::Up)?;
                        proof {
                            lemma_lines(rope_text(*rope), (self@.line - 1) as nat);
                            lemma_validated(self@, rope_text(*rope));
                        }
                        self.move_to(rope, Movement::LineEnd)?;
                    } else {
                        return Err(MovementError::NoPrevLine);
                    }
                } else {
                    self.column = self.column - 1;
                }
            },
            Movement::Right => {
                self.validate(rope)?;
                if self.column.one_based() == self.line.len_in(rope) {
                    self.move_to(rope, Movement::Down)?;
                    self.move_to(rope, Movement::LineStart)?;
                } else {
                    self.column = self.column + 1;
                }
            },
            Movement::Up => {
                if self.line.is_first() {
                    return Err(MovementError::NoPrevLine);
                } else {
                    self.line = self.line - 1;
                }
            },
            Movement::Down => {
                if self.has_line_below(rope) {
                    self.line = self.line + 1;
                } else {
                    return Err(MovementError::NoNextLine);
                }
            },
            Movement::LineStart => {
                self.column = Column::from_one_based(1);
            },
            Movement::LineEnd => {
                self.validate(rope)?;
                self.column = Column::from_one_based(self.line.len_in(rope));
            },
            Movement::FileStart => {
                self.line = Line::from_one_based(1);
                self.move_to(rope, Movement::LineStart)?;
            },
            Movement::FileEnd => {
                if rope.len_chars() == 0 {
                    return Err(MovementError::SelectionEmpty);
                }
                let last = Line::from_one_based(rope.len_lines());
                if !last.is_empty(rope) {
                    self.line = last;
                } else {
                    self.line = last - 1;
                }
                self.move_to(rope, Movement::LineStart)?;
            },
        }
        Ok(())
    }

    /// Whether a line with characters follows the line of this position.
    fn has_line_below(self, rope: &Rope) -> (below: bool)
        ensures
            below == self@.has_line_below(rope_text(*rope)),
            below ==> self@.line < usize::MAX,
    {
        self.line.one_based() < rope.len_lines() && (self.line + 1).len_in(rope) > 0
    }
}

impl Position {
    /// Whether this position is `other` or comes before it: on an earlier
    /// line, or on the same line and no later column.
    pub fn at_or_before(self, other: Position) -> (before: bool)
        ensures
            before == self@.le(other@),
    {
        self.line.one_based() < other.line.one_based() || (self.line.one_based()
            == other.line.one_based() && self.column.one_based() <= other.column.one_based())
    }
}

/// A valid place is the place of one character of the text.
pub proof fn lemma_char_index(text: Seq<char>, place: Place)
    requires
        place.is_valid(text),
    ensures
        0 <= start_of_line(text, place.line) <= place.char_index(text) < start_of_line(
            text,
            place.line + 1,
        ) <= text.len(),
        place.line <= line_count(text),
{
    lemma_lines(text, (place.line - 1) as nat);
}

/// Valid places lie in the text in their order: the earlier place has the
/// smaller index, and equal indices mean equal places.
pub proof fn lemma_char_index_ordered(text: Seq<char>, first: Place, second: Place)
    requires
        first.is_valid(text),
        second.is_valid(text),
        first.le(second),
    ensures
        first.char_index(text) <= second.char_index(text),
        first.char_index(text) == second.char_index(text) ==> first == second,
{
    lemma_char_index(text, first);
    lemma_char_index(text, second);
    if first.line < second.line {
        lemma_line_start_monotone(text, first.line as nat, (second.line - 1) as nat);
    }
}

/// A pair of places: what a `Selection` stands for. `start` is the anchor
/// and `end` the cursor, so `start` may lie behind `end`.
pub struct Span {
    pub start: Place,
    pub end: Place,
}

impl Span {
    /// Both places have a line and a column of at least one.
    pub open spec fn wf(self) -> bool {
        self.start.wf() && self.end.wf()
    }

    /// The span with anchor and cursor exchanged.
    pub open spec fn flipped(self) -> Span {
        Span { start: self.end, end: self.start }
    }

    /// The span with its earlier place as `start`.
    pub open spec fn ordered(self) -> Span {
        if self.start.le(self.end) {
            self
        } else {
            self.flipped()
        }
    }

    /// Whether `place` lies between the two ends of the span, both included,
    /// whichever of them comes first.
    pub open spec fn contains(self, place: Place) -> bool {
        self.ordered().start.le(place) && place.le(self.ordered().end)
    }

    /// The span with both places validated.
    pub open spec fn validated(self, text: Seq<char>) -> Span {
        Span { start: self.start.validated(text), end: self.end.validated(text) }
    }

    /// The index in the text of the first character of the span.
    pub open spec fn range_start(self, text: Seq<char>) -> int {
        self.ordered().start.char_index(text)
    }

    /// The index in the text behind the last character of the span.
    pub open spec fn range_end(self, text: Seq<char>) -> int {
        self.ordered().end.char_index(text) + 1
    }

    /// The text after the characters of the validated span have been
    /// removed, both ends included; a single line feed where nothing would
    /// be left.
    pub open spec fn text_without(self, text: Seq<char>) -> Seq<char> {
        mended(
            without_range(
                text,
                self.validated(text).range_start(text),
                self.validated(text).range_end(text),
            ),
        )
    }

    /// Whether what is left of the text, once the characters of the
    /// validated span have been removed, ends with a line feed. Where the
    /// removal stops before the last character, that is whether the text
    /// ended with one before. Where the removal takes the last character, it
    /// is whether the removal takes the whole text, which a line feed then
    /// replaces, or the character in front of the removed ones is a line
    /// feed.
    pub open spec fn leaves_line_feed(self, text: Seq<char>) -> bool {
        if self.validated(text).range_end(text) < text.len() {
            text.last() == '\n'
        } else {
            self.validated(text).range_start(text) == 0 || text[self.validated(text).range_start(
                text,
            ) - 1] == '\n'
        }
    }

    /// The span after its characters have been removed: a single place,
    /// where its first character was, validated in what is left.
    pub open spec fn collapsed(self, text: Seq<char>) -> Span {
        let place = self.validated(text).ordered().start.validated(self.text_without(text));
        Span { start: place, end: place }
    }
}

/// A span of characters in a rope, from an anchor to a cursor.
#[derive(Debug, Copy, Clone, PartialEq, Eq, Structural)]
pub struct Selection {
    pub start: Position,
    pub end: Position,
}

impl View for Selection {
    type V = Span;

    open spec fn view(&self) -> Span {
        Span { start: self.start@, end: self.end@ }
    }
}

impl Selection {
    /// The indices in the rope of the characters of the selection, from its
    /// first character up to, but without, the one behind its last.
    pub fn range_of(self, rope: &Rope) -> (range: core::ops::Range<usize>)
        requires
            self@.start.line <= line_count(rope_text(*rope)) + 1,
            self@.end.line <= line_count(rope_text(*rope)) + 1,
            self@.range_start(rope_text(*rope)) <= usize::MAX,
            self@.range_end(rope_text(*rope)) <= usize::MAX,
        ensures
            range.start == self@.range_start(rope_text(*rope)),
            range.end == self@.range_end(rope_text(*rope)),
    {
        let mut ordered = self;
        ordered.order();
        ordered.start.char_of(rope)..ordered.end.char_of(rope) + 1
    }

    /// The characters of the selection, both ends included.
    pub fn slice_of<'a>(self, rope: &'a Rope) -> (slice: RopeSlice<'a>)
        requires
            self@.start.line <= line_count(rope_text(*rope)) + 1,
            self@.end.line <= line_count(rope_text(*rope)) + 1,
            0 <= self@.range_start(rope_text(*rope)) <= self@.range_end(rope_text(*rope))
                <= rope_text(*rope).len(),
        ensures
            slice_text(slice) == rope_text(*rope).subrange(
                self@.range_start(rope_text(*rope)),
                self@.range_end(rope_text(*rope)),
            ),
    {
        countable(rope);
        let range = self.range_of(rope);
        rope_slice(rope, range.start, range.end)
    }

    /// Exchanges the two ends where the anchor lies behind the cursor.
    pub fn order(&mut self)
        ensures
            final(self)@ == old(self)@.ordered(),
            final(self)@.start.le(final(self)@.end),
    {
        if !self.start.at_or_before(self.end) {
            self.flip();
        }
    }

    /// The selection with its earlier end as the anchor.
    pub fn ordered(self) -> (ordered: Self)
        ensures
            ordered@ == self@.ordered(),
            ordered@.start.le(ordered@.end),
    {
        let mut ordered = self;
        ordered.order();
        ordered
    }

    /// Whether `other` lies in the selection, both ends included.
    pub fn contains(self, other: Position) -> (inside: bool)
        ensures
            inside == self@.contains(other@),
    {
        let ordered = self.ordered();
        ordered.start.at_or_before(other) && other.at_or_before(ordered.end)
    }

    /// Exchanges the anchor and the cursor.
    pub fn flip(&mut self)
        ensures
            final(self)@ == old(self)@.flipped(),
    {
        let start = self.start;
        self.start = self.end;
        self.end = start;
    }

    /// The selection with anchor and cursor exchanged.
    pub fn flipped(self) -> (flipped: Self)
        ensures
            flipped@ == self@.flipped(),
    {
        let mut flipped = self;
        flipped.flip();
        flipped
    }

    /// Whether the anchor is no later than the later of the two ends, which
    /// holds of every selection.
    pub fn is_ordered(self) -> (ordered: bool)
        ensures
            ordered == self@.start.le(self@.ordered().end),
            ordered,
    {
        let ordered = self.ordered();
        self.start.at_or_before(ordered.end)
    }

    /// The selection with both ends validated; fails on an empty rope.
    pub fn valid(self, rope: &Rope) -> (result: Result<Self, MovementError>)
        ensures
            rope_text(*rope).len() == 0 ==> result == Err::<Selection, MovementError>(
                MovementError::SelectionEmpty,
            ),
            rope_text(*rope).len() > 0 ==> result.is_ok() && result.unwrap()@ == self@.validated(
                rope_text(*rope),
            ),
    {
        let mut valid = self;
        valid.validate(rope)?;
        Ok(valid)
    }

    /// Validates the anchor, then the cursor. On an empty rope the anchor
    /// fails first, and the cursor stays as it was.
    pub fn validate(&mut self, rope: &Rope) -> (result: Result<(), MovementError>)
        ensures
            final(self)@.start == old(self)@.start.validated(rope_text(*rope)),
            final(self)@.end == if rope_text(*rope).len() == 0 {
                old(self)@.end
            } else {
                old(self)@.end.validated(rope_text(*rope))
            },
            result == if rope_text(*rope).len() == 0 {
                Err::<(), MovementError>(MovementError::SelectionEmpty)
            } else {
                Ok(())
            },
    {
        self.start.validate(rope)?;
        self.end.validate(rope)
    }

    /// Validates both ends, and mends an empty rope with a line feed.
    pub fn validate_fix(&mut self, rope: &mut Rope)
        ensures
            rope_text(*final(rope)) == mended(rope_text(*old(rope))),
            final(self)@ == old(self)@.validated(mended(rope_text(*old(rope)))),
            final(self)@.start.is_valid(rope_text(*final(rope))),
            final(self)@.end.is_valid(rope_text(*final(rope))),
    {
        self.start.validate_fix(rope);
        self.end.validate_fix(rope);
    }

    /// Removes the characters of the selection from the rope, both ends
    /// included, after validating them. The selection becomes the single
    /// place where its first character was, validated in what is left, and
    /// a rope that would be left empty holds a line feed instead. On an
    /// empty rope there is nothing to remove: the call fails, and only the
    /// anchor moves, to the first column of the first line.
    pub fn remove_from(&mut self, rope: &mut Rope) -> (result: Result<(), MovementError>)
        ensures
            rope_text(*old(rope)).len() == 0 ==> {
                &&& result == Err::<(), MovementError>(MovementError::SelectionEmpty)
                &&& rope_text(*final(rope)) == rope_text(*old(rope))
                &&& final(self)@ == (Span {
                    start: Place { line: 1, column: 1 },
                    end: old(self)@.end,
                })
            },
            rope_text(*old(rope)).len() > 0 ==> {
                &&& result == Ok::<(), MovementError>(())
                &&& rope_text(*final(rope)) == old(self)@.text_without(rope_text(*old(rope)))
                &&& final(self)@ == old(self)@.collapsed(rope_text(*old(rope)))
                &&& final(self)@.start == final(self)@.end
                &&& final(self)@.start.is_valid(rope_text(*final(rope)))
                &&& rope_text(*final(rope)).len() > 0
                &&& rope_text(*final(rope)).last() == '\n' <==> old(self)@.leaves_line_feed(
                    rope_text(*old(rope)),
                )
            },
    {
        proof {
            use_type_invariant(&self.start.line);
            use_type_invariant(&self.start.column);
            use_type_invariant(&self.end.line);
            use_type_invariant(&self.end.column);
            if rope_text(*rope).len() > 0 {
                lemma_removal(self@, rope_text(*rope));
            }
            lemma_validated(self@.start, rope_text(*rope));
            lemma_validated(self@.end, rope_text(*rope));
        }
        self.validate(rope)?;
        self.order();
        proof {
            lemma_char_index(rope_text(*rope), self@.start);
            lemma_char_index(rope_text(*rope), self@.end);
            lemma_char_index_ordered(rope_text(*rope), self@.start, self@.end);
        }
        countable(rope);
        let range = self.range_of(rope);
        rope_remove(rope, range.start, range.end);
        self.end = self.start;
        self.validate_fix(rope);
        Ok(())
    }
}

/// Ordering a span twice is ordering it once, and an ordered span has its
/// `start` no later than its `end`.
pub proof fn lemma_order_idempotent(span: Span)
    ensures
        span.ordered().ordered() == span.ordered(),
        span.ordered().start.le(span.ordered().end),
{
}

/// An ordered span contains exactly the places from its `start` to its
/// `end`, both included.
pub proof fn lemma_contains_between(span: Span, place: Place)
    requires
        span.start.le(span.end),
    ensures
        span.contains(place) == (span.start.le(place) && place.le(span.end)),
{
}

/// A step to the right that succeeds is undone by a step to the left: the
/// place is then where validation puts the place that the steps began at,
/// which for a valid place is that place itself.
pub proof fn lemma_right_then_left(text: Seq<char>, place: Place)
    requires
        place.wf(),
        place.move_failure(text, Movement::Right) is None,
    ensures
        place.moved(text, Movement::Right).is_valid(text),
        place.moved(text, Movement::Right).move_failure(text, Movement::Left) is None,
        place.moved(text, Movement::Right).moved(text, Movement::Left) == place.validated(text),
        place.is_valid(text) ==> place.moved(text, Movement::Right).moved(text, Movement::Left)
            == place,
{
    let valid = place.validated(text);
    lemma_validated(place, text);
    lemma_validated(place.moved(text, Movement::Right), text);
    lemma_lines(text, (valid.line - 1) as nat);
}

/// A step down that succeeds is undone by a step up: the place is on its
/// line again, in the column that it had.
pub proof fn lemma_down_then_up(text: Seq<char>, place: Place)
    requires
        place.wf(),
        place.move_failure(text, Movement::Down) is None,
    ensures
        place.moved(text, Movement::Down).move_failure(text, Movement::Up) is None,
        place.moved(text, Movement::Down).moved(text, Movement::Up) == place,
{
}

/// What removing a span leaves of a text that is not empty. The span is a
/// single valid place afterwards, and the text is not empty. At least one
/// character is removed. The text ends with a line feed afterwards exactly
/// where `Span::leaves_line_feed` says so: a text that ended with one keeps
/// it unless the removal takes the end of the text and leaves a character
/// other than a line feed in front.
pub proof fn lemma_removal(span: Span, text: Seq<char>)
    requires
        span.wf(),
        text.len() > 0,
    ensures
        span.collapsed(text).start == span.collapsed(text).end,
        span.collapsed(text).start.is_valid(span.text_without(text)),
        span.text_without(text).len() > 0,
        0 <= span.validated(text).range_start(text) < span.validated(text).range_end(text)
            <= text.len(),
        span.text_without(text).last() == '\n' <==> span.leaves_line_feed(text),
{
    let v = span.validated(text).ordered();
    lemma_validated(span.start, text);
    lemma_validated(span.end, text);
    lemma_char_index(text, v.start);
    lemma_char_index(text, v.end);
    lemma_char_index_ordered(text, v.start, v.end);
    lemma_validated(v.start, span.text_without(text));
}

} // verus!
