use vstd::prelude::*;
use vstd::string::{StrSliceExecFns, StringExecFns};
use crate::lexer::symbols::{lemma_location_bounds, offset_at};
use crate::text::{char_width, chars_of, concat, decimal_of, push_char, unsigned_to_string};

verus! {

broadcast use vstd::std_specs::vec::group_vec_axioms;

/// A position in source code.
#[derive(Debug, Clone, Copy, PartialEq, Eq, Structural)]
pub struct SourcePos {
    /// Line number (1-based).
    pub line: usize,
    /// Column number (1-based).
    pub column: usize,
    /// Byte offset from start.
    pub offset: usize,
}

impl SourcePos {
    pub fn new(line: usize, column: usize, offset: usize) -> (r: Self)
        ensures
            r == (SourcePos { line, column, offset }),
    {
        Self { line, column, offset }
    }

    /// The position as `line:column`.
    pub fn to_string(&self) -> (s: String)
        ensures
            s@ == decimal_of(self.line as int) + ":"@ + decimal_of(self.column as int),
    {
        let line = unsigned_to_string(self.line as u64);
        let column = unsigned_to_string(self.column as u64);
        concat(concat(line.as_str(), ":").as_str(), column.as_str())
    }
}

impl Default for SourcePos {
    fn default() -> (r: Self)
        ensures
            r == (SourcePos { line: 0, column: 0, offset: 0 }),
    {
        Self { line: 0, column: 0, offset: 0 }
    }
}

/// A span in source code (start to end).
#[derive(Debug, Clone, Copy, PartialEq, Eq, Structural)]
pub struct SourceSpan {
    pub start: SourcePos,
    pub end: SourcePos,
}

impl SourceSpan {
    pub fn new(start: SourcePos, end: SourcePos) -> (r: Self)
        ensures
            r == (SourceSpan { start, end }),
    {
        Self { start, end }
    }

    pub fn from_pos(pos: SourcePos) -> (r: Self)
        ensures
            r == (SourceSpan { start: pos, end: pos }),
    {
        Self { start: pos, end: pos }
    }
}

impl Default for SourceSpan {
    fn default() -> (r: Self)
        ensures
            r.start == (SourcePos { line: 0, column: 0, offset: 0 }),
            r.end == r.start,
    {
        Self { start: SourcePos::default(), end: SourcePos::default() }
    }
}

/// The positions at which the lines of a text start, among its first `upto`
/// code points: position 0, and each position behind a newline.
pub open spec fn line_starts_of(chars: Seq<char>, upto: int) -> Seq<int>
    decreases upto,
{
    if upto <= 0 {
        seq![0int]
    } else if chars[upto - 1] == '\n' {
        line_starts_of(chars, upto - 1).push(upto)
    } else {
        line_starts_of(chars, upto - 1)
    }
}

/// A text without the run of `c` at its end.
pub open spec fn trimmed(s: Seq<char>, c: char) -> Seq<char>
    decreases s.len(),
{
    if s.len() > 0 && s.last() == c {
        trimmed(s.drop_last(), c)
    } else {
        s
    }
}

/// The text of line `k`, counted from 0, without its line end.
pub open spec fn line_text(chars: Seq<char>, k: int) -> Seq<char> {
    let starts = line_starts_of(chars, chars.len() as int);
    let start = starts[k];
    let end = if k + 1 < starts.len() {
        starts[k + 1]
    } else {
        chars.len() as int
    };
    trimmed(trimmed(chars.subrange(start, end), '\n'), '\r')
}

/// The line, counted from 0, that holds the byte offset `offset`: the last
/// line that starts at or before it.
pub open spec fn line_of(byte_starts: Seq<usize>, offset: usize, k: int) -> bool {
    &&& 0 <= k < byte_starts.len()
    &&& byte_starts[k] <= offset
    &&& k + 1 < byte_starts.len() ==> offset < byte_starts[k + 1]
}

pub proof fn lemma_line_starts(chars: Seq<char>, upto: int)
    requires
        0 <= upto <= chars.len(),
    ensures
        line_starts_of(chars, upto).len() >= 1,
        line_starts_of(chars, upto)[0] == 0,
        forall|i: int|
            0 <= i < line_starts_of(chars, upto).len() ==> 0 <= (#[trigger] line_starts_of(
                chars,
                upto,
            )[i]) <= upto,
        forall|i: int, j: int|
            0 <= i < j < line_starts_of(chars, upto).len() ==> (#[trigger] line_starts_of(
                chars,
                upto,
            )[i]) < (#[trigger] line_starts_of(chars, upto)[j]),
    decreases upto,
{
    if upto > 0 {
        lemma_line_starts(chars, upto - 1);
    }
}

pub proof fn lemma_offset_monotone(chars: Seq<char>, a: int, b: int)
    requires
        0 <= a <= b,
    ensures
        offset_at(chars, a) + (b - a) <= offset_at(chars, b),
    decreases b - a,
{
    if a < b {
        lemma_offset_monotone(chars, a, b - 1);
    }
}

/// A run of `n` spaces.
pub open spec fn spaces(n: nat) -> Seq<char> {
    Seq::new(n, |i: int| ' ')
}

/// The two lines that show a source line with a mark under a column.
pub open spec fn excerpt(line: Seq<char>, column: usize) -> Seq<char> {
    "   │ "@ + line + "\n"@ + "   │ "@ + spaces(
        if column > 0 {
            (column - 1) as nat
        } else {
            0
        },
    ) + "^\n"@
}

/// The head of an error report: where the error is, and the message.
pub open spec fn report_head(pos: SourcePos, message: Seq<char>) -> Seq<char> {
    "🔮 Error at line "@ + decimal_of(pos.line as int) + ", column "@ + decimal_of(
        pos.column as int,
    ) + ":\n"@ + "   "@ + message + "\n"@
}

/// Source map that tracks line starts for fast lookups.
#[derive(Debug, Clone)]
pub struct SourceMap {
    /// The original source code.
    source: String,
    /// The code points of the source.
    chars: Vec<char>,
    /// Byte offsets of line starts.
    line_starts: Vec<usize>,
    /// Positions of line starts, in code points.
    line_positions: Vec<usize>,
}

impl SourceMap {
    /// The text that the map was made of.
    pub closed spec fn text(&self) -> Seq<char> {
        self.chars@
    }

    /// The byte offsets at which the lines start.
    pub closed spec fn byte_starts(&self) -> Seq<usize> {
        self.line_starts@
    }

    /// The line starts are those of the text, as positions and as byte
    /// offsets.
    pub closed spec fn well_formed(&self) -> bool {
        let starts = line_starts_of(self.chars@, self.chars@.len() as int);
        &&& self.source@ == self.chars@
        &&& 4 * self.chars@.len() < usize::MAX
        &&& self.line_positions@.len() == starts.len()
        &&& self.line_starts@.len() == starts.len()
        &&& forall|i: int|
            0 <= i < starts.len() ==> (#[trigger] self.line_positions@[i]) == starts[i]
        &&& forall|i: int|
            0 <= i < starts.len() ==> (#[trigger] self.line_starts@[i]) == offset_at(
                self.chars@,
                starts[i],
            )
    }

    /// The byte offsets of the line starts are those of the positions behind
    /// the newlines of the text, and they grow.
    pub proof fn lemma_byte_starts(&self)
        requires
            self.well_formed(),
        ensures
            self.byte_starts().len() == line_starts_of(self.text(), self.text().len() as int).len(),
            self.byte_starts().len() >= 1,
            self.byte_starts()[0] == 0,
            forall|i: int|
                0 <= i < self.byte_starts().len() ==> (#[trigger] self.byte_starts()[i])
                    == offset_at(
                    self.text(),
                    line_starts_of(self.text(), self.text().len() as int)[i],
                ),
            forall|i: int, j: int|
                0 <= i < j < self.byte_starts().len() ==> (#[trigger] self.byte_starts()[i]) < (
                #[trigger] self.byte_starts()[j]),
    {
        let chars = self.chars@;
        let starts = line_starts_of(chars, chars.len() as int);
        lemma_line_starts(chars, chars.len() as int);
        assert forall|i: int, j: int| 0 <= i < j < self.byte_starts().len() implies (
        #[trigger] self.byte_starts()[i]) < (#[trigger] self.byte_starts()[j]) by {
            assert(self.line_positions@[i] == starts[i]);
            assert(self.line_positions@[j] == starts[j]);
            lemma_offset_monotone(chars, starts[i], starts[j]);
        }
        assert(self.line_positions@[0] == starts[0]);
    }

    /// Create a new source map from source code.
    pub fn new(source: &str) -> (r: Self)
        requires
            4 * source@.len() < usize::MAX,
        ensures
            r.well_formed(),
            r.text() == source@,
    {
        let chars = chars_of(source);
        let mut line_starts: Vec<usize> = Vec::new();
        let mut line_positions: Vec<usize> = Vec::new();
        line_starts.push(0);
        line_positions.push(0);
        let mut offset: usize = 0;
        let mut i: usize = 0;
        while i < chars.len()
            invariant
                i <= chars.len(),
                4 * chars@.len() < usize::MAX,
                offset == offset_at(chars@, i as int),
                line_positions@.len() == line_starts_of(chars@, i as int).len(),
                line_starts@.len() == line_positions@.len(),
                forall|k: int|
                    0 <= k < line_positions@.len() ==> (#[trigger] line_positions@[k])
                        == line_starts_of(chars@, i as int)[k],
                forall|k: int|
                    0 <= k < line_positions@.len() ==> (#[trigger] line_starts@[k]) == offset_at(
                        chars@,
                        line_starts_of(chars@, i as int)[k],
                    ),
            decreases chars.len() - i,
        {
            proof {
                lemma_location_bounds(chars@, i as int + 1);
            }
            offset = offset + char_width(chars[i]);
            if chars[i] == '\n' {
                line_starts.push(offset);
                line_positions.push(i + 1);
            }
            i += 1;
        }
        Self { source: String::from_str(source), chars, line_starts, line_positions }
    }

    /// Convert a byte offset to line and column. The column counts bytes
    /// from the start of the line.
    pub fn offset_to_pos(&self, offset: usize) -> (pos: SourcePos)
        requires
            self.well_formed(),
            offset < usize::MAX,
        ensures
            pos.offset == offset,
            line_of(self.byte_starts(), offset, pos.line - 1),
            pos.column == offset - self.byte_starts()[pos.line - 1] + 1,
    {
        proof {
            self.lemma_byte_starts();
        }
        // Binary search for the last line start at or before the offset.
        let mut low: usize = 0;
        let mut high: usize = self.line_starts.len();
        while high - low > 1
            invariant
                low < high <= self.line_starts@.len(),
                self.line_starts@[low as int] <= offset,
                high < self.line_starts@.len() ==> offset < self.line_starts@[high as int],
                forall|i: int, j: int|
                    0 <= i < j < self.line_starts@.len() ==> (#[trigger] self.line_starts@[i]) < (
                    #[trigger] self.line_starts@[j]),
            decreases high - low,
        {
            let middle = low + (high - low) / 2;
            if self.line_starts[middle] <= offset {
                low = middle;
            } else {
                high = middle;
            }
        }
        let line_start = self.line_starts[low];
        SourcePos::new(low + 1, offset - line_start + 1, offset)
    }

    /// Get the source line at the given line number (1-based), without its
    /// line end.
    pub fn get_line(&self, line: usize) -> (r: Option<&str>)
        requires
            self.well_formed(),
        ensures
            1 <= line <= self.byte_starts().len() ==> (r matches Some(text) && text@ == line_text(
                self.text(),
                line - 1,
            )),
            !(1 <= line <= self.byte_starts().len()) ==> r is None,
    {
        if line == 0 || line > self.line_positions.len() {
            return None;
        }
        proof {
            lemma_line_starts(self.chars@, self.chars@.len() as int);
        }
        let start = self.line_positions[line - 1];
        let end = if line < self.line_positions.len() {
            self.line_positions[line]
        } else {
            self.chars.len()
        };
        let ghost whole = self.chars@.subrange(start as int, end as int);
        let mut stop = end;
        while stop > start && self.chars[stop - 1] == '\n'
            invariant
                start <= stop <= end <= self.chars@.len(),
                whole == self.chars@.subrange(start as int, end as int),
                trimmed(whole, '\n') == trimmed(self.chars@.subrange(start as int, stop as int), '\n'),
            decreases stop,
        {
            proof {
                assert(self.chars@.subrange(start as int, stop as int).drop_last()
                    =~= self.chars@.subrange(start as int, stop - 1));
            }
            stop -= 1;
        }
        let ghost middle = self.chars@.subrange(start as int, stop as int);
        while stop > start && self.chars[stop - 1] == '\r'
            invariant
                start <= stop <= end <= self.chars@.len(),
                trimmed(middle, '\r') == trimmed(self.chars@.subrange(start as int, stop as int), '\r'),
            decreases stop,
        {
            proof {
                assert(self.chars@.subrange(start as int, stop as int).drop_last()
                    =~= self.chars@.subrange(start as int, stop - 1));
            }
            stop -= 1;
        }
        Some(self.source.as_str().substring_char(start, stop))
    }

    /// Format an error with source context: the head, and the excerpt of the
    /// line where the map has the line.
    pub fn format_error(&self, pos: SourcePos, message: &str) -> (r: String)
        requires
            self.well_formed(),
        ensures
            1 <= pos.line <= self.byte_starts().len() ==> r@ == report_head(pos, message@)
                + excerpt(line_text(self.text(), pos.line - 1), pos.column),
            !(1 <= pos.line <= self.byte_starts().len()) ==> r@ == report_head(pos, message@),
    {
        let line = unsigned_to_string(pos.line as u64);
        let column = unsigned_to_string(pos.column as u64);
        let mut result = String::from_str("🔮 Error at line ");
        result.append(line.as_str());
        result.append(", column ");
        result.append(column.as_str());
        result.append(":\n");
        result.append("   ");
        result.append(message);
        result.append("\n");
        match self.get_line(pos.line) {
            Some(text) => {
                let ghost head = result@;
                let mut shown = String::from_str("   │ ");
                shown.append(text);
                shown.append("\n");
                shown.append("   │ ");
                let ghost before = shown@;
                let count = if pos.column > 0 {
                    pos.column - 1
                } else {
                    0
                };
                let mut i: usize = 0;
                while i < count
                    invariant
                        i <= count,
                        shown@ == before + spaces(i as nat),
                    decreases count - i,
                {
                    push_char(&mut shown, ' ');
                    proof {
                        assert(before + spaces((i + 1) as nat) =~= (before + spaces(i as nat)).push(
                            ' ',
                        ));
                    }
                    i += 1;
                }
                shown.append("^\n");
                result.append(shown.as_str());
                proof {
                    assert(before + spaces(0) =~= before);
                }
            },
            None => {},
        }
        result
    }

    /// Get total number of lines.
    pub fn line_count(&self) -> (n: usize)
        ensures
            n == self.byte_starts().len(),
    {
        self.line_starts.len()
    }
}

} // verus!
