//! Placing text on the text screen: rows, columns and alignment.
use vstd::prelude::*;
use vstd::std_specs::convert::FromSpecImpl;
use vstd::string::*;

use crate::text::{byte_len, lemma_first_index_of_unique, lines_of};

verus! {

/// How a line of text is placed around its column.
#[derive(Debug, Clone, Copy, PartialEq, Eq, Structural)]
pub enum TextAlign {
    /// The line begins at the column.
    Left,
    /// The line is centred on the column.
    Center,
    /// The line ends at the column.
    Right,
}

impl Default for TextAlign {
    /// Left alignment.
    fn default() -> (r: TextAlign)
        ensures
            r == TextAlign::Left,
    {
        TextAlign::Left
    }
}

/// Where text is put on the screen: a column, the row of its first line, and an alignment.
#[derive(Debug, Clone, Copy, PartialEq, Eq, Structural)]
pub struct TextPosition {
    pub column: u32,
    pub row: u32,
    pub align: TextAlign,
}

impl Default for TextPosition {
    /// Column 0, row 0, left aligned.
    fn default() -> (r: TextPosition)
        ensures
            r == (TextPosition { column: 0, row: 0, align: TextAlign::Left }),
    {
        TextPosition { column: 0, row: 0, align: TextAlign::default() }
    }
}

impl From<(u32, u32)> for TextPosition {
    /// Column and row, left aligned.
    fn from(p: (u32, u32)) -> (r: TextPosition) {
        TextPosition { column: p.0, row: p.1, align: TextAlign::default() }
    }
}

impl FromSpecImpl<(u32, u32)> for TextPosition {
    open spec fn obeys_from_spec() -> bool {
        true
    }

    open spec fn from_spec(p: (u32, u32)) -> TextPosition {
        TextPosition { column: p.0, row: p.1, align: TextAlign::Left }
    }
}

impl From<(u32, u32, TextAlign)> for TextPosition {
    /// Column, row and alignment.
    fn from(p: (u32, u32, TextAlign)) -> (r: TextPosition) {
        TextPosition { column: p.0, row: p.1, align: p.2 }
    }
}

impl FromSpecImpl<(u32, u32, TextAlign)> for TextPosition {
    open spec fn obeys_from_spec() -> bool {
        true
    }

    open spec fn from_spec(p: (u32, u32, TextAlign)) -> TextPosition {
        TextPosition { column: p.0, row: p.1, align: p.2 }
    }
}

/// `a - b`, or 0 when `b` is larger.
pub open spec fn sat_sub(a: u32, b: u32) -> u32 {
    if a >= b {
        (a - b) as u32
    } else {
        0
    }
}

/// The column where a line begins: the given column when left aligned, moved left by half
/// the line's length in bytes when centred and by all of it when right aligned, never
/// below 0.
pub open spec fn line_column(align: TextAlign, column: u32, line: Seq<char>) -> u32 {
    match align {
        TextAlign::Left => column,
        TextAlign::Center => sat_sub(column, (byte_len(line) as u32) / 2),
        TextAlign::Right => sat_sub(column, byte_len(line) as u32),
    }
}

/// Where lines are placed: a left-aligned line begins at the column; a right-aligned one
/// ends there, and a centred one has its middle byte there, as far as the screen's left
/// edge (column 0) allows.
pub proof fn law_line_placement(column: u32, line: Seq<char>)
    requires
        byte_len(line) <= u32::MAX,
    ensures
        line_column(TextAlign::Left, column, line) == column,
        byte_len(line) <= column ==> line_column(TextAlign::Right, column, line) + byte_len(line)
            == column,
        byte_len(line) > column ==> line_column(TextAlign::Right, column, line) == 0,
        byte_len(line) / 2 <= column ==> line_column(TextAlign::Center, column, line) + byte_len(
            line,
        ) / 2 == column,
        byte_len(line) / 2 > column ==> line_column(TextAlign::Center, column, line) == 0,
{
    let b = byte_len(line);
    assert((b as u32) as int == b);
    assert(((b as u32) / 2) as int == b / 2);
}

impl TextPosition {
    /// Splits `text` into its lines (at each `\n`) and places each: the line, its column
    /// (see [`line_column`]) and its row, the first line on `self.row` and each next one
    /// on the row below.
    pub fn format<'a>(&self, text: &'a str) -> (r: Vec<(&'a str, u32, u32)>)
        requires
            self.row + lines_of(text@).len() <= u32::MAX,
        ensures
            r.len() == lines_of(text@).len(),
            forall|k: int|
                0 <= k < r.len() ==> {
                    let line = lines_of(text@)[k];
                    &&& (#[trigger] r[k]).0@ == line
                    &&& r[k].1 == line_column(self.align, self.column, line)
                    &&& r[k].2 == self.row + k
                },
    {
        let n = text.unicode_len();
        let mut out: Vec<(&'a str, u32, u32)> = Vec::new();
        let mut start: usize = 0;
        let mut i: usize = 0;
        let mut row = self.row;
        let ghost all = lines_of(text@);
        proof {
            assert(text@.skip(0) =~= text@);
            assert(all =~= Seq::<Seq<char>>::empty() + all);
        }
        while i < n
            invariant
                n == text@.len(),
                start <= i <= n,
                all == lines_of(text@),
                self.row + all.len() <= u32::MAX,
                row == self.row + out.len(),
                forall|k: int| start <= k < i ==> text@[k] != '\n',
                all == out@.map_values(|e: (&'a str, u32, u32)| e.0@) + lines_of(
                    text@.skip(start as int),
                ),
                forall|k: int|
                    0 <= k < out.len() ==> {
                        let line = all[k];
                        &&& (#[trigger] out[k]).0@ == line
                        &&& out[k].1 == line_column(self.align, self.column, line)
                        &&& out[k].2 == self.row + k
                    },
            decreases n - i,
        {
            if text.get_char(i) == '\n' {
                let line = text.substring_char(start, i);
                let col = self.place(line);
                let ghost rest = text@.skip(start as int);
                proof {
                    lemma_first_index_of_unique(rest, '\n', i - start);
                    assert(rest.take(i - start) =~= line@);
                    assert(rest.skip(i - start + 1) =~= text@.skip(i + 1));
                    assert(lines_of(rest) == seq![line@] + lines_of(text@.skip(i + 1)));
                    assert(lines_of(text@.skip(i + 1)).len() >= 1);
                }
                let ghost before = out@;
                out.push((line, col, row));
                proof {
                    assert(out@.map_values(|e: (&'a str, u32, u32)| e.0@) =~= before.map_values(
                        |e: (&'a str, u32, u32)| e.0@,
                    ).push(line@));
                    assert(all[before.len() as int] == line@);
                }
                row = row + 1;
                start = i + 1;
            }
            i = i + 1;
        }
        let line = text.substring_char(start, n);
        let col = self.place(line);
        let ghost rest = text@.skip(start as int);
        proof {
            lemma_first_index_of_unique(rest, '\n', rest.len() as int);
            assert(rest =~= line@);
            assert(lines_of(rest) == seq![line@]);
        }
        let ghost before = out@;
        out.push((line, col, row));
        proof {
            assert(out@.map_values(|e: (&'a str, u32, u32)| e.0@) =~= before.map_values(
                |e: (&'a str, u32, u32)| e.0@,
            ).push(line@));
            assert(all[before.len() as int] == line@);
        }
        out
    }

    /// The column where `line` begins, see [`line_column`].
    fn place(&self, line: &str) -> (r: u32)
        ensures
            r == line_column(self.align, self.column, line@),
    {
        let len = line.as_bytes().len() as u32;
        match self.align {
            TextAlign::Left => self.column,
            TextAlign::Center => self.column.saturating_sub(len / 2),
            TextAlign::Right => self.column.saturating_sub(len),
        }
    }
}

/// A coordinate that can be turned into a position between 0 and a maximum.
pub trait Position: Sized {
    /// The position that the coordinate stands for, given the largest one.
    spec fn position_of(self, max_value: u32) -> u32;

    /// The position, given the largest one.
    fn into(self, max_value: u32) -> (r: u32)
        ensures
            r == Self::position_of(self, max_value),
    ;
}

impl Position for u32 {
    /// A whole number is the position itself.
    open spec fn position_of(self, max_value: u32) -> u32 {
        self
    }

    fn into(self, max_value: u32) -> u32 {
        self
    }
}

} // verus!
