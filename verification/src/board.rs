//! The text in which the placement of the pieces on a board is written.
//!
//! A board is written row by row, the rows parted by `/`. In a row a letter is
//! a piece (`t` an attacking soldier, `T` a defending soldier, `K` the king)
//! and a decimal number is a run of empty squares. Only square boards of at
//! most [`MAX_SIDE_LEN`] squares a side are boards here: those are the ones
//! that the engine's medium bit fields can hold, and on which its reader of
//! this text neither overflows nor places a piece off the board.

use vstd::prelude::*;
use vstd::string::*;
use vstd::utf8::is_ascii_chars;
use crate::tiles::MAX_SIDE_LEN;

verus! {

/// Whether the letter stands for a piece.
pub open spec fn is_piece_char(c: char) -> bool {
    c == 't' || c == 'T' || c == 'K'
}

/// Whether the character is a decimal digit.
pub open spec fn is_digit_char(c: char) -> bool {
    '0' <= c && c <= '9'
}

/// The value of a decimal digit.
pub open spec fn digit_value(c: char) -> nat
    recommends
        is_digit_char(c),
{
    (c as u8 - 48) as nat
}

/// Where the reading of a row stands: the squares counted so far, and the
/// value of the number that is being read.
pub struct RowScan {
    pub col: nat,
    pub run: nat,
}

/// The reading of a row after one more character, or `None` where the
/// character does not belong in a row or the row grows too wide.
pub open spec fn row_step(at: RowScan, c: char) -> Option<RowScan> {
    if is_digit_char(c) {
        let run = at.run * 10 + digit_value(c);
        if run <= MAX_SIDE_LEN {
            Some(RowScan { col: at.col, run })
        } else {
            None
        }
    } else if is_piece_char(c) {
        if at.col + at.run < MAX_SIDE_LEN {
            Some(RowScan { col: at.col + at.run + 1, run: 0 })
        } else {
            None
        }
    } else {
        None
    }
}

/// The reading of a whole row, character by character from the left.
pub open spec fn row_scan(row: Seq<char>) -> Option<RowScan>
    decreases row.len(),
{
    if row.len() == 0 {
        Some(RowScan { col: 0, run: 0 })
    } else {
        match row_scan(row.drop_last()) {
            Some(at) => row_step(at, row.last()),
            None => None,
        }
    }
}

/// The number of squares that a row describes, if it is well formed and at
/// most [`MAX_SIDE_LEN`] wide.
pub open spec fn row_width(row: Seq<char>) -> Option<nat> {
    match row_scan(row) {
        Some(at) => if at.col + at.run <= MAX_SIDE_LEN {
            Some(at.col + at.run)
        } else {
            None
        },
        None => None,
    }
}

/// The place of the first `/` in the text, or the text's length if it has none.
pub open spec fn first_slash(s: Seq<char>) -> nat
    decreases s.len(),
{
    if s.len() == 0 || s[0] == '/' {
        0
    } else {
        1 + first_slash(s.drop_first())
    }
}

/// The rows of a board text: the pieces between its `/`.
pub open spec fn rows_of(s: Seq<char>) -> Seq<Seq<char>>
    decreases s.len(),
{
    let k = first_slash(s);
    if k >= s.len() {
        seq![s]
    } else {
        seq![s.subrange(0, k as int)] + rows_of(s.subrange(k as int + 1, s.len() as int))
    }
}

/// The side length of the board that a text describes: `Some(n)` exactly when
/// the text is ASCII and has `n` rows of `n` squares each, with `n` between 1
/// and [`MAX_SIDE_LEN`].
pub open spec fn spec_board_side_len(text: Seq<char>) -> Option<u8> {
    let rows = rows_of(text);
    if is_ascii_chars(text) && 1 <= rows.len() <= MAX_SIDE_LEN && (forall|k: int|
        0 <= k < rows.len() ==> row_width(#[trigger] rows[k]) == Some(rows.len())) {
        Some(rows.len() as u8)
    } else {
        None
    }
}

/// Where no `/` stands before `k` and the text ends or has a `/` at `k`, the
/// first `/` is at `k`.
proof fn first_slash_is(s: Seq<char>, k: int)
    requires
        0 <= k <= s.len(),
        forall|j: int| 0 <= j < k ==> s[j] != '/',
        k == s.len() || s[k] == '/',
    ensures
        first_slash(s) == k,
    decreases k,
{
    if k > 0 {
        let rest = s.drop_first();
        assert forall|j: int| 0 <= j < k - 1 implies rest[j] != '/' by {
            assert(rest[j] == s[j + 1]);
        }
        if k < s.len() {
            assert(rest[k - 1] == s[k]);
        }
        first_slash_is(rest, k - 1);
    }
}

/// A row whose beginning cannot be read cannot be read as a whole.
proof fn row_scan_stays_none(row: Seq<char>, k: int)
    requires
        0 <= k <= row.len(),
        row_scan(row.subrange(0, k)) is None,
    ensures
        row_scan(row) is None,
    decreases row.len() - k,
{
    if k < row.len() {
        let longer = row.subrange(0, k + 1);
        assert(longer.drop_last() == row.subrange(0, k));
        row_scan_stays_none(row, k + 1);
    } else {
        assert(row.subrange(0, k) == row);
    }
}

/// The first row of a text is what stands before its first `/`.
proof fn first_row_of(s: Seq<char>, end: int)
    requires
        0 <= end <= s.len(),
        first_slash(s) == end,
    ensures
        rows_of(s).len() >= 1,
        rows_of(s)[0] == s.subrange(0, end),
        end == s.len() ==> rows_of(s) == seq![s.subrange(0, end)],
        end < s.len() ==> rows_of(s) == seq![s.subrange(0, end)] + rows_of(
            s.subrange(end + 1, s.len() as int),
        ),
{
    if end == s.len() {
        assert(s.subrange(0, end) == s);
    }
}

/// Reads a board text and returns the side length of the board it describes,
/// or `None` where the text is no board.
pub fn board_side_len(text: &str) -> (r: Option<u8>)
    ensures
        r == spec_board_side_len(text@),
{
    if !text.is_ascii() {
        return None;
    }
    let len = text.unicode_len();
    proof {
        assert(text@.subrange(0, len as int) == text@);
        assert(Seq::<Seq<char>>::empty() + rows_of(text@) == rows_of(text@));
    }
    let mut start: usize = 0;
    let mut rows: u8 = 0;
    let mut n: u8 = 0;
    let ghost mut done: Seq<Seq<char>> = Seq::empty();
    loop
        invariant
            text.is_ascii(),
            len == text@.len(),
            start <= len,
            rows_of(text@) == done + rows_of(text@.subrange(start as int, len as int)),
            done.len() == rows,
            rows > 0 ==> 1 <= n <= MAX_SIDE_LEN && rows <= n,
            forall|k: int| 0 <= k < rows ==> row_width(#[trigger] done[k]) == Some(n as nat),
        decreases len - start,
    {
        let ghost rest = text@.subrange(start as int, len as int);
        // Find where the row ends.
        let mut end: usize = start;
        while end < len && text.get_ascii(end) != 47
            invariant
                text.is_ascii(),
                len == text@.len(),
                start <= end <= len,
                forall|j: int| start <= j < end ==> text@[j] != '/',
            decreases len - end,
        {
            end += 1;
        }
        let ghost row = text@.subrange(start as int, end as int);
        proof {
            assert forall|j: int| 0 <= j < end - start implies rest[j] != '/' by {
                assert(rest[j] == text@[start + j]);
            }
            if end < len {
                assert(rest[end - start] == text@[end as int]);
            }
            first_slash_is(rest, end - start);
            first_row_of(rest, end - start);
            assert(rest.subrange(0, end - start) == row);
            assert(rows_of(text@)[rows as int] == row);
            if end < len {
                assert(rest.subrange(end - start + 1, rest.len() as int) == text@.subrange(
                    end + 1,
                    len as int,
                ));
            }
        }
        // Read the row.
        let mut i: usize = start;
        let mut col: u8 = 0;
        let mut run: u8 = 0;
        while i < end
            invariant
                text.is_ascii(),
                len == text@.len(),
                start <= i <= end <= len,
                row == text@.subrange(start as int, end as int),
                rows_of(text@)[rows as int] == row,
                rows_of(text@).len() > rows,
                row_scan(row.subrange(0, i - start)) == Some(
                    RowScan { col: col as nat, run: run as nat },
                ),
                col <= MAX_SIDE_LEN,
                run <= MAX_SIDE_LEN,
            decreases end - i,
        {
            let b = text.get_ascii(i);
            let ghost c = text@[i as int];
            proof {
                let longer = row.subrange(0, i + 1 - start);
                assert(longer.drop_last() == row.subrange(0, i - start));
                assert(longer.last() == c);
                assert(row_scan(longer) == row_step(
                    RowScan { col: col as nat, run: run as nat },
                    c,
                ));
                if row_scan(longer) is None {
                    row_scan_stays_none(row, i + 1 - start);
                }
            }
            if 48 <= b && b <= 57 {
                let grown: u8 = run * 10 + (b - 48);
                if grown > MAX_SIDE_LEN {
                    return None;
                }
                run = grown;
            } else if b == 116 || b == 84 || b == 75 {
                if col + run >= MAX_SIDE_LEN {
                    return None;
                }
                col = col + run + 1;
                run = 0;
            } else {
                return None;
            }
            i += 1;
        }
        assert(row.subrange(0, end - start) == row);
        let width: u8 = col + run;
        if width > MAX_SIDE_LEN {
            return None;
        }
        if rows == 0 {
            if width == 0 {
                return None;
            }
            n = width;
        } else if width != n || rows == n {
            assert(rows_of(text@)[0] == done[0]);
            return None;
        }
        proof {
            if rows > 0 {
                assert(rows_of(text@)[0] == done[0]);
            }
            done = done.push(row);
        }
        rows += 1;
        if end == len {
            assert(rows_of(text@) == done);
            if rows == n {
                return Some(n);
            }
            return None;
        }
        start = end + 1;
    }
}

} // verus!
