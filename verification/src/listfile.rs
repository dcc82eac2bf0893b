//! Parser for the line-oriented listfile and configuration format.
//!
//! A line is a comment (`#` after optional blanks), or up to three cells separated by
//! `*`. A backslash escapes the next character; unescaped blanks around a cell are
//! dropped. A first cell that is empty makes a configuration line (`*KEY*VALUE`).
use vstd::prelude::*;
use crate::text::{chars_of, is_white_space, string_from_chars, string_of, utf8_text};

verus! {

/// Separator between the cells of a line.
pub const CELL_SEPARATOR: char = '*';

/// Characters that end a line: CR and LF.
pub open spec fn is_line_break(c: char) -> bool {
    c == '\r' || c == '\n'
}

/// Blank characters that are skipped before a cell: white space other than CR and LF.
pub open spec fn is_blank(c: char) -> bool {
    is_white_space(c) && !is_line_break(c)
}

/// Characters at which an unescaped cell ends.
pub open spec fn ends_cell(c: char) -> bool {
    is_line_break(c) || c == CELL_SEPARATOR
}

/// Index of the first non-blank character at or after `i` (or the end of `s`).
pub open spec fn skip_blanks(s: Seq<char>, i: int) -> int
    decreases s.len() - i,
{
    if 0 <= i < s.len() && is_blank(s[i]) {
        skip_blanks(s, i + 1)
    } else {
        i
    }
}

/// Index of the first CR or LF at or after `i` (or the end of `s`).
pub open spec fn line_end(s: Seq<char>, i: int) -> int
    decreases s.len() - i,
{
    if 0 <= i < s.len() && !is_line_break(s[i]) {
        line_end(s, i + 1)
    } else {
        i
    }
}

/// Index just past a line ending (CR, LF or CRLF) that starts at `i`; `i` if there is none.
pub open spec fn after_line_ending(s: Seq<char>, i: int) -> int {
    if 0 <= i < s.len() && s[i] == '\r' {
        if i + 1 < s.len() && s[i + 1] == '\n' {
            i + 2
        } else {
            i + 1
        }
    } else if 0 <= i < s.len() && s[i] == '\n' {
        i + 1
    } else {
        i
    }
}

/// Reading a cell from index `i`: `kept` is the text read so far up to its last escaped or
/// non-white character, `pending` the unescaped white space read after it. The result is the
/// cell's text and the index at which the cell ends, or `None` for a backslash that ends `s`.
pub open spec fn scan_cell(s: Seq<char>, i: int, kept: Seq<char>, pending: Seq<char>) -> Option<
    (Seq<char>, int),
>
    decreases s.len() - i,
{
    if i < 0 || i >= s.len() || ends_cell(s[i]) {
        Some((kept, i))
    } else if s[i] == '\\' {
        if i + 1 >= s.len() {
            None
        } else {
            scan_cell(s, i + 2, kept + pending.push(s[i + 1]), Seq::empty())
        }
    } else if is_white_space(s[i]) {
        scan_cell(s, i + 1, kept, pending.push(s[i]))
    } else {
        scan_cell(s, i + 1, kept + pending.push(s[i]), Seq::empty())
    }
}

/// The cell that starts at `i` (leading blanks skipped), and the index where it ends.
pub open spec fn cell_at(s: Seq<char>, i: int) -> Option<(Seq<char>, int)> {
    scan_cell(s, skip_blanks(s, i), Seq::empty(), Seq::empty())
}

/// Skipping blanks stays within the line and passes only blanks.
pub proof fn lemma_skip_blanks_bounds(s: Seq<char>, i: int)
    requires
        0 <= i <= s.len(),
    ensures
        i <= skip_blanks(s, i) <= s.len(),
        skip_blanks(s, i) <= line_end(s, i),
        forall|k: int| i <= k < skip_blanks(s, i) ==> is_blank(#[trigger] s[k]),
        skip_blanks(s, i) < s.len() ==> !is_blank(s[skip_blanks(s, i)]),
    decreases s.len() - i,
{
    lemma_line_end_bounds(s, i);
    if i < s.len() && is_blank(s[i]) {
        lemma_skip_blanks_bounds(s, i + 1);
    }
}

/// The end of a line lies between its start and the end of the text.
pub proof fn lemma_line_end_bounds(s: Seq<char>, i: int)
    requires
        0 <= i <= s.len(),
    ensures
        i <= line_end(s, i) <= s.len(),
        forall|k: int| i <= k < line_end(s, i) ==> !is_line_break(#[trigger] s[k]),
        line_end(s, i) < s.len() ==> is_line_break(s[line_end(s, i)]),
    decreases s.len() - i,
{
    if i < s.len() && !is_line_break(s[i]) {
        lemma_line_end_bounds(s, i + 1);
    }
}

/// A cell that is read ends within the text, at its end or at a cell end.
pub proof fn lemma_scan_cell_bounds(s: Seq<char>, i: int, kept: Seq<char>, pending: Seq<char>)
    requires
        0 <= i <= s.len(),
    ensures
        scan_cell(s, i, kept, pending) matches Some((c, j)) ==> i <= j <= s.len() && (j
            == s.len() || ends_cell(s[j])),
    decreases s.len() - i,
{
    if i >= s.len() || ends_cell(s[i]) {
    } else if s[i] == '\\' {
        if i + 1 < s.len() {
            lemma_scan_cell_bounds(s, i + 2, kept + pending.push(s[i + 1]), Seq::empty());
        }
    } else if is_white_space(s[i]) {
        lemma_scan_cell_bounds(s, i + 1, kept, pending.push(s[i]));
    } else {
        lemma_scan_cell_bounds(s, i + 1, kept + pending.push(s[i]), Seq::empty());
    }
}

/// The cell at `i`, blanks skipped, ends within the text, at its end or at a cell end.
pub proof fn lemma_cell_at_bounds(s: Seq<char>, i: int)
    requires
        0 <= i <= s.len(),
    ensures
        cell_at(s, i) matches Some((c, j)) ==> i <= j <= s.len() && (j == s.len() || ends_cell(
            s[j],
        )),
{
    lemma_skip_blanks_bounds(s, i);
    lemma_scan_cell_bounds(s, skip_blanks(s, i), Seq::empty(), Seq::empty());
}

/// The cells that follow a separator at `i`, one per separator, and the index after the last.
/// `None` when one of them ends in a backslash that ends `s`.
pub open spec fn cells_from(s: Seq<char>, i: int) -> Option<(Seq<Seq<char>>, int)>
    decreases s.len() - i,
{
    if 0 <= i < s.len() && s[i] == CELL_SEPARATOR {
        proof {
            lemma_cell_at_bounds(s, i + 1);
        }
        match cell_at(s, i + 1) {
            None => None,
            Some((c, j)) => match cells_from(s, j) {
                None => None,
                Some((rest, k)) => Some((seq![c] + rest, k)),
            },
        }
    } else {
        Some((Seq::empty(), i))
    }
}


/// What a line of a listfile means, over character sequences.
pub enum SpecLine {
    Empty,
    Whitespace,
    Comment { content: Seq<char> },
    Config { key: Seq<char>, value: Seq<char> },
    RepoSpec { local: Seq<char>, remote: Seq<char>, param: Seq<char> },
    Malformed,
}

/// One parsed line of a listfile or configuration file.
pub enum ParsedLine {
    Empty,
    Whitespace,
    Comment { content: String },
    Config { key: String, value: String },
    RepoSpec { local: String, remote: String, param: String },
    Malformed,
}

impl View for ParsedLine {
    type V = SpecLine;

    open spec fn view(&self) -> SpecLine {
        match self {
            ParsedLine::Empty => SpecLine::Empty,
            ParsedLine::Whitespace => SpecLine::Whitespace,
            ParsedLine::Comment { content } => SpecLine::Comment { content: content@ },
            ParsedLine::Config { key, value } => SpecLine::Config { key: key@, value: value@ },
            ParsedLine::RepoSpec { local, remote, param } => SpecLine::RepoSpec {
                local: local@,
                remote: remote@,
                param: param@,
            },
            ParsedLine::Malformed => SpecLine::Malformed,
        }
    }
}

/// The meaning of a line made of `cells` (at least one).
/// More than three cells is malformed. An empty first cell makes a blank line (one cell),
/// or a configuration line whose key is the second cell, which must not be empty, and whose
/// value is the third cell or empty. Otherwise the line names a repository: the remote is
/// the first cell, the local path the second (or the remote), the parameter the third (or
/// the local path).
pub open spec fn classify_cells(cells: Seq<Seq<char>>) -> SpecLine {
    if cells.len() > 3 {
        SpecLine::Malformed
    } else if cells[0].len() == 0 {
        if cells.len() == 1 {
            SpecLine::Whitespace
        } else if cells[1].len() == 0 {
            SpecLine::Malformed
        } else {
            SpecLine::Config {
                key: cells[1],
                value: if cells.len() > 2 {
                    cells[2]
                } else {
                    Seq::empty()
                },
            }
        }
    } else {
        let local = if cells.len() > 1 {
            cells[1]
        } else {
            cells[0]
        };
        SpecLine::RepoSpec {
            remote: cells[0],
            local: local,
            param: if cells.len() > 2 {
                cells[2]
            } else {
                local
            },
        }
    }
}

/// The line that starts at index `i` of `s`, and the index at which the next line starts.
/// `None` where a cell after the first ends in a backslash that ends `s`.
pub open spec fn line_at(s: Seq<char>, i: int) -> Option<(SpecLine, int)> {
    if i >= s.len() {
        Some((SpecLine::Empty, i))
    } else {
        let le = line_end(s, i);
        let p = skip_blanks(s, i);
        if p < le && s[p] == '#' {
            Some(
                (
                    SpecLine::Comment { content: s.subrange(skip_blanks(s, p + 1), le) },
                    after_line_ending(s, le),
                ),
            )
        } else {
            match cell_at(s, i) {
                None => Some((SpecLine::Malformed, s.len() as int)),
                Some((first, j)) => match cells_from(s, j) {
                    None => None,
                    Some((rest, k)) => Some(
                        (classify_cells(seq![first] + rest), after_line_ending(s, k)),
                    ),
                },
            }
        }
    }
}

/// Index of the first non-blank character at or after `i`.
fn skip_blanks_at(s: &[char], i: usize) -> (j: usize)
    requires
        i <= s@.len(),
    ensures
        j == skip_blanks(s@, i as int),
        i <= j <= s@.len(),
{
    proof {
        lemma_skip_blanks_bounds(s@, i as int);
    }
    let mut j = i;
    while j < s.len() && s[j].is_whitespace() && s[j] != '\r' && s[j] != '\n'
        invariant
            i <= j <= s@.len(),
            skip_blanks(s@, j as int) == skip_blanks(s@, i as int),
        decreases s@.len() - j,
    {
        j = j + 1;
    }
    j
}

/// Index of the first line break at or after `i`.
fn line_end_at(s: &[char], i: usize) -> (j: usize)
    requires
        i <= s@.len(),
    ensures
        j == line_end(s@, i as int),
        i <= j <= s@.len(),
{
    proof {
        lemma_line_end_bounds(s@, i as int);
    }
    let mut j = i;
    while j < s.len() && s[j] != '\r' && s[j] != '\n'
        invariant
            i <= j <= s@.len(),
            line_end(s@, j as int) == line_end(s@, i as int),
        decreases s@.len() - j,
    {
        j = j + 1;
    }
    j
}

/// Index past the line ending that starts at `i`, if any.
fn after_line_ending_at(s: &[char], i: usize) -> (j: usize)
    requires
        i <= s@.len(),
    ensures
        j == after_line_ending(s@, i as int),
        i <= j <= s@.len(),
{
    if i < s.len() && s[i] == '\r' {
        if i + 1 < s.len() && s[i + 1] == '\n' {
            i + 2
        } else {
            i + 1
        }
    } else if i < s.len() && s[i] == '\n' {
        i + 1
    } else {
        i
    }
}

/// The characters `s[from..to]`.
fn copy_range(s: &[char], from: usize, to: usize) -> (out: Vec<char>)
    requires
        from <= to <= s@.len(),
    ensures
        out@ == s@.subrange(from as int, to as int),
{
    let mut out: Vec<char> = Vec::new();
    let mut k = from;
    while k < to
        invariant
            from <= k <= to <= s@.len(),
            out@ == s@.subrange(from as int, k as int),
        decreases to - k,
    {
        out.push(s[k]);
        k = k + 1;
        assert(out@ =~= s@.subrange(from as int, k as int));
    }
    out
}

/// Reads the cell that starts at `i`: its text and the index at which it ends,
/// or `None` for a backslash that ends `s`.
fn cell_at_index(s: &[char], i: usize) -> (r: Option<(Vec<char>, usize)>)
    requires
        i <= s@.len(),
    ensures
        match cell_at(s@, i as int) {
            None => r is None,
            Some((c, j)) => r matches Some((v, k)) && v@ == c && k == j,
        },
        r matches Some((v, k)) ==> i <= k <= s@.len(),
{
    proof {
        lemma_cell_at_bounds(s@, i as int);
    }
    let start = skip_blanks_at(s, i);
    let mut cell: Vec<char> = Vec::new();
    let mut rtrim: usize = 0;
    let mut j = start;
    assert(cell@.subrange(0, 0) =~= Seq::<char>::empty());
    while j < s.len() && s[j] != '\r' && s[j] != '\n' && s[j] != CELL_SEPARATOR
        invariant
            start <= j <= s@.len(),
            rtrim <= cell@.len(),
            scan_cell(s@, j as int, cell@.subrange(0, rtrim as int), cell@.subrange(rtrim as int, cell@.len() as int))
                == cell_at(s@, i as int),
        decreases s@.len() - j,
    {
        let ghost kept = cell@.subrange(0, rtrim as int);
        let ghost pending = cell@.subrange(rtrim as int, cell@.len() as int);
        let c = s[j];
        j = j + 1;
        if c == '\\' {
            if j >= s.len() {
                return None;
            }
            let e = s[j];
            cell.push(e);
            rtrim = cell.len();
            j = j + 1;
            assert(cell@.subrange(0, rtrim as int) =~= kept + pending.push(e));
            assert(cell@.subrange(rtrim as int, cell@.len() as int) =~= Seq::<char>::empty());
        } else {
            cell.push(c);
            if !c.is_whitespace() {
                rtrim = cell.len();
                assert(cell@.subrange(0, rtrim as int) =~= kept + pending.push(c));
                assert(cell@.subrange(rtrim as int, cell@.len() as int) =~= Seq::<char>::empty());
            } else {
                assert(cell@.subrange(0, rtrim as int) =~= kept);
                assert(cell@.subrange(rtrim as int, cell@.len() as int) =~= pending.push(c));
            }
        }
    }
    let ghost kept = cell@.subrange(0, rtrim as int);
    cell.truncate(rtrim);
    assert(cell@ =~= kept);
    Some((cell, j))
}


/// The cells after a separator end within the text, at its end or at a line break.
pub proof fn lemma_cells_from_bounds(s: Seq<char>, i: int)
    requires
        0 <= i <= s.len(),
        i == s.len() || ends_cell(s[i]),
    ensures
        cells_from(s, i) matches Some((rest, k)) ==> i <= k <= s.len() && (k == s.len()
            || is_line_break(s[k])),
    decreases s.len() - i,
{
    if i < s.len() && s[i] == CELL_SEPARATOR {
        lemma_cell_at_bounds(s, i + 1);
        if let Some((c, j)) = cell_at(s, i + 1) {
            lemma_cells_from_bounds(s, j);
        }
    }
}

/// Every line that is read ends after the index at which it starts, within the text.
pub proof fn lemma_line_at_advances(s: Seq<char>, i: int)
    requires
        0 <= i < s.len(),
    ensures
        line_at(s, i) matches Some((l, j)) ==> i < j <= s.len(),
{
    lemma_line_end_bounds(s, i);
    lemma_skip_blanks_bounds(s, i);
    let le = line_end(s, i);
    let p = skip_blanks(s, i);
    if p < le && s[p] == '#' {
    } else {
        lemma_cell_at_bounds(s, i);
        if let Some((first, j)) = cell_at(s, i) {
            lemma_cells_from_bounds(s, j);
        }
    }
}

/// Reads the line that starts at `i`; `None` where a later cell ends in a backslash that
/// ends `s`.
fn line_at_index(s: &[char], i: usize) -> (r: Option<(ParsedLine, usize)>)
    requires
        i <= s@.len(),
    ensures
        match line_at(s@, i as int) {
            None => r is None,
            Some((l, j)) => r matches Some((pl, k)) && pl@ == l && k == j,
        },
        r matches Some((pl, k)) ==> i <= k <= s@.len(),
{
    if i >= s.len() {
        return Some((ParsedLine::Empty, i));
    }
    let le = line_end_at(s, i);
    let p = skip_blanks_at(s, i);
    if p < le && s[p] == '#' {
        proof {
            lemma_skip_blanks_bounds(s@, (p + 1) as int);
            lemma_line_end_bounds(s@, i as int);
            lemma_line_end_bounds(s@, (p + 1) as int);
            assert(line_end(s@, (p + 1) as int) == le) by {
                lemma_line_end_unchanged(s@, i as int, (p + 1) as int);
            }
        }
        let q = skip_blanks_at(s, p + 1);
        let content = copy_range(s, q, le);
        let rem = after_line_ending_at(s, le);
        return Some((ParsedLine::Comment { content: string_from_chars(content.as_slice()) }, rem));
    }
    match cell_at_index(s, i) {
        None => Some((ParsedLine::Malformed, s.len())),
        Some((first, j)) => {
            let ghost first_view = first@;
            let mut cells: Vec<Vec<char>> = Vec::new();
            cells.push(first);
            let ghost mut got: Seq<Seq<char>> = seq![first_view];
            let mut k = j;
            while k < s.len() && s[k] == CELL_SEPARATOR
                invariant
                    i < s@.len(),
                    j <= k <= s@.len(),
                    line_end(s@, i as int) == le as int,
                    skip_blanks(s@, i as int) == p as int,
                    !(p < le && s@[p as int] == '#'),
                    cell_at(s@, i as int) == Some((first_view, j as int)),
                    got.len() == cells@.len(),
                    got.len() >= 1,
                    got[0] == first_view,
                    forall|m: int| 0 <= m < got.len() ==> #[trigger] cells@[m]@ == got[m],
                    cells_from(s@, j as int) == (match cells_from(s@, k as int) {
                        None => None,
                        Some((rest, e)) => Some((got.drop_first() + rest, e)),
                    }),
                decreases s@.len() - k,
            {
                match cell_at_index(s, k + 1) {
                    None => {
                        assert(cells_from(s@, k as int) is None);
                        return None;
                    },
                    Some((c, nk)) => {
                        let ghost cv = c@;
                        proof {
                            if let Some((rest, e)) = cells_from(s@, nk as int) {
                                assert(got.drop_first() + (seq![cv] + rest) =~= got.push(cv).drop_first()
                                    + rest);
                            }
                            got = got.push(cv);
                        }
                        cells.push(c);
                        k = nk;
                    },
                }
            }
            proof {
                assert(got.drop_first() + Seq::<Seq<char>>::empty() =~= got.drop_first());
                assert(seq![first_view] + got.drop_first() =~= got);
            }
            let rem = after_line_ending_at(s, k);
            let n = cells.len();
            if n > 3 {
                return Some((ParsedLine::Malformed, rem));
            }
            assert(cells@[0]@ == got[0]);
            if cells[0].len() == 0 {
                if n == 1 {
                    return Some((ParsedLine::Whitespace, rem));
                }
                assert(cells@[1]@ == got[1]);
                if cells[1].len() == 0 {
                    return Some((ParsedLine::Malformed, rem));
                }
                let key = string_from_chars(cells[1].as_slice());
                let value = if n > 2 {
                    assert(cells@[2]@ == got[2]);
                    string_from_chars(cells[2].as_slice())
                } else {
                    String::new()
                };
                return Some((ParsedLine::Config { key, value }, rem));
            }
            let remote = string_from_chars(cells[0].as_slice());
            let local = if n > 1 {
                assert(cells@[1]@ == got[1]);
                string_from_chars(cells[1].as_slice())
            } else {
                string_from_chars(cells[0].as_slice())
            };
            let param = if n > 2 {
                assert(cells@[2]@ == got[2]);
                string_from_chars(cells[2].as_slice())
            } else if n > 1 {
                string_from_chars(cells[1].as_slice())
            } else {
                string_from_chars(cells[0].as_slice())
            };
            Some((ParsedLine::RepoSpec { local, remote, param }, rem))
        },
    }
}

proof fn lemma_line_end_unchanged(s: Seq<char>, i: int, m: int)
    requires
        0 <= i <= m <= line_end(s, i),
        line_end(s, i) <= s.len(),
    ensures
        line_end(s, m) == line_end(s, i),
    decreases m - i,
{
    if i < m {
        lemma_line_end_unchanged(s, i + 1, m);
    }
}


/// Why a cell could not be read.
#[derive(Debug, Clone, Copy, PartialEq, Eq)]
pub enum CellError {
    /// A backslash ends the input, with no character to escape.
    TrailingBackslash,
}

impl CellError {
    /// A human-readable description of the error.
    pub fn message(&self) -> (m: String)
        ensures
            m@ == "Trailing backslash at end of line with nothing to escape"@,
    {
        match self {
            CellError::TrailingBackslash => string_of(
                "Trailing backslash at end of line with nothing to escape",
            ),
        }
    }
}

/// Skips leading white space other than CR and LF; returns the rest of `input`.
pub fn skip_whitespace(input: &str) -> (rest: &str)
    ensures
        rest@ == input@.subrange(skip_blanks(input@, 0), input@.len() as int),
{
    let cs = chars_of(input);
    let j = skip_blanks_at(cs.as_slice(), 0);
    input.substring_char(j, cs.len())
}

/// Consumes one line ending (CR, LF or CRLF) at the start of `input`; returns the rest.
pub fn consume_line_ending(input: &str) -> (rest: &str)
    ensures
        rest@ == input@.subrange(after_line_ending(input@, 0), input@.len() as int),
{
    let cs = chars_of(input);
    let j = after_line_ending_at(cs.as_slice(), 0);
    input.substring_char(j, cs.len())
}

/// Parses one cell from the start of `input`: skips leading blanks, reads up to the first
/// unescaped CR, LF or separator, resolves backslash escapes and drops unescaped trailing
/// white space. Returns the cell and the rest of the input, which starts at the character
/// that ended the cell. A backslash that ends the input is an error.
pub fn parse_config_cell(input: &str) -> (r: Result<(String, &str), CellError>)
    ensures
        match cell_at(input@, 0) {
            None => r == Err::<(String, &str), CellError>(CellError::TrailingBackslash),
            Some((c, j)) => r matches Ok((cell, rest)) && cell@ == c && rest@ == input@.subrange(
                j,
                input@.len() as int,
            ),
        },
{
    let cs = chars_of(input);
    match cell_at_index(cs.as_slice(), 0) {
        None => Err(CellError::TrailingBackslash),
        Some((cell, j)) => Ok((string_from_chars(cell.as_slice()), input.substring_char(j, cs.len()))),
    }
}

/// Parses the first line of `input`; returns it with the rest of the input, which starts
/// after the line's ending. The input must not be one on which a cell after the first
/// ends in a backslash that ends the input.
pub fn parse_config_line(input: &str) -> (r: (ParsedLine, &str))
    requires
        line_at(input@, 0) is Some,
    ensures
        line_at(input@, 0) matches Some((l, j)) && r.0@ == l && r.1@ == input@.subrange(
            j,
            input@.len() as int,
        ),
{
    let cs = chars_of(input);
    match line_at_index(cs.as_slice(), 0) {
        Some((line, j)) => (line, input.substring_char(j, cs.len())),
        None => (ParsedLine::Malformed, input),
    }
}

/// Whether `parse_config_line` is defined on `input`.
pub fn parse_config_line_defined(input: &str) -> (b: bool)
    ensures
        b == line_at(input@, 0) is Some,
{
    let cs = chars_of(input);
    line_at_index(cs.as_slice(), 0).is_some()
}

/// All lines of `s` from index `i` to the end, in order; `None` where one is undefined.
pub open spec fn lines_from(s: Seq<char>, i: int) -> Option<Seq<SpecLine>>
    decreases s.len() - i,
{
    if i < 0 || i >= s.len() {
        Some(Seq::empty())
    } else {
        proof {
            lemma_line_at_advances(s, i);
        }
        match line_at(s, i) {
            None => None,
            Some((l, j)) => match lines_from(s, j) {
                None => None,
                Some(rest) => Some(seq![l] + rest),
            },
        }
    }
}

/// The lines from index `i` on are the line at `i` followed by the lines after it.
pub proof fn lemma_lines_from_unfold(s: Seq<char>, i: int)
    requires
        0 <= i < s.len(),
        lines_from(s, i) is Some,
    ensures
        line_at(s, i) matches Some((l, j)) && lines_from(s, j) matches Some(rest) && lines_from(
            s,
            i,
        ) == Some(seq![l] + rest),
{
}

/// No lines remain at or past the end of the text.
pub proof fn lemma_lines_from_end(s: Seq<char>, i: int)
    requires
        i >= s.len(),
    ensures
        lines_from(s, i) == Some(Seq::<SpecLine>::empty()),
{
}

/// Iterator over the parsed lines of a text.
pub struct LineIterator {
    content: Vec<char>,
    position: usize,
}

impl LineIterator {
    #[verifier::type_invariant]
    spec fn inv(self) -> bool {
        self.position <= self.content@.len()
    }

    /// The text being read.
    pub closed spec fn text(&self) -> Seq<char> {
        self.content@
    }

    /// The index at which the next line starts.
    pub closed spec fn pos(&self) -> int {
        self.position as int
    }

    /// The lines that are still to come.
    pub open spec fn remaining_lines(&self) -> Option<Seq<SpecLine>> {
        lines_from(self.text(), self.pos())
    }

    /// Whether `next` is defined in this state.
    pub open spec fn next_defined(&self) -> bool {
        self.pos() >= self.text().len() || line_at(self.text(), self.pos()) is Some
    }

    /// The remaining lines are the next line followed by those after it.
    pub proof fn lemma_lines_from_unfold_at(it: LineIterator)
        requires
            it.pos() < it.text().len(),
            it.remaining_lines() is Some,
        ensures
            line_at(it.text(), it.pos()) matches Some((l, j)) && lines_from(it.text(), j) matches Some(
                rest,
            ) && it.remaining_lines() == Some(seq![l] + rest),
    {
        lemma_lines_from_unfold(it.text(), it.pos());
    }

    /// An iterator over the lines of `content`, starting at its beginning.
    pub fn from_text(content: &str) -> (it: LineIterator)
        ensures
            it.text() == content@,
            it.pos() == 0,
    {
        LineIterator { content: chars_of(content), position: 0 }
    }

    /// An iterator over the lines of a text given as bytes, starting at its beginning;
    /// `None` when the bytes are not valid UTF-8.
    pub fn from_bytes(bytes: &[u8]) -> (r: Option<LineIterator>)
        ensures
            match r {
                Some(it) => vstd::utf8::valid_utf8(bytes@) && it.text() == vstd::utf8::decode_utf8(
                    bytes@,
                ) && it.pos() == 0,
                None => !vstd::utf8::valid_utf8(bytes@),
            },
    {
        match utf8_text(bytes) {
            Some(t) => Some(LineIterator::from_text(t)),
            None => None,
        }
    }

    /// An iterator in the same state.
    pub fn duplicate(&self) -> (r: LineIterator)
        ensures
            r.text() == self.text(),
            r.pos() == self.pos(),
    {
        proof {
            use_type_invariant(self);
        }
        let content = self.content.clone();
        assert(content@ =~= self.content@);
        LineIterator { content, position: self.position }
    }

    /// No lines remain where `next` is undefined.
    pub proof fn lemma_undefined_next(it: LineIterator)
        requires
            !it.next_defined(),
        ensures
            it.remaining_lines() is None,
    {
    }

    /// Whether `next` is defined in this state.
    pub fn can_advance(&self) -> (b: bool)
        ensures
            b == self.next_defined(),
    {
        proof {
            use_type_invariant(self);
        }
        if self.position >= self.content.len() {
            return true;
        }
        line_at_index(self.content.as_slice(), self.position).is_some()
    }

    /// The next line, or `None` at the end of the text.
    pub fn next(&mut self) -> (r: Option<ParsedLine>)
        requires
            old(self).next_defined(),
        ensures
            final(self).text() == old(self).text(),
            old(self).pos() >= old(self).text().len() ==> r is None && final(self).pos()
                == old(self).pos(),
            old(self).pos() < old(self).text().len() ==> (line_at(old(self).text(), old(self).pos())
                matches Some((l, j)) && r matches Some(pl) && pl@ == l && final(self).pos()
                == j),
    {
        proof {
            use_type_invariant(&*self);
        }
        if self.position >= self.content.len() {
            return None;
        }
        match line_at_index(self.content.as_slice(), self.position) {
            Some((line, j)) => {
                self.position = j;
                Some(line)
            },
            None => None,
        }
    }
}

} // verus!
