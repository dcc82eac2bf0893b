//! Properties of the listfile grammar.
use vstd::prelude::*;
use crate::listfile::{
    after_line_ending, cell_at, cells_from, ends_cell, is_blank, is_line_break,
    lemma_cell_at_bounds, lemma_line_at_advances, lemma_line_end_bounds, lemma_skip_blanks_bounds,
    line_at, line_end, lines_from, scan_cell, skip_blanks, SpecLine,
};
use crate::text::is_white_space;

verus! {

proof fn lemma_scan_escapes(s: Seq<char>, t: Seq<char>, i: int, kept: Seq<char>)
    requires
        0 <= i,
        i + 2 * t.len() <= s.len(),
        forall|k: int| 0 <= k < t.len() ==> s[i + 2 * k + 1] == #[trigger] t[k] && s[i + 2 * k] == '\\',
        i + 2 * t.len() == s.len() || ends_cell(s[i + 2 * t.len()]),
    ensures
        scan_cell(s, i, kept, Seq::empty()) == Some((kept + t, i + 2 * t.len() as int)),
    decreases t.len(),
{
    if t.len() == 0 {
        assert(kept + t =~= kept);
    } else {
        assert(s[i + 1] == t[0]);
        assert(s[i] == '\\');
        let t2 = t.drop_first();
        assert forall|k: int| 0 <= k < t2.len() implies s[(i + 2) + 2 * k + 1] == #[trigger] t2[k] && s[(i + 2)
            + 2 * k] == '\\' by {
            assert(s[i + 2 * (k + 1) + 1] == t[k + 1]);
            assert(s[i + 2 * (k + 1)] == '\\');
        }
        lemma_scan_escapes(s, t2, i + 2, kept + Seq::<char>::empty().push(t[0]));
        assert(kept + Seq::<char>::empty().push(t[0]) + t2 =~= kept + t);
    }
}

/// A backslash escapes any character: a cell written as backslash-escaped characters reads
/// as exactly those characters, whatever they are (separators, line breaks, white space,
/// backslashes), with none trimmed, and it ends where the escapes end.
pub proof fn law_escaped_characters_read_literally(s: Seq<char>, t: Seq<char>)
    requires
        2 * t.len() <= s.len(),
        forall|k: int| 0 <= k < t.len() ==> s[2 * k + 1] == #[trigger] t[k] && s[2 * k] == '\\',
        2 * t.len() == s.len() || ends_cell(s[2 * t.len() as int]),
    ensures
        cell_at(s, 0) == Some((t, 2 * t.len() as int)),
{
    if t.len() > 0 {
        assert(s[2 * 0int + 1] == t[0]);
        assert(s[0] == '\\');
    }
    assert forall|k: int| 0 <= k < t.len() implies s[0 + 2 * k + 1] == #[trigger] t[k] && s[0 + 2
        * k] == '\\' by {
        assert(s[2 * k + 1] == t[k]);
        assert(s[2 * k] == '\\');
    }
    assert(skip_blanks(s, 0) == 0);
    lemma_scan_escapes(s, t, 0, Seq::empty());
    assert(Seq::<char>::empty() + t =~= t);
}

/// A character that a cell takes as it stands: neither a backslash nor a cell end.
pub open spec fn is_plain(c: char) -> bool {
    c != '\\' && !ends_cell(c)
}

proof fn lemma_scan_trailing_blanks(s: Seq<char>, j: int, e: int, kept: Seq<char>, pending: Seq<char>)
    requires
        0 <= j <= e <= s.len(),
        forall|k: int| j <= k < e ==> is_blank(#[trigger] s[k]),
        e == s.len() || ends_cell(s[e]),
    ensures
        scan_cell(s, j, kept, pending) == Some((kept, e)),
    decreases e - j,
{
    if j < e {
        assert(is_blank(s[j]));
        lemma_scan_trailing_blanks(s, j + 1, e, kept, pending.push(s[j]));
    }
}

proof fn lemma_scan_plain(
    s: Seq<char>,
    j: int,
    b: int,
    e: int,
    kept: Seq<char>,
    pending: Seq<char>,
)
    requires
        0 <= j < b <= e <= s.len(),
        forall|k: int| j <= k < b ==> is_plain(#[trigger] s[k]),
        !is_white_space(s[b - 1]),
        forall|k: int| b <= k < e ==> is_blank(#[trigger] s[k]),
        e == s.len() || ends_cell(s[e]),
    ensures
        scan_cell(s, j, kept, pending) == Some((kept + pending + s.subrange(j, b), e)),
    decreases b - j,
{
    assert(is_plain(s[j]));
    if is_white_space(s[j]) {
        lemma_scan_plain(s, j + 1, b, e, kept, pending.push(s[j]));
        assert(kept + pending.push(s[j]) + s.subrange(j + 1, b) =~= kept + pending + s.subrange(j, b));
    } else if j + 1 == b {
        lemma_scan_trailing_blanks(s, b, e, kept + pending.push(s[j]), Seq::empty());
        assert(kept + pending.push(s[j]) =~= kept + pending + s.subrange(j, b));
    } else {
        lemma_scan_plain(s, j + 1, b, e, kept + pending.push(s[j]), Seq::empty());
        assert(kept + pending.push(s[j]) + Seq::<char>::empty() + s.subrange(j + 1, b) =~= kept
            + pending + s.subrange(j, b));
    }
}

/// Unescaped blanks around a cell are dropped and the text between is kept as written,
/// white space inside it included.
pub proof fn law_cell_trims_surrounding_blanks(s: Seq<char>, a: int, b: int, e: int)
    requires
        0 <= a < b <= e <= s.len(),
        forall|k: int| 0 <= k < a ==> is_blank(#[trigger] s[k]),
        forall|k: int| a <= k < b ==> is_plain(#[trigger] s[k]),
        !is_white_space(s[a]),
        !is_white_space(s[b - 1]),
        forall|k: int| b <= k < e ==> is_blank(#[trigger] s[k]),
        e == s.len() || ends_cell(s[e]),
    ensures
        cell_at(s, 0) == Some((s.subrange(a, b), e)),
{
    lemma_skip_to(s, 0, a);
    lemma_scan_plain(s, a, b, e, Seq::empty(), Seq::empty());
    assert(Seq::<char>::empty() + Seq::<char>::empty() + s.subrange(a, b) =~= s.subrange(a, b));
}

proof fn lemma_skip_to(s: Seq<char>, i: int, a: int)
    requires
        0 <= i <= a < s.len(),
        forall|k: int| i <= k < a ==> is_blank(#[trigger] s[k]),
        !is_white_space(s[a]),
    ensures
        skip_blanks(s, i) == a,
    decreases a - i,
{
    if i < a {
        assert(is_blank(s[i]));
        lemma_skip_to(s, i + 1, a);
    }
}

proof fn lemma_scan_fails_only_at_end(s: Seq<char>, i: int, kept: Seq<char>, pending: Seq<char>)
    requires
        0 <= i <= s.len(),
    ensures
        scan_cell(s, i, kept, pending) is None ==> s.len() > 0 && s[s.len() - 1] == '\\',
    decreases s.len() - i,
{
    if i >= s.len() || ends_cell(s[i]) {
    } else if s[i] == '\\' {
        if i + 1 < s.len() {
            lemma_scan_fails_only_at_end(s, i + 2, kept + pending.push(s[i + 1]), Seq::empty());
        }
    } else if is_white_space(s[i]) {
        lemma_scan_fails_only_at_end(s, i + 1, kept, pending.push(s[i]));
    } else {
        lemma_scan_fails_only_at_end(s, i + 1, kept + pending.push(s[i]), Seq::empty());
    }
}

/// The only cell that cannot be read is one cut short by a backslash that ends the text.
pub proof fn law_cell_fails_only_on_final_backslash(s: Seq<char>, i: int)
    requires
        0 <= i <= s.len(),
    ensures
        cell_at(s, i) is None ==> s.len() > 0 && s[s.len() - 1] == '\\',
{
    crate::listfile::lemma_skip_blanks_bounds(s, i);
    lemma_scan_fails_only_at_end(s, skip_blanks(s, i), Seq::empty(), Seq::empty());
}

proof fn lemma_cells_from_defined(s: Seq<char>, i: int)
    requires
        0 <= i <= s.len(),
        s.len() == 0 || s[s.len() - 1] != '\\',
    ensures
        cells_from(s, i) is Some,
    decreases s.len() - i,
{
    if i < s.len() && s[i] == '*' {
        law_cell_fails_only_on_final_backslash(s, i + 1);
        lemma_cell_at_bounds(s, i + 1);
        if let Some((c, j)) = cell_at(s, i + 1) {
            lemma_cells_from_defined(s, j);
        }
    }
}

/// A text that does not end in a backslash is read line by line to its end: every line is
/// defined and so is the list of all its lines.
pub proof fn law_text_without_final_backslash_reads_fully(s: Seq<char>, i: int)
    requires
        0 <= i,
        s.len() == 0 || s[s.len() - 1] != '\\',
    ensures
        line_at(s, i) is Some,
        lines_from(s, i) is Some,
    decreases s.len() - i,
{
    if i < s.len() {
        law_cell_fails_only_on_final_backslash(s, i);
        lemma_cell_at_bounds(s, i);
        if let Some((c, j)) = cell_at(s, i) {
            lemma_cells_from_defined(s, j);
        }
        lemma_line_at_advances(s, i);
        if let Some((l, j)) = line_at(s, i) {
            law_text_without_final_backslash_reads_fully(s, j);
        }
    }
}

/// Reading lines always moves forward: the next line starts after the current one and no
/// later than the end of the text.
pub proof fn law_lines_advance(s: Seq<char>, i: int)
    requires
        0 <= i < s.len(),
    ensures
        line_at(s, i) matches Some((l, j)) ==> i < j <= s.len(),
{
    lemma_line_at_advances(s, i);
}

/// A position and its result moved on by `p`.
pub open spec fn shifted<A>(o: Option<(A, int)>, p: int) -> Option<(A, int)> {
    match o {
        Some((a, j)) => Some((a, j + p)),
        None => None,
    }
}

/// Skipping blanks in the text from `p` on is skipping them in the whole text.
proof fn lemma_skip_blanks_shift(s: Seq<char>, p: int, i: int)
    requires
        0 <= p <= i <= s.len(),
    ensures
        skip_blanks(s, i) == skip_blanks(s.subrange(p, s.len() as int), i - p) + p,
    decreases s.len() - i,
{
    let t = s.subrange(p, s.len() as int);
    if i < s.len() {
        assert(t[i - p] == s[i]);
        if is_blank(s[i]) {
            lemma_skip_blanks_shift(s, p, i + 1);
        }
    }
}

/// Finding the line end in the text from `p` on is finding it in the whole text.
proof fn lemma_line_end_shift(s: Seq<char>, p: int, i: int)
    requires
        0 <= p <= i <= s.len(),
    ensures
        line_end(s, i) == line_end(s.subrange(p, s.len() as int), i - p) + p,
    decreases s.len() - i,
{
    let t = s.subrange(p, s.len() as int);
    if i < s.len() {
        assert(t[i - p] == s[i]);
        if !is_line_break(s[i]) {
            lemma_line_end_shift(s, p, i + 1);
        }
    }
}

/// A line ending in the text from `p` on is one in the whole text.
proof fn lemma_after_line_ending_shift(s: Seq<char>, p: int, i: int)
    requires
        0 <= p <= i <= s.len(),
    ensures
        after_line_ending(s, i) == after_line_ending(s.subrange(p, s.len() as int), i - p) + p,
{
    let t = s.subrange(p, s.len() as int);
    if i < s.len() {
        assert(t[i - p] == s[i]);
    }
    if i + 1 < s.len() {
        assert(t[i + 1 - p] == s[i + 1]);
    }
}

/// Reading a cell in the text from `p` on is reading it in the whole text.
proof fn lemma_scan_cell_shift(s: Seq<char>, p: int, i: int, kept: Seq<char>, pending: Seq<char>)
    requires
        0 <= p <= i <= s.len(),
    ensures
        scan_cell(s, i, kept, pending) == shifted(
            scan_cell(s.subrange(p, s.len() as int), i - p, kept, pending),
            p,
        ),
    decreases s.len() - i,
{
    let t = s.subrange(p, s.len() as int);
    if i < s.len() {
        assert(t[i - p] == s[i]);
        if !ends_cell(s[i]) {
            if s[i] == '\\' {
                if i + 1 < s.len() {
                    assert(t[i + 1 - p] == s[i + 1]);
                    lemma_scan_cell_shift(s, p, i + 2, kept + pending.push(s[i + 1]), Seq::empty());
                }
            } else if is_white_space(s[i]) {
                lemma_scan_cell_shift(s, p, i + 1, kept, pending.push(s[i]));
            } else {
                lemma_scan_cell_shift(s, p, i + 1, kept + pending.push(s[i]), Seq::empty());
            }
        }
    }
}

/// The cell at `i` of the text from `p` on is the cell at `i` of the whole text.
proof fn lemma_cell_at_shift(s: Seq<char>, p: int, i: int)
    requires
        0 <= p <= i <= s.len(),
    ensures
        cell_at(s, i) == shifted(cell_at(s.subrange(p, s.len() as int), i - p), p),
{
    lemma_skip_blanks_shift(s, p, i);
    lemma_skip_blanks_bounds(s, i);
    lemma_scan_cell_shift(s, p, skip_blanks(s, i), Seq::empty(), Seq::empty());
}

/// The cells after a separator in the text from `p` on are those of the whole text.
proof fn lemma_cells_from_shift(s: Seq<char>, p: int, i: int)
    requires
        0 <= p <= i <= s.len(),
    ensures
        cells_from(s, i) == shifted(cells_from(s.subrange(p, s.len() as int), i - p), p),
    decreases s.len() - i,
{
    let t = s.subrange(p, s.len() as int);
    if i < s.len() {
        assert(t[i - p] == s[i]);
        if s[i] == '*' {
            lemma_cell_at_bounds(s, i + 1);
            lemma_cell_at_shift(s, p, i + 1);
            if let Some((c, j)) = cell_at(s, i + 1) {
                lemma_cells_from_shift(s, p, j);
            }
        }
    }
}

/// Reading a line at a position of a text is reading the first line of the text from that
/// position on: the same line, with the next line's start moved by the position. This is
/// what ties `LineIterator::next` to `parse_config_line` on the rest of the text.
pub proof fn law_line_at_suffix(s: Seq<char>, p: int)
    requires
        0 <= p <= s.len(),
    ensures
        line_at(s, p) == shifted(line_at(s.subrange(p, s.len() as int), 0), p),
{
    let t = s.subrange(p, s.len() as int);
    if p < s.len() {
        lemma_line_end_shift(s, p, p);
        lemma_skip_blanks_shift(s, p, p);
        lemma_line_end_bounds(s, p);
        lemma_skip_blanks_bounds(s, p);
        let le = line_end(s, p);
        let q = skip_blanks(s, p);
        if q < le {
            assert(t[q - p] == s[q]);
        }
        if q < le && s[q] == '#' {
            lemma_skip_blanks_shift(s, p, q + 1);
            lemma_after_line_ending_shift(s, p, le);
            let a = skip_blanks(s, q + 1);
            lemma_skip_blanks_bounds(s, q + 1);
            assert(t.subrange(a - p, le - p) =~= s.subrange(a, le));
        } else {
            lemma_cell_at_shift(s, p, p);
            lemma_cell_at_bounds(s, p);
            if let Some((first, j)) = cell_at(s, p) {
                lemma_cells_from_shift(s, p, j);
                if let Some((rest, k)) = cells_from(s, j) {
                    crate::listfile::lemma_cells_from_bounds(s, j);
                    lemma_after_line_ending_shift(s, p, k);
                }
            }
        }
    } else {
        assert(t.len() == 0);
    }
}

/// A cell written as it reads: no backslash, separator, line break or white space.
pub open spec fn is_word(w: Seq<char>) -> bool {
    forall|k: int| 0 <= k < w.len() ==> is_plain(#[trigger] w[k]) && !is_white_space(w[k])
}

/// A word that stands at `i` of `s` and is followed by a cell end reads as itself.
proof fn lemma_word_cell(s: Seq<char>, i: int, w: Seq<char>)
    requires
        0 <= i,
        i + w.len() < s.len(),
        is_word(w),
        s.subrange(i, i + w.len()) == w,
        ends_cell(s[i + w.len()]),
    ensures
        cell_at(s, i) == Some((w, i + w.len())),
{
    let e = i + w.len();
    if w.len() == 0 {
        assert(!is_blank(s[i]));
        assert(skip_blanks(s, i) == i);
    } else {
        assert(s[i] == w[0]);
        assert forall|k: int| i <= k < e implies is_plain(#[trigger] s[k]) by {
            assert(s[k] == w[k - i]);
        }
        assert(s[e - 1] == w[w.len() - 1]);
        lemma_skip_to(s, i, i);
        lemma_scan_plain(s, i, e, e, Seq::empty(), Seq::empty());
        assert(Seq::<char>::empty() + Seq::<char>::empty() + s.subrange(i, e) =~= w);
    }
}

/// A line of words cannot be read as a comment when its first word is not empty and does
/// not start with `#`.
proof fn lemma_not_comment(s: Seq<char>, a: Seq<char>)
    requires
        a.len() > 0,
        a.len() < s.len(),
        is_word(a),
        a[0] != '#',
        s.subrange(0, a.len() as int) == a,
    ensures
        skip_blanks(s, 0) == 0,
        s[0] != '#',
{
    assert(s[0] == a[0]);
    assert(is_plain(a[0]) && !is_white_space(a[0]));
    lemma_skip_to(s, 0, 0);
}

/// A repository line of three cells names the remote, the local path and the parameter by
/// position: `remote*local*param` reads as exactly those three words, whatever they are,
/// an empty local path or parameter included.
pub proof fn law_repo_line_three_cells(remote: Seq<char>, local: Seq<char>, param: Seq<char>)
    requires
        remote.len() > 0,
        remote[0] != '#',
        is_word(remote),
        is_word(local),
        is_word(param),
    ensures
        ({
            let s = remote + seq!['*'] + local + seq!['*'] + param + seq!['\n'];
            line_at(s, 0) == Some(
                (SpecLine::RepoSpec { remote: remote, local: local, param: param }, s.len() as int),
            )
        }),
{
    let s = remote + seq!['*'] + local + seq!['*'] + param + seq!['\n'];
    let i1 = remote.len() as int;
    let i2 = i1 + 1 + local.len();
    let i3 = i2 + 1 + param.len();
    assert(s.len() == i3 + 1);
    assert(s.subrange(0, i1) =~= remote);
    assert(s[i1] == '*');
    assert(s.subrange(i1 + 1, i2) =~= local);
    assert(s[i2] == '*');
    assert(s.subrange(i2 + 1, i3) =~= param);
    assert(s[i3] == '\n');
    lemma_not_comment(s, remote);
    lemma_word_cell(s, 0, remote);
    lemma_word_cell(s, i1 + 1, local);
    lemma_word_cell(s, i2 + 1, param);
    assert(cells_from(s, i3) == Some((Seq::<Seq<char>>::empty(), i3)));
    assert(cells_from(s, i2) == Some((seq![param], i3))) by {
        assert(seq![param] + Seq::<Seq<char>>::empty() =~= seq![param]);
    }
    assert(cells_from(s, i1) == Some((seq![local, param], i3))) by {
        assert(seq![local] + seq![param] =~= seq![local, param]);
    }
    assert(seq![remote] + seq![local, param] =~= seq![remote, local, param]);
    assert(after_line_ending(s, i3) == s.len());
}

/// A repository line of two cells names the remote and the local path by position, and
/// the parameter is the local path: `remote*local` reads as exactly those words, an empty
/// local path included.
pub proof fn law_repo_line_two_cells(remote: Seq<char>, local: Seq<char>)
    requires
        remote.len() > 0,
        remote[0] != '#',
        is_word(remote),
        is_word(local),
    ensures
        ({
            let s = remote + seq!['*'] + local + seq!['\n'];
            line_at(s, 0) == Some(
                (SpecLine::RepoSpec { remote: remote, local: local, param: local }, s.len() as int),
            )
        }),
{
    let s = remote + seq!['*'] + local + seq!['\n'];
    let i1 = remote.len() as int;
    let i2 = i1 + 1 + local.len();
    assert(s.len() == i2 + 1);
    assert(s.subrange(0, i1) =~= remote);
    assert(s[i1] == '*');
    assert(s.subrange(i1 + 1, i2) =~= local);
    assert(s[i2] == '\n');
    lemma_not_comment(s, remote);
    lemma_word_cell(s, 0, remote);
    lemma_word_cell(s, i1 + 1, local);
    assert(cells_from(s, i2) == Some((Seq::<Seq<char>>::empty(), i2)));
    assert(cells_from(s, i1) == Some((seq![local], i2))) by {
        assert(seq![local] + Seq::<Seq<char>>::empty() =~= seq![local]);
    }
    assert(seq![remote] + seq![local] =~= seq![remote, local]);
    assert(after_line_ending(s, i2) == s.len());
}

} // verus!
