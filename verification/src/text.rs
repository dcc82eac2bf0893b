//! Character-level helpers over `str` and `char` used throughout the crate.
use vstd::prelude::*;

verus! {

/// The Unicode `White_Space` property: the code points U+0009..U+000D, U+0020, U+0085,
/// U+00A0, U+1680, U+2000..U+200A, U+2028, U+2029, U+202F, U+205F and U+3000.
pub open spec fn is_white_space(c: char) -> bool {
    ||| ('\u{9}' <= c && c <= '\u{d}')
    ||| c == ' '
    ||| c == '\u{85}'
    ||| c == '\u{a0}'
    ||| c == '\u{1680}'
    ||| ('\u{2000}' <= c && c <= '\u{200a}')
    ||| c == '\u{2028}'
    ||| c == '\u{2029}'
    ||| c == '\u{202f}'
    ||| c == '\u{205f}'
    ||| c == '\u{3000}'
}

/// `char::is_whitespace` reports whether a character has the Unicode `White_Space`
/// property; the contract lists that property's code points.
pub assume_specification[ char::is_whitespace ](c: char) -> (r: bool)
    ensures
        r == is_white_space(c),
;

/// Collects characters into a `String` through std's `FromIterator<char>` for `String`;
/// the contract claims the string holds exactly those characters, in order.
#[verifier::external_body]
pub(crate) fn string_from_chars(cs: &[char]) -> (s: String)
    ensures
        s@ == cs@,
{
    String::from_iter(cs)
}

/// The characters of `s`, in order.
pub fn chars_of(s: &str) -> (out: Vec<char>)
    ensures
        out@ == s@,
{
    let mut out: Vec<char> = Vec::new();
    for c in it: s.chars()
        invariant
            out@ == it.seq().subrange(0, it.index() as int),
            it.seq() == s@,
    {
        out.push(c);
    }
    out
}

/// Whether two character sequences are equal.
pub fn chars_equal(a: &[char], b: &[char]) -> (r: bool)
    ensures
        r == (a@ == b@),
{
    if a.len() != b.len() {
        return false;
    }
    let mut i: usize = 0;
    while i < a.len()
        invariant
            a@.len() == b@.len(),
            i <= a@.len(),
            forall|k: int| 0 <= k < i ==> a@[k] == b@[k],
        decreases a@.len() - i,
    {
        if a[i] != b[i] {
            return false;
        }
        i = i + 1;
    }
    assert(a@ =~= b@);
    true
}

/// Whether two strings hold the same characters.
pub fn str_equal(a: &str, b: &str) -> (r: bool)
    ensures
        r == (a@ == b@),
{
    let ca = chars_of(a);
    let cb = chars_of(b);
    chars_equal(ca.as_slice(), cb.as_slice())
}

/// A fresh `String` holding the characters of `s`.
pub fn string_of(s: &str) -> (r: String)
    ensures
        r@ == s@,
{
    s.to_owned()
}


/// Whether `c` occurs in `s`.
pub fn contains_char(s: &[char], c: char) -> (r: bool)
    ensures
        r == s@.contains(c),
{
    let mut i: usize = 0;
    while i < s.len()
        invariant
            i <= s@.len(),
            forall|k: int| 0 <= k < i ==> s@[k] != c,
        decreases s@.len() - i,
    {
        if s[i] == c {
            assert(s@[i as int] == c);
            return true;
        }
        i = i + 1;
    }
    false
}


/// `s` without all of its trailing `c` characters.
pub open spec fn trim_end_char(s: Seq<char>, c: char) -> Seq<char>
    decreases s.len(),
{
    if s.len() > 0 && s[s.len() - 1] == c {
        trim_end_char(s.drop_last(), c)
    } else {
        s
    }
}

/// `s` without all of its leading `c` characters.
pub open spec fn trim_start_char(s: Seq<char>, c: char) -> Seq<char>
    decreases s.len(),
{
    if s.len() > 0 && s[0] == c {
        trim_start_char(s.drop_first(), c)
    } else {
        s
    }
}

/// The first index at or after `k` at which `pat` occurs in `s`.
pub open spec fn find_from(s: Seq<char>, pat: Seq<char>, k: int) -> Option<int>
    decreases s.len() + 1 - k,
{
    if k < 0 || k + pat.len() > s.len() {
        None
    } else if s.subrange(k, k + pat.len()) == pat {
        Some(k)
    } else {
        find_from(s, pat, k + 1)
    }
}

/// Where `find_from` finds `pat`, it occurs there, and not earlier from `k` on.
pub proof fn lemma_find_from_found(s: Seq<char>, pat: Seq<char>, k: int)
    requires
        0 <= k,
    ensures
        find_from(s, pat, k) matches Some(m) ==> k <= m && m + pat.len() <= s.len() && s.subrange(
            m,
            m + pat.len(),
        ) == pat,
        find_from(s, pat, k) matches Some(m) ==> forall|q: int|
            k <= q < m ==> #[trigger] s.subrange(q, q + pat.len()) != pat,
        find_from(s, pat, k) is None ==> forall|q: int|
            k <= q && q + pat.len() <= s.len() ==> #[trigger] s.subrange(q, q + pat.len()) != pat,
    decreases s.len() + 1 - k,
{
    if k + pat.len() > s.len() {
    } else if s.subrange(k, k + pat.len()) == pat {
    } else {
        lemma_find_from_found(s, pat, k + 1);
    }
}

/// Trimming a character from the end leaves a prefix that does not end in it, and only
/// that character was removed.
pub proof fn lemma_trim_end_char_prefix(s: Seq<char>, c: char)
    ensures
        trim_end_char(s, c).len() <= s.len(),
        trim_end_char(s, c) == s.subrange(0, trim_end_char(s, c).len() as int),
        trim_end_char(s, c).len() == 0 || trim_end_char(s, c)[trim_end_char(s, c).len() - 1] != c,
        forall|k: int| trim_end_char(s, c).len() <= k < s.len() ==> s[k] == c,
    decreases s.len(),
{
    if s.len() > 0 && s[s.len() - 1] == c {
        lemma_trim_end_char_prefix(s.drop_last(), c);
        assert(s.drop_last().subrange(0, trim_end_char(s, c).len() as int) =~= s.subrange(
            0,
            trim_end_char(s, c).len() as int,
        ));
        assert forall|k: int| trim_end_char(s, c).len() <= k < s.len() implies s[k] == c by {
            if k < s.len() - 1 {
                assert(s[k] == s.drop_last()[k]);
            }
        }
    } else {
        assert(s.subrange(0, s.len() as int) =~= s);
    }
}

/// Trimming a character from the start leaves a suffix that does not start with it, and
/// only that character was removed.
pub proof fn lemma_trim_start_char_suffix(s: Seq<char>, c: char)
    ensures
        trim_start_char(s, c).len() <= s.len(),
        trim_start_char(s, c) == s.subrange(s.len() - trim_start_char(s, c).len(), s.len() as int),
        trim_start_char(s, c).len() == 0 || trim_start_char(s, c)[0] != c,
        forall|k: int| 0 <= k < s.len() - trim_start_char(s, c).len() ==> s[k] == c,
    decreases s.len(),
{
    if s.len() > 0 && s[0] == c {
        lemma_trim_start_char_suffix(s.drop_first(), c);
        let t = trim_start_char(s, c);
        assert(s.drop_first().subrange(s.drop_first().len() - t.len(), s.drop_first().len() as int)
            =~= s.subrange(s.len() - t.len(), s.len() as int));
        assert forall|k: int| 0 <= k < s.len() - t.len() implies s[k] == c by {
            if k > 0 {
                assert(s[k] == s.drop_first()[k - 1]);
            }
        }
    } else {
        assert(s.subrange(0, s.len() as int) =~= s);
    }
}

/// `s` without its trailing `c` characters.
pub fn trim_end_matches_char(s: &str, c: char) -> (r: &str)
    ensures
        r@ == trim_end_char(s@, c),
{
    proof {
        lemma_trim_end_char_prefix(s@, c);
    }
    let cs = chars_of(s);
    let mut n = cs.len();
    assert(cs@.subrange(0, n as int) =~= cs@);
    while n > 0 && cs[n - 1] == c
        invariant
            n <= cs@.len(),
            cs@ == s@,
            trim_end_char(s@, c) == trim_end_char(cs@.subrange(0, n as int), c),
        decreases n,
    {
        assert(cs@.subrange(0, n as int).drop_last() =~= cs@.subrange(0, n - 1));
        n = n - 1;
    }
    assert(trim_end_char(cs@.subrange(0, n as int), c) == cs@.subrange(0, n as int));
    s.substring_char(0, n)
}

/// `s` without its leading `c` characters.
pub fn trim_start_matches_char(s: &str, c: char) -> (r: &str)
    ensures
        r@ == trim_start_char(s@, c),
{
    let cs = chars_of(s);
    let mut k: usize = 0;
    assert(cs@.subrange(0, cs@.len() as int) =~= cs@);
    while k < cs.len() && cs[k] == c
        invariant
            k <= cs@.len(),
            cs@ == s@,
            trim_start_char(s@, c) == trim_start_char(cs@.subrange(k as int, cs@.len() as int), c),
        decreases cs@.len() - k,
    {
        assert(cs@.subrange(k as int, cs@.len() as int).drop_first() =~= cs@.subrange(
            k + 1,
            cs@.len() as int,
        ));
        k = k + 1;
    }
    s.substring_char(k, cs.len())
}

/// The first index at which `pat` occurs in `s`.
pub fn find_chars(s: &[char], pat: &[char]) -> (r: Option<usize>)
    ensures
        match find_from(s@, pat@, 0) {
            None => r is None,
            Some(k) => r == Some(k as usize),
        },
        r matches Some(i) ==> find_from(s@, pat@, 0) == Some(i as int),
{
    if pat.len() > s.len() {
        return None;
    }
    if pat.len() == 0 {
        assert(s@.subrange(0, 0) =~= pat@);
        return Some(0);
    }
    let n = s.len();
    let last = n - pat.len();
    let mut k: usize = 0;
    while k <= last
        invariant
            n == s@.len(),
            last == s@.len() - pat@.len(),
            pat@.len() >= 1,
            k <= last + 1,
            find_from(s@, pat@, 0) == find_from(s@, pat@, k as int),
        decreases last + 1 - k,
    {
        let mut m: usize = 0;
        let mut same = true;
        while m < pat.len()
            invariant
                m <= pat@.len(),
                k + pat@.len() <= s@.len(),
                n == s@.len(),
                pat@.len() >= 1,
                same == (forall|q: int| 0 <= q < m ==> s@[k + q] == pat@[q]),
            decreases pat@.len() - m,
        {
            if s[k + m] != pat[m] {
                same = false;
            }
            m = m + 1;
        }
        if same {
            assert(s@.subrange(k as int, k + pat@.len()) =~= pat@);
            return Some(k);
        }
        assert(s@.subrange(k as int, k + pat@.len()) != pat@) by {
            let q = choose|q: int| 0 <= q < pat@.len() && s@[k + q] != pat@[q];
            assert(s@.subrange(k as int, k + pat@.len())[q] != pat@[q]);
        }
        k = k + 1;
    }
    None
}

/// `a` followed by `b`.
pub fn concat(a: &str, b: &str) -> (r: String)
    ensures
        r@ == a@ + b@,
{
    let mut r = string_of(a);
    r.append(b);
    r
}


/// `std::str::from_utf8`: as std documents, it succeeds exactly on valid UTF-8, and then
/// the text holds the characters those bytes encode.
#[verifier::external_body]
pub(crate) fn utf8_text<'a>(bytes: &'a [u8]) -> (r: Option<&'a str>)
    ensures
        match r {
            Some(t) => vstd::utf8::valid_utf8(bytes@) && t@ == vstd::utf8::decode_utf8(bytes@),
            None => !vstd::utf8::valid_utf8(bytes@),
        },
{
    std::str::from_utf8(bytes).ok()
}

/// The text that `String::from_utf8_lossy` makes of some bytes.
pub uninterp spec fn utf8_lossy_text(bytes: Seq<u8>) -> Seq<char>;

/// `String::from_utf8_lossy`: decodes UTF-8, replacing invalid sequences with U+FFFD.
/// The contract names the result and, as std documents, says that valid UTF-8 is decoded
/// unchanged.
#[verifier::external_body]
pub(crate) fn utf8_lossy(bytes: &[u8]) -> (r: String)
    ensures
        r@ == utf8_lossy_text(bytes@),
        vstd::utf8::valid_utf8(bytes@) ==> r@ == vstd::utf8::decode_utf8(bytes@),
{
    String::from_utf8_lossy(bytes).into_owned()
}

/// `s` without leading and trailing white space (as `str::trim` defines it).
pub open spec fn trim_white(s: Seq<char>) -> Seq<char>
    decreases s.len(),
{
    if s.len() > 0 && is_white_space(s[0]) {
        trim_white(s.drop_first())
    } else if s.len() > 0 && is_white_space(s[s.len() - 1]) {
        trim_white(s.drop_last())
    } else {
        s
    }
}

/// `s` without leading and trailing white space.
pub fn trim_white_space(s: &str) -> (r: &str)
    ensures
        r@ == trim_white(s@),
{
    let cs = chars_of(s);
    let mut a: usize = 0;
    let mut b: usize = cs.len();
    assert(cs@.subrange(0, b as int) =~= cs@);
    while a < b && (cs[a].is_whitespace() || cs[b - 1].is_whitespace())
        invariant
            a <= b <= cs@.len(),
            cs@ == s@,
            trim_white(s@) == trim_white(cs@.subrange(a as int, b as int)),
        decreases b - a,
    {
        let ghost t = cs@.subrange(a as int, b as int);
        if cs[a].is_whitespace() {
            assert(t.drop_first() =~= cs@.subrange(a + 1, b as int));
            a = a + 1;
        } else {
            assert(t.drop_last() =~= cs@.subrange(a as int, b - 1));
            b = b - 1;
        }
    }
    s.substring_char(a, b)
}


/// Whether `s` begins with `p`.
pub open spec fn has_prefix(s: Seq<char>, p: Seq<char>) -> bool {
    p.len() <= s.len() && s.subrange(0, p.len() as int) == p
}

/// Whether `s` ends with `p`.
pub open spec fn has_suffix(s: Seq<char>, p: Seq<char>) -> bool {
    p.len() <= s.len() && s.subrange(s.len() - p.len(), s.len() as int) == p
}

/// Whether `s` begins with `p`.
pub fn starts_with_str(s: &str, p: &str) -> (r: bool)
    ensures
        r == has_prefix(s@, p@),
{
    let cs = chars_of(s);
    let ps = chars_of(p);
    if ps.len() > cs.len() {
        return false;
    }
    let mut i: usize = 0;
    while i < ps.len()
        invariant
            ps@.len() <= cs@.len(),
            i <= ps@.len(),
            cs@ == s@,
            ps@ == p@,
            forall|k: int| 0 <= k < i ==> cs@[k] == ps@[k],
        decreases ps@.len() - i,
    {
        if cs[i] != ps[i] {
            assert(s@.subrange(0, p@.len() as int)[i as int] != p@[i as int]);
            return false;
        }
        i = i + 1;
    }
    assert(s@.subrange(0, p@.len() as int) =~= p@);
    true
}

/// Whether `s` ends with `p`.
pub fn ends_with_str(s: &str, p: &str) -> (r: bool)
    ensures
        r == has_suffix(s@, p@),
{
    let cs = chars_of(s);
    let ps = chars_of(p);
    if ps.len() > cs.len() {
        return false;
    }
    let n = cs.len();
    let off = n - ps.len();
    let mut i: usize = 0;
    while i < ps.len()
        invariant
            n == cs@.len(),
            off + ps@.len() == cs@.len(),
            i <= ps@.len(),
            cs@ == s@,
            ps@ == p@,
            forall|k: int| 0 <= k < i ==> cs@[off + k] == ps@[k],
        decreases ps@.len() - i,
    {
        if cs[off + i] != ps[i] {
            assert(s@.subrange(off as int, s@.len() as int)[i as int] != p@[i as int]);
            return false;
        }
        i = i + 1;
    }
    assert(s@.subrange(off as int, s@.len() as int) =~= p@);
    true
}

} // verus!
