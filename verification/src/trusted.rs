//! Calls into outside crates, each behind a contract that Verus takes on trust.
use vstd::prelude::*;
use std::borrow::Cow;

verus! {

/// The regular expression that picks a repository's name out of its remote path: the last
/// `/`-separated segment, without a trailing ".git".
pub const REPO_NAME_PATTERN: &'static str = "([^/]+?)(?:\\.git)?$";

/// Index just after the last `/` of `s`, or 0 when there is none.
pub open spec fn last_segment_start(s: Seq<char>) -> int
    decreases s.len(),
{
    if s.len() == 0 {
        0
    } else if s[s.len() - 1] == '/' {
        s.len() as int
    } else {
        last_segment_start(s.drop_last())
    }
}

/// The last `/`-separated segment of `s`.
pub open spec fn last_segment(s: Seq<char>) -> Seq<char> {
    s.subrange(last_segment_start(s), s.len() as int)
}

/// The name of a repository with remote path `s`: the text after the last `/`, without a
/// trailing ".git" when something is left before it.
pub open spec fn repo_name_of(s: Seq<char>) -> Seq<char> {
    let seg = last_segment(s);
    if seg.len() > 4 && seg.subrange(seg.len() - 4, seg.len() as int) == seq!['.', 'g', 'i', 't'] {
        seg.subrange(0, seg.len() - 4)
    } else {
        seg
    }
}

/// Compiles `pattern` with `regex::Regex::new` and returns capture group 1 of its first
/// match in `haystack` (`Regex::captures`); `None` when nothing matches.
/// The contract is stated for `REPO_NAME_PATTERN` only, which compiles: there the regex
/// semantics (a match anchored at the end of the haystack, the earliest start, a lazy
/// segment of at least one character other than `/`, an optional ".git") match exactly
/// when the last segment is not empty, and then give that segment with a trailing ".git"
/// removed when at least one character precedes it.
#[verifier::external_body]
pub(crate) fn capture_repo_name(pattern: &str, haystack: &str) -> (r: Option<String>)
    requires
        pattern@ == REPO_NAME_PATTERN@,
    ensures
        match r {
            Some(name) => last_segment(haystack@).len() > 0 && name@ == repo_name_of(haystack@),
            None => last_segment(haystack@).len() == 0,
        },
{
    let re = regex::Regex::new(pattern).unwrap();
    match re.captures(haystack) {
        Some(caps) => caps.get(1).map(|m| m.as_str().to_string()),
        None => None,
    }
}

/// The text that `gix_url::parse` followed by `Display` gives for a URL, or `None` when
/// the URL does not parse.
pub uninterp spec fn gix_url_text(url: Seq<char>) -> Option<Seq<char>>;

/// Parses `url` with `gix_url::parse` and renders the result with its `Display` impl;
/// `None` when parsing fails. The contract only names the result.
#[verifier::external_body]
pub(crate) fn gix_url_reformat(url: &str) -> (r: Option<String>)
    ensures
        match r {
            Some(t) => gix_url_text(url@) == Some(t@),
            None => gix_url_text(url@) is None,
        },
{
    match gix_url::parse(url) {
        Ok(parsed) => Some(parsed.to_string()),
        Err(_) => None,
    }
}

/// Characters that `shell_escape::unix::escape` leaves alone: ASCII letters and digits
/// and `-_=/,.+`.
pub open spec fn shell_safe_char(c: char) -> bool {
    ||| ('a' <= c && c <= 'z')
    ||| ('A' <= c && c <= 'Z')
    ||| ('0' <= c && c <= '9')
    ||| c == '-'
    ||| c == '_'
    ||| c == '='
    ||| c == '/'
    ||| c == ','
    ||| c == '.'
    ||| c == '+'
}

/// How one character is written inside single quotes: `'` and `!` close the quotes,
/// appear backslash-escaped, and reopen them.
pub open spec fn shell_quoted_char(c: char) -> Seq<char> {
    if c == '\'' || c == '!' {
        seq!['\'', '\\', c, '\'']
    } else {
        seq![c]
    }
}

/// The characters of `s`, each written as `shell_quoted_char` gives.
pub open spec fn shell_quoted_chars(s: Seq<char>) -> Seq<char>
    decreases s.len(),
{
    if s.len() == 0 {
        Seq::empty()
    } else {
        shell_quoted_chars(s.drop_last()) + shell_quoted_char(s[s.len() - 1])
    }
}

/// A non-empty text of safe characters as it is; any other text in single quotes.
pub open spec fn shell_escaped(s: Seq<char>) -> Seq<char> {
    if s.len() > 0 && (forall|i: int| 0 <= i < s.len() ==> shell_safe_char(#[trigger] s[i])) {
        s
    } else {
        seq!['\''] + shell_quoted_chars(s) + seq!['\'']
    }
}

/// `shell_escape::unix::escape`: the contract restates its source, which returns a
/// non-empty string of whitelisted characters unchanged and otherwise wraps it in single
/// quotes, writing `'` and `!` as `'\'`-escapes.
#[verifier::external_body]
pub(crate) fn shell_escape_unix(s: &str) -> (r: String)
    ensures
        r@ == shell_escaped(s@),
{
    shell_escape::unix::escape(Cow::Borrowed(s)).into_owned()
}

/// The words that `shlex::split` makes of a text, or `None` when its quoting is invalid.
pub uninterp spec fn shlex_words(s: Seq<char>) -> Option<Seq<Seq<char>>>;

/// `shlex::split`: splits a text into words as a POSIX shell would; `None` on invalid
/// quoting. The contract only names the result.
#[verifier::external_body]
pub(crate) fn shlex_split(s: &str) -> (r: Option<Vec<String>>)
    ensures
        match r {
            Some(words) => shlex_words(s@) == Some(words@.map_values(|w: String| w@)),
            None => shlex_words(s@) is None,
        },
{
    shlex::split(s)
}

} // verus!
