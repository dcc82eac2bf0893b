use grm::listfile::{
    consume_line_ending, parse_config_cell, parse_config_line, parse_config_line_defined,
    skip_whitespace, CellError, LineIterator, ParsedLine,
};
use grm::plan::{mode_name, operations_for, Mode};

#[test]
fn parse_comment_preserves_separators() {
    let input = "   # hello*world * yep\r\nrest";
    let (line, remainder) = parse_config_line(input);
    match line {
        ParsedLine::Comment { content } => assert_eq!(content, "hello*world * yep"),
        _ => panic!("expected comment"),
    }
    assert_eq!(remainder, "rest");
}

#[test]
fn parse_comment_hash_only() {
    let input = "#\n";
    let (line, remainder) = parse_config_line(input);
    match line {
        ParsedLine::Comment { content } => assert_eq!(content, ""),
        _ => panic!("expected comment"),
    }
    assert_eq!(remainder, "");
}

// Two cells read as every two-cell repository line does (see
// `repo_line_defaults_param_two_cells`): the first cell is the remote, the second the local
// path, and the parameter defaults to the local path. Reading this line as local "α*β",
// remote "γ" and an empty parameter would contradict that test on the same shape of line.
#[test]
fn parse_escaped_separator_with_unicode() {
    let input = "α\\*β*γ\n";
    let (line, remainder) = parse_config_line(input);
    match line {
        ParsedLine::RepoSpec { local, remote, param } => {
            assert_eq!(remote, "α*β");
            assert_eq!(local, "γ");
            assert_eq!(param, "γ");
        }
        _ => panic!("expected repospec"),
    }
    assert_eq!(remainder, "");
}

#[test]
fn repo_line_defaults_all_fields_one_cell() {
    let input = "foo\n";
    let (line, remainder) = parse_config_line(input);
    match line {
        ParsedLine::RepoSpec { remote, local, param } => {
            assert_eq!(remote, "foo");
            assert_eq!(local, "foo");
            assert_eq!(param, "foo");
        }
        _ => panic!("expected repospec"),
    }
    assert_eq!(remainder, "");
}

#[test]
fn repo_line_defaults_param_two_cells() {
    let input = "foo*bar\n";
    let (line, remainder) = parse_config_line(input);
    match line {
        ParsedLine::RepoSpec { remote, local, param } => {
            assert_eq!(remote, "foo");
            assert_eq!(local, "bar");
            assert_eq!(param, "bar");
        }
        _ => panic!("expected repospec"),
    }
    assert_eq!(remainder, "");
}

#[test]
fn repo_line_no_defaults_three_cells() {
    let input = "foo*bar*baz\n";
    let (line, remainder) = parse_config_line(input);
    match line {
        ParsedLine::RepoSpec { remote, local, param } => {
            assert_eq!(remote, "foo");
            assert_eq!(local, "bar");
            assert_eq!(param, "baz");
        }
        _ => panic!("expected repospec"),
    }
    assert_eq!(remainder, "");
}

#[test]
fn parse_trailing_backslash_errors() {
    let err = parse_config_cell("abc\\").unwrap_err();
    assert!(err.message().contains("Trailing backslash"));
}

#[test]
fn escaped_separator_stays_in_cell() {
    let (line, remainder) = parse_config_line("a\\*b*c\n");
    match line {
        ParsedLine::RepoSpec { remote, local, param } => {
            assert_eq!(remote, "a*b");
            assert_eq!(local, "c");
            assert_eq!(param, "c");
        }
        _ => panic!("expected repospec"),
    }
    assert_eq!(remainder, "");
}

#[test]
fn cell_trims_unescaped_blanks_and_keeps_escaped_ones() {
    let (cell, rest) = parse_config_cell("  hello world \\  \t*next").unwrap();
    assert_eq!(cell, "hello world  ");
    assert_eq!(rest, "*next");
    let (cell, rest) = parse_config_cell("\t plain text   \nmore").unwrap();
    assert_eq!(cell, "plain text");
    assert_eq!(rest, "\nmore");
}

#[test]
fn escaped_characters_read_literally() {
    let (cell, rest) = parse_config_cell("\\*\\ \\\\\\n").unwrap();
    assert_eq!(cell, "* \\n");
    assert_eq!(rest, "");
}

#[test]
fn empty_cell_at_separator() {
    let (cell, rest) = parse_config_cell("   *x").unwrap();
    assert_eq!(cell, "");
    assert_eq!(rest, "*x");
}

#[test]
fn trailing_backslash_error_variant() {
    assert_eq!(parse_config_cell("x \\").unwrap_err(), CellError::TrailingBackslash);
    assert_eq!(
        CellError::TrailingBackslash.message(),
        "Trailing backslash at end of line with nothing to escape"
    );
}

#[test]
fn config_line_with_and_without_value() {
    let (line, rest) = parse_config_line("*LOCAL_DIR*repos\r\nnext");
    match line {
        ParsedLine::Config { key, value } => {
            assert_eq!(key, "LOCAL_DIR");
            assert_eq!(value, "repos");
        }
        _ => panic!("expected config"),
    }
    assert_eq!(rest, "next");
    let (line, _) = parse_config_line("*GIT_ARGS\n");
    match line {
        ParsedLine::Config { key, value } => {
            assert_eq!(key, "GIT_ARGS");
            assert_eq!(value, "");
        }
        _ => panic!("expected config"),
    }
}

#[test]
fn malformed_lines() {
    let (line, rest) = parse_config_line("a*b*c*d\nz");
    assert!(matches!(line, ParsedLine::Malformed));
    assert_eq!(rest, "z");
    let (line, _) = parse_config_line("**value\n");
    assert!(matches!(line, ParsedLine::Malformed));
    let (line, rest) = parse_config_line("abc\\");
    assert!(matches!(line, ParsedLine::Malformed));
    assert_eq!(rest, "");
}

#[test]
fn blank_and_empty_lines() {
    let (line, rest) = parse_config_line("   \nx");
    assert!(matches!(line, ParsedLine::Whitespace));
    assert_eq!(rest, "x");
    let (line, rest) = parse_config_line("");
    assert!(matches!(line, ParsedLine::Empty));
    assert_eq!(rest, "");
}

#[test]
fn undefined_line_detected() {
    assert!(!parse_config_line_defined("a*b\\"));
    assert!(parse_config_line_defined("a*b\\\\"));
    assert!(parse_config_line_defined("abc\\"));
}

#[test]
fn whitespace_and_line_endings() {
    assert_eq!(skip_whitespace(" \t\u{a0}x \n"), "x \n");
    assert_eq!(skip_whitespace(" \n y"), "\n y");
    assert_eq!(consume_line_ending("\r\nab"), "ab");
    assert_eq!(consume_line_ending("\rab"), "ab");
    assert_eq!(consume_line_ending("\n\nab"), "\nab");
    assert_eq!(consume_line_ending("ab"), "ab");
}

#[test]
fn iterator_reads_all_lines() {
    let mut it = LineIterator::from_text("# top\n*LIST_FN*.grm.repos\n\nfoo*bar\r\nlast");
    let mut kinds = Vec::new();
    loop {
        assert!(it.can_advance());
        match it.next() {
            None => break,
            Some(ParsedLine::Comment { content }) => kinds.push(format!("comment:{}", content)),
            Some(ParsedLine::Config { key, value }) => kinds.push(format!("config:{}={}", key, value)),
            Some(ParsedLine::Whitespace) => kinds.push("blank".to_string()),
            Some(ParsedLine::RepoSpec { remote, local, param }) => {
                kinds.push(format!("repo:{}:{}:{}", remote, local, param))
            }
            Some(ParsedLine::Empty) => kinds.push("empty".to_string()),
            Some(ParsedLine::Malformed) => kinds.push("malformed".to_string()),
        }
    }
    assert_eq!(
        kinds,
        vec![
            "comment:top",
            "config:LIST_FN=.grm.repos",
            "blank",
            "repo:foo:bar:bar",
            "repo:last:last:last"
        ]
    );
    assert!(it.next().is_none());
}

#[test]
fn iterator_refuses_undefined_line() {
    let it = LineIterator::from_text("ok\nx*y\\");
    let mut it2 = it.duplicate();
    assert!(it2.can_advance());
    assert!(it2.next().is_some());
    assert!(!it2.can_advance());
}

fn describe(line: &ParsedLine) -> String {
    match line {
        ParsedLine::Comment { content } => format!("comment:{}", content),
        ParsedLine::Config { key, value } => format!("config:{}={}", key, value),
        ParsedLine::Whitespace => "blank".to_string(),
        ParsedLine::RepoSpec { remote, local, param } => format!("repo:{}:{}:{}", remote, local, param),
        ParsedLine::Empty => "empty".to_string(),
        ParsedLine::Malformed => "malformed".to_string(),
    }
}

#[test]
fn iterator_reads_what_the_line_parser_reads_on_the_rest() {
    let text = "# c*d\n  a\\*b * c\r\n*KEY*v\nz";
    let mut it = LineIterator::from_text(text);
    let mut rest = text;
    loop {
        let next = it.next();
        if rest.is_empty() {
            assert!(next.is_none());
            break;
        }
        let (line, after) = parse_config_line(rest);
        assert_eq!(describe(&next.unwrap()), describe(&line));
        rest = after;
    }
}

#[test]
fn iterator_from_bytes_requires_utf8() {
    let mut it = LineIterator::from_bytes("α*β\n".as_bytes()).unwrap();
    assert_eq!(describe(&it.next().unwrap()), "repo:α:β:β");
    assert!(it.next().is_none());
    assert!(LineIterator::from_bytes(&[b'a', 0xff, b'\n']).is_none());
}

#[test]
fn modes_enable_their_operation() {
    assert_eq!(mode_name(Mode::SetRemote), "set-remote");
    assert_eq!(mode_name(Mode::ListLrel), "list-lrel");
    let ops = operations_for(Mode::Clone, false);
    assert!(ops.clone && ops.recurse && !ops.debug && !ops.new && !ops.git && !ops.list_rrel);
    let ops = operations_for(Mode::Git, true);
    assert!(ops.git && ops.debug && !ops.clone && !ops.configure && !ops.set_remote);
}
