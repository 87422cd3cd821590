use minishell::tokenizer::parse_command;

fn toks(input: &str) -> Vec<String> {
    parse_command(input)
}

#[test]
fn tokenize_plain_words() {
    assert_eq!(toks("echo Hello world"), vec!["echo", "Hello", "world"]);
}

#[test]
fn tokenize_empty_input() {
    assert_eq!(toks(""), Vec::<String>::new());
}

#[test]
fn tokenize_whitespace_only() {
    assert_eq!(toks("   \t \t  "), Vec::<String>::new());
}

#[test]
fn tokenize_collapses_blanks() {
    assert_eq!(toks("a   b\t\tc"), vec!["a", "b", "c"]);
}

#[test]
fn tokenize_single_quotes_keep_spaces() {
    assert_eq!(toks("echo 'a b' c"), vec!["echo", "a b", "c"]);
}

#[test]
fn tokenize_single_quotes_keep_backslash() {
    assert_eq!(toks("echo 'a\\nb'"), vec!["echo", "a\\nb"]);
}

#[test]
fn tokenize_escaped_quote_inside_double_quotes() {
    assert_eq!(toks("echo \"a\\\"b\""), vec!["echo", "a\"b"]);
}

#[test]
fn tokenize_escaped_backslash_inside_double_quotes() {
    assert_eq!(toks("echo \"a\\\\b\""), vec!["echo", "a\\b"]);
}

#[test]
fn tokenize_literal_backslash_inside_double_quotes() {
    // Before anything but `"` or `\`, a backslash in double quotes is literal.
    assert_eq!(toks("echo \"a\\nb\""), vec!["echo", "a\\nb"]);
}

#[test]
fn tokenize_escaped_space_does_not_split() {
    assert_eq!(toks("echo a\\ b"), vec!["echo", "a b"]);
}

#[test]
fn tokenize_escape_makes_quote_literal() {
    assert_eq!(toks("echo \\'a"), vec!["echo", "'a"]);
}

#[test]
fn tokenize_adjacent_fragments_concatenate() {
    assert_eq!(toks("fo\"o b\"ar"), vec!["foo bar"]);
    assert_eq!(toks("fo'o b'ar"), vec!["foo bar"]);
}

#[test]
fn tokenize_unterminated_quote_is_closed() {
    assert_eq!(toks("echo 'abc"), vec!["echo", "abc"]);
    assert_eq!(toks("echo \"abc"), vec!["echo", "abc"]);
}

#[test]
fn tokenize_trailing_backslash_is_dropped() {
    assert_eq!(toks("echo a\\"), vec!["echo", "a"]);
}

#[test]
fn tokenize_empty_quotes_yield_no_token() {
    assert_eq!(toks("''"), Vec::<String>::new());
    assert_eq!(toks("\"\""), Vec::<String>::new());
}

#[test]
fn tokenize_round_trip_plain_tokens() {
    let original = vec!["ls", "-la", "/tmp/some.dir"];
    let joined = original.join(" ");
    assert_eq!(toks(&joined), original);
}
