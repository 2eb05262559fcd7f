use minishell::tokenizer::split_command_with_quotes;

fn toks(line: &str) -> Vec<String> {
    split_command_with_quotes(line)
}

#[test]
fn plain_words_split_on_space_runs() {
    assert_eq!(toks("foo  bar baz"), vec!["foo", "bar", "baz"]);
}

#[test]
fn leading_and_trailing_spaces_yield_no_empty_tokens() {
    assert_eq!(toks("  ls  "), vec!["ls"]);
}

#[test]
fn empty_line_yields_no_tokens() {
    assert_eq!(toks(""), Vec::<String>::new());
}

#[test]
fn all_spaces_yield_no_tokens() {
    assert_eq!(toks("    "), Vec::<String>::new());
}

#[test]
fn single_quotes_preserve_internal_spaces() {
    assert_eq!(toks("echo 'a  b'"), vec!["echo", "a  b"]);
}

#[test]
fn double_quote_backslash_escapes_double_quote() {
    assert_eq!(toks("echo \"a\\\"b\""), vec!["echo", "a\"b"]);
}

#[test]
fn unquoted_backslash_space_is_literal_space() {
    assert_eq!(toks("echo a\\ b"), vec!["echo", "a b"]);
}

#[test]
fn adjacent_quote_regimes_concatenate() {
    assert_eq!(toks("echo 'it'\\''s'"), vec!["echo", "it's"]);
}

#[test]
fn unquoted_backslash_escapes_any_character() {
    assert_eq!(toks("echo \\a"), vec!["echo", "a"]);
}

#[test]
fn unquoted_double_backslash_is_one_backslash() {
    assert_eq!(toks("echo \\\\"), vec!["echo", "\\"]);
}

#[test]
fn single_quotes_keep_backslashes_literal() {
    assert_eq!(toks("echo 'a\\b'"), vec!["echo", "a\\b"]);
}

#[test]
fn double_quote_backslash_escapes_backslash() {
    assert_eq!(toks("echo \"a\\\\b\""), vec!["echo", "a\\b"]);
}

#[test]
fn double_quote_backslash_before_other_char_stays_literal() {
    assert_eq!(toks("echo \"a\\nb\""), vec!["echo", "a\\nb"]);
}

#[test]
fn double_quotes_preserve_spaces() {
    assert_eq!(toks("echo \"a  b\"  c"), vec!["echo", "a  b", "c"]);
}

#[test]
fn unterminated_single_quote_is_implicitly_closed() {
    assert_eq!(toks("echo 'abc"), vec!["echo", "abc"]);
}

#[test]
fn unterminated_double_quote_is_implicitly_closed() {
    assert_eq!(toks("echo \"abc def"), vec!["echo", "abc def"]);
}

#[test]
fn trailing_lone_backslash_is_literal() {
    assert_eq!(toks("echo a\\"), vec!["echo", "a\\"]);
}

#[test]
fn empty_quotes_between_separators_emit_no_token() {
    assert_eq!(toks("a '' b"), vec!["a", "b"]);
}

#[test]
fn quotes_toggle_without_entering_token_text() {
    assert_eq!(toks("ec'h'o hi"), vec!["echo", "hi"]);
}

#[test]
fn single_quote_inside_double_quotes_is_literal() {
    assert_eq!(toks("echo \"it's\""), vec!["echo", "it's"]);
}

#[test]
fn round_trip_of_plain_words() {
    let original = vec!["echo", "alpha", "beta42", "x"];
    let joined = original.join(" ");
    assert_eq!(toks(&joined), original);
}
