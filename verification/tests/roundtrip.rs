use shell_core::parse::{parse_input, RedirectionMode};

#[test]
fn plain_words_split_on_whitespace() {
    let (tokens, redirs) = parse_input("a  b\tc").unwrap();
    assert_eq!(
        tokens,
        vec!["a".to_string(), "b".to_string(), "c".to_string()]
    );
    assert_eq!(redirs.stdout.kind, RedirectionMode::Off);
    assert!(redirs.stdout.paths.is_empty());
    assert_eq!(redirs.stderr.kind, RedirectionMode::Off);
    assert!(redirs.stderr.paths.is_empty());
}

#[test]
fn plain_words_leading_and_trailing_whitespace() {
    let (tokens, _) = parse_input("  one   two  ").unwrap();
    assert_eq!(tokens, vec!["one".to_string(), "two".to_string()]);
}

#[test]
fn empty_line_yields_no_tokens() {
    let (tokens, _) = parse_input("").unwrap();
    assert!(tokens.is_empty());
}

#[test]
fn empty_quotes_yield_no_token() {
    let (tokens, _) = parse_input("echo ''").unwrap();
    assert_eq!(tokens, vec!["echo".to_string()]);
    let (tokens, _) = parse_input("echo \"\" x").unwrap();
    assert_eq!(tokens, vec!["echo".to_string(), "x".to_string()]);
}

#[test]
fn lone_ampersand_between_characters_is_dropped() {
    let (tokens, _) = parse_input("echo a&b").unwrap();
    assert_eq!(tokens, vec!["echo".to_string(), "ab".to_string()]);
}

#[test]
fn rejoining_tokens_and_tokenizing_again_is_stable() {
    let (tokens, _) = parse_input("echo   hello 'wo'rld").unwrap();
    assert_eq!(
        tokens,
        vec!["echo".to_string(), "hello".to_string(), "world".to_string()]
    );
    let rejoined = tokens.join(" ");
    let (tokens2, _) = parse_input(&rejoined).unwrap();
    assert_eq!(tokens, tokens2);
}
