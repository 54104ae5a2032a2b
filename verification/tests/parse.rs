use shell_core::errors::InvalidInputError;
use shell_core::parse::{parse_input, RedirectionMode, Redirections, Stderr, Stdout};

#[test]
fn single_quotes_01() {
    let mut input = r#"echo hello   world"#;
    let mut expected = vec![
        "echo".to_string(),
        r#"hello"#.to_string(),
        r#"world"#.to_string(),
    ];
    let mut result = parse_input(input).unwrap();
    assert_eq!(expected, result.0);

    input = r#"echo 'hello world'"#;
    expected = vec!["echo".to_string(), r#"hello world"#.to_string()];
    result = parse_input(input).unwrap();
    assert_eq!(expected, result.0);

    input = r#"echo 'shell     example' 'test''script' world''hello"#;
    expected = vec![
        "echo".to_string(),
        r#"shell     example"#.to_string(),
        r#"testscript"#.to_string(),
        r#"worldhello"#.to_string(),
    ];
    result = parse_input(input).unwrap();
    assert_eq!(expected, result.0);
}

#[test]
fn single_quotes_02() {
    let mut input = r#"echo '"'"#;
    let mut expected = vec![r#"""#.to_string()];
    let mut result = parse_input(input).unwrap();
    assert_eq!(expected, result.0[1..]);

    input = r#"echo '""'"#;
    expected = vec![r#""""#.to_string()];
    result = parse_input(input).unwrap();
    assert_eq!(expected, result.0[1..]);
}

#[test]
fn double_quotes_01() {
    let mut input = r#"echo "'""#;
    let mut expected = vec![r#"'"#.to_string()];
    let mut result = parse_input(input).unwrap();
    assert_eq!(expected, result.0[1..]);

    input = r#"echo "''""#;
    expected = vec![r#"''"#.to_string()];
    result = parse_input(input).unwrap();
    assert_eq!(expected, result.0[1..]);
}

#[test]
fn double_quotes_02() {
    let mut input = r#"echo "quz  hello"  "bar""#;
    let mut expected = vec![
        "echo".to_string(),
        r#"quz  hello"#.to_string(),
        r#"bar"#.to_string(),
    ];
    let mut result = parse_input(input).unwrap();
    assert_eq!(expected, result.0);

    input = r#"echo "bar"   "shell's"   "foo""#;
    expected = vec![
        "echo".to_string(),
        r#"bar"#.to_string(),
        r#"shell's"#.to_string(),
        r#"foo"#.to_string(),
    ];
    result = parse_input(input).unwrap();
    assert_eq!(expected, result.0);

    input = r#"echo "shell hello""#;
    expected = vec!["echo".to_string(), r#"shell hello"#.to_string()];
    result = parse_input(input).unwrap();
    assert_eq!(expected, result.0);

    input = r#"echo "hello   script"  "world""shell""#;
    expected = vec![r#"hello   script"#.to_string(), r#"worldshell"#.to_string()];
    result = parse_input(input).unwrap();
    assert_eq!(expected, result.0[1..]);

    input = r#"echo "world"  "example's"  hello""script"#;
    expected = vec![
        r#"world"#.to_string(),
        r#"example's"#.to_string(),
        r#"helloscript"#.to_string(),
    ];
    result = parse_input(input).unwrap();
    assert_eq!(expected, result.0[1..]);

    input = r#"echo  'hello   world'  'hi''there'  "and""again"  "Hello,   world.""#;
    expected = vec![
        r#"hello   world"#.to_string(),
        r#"hithere"#.to_string(),
        r#"andagain"#.to_string(),
        r#"Hello,   world."#.to_string(),
    ];
    result = parse_input(input).unwrap();
    assert_eq!(expected, result.0[1..]);

    input = r#"   echo  hi   there,   'hello   world'  'hi''"there"'  "and""again"  "Hello   world,   it's   me"   bye   bye."#;
    expected = vec![
        r#"hi"#.to_string(),
        r#"there,"#.to_string(),
        r#"hello   world"#.to_string(),
        r#"hi"there""#.to_string(),
        r#"andagain"#.to_string(),
        r#"Hello   world,   it's   me"#.to_string(),
        r#"bye"#.to_string(),
        r#"bye."#.to_string(),
    ];
    result = parse_input(input).unwrap();
    assert_eq!(expected, result.0[1..]);
}

#[test]
fn escape_01() {
    let mut input = r#"echo \\"#;
    let mut expected = vec!["echo".to_string(), r#"\"#.to_string()];
    let mut result = parse_input(input).unwrap();
    assert_eq!(expected, result.0);

    input = r#"echo '\'"#;
    expected = vec![r#"\"#.to_string()];
    result = parse_input(input).unwrap();
    assert_eq!(expected, result.0[1..]);

    input = r#"echo '\\'"#;
    expected = vec![r#"\\"#.to_string()];
    result = parse_input(input).unwrap();
    assert_eq!(expected, result.0[1..]);

    input = r#"echo "\\""#;
    expected = vec![r#"\"#.to_string()];
    result = parse_input(input).unwrap();
    assert_eq!(expected, result.0[1..]);
}

#[test]
fn escape_02() {
    let mut input = r#"echo \'"#;
    let mut expected = vec![r#"'"#.to_string()];
    let mut result = parse_input(input).unwrap();
    assert_eq!(expected, result.0[1..]);

    input = r#"echo \""#;
    expected = vec![r#"""#.to_string()];
    result = parse_input(input).unwrap();
    assert_eq!(expected, result.0[1..]);

    input = r#"echo "\"""#;
    expected = vec![r#"""#.to_string()];
    result = parse_input(input).unwrap();
    assert_eq!(expected, result.0[1..]);

    input = r#"echo '\"'"#;
    expected = vec![r#"\""#.to_string()];
    result = parse_input(input).unwrap();
    assert_eq!(expected, result.0[1..]);

    input = r#"echo '"\""'"#;
    expected = vec![r#""\"""#.to_string()];
    result = parse_input(input).unwrap();
    assert_eq!(expected, result.0[1..]);

    input = r#"echo "\'""#;
    expected = vec![r#"\'"#.to_string()];
    result = parse_input(input).unwrap();
    assert_eq!(expected, result.0[1..]);

    input = r#"echo "\\'""#;
    expected = vec![r#"\'"#.to_string()];
    result = parse_input(input).unwrap();
    assert_eq!(expected, result.0[1..]);

    input = r#"echo "\\\"""#;
    expected = vec![r#"\""#.to_string()];
    result = parse_input(input).unwrap();
    assert_eq!(expected, result.0[1..]);

    input = r#"echo \   test"#;
    expected = vec![r#" "#.to_string(), r#"test"#.to_string()];
    result = parse_input(input).unwrap();
    assert_eq!(expected, result.0[1..]);
}

#[test]
fn escape_03() {
    let mut input = r#"echo "before\   after""#;
    let mut expected = vec![r#"before\   after"#.to_string()];
    let mut result = parse_input(input).unwrap();
    assert_eq!(expected, result.0[1..]);

    input = r#"echo script\ \ \ \ \ \ shell"#;
    expected = vec![r#"script      shell"#.to_string()];
    result = parse_input(input).unwrap();
    assert_eq!(expected, result.0[1..]);

    input = r#"echo \'\"shell world\"\'"#;
    expected = vec![r#"'"shell"#.to_string(), r#"world"'"#.to_string()];
    result = parse_input(input).unwrap();
    assert_eq!(expected, result.0[1..]);

    input = r#"echo \"\'shell world\'\""#;
    expected = vec![r#""'shell"#.to_string(), r#"world'""#.to_string()];
    result = parse_input(input).unwrap();
    assert_eq!(expected, result.0[1..]);
}

#[test]
fn escape_04() {
    let mut input = r#"echo "\\n""#;
    let mut expected = vec![r#"\n"#.to_string()];
    let mut result = parse_input(input).unwrap();
    assert_eq!(expected, result.0[1..]);

    input = r#"echo example\ntest"#;
    expected = vec![r#"examplentest"#.to_string()];
    result = parse_input(input).unwrap();
    assert_eq!(expected, result.0[1..]);

    input = r#"echo 'example\ntest'"#;
    expected = vec![r#"example\ntest"#.to_string()];
    result = parse_input(input).unwrap();
    assert_eq!(expected, result.0[1..]);

    input = r#"echo "example\ntest""#;
    expected = vec![r#"example\ntest"#.to_string()];
    result = parse_input(input).unwrap();
    assert_eq!(expected, result.0[1..]);

    input = r#"echo example\\ntest"#;
    expected = vec![r#"example\ntest"#.to_string()];
    result = parse_input(input).unwrap();
    assert_eq!(expected, result.0[1..]);

    input = r#"echo 'example\\ntest'"#;
    expected = vec![r#"example\\ntest"#.to_string()];
    result = parse_input(input).unwrap();
    assert_eq!(expected, result.0[1..]);

    input = r#"echo "example\\ntest""#;
    expected = vec![r#"example\ntest"#.to_string()];
    result = parse_input(input).unwrap();
    assert_eq!(expected, result.0[1..]);
}

#[test]
fn escape_05() {
    let mut input = r#"echo example\"testhello\"shell"#;
    let mut expected = vec![r#"example"testhello"shell"#.to_string()];
    let mut result = parse_input(input).unwrap();
    assert_eq!(expected, result.0[1..]);

    input = r#"echo 'example\"testhello\"shell'"#;
    expected = vec![r#"example\"testhello\"shell"#.to_string()];
    result = parse_input(input).unwrap();
    assert_eq!(expected, result.0[1..]);

    input = r#"echo 'shell\\\nscript'"#;
    expected = vec![r#"shell\\\nscript"#.to_string()];
    result = parse_input(input).unwrap();
    assert_eq!(expected, result.0[1..]);

    input = r#"echo 'test\\nscript'"#;
    expected = vec![r#"test\\nscript"#.to_string()];
    result = parse_input(input).unwrap();
    assert_eq!(expected, result.0[1..]);

    input = r#"echo 'hello\"worldexample\"test'"#;
    expected = vec![r#"hello\"worldexample\"test"#.to_string()];
    result = parse_input(input).unwrap();
    assert_eq!(expected, result.0[1..]);

    input = r#"echo "hello'script'\\n'world""#;
    expected = vec![r#"hello'script'\n'world"#.to_string()];
    result = parse_input(input).unwrap();
    assert_eq!(expected, result.0[1..]);

    input = r#"echo "hello\"insidequotes"script\""#;
    expected = vec![r#"hello"insidequotesscript""#.to_string()];
    result = parse_input(input).unwrap();
    assert_eq!(expected, result.0[1..]);
}

#[test]
fn escape_06() {
    let mut input = r#"echo "world'hello'\\'example""#;
    let mut expected = vec![r#"world'hello'\'example"#.to_string()];
    let mut result = parse_input(input).unwrap();
    assert_eq!(expected, result.0[1..]);

    input = r#"echo "world\"insidequotes"hello\""#;
    expected = vec![r#"world"insidequoteshello""#.to_string()];
    result = parse_input(input).unwrap();
    assert_eq!(expected, result.0[1..]);

    input = r#"echo "mixed\"quote'test'\\""#;
    expected = vec![r#"mixed"quote'test'\"#.to_string()];
    result = parse_input(input).unwrap();
    assert_eq!(expected, result.0[1..]);
}

#[test]
fn redirection_01a() {
    let mut input = r#"echo test 1> target_file"#;
    let expected = vec![r#"test"#.to_string()];
    let mut stdout = Stdout {
        kind: RedirectionMode::Overwrite,
        paths: vec!["target_file".to_string()],
    };
    let mut stderr = Stderr::new();
    let mut exp_redir = Redirections::from(stdout, stderr);
    let mut result = parse_input(input).unwrap();
    assert_eq!(expected, result.0[1..]);
    assert_eq!(exp_redir, result.1);

    input = r#"echo test > target_file"#;
    result = parse_input(input).unwrap();
    assert_eq!(expected, result.0[1..]);
    assert_eq!(exp_redir, result.1);

    input = r#"echo test>target_file"#;
    result = parse_input(input).unwrap();
    assert_eq!(expected, result.0[1..]);
    assert_eq!(exp_redir, result.1);

    input = r#"echo test 2> target_file"#;
    stdout = Stdout::new();
    stderr = Stderr {
        kind: RedirectionMode::Overwrite,
        paths: vec!["target_file".to_string()],
    };
    exp_redir = Redirections::from(stdout, stderr);
    result = parse_input(input).unwrap();
    assert_eq!(expected, result.0[1..]);
    assert_eq!(exp_redir, result.1);
}

#[test]
fn redirection_01b() {
    let mut input = r#"echo test 1>2"#;
    let expected = vec![r#"test"#.to_string()];
    let mut stdout = Stdout {
        kind: RedirectionMode::Overwrite,
        paths: vec!["2".to_string()],
    };
    let mut stderr = Stderr::new();
    let mut exp_redir = Redirections::from(stdout, stderr);
    let mut result = parse_input(input).unwrap();
    assert_eq!(expected, result.0[1..]);
    assert_eq!(exp_redir, result.1);

    input = r#"echo test >2"#;
    result = parse_input(input).unwrap();
    assert_eq!(expected, result.0[1..]);
    assert_eq!(exp_redir, result.1);

    input = r#"echo test 1>>2"#;
    stdout = Stdout {
        kind: RedirectionMode::Append,
        paths: vec!["2".to_string()],
    };
    stderr = Stderr::new();
    exp_redir = Redirections::from(stdout, stderr);
    result = parse_input(input).unwrap();
    assert_eq!(expected, result.0[1..]);
    assert_eq!(exp_redir, result.1);

    input = r#"echo test>>2"#;
    result = parse_input(input).unwrap();
    assert_eq!(expected, result.0[1..]);
    assert_eq!(exp_redir, result.1);
}

#[test]
fn redirection_09() {
    let mut input = r#"echo test > q > w > e >> r >> t > y > u"#;
    let expected = vec![r#"test"#.to_string()];
    let paths = ["q", "w", "e", "r", "t", "y", "u"]
        .iter()
        .map(|p| p.to_string())
        .collect::<Vec<_>>();
    let mut stdout = Stdout {
        kind: RedirectionMode::Overwrite,
        paths: paths.clone(),
    };
    let mut stderr = Stderr::new();
    let mut exp_redir = Redirections::from(stdout, stderr);
    let mut result = parse_input(input).unwrap();
    assert_eq!(expected, result.0[1..]);
    assert_eq!(exp_redir, result.1);

    input = r#"echo test > q > w > e >> r > t >> y >> u"#;
    stdout = Stdout {
        kind: RedirectionMode::Append,
        paths,
    };
    stderr = Stderr::new();
    exp_redir = Redirections::from(stdout, stderr);
    result = parse_input(input).unwrap();
    assert_eq!(expected, result.0[1..]);
    assert_eq!(exp_redir, result.1);
}

#[test]
fn invalid_input() {
    let mut expected = InvalidInputError {
        reason: "unmatched escape character\n".to_string(),
    };

    let mut input = r#"echo \"#;
    let mut result = parse_input(input).unwrap_err();
    assert_eq!(expected, result);

    expected = InvalidInputError {
        reason: "unmatched single quotes\n".to_string(),
    };

    input = r#"echo '"#;
    result = parse_input(input).unwrap_err();
    assert_eq!(expected, result);

    input = r#"echo '''"#;
    result = parse_input(input).unwrap_err();
    assert_eq!(expected, result);

    input = r#"echo '\''"#;
    result = parse_input(input).unwrap_err();
    assert_eq!(expected, result);

    expected = InvalidInputError {
        reason: "unmatched double quotes\n".to_string(),
    };

    input = r#"echo ""#;
    result = parse_input(input).unwrap_err();
    assert_eq!(expected, result);

    input = r#"echo """"#;
    result = parse_input(input).unwrap_err();
    assert_eq!(expected, result);

    expected = InvalidInputError {
        reason: "shell: syntax error near unexpected token `>'\n".to_string(),
    };

    input = r#"echo test >>> file"#;
    result = parse_input(input).unwrap_err();
    assert_eq!(expected, result);

    input = r#"echo test 1>>> file"#;
    result = parse_input(input).unwrap_err();
    assert_eq!(expected, result);

    input = r#"echo test 2>>> file"#;
    result = parse_input(input).unwrap_err();
    assert_eq!(expected, result);

    expected = InvalidInputError {
        reason: "shell: syntax error near unexpected token `&'\n".to_string(),
    };

    input = r#"echo test &>& file"#;
    result = parse_input(input).unwrap_err();
    assert_eq!(expected, result);

    input = r#"echo test >&& file"#;
    result = parse_input(input).unwrap_err();
    assert_eq!(expected, result);
}
