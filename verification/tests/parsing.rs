use rush::text::{is_whitespace, join_words, same_text, string_of, to_chars, trim_chars};
use rush::token::tokenize;
use rush::{parse_pipeline, should_exit, tokenize_with_quotes, CommandSpec};

fn words(line: &str) -> Vec<String> {
    tokenize_with_quotes(line)
}

#[test]
fn parse_pipeline_splits_commands() {
    let cmds = parse_pipeline(" echo hi | grep h | wc -l ");
    assert_eq!(cmds.len(), 3);
    assert_eq!(cmds[0].cmd, "echo");
    assert_eq!(cmds[0].args, vec!["hi"]);
    assert_eq!(cmds[1].cmd, "grep");
    assert_eq!(cmds[1].args, vec!["h"]);
    assert_eq!(cmds[2].cmd, "wc");
    assert_eq!(cmds[2].args, vec!["-l"]);
}

#[test]
fn parse_pipeline_skips_empty_chunks() {
    let cmds = parse_pipeline("|| echo hi ||");
    assert_eq!(cmds.len(), 1);
    assert_eq!(cmds[0].cmd, "echo");
    assert_eq!(cmds[0].args, vec!["hi"]);
}

#[test]
fn should_exit_matches_trimmed_exit() {
    assert!(should_exit("exit\n"));
    assert!(should_exit("exit"));
    assert!(!should_exit("exit now"));
}

#[test]
fn tokenize_handles_quoted_strings() {
    let result = tokenize_with_quotes(r#"grep "hello world" file.txt"#);
    assert_eq!(result, vec!["grep", "hello world", "file.txt"]);
}

#[test]
fn tokenize_handles_empty_quotes() {
    let result = tokenize_with_quotes(r#"echo """#);
    assert_eq!(result, vec!["echo", ""]);
}

#[test]
fn tokenize_handles_multiple_spaces() {
    let result = tokenize_with_quotes("echo   hello    world");
    assert_eq!(result, vec!["echo", "hello", "world"]);
}

#[test]
fn parse_pipeline_with_quotes() {
    let cmds = parse_pipeline(r#"ls -la | grep ".rs""#);
    assert_eq!(cmds.len(), 2);
    assert_eq!(cmds[0].cmd, "ls");
    assert_eq!(cmds[0].args, vec!["-la"]);
    assert_eq!(cmds[1].cmd, "grep");
    assert_eq!(cmds[1].args, vec![".rs"]);
}

#[test]
fn whitespace_is_what_std_calls_whitespace() {
    let mut code: u32 = 0;
    while code <= 0x10FFFF {
        if let Some(c) = char::from_u32(code) {
            assert_eq!(is_whitespace(c), c.is_whitespace(), "U+{:04X}", code);
        }
        code += 1;
    }
}

#[test]
fn tokenize_of_nothing_is_nothing() {
    assert_eq!(words(""), Vec::<String>::new());
    assert_eq!(words("   \t\n"), Vec::<String>::new());
}

#[test]
fn tokenize_collapses_whitespace() {
    assert_eq!(words("a  b"), vec!["a", "b"]);
    assert_eq!(words("  a\t\tb \n"), vec!["a", "b"]);
    assert_eq!(words("a\u{3000}b\u{a0}c"), vec!["a", "b", "c"]);
}

#[test]
fn tokenize_keeps_whitespace_in_quotes() {
    assert_eq!(words(r#"a "b c" d"#), vec!["a", "b c", "d"]);
    assert_eq!(words(r#"" ""#), vec![" "]);
    assert_eq!(words("\"a\tb\""), vec!["a\tb"]);
}

#[test]
fn tokenize_makes_a_token_of_empty_quotes() {
    assert_eq!(words(r#"echo """#), vec!["echo", ""]);
    assert_eq!(words(r#""""#), vec![""]);
    assert_eq!(words(r#""" """#), vec!["", ""]);
}

#[test]
fn tokenize_leaves_quotes_out_of_tokens() {
    assert_eq!(words(r#"a"b c"d"#), vec!["ab cd"]);
    assert_eq!(words(r#"x"y"z"#), vec!["xyz"]);
    assert_eq!(words(r#"-e"#), vec!["-e"]);
    for token in words(r#"say "one two" thr"ee" """#) {
        assert!(!token.contains('"'));
    }
}

#[test]
fn tokenize_closes_an_open_quote_at_the_end() {
    assert_eq!(words(r#"echo "a b"#), vec!["echo", "a b"]);
    assert_eq!(words(r#"echo "a b  "#), vec!["echo", "a b  "]);
    assert_eq!(words(r#"""#), vec![""]);
}

#[test]
fn tokenize_knows_no_other_quoting() {
    assert_eq!(words(r#"a\ b"#), vec![r#"a\"#, "b"]);
    assert_eq!(words("'a b'"), vec!["'a", "b'"]);
    assert_eq!(words(r#"\"a b\""#), vec![r#"\a b\"#]);
}

#[test]
fn tokenize_works_on_slices_of_characters() {
    let chars: Vec<char> = "ls -l  \"my dir\"".chars().collect();
    assert_eq!(tokenize(&chars), vec!["ls", "-l", "my dir"]);
    assert_eq!(tokenize(&chars[..2]), vec!["ls"]);
    assert_eq!(tokenize(&[]), Vec::<String>::new());
}

#[test]
fn tokenize_takes_any_character() {
    assert_eq!(words("héllo wörld"), vec!["héllo", "wörld"]);
    assert_eq!(words("越 \"日本 語\""), vec!["越", "日本 語"]);
}

#[test]
fn parse_pipeline_of_three_stages() {
    let cmds = parse_pipeline("echo hi | grep h | wc -l");
    assert_eq!(
        cmds,
        vec![
            CommandSpec::new("echo", &["hi"]),
            CommandSpec::new("grep", &["h"]),
            CommandSpec::new("wc", &["-l"]),
        ]
    );
}

#[test]
fn parse_pipeline_of_an_empty_line_is_empty() {
    assert!(parse_pipeline("").is_empty());
    assert!(parse_pipeline("\n").is_empty());
    assert!(parse_pipeline("   ").is_empty());
    assert!(parse_pipeline("|").is_empty());
    assert!(parse_pipeline(" | || \t|").is_empty());
}

#[test]
fn parse_pipeline_splits_without_spaces() {
    let cmds = parse_pipeline("a|b c|d");
    assert_eq!(
        cmds,
        vec![
            CommandSpec::new("a", &[]),
            CommandSpec::new("b", &["c"]),
            CommandSpec::new("d", &[]),
        ]
    );
}

#[test]
fn parse_pipeline_splits_inside_quotes_too() {
    let cmds = parse_pipeline(r#"echo "a | b""#);
    assert_eq!(
        cmds,
        vec![CommandSpec::new("echo", &["a"]), CommandSpec::new("b", &[])]
    );
}

#[test]
fn parse_pipeline_accepts_a_chunk_of_quotes() {
    let cmds = parse_pipeline(r#"""#);
    assert_eq!(cmds, vec![CommandSpec::new("", &[])]);
    let cmds = parse_pipeline(r#"ls | "" | wc"#);
    assert_eq!(cmds.len(), 3);
    assert_eq!(cmds[1], CommandSpec::new("", &[]));
    let cmds = parse_pipeline(r#""" foo"#);
    assert_eq!(cmds, vec![CommandSpec::new("", &["foo"])]);
}

#[test]
fn parse_pipeline_names_every_command_of_a_line_without_quotes() {
    let lines = [
        "ls",
        " ls -la | grep rs ",
        "| a || b |  | c d e|",
        "\techo\thi\t|\twc\t",
        "a\\ b | 'c d'",
    ];
    for line in lines {
        for stage in parse_pipeline(line) {
            assert!(!stage.cmd.is_empty(), "{:?}", line);
        }
    }
}

#[test]
fn parse_pipeline_trims_before_it_tokenizes() {
    let cmds = parse_pipeline("echo \"a  \n");
    assert_eq!(cmds, vec![CommandSpec::new("echo", &["a"])]);
    let cmds = parse_pipeline("echo \"a  | wc");
    assert_eq!(
        cmds,
        vec![CommandSpec::new("echo", &["a"]), CommandSpec::new("wc", &[])]
    );
}

#[test]
fn command_spec_new_keeps_name_and_arguments() {
    let spec = CommandSpec::new("grep", &["-v", "a b", ""]);
    assert_eq!(spec.cmd, "grep");
    assert_eq!(spec.args, vec!["-v", "a b", ""]);
    let bare = CommandSpec::new("ls", &[]);
    assert_eq!(bare.cmd, "ls");
    assert!(bare.args.is_empty());
}

#[test]
fn should_exit_passes_over_white_space_at_the_ends() {
    assert!(should_exit("exit  \t\r\n"));
    assert!(should_exit("  exit"));
    assert!(should_exit("\texit \n"));
    assert!(!should_exit("ex it"));
    assert!(!should_exit(""));
    assert!(!should_exit("exi"));
    assert!(!should_exit("exit\nexit"));
    assert!(!should_exit("EXIT"));
}

#[test]
fn text_helpers_agree_with_std() {
    let samples = ["", "a", "  a b  ", "\t\n", " \u{2003}x\u{2003} ", "日本"];
    for sample in samples {
        let chars = to_chars(sample);
        assert_eq!(chars, sample.chars().collect::<Vec<char>>());
        assert_eq!(string_of(&chars), sample);
        assert_eq!(string_of(trim_chars(&chars)), sample.trim());
        for other in samples {
            assert_eq!(same_text(sample, other), sample == other);
        }
    }
}

#[test]
fn join_words_puts_one_space_between() {
    let none: Vec<String> = Vec::new();
    assert_eq!(join_words(&none), "");
    assert_eq!(join_words(&["a".to_string()]), "a");
    assert_eq!(join_words(&["a".to_string(), "b c".to_string()]), "a b c");
    assert_eq!(join_words(&["".to_string(), "".to_string()]), " ");
}
