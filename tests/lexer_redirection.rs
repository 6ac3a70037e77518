use shell_core::lexer::{join_words, tokenize};
use shell_core::pipeline::{plan_pipeline, split_stages, stage_wiring, Input, Output};
use shell_core::redirection::{parse_redirection, redirect_op_of, Stream, WriteMode};

fn strings(v: &[&str]) -> Vec<String> {
    v.iter().map(|s| s.to_string()).collect()
}

#[test]
fn tokenize_single_quotes_group_words() {
    assert_eq!(tokenize("'a b' c"), strings(&["a b", "c"]));
}

#[test]
fn tokenize_double_quotes_join_adjacent_text() {
    assert_eq!(tokenize("a\"b\"c"), strings(&["abc"]));
}

#[test]
fn tokenize_backslash_escapes_space() {
    assert_eq!(tokenize("a\\ b"), strings(&["a b"]));
}

#[test]
fn tokenize_collapses_whitespace() {
    assert_eq!(tokenize("  echo   hello\tworld  "), strings(&["echo", "hello", "world"]));
    assert_eq!(tokenize(""), Vec::<String>::new());
    assert_eq!(tokenize("   "), Vec::<String>::new());
}

#[test]
fn tokenize_single_quotes_keep_backslash_and_double_quote() {
    assert_eq!(tokenize("'a\\b\"c'"), strings(&["a\\b\"c"]));
}

#[test]
fn tokenize_double_quotes_keep_single_quote_and_spaces() {
    assert_eq!(tokenize("\"it's  here\""), strings(&["it's  here"]));
}

#[test]
fn tokenize_escapes_inside_double_quotes() {
    // escapable: backslash dropped
    assert_eq!(tokenize("\"a\\\"b\""), strings(&["a\"b"]));
    assert_eq!(tokenize("\"a\\\\b\""), strings(&["a\\b"]));
    assert_eq!(tokenize("\"a\\$b\""), strings(&["a$b"]));
    // not escapable: both kept
    assert_eq!(tokenize("\"a\\nb\""), strings(&["a\\nb"]));
}

#[test]
fn tokenize_unterminated_quote_and_trailing_escape() {
    assert_eq!(tokenize("'abc"), strings(&["abc"]));
    assert_eq!(tokenize("\"x y"), strings(&["x y"]));
    assert_eq!(tokenize("ab\\"), strings(&["ab"]));
}

#[test]
fn tokenize_empty_quotes_give_no_token() {
    assert_eq!(tokenize("'' a"), strings(&["a"]));
}

#[test]
fn retokenizing_joined_plain_words_round_trips() {
    let words = strings(&["ls", "-la", "/tmp", "x.txt"]);
    let line = join_words(&words);
    assert_eq!(line, "ls -la /tmp x.txt");
    assert_eq!(tokenize(&line), words);
}

#[test]
fn join_words_edge_cases() {
    assert_eq!(join_words(&Vec::new()), "");
    assert_eq!(join_words(&strings(&["hi"])), "hi");
}

#[test]
fn extract_truncating_stdout() {
    let mut args = strings(&[">", "out.txt"]);
    let r = parse_redirection(&mut args);
    assert!(args.is_empty());
    assert_eq!(r.len(), 1);
    assert_eq!(r[0].stream, Stream::Stdout);
    assert_eq!(r[0].mode, WriteMode::Truncate);
    assert_eq!(r[0].target, "out.txt");
}

#[test]
fn extract_appending_stdout_in_the_middle() {
    let mut args = strings(&["a", ">>", "out.txt", "b"]);
    let r = parse_redirection(&mut args);
    assert_eq!(args, strings(&["a", "b"]));
    assert_eq!(r.len(), 1);
    assert_eq!(r[0].stream, Stream::Stdout);
    assert_eq!(r[0].mode, WriteMode::Append);
    assert_eq!(r[0].target, "out.txt");
}

#[test]
fn extract_several_redirections_in_order() {
    let mut args = strings(&["a", "1>", "x", "2>", "y", "2>>", "z", "1>>", "w"]);
    let r = parse_redirection(&mut args);
    assert_eq!(args, strings(&["a"]));
    let got: Vec<(Stream, WriteMode, String)> =
        r.iter().map(|x| (x.stream, x.mode, x.target.clone())).collect();
    assert_eq!(
        got,
        vec![
            (Stream::Stdout, WriteMode::Truncate, "x".to_string()),
            (Stream::Stderr, WriteMode::Truncate, "y".to_string()),
            (Stream::Stderr, WriteMode::Append, "z".to_string()),
            (Stream::Stdout, WriteMode::Append, "w".to_string()),
        ]
    );
}

#[test]
fn extract_leaves_trailing_operator() {
    let mut args = strings(&["echo", "hi", ">"]);
    let r = parse_redirection(&mut args);
    assert!(r.is_empty());
    assert_eq!(args, strings(&["echo", "hi", ">"]));
}

#[test]
fn extract_operator_as_target_is_consumed() {
    let mut args = strings(&[">", ">", "x"]);
    let r = parse_redirection(&mut args);
    assert_eq!(r.len(), 1);
    assert_eq!(r[0].target, ">");
    assert_eq!(args, strings(&["x"]));
}

#[test]
fn redirect_operators_recognized() {
    assert_eq!(redirect_op_of(&">".to_string()), Some((Stream::Stdout, WriteMode::Truncate)));
    assert_eq!(redirect_op_of(&"1>".to_string()), Some((Stream::Stdout, WriteMode::Truncate)));
    assert_eq!(redirect_op_of(&">>".to_string()), Some((Stream::Stdout, WriteMode::Append)));
    assert_eq!(redirect_op_of(&"1>>".to_string()), Some((Stream::Stdout, WriteMode::Append)));
    assert_eq!(redirect_op_of(&"2>".to_string()), Some((Stream::Stderr, WriteMode::Truncate)));
    assert_eq!(redirect_op_of(&"2>>".to_string()), Some((Stream::Stderr, WriteMode::Append)));
    assert_eq!(redirect_op_of(&"3>".to_string()), None);
    assert_eq!(redirect_op_of(&">>>".to_string()), None);
}

#[test]
fn split_stages_on_unquoted_pipes() {
    assert_eq!(split_stages("echo hi | cat"), strings(&["echo hi ", " cat"]));
    assert_eq!(split_stages("echo 'a|b' \"c|d\" e\\|f"), strings(&["echo 'a|b' \"c|d\" e\\|f"]));
    assert_eq!(split_stages("a|b|c"), strings(&["a", "b", "c"]));
    assert_eq!(split_stages(""), strings(&[""]));
}

#[test]
fn plan_pipeline_tokenizes_each_stage() {
    let plan = plan_pipeline("echo hi | cat > out.txt");
    assert_eq!(plan.len(), 2);
    assert_eq!(plan[0].argv, strings(&["echo", "hi"]));
    assert!(plan[0].redirects.is_empty());
    assert_eq!(plan[1].argv, strings(&["cat"]));
    assert_eq!(plan[1].redirects.len(), 1);
    assert_eq!(plan[1].redirects[0].target, "out.txt");
}

#[test]
fn echo_into_cat_is_wired_through_one_pipe() {
    let plan = plan_pipeline("echo hi | cat");
    let w0 = stage_wiring(0, 2, &plan[0].redirects);
    let w1 = stage_wiring(1, 2, &plan[1].redirects);
    assert_eq!(w0, (Input::Inherit, Output::NextPipe, Output::Inherit));
    assert_eq!(w1, (Input::PreviousPipe, Output::Inherit, Output::Inherit));
}

#[test]
fn stage_redirection_overrides_pipe_and_last_wins() {
    let plan = plan_pipeline("a > x 2> e > y | b");
    let w0 = stage_wiring(0, 2, &plan[0].redirects);
    assert_eq!(w0, (Input::Inherit, Output::File(2), Output::File(1)));
    assert_eq!(plan[0].redirects[2].target, "y");
}
