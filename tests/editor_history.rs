use shell_core::builtins::{
    cd_error_message, cd_target, is_builtin, not_found_message, parse_count, parse_history_args,
    path_in, same_text, split_path, type_report, CdTarget, Cmd, HistoryRequest,
};
use shell_core::completion::{completion_candidates, lcp};
use shell_core::editor::{classify_key, trim_chars, Action, Editor, Key, RawKey};
use shell_core::history::{split_lines, History};

fn strings(v: &[&str]) -> Vec<String> {
    v.iter().map(|s| s.to_string()).collect()
}

#[test]
fn lcp_of_shared_prefix() {
    assert_eq!(lcp(&strings(&["foo", "foobar", "food"])), "foo");
}

#[test]
fn lcp_of_disjoint_words_is_empty() {
    assert_eq!(lcp(&strings(&["foo", "bar"])), "");
}

#[test]
fn lcp_edge_cases() {
    assert_eq!(lcp(&Vec::new()), "");
    assert_eq!(lcp(&strings(&["only"])), "only");
    assert_eq!(lcp(&strings(&["abc", "abc"])), "abc");
    assert_eq!(lcp(&strings(&["xyz_a", "xyz_b", "xyz"])), "xyz");
}

#[test]
fn history_list_last_one_keeps_index() {
    let mut h = History::new();
    h.record("ls".to_string());
    h.record("pwd".to_string());
    let l = h.list(Some(1));
    assert_eq!(l, vec![(2, "pwd".to_string())]);
}

#[test]
fn history_list_all_and_overlong_limit() {
    let mut h = History::new();
    h.record("a".to_string());
    h.record("b".to_string());
    h.record("c".to_string());
    let all = vec![(1, "a".to_string()), (2, "b".to_string()), (3, "c".to_string())];
    assert_eq!(h.list(None), all);
    assert_eq!(h.list(Some(10)), all);
    assert_eq!(h.list(Some(0)), vec![]);
    assert_eq!(h.list(Some(2)), vec![(2, "b".to_string()), (3, "c".to_string())]);
}

#[test]
fn history_load_and_save() {
    let mut h = History::new();
    h.record("first".to_string());
    h.load("echo a\r\nls\n\npwd");
    assert_eq!(h.len(), 5);
    assert_eq!(h.get(1), "echo a");
    assert_eq!(h.get(3), "");
    assert_eq!(h.save_text(), "first\necho a\nls\n\npwd\n");
}

#[test]
fn split_lines_cases() {
    assert_eq!(split_lines(""), Vec::<String>::new());
    assert_eq!(split_lines("a\nb\n"), strings(&["a", "b"]));
    assert_eq!(split_lines("a\r\nb"), strings(&["a", "b"]));
    assert_eq!(split_lines("a\r"), strings(&["a\r"]));
}

#[test]
fn editor_insert_backspace_commit() {
    let h = History::new();
    let mut e = Editor::new(0);
    for c in "  ls ".chars() {
        assert_eq!(e.handle(Key::Insert(c), &h), Action::Redraw);
    }
    assert_eq!(e.cursor(), 5);
    assert_eq!(e.handle(Key::Backspace, &h), Action::Redraw);
    assert_eq!(e.buffer_text(), "  ls");
    assert_eq!(e.handle(Key::Enter, &h), Action::Commit("ls".to_string()));
}

#[test]
fn editor_backspace_at_start_does_nothing() {
    let h = History::new();
    let mut e = Editor::new(0);
    assert_eq!(e.handle(Key::Backspace, &h), Action::Nothing);
    assert_eq!(e.buffer_text(), "");
}

#[test]
fn editor_interrupt_and_end_of_input() {
    let h = History::new();
    let mut e = Editor::new(0);
    e.handle(Key::Insert('x'), &h);
    assert_eq!(e.handle(Key::Interrupt, &h), Action::Interrupted);
    assert_eq!(e.buffer_text(), "");
    e.handle(Key::Insert('y'), &h);
    assert_eq!(e.handle(Key::EndOfInput, &h), Action::Exit);
}

#[test]
fn editor_history_recall_clamps() {
    let mut h = History::new();
    h.record("ls".to_string());
    h.record("pwd".to_string());
    let mut e = Editor::new(h.len());
    assert_eq!(e.handle(Key::Down, &h), Action::Nothing);
    assert_eq!(e.handle(Key::Up, &h), Action::Redraw);
    assert_eq!(e.buffer_text(), "pwd");
    assert_eq!(e.cursor(), 3);
    e.handle(Key::Up, &h);
    assert_eq!(e.buffer_text(), "ls");
    assert_eq!(e.handle(Key::Up, &h), Action::Nothing);
    assert_eq!(e.buffer_text(), "ls");
    e.handle(Key::Down, &h);
    assert_eq!(e.buffer_text(), "pwd");
    assert_eq!(e.handle(Key::Down, &h), Action::Redraw);
    assert_eq!(e.buffer_text(), "");
    assert_eq!(e.cursor(), 0);
}

#[test]
fn editor_tab_single_candidate() {
    let h = History::new();
    let mut e = Editor::new(0);
    e.handle(Key::Insert('e'), &h);
    e.handle(Key::Insert('c'), &h);
    assert_eq!(e.handle(Key::Tab, &h), Action::Complete);
    let c = completion_candidates(&e.buffer_text(), &strings(&["ls"]));
    assert_eq!(c, strings(&["echo"]));
    assert_eq!(e.complete(&c), Action::Redraw);
    assert_eq!(e.buffer_text(), "echo ");
    assert_eq!(e.cursor(), 5);
}

#[test]
fn editor_tab_no_candidate_rings_bell() {
    let mut e = Editor::new(0);
    assert_eq!(e.complete(&Vec::new()), Action::Bell);
    assert_eq!(e.buffer_text(), "");
}

#[test]
fn editor_tab_ambiguous_extends_then_lists() {
    let h = History::new();
    let mut e = Editor::new(0);
    e.handle(Key::Insert('x'), &h);
    let c = completion_candidates("x", &strings(&["xyz_foo_bar", "xyz_foo", "xyz_baz"]));
    assert_eq!(c, strings(&["xyz_baz", "xyz_foo", "xyz_foo_bar"]));
    assert_eq!(e.complete(&c), Action::RedrawAndBell);
    assert_eq!(e.buffer_text(), "xyz_");
    assert_eq!(e.complete(&c), Action::ShowCandidates(c.clone()));
    assert_eq!(e.buffer_text(), "xyz_");
    // a non-Tab key resets the count: the next Tab is a first press again
    e.handle(Key::Insert('f'), &h);
    let c2 = completion_candidates(&e.buffer_text(), &strings(&["xyz_foo_bar", "xyz_foo"]));
    assert_eq!(e.complete(&c2), Action::RedrawAndBell);
    assert_eq!(e.buffer_text(), "xyz_foo");
    assert_eq!(e.complete(&c2), Action::ShowCandidates(c2.clone()));
}

#[test]
fn editor_tab_ambiguous_without_progress_only_bells() {
    let h = History::new();
    let mut e = Editor::new(0);
    for ch in "xyz_".chars() {
        e.handle(Key::Insert(ch), &h);
    }
    let c = strings(&["xyz_a", "xyz_b"]);
    assert_eq!(e.complete(&c), Action::Bell);
    assert_eq!(e.buffer_text(), "xyz_");
}

#[test]
fn completion_candidates_sorted_deduplicated() {
    let c = completion_candidates("e", &strings(&["exit", "env", "echo", "env", "ls"]));
    assert_eq!(c, strings(&["echo", "env", "exit"]));
    assert_eq!(completion_candidates("echo x", &strings(&["echo"])), Vec::<String>::new());
    assert_eq!(completion_candidates("zz", &strings(&["ls"])), Vec::<String>::new());
}

#[test]
fn classify_keys_with_modifiers() {
    assert_eq!(classify_key(RawKey::Char('c'), true, false), Key::Interrupt);
    assert_eq!(classify_key(RawKey::Char('d'), true, false), Key::EndOfInput);
    assert_eq!(classify_key(RawKey::Char('j'), true, false), Key::Enter);
    assert_eq!(classify_key(RawKey::Char('\n'), false, false), Key::Enter);
    assert_eq!(classify_key(RawKey::Char('a'), false, false), Key::Insert('a'));
    assert_eq!(classify_key(RawKey::Char('a'), false, true), Key::Ignored);
    assert_eq!(classify_key(RawKey::Tab, false, false), Key::Tab);
    assert_eq!(classify_key(RawKey::Other, false, false), Key::Ignored);
}

#[test]
fn trim_chars_removes_outer_whitespace() {
    let v: Vec<char> = " \t a b \n".chars().collect();
    assert_eq!(trim_chars(&v), vec!['a', ' ', 'b']);
    let w: Vec<char> = "   ".chars().collect();
    assert_eq!(trim_chars(&w), Vec::<char>::new());
}

#[test]
fn cmd_parse_exact_match() {
    assert_eq!(Cmd::parse("exit"), Cmd::Exit);
    assert_eq!(Cmd::parse("echo"), Cmd::Echo);
    assert_eq!(Cmd::parse("type"), Cmd::Type);
    assert_eq!(Cmd::parse("pwd"), Cmd::Pwd);
    assert_eq!(Cmd::parse("cd"), Cmd::Cd);
    assert_eq!(Cmd::parse("history"), Cmd::History);
    assert_eq!(Cmd::parse("ls"), Cmd::Run);
    assert_eq!(Cmd::parse("echoo"), Cmd::Run);
    assert!(is_builtin("pwd"));
    assert!(!is_builtin("cat"));
    assert!(same_text("ab", "ab"));
    assert!(!same_text("ab", "ac"));
}

#[test]
fn parse_count_values() {
    assert_eq!(parse_count("0"), Some(0));
    assert_eq!(parse_count("42"), Some(42));
    assert_eq!(parse_count("18446744073709551615"), Some(usize::MAX));
    assert_eq!(parse_count("18446744073709551616"), None);
    assert_eq!(parse_count(""), None);
    assert_eq!(parse_count("-1"), None);
    assert_eq!(parse_count("1a"), None);
}

#[test]
fn history_arguments() {
    assert_eq!(parse_history_args(&Vec::new()), HistoryRequest::All);
    assert_eq!(parse_history_args(&strings(&["3"])), HistoryRequest::Last(3));
    assert_eq!(parse_history_args(&strings(&["-r", "f"])), HistoryRequest::Read("f".to_string()));
    assert_eq!(parse_history_args(&strings(&["-w", "g"])), HistoryRequest::Write("g".to_string()));
    assert_eq!(parse_history_args(&strings(&["-w"])), HistoryRequest::Invalid);
    assert_eq!(parse_history_args(&strings(&["-x", "f"])), HistoryRequest::Invalid);
}

#[test]
fn cd_targets_and_diagnostic() {
    assert_eq!(cd_target(&strings(&["~"])), CdTarget::Home);
    assert_eq!(cd_target(&Vec::new()), CdTarget::Home);
    assert_eq!(cd_target(&strings(&["/nope"])), CdTarget::Path("/nope".to_string()));
    let m = cd_error_message("/nope");
    assert_eq!(m, "cd: /nope: No such file or directory");
    assert_eq!(m.lines().count(), 1);
}

#[test]
fn messages_and_type_reports() {
    assert_eq!(not_found_message("foo"), "foo: command not found");
    assert_eq!(type_report("echo", None), "echo is a shell builtin");
    assert_eq!(type_report("ls", Some("/bin/ls")), "ls is /bin/ls");
    assert_eq!(type_report("nope", None), "nope: not found");
}

#[test]
fn path_splitting() {
    assert_eq!(split_path("/usr/bin:/bin"), strings(&["/usr/bin", "/bin"]));
    assert_eq!(split_path(""), strings(&[""]));
    assert_eq!(path_in("/bin", "ls"), "/bin/ls");
}
