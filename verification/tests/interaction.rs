use envyc::cli::arguments::Arguments;
use envyc::cli::{ends_with, generate_error, run_target, RunTarget};
use envyc::interner::Interner;
use envyc::repl::{Action, Key, Repl};
use envyc::repl_helpers::repl_support::{KeyCode, KeyPress, Modifiers, ReplSupport};
use envyc::repl_helpers::submission_view::{SubmissionView, PROMPT, PROMPT_WIDTH};
use envyc::repl_helpers::text_lines::{join_lines_of, split_lines_of};
use envyc::text::{i64_text, u64_text_padded, usize_text};

fn args(items: &[&str]) -> Vec<String> {
    items.iter().map(|s| s.to_string()).collect()
}

#[test]
fn arguments_read_a_path_and_the_time_flag() {
    let a = Arguments::new(&args(&["envyc", "-t", "main.envy"])).ok().unwrap();
    assert!(a.show_time());
    assert_eq!(a.get_path(), Some(&"main.envy".to_string()));
    let b = Arguments::new(&args(&["envyc", "--show-time"])).ok().unwrap();
    assert!(b.show_time());
    assert_eq!(b.get_path(), None);
    let c = Arguments::new(&args(&["envyc"])).ok().unwrap();
    assert!(!c.show_time());
}

#[test]
fn arguments_refuse_a_second_path() {
    match Arguments::new(&args(&["envyc", "a.envy", "x"])) {
        Ok(_) => panic!("expected an error"),
        Err(e) => assert_eq!(e.prettify(""), "An Error Occurred.\nThe Argument 'x' Is Not A Valid Argument."),
    }
}

#[test]
fn run_target_chooses_the_repl_a_file_or_a_refusal() {
    let none = Arguments::new(&args(&["envyc"])).ok().unwrap();
    assert!(matches!(run_target(&none), RunTarget::Repl));
    let file = Arguments::new(&args(&["envyc", "prog.envy"])).ok().unwrap();
    assert!(matches!(run_target(&file), RunTarget::File(p) if p == "prog.envy"));
    let other = Arguments::new(&args(&["envyc", "prog.txt"])).ok().unwrap();
    assert!(matches!(
        run_target(&other),
        RunTarget::Refuse(m) if m == "An Error Occurred.\nExpected The File Passed In To Be An Envious File."
    ));
}

#[test]
fn ends_with_and_generate_error() {
    assert!(ends_with("a.envy", ".envy"));
    assert!(!ends_with("envy", ".envy"));
    assert!(ends_with("x", ""));
    assert_eq!(generate_error("boom"), Err("An Error Occurred.\nboom".to_string()));
}

#[test]
fn numbers_are_written_in_decimal() {
    assert_eq!(usize_text(0), "0");
    assert_eq!(usize_text(1207), "1207");
    assert_eq!(i64_text(-45), "-45");
    assert_eq!(i64_text(i64::MIN), "-9223372036854775808");
    assert_eq!(u64_text_padded(7, 4), "0007");
    assert_eq!(u64_text_padded(12345, 4), "12345");
}

#[test]
fn interner_gives_each_text_one_id() {
    let mut interner = Interner::default();
    assert_eq!(interner.insert("a".to_string()), 0);
    assert_eq!(interner.insert("b".to_string()), 1);
    assert_eq!(interner.insert("a".to_string()), 0);
    assert_eq!(interner.insert("c".to_string()), 2);
}

#[test]
fn line_repl_echoes_typing_and_evaluates_on_semicolon() {
    let mut repl = Repl::new();
    assert!(matches!(repl.key_pressed(Key::Char('1')), Action::Write(s) if s == "1"));
    assert!(matches!(repl.key_pressed(Key::Enter), Action::Write(s) if s == "\n         | "));
    assert!(matches!(repl.key_pressed(Key::Char('2')), Action::Write(s) if s == "2"));
    assert!(matches!(repl.key_pressed(Key::Char(';')), Action::Evaluate));
    assert_eq!(repl.input(), "1\n2\n");
    repl.evaluated(true);
    assert!(matches!(repl.key_pressed(Key::Char('x')), Action::Write(_)));
    assert!(matches!(repl.key_pressed(Key::Char(';')), Action::Evaluate));
    assert_eq!(repl.input(), "1\n2\nx\n");
    repl.evaluated(false);
    assert_eq!(repl.input(), "1\n2\n");
}

#[test]
fn line_repl_erases_and_stops() {
    let mut repl = Repl::new();
    assert!(matches!(repl.key_pressed(Key::Backspace), Action::Nothing));
    assert!(matches!(repl.key_pressed(Key::Char('a')), Action::Write(_)));
    assert!(matches!(repl.key_pressed(Key::Backspace), Action::ClearChar));
    assert_eq!(repl.input(), "");
    assert!(matches!(repl.key_pressed(Key::Other), Action::Nothing));
    assert!(matches!(repl.key_pressed(Key::Escape), Action::Stop));
}

fn press(support: &mut ReplSupport, view: &mut SubmissionView, code: KeyCode) -> bool {
    support.handle_key(view, KeyPress { code, modifiers: Modifiers::Plain })
}

fn fresh_view() -> SubmissionView {
    SubmissionView::new(vec![String::new()], 3)
}

#[test]
fn editor_types_moves_and_splits_lines() {
    let mut support = ReplSupport::new();
    let mut view = fresh_view();
    assert!(press(&mut support, &mut view, KeyCode::Char('a')));
    assert!(press(&mut support, &mut view, KeyCode::Char('c')));
    assert!(!press(&mut support, &mut view, KeyCode::Left));
    assert!(press(&mut support, &mut view, KeyCode::Char('b')));
    assert_eq!(view.document, vec!["abc".to_string()]);
    assert_eq!(view.current_char, 2);
    assert!(press(&mut support, &mut view, KeyCode::Enter));
    assert_eq!(view.document, vec!["ab".to_string(), "c".to_string()]);
    assert_eq!((view.current_line, view.current_char), (1, 0));
    assert_eq!(view.cursor_position(), (PROMPT_WIDTH, 4));
    assert!(press(&mut support, &mut view, KeyCode::Backspace));
    assert_eq!(view.document, vec!["abc".to_string()]);
    assert_eq!((view.current_line, view.current_char), (0, 3));
    assert!(!press(&mut support, &mut view, KeyCode::End));
    assert_eq!(view.current_char, 3);
    assert!(!press(&mut support, &mut view, KeyCode::Home));
    assert!(!press(&mut support, &mut view, KeyCode::Delete));
    assert_eq!(view.document, vec!["bc".to_string()]);
    assert!(!press(&mut support, &mut view, KeyCode::Tab));
    assert_eq!(view.document, vec!["    bc".to_string()]);
    assert_eq!(view.current_char, 4);
}

#[test]
fn editor_moves_between_lines_keeping_the_column_within_reach() {
    let mut support = ReplSupport::new();
    let mut view = SubmissionView::new(vec!["long line".to_string(), "ab".to_string()], 0);
    assert!(!press(&mut support, &mut view, KeyCode::End));
    assert_eq!(view.current_char, 9);
    assert!(!press(&mut support, &mut view, KeyCode::Down));
    assert_eq!((view.current_line, view.current_char), (1, 2));
    assert!(!press(&mut support, &mut view, KeyCode::Down));
    assert_eq!(view.current_line, 1);
    assert!(!press(&mut support, &mut view, KeyCode::Up));
    assert_eq!((view.current_line, view.current_char), (0, 2));
}

#[test]
fn editor_finishes_and_recalls_submissions() {
    let mut support = ReplSupport::new();
    let mut view = SubmissionView::new(vec!["let x := 1".to_string(), "x".to_string()], 0);
    assert!(!support.done());
    assert!(!support.handle_key(&mut view, KeyPress { code: KeyCode::Enter, modifiers: Modifiers::Alt }));
    assert!(support.done());
    let text = support.finish_submission(&mut view);
    assert_eq!(text, "let x := 1\nx");
    assert_eq!((view.current_line, view.current_char), (1, 1));
    support.record_submission(text);
    support.record_submission("second".to_string());
    support.begin_submission();
    assert!(!support.done());

    let mut view = fresh_view();
    assert!(press(&mut support, &mut view, KeyCode::PageUp));
    assert_eq!(view.document, vec!["second".to_string()]);
    assert!(press(&mut support, &mut view, KeyCode::PageUp));
    assert_eq!(view.document, vec!["let x := 1".to_string(), "x".to_string()]);
    assert_eq!((view.current_line, view.current_char), (1, 1));
    assert!(press(&mut support, &mut view, KeyCode::PageDown));
    assert_eq!(view.document, vec!["second".to_string()]);
    assert!(press(&mut support, &mut view, KeyCode::Esc));
    assert_eq!(view.document, vec![String::new()]);
}

#[test]
fn editor_types_shifted_characters_and_ignores_other_chords() {
    let mut support = ReplSupport::new();
    let mut view = fresh_view();
    assert!(support.handle_key(&mut view, KeyPress { code: KeyCode::Char('A'), modifiers: Modifiers::Shift }));
    assert!(!support.handle_key(&mut view, KeyPress { code: KeyCode::Left, modifiers: Modifiers::Shift }));
    assert!(!support.handle_key(&mut view, KeyPress { code: KeyCode::Char('b'), modifiers: Modifiers::Other }));
    assert_eq!(view.document, vec!["A".to_string()]);
    assert!(!press(&mut support, &mut view, KeyCode::PageUp));
}

#[test]
fn text_lines_split_and_join_back() {
    let lines = split_lines_of("a\n\nbc");
    assert_eq!(lines, vec!["a".to_string(), String::new(), "bc".to_string()]);
    assert_eq!(join_lines_of(&lines), "a\n\nbc");
    assert_eq!(split_lines_of(""), vec![String::new()]);
    assert_eq!(PROMPT, "envious -> ");
}

#[test]
fn line_repl_failed_run_cuts_by_bytes() {
    let mut repl = Repl::new();
    assert!(matches!(repl.key_pressed(Key::Char('é')), Action::Write(s) if s == "é"));
    assert!(matches!(repl.key_pressed(Key::Char('é')), Action::Write(_)));
    assert!(matches!(repl.key_pressed(Key::Char(';')), Action::Evaluate));
    assert_eq!(repl.input(), "éé\n");
    assert!(repl.can_take_back());
    repl.evaluated(false);
    assert_eq!(repl.input(), "é");

    let mut repl = Repl::new();
    assert!(matches!(repl.key_pressed(Key::Char('a')), Action::Write(_)));
    assert!(matches!(repl.key_pressed(Key::Char(';')), Action::Evaluate));
    repl.evaluated(true);
    assert!(matches!(repl.key_pressed(Key::Char('é')), Action::Write(_)));
    assert!(matches!(repl.key_pressed(Key::Char(';')), Action::Evaluate));
    assert_eq!(repl.input(), "a\né\n");
    assert!(!repl.can_take_back());
    repl.evaluated(true);
    assert_eq!(repl.input(), "a\né\n");
}
