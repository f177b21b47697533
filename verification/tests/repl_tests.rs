use repl::history::History;
use repl::{CommandExecutor, ControlFlow, ExecError, KeyCode, KeyEvent, KeyModifiers, Rect, Repl};

fn cv(s: &str) -> Vec<char> {
    s.chars().collect()
}

fn key(code: KeyCode, modifiers: KeyModifiers) -> KeyEvent {
    KeyEvent { code, modifiers }
}

fn feed(repl: &mut Repl, code: KeyCode, modifiers: KeyModifiers) -> ControlFlow {
    repl.feed_key_event(&mut (), key(code, modifiers)).unwrap()
}

fn type_line(repl: &mut Repl, s: &str) {
    for c in s.chars() {
        feed(repl, KeyCode::Char(c), KeyModifiers::Plain);
    }
}

fn rect(width: u16, height: u16) -> Rect {
    Rect { x: 0, y: 0, width, height }
}

/// Records every command it is handed and appends a fixed reply.
struct RecordingExecutor {
    commands: Vec<Vec<char>>,
    reply: Vec<char>,
}

impl CommandExecutor for RecordingExecutor {
    fn execute(&mut self, command: Vec<char>, transcript: &mut Vec<char>) -> Result<
        (),
        ExecError,
    > {
        self.commands.push(command);
        for c in self.reply.iter() {
            transcript.push(*c);
        }
        Ok(())
    }
}

/// Always fails with a fixed message.
struct FailingExecutor;

impl CommandExecutor for FailingExecutor {
    fn execute(&mut self, _command: Vec<char>, _transcript: &mut Vec<char>) -> Result<
        (),
        ExecError,
    > {
        Err(ExecError { message: cv("boom") })
    }
}

#[test]
fn submit_two_then_overflow_capacity_two() {
    let mut repl = Repl::new_with_history(History::new(2));
    type_line(&mut repl, "Hello");
    feed(&mut repl, KeyCode::Enter, KeyModifiers::Plain);
    type_line(&mut repl, "World");
    feed(&mut repl, KeyCode::Enter, KeyModifiers::Plain);
    assert_eq!(repl.history().iter(), vec![cv("Hello"), cv("World")]);
    type_line(&mut repl, "!");
    feed(&mut repl, KeyCode::Enter, KeyModifiers::Plain);
    assert_eq!(repl.history().iter(), vec![cv("World"), cv("!")]);
}

#[test]
fn up_recalls_submitted_line_and_down_returns_to_live() {
    let mut repl = Repl::new();
    type_line(&mut repl, "Hello");
    feed(&mut repl, KeyCode::Enter, KeyModifiers::Plain);
    assert_eq!(repl.current_input(), &Vec::<char>::new());
    feed(&mut repl, KeyCode::Up, KeyModifiers::Plain);
    assert_eq!(repl.current_input(), &cv("Hello"));
    assert_eq!(repl.history().current(), Some(cv("Hello")));
    feed(&mut repl, KeyCode::Down, KeyModifiers::Plain);
    assert_eq!(repl.current_input(), &Vec::<char>::new());
    assert_eq!(repl.history().current(), None);
}

#[test]
fn left_then_typing_inserts_before_the_end() {
    // Left moves the insertion point toward the start, counted from the
    // end of the line, so typing "ab", Left, "c" yields "acb".
    let mut repl = Repl::new();
    type_line(&mut repl, "ab");
    feed(&mut repl, KeyCode::Left, KeyModifiers::Plain);
    type_line(&mut repl, "c");
    assert_eq!(repl.current_input(), &cv("acb"));
}

#[test]
fn right_moves_insertion_point_back_toward_the_end() {
    let mut repl = Repl::new();
    type_line(&mut repl, "ab");
    feed(&mut repl, KeyCode::Left, KeyModifiers::Plain);
    feed(&mut repl, KeyCode::Right, KeyModifiers::Plain);
    type_line(&mut repl, "c");
    assert_eq!(repl.current_input(), &cv("abc"));
    // Right saturates at the end of the line
    feed(&mut repl, KeyCode::Right, KeyModifiers::Plain);
    type_line(&mut repl, "d");
    assert_eq!(repl.current_input(), &cv("abcd"));
}

#[test]
fn home_and_end_jump_to_the_line_edges() {
    let mut repl = Repl::new();
    type_line(&mut repl, "abc");
    feed(&mut repl, KeyCode::Home, KeyModifiers::Plain);
    type_line(&mut repl, "x");
    assert_eq!(repl.current_input(), &cv("xabc"));
    feed(&mut repl, KeyCode::End, KeyModifiers::Plain);
    type_line(&mut repl, "y");
    assert_eq!(repl.current_input(), &cv("xabcy"));
}

#[test]
fn shifted_characters_insert_uppercase_from_the_start() {
    let mut repl = Repl::new();
    feed(&mut repl, KeyCode::Char('a'), KeyModifiers::Shift);
    assert_eq!(repl.current_input(), &cv("A"));
    // Shifted insertion is indexed from the start of the line, so a
    // second shifted character lands before the first.
    feed(&mut repl, KeyCode::Char('b'), KeyModifiers::Shift);
    assert_eq!(repl.current_input(), &cv("BA"));
}

#[test]
fn backspace_removes_before_the_insertion_point() {
    let mut repl = Repl::new();
    type_line(&mut repl, "abc");
    feed(&mut repl, KeyCode::Backspace, KeyModifiers::Plain);
    assert_eq!(repl.current_input(), &cv("ab"));
    feed(&mut repl, KeyCode::Left, KeyModifiers::Plain);
    feed(&mut repl, KeyCode::Backspace, KeyModifiers::Shift);
    assert_eq!(repl.current_input(), &cv("b"));
    // at the start of the line there is nothing left to remove
    feed(&mut repl, KeyCode::Left, KeyModifiers::Plain);
    feed(&mut repl, KeyCode::Backspace, KeyModifiers::Plain);
    assert_eq!(repl.current_input(), &cv("b"));
}

#[test]
fn delete_removes_at_the_insertion_point() {
    let mut repl = Repl::new();
    type_line(&mut repl, "abc");
    // with the cursor at the end of the line, Delete is a no-op
    feed(&mut repl, KeyCode::Delete, KeyModifiers::Plain);
    assert_eq!(repl.current_input(), &cv("abc"));
    feed(&mut repl, KeyCode::Left, KeyModifiers::Plain);
    feed(&mut repl, KeyCode::Delete, KeyModifiers::Plain);
    assert_eq!(repl.current_input(), &cv("ab"));
}

#[test]
fn terminate_keys_break_and_change_nothing() {
    let mut repl = Repl::new();
    type_line(&mut repl, "abc");
    for c in ['d', 'q', 'x'] {
        let flow = feed(&mut repl, KeyCode::Char(c), KeyModifiers::Control);
        assert_eq!(flow, ControlFlow::Break);
        assert_eq!(repl.current_input(), &cv("abc"));
    }
}

#[test]
fn control_c_cancels_the_line_into_the_transcript() {
    let mut repl = Repl::new();
    type_line(&mut repl, "abc");
    let flow = feed(&mut repl, KeyCode::Char('c'), KeyModifiers::Control);
    assert_eq!(flow, ControlFlow::Continue);
    assert_eq!(repl.text(), &cv("abc^C"));
    assert_eq!(repl.current_input(), &Vec::<char>::new());
    assert_eq!(repl.history().iter(), Vec::<Vec<char>>::new());
}

#[test]
fn control_c_hands_an_empty_command_to_the_executor() {
    let mut repl = Repl::new();
    let mut exec = RecordingExecutor { commands: Vec::new(), reply: cv("!") };
    type_line(&mut repl, "abc");
    repl.feed_key_event(&mut exec, key(KeyCode::Char('c'), KeyModifiers::Control)).unwrap();
    assert_eq!(exec.commands, vec![Vec::<char>::new()]);
    assert_eq!(repl.text(), &cv("abc^C!"));
}

#[test]
fn submit_echoes_pushes_and_hands_the_line_over() {
    let mut repl = Repl::new();
    let mut exec = RecordingExecutor { commands: Vec::new(), reply: cv(" ok\n") };
    type_line(&mut repl, "hi");
    let res = repl.submit(&mut exec);
    assert!(res.is_ok());
    assert_eq!(exec.commands, vec![cv("hi")]);
    assert_eq!(repl.text(), &cv("hi ok\n"));
    assert_eq!(repl.current_input(), &Vec::<char>::new());
    assert_eq!(repl.history().newest(), Some(cv("hi")));
}

#[test]
fn blank_submit_is_not_stored_but_still_executed() {
    let mut repl = Repl::new();
    let mut exec = RecordingExecutor { commands: Vec::new(), reply: Vec::new() };
    type_line(&mut repl, "  ");
    repl.submit(&mut exec).unwrap();
    assert_eq!(exec.commands, vec![cv("  ")]);
    assert_eq!(repl.history().iter(), Vec::<Vec<char>>::new());
}

#[test]
fn executor_failure_is_propagated_unchanged() {
    let mut repl = Repl::new();
    type_line(&mut repl, "hi");
    let res = repl.feed_key_event(&mut FailingExecutor, key(KeyCode::Enter, KeyModifiers::Plain));
    assert_eq!(res, Err(ExecError { message: cv("boom") }));
}

#[test]
fn unknown_keys_are_ignored() {
    let mut repl = Repl::new();
    type_line(&mut repl, "abc");
    feed(&mut repl, KeyCode::Other, KeyModifiers::Plain);
    feed(&mut repl, KeyCode::Up, KeyModifiers::Control);
    feed(&mut repl, KeyCode::Char('z'), KeyModifiers::Other);
    feed(&mut repl, KeyCode::Enter, KeyModifiers::Control);
    assert_eq!(repl.current_input(), &cv("abc"));
    assert_eq!(repl.text(), &Vec::<char>::new());
}

#[test]
fn cursor_position_continues_the_last_line() {
    let mut repl = Repl::new();
    repl.text_mut().extend("ab\ncd".chars());
    type_line(&mut repl, "xy");
    // column: last line "cd" plus two input characters; row: second line
    assert_eq!(repl.cursor_pos_in(rect(80, 24)), (4, 1));
    feed(&mut repl, KeyCode::Left, KeyModifiers::Plain);
    assert_eq!(repl.cursor_pos_in(rect(80, 24)), (3, 1));
}

#[test]
fn cursor_position_on_a_fresh_line() {
    let mut repl = Repl::new();
    repl.text_mut().extend("ab\n".chars());
    type_line(&mut repl, "xy");
    assert_eq!(repl.cursor_pos_in(rect(80, 24)), (2, 1));
}

#[test]
fn cursor_position_in_an_empty_session() {
    let repl = Repl::new();
    assert_eq!(repl.cursor_pos_in(rect(80, 24)), (0, 0));
}

#[test]
fn cursor_row_is_clamped_to_the_viewport() {
    let mut repl = Repl::new();
    repl.text_mut().extend("a\nb\nc\nd\ne\n".chars());
    assert_eq!(repl.cursor_pos_in(rect(80, 3)), (0, 3));
    // the clamp is the viewport's height, wherever the viewport sits
    let offset = Rect { x: 0, y: 2, width: 80, height: 3 };
    assert_eq!(repl.cursor_pos_in(offset), (0, 3));
}

#[test]
fn commit_line_echoes_pushes_and_hands_the_line_back() {
    let mut repl = Repl::new();
    type_line(&mut repl, "hi");
    let command = repl.commit_line();
    assert_eq!(command, cv("hi"));
    assert_eq!(repl.text(), &cv("hi"));
    assert_eq!(repl.current_input(), &Vec::<char>::new());
    assert_eq!(repl.history().newest(), Some(cv("hi")));
}

#[test]
fn cancel_line_moves_the_line_into_the_transcript() {
    let mut repl = Repl::new();
    type_line(&mut repl, "abc");
    repl.cancel_line();
    assert_eq!(repl.text(), &cv("abc^C"));
    assert_eq!(repl.current_input(), &Vec::<char>::new());
    assert_eq!(repl.history().iter(), Vec::<Vec<char>>::new());
}

#[test]
fn visible_text_appends_the_input_and_clips() {
    let mut repl = Repl::new();
    repl.text_mut().extend("a\nb\nc".chars());
    type_line(&mut repl, "d");
    let shown: String = repl.visible_text_in(rect(80, 1)).into_iter().collect();
    assert_eq!(shown, "b\ncd");
    let whole: String = repl.visible_text_in(rect(80, 24)).into_iter().collect();
    assert_eq!(whole, "a\nb\ncd");
    // the window depends on the viewport's height alone
    let offset = Rect { x: 0, y: 3, width: 80, height: 1 };
    let shown_offset: String = repl.visible_text_in(offset).into_iter().collect();
    assert_eq!(shown_offset, "b\ncd");
}

#[test]
fn set_cursor_pos_clamps_to_the_input() {
    let mut repl = Repl::new();
    type_line(&mut repl, "abc");
    repl.set_cursor_pos(100);
    // the clamped cursor sits at the start of the line
    type_line(&mut repl, "z");
    assert_eq!(repl.current_input(), &cv("zabc"));
}

#[test]
fn history_recall_clamps_the_cursor() {
    let mut repl = Repl::new();
    type_line(&mut repl, "hello");
    feed(&mut repl, KeyCode::Enter, KeyModifiers::Plain);
    type_line(&mut repl, "longer line");
    feed(&mut repl, KeyCode::Home, KeyModifiers::Plain);
    // recalling a shorter entry keeps the cursor inside it
    feed(&mut repl, KeyCode::Up, KeyModifiers::Plain);
    assert_eq!(repl.current_input(), &cv("hello"));
    type_line(&mut repl, "x");
    assert_eq!(repl.current_input(), &cv("xhello"));
}

#[test]
fn accessors_expose_the_session_state() {
    let mut repl = Repl::new();
    repl.current_input_mut().extend("ab".chars());
    assert_eq!(repl.current_input(), &cv("ab"));
    repl.text_mut().extend("out".chars());
    assert_eq!(repl.text(), &cv("out"));
    repl.history_mut().push(cv("cmd"));
    assert_eq!(repl.history().newest(), Some(cv("cmd")));
}
