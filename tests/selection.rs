use play_through::command::{parse_command, Command};
use play_through::selection::{Selection, SelectionReply, SelectionState};

#[test]
fn selection_binds_input_then_output() {
    // two input devices, three output devices; the control loop sends 0 then 2
    let inputs = 2usize;
    let outputs = 3usize;
    let mut s = Selection::new();
    assert_eq!(s.state, SelectionState::AwaitingInputIndex);
    assert_eq!(s.offer(0, inputs), SelectionReply::InputBound { input: 0 });
    assert_eq!(s.state, SelectionState::AwaitingOutputIndex { input: 0 });
    assert!(!s.is_ready());
    assert_eq!(s.offer(2, outputs), SelectionReply::OutputBound { input: 0, output: 2 });
    assert_eq!(s.state, SelectionState::Ready { input: 0, output: 2 });
    assert!(s.is_ready());
}

#[test]
fn selection_out_of_range_waits() {
    // only two input devices; the control loop sends 5
    let mut s = Selection::new();
    assert_eq!(s.offer(5, 2), SelectionReply::OutOfRange { available: 2 });
    assert_eq!(s.state, SelectionState::AwaitingInputIndex);
    assert_eq!(s.offer(2, 2), SelectionReply::OutOfRange { available: 2 });
    assert_eq!(s.state, SelectionState::AwaitingInputIndex);
    assert_eq!(s.offer(1, 2), SelectionReply::InputBound { input: 1 });
    assert_eq!(s.state, SelectionState::AwaitingOutputIndex { input: 1 });
}

#[test]
fn selection_out_of_range_on_output_then_valid() {
    let mut s = Selection::new();
    assert_eq!(s.offer(1, 2), SelectionReply::InputBound { input: 1 });
    assert_eq!(s.offer(3, 3), SelectionReply::OutOfRange { available: 3 });
    assert_eq!(s.state, SelectionState::AwaitingOutputIndex { input: 1 });
    assert_eq!(s.offer(0, 3), SelectionReply::OutputBound { input: 1, output: 0 });
}

#[test]
fn selection_with_no_devices_never_binds() {
    let mut s = Selection::new();
    assert_eq!(s.offer(0, 0), SelectionReply::OutOfRange { available: 0 });
    assert_eq!(s.state, SelectionState::AwaitingInputIndex);
}

#[test]
fn selection_ready_is_terminal() {
    let mut s = Selection::new();
    s.offer(0, 1);
    s.offer(0, 1);
    assert_eq!(s.offer(0, 1), SelectionReply::AlreadyReady);
    assert_eq!(s.offer(9, 1), SelectionReply::AlreadyReady);
    assert_eq!(s.state, SelectionState::Ready { input: 0, output: 0 });
}

#[test]
fn session_scenario_from_console_lines() {
    let mut s = Selection::new();
    let mut replies = Vec::new();
    for line in ["hello\n", "5\n", "0\n", "2\n"] {
        if let Command::Select(i) = parse_command(line) {
            let available = if s.is_ready() || s.state == SelectionState::AwaitingInputIndex { 2 } else { 3 };
            replies.push(s.offer(i, available));
        }
    }
    assert_eq!(
        replies,
        vec![
            SelectionReply::OutOfRange { available: 2 },
            SelectionReply::InputBound { input: 0 },
            SelectionReply::OutputBound { input: 0, output: 2 },
        ]
    );
}

#[test]
fn command_lines() {
    assert_eq!(parse_command("0"), Command::Select(0));
    assert_eq!(parse_command("1\n"), Command::Select(1));
    assert_eq!(parse_command("2\r\n"), Command::Select(2));
    assert_eq!(parse_command("42\n"), Command::Select(42));
    assert_eq!(parse_command("quit\n"), Command::Quit);
    assert_eq!(parse_command("quit"), Command::Quit);
    assert_eq!(parse_command("quit!\n"), Command::Ignore);
    assert_eq!(parse_command("q\n"), Command::Ignore);
    assert_eq!(parse_command("\n"), Command::Ignore);
    assert_eq!(parse_command(""), Command::Ignore);
    assert_eq!(parse_command("1a\n"), Command::Ignore);
    assert_eq!(parse_command("-1\n"), Command::Ignore);
    assert_eq!(parse_command(" 1\n"), Command::Ignore);
    assert_eq!(parse_command("99999999999999999999999999\n"), Command::Ignore);
}
