use passnag::input::{InputAction, InputError, InputEvent, SecureInput};

const ECHO: u64 = 0o10;

fn line(text: &str) -> InputEvent {
    InputEvent::Line(Some(String::from(text)))
}

#[test]
fn a_secret_is_read_with_echo_off_and_delivered_with_echo_on() {
    let input = SecureInput::with_echo_flag(ECHO);
    assert_eq!(input.pending(), InputAction::QueryMode);
    let (input, action) = input.step(InputEvent::Mode(Some(0o105073)));
    assert_eq!(action, InputAction::SetMode(0o105063));
    assert_eq!(input.mode(), 0o105073);
    let (input, action) = input.step(InputEvent::ModeSet(true));
    assert_eq!(action, InputAction::ReadLine);
    assert_eq!(input.mode(), 0o105063);
    let (input, action) = input.step(line("hunter42\n"));
    assert_eq!(action, InputAction::SetMode(0o105073));
    let (input, action) = input.step(InputEvent::ModeSet(true));
    assert_eq!(action, InputAction::Deliver);
    assert_eq!(input.mode(), 0o105073);
    match input.finish() {
        Ok(secret) => assert_eq!(secret.as_str(), "hunter42"),
        Err(e) => panic!("no secret: {:?}", e),
    }
}

#[test]
fn echo_is_switched_on_where_it_was_off() {
    let input = SecureInput::with_echo_flag(ECHO);
    let (input, action) = input.step(InputEvent::Mode(Some(0o105063)));
    assert_eq!(action, InputAction::SetMode(0o105063));
    let (input, _) = input.step(InputEvent::ModeSet(true));
    let (input, action) = input.step(line("x\n"));
    assert_eq!(action, InputAction::SetMode(0o105073));
    let (input, _) = input.step(InputEvent::ModeSet(true));
    assert_eq!(input.mode(), 0o105073);
}

#[test]
fn a_terminal_without_a_mode_is_not_touched() {
    let input = SecureInput::with_echo_flag(ECHO);
    let (input, action) = input.step(InputEvent::Mode(None));
    assert_eq!(action, InputAction::Fail(InputError::Terminal));
    let (input, action) = input.step(line("hunter42\n"));
    assert_eq!(action, InputAction::Fail(InputError::Terminal));
    assert!(matches!(input.finish(), Err(InputError::Terminal)));
}

#[test]
fn no_line_is_read_where_echo_stays_on() {
    let input = SecureInput::with_echo_flag(ECHO);
    let (input, _) = input.step(InputEvent::Mode(Some(0o73)));
    let (input, action) = input.step(InputEvent::ModeSet(false));
    assert_eq!(action, InputAction::Fail(InputError::Terminal));
    assert_eq!(input.mode(), 0o73);
    let (input, action) = input.step(line("hunter42\n"));
    assert_eq!(action, InputAction::Fail(InputError::Terminal));
    assert!(matches!(input.finish(), Err(InputError::Terminal)));
}

#[test]
fn echo_is_switched_on_again_where_no_line_could_be_read() {
    let input = SecureInput::with_echo_flag(ECHO);
    let (input, _) = input.step(InputEvent::Mode(Some(0o73)));
    let (input, _) = input.step(InputEvent::ModeSet(true));
    let (input, action) = input.step(InputEvent::Line(None));
    assert_eq!(action, InputAction::SetMode(0o73));
    let (input, action) = input.step(InputEvent::ModeSet(true));
    assert_eq!(action, InputAction::Fail(InputError::Read));
    assert_eq!(input.mode(), 0o73);
    assert!(matches!(input.finish(), Err(InputError::Read)));
}

#[test]
fn a_secret_is_dropped_where_echo_cannot_be_switched_on() {
    let input = SecureInput::with_echo_flag(ECHO);
    let (input, _) = input.step(InputEvent::Mode(Some(0o73)));
    let (input, _) = input.step(InputEvent::ModeSet(true));
    let (input, _) = input.step(line("hunter42\n"));
    let (input, action) = input.step(InputEvent::ModeSet(false));
    assert_eq!(action, InputAction::Fail(InputError::Terminal));
    assert_eq!(input.mode(), 0o63);
    assert!(matches!(input.finish(), Err(InputError::Terminal)));
}

#[test]
fn an_input_event_that_answers_nothing_is_passed_over() {
    let input = SecureInput::with_echo_flag(ECHO);
    let (input, action) = input.step(InputEvent::ModeSet(true));
    assert_eq!(action, InputAction::QueryMode);
    let (input, action) = input.step(line("early\n"));
    assert_eq!(action, InputAction::QueryMode);
    let (input, _) = input.step(InputEvent::Mode(Some(0o73)));
    let (input, action) = input.step(InputEvent::Mode(Some(0)));
    assert_eq!(action, InputAction::SetMode(0o63));
    let (input, _) = input.step(InputEvent::ModeSet(true));
    let (input, action) = input.step(InputEvent::ModeSet(true));
    assert_eq!(action, InputAction::ReadLine);
    let (input, _) = input.step(line("hunter42\n"));
    let (input, action) = input.step(line("other\n"));
    assert_eq!(action, InputAction::SetMode(0o73));
    let (input, _) = input.step(InputEvent::ModeSet(true));
    let (input, action) = input.step(InputEvent::ModeSet(false));
    assert_eq!(action, InputAction::Deliver);
    assert_eq!(input.finish().ok().unwrap().as_str(), "hunter42");
}

#[test]
fn a_reading_that_is_under_way_has_no_secret() {
    let input = SecureInput::with_echo_flag(ECHO);
    assert!(matches!(input.finish(), Err(InputError::Terminal)));
    let input = SecureInput::with_echo_flag(ECHO);
    let (input, _) = input.step(InputEvent::Mode(Some(0o73)));
    let (input, _) = input.step(InputEvent::ModeSet(true));
    let (input, _) = input.step(line("hunter42\n"));
    assert!(matches!(input.finish(), Err(InputError::Terminal)));
}

#[test]
fn only_line_feeds_at_the_end_are_dropped() {
    let input = SecureInput::with_echo_flag(ECHO);
    let (input, _) = input.step(InputEvent::Mode(Some(0o73)));
    let (input, _) = input.step(InputEvent::ModeSet(true));
    let (input, _) = input.step(line(" hunter 42\r\n\n"));
    let (input, _) = input.step(InputEvent::ModeSet(true));
    assert_eq!(input.finish().ok().unwrap().as_str(), " hunter 42\r");
}

#[test]
fn the_echo_flag_of_this_system_is_one_flag() {
    let input = SecureInput::new();
    assert_eq!(input.pending(), InputAction::QueryMode);
    let (input, action) = input.step(InputEvent::Mode(Some(u64::MAX)));
    let suppressed = match action {
        InputAction::SetMode(flags) => flags,
        _ => panic!("no mode to set"),
    };
    assert_eq!((u64::MAX ^ suppressed).count_ones(), 1);
    let (input, _) = input.step(InputEvent::ModeSet(true));
    let (_, action) = input.step(InputEvent::Line(None));
    assert_eq!(action, InputAction::SetMode(u64::MAX));
}
