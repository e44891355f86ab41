use suha::event::{
    after_send, parse_received, react, translate, Arrival, Command, InputEvent, Key,
    ListenerState, Movement, Parsed, Reaction, ReceiveError, Worker,
};

fn pressed(c: char) -> InputEvent {
    InputEvent::Key(Key::Char(c))
}

#[test]
fn escape_asks_to_exit() {
    assert_eq!(translate(InputEvent::Key(Key::Esc)), Parsed::Command(Command::Exit));
}

#[test]
fn hjkl_move_the_cursor() {
    assert_eq!(translate(pressed('h')), Parsed::Command(Command::Move(Movement::Left)));
    assert_eq!(translate(pressed('j')), Parsed::Command(Command::Move(Movement::Down)));
    assert_eq!(translate(pressed('k')), Parsed::Command(Command::Move(Movement::Up)));
    assert_eq!(translate(pressed('l')), Parsed::Command(Command::Move(Movement::Right)));
}

#[test]
fn editing_keys() {
    assert_eq!(translate(pressed('m')), Parsed::Command(Command::Mark));
    assert_eq!(translate(pressed('y')), Parsed::Command(Command::Copy));
    assert_eq!(translate(pressed('d')), Parsed::Command(Command::Cut));
    assert_eq!(translate(pressed('p')), Parsed::Command(Command::Paste));
    assert_eq!(translate(pressed('u')), Parsed::Command(Command::Undo));
}

#[test]
fn c_asks_for_the_cursor_position() {
    assert_eq!(translate(pressed('c')), Parsed::CursorQuery);
}

#[test]
fn an_unbound_character_gives_a_diagnostic() {
    assert_eq!(translate(pressed('x')), Parsed::Command(Command::Debug("\rChar(x)\r".to_string())));
    assert_eq!(translate(pressed('H')), Parsed::Command(Command::Debug("\rChar(H)\r".to_string())));
    assert_eq!(
        translate(pressed('\u{e9}')),
        Parsed::Command(Command::Debug("\rChar(\u{e9})\r".to_string()))
    );
}

#[test]
fn another_key_gives_a_diagnostic_with_its_description() {
    let event = InputEvent::Key(Key::Other("KeyEvent { code: F(1) }".to_string()));
    assert_eq!(
        translate(event),
        Parsed::Command(Command::Debug("\rEvent::KeyEvent { code: F(1) }\r".to_string()))
    );
}

#[test]
fn what_is_no_key_asks_for_nothing() {
    assert_eq!(translate(InputEvent::Other), Parsed::Nothing);
}

#[test]
fn nothing_received_asks_for_nothing() {
    assert_eq!(parse_received(Err(ReceiveError::Empty)), Parsed::Nothing);
    assert_eq!(parse_received(Err(ReceiveError::Disconnected)), Parsed::Nothing);
}

#[test]
fn a_received_event_is_translated() {
    assert_eq!(parse_received(Ok(pressed('u'))), Parsed::Command(Command::Undo));
    assert_eq!(parse_received(Ok(InputEvent::Key(Key::Esc))), Parsed::Command(Command::Exit));
    assert_eq!(parse_received(Ok(InputEvent::Other)), Parsed::Nothing);
}

#[test]
fn only_the_cursor_query_needs_the_cursor() {
    assert!(Parsed::CursorQuery.needs_cursor());
    assert!(!Parsed::Nothing.needs_cursor());
    assert!(!Parsed::Command(Command::Exit).needs_cursor());
    assert!(!Parsed::Command(Command::Debug("c".to_string())).needs_cursor());
}

#[test]
fn complete_reports_the_cursor_position() {
    assert_eq!(
        Parsed::CursorQuery.complete("Ok((3, 7))"),
        Some(Command::Debug("Cursor position: Ok((3, 7))\r".to_string()))
    );
}

#[test]
fn complete_passes_a_command_on_and_makes_none_from_nothing() {
    assert_eq!(Parsed::Command(Command::Cut).complete("unused"), Some(Command::Cut));
    assert_eq!(Parsed::Nothing.complete("unused"), None);
}

#[test]
fn parse_event_on_an_empty_channel_gives_nothing() {
    let worker = Worker::new();
    assert_eq!(worker.parse_event(), Parsed::Nothing);
    assert_eq!(worker.parse_event(), Parsed::Nothing);
}

#[test]
fn parse_event_takes_one_event_at_a_time_in_order() {
    let worker = Worker::new();
    let mut listener = worker.listener();
    listener.notice(Arrival::Event(pressed('j'))).unwrap();
    listener.notice(Arrival::Event(pressed('k'))).unwrap();
    listener.notice(Arrival::Event(InputEvent::Other)).unwrap();
    listener.notice(Arrival::Event(pressed('c'))).unwrap();
    assert_eq!(worker.parse_event(), Parsed::Command(Command::Move(Movement::Down)));
    assert_eq!(worker.parse_event(), Parsed::Command(Command::Move(Movement::Up)));
    assert_eq!(worker.parse_event(), Parsed::Nothing);
    assert_eq!(worker.parse_event(), Parsed::CursorQuery);
    assert_eq!(worker.parse_event(), Parsed::Nothing);
}

#[test]
fn handle_event_exits_on_escape_and_enqueues_nothing() {
    let worker = Worker::new();
    let parsed = translate(InputEvent::Key(Key::Esc));
    assert_eq!(worker.handle_event(parsed, ""), Ok(true));
    assert_eq!(worker.receive_command(), Err(ReceiveError::Empty));
}

#[test]
fn handle_event_enqueues_exactly_one_command_for_a_key() {
    let worker = Worker::new();
    assert_eq!(worker.handle_event(translate(pressed('y')), ""), Ok(false));
    assert_eq!(worker.receive_command(), Ok(Command::Copy));
    assert_eq!(worker.receive_command(), Err(ReceiveError::Empty));
}

#[test]
fn handle_event_enqueues_a_diagnostic_for_an_unbound_key() {
    let worker = Worker::new();
    assert_eq!(worker.handle_event(translate(pressed('?')), ""), Ok(false));
    assert_eq!(worker.receive_command(), Ok(Command::Debug("\rChar(?)\r".to_string())));
    assert_eq!(worker.receive_command(), Err(ReceiveError::Empty));
}

#[test]
fn handle_event_enqueues_the_cursor_report() {
    let worker = Worker::new();
    assert_eq!(worker.handle_event(translate(pressed('c')), "Ok((0, 0))"), Ok(false));
    assert_eq!(
        worker.receive_command(),
        Ok(Command::Debug("Cursor position: Ok((0, 0))\r".to_string()))
    );
}

#[test]
fn handle_event_does_nothing_where_nothing_was_asked() {
    let worker = Worker::new();
    assert_eq!(worker.handle_event(translate(InputEvent::Other), ""), Ok(false));
    assert_eq!(worker.handle_event(Parsed::Nothing, ""), Ok(false));
    assert_eq!(worker.receive_command(), Err(ReceiveError::Empty));
}

#[test]
fn commands_come_out_in_the_order_they_went_in() {
    let worker = Worker::new();
    for key in ['h', 'j', 'm'] {
        assert_eq!(worker.handle_event(translate(pressed(key)), ""), Ok(false));
    }
    assert_eq!(worker.receive_command(), Ok(Command::Move(Movement::Left)));
    assert_eq!(worker.receive_command(), Ok(Command::Move(Movement::Down)));
    assert_eq!(worker.receive_command(), Ok(Command::Mark));
    assert_eq!(worker.receive_command(), Err(ReceiveError::Empty));
}

#[test]
fn a_burst_of_input_is_drained_one_event_per_frame() {
    let worker = Worker::new();
    let mut listener = worker.listener();
    for key in ['h', 'u', 'p'] {
        listener.notice(Arrival::Event(pressed(key))).unwrap();
    }
    let mut seen = Vec::new();
    for _ in 0..5 {
        let parsed = worker.parse_event();
        assert_eq!(worker.handle_event(parsed, ""), Ok(false));
        if let Ok(command) = worker.receive_command() {
            seen.push(command);
        }
    }
    assert_eq!(seen, vec![Command::Move(Movement::Left), Command::Undo, Command::Paste]);
}

#[test]
fn a_clone_shares_both_channels() {
    let worker = Worker::new();
    let other = worker.clone();
    worker.listener().notice(Arrival::Event(pressed('d'))).unwrap();
    let parsed = other.parse_event();
    assert_eq!(parsed, Parsed::Command(Command::Cut));
    assert_eq!(other.handle_event(parsed, ""), Ok(false));
    assert_eq!(worker.receive_command(), Ok(Command::Cut));
}

#[test]
fn after_send_maps_both_outcomes() {
    assert_eq!(after_send(Ok(())), Ok(false));
    assert_eq!(after_send(Err(Command::Paste)), Err(Command::Paste));
}

#[test]
fn the_listener_forwards_every_event_while_it_listens() {
    let forwarded = react(ListenerState::Listening, Arrival::Event(pressed('x')));
    assert_eq!(
        forwarded,
        Reaction { forward: Some(pressed('x')), report: false, next: ListenerState::Listening }
    );
    let other = react(ListenerState::Listening, Arrival::Event(InputEvent::Other));
    assert_eq!(other.forward, Some(InputEvent::Other));
    assert_eq!(other.next, ListenerState::Listening);
}

#[test]
fn the_listener_forwards_escape_and_then_stops() {
    let reaction = react(ListenerState::Listening, Arrival::Event(InputEvent::Key(Key::Esc)));
    assert_eq!(
        reaction,
        Reaction {
            forward: Some(InputEvent::Key(Key::Esc)),
            report: false,
            next: ListenerState::Stopped,
        }
    );
}

#[test]
fn a_tick_changes_nothing() {
    assert_eq!(
        react(ListenerState::Listening, Arrival::Tick),
        Reaction { forward: None, report: false, next: ListenerState::Listening }
    );
}

#[test]
fn a_failure_is_reported_and_listening_goes_on() {
    assert_eq!(
        react(ListenerState::Listening, Arrival::Failure),
        Reaction { forward: None, report: true, next: ListenerState::Listening }
    );
}

#[test]
fn the_end_of_input_stops_the_listener() {
    assert_eq!(
        react(ListenerState::Listening, Arrival::Closed),
        Reaction { forward: None, report: false, next: ListenerState::Stopped }
    );
}

#[test]
fn a_stopped_listener_does_nothing_more() {
    let arrivals = vec![
        Arrival::Tick,
        Arrival::Event(pressed('a')),
        Arrival::Event(InputEvent::Key(Key::Esc)),
        Arrival::Failure,
        Arrival::Closed,
    ];
    for arrival in arrivals {
        assert_eq!(
            react(ListenerState::Stopped, arrival),
            Reaction { forward: None, report: false, next: ListenerState::Stopped }
        );
    }
}

#[test]
fn notice_puts_events_on_the_channel_until_escape() {
    let worker = Worker::new();
    let mut listener = worker.listener();
    assert!(!listener.stopped());
    assert_eq!(listener.notice(Arrival::Tick), Ok(false));
    assert_eq!(listener.notice(Arrival::Event(pressed('m'))), Ok(false));
    assert_eq!(listener.notice(Arrival::Failure), Ok(true));
    assert!(!listener.stopped());
    assert_eq!(listener.notice(Arrival::Event(InputEvent::Key(Key::Esc))), Ok(false));
    assert!(listener.stopped());
    assert_eq!(listener.notice(Arrival::Event(pressed('y'))), Ok(false));
    assert_eq!(worker.parse_event(), Parsed::Command(Command::Mark));
    assert_eq!(worker.parse_event(), Parsed::Command(Command::Exit));
    assert_eq!(worker.parse_event(), Parsed::Nothing);
}

#[test]
fn notice_stops_at_the_end_of_input() {
    let worker = Worker::new();
    let mut listener = worker.listener();
    assert_eq!(listener.notice(Arrival::Closed), Ok(false));
    assert!(listener.stopped());
}

#[test]
fn notice_hands_back_an_event_that_nobody_can_receive() {
    let mut listener = Worker::new().listener();
    assert_eq!(listener.notice(Arrival::Event(pressed('q'))), Err(pressed('q')));
    assert!(!listener.stopped());
}

#[test]
fn the_session_ends_though_the_listener_has_stopped() {
    let worker = Worker::new();
    let mut listener = worker.listener();
    listener.notice(Arrival::Event(InputEvent::Key(Key::Esc))).unwrap();
    assert!(listener.stopped());
    let parsed = worker.parse_event();
    assert_eq!(worker.handle_event(parsed, ""), Ok(true));
}
