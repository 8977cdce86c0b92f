//! The user interface, the terminal, the executor, the server and texts.

use termlink::connui::{
    close_delay, configuration_error_output, crlf, elapsed_columns, error_window, failure_output,
    headless_step, highlight_line, line_answer, no_more_requests, output_str, progress_bar,
    responder_answer, show_configuration_error_message, split_multi_line_prompt, terminal_step,
    Change, CloseStatus, ErrorDisplay, ErrorWindow, Responder, SleepStep, Sleeper, UIRequest,
    UiStep, CLOSING_REASON, ERROR_TITLE, PASSWORD_PLACEHOLDER, SENDING_REQUEST,
};
use termlink::mux_server::{
    build_command, consume_stream, create_executor, daemon_args, have_panes_in_domain, init_mux,
    reexec_failed, scrub_env, spawn_listeners, MuxPhase, Opt, PumpAction, PumpEvent, ServerPhase,
};
use termlink::spawn::{
    poll_thread, ScopedExecutor, SimpleExecutor, SpawnState, SpawnTarget, ThreadPoll, ThreadState,
    TickAction, TickEvent,
};
use termlink::terminal::{
    cast, new_terminal, Capabilities, InputEvent, ScreenSize, Terminal, TerminalError, TerminalWaker,
};
use termlink::text::{
    chars_of, decimal_text, join3, parse_i32, parse_u16, parse_u64, parse_unsigned, read_unsigned,
    same_text, separate, split_text, text_not_after, text_of, NumberError,
};

fn input(context: Option<&str>) -> UIRequest {
    UIRequest::Input {
        prompt: "p".to_owned(),
        echo: false,
        context: context.map(str::to_owned),
        respond: 1,
    }
}

fn texts(changes: &[Change]) -> String {
    let mut all = String::new();
    for c in changes {
        if let Change::Text(t) = c {
            all.push_str(t);
        }
    }
    all
}

#[test]
fn a_banner_cannot_add_to_a_typed_context() {
    let mut r = Responder::new();
    let banner = UIRequest::Output(vec![
        Change::Title("x".to_owned()),
        Change::Text("banner".to_owned()),
    ]);
    assert!(matches!(r.step(banner), UiStep::Continue));
    match r.step(input(Some("fingerprint"))) {
        UiStep::AskResponder { context, echo, respond, .. } => {
            assert_eq!(context, "fingerprint");
            assert!(!echo);
            assert_eq!(respond, 1);
        }
        other => panic!("{:?}", other),
    }
    // The banner is gone with the prompt that did not use it.
    assert!(matches!(r.step(input(None)), UiStep::AskResponder { context, .. } if context.is_empty()));
    r.step(UIRequest::Output(vec![Change::Text("a".to_owned()), Change::Text("b".to_owned())]));
    assert!(matches!(r.step(input(None)), UiStep::AskResponder { context, .. } if context == "ab"));
    assert!(matches!(r.step(UIRequest::Close), UiStep::Close));
}

#[test]
fn declined_prompts() {
    assert_eq!(responder_answer(Some("a".to_owned()), "\"PIN\""), Ok("a".to_owned()));
    assert_eq!(
        responder_answer(None, "\"PIN\""),
        Err("Input prompt \"PIN\" declined by embedded responder".to_owned())
    );
}

#[test]
fn user_interfaces_without_a_responder() {
    assert!(matches!(headless_step(input(None)), UiStep::RefuseInput { respond: 1 }));
    assert!(matches!(headless_step(UIRequest::Close), UiStep::Close));
    assert!(matches!(terminal_step(input(None)), UiStep::ReadPassword { .. }));
    let sleep = UIRequest::Sleep { reason: "r".to_owned(), duration: 5, respond: 2 };
    assert!(matches!(terminal_step(sleep), UiStep::Sleep { duration: 5, respond: 2, .. }));
    assert_eq!(close_delay(CloseStatus::Implicit, false), Some(120));
    assert_eq!(close_delay(CloseStatus::Implicit, true), None);
    assert_eq!(close_delay(CloseStatus::Explicit, false), None);
}

#[test]
fn lines_end_with_both_characters() {
    assert_eq!(crlf("a\nb\n"), "a\r\nb\r\n");
    assert_eq!(texts(&output_str("a\nb")), "a\r\nb");
}

#[test]
fn prompts_of_several_lines() {
    let s = split_multi_line_prompt("one\ntwo\nthree");
    assert_eq!(s.preamble.as_deref(), Some("one\r\ntwo\r\n"));
    assert_eq!(s.prompt, "three");
    let s = split_multi_line_prompt("one");
    assert_eq!(s.preamble, None);
    assert_eq!(s.prompt, "one");
}

#[test]
fn a_progress_bar_shows_its_text() {
    let clusters = vec!["a".to_owned(), "b".to_owned(), "c".to_owned()];
    let bar = progress_bar(&clusters, 1);
    assert_eq!(bar.reversed, "ab");
    assert_eq!(bar.plain, "c");
    let bar = progress_bar(&clusters, 5);
    assert_eq!(bar.reversed, "abc  ");
    assert_eq!(bar.plain, "");
    assert_eq!(elapsed_columns(80, 1_000, 250), 60);
    assert_eq!(elapsed_columns(80, 1_000, 1_000), 0);
    assert_eq!(elapsed_columns(80, 0, 0), 0);
}

#[test]
fn a_sleep_counts_down() {
    let second = 1_000_000_000u128;
    let mut s = Sleeper::new("waiting", 4 * second);
    match s.look(3 * second, 40) {
        SleepStep::Wait { draw: Some(bar), .. } => {
            let all = format!("{}{}", bar.reversed, bar.plain);
            assert_eq!(all, "waiting (3s)");
            assert_eq!(bar.reversed.chars().count(), 11);
        }
        other => panic!("{:?}", other),
    }
    // The same second is not drawn again.
    assert!(matches!(s.look(3 * second - 1, 40), SleepStep::Wait { .. }));
    match s.look(0, 40) {
        SleepStep::Done(text) => assert!(text.contains("waiting (done)"), "{}", text),
        other => panic!("{:?}", other),
    }
    // A letter with its accent takes one place.
    let mut s = Sleeper::new("e\u{301}x", 2 * second);
    match s.look(second, 4) {
        SleepStep::Wait { draw: Some(bar), .. } => assert_eq!(bar.reversed, "e\u{301}x "),
        other => panic!("{:?}", other),
    }
}

#[test]
fn the_shortest_sleeps_end_too() {
    let mut s = Sleeper::new("soon", 500_000);
    match s.look(500_000, 40) {
        SleepStep::Wait { draw: Some(bar), poll } => {
            assert_eq!(bar.reversed, "s");
            assert_eq!(bar.plain, "oon (500\u{b5}s)");
            assert_eq!(poll, 500_000);
        }
        other => panic!("{:?}", other),
    }
    match s.look(0, 40) {
        SleepStep::Done(text) => assert_eq!(text, "soon (done)\r\n"),
        other => panic!("{:?}", other),
    }
}

#[test]
fn prompts_are_asked_in_order_with_what_was_shown_before_them() {
    let text = |s: &str| UIRequest::Output(vec![Change::Text(s.to_owned())]);
    let prompt = |name: &str, echo: bool, context: Option<&str>, respond: u64| UIRequest::Input {
        prompt: name.to_owned(),
        echo,
        context: context.map(str::to_owned),
        respond,
    };
    let requests = vec![
        text("one "),
        UIRequest::Output(vec![Change::Other, Change::Text("two".to_owned())]),
        prompt("first", true, None, 1),
        text("banner"),
        prompt("second", false, Some("typed"), 2),
        prompt("third", true, None, 3),
        UIRequest::Close,
    ];
    let mut r = Responder::new();
    let mut asked = Vec::new();
    let mut closed = false;
    for request in requests {
        assert!(!closed);
        match r.step(request) {
            UiStep::AskResponder { prompt, echo, context, respond } => {
                asked.push((prompt, echo, context, respond))
            }
            UiStep::Close => closed = true,
            UiStep::Continue => {}
            other => panic!("{:?}", other),
        }
    }
    assert!(closed);
    assert_eq!(
        asked,
        vec![
            ("first".to_owned(), true, "one two".to_owned(), 1),
            ("second".to_owned(), false, "typed".to_owned(), 2),
            ("third".to_owned(), true, String::new(), 3),
        ]
    );
}

#[test]
fn what_is_typed_is_hidden() {
    let (shown, cursor) = highlight_line("*", 1, 3, 2);
    assert_eq!(shown.concat(), "***");
    assert_eq!(cursor, 2);
}

#[test]
fn errors_are_wrapped() {
    let long = "word ".repeat(40);
    match show_configuration_error_message(&long, true) {
        ErrorDisplay::Window(changes) => {
            let shown = texts(&changes);
            assert!(shown.contains("word"));
            assert!(shown.contains("\r\n"));
        }
        other => panic!("{:?}", other),
    }
    match show_configuration_error_message("bad color", true) {
        ErrorDisplay::Window(changes) => assert_eq!(texts(&changes), "bad color\r\n"),
        other => panic!("{:?}", other),
    }
    // Without a graphical user interface there is no window.
    match show_configuration_error_message(&long, false) {
        ErrorDisplay::Toast(text) => assert_eq!(text, long),
        other => panic!("{:?}", other),
    }
    let direct = texts(&configuration_error_output("x\ny".to_owned()));
    assert!(direct.contains("x\r\ny"), "{:?}", direct);
    assert!(failure_output("bad").contains("bad"));
    assert_eq!(error_window(true, true), ErrorWindow::Reuse);
    assert_eq!(error_window(true, false), ErrorWindow::Open);
    assert_eq!(error_window(false, true), ErrorWindow::Open);
}

#[test]
fn there_is_no_terminal() {
    let caps = Capabilities { bracketed_paste: true, mouse_reporting: true };
    assert!(matches!(new_terminal(caps), Err(TerminalError::Unsupported(_))));
    assert!(matches!(TerminalWaker.wake(), Err(TerminalError::Unsupported(_))));
    assert_eq!(cast(80).unwrap(), 80u16);
    assert_eq!(cast(65_535).unwrap(), u16::MAX);
    assert!(matches!(cast(65_536), Err(TerminalError::OutOfBounds(65_536))));
    assert_eq!(
        cast(70_000).unwrap_err().message(),
        "70000 is out of bounds for this system"
    );
}

#[test]
fn tasks_go_to_the_main_thread() {
    let mut state = SpawnState::new();
    assert!(!state.is_scheduler_configured());
    assert_eq!(state.ring_doorbell(), None);
    let scoped = ScopedExecutor::new(&mut state);
    assert_eq!(state.spawn_into_main_thread(false), SpawnTarget::Scoped);
    scoped.close(&mut state);
    state.set_schedulers();
    assert!(state.is_scheduler_configured());
    assert_eq!(state.spawn_into_main_thread(false), SpawnTarget::MainThread);
    assert_eq!(state.spawn(true), SpawnTarget::MainThreadLowPriority);
    state.set_local_doorbell(4);
    assert_eq!(state.ring_doorbell(), Some(4));
    // The newest doorbell is the one that is rung.
    state.set_local_doorbell(9);
    assert_eq!(state.ring_doorbell(), Some(9));
    assert_eq!(state.ring_doorbell(), Some(9));
    assert!(matches!(poll_thread(ThreadState::Finished(3)), ThreadPoll::Ready(3)));
    assert!(matches!(poll_thread::<u8>(ThreadState::Running), ThreadPoll::KeepWaker));
    assert!(matches!(poll_thread::<u8>(ThreadState::Gone), ThreadPoll::Failed));
}

#[test]
fn every_tick_drives_the_local_tasks() {
    let mut state = SpawnState::new();
    let mut e: SimpleExecutor = create_executor(&mut state, 3);
    assert!(state.is_scheduler_configured());
    assert_eq!(state.ring_doorbell(), Some(3));
    assert_eq!(e.tick(), TickAction::Wait);
    assert_eq!(e.step(TickEvent::Woken(true)), TickAction::TakeNormal);
    assert_eq!(e.step(TickEvent::Taken(true)), TickAction::Run);
    assert_eq!(e.step(TickEvent::Ran), TickAction::PollLocal);
    assert_eq!(e.step(TickEvent::Polled(true)), TickAction::PollLocal);
    assert_eq!(e.step(TickEvent::Polled(false)), TickAction::TakeNormal);
    assert_eq!(e.step(TickEvent::Taken(false)), TickAction::TakeLow);
    assert_eq!(e.step(TickEvent::Taken(false)), TickAction::Done);
    assert_eq!(e.tick(), TickAction::Wait);
    assert_eq!(e.step(TickEvent::Woken(false)), TickAction::Fail);
}

#[test]
fn a_tick_drains_what_was_queued_normal_work_first() {
    let mut state = SpawnState::new();
    let mut e = create_executor(&mut state, 0);
    // The low priority items were queued before the others.
    let mut low = vec!["l1", "l2"];
    let mut normal = vec!["n1", "n2", "n3"];
    let mut taken = None;
    let mut ran = Vec::new();
    let mut action = e.tick();
    let mut turns = 0;
    while action != TickAction::Done {
        turns += 1;
        assert!(turns < 100);
        let event = match action {
            TickAction::Wait => TickEvent::Woken(true),
            TickAction::TakeNormal | TickAction::TakeLow => {
                let queue = if action == TickAction::TakeNormal { &mut normal } else { &mut low };
                taken = if queue.is_empty() { None } else { Some(queue.remove(0)) };
                TickEvent::Taken(taken.is_some())
            }
            TickAction::Run => {
                ran.extend(taken.take());
                TickEvent::Ran
            }
            TickAction::PollLocal => TickEvent::Polled(false),
            other => panic!("{:?}", other),
        };
        action = e.step(event);
    }
    assert_eq!(ran, vec!["n1", "n2", "n3", "l1", "l2"]);
}

#[test]
fn the_pump_copies() {
    assert!(matches!(
        consume_stream(PumpEvent::Bytes(vec![1, 2])),
        PumpAction::WriteAll(b) if b == vec![1, 2]
    ));
    assert!(matches!(consume_stream(PumpEvent::Written), PumpAction::Flush));
    assert!(matches!(consume_stream(PumpEvent::Flushed), PumpAction::Read));
    assert!(matches!(consume_stream(PumpEvent::Bytes(Vec::new())), PumpAction::Done));
    assert!(matches!(
        consume_stream(PumpEvent::Failed("e".to_owned())),
        PumpAction::Fail(e) if e == "e"
    ));
}

#[test]
fn misleading_variables_are_removed() {
    assert_eq!(
        scrub_env(&vec!["MINE".to_owned()]),
        vec!["OLDPWD", "PWD", "SHLVL", "WEZTERM_PANE", "WEZTERM_UNIX_SOCKET", "_", "MINE"]
    );
}

#[test]
fn the_first_program() {
    assert!(build_command(Vec::new(), None).is_none());
    let c = build_command(vec!["bash".to_owned()], None).unwrap();
    assert_eq!(c.argv, Some(vec!["bash".to_owned()]));
    let c = build_command(Vec::new(), Some("/tmp".to_owned())).unwrap();
    assert_eq!(c.argv, None);
    assert_eq!(c.cwd.as_deref(), Some("/tmp"));
}

#[test]
fn arguments_of_the_background_process() {
    let opt = Opt {
        skip_config: true,
        config_file: Some("/c".to_owned()),
        config_override: vec![("a".to_owned(), "1".to_owned()), ("b".to_owned(), "2".to_owned())],
        daemonize: true,
        cwd: Some("/d".to_owned()),
        pid_file_fd: None,
        prog: vec!["bash".to_owned(), "-l".to_owned()],
    };
    assert_eq!(
        daemon_args(&opt, Some(7)),
        vec![
            "--pid-file-fd", "7", "-n", "--config-file", "/c", "--config", "a=1", "--config",
            "b=2", "--cwd", "/d", "--", "bash", "-l"
        ]
    );
    let opt = Opt {
        skip_config: false,
        config_file: None,
        config_override: Vec::new(),
        daemonize: true,
        cwd: None,
        pid_file_fd: None,
        prog: Vec::new(),
    };
    assert!(daemon_args(&opt, None).is_empty());
    assert_eq!(daemon_args(&opt, Some(-1)), vec!["--pid-file-fd", "-1"]);
}

#[test]
fn the_server_comes_up_in_order() {
    let mut phase = ServerPhase::CloseOnExec;
    let mut seen = Vec::new();
    while phase != ServerPhase::ExecutorLoop {
        seen.push(phase);
        phase = phase.next(false, true);
        assert!(seen.len() < 20);
    }
    assert_eq!(
        seen,
        vec![
            ServerPhase::CloseOnExec,
            ServerPhase::Bootstrap,
            ServerPhase::ScrubEnv,
            ServerPhase::BlobLeases,
            ServerPhase::InitMux,
            ServerPhase::SpawnListeners,
        ]
    );
    assert_eq!(ServerPhase::Bootstrap.next(true, true), ServerPhase::Daemonize);
    assert_eq!(ServerPhase::Daemonize.next(true, true), ServerPhase::Reexec);
    assert_eq!(ServerPhase::InitMux.next(false, false), ServerPhase::Failed);
}

#[test]
fn what_the_server_listens_on() {
    let steps = spawn_listeners(&vec!["/s".to_owned()], &vec!["0.0.0.0:1".to_owned()], true);
    assert_eq!(
        format!("{:?}", steps),
        "[Unix(\"/s\"), Tls { bind_address: \"0.0.0.0:1\", verify_peer: true }]"
    );
    assert_eq!(init_mux().default_domain, "local");
}

#[test]
fn a_first_pane_is_made_where_there_is_none() {
    assert!(have_panes_in_domain(&vec![1, 2], 2));
    assert!(!have_panes_in_domain(&vec![1, 2], 3));
    assert_eq!(MuxPhase::StartupEvent.next(false, false), MuxPhase::LookForPanes);
    assert_eq!(MuxPhase::LookForPanes.next(true, true), MuxPhase::Running);
    assert_eq!(MuxPhase::LookForPanes.next(true, false), MuxPhase::Attach);
    assert_eq!(MuxPhase::Attach.next(true, false), MuxPhase::SpawnFirstPane);
    assert_eq!(MuxPhase::Attach.next(false, false), MuxPhase::Failed);
    assert_eq!(MuxPhase::UpdateDomains.next(true, false), MuxPhase::SubscribeToReload);
}

#[test]
fn what_is_no_number_is_told_as_the_standard_library_does() {
    for text in ["", "+", "-", "-1", "++1", "1x", "70000x", "6553x", "65536", "00065536", "x99999"] {
        let message = match parse_u16(text) {
            Ok(_) => panic!("{:?} was read", text),
            Err(e) => e.message(),
        };
        assert_eq!(message, text.parse::<u16>().unwrap_err().to_string(), "{:?}", text);
    }
    for text in ["0", "+65535", "0000000007"] {
        assert_eq!(parse_u16(text).ok(), text.parse::<u16>().ok());
    }
    assert_eq!(read_unsigned("8x", 8), Err(NumberError::InvalidDigit));
    assert_eq!(read_unsigned("9x", 8), Err(NumberError::TooLarge));
    assert_eq!(read_unsigned("", 8), Err(NumberError::Empty));
}

#[test]
fn names_with_something_between() {
    let names = |n: &[&str]| n.iter().map(|s| s.to_string()).collect::<Vec<String>>();
    assert_eq!(separate(&names(&[]), ", "), "");
    assert_eq!(separate(&names(&["a"]), ", "), "a");
    assert_eq!(separate(&names(&["a", "b", ""]), ", "), "a, b, ");
}

#[test]
fn a_line_that_is_not_entered_is_an_error() {
    assert_eq!(line_answer(Some("l".to_owned()), true), Ok("l".to_owned()));
    assert_eq!(line_answer(None, true), Err("prompt cancelled".to_owned()));
    assert_eq!(line_answer(None, false), Err("password entry was cancelled".to_owned()));
    assert_eq!(no_more_requests("disconnected"), "recv_timeout: disconnected");
    assert_eq!(SENDING_REQUEST, "send to ConnectionUI failed");
    assert_eq!(CLOSING_REASON, "(this window will close automatically)");
    assert_eq!(ERROR_TITLE, "wezterm Configuration Error");
    let (hidden, cursor) = highlight_line(PASSWORD_PLACEHOLDER, 2, 3, 3);
    assert_eq!(hidden.concat(), "\u{1f511}\u{1f511}\u{1f511}");
    assert_eq!(cursor, 6);
    assert_eq!(reexec_failed("Os { code: 2 }"), "failed to re-exec: Os { code: 2 }");
}

/// A terminal that says nothing of itself.
struct Plain;

impl Terminal for Plain {
    fn set_raw_mode(&mut self) -> Result<(), TerminalError> {
        Ok(())
    }
    fn set_cooked_mode(&mut self) -> Result<(), TerminalError> {
        Ok(())
    }
    fn enter_alternate_screen(&mut self) -> Result<(), TerminalError> {
        Ok(())
    }
    fn exit_alternate_screen(&mut self) -> Result<(), TerminalError> {
        Ok(())
    }
    fn get_screen_size(&mut self) -> Result<ScreenSize, TerminalError> {
        Ok(ScreenSize { rows: 24, cols: 80, xpixel: 0, ypixel: 0 })
    }
    fn set_screen_size(&mut self, _size: ScreenSize) -> Result<(), TerminalError> {
        Ok(())
    }
    fn render(&mut self, _changes: &Vec<Change>) -> Result<(), TerminalError> {
        Ok(())
    }
    fn flush(&mut self) -> Result<(), TerminalError> {
        Ok(())
    }
    fn poll_input(&mut self, _wait: Option<u128>) -> Result<Option<InputEvent>, TerminalError> {
        Ok(None)
    }
    fn waker(&self) -> TerminalWaker {
        TerminalWaker
    }
}

#[test]
fn a_terminal_is_not_asked_what_it_can_do_unless_it_says_how() {
    assert!(Plain.probe_capabilities().is_none());
}

#[test]
fn numbers_and_texts() {
    assert_eq!(decimal_text(0), "0");
    assert_eq!(decimal_text(u64::MAX), "18446744073709551615");
    assert_eq!(parse_u64("18446744073709551615"), Some(u64::MAX));
    assert_eq!(parse_u64("18446744073709551616"), None);
    assert_eq!(parse_u64("+7"), Some(7));
    assert_eq!(parse_u64(""), None);
    assert_eq!(parse_u64("-1"), None);
    assert_eq!(parse_u16("65535"), Ok(65_535));
    assert_eq!(parse_u16("65536"), Err(NumberError::TooLarge));
    assert_eq!(parse_unsigned("9", 8), None);
    assert_eq!(parse_i32("-2147483648"), Some(i32::MIN));
    assert_eq!(parse_i32("2147483648"), None);
    assert_eq!(split_text("a,b,,c", ','), vec!["a", "b", "", "c"]);
    assert_eq!(join3("a", "b", "c"), "abc");
    assert!(same_text("a", "a") && !same_text("a", "b"));
    assert!(text_not_after("10", "9") && !text_not_after("b", "a"));
    assert_eq!(text_of(&chars_of("h\u{e9}")), "h\u{e9}");
}
