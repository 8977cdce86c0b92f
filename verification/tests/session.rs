//! The session thread: its channels, its requests, its loop and its start.

use termlink::channels::{ChannelOutcome, ChannelPlan, DescriptorState, ExitStatus};
use termlink::config_map::ConfigMap;
use termlink::exec::{agent_target, connect_agent_channel, AgentTarget, ExecAction, ExecEvent, ExecRun};
use termlink::request_loop::{poll_plan, Backoff, ReadyAction, TurnStep};
use termlink::session::{
    queueing, settle, DeadSession, Handles, Queueing, RequestFailed,
};
use termlink::session_inner::{
    Dispatch, FileCall, LoopEnd, ReadyOutcome, Received, RequestRefused, Service, SessionInner,
    SessionRequest, SftpCall,
};
use termlink::session_run::{
    choose_backend, connect_banner, connect_context, invalid_backend_message, is_verbose,
    libssh_options, plan_reach, read_target, unacked_data_limit, Backend, Platform, Reach,
    ReachStep, RunPhase, TargetError,
};
use termlink::stream::{ReadOutcome, StreamBuffer, WriteOutcome, STREAM_CAPACITY};
use termlink::text::NumberError;

fn config(entries: &[(&str, &str)]) -> ConfigMap {
    let mut c = ConfigMap::new();
    for (name, value) in entries {
        c.insert(name, value);
    }
    c
}

fn inner() -> SessionInner {
    SessionInner::new(ConfigMap::new(), 0)
}

fn quiet() -> ChannelOutcome {
    ChannelOutcome { exit_status: None, stdin: None, stdout: None, stderr: None }
}

#[test]
fn configurations_keep_the_last_value() {
    let mut c = config(&[("user", "a"), ("port", "22")]);
    c.insert("user", "b");
    assert_eq!(c.get("user").as_deref(), Some("b"));
    assert_eq!(c.get("nothing"), None);
    assert!(c.has("port", "22"));
    assert!(!c.has("port", "23"));
    let mut d = c.duplicate();
    d.extend(&config(&[("port", "23"), ("x", "y")]));
    assert_eq!(d.get("port").as_deref(), Some("23"));
    assert_eq!(d.get("x").as_deref(), Some("y"));
    assert_eq!(c.get("port").as_deref(), Some("22"));
}

#[test]
fn buffers_hand_on_what_they_took() {
    let mut b = StreamBuffer::new();
    assert!(b.is_empty());
    assert_eq!(b.room(), STREAM_CAPACITY);
    assert!(!b.read_into_buf(ReadOutcome::Data(vec![1, 2, 3])));
    assert_eq!(b.bytes(), &[1, 2, 3]);
    assert_eq!(b.room(), STREAM_CAPACITY - 3);
    assert!(!b.write_from_buf(WriteOutcome::Wrote(2)));
    assert_eq!(b.bytes(), &[3]);
    assert_eq!(b.len(), 1);
    assert!(!b.write_from_buf(WriteOutcome::WouldBlock));
    assert!(b.write_from_buf(WriteOutcome::Failed));
    assert!(b.read_into_buf(ReadOutcome::Eof));
    assert!(b.read_into_buf(ReadOutcome::Failed));
    assert!(!b.read_into_buf(ReadOutcome::WouldBlock));
}

#[test]
fn output_goes_through_a_channel_in_order() {
    let mut s = inner();
    let id = s.add_channel(Some(7), Some(10), Some(11), Some(12));
    assert_eq!(id, 1);
    let plans: Vec<ChannelPlan> = s.tick_plan();
    assert_eq!(plans.len(), 1);
    assert!(plans[0].ask_exit_status);
    assert!(!plans[0].write_stdin);
    assert!(plans[0].read_stdout && plans[0].read_stderr);
    let r = s.tick_io(vec![ChannelOutcome {
        stdout: Some(ReadOutcome::Data(vec![1, 2])),
        stderr: Some(ReadOutcome::WouldBlock),
        ..quiet()
    }]);
    assert!(r.moved);
    assert!(r.exits.is_empty());
    let r = s.tick_io(vec![ChannelOutcome {
        stdout: Some(ReadOutcome::Data(vec![3])),
        stderr: Some(ReadOutcome::WouldBlock),
        ..quiet()
    }]);
    assert!(r.moved);
    assert_eq!(s.channels().at(0).stdout.buf.bytes(), &[1, 2, 3]);
    assert!(!s.apply_ready(0, 1, ReadyOutcome::Wrote(WriteOutcome::Wrote(2))));
    assert_eq!(s.channels().at(0).stdout.buf.bytes(), &[3]);
    let r = s.tick_io(vec![ChannelOutcome {
        stdout: Some(ReadOutcome::WouldBlock),
        stderr: Some(ReadOutcome::WouldBlock),
        ..quiet()
    }]);
    assert!(!r.moved);
}

#[test]
fn an_exit_status_is_told_once() {
    let mut s = inner();
    s.add_channel(Some(7), Some(10), Some(11), Some(12));
    let r = s.tick_io(vec![ChannelOutcome {
        exit_status: Some(ExitStatus { code: 3 }),
        stdout: Some(ReadOutcome::WouldBlock),
        stderr: Some(ReadOutcome::WouldBlock),
        ..quiet()
    }]);
    assert_eq!(r.exits, vec![(7, ExitStatus { code: 3 })]);
    let plans = s.tick_plan();
    assert!(plans.is_empty() || !plans[0].ask_exit_status);
}

#[test]
fn input_is_read_and_its_end_closes_the_channel() {
    let mut s = inner();
    s.add_channel(None, Some(10), Some(11), None);
    assert!(!s.apply_ready(0, 0, ReadyOutcome::Read(ReadOutcome::Data(vec![9]))));
    assert_eq!(s.channels().at(0).stdin.buf.bytes(), &[9]);
    assert!(s.apply_ready(0, 0, ReadyOutcome::Read(ReadOutcome::Eof)));
}

#[test]
fn descriptors_start_empty() {
    let d = DescriptorState::new(Some(4));
    assert_eq!(d.fd, Some(4));
    assert!(d.buf.is_empty());
}

#[test]
fn requests_are_dispatched() {
    let mut s = inner();
    assert_eq!(s.dispatch_one_request(Received::Empty), Dispatch::Idle);
    assert_eq!(s.dispatch_one_request(Received::Closed), Dispatch::AllClientsClosed);
    assert_eq!(Dispatch::AllClientsClosed.ending(), Some(LoopEnd::Abandoned));
    assert_eq!(Dispatch::Idle.ending(), None);
    assert_eq!(LoopEnd::Abandoned.error().as_deref(), Some("all clients are closed"));
    assert_eq!(
        LoopEnd::Lost.error().as_deref(),
        Some("the connection to the host was lost")
    );
    assert_eq!(LoopEnd::Closed.error(), None);
    assert_eq!(LoopEnd::Drained.error(), None);
    assert!(s.has_channel_id() && s.has_file_id());
    assert_eq!(
        s.dispatch_one_request(Received::Request(SessionRequest::Exec)),
        Dispatch::Serve { service: Service::Perform, more: true }
    );
    assert_eq!(
        s.dispatch_one_request(Received::Request(SessionRequest::Sftp(SftpCall::Rename))),
        Dispatch::Serve { service: Service::Perform, more: true }
    );
    assert_eq!(
        s.dispatch_one_request(Received::Request(SessionRequest::SignalChannel(5))),
        Dispatch::Serve {
            service: Service::Refuse(RequestRefused::InvalidChannel(5)),
            more: true
        }
    );
    assert_eq!(RequestRefused::InvalidChannel(5).message(), "invalid channel id 5");
    assert_eq!(RequestRefused::InvalidFileId.message(), "invalid file_id");
    assert_eq!(RequestRefused::InvalidDirId.message(), "invalid dir_id");
    assert_eq!(SessionRequest::CloseFile(1).label(), "close_file");
}

#[test]
fn closed_files_are_refused() {
    let mut s = inner();
    let id = s.open_with_mode();
    assert_eq!(id, 1);
    let dir = s.open_dir();
    assert_eq!(dir, 2);
    let read = Received::Request(SessionRequest::File(FileCall::Read, id));
    assert_eq!(
        s.dispatch_one_request(read),
        Dispatch::Serve { service: Service::Perform, more: true }
    );
    assert_eq!(
        s.dispatch_one_request(Received::Request(SessionRequest::CloseFile(id))),
        Dispatch::Serve { service: Service::Done, more: true }
    );
    assert_eq!(
        s.dispatch_one_request(read),
        Dispatch::Serve {
            service: Service::Refuse(RequestRefused::InvalidFileId),
            more: true
        }
    );
    s.dispatch_one_request(Received::Request(SessionRequest::CloseDir(dir)));
    assert_eq!(
        s.dispatch_one_request(Received::Request(SessionRequest::CloseDir(dir))),
        Dispatch::Serve {
            service: Service::Refuse(RequestRefused::InvalidDirId),
            more: true
        }
    );
}

#[test]
fn shutting_down_does_not_wait_and_dropping_does() {
    let mut s = inner();
    s.add_channel(None, Some(1), Some(2), Some(3));
    assert_eq!(s.ending(true), None);
    s.dispatch_one_request(Received::Request(SessionRequest::SessionDropped));
    assert_eq!(s.ending(true), None);
    assert_eq!(
        s.dispatch_one_request(Received::Request(SessionRequest::Shutdown)),
        Dispatch::Serve { service: Service::Noted, more: false }
    );
    assert_eq!(s.ending(true), Some(LoopEnd::Closed));

    let mut s = inner();
    s.dispatch_one_request(Received::Request(SessionRequest::SessionDropped));
    assert_eq!(s.ending(true), Some(LoopEnd::Drained));

    let s = inner();
    assert_eq!(s.ending(false), Some(LoopEnd::Lost));
}

#[test]
fn establishment_and_silence() {
    let mut s = SessionInner::new(ConfigMap::new(), 1_000);
    assert!(!s.is_established());
    assert!(!s.authenticated_with_key());
    s.note_authenticated(true);
    s.enter_request_loop();
    assert!(s.is_established());
    assert!(s.authenticated_with_key());
    s.note_authenticated(false);
    assert!(s.authenticated_with_key());
    s.note_delivery(Some(12), 2_000);
    assert_eq!(s.unanswered_ms(), 0);
    s.note_delivery(Some(5), 2_750);
    assert_eq!(s.unanswered_ms(), 750);
    s.note_delivery(Some(0), 3_000);
    assert_eq!(s.unanswered_ms(), 0);
    s.note_delivery(Some(1), 4_000);
    s.note_delivery(None, 9_000);
    assert_eq!(s.unanswered_ms(), 0);
}

#[test]
fn keep_alives_follow_their_interval() {
    let mut s = SessionInner::new(config(&[("serveraliveinterval", "10")]), 0);
    assert!(!s.do_keepalive(true, 9_999));
    assert!(s.do_keepalive(true, 10_000));
    assert!(!s.do_keepalive(true, 15_000));
    let mut s = SessionInner::new(config(&[("serveraliveinterval", "0")]), 0);
    assert!(!s.do_keepalive(true, 1_000_000));
    let mut s = inner();
    assert!(!s.do_keepalive(true, 1_000_000));
}

#[test]
fn address_families_and_timeouts() {
    let s = SessionInner::new(config(&[("addressfamily", "inet")]), 0);
    assert!(s.filter_sock_addr(true));
    assert!(!s.filter_sock_addr(false));
    assert_eq!(s.pick_address(&vec![false, true, true]), Some(1));
    let s = SessionInner::new(config(&[("addressfamily", "inet6")]), 0);
    assert_eq!(s.pick_address(&vec![true, true]), None);
    let s = SessionInner::new(config(&[("connecttimeout", "7")]), 0);
    assert_eq!(s.connect_timeout(), 7);
    assert_eq!(s.pick_address(&vec![true, false]), Some(0));
}

#[test]
fn the_agent_to_forward() {
    let s = SessionInner::new(config(&[("identityagent", "/a"), ("forwardagent", "yes")]), 0);
    assert_eq!(s.identity_agent(None).as_deref(), Some("/a"));
    assert!(s.forwards_agent(None));
    assert!(matches!(agent_target(&s, None), AgentTarget::Connect(p) if p == "/a"));
    let s = inner();
    assert_eq!(s.identity_agent(Some("/e".to_owned())).as_deref(), Some("/e"));
    assert!(!s.forwards_agent(Some("/e".to_owned())));
    assert!(matches!(agent_target(&s, None), AgentTarget::NoIdentityAgent));
    let mut s = inner();
    assert_eq!(connect_agent_channel(&mut s, 5, 6), 1);
    assert_eq!(s.channels().len(), 1);
}

#[test]
fn a_command_gets_a_channel_of_its_own() {
    let mut s = inner();
    let (mut run, first) = ExecRun::start(&s, None, 1);
    assert!(matches!(first, ExecAction::OpenSession));
    assert!(matches!(run.step(&mut s, ExecEvent::Succeeded), ExecAction::RequestEnv(0)));
    // A refused variable is no reason to give up.
    assert!(matches!(
        run.step(&mut s, ExecEvent::Failed("no".to_owned())),
        ExecAction::RequestExec
    ));
    assert!(matches!(run.step(&mut s, ExecEvent::Succeeded), ExecAction::MakePipes));
    let done = run.step(&mut s, ExecEvent::Pipes { stdin: 1, stdout: 2, stderr: 3, exit: 4 });
    assert!(matches!(done, ExecAction::Done(1)));
    assert_eq!(s.channels().find(1), Some(0));

    let (mut run, _) = ExecRun::start(&s, None, 0);
    assert!(matches!(
        run.step(&mut s, ExecEvent::Failed("no".to_owned())),
        ExecAction::Fail(e) if e == "no"
    ));
}

#[test]
fn the_turn_of_the_loop() {
    let mut step = TurnStep::NoteDelivery;
    let mut seen = vec![step];
    while step != TurnStep::Poll {
        step = step.next(false);
        seen.push(step);
        assert!(seen.len() < 20);
    }
    assert_eq!(
        seen,
        vec![
            TurnStep::NoteDelivery,
            TurnStep::KeepAlive,
            TurnStep::TickIo,
            TurnStep::DrainRequestPipe,
            TurnStep::Dispatch,
            TurnStep::ForwardAgent,
            TurnStep::CheckEnd,
            TurnStep::Poll,
        ]
    );
    assert_eq!(TurnStep::Dispatch.next(true), TurnStep::Dispatch);
}

#[test]
fn what_is_polled() {
    let mut s = inner();
    s.add_channel(None, Some(10), Some(11), None);
    let plan = poll_plan(&s, true, false);
    assert!(plan.session_readable);
    assert!(!plan.session_writable);
    assert_eq!(plan.entries.len(), 2);
    assert_eq!(plan.entries[0].fd, 10);
    assert!(plan.entries[0].readable);
    assert_eq!(plan.entries[1].fd, 11);
    assert!(!plan.entries[1].writable);
    assert_eq!(s.channels().ready_action(0, 0), ReadyAction::Read);
}

#[test]
fn waiting_grows_while_nothing_moves() {
    let mut b = Backoff::new();
    assert_eq!(b.wait(true), 0);
    let first = b.wait(false);
    assert_eq!(first, 100);
    let mut last = first;
    for _ in 0..10 {
        b.polled(false, false);
        let now = b.wait(false);
        assert!(now >= last && now <= 250);
        last = now;
    }
    assert_eq!(last, 250);
    b.polled(true, false);
    assert_eq!(b.wait(false), 100);
}

#[test]
fn the_library_to_use() {
    assert!(matches!(choose_backend(&ConfigMap::new()), Backend::Libssh));
    assert!(matches!(
        choose_backend(&config(&[("wezterm_ssh_backend", "ssh2")])),
        Backend::Ssh2
    ));
    assert!(matches!(
        choose_backend(&config(&[("wezterm_ssh_backend", "x")])),
        Backend::Invalid(v) if v == "x"
    ));
    assert_eq!(
        invalid_backend_message("x"),
        "invalid wezterm_ssh_backend value: x, expected either `ssh2` or `libssh`"
    );
}

#[test]
fn the_target_of_a_session() {
    let c = config(&[("hostname", "h"), ("user", "u"), ("port", "2222")]);
    let t = read_target(&c).unwrap();
    assert_eq!(connect_banner(true, &t), "Using libssh-rs to connect to u@h:2222");
    assert_eq!(connect_banner(false, &t), "Using ssh2 to connect to u@h:2222");
    let missing = |entries: &[(&str, &str)]| match read_target(&config(entries)) {
        Ok(_) => panic!("a target was read"),
        Err(e) => e,
    };
    assert_eq!(missing(&[]), TargetError::NoHostname);
    assert_eq!(missing(&[("hostname", "h")]), TargetError::NoUser);
    assert_eq!(missing(&[("hostname", "h"), ("user", "u")]), TargetError::NoPort);
    assert_eq!(
        missing(&[("hostname", "h"), ("user", "u"), ("port", "70000")]),
        TargetError::BadPort(NumberError::TooLarge)
    );
    assert_eq!(
        missing(&[("hostname", "h"), ("user", "u"), ("port", "ssh")]).message(),
        "invalid digit found in string"
    );
    assert_eq!(
        missing(&[("hostname", "h"), ("user", "u"), ("port", "")]).message(),
        "cannot parse integer from empty string"
    );
    assert_eq!(TargetError::NoHostname.message(), "hostname not present in config");
    assert_eq!(TargetError::NoUser.message(), "username not present in config");
    assert_eq!(TargetError::NoPort.message(), "port is always set in config loader");
    assert_eq!(
        TargetError::BadPort(NumberError::TooLarge).message(),
        "number too large to fit in target type"
    );
}

#[test]
fn options_of_libssh() {
    let c = config(&[
        ("hostname", "h"),
        ("user", "u"),
        ("port", "22"),
        ("wezterm_ssh_verbose", "true"),
        ("bindaddress", "1.2.3.4"),
    ]);
    assert!(is_verbose(&c));
    assert!(!is_verbose(&ConfigMap::new()));
    let t = read_target(&c).unwrap();
    let options = libssh_options(
        &c,
        &t,
        &vec!["/k".to_owned()],
        &vec!["/known".to_owned()],
    );
    let shown = format!("{:?}", options);
    assert!(shown.starts_with("[LogPackets, Hostname(\"h\"), User(\"u\"), Port(22)"), "{}", shown);
    assert!(shown.contains("AddIdentity(\"/k\")"));
    assert!(shown.contains("KnownHosts(\"/known\")"));
    assert!(shown.contains("BindAddress(\"1.2.3.4\")"));
}

#[test]
fn proxies() {
    assert!(matches!(plan_reach(&ConfigMap::new(), false, None), Reach::Direct));
    assert!(matches!(
        plan_reach(&config(&[("proxycommand", "none")]), false, None),
        Reach::Direct
    ));
    match plan_reach(&config(&[("proxycommand", "nc h 22")]), false, None) {
        Reach::Proxy { program, args, use_fdpass } => {
            assert_eq!(program, "sh");
            assert_eq!(args, vec!["-c", "exec nc h 22"]);
            assert!(!use_fdpass);
        }
        other => panic!("{:?}", other),
    }
    match plan_reach(&config(&[("proxycommand", "nc h 22")]), true, None) {
        Reach::Proxy { program, args, .. } => {
            assert_eq!(program, "cmd");
            assert_eq!(args, vec!["/c", "nc h 22"]);
        }
        other => panic!("{:?}", other),
    }
    assert!(matches!(
        plan_reach(
            &config(&[("proxycommand", "x"), ("proxyusefdpass", "yes")]),
            false,
            None
        ),
        Reach::Proxy { use_fdpass: true, .. }
    ));
}

#[test]
fn the_limit_on_unacknowledged_data() {
    assert_eq!(unacked_data_limit(Platform::Linux, 20), Some(20_000));
    assert_eq!(unacked_data_limit(Platform::Apple, 20), Some(20));
    assert_eq!(unacked_data_limit(Platform::Other, 20), None);
}

#[test]
fn requests_come_after_authentication() {
    for libssh in [true, false] {
        let mut phase = RunPhase::Announce;
        let mut authenticated = false;
        let mut turns = 0;
        while phase != RunPhase::RequestLoop {
            authenticated = authenticated || phase == RunPhase::Authenticate;
            phase = phase.next(libssh, true);
            turns += 1;
            assert!(turns < 30);
        }
        assert!(authenticated);
        assert_eq!(RunPhase::Authenticate.next(libssh, false), RunPhase::Failed);
    }
}

#[test]
fn a_dead_session_is_told_apart_from_a_refusal() {
    assert_eq!(settle(true, Some(Ok(5))).unwrap(), 5);
    assert!(matches!(settle::<u8>(true, None), Err(RequestFailed::Dead(DeadSession))));
    assert!(matches!(settle(false, Some(Ok(5))), Err(RequestFailed::Dead(_))));
    assert!(matches!(
        settle::<u8>(true, Some(Err("no".to_owned()))),
        Err(RequestFailed::Refused(e)) if e == "no"
    ));
    assert_eq!(DeadSession.message(), "SSH session is dead");
}

#[test]
fn closing_requests_displace_others() {
    assert_eq!(queueing(SessionRequest::Shutdown), Queueing::Displace);
    assert_eq!(queueing(SessionRequest::SessionDropped), Queueing::Displace);
    assert_eq!(queueing(SessionRequest::NewPty), Queueing::Wait);
}

#[test]
fn the_last_handle_ends_the_session() {
    let mut h = Handles::connect();
    h.cloned();
    assert_eq!(h.dropped(), None);
    assert_eq!(h.dropped(), Some(SessionRequest::SessionDropped));
}

#[test]
fn what_is_said_of_a_session_that_does_not_start() {
    let t = read_target(&config(&[("hostname", "h"), ("user", "u"), ("port", "22")])).unwrap();
    let says = |phase: RunPhase, libssh: bool| phase.context(libssh, &t);
    assert_eq!(says(RunPhase::Announce, true).as_deref(), Some("notifying user of banner"));
    assert_eq!(says(RunPhase::Handshake, true).as_deref(), Some("Connecting to h:22"));
    assert_eq!(says(RunPhase::Handshake, false).as_deref(), Some("ssh handshake with h:22"));
    assert_eq!(says(RunPhase::VerifyHost, false).as_deref(), Some("host verification"));
    assert_eq!(says(RunPhase::VerifyHost, true), None);
    assert_eq!(says(RunPhase::Authenticate, false).as_deref(), Some("authentication"));
    assert_eq!(says(RunPhase::Authenticate, true), None);
    assert_eq!(
        says(RunPhase::AnnounceAuthenticated, true).as_deref(),
        Some("notifying user that session is authenticated")
    );
    assert_eq!(says(RunPhase::ConnectHost, true), None);

    assert_eq!(ReachStep::SpawnProxy.context("nc %h"), "spawning ProxyCommand nc %h");
    assert_eq!(ReachStep::Resolve.context("h"), "resolving address for h");
    assert_eq!(ReachStep::ResolveBind.context("\"b\""), "resolving bind address \"b\"");
    assert_eq!(ReachStep::Bind.context("10.0.0.1:0"), "binding to 10.0.0.1:0");
    assert_eq!(
        connect_context(&t, "10.0.0.2:22", 30),
        "Connecting to h:22 (10.0.0.2:22) within 30s"
    );
}

#[test]
fn an_agent_that_is_to_be_forwarded_has_to_be_there() {
    let asked = SessionInner::new(config(&[("forwardagent", "yes")]), 0);
    assert_eq!(
        asked.missing_agent(None),
        Some("ForwardAgent is set to yes, but IdentityAgent is not set")
    );
    assert_eq!(asked.missing_agent(Some("/agent".to_owned())), None);
    let unasked = SessionInner::new(config(&[]), 0);
    assert_eq!(unasked.missing_agent(None), None);
}
