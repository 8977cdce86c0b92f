//! The client: its reader loop, its reconnects, what the server pushes, and
//! what it settles about versions, panes and sockets.

use termlink::client::{
    compute_unix_domain, disconnected_text, last_used, reconnect_failed_text, resolve_pane_id,
    settle_pdu, verify_version_compat, Client, DomainKind, FocusedClient,
    IncompatibleVersionError, PaneError, PduError, PduReply, UnixChoice, VersionReply,
    VersionVerdict, RECONNECTING_TITLE,
};
use termlink::reader::{FailReason, ReaderAction, ReaderEnd, ReaderEvent, ReaderLoop};
use termlink::reconnect::{Link, LinkAction, LinkEvent, ReaderExit};
use termlink::text::NumberError;
use termlink::unilateral::{
    check_domain, process_unilateral, unknown_message, workspace_window, DomainLookup,
    MainThreadTask, PaneAction, PaneEvent, PaneLookup, PaneSearch, Route, TaskError, UnilateralPdu,
};

fn show<T: std::fmt::Debug>(t: T) -> String {
    format!("{:?}", t)
}

#[test]
fn a_request_is_answered_by_its_serial() {
    let (mut r, first) = ReaderLoop::new(false, 1_000);
    assert!(matches!(first, ReaderAction::Wait { deadline: Some(16_000) }));
    let sent = r.step(ReaderEvent::SendPdu { promise: 77 });
    assert!(matches!(sent, ReaderAction::SendRequest { serial: 1 }));
    assert!(matches!(
        r.step(ReaderEvent::Sent { now: 1_100 }),
        ReaderAction::Wait { .. }
    ));
    assert!(matches!(
        r.step(ReaderEvent::Readable { now: 1_200 }),
        ReaderAction::Decode { .. }
    ));
    assert!(matches!(
        r.step(ReaderEvent::Decoded { serial: 1 }),
        ReaderAction::Deliver { promise: 77 }
    ));
    assert!(matches!(
        r.step(ReaderEvent::Delivered(true)),
        ReaderAction::Wait { .. }
    ));
    // The same answer again belongs to nothing.
    r.step(ReaderEvent::Readable { now: 1_300 });
    match r.step(ReaderEvent::Decoded { serial: 1 }) {
        ReaderAction::End { failed, reason: FailReason::UnknownSerial, end } => {
            assert!(failed.is_empty());
            assert!(matches!(end, ReaderEnd::UnknownSerial(1)));
        }
        other => panic!("{:?}", other),
    }
}

#[test]
fn an_unanswered_ping_ends_the_connection() {
    let (mut r, _) = ReaderLoop::new(false, 0);
    r.step(ReaderEvent::SendPdu { promise: 5 });
    r.step(ReaderEvent::Sent { now: 0 });
    let ping = r.step(ReaderEvent::KeepaliveTick);
    assert!(matches!(ping, ReaderAction::SendPing { serial: 2 }));
    let wait = r.step(ReaderEvent::Sent { now: 15_000 });
    assert!(matches!(wait, ReaderAction::Wait { deadline: Some(25_000) }));
    match r.step(ReaderEvent::KeepaliveTick) {
        ReaderAction::End { failed, reason: FailReason::NoPong, end } => {
            assert_eq!(failed, vec![5]);
            assert!(matches!(end, ReaderEnd::TimedOut));
            assert_eq!(end.exit(false), ReaderExit::Failed);
            assert_eq!(
                end.message(""),
                "connection timed out: no data received for 10s after keepalive ping"
            );
            assert_eq!(ReaderEnd::ClientWasDestroyed.message(""), "Client was destroyed");
            assert_eq!(
                ReaderEnd::UnknownSerial(4).message("4"),
                "got serial 4 without a corresponding promise"
            );
        }
        other => panic!("{:?}", other),
    }
}

#[test]
fn anything_received_is_a_sign_of_life() {
    let (mut r, _) = ReaderLoop::new(false, 0);
    r.step(ReaderEvent::KeepaliveTick);
    r.step(ReaderEvent::Sent { now: 15_000 });
    r.step(ReaderEvent::Readable { now: 16_000 });
    // A message that nobody asked for.
    assert_eq!(show(r.step(ReaderEvent::Decoded { serial: 0 })), "ProcessUnilateral");
    assert!(matches!(
        r.step(ReaderEvent::Processed),
        ReaderAction::Wait { deadline: Some(31_000) }
    ));
    // The pong that comes late is no error.
    r.step(ReaderEvent::Readable { now: 17_000 });
    assert!(matches!(
        r.step(ReaderEvent::Decoded { serial: 1 }),
        ReaderAction::Wait { .. }
    ));
}

#[test]
fn local_servers_are_not_pinged() {
    let (_, first) = ReaderLoop::new(true, 0);
    assert!(matches!(first, ReaderAction::Wait { deadline: None }));
}

#[test]
fn every_end_of_the_reader_loop() {
    let (mut r, _) = ReaderLoop::new(true, 0);
    match r.step(ReaderEvent::Closed) {
        ReaderAction::End { end, reason, .. } => {
            assert_eq!(end.exit(false), ReaderExit::Destroyed);
            assert!(matches!(end, ReaderEnd::ClientWasDestroyed));
            assert!(matches!(reason, FailReason::Destroyed));
        }
        other => panic!("{:?}", other),
    }
    let (mut r, _) = ReaderLoop::new(true, 0);
    r.step(ReaderEvent::SendPdu { promise: 3 });
    match r.step(ReaderEvent::SendFailed("broken".to_owned())) {
        ReaderAction::End { failed, end, .. } => {
            assert_eq!(failed, vec![3]);
            assert!(matches!(end, ReaderEnd::Send(_)));
        }
        other => panic!("{:?}", other),
    }
    let (mut r, _) = ReaderLoop::new(true, 0);
    r.step(ReaderEvent::Readable { now: 1 });
    match r.step(ReaderEvent::DecodeFailed("eof".to_owned())) {
        ReaderAction::End { end, reason, .. } => {
            assert!(matches!(end, ReaderEnd::Decode(_)));
            assert_eq!(end.exit(true), ReaderExit::Eof);
            assert!(reason.message("eof").contains("eof"));
        }
        other => panic!("{:?}", other),
    }
    let (mut r, _) = ReaderLoop::new(true, 0);
    r.step(ReaderEvent::Readable { now: 1 });
    r.step(ReaderEvent::Decoded { serial: 0 });
    assert!(matches!(
        r.step(ReaderEvent::ProcessFailed("bad".to_owned())),
        ReaderAction::End { end: ReaderEnd::Unilateral(_), .. }
    ));
}

#[test]
fn a_lost_connection_is_taken_up_again() {
    let (mut l, first) = Link::new(true, true);
    assert_eq!(first, LinkAction::Read);
    assert!(l.is_connection_live());
    assert_eq!(
        l.step(LinkEvent::ReaderEnded(ReaderExit::Eof)),
        LinkAction::Sleep { ms: 1_000 }
    );
    assert!(!l.is_connection_live());
    let mut waits = Vec::new();
    for _ in 0..6 {
        assert_eq!(l.step(LinkEvent::Slept { unused: false }), LinkAction::Connect);
        match l.step(LinkEvent::ConnectFailed) {
            LinkAction::Sleep { ms } => waits.push(ms),
            other => panic!("{:?}", other),
        }
    }
    assert_eq!(waits, vec![2_000, 4_000, 8_000, 10_000, 10_000, 10_000]);
    l.step(LinkEvent::Slept { unused: false });
    assert_eq!(l.step(LinkEvent::Connected), LinkAction::ReattachAndRead);
    assert!(l.is_connection_live());
    assert_eq!(
        l.step(LinkEvent::ReaderEnded(ReaderExit::Failed)),
        LinkAction::Sleep { ms: 1_000 }
    );
    assert_eq!(
        l.step(LinkEvent::Slept { unused: true }),
        LinkAction::Stop { detach: true }
    );
}

#[test]
fn connections_that_are_not_taken_up_again() {
    for (reconnectable, has_domain) in [(false, true), (true, false)] {
        let (mut l, _) = Link::new(reconnectable, has_domain);
        assert_eq!(
            l.step(LinkEvent::ReaderEnded(ReaderExit::Failed)),
            LinkAction::Stop { detach: has_domain }
        );
    }
    for exit in [ReaderExit::Destroyed, ReaderExit::Finished] {
        let (mut l, _) = Link::new(true, true);
        assert_eq!(
            l.step(LinkEvent::ReaderEnded(exit)),
            LinkAction::Stop { detach: true }
        );
    }
}

#[test]
fn kinds_of_domains() {
    let (c, first) = Client::new(Some(3), DomainKind::Tls);
    assert_eq!(first, LinkAction::Read);
    assert!(c.is_reconnectable && !c.is_local && c.is_connection_live());
    let mut link = c.link;
    assert_eq!(
        link.step(LinkEvent::ReaderEnded(ReaderExit::Eof)),
        LinkAction::Sleep { ms: 1_000 }
    );
    assert_eq!(c.local_domain_id(), Some(3));
    let (c, _) = Client::new(None, DomainKind::Unix);
    assert!(!c.is_reconnectable && c.is_local);
    let (c, _) = Client::new(Some(1), DomainKind::Ssh);
    assert!(!c.is_reconnectable && !c.is_local);
}

#[test]
fn pushed_messages_are_routed() {
    let title = || UnilateralPdu::WindowTitleChanged { window_id: 4, title: "t".to_owned() };
    assert!(matches!(process_unilateral(None, title()), Route::Ignore));
    assert!(matches!(
        process_unilateral(Some(9), title()),
        Route::OnMainThread(MainThreadTask::SetWindowTitle { domain: 9, window_id: 4, .. })
    ));
    assert!(matches!(
        process_unilateral(Some(9), UnilateralPdu::TabResized),
        Route::OnMainThread(MainThreadTask::Resync { domain: 9 })
    ));
    assert!(matches!(
        process_unilateral(Some(9), UnilateralPdu::Other { pane: Some(2) }),
        Route::OnMainThread(MainThreadTask::ProcessForPane { domain: 9, pane_id: 2 })
    ));
    assert!(matches!(
        process_unilateral(Some(9), UnilateralPdu::Other { pane: None }),
        Route::Unknown
    ));
    assert_eq!(
        unknown_message("DecodedPdu { serial: 0, pdu: Pong(Pong) }"),
        "don't know how to handle DecodedPdu { serial: 0, pdu: Pong(Pong) }"
    );
}

#[test]
fn a_message_for_another_kind_of_pane_is_shown() {
    let (mut s, _) = PaneSearch::start(6, 2);
    s.step(PaneEvent::Domain(DomainLookup::Client));
    s.step(PaneEvent::LocalId(Some(40)));
    match s.step(PaneEvent::Pane(PaneLookup::NotClient)) {
        PaneAction::Fail(e) => assert_eq!(
            e.message("SetClipboard", "unused"),
            "received unilateral PDU for pane 40 which is not an instance of ClientPane: \
             SetClipboard"
        ),
        other => panic!("{:?}", other),
    }
}

#[test]
fn the_error_of_a_resync_is_handed_on() {
    let (mut s, _) = PaneSearch::start(6, 2);
    s.step(PaneEvent::Domain(DomainLookup::Client));
    s.step(PaneEvent::LocalId(None));
    match s.step(PaneEvent::Resynced(false)) {
        PaneAction::Fail(e) => {
            assert_eq!(e, TaskError::ResyncFailed);
            assert_eq!(e.message("unused", "Client was destroyed"), "Client was destroyed");
        }
        other => panic!("{:?}", other),
    }
}

#[test]
fn domains_and_windows_are_looked_up() {
    assert!(check_domain(3, DomainLookup::Client).is_ok());
    assert_eq!(
        check_domain(3, DomainLookup::Missing).unwrap_err().message("", ""),
        "no such domain 3"
    );
    assert_eq!(
        check_domain(3, DomainLookup::NotClient).unwrap_err().message("", ""),
        "domain 3 is not a ClientDomain instance"
    );
    assert_eq!(
        check_domain(3, DomainLookup::NoMux).unwrap_err().message("", ""),
        "no more mux"
    );
    assert_eq!(workspace_window(3, DomainLookup::Client, 8, Some(1)).unwrap(), 1);
    assert_eq!(
        workspace_window(3, DomainLookup::Client, 8, None).unwrap_err().message("", ""),
        "no local window for remote window id 8"
    );
}

#[test]
fn a_pane_that_is_not_known_is_looked_for_again() {
    let (mut s, first) = PaneSearch::start(6, 2);
    assert_eq!(show(first), "LookUpDomain");
    assert_eq!(show(s.step(PaneEvent::Domain(DomainLookup::Client))), "MapPaneId");
    assert_eq!(show(s.step(PaneEvent::LocalId(None))), "Resync");
    assert_eq!(show(s.step(PaneEvent::Resynced(true))), "MapPaneId");
    assert_eq!(show(s.step(PaneEvent::LocalId(Some(40)))), "LookUpPane(40)");
    assert!(matches!(s.step(PaneEvent::Pane(PaneLookup::Client)), PaneAction::Deliver));

    let (mut s, _) = PaneSearch::start(6, 2);
    assert!(matches!(
        s.step(PaneEvent::Domain(DomainLookup::NoMux)),
        PaneAction::Drop
    ));

    let (mut s, _) = PaneSearch::start(6, 2);
    s.step(PaneEvent::Domain(DomainLookup::Client));
    s.step(PaneEvent::LocalId(None));
    s.step(PaneEvent::Resynced(true));
    match s.step(PaneEvent::LocalId(None)) {
        PaneAction::Fail(e) => assert_eq!(
            e.message("", ""),
            "remote pane id 6 does not have a local pane id"
        ),
        other => panic!("{:?}", other),
    }

    let (mut s, _) = PaneSearch::start(6, 2);
    s.step(PaneEvent::Domain(DomainLookup::Client));
    s.step(PaneEvent::LocalId(Some(40)));
    assert_eq!(show(s.step(PaneEvent::Pane(PaneLookup::Missing))), "Resync");
    assert_eq!(show(s.step(PaneEvent::Resynced(true))), "MapPaneId");
    assert_eq!(show(s.step(PaneEvent::LocalId(Some(41)))), "LookUpPane(41)");
    match s.step(PaneEvent::Pane(PaneLookup::Missing)) {
        PaneAction::Fail(e) => {
            assert!(matches!(e, TaskError::LocalPaneNotFound(41)));
            assert_eq!(e.message("", ""), "local pane 41 not found");
        }
        other => panic!("{:?}", other),
    }
}

#[test]
fn versions_must_be_the_same() {
    let info = |codec_vers| VersionReply::Info { version: "v1".to_owned(), codec_vers };
    assert!(matches!(
        verify_version_compat(info(45), 45),
        VersionVerdict::SetClientId { version } if version == "v1"
    ));
    match verify_version_compat(info(44), 45) {
        VersionVerdict::Incompatible(e) => assert_eq!(
            e.message("v2", 45),
            "Please install the same version of wezterm on both the client and server!\n\
             The server version is v1 (codec version 44),\n\
             which is not compatible with our version \n\
             v2 (codec version 45)."
        ),
        other => panic!("{:?}", other),
    }
    let failure = |reply| match verify_version_compat(reply, 45) {
        VersionVerdict::Fail(m) => m,
        other => panic!("{:?}", other),
    };
    assert!(failure(VersionReply::Timeout).starts_with("Timed out while parsing"));
    assert!(failure(VersionReply::CorruptResponse).starts_with("Received an implausible"));
    assert!(failure(VersionReply::ChannelSendError).starts_with("Internal channel was closed"));
    assert!(failure(VersionReply::Failed("oops".to_owned()))
        .contains("The server reported error 'oops' while being asked for its version.  This"));
    assert_eq!(
        IncompatibleVersionError { version: "a".to_owned(), codec_vers: 1 },
        IncompatibleVersionError { version: "a".to_owned(), codec_vers: 1 }
    );
}

#[test]
fn replies_to_requests() {
    assert_eq!(settle_pdu(PduReply::Expected(4)).unwrap(), 4);
    assert!(matches!(settle_pdu::<u8>(PduReply::NotSent), Err(PduError::ChannelSendError)));
    assert!(matches!(settle_pdu::<u8>(PduReply::NoReply), Err(PduError::NoReply)));
    assert!(matches!(
        settle_pdu::<u8>(PduReply::Unexpected),
        Err(PduError::UnexpectedResponse)
    ));
    assert!(matches!(
        settle_pdu::<u8>(PduReply::Failed("f".to_owned())),
        Err(PduError::Failed(e)) if e == "f"
    ));
    assert_eq!(PduError::ChannelSendError.message("p"), "send_pdu send");
    assert_eq!(PduError::NoReply.message("p"), "send_pdu recv");
    assert_eq!(PduError::Failed("f".to_owned()).message("p"), "f");
    assert_eq!(
        PduError::UnexpectedResponse.message("Ok(Pong(Pong))"),
        "unexpected response Ok(Pong(Pong))"
    );
}

#[test]
fn what_is_sent_is_written_and_flushed() {
    let ping = ReaderAction::SendPing { serial: 1 };
    assert_eq!(ping.sending_context(false).as_deref(), Some("encoding keepalive ping"));
    assert_eq!(ping.sending_context(true).as_deref(), Some("flushing keepalive ping"));
    let request = ReaderAction::SendRequest { serial: 2 };
    assert_eq!(
        request.sending_context(false).as_deref(),
        Some("encoding a PDU to send to the server")
    );
    assert_eq!(request.sending_context(true).as_deref(), Some("flushing PDU to server"));
    assert_eq!(ReaderAction::ProcessUnilateral.sending_context(true), None);
}

#[test]
fn the_pane_that_is_meant() {
    let focused = |pane: Option<usize>, last_input: i128| FocusedClient {
        focused_pane_id: pane,
        last_input,
    };
    let clients = vec![
        focused(Some(1), 5),
        focused(None, 100),
        focused(Some(2), 9),
        focused(Some(3), 9),
    ];
    assert_eq!(last_used(&clients), Some(2));
    assert_eq!(resolve_pane_id(Some(8), &None, &clients), Ok(8));
    assert_eq!(resolve_pane_id(None, &Some("12".to_owned()), &clients), Ok(12));
    assert_eq!(
        resolve_pane_id(None, &Some("x".to_owned()), &clients),
        Err(PaneError::BadNumber(NumberError::InvalidDigit))
    );
    assert_eq!(resolve_pane_id(None, &None, &clients), Ok(2));
    assert_eq!(
        resolve_pane_id(None, &None, &vec![focused(None, 1)]),
        Err(PaneError::NothingFocused)
    );
    assert!(PaneError::NothingFocused.message().starts_with("--pane-id was not specified"));
    assert_eq!(
        PaneError::BadNumber(NumberError::Empty).message(),
        "cannot parse integer from empty string"
    );
}

#[test]
fn the_socket_that_is_meant() {
    let some = |s: &str| Some(s.to_owned());
    assert!(matches!(
        compute_unix_domain(some("/s"), false, some("/g"), 1),
        Ok(UnixChoice::Socket { path, no_serve_automatically: false }) if path == "/s"
    ));
    assert!(matches!(
        compute_unix_domain(some(""), false, some("/g"), 1),
        Ok(UnixChoice::Socket { path, no_serve_automatically: true }) if path == "/g"
    ));
    assert!(matches!(
        compute_unix_domain(None, true, some("/g"), 1),
        Ok(UnixChoice::FirstConfigured)
    ));
    assert_eq!(
        compute_unix_domain(None, true, some("/g"), 0).unwrap_err(),
        "no default unix domain is configured and WEZTERM_UNIX_SOCKET \
         is not set in the environment"
    );
}

#[test]
fn what_a_lost_connection_shows() {
    assert_eq!(RECONNECTING_TITLE, "wezterm: Reconnecting...");
    assert_eq!(disconnected_text("gone"), "client disconnected gone; will reconnect");
    assert_eq!(
        reconnect_failed_text("refused", "2s"),
        "problem reconnecting: refused; will reconnect in 2s\n"
    );
}

#[test]
fn serials_count_up_and_nobody_is_left_waiting() {
    let (mut r, _) = ReaderLoop::new(false, 0);
    let mut serials = Vec::new();
    for event in [
        ReaderEvent::SendPdu { promise: 10 },
        ReaderEvent::KeepaliveTick,
        ReaderEvent::SendPdu { promise: 20 },
        ReaderEvent::SendPdu { promise: 30 },
    ] {
        assert!(r.has_serial());
        match r.step(event) {
            ReaderAction::SendPing { serial } | ReaderAction::SendRequest { serial } => {
                serials.push(serial)
            }
            other => panic!("{:?}", other),
        }
        r.step(ReaderEvent::Sent { now: 1 });
    }
    assert_eq!(serials, vec![1, 2, 3, 4]);
    r.step(ReaderEvent::Readable { now: 2 });
    assert!(matches!(
        r.step(ReaderEvent::Decoded { serial: 3 }),
        ReaderAction::Deliver { promise: 20 }
    ));
    r.step(ReaderEvent::Delivered(true));
    match r.step(ReaderEvent::Closed) {
        ReaderAction::End { failed, end, .. } => {
            assert_eq!(failed, vec![10, 30]);
            assert_eq!(end.exit(true), ReaderExit::Destroyed);
        }
        other => panic!("{:?}", other),
    }
}
