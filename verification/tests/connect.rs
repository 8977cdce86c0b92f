//! Reaching a server: budgets, directories, bootstrap configurations and the
//! steps of TCP, unix and TLS connections.

use termlink::config_map::ConfigMap;
use termlink::connect::{
    bootstrap_ssh_config, connect_budget_slice, connecting_context, host_part, proxy_command_line,
    proxy_context, proxy_exited, resolving_context, running_message, start_context,
    tlscreds_command_line, wezterm_bin_path, RetryAction, RetryEvent, TcpAction, TcpConnect,
    UnixAction, UnixConnect, UnixRetry,
};
use termlink::directory::escape_for_directory_name;
use termlink::path::join;
use termlink::text::exact_duration_text;
use termlink::tls::{SshParameters, TlsDomainClient, TlsDomainServer};
use termlink::tls_connect::{
    creds_file, plan_setup, temporary_path, ConnectError, SetupStep, TlsAction, TlsConnect,
    TlsEvent, TlsStage, WriteResult, WriteStep, TLS_CONNECTED, UNEXPECTED_TLSCREDS,
};

const SECOND: u128 = 1_000_000_000;

/// What a configuration that reads no files says of a host, with the home
/// directory of `tester`.
fn for_host(host: &str) -> ConfigMap {
    let mut config = ConfigMap::new();
    config.insert("hostname", host);
    config.insert("user", "tester");
    config.insert("port", "22");
    config.insert(
        "identityfile",
        "/home/tester/.ssh/id_dsa /home/tester/.ssh/id_ecdsa \
         /home/tester/.ssh/id_ed25519 /home/tester/.ssh/id_rsa",
    );
    config
}

fn params(user: Option<&str>, host_and_port: &str) -> SshParameters {
    SshParameters {
        username: user.map(str::to_owned),
        host_and_port: host_and_port.to_owned(),
    }
}

fn get(config: &ConfigMap, name: &str) -> Option<String> {
    config.get(name)
}

#[test]
fn empty_ssh_option_leaves_the_bootstrap_config_unchanged() {
    let built = bootstrap_ssh_config(
        for_host("example.com"),
        &params(Some("alice"), "example.com:2222"),
        &ConfigMap::new(),
    );

    let mut expected = for_host("example.com");
    expected.insert("user", "alice");
    expected.insert("port", "2222");

    assert_eq!(format!("{:?}", built), format!("{:?}", expected));
    assert_eq!(
        get(&built, "identityfile").as_deref(),
        Some(
            "/home/tester/.ssh/id_dsa /home/tester/.ssh/id_ecdsa \
             /home/tester/.ssh/id_ed25519 /home/tester/.ssh/id_rsa"
        )
    );
}

#[test]
fn caller_identity_file_overrides_the_home_default() {
    let mut ssh_option = ConfigMap::new();
    ssh_option.insert("identityfile", "/data/app/keys/id_ed25519");
    ssh_option.insert("identitiesonly", "yes");

    let built = bootstrap_ssh_config(
        for_host("example.com"),
        &params(Some("alice"), "example.com"),
        &ssh_option,
    );

    assert_eq!(
        get(&built, "identityfile").as_deref(),
        Some("/data/app/keys/id_ed25519")
    );
    assert_eq!(get(&built, "identitiesonly").as_deref(), Some("yes"));
}

#[test]
fn bootstrap_target_user_and_port_win_over_ssh_option() {
    let mut ssh_option = ConfigMap::new();
    ssh_option.insert("user", "someone-else");
    ssh_option.insert("port", "9999");

    let built = bootstrap_ssh_config(
        for_host("example.com"),
        &params(Some("alice"), "example.com:2222"),
        &ssh_option,
    );

    assert_eq!(get(&built, "user").as_deref(), Some("alice"));
    assert_eq!(get(&built, "port").as_deref(), Some("2222"));
}

#[test]
fn ssh_option_user_applies_when_the_target_has_none() {
    let mut ssh_option = ConfigMap::new();
    ssh_option.insert("user", "someone-else");

    let built = bootstrap_ssh_config(
        for_host("example.com"),
        &params(None, "example.com"),
        &ssh_option,
    );

    assert_eq!(get(&built, "user").as_deref(), Some("someone-else"));
    assert_eq!(get(&built, "port").as_deref(), Some("22"));
}

#[test]
fn domain_name_becomes_a_legal_directory_name() {
    let escaped = escape_for_directory_name("tls:10.0.0.5:8080");
    assert_eq!(escaped, "tls%3A10.0.0.5%3A8080");
    for illegal in ['<', '>', ':', '"', '/', '\\', '|', '?', '*'] {
        assert!(
            !escaped.contains(illegal),
            "{:?} is not legal in a Windows filename: {}",
            illegal,
            escaped
        );
    }
}

#[test]
fn different_targets_never_share_a_directory() {
    assert_ne!(
        escape_for_directory_name("tls:host:8443"),
        escape_for_directory_name("tls:host_8443")
    );
    assert_ne!(
        escape_for_directory_name("tls:a"),
        escape_for_directory_name("tls%3Aa")
    );
}

#[test]
fn safe_names_are_unchanged() {
    assert_eq!(escape_for_directory_name("termob-tls"), "termob-tls");
    assert_eq!(
        escape_for_directory_name("host.example_1"),
        "host.example_1"
    );
}

#[test]
fn every_byte_of_a_character_is_escaped() {
    assert_eq!(escape_for_directory_name("\u{e9}"), "%C3%A9");
    assert_eq!(escape_for_directory_name("\u{20ac}x"), "%E2%82%ACx");
    assert_eq!(escape_for_directory_name("\u{1f600}"), "%F0%9F%98%80");
}

#[test]
fn every_name_gives_a_directory_of_its_own() {
    assert_eq!(escape_for_directory_name("."), "%2E");
    assert_eq!(escape_for_directory_name(".."), "%2E%2E");
    assert_eq!(escape_for_directory_name("a."), "a%2E");
    assert_eq!(escape_for_directory_name("a.."), "a%2E%2E");
    assert_eq!(escape_for_directory_name(".a"), ".a");
    assert_eq!(escape_for_directory_name("..a"), "..a");
    assert_eq!(escape_for_directory_name(""), "%");
    assert_eq!(escape_for_directory_name("%"), "%25");
    assert_eq!(escape_for_directory_name("%2E"), "%252E");
}

#[test]
fn paths_are_joined() {
    assert_eq!(join("/d", "f"), "/d/f");
    assert_eq!(join("/d/", "f"), "/d/f");
    assert_eq!(join("/", "f"), "/f");
    assert_eq!(join("", "f"), "f");
    assert_eq!(join("/d", "/f"), "/f");
}

#[test]
fn durations_are_written_as_std_writes_them() {
    for nanos in [
        0u64,
        1,
        999,
        1_000,
        1_500,
        999_999,
        1_000_000,
        1_000_001,
        20_300_000,
        999_999_999,
        1_000_000_000,
        1_000_000_001,
        1_500_000_000,
        90_000_000_000,
        u64::MAX,
    ] {
        assert_eq!(
            exact_duration_text(nanos as u128),
            format!("{:?}", std::time::Duration::from_nanos(nanos))
        );
    }
    assert_eq!(exact_duration_text(2_050_000_000), "2.05s");
}

#[test]
fn budget_is_shared_between_addresses() {
    assert_eq!(connect_budget_slice(10 * SECOND, 1), 10 * SECOND);
    assert_eq!(connect_budget_slice(10 * SECOND, 2), 5 * SECOND);
    assert_eq!(connect_budget_slice(9 * SECOND, 3), 3 * SECOND);
}

#[test]
fn slice_is_never_zero() {
    assert!(connect_budget_slice(1, 64) != 0);
    assert!(connect_budget_slice(0, 1) != 0);
}

#[test]
fn zero_remaining_addresses_does_not_panic() {
    assert!(connect_budget_slice(SECOND, 0) != 0);
}

#[test]
fn a_slice_is_at_least_a_millisecond() {
    assert_eq!(connect_budget_slice(1, 64), 1_000_000);
}

#[test]
fn addresses_are_tried_in_turn() {
    let (mut c, first) = TcpConnect::start(2, 10 * SECOND, 0);
    assert_eq!(first, TcpAction::Try { index: 0, slice: 5 * SECOND });
    assert_eq!(
        c.attempted(false, 4 * SECOND),
        TcpAction::Try { index: 1, slice: 6 * SECOND }
    );
    assert_eq!(c.attempted(true, 5 * SECOND), TcpAction::Connected { index: 1 });
}

#[test]
fn a_refused_attempt_is_reported_and_not_a_timeout() {
    let (mut c, _) = TcpConnect::start(2, 10 * SECOND, 0);
    assert_eq!(c.attempted(false, 20 * SECOND), TcpAction::ReportError { index: 0 });
    let (mut c, _) = TcpConnect::start(1, 10 * SECOND, 0);
    assert_eq!(c.attempted(false, SECOND), TcpAction::ReportError { index: 0 });
}

#[test]
fn no_time_and_no_addresses() {
    assert_eq!(TcpConnect::start(2, SECOND, SECOND).1, TcpAction::TimedOut);
    assert_eq!(TcpConnect::start(0, SECOND, 0).1, TcpAction::NoAddresses);
    let (_, action) = TcpConnect::start(1, 0, 0);
    assert_eq!(
        action.failure(0, "127.0.0.1:1").as_deref(),
        Some("timed out after 0ns connecting to 127.0.0.1:1")
    );
    assert_eq!(
        TcpAction::TimedOut.failure(10 * SECOND + 500_000_000, "h:1").as_deref(),
        Some("timed out after 10.5s connecting to h:1")
    );
    assert_eq!(
        TcpAction::NoAddresses.failure(0, "h:1").as_deref(),
        Some("h:1 resolved to no addresses")
    );
    assert_eq!(TcpAction::ReportError { index: 0 }.failure(0, "h:1"), None);
    assert_eq!(connecting_context("h:1"), "connecting to h:1");
    assert_eq!(resolving_context("h:1"), "resolving h:1");
}

/// A name that resolves to nothing fails with a clear message instead of
/// silently succeeding at "tried every address".
#[test]
fn unresolvable_name_is_an_error() {
    let address = "no-such-host.invalid:8443";
    let msg = resolving_context(address);
    assert!(msg.contains("no-such-host.invalid"), "unhelpful error: {}", msg);

    let (_, action) = TcpConnect::start(0, 2 * SECOND, 0);
    let msg = action
        .failure(2 * SECOND, address)
        .expect("`.invalid` is reserved and must not resolve");
    assert!(msg.contains("no-such-host.invalid"), "unhelpful error: {}", msg);
}

#[test]
fn a_single_attempt_is_reported_with_its_path() {
    let (mut r, action) = UnixRetry::start(false, false, Some(1));
    assert_eq!(action, RetryAction::ConnectSocket);
    assert_eq!(r.step(RetryEvent::SocketTried(false)), RetryAction::Fail);
    assert_eq!(
        r.failure_context("/nonexistent/mux.sock").as_deref(),
        Some("connecting to /nonexistent/mux.sock")
    );
    let (r, _) = UnixRetry::start(true, false, Some(1));
    assert_eq!(r.failure_context("/p"), None);
}

#[test]
fn host_is_what_stands_before_the_first_colon() {
    assert_eq!(host_part("example.com:2222"), "example.com");
    assert_eq!(host_part("example.com"), "example.com");
    assert_eq!(host_part(""), "");
}

#[test]
fn command_lines() {
    let path = Some("/opt/wezterm".to_owned());
    assert_eq!(wezterm_bin_path(&None), "wezterm");
    assert_eq!(wezterm_bin_path(&path), "/opt/wezterm");
    assert_eq!(
        proxy_command_line(&Some("run this".to_owned()), &path, true),
        "run this"
    );
    assert_eq!(
        proxy_command_line(&None, &path, true),
        "/opt/wezterm cli --prefer-mux proxy"
    );
    assert_eq!(
        proxy_command_line(&None, &None, false),
        "wezterm cli --prefer-mux --no-auto-start proxy"
    );
    assert_eq!(
        tlscreds_command_line(&None),
        "wezterm cli tlscreds"
    );
}

#[test]
fn a_socket_is_tried_a_bounded_number_of_times() {
    let (mut r, mut action) = UnixRetry::start(false, false, Some(3));
    let mut tries = 0;
    let mut turns = 0;
    while action != RetryAction::Fail {
        turns += 1;
        assert!(turns < 50);
        action = match action {
            RetryAction::Sleep { .. } => r.step(RetryEvent::Slept),
            RetryAction::ConnectSocket => {
                tries += 1;
                r.step(RetryEvent::SocketTried(false))
            }
            _ => panic!("unexpected {:?}", action),
        };
    }
    assert_eq!(tries, 3);
}

#[test]
fn a_reached_socket_is_used() {
    let (mut r, mut action) = UnixRetry::start(false, true, None);
    while let RetryAction::Sleep { .. } = action {
        action = r.step(RetryEvent::Slept);
    }
    assert_eq!(action, RetryAction::ConnectSocket);
    assert_eq!(r.step(RetryEvent::SocketTried(true)), RetryAction::Connected);
}

#[test]
fn a_proxy_that_stays_is_used() {
    let (mut r, mut action) = UnixRetry::start(true, false, None);
    let mut looks = 0;
    let mut turns = 0;
    while action != RetryAction::Connected {
        turns += 1;
        assert!(turns < 50);
        action = match action {
            RetryAction::Sleep { .. } => r.step(RetryEvent::Slept),
            RetryAction::SpawnProxy => r.step(RetryEvent::Spawned(true)),
            RetryAction::PollProxy => {
                looks += 1;
                r.step(RetryEvent::Polled(true))
            }
            _ => panic!("unexpected {:?}", action),
        };
    }
    assert_eq!(looks, 5);
}

#[test]
fn a_server_is_started_only_where_allowed() {
    let (mut u, first) = UnixConnect::start(true, false, false);
    assert_eq!(
        format!("{:?}", first),
        "Connect { just_spawned: false, max_attempts: None }"
    );
    assert_eq!(u.step(false), UnixAction::StartServer);
    assert!(matches!(u.step(true), UnixAction::Connect { just_spawned: true, .. }));
    assert_eq!(u.step(true), UnixAction::Use);

    let (mut u, _) = UnixConnect::start(true, false, true);
    assert_eq!(u.step(false), UnixAction::FailConnect);
    let (mut u, first) = UnixConnect::start(true, true, false);
    assert_eq!(
        first,
        UnixAction::Connect { just_spawned: false, max_attempts: Some(1) }
    );
    assert_eq!(u.step(false), UnixAction::FailConnect);
    let (mut u, _) = UnixConnect::start(false, false, false);
    assert_eq!(u.step(false), UnixAction::FailConnect);
    let (mut u, _) = UnixConnect::start(true, false, false);
    u.step(false);
    assert_eq!(u.step(false), UnixAction::FailStart);
    let (mut u, _) = UnixConnect::start(true, false, false);
    u.step(false);
    u.step(true);
    assert_eq!(u.step(false), UnixAction::FailAfterStart);
    assert_eq!(
        UnixAction::FailAfterStart.failure("t", "e").as_deref(),
        Some("(after spawning server) failed to connect to t")
    );
    assert_eq!(
        UnixAction::FailConnect.failure("t", "e").as_deref(),
        Some("failed to connect to t: e")
    );
    assert_eq!(UnixAction::Use.failure("t", "e"), None);
}

#[test]
fn ssh_parameters_are_read() {
    let p = SshParameters::parse("alice@example.com:2222").unwrap();
    assert_eq!(p.username.as_deref(), Some("alice"));
    assert_eq!(p.host_and_port, "example.com:2222");
    let p = SshParameters::parse("example.com").unwrap();
    assert_eq!(p.username, None);
    assert_eq!(p.host_and_port, "example.com");
    let e = SshParameters::parse("a@b@c").unwrap_err();
    assert_eq!(e.message(), "failed to parse ssh parameters from `a@b@c`");
}

#[test]
fn defaults_of_tls_domains() {
    let client = TlsDomainClient::default();
    assert!(client.ssh_parameters().is_none());
    assert_eq!(client.read_timeout, 0);
    assert_eq!(client.write_timeout, 0);
    assert!(!client.accept_invalid_hostnames);
    assert_eq!(TlsDomainServer::default().bind_address, "");
    let mut client = client;
    client.bootstrap_via_ssh = Some("bob@host".to_owned());
    assert_eq!(
        client.ssh_parameters().unwrap().unwrap().username.as_deref(),
        Some("bob")
    );
}

#[test]
fn kept_credentials_are_tried_before_new_ones_are_fetched() {
    let (mut c, first) = TlsConnect::start(true, true);
    assert_eq!(first, TlsAction::TryConnect);
    assert_eq!(c.step(TlsEvent::Succeeded), TlsAction::Use);

    let (mut c, _) = TlsConnect::start(true, false);
    assert_eq!(
        c.step(TlsEvent::ConnectFailed(ConnectError::OtherIo)),
        TlsAction::Fail
    );
    for err in [ConnectError::Refused, ConnectError::NotIo] {
        let (mut c, _) = TlsConnect::start(true, false);
        assert_eq!(c.step(TlsEvent::ConnectFailed(err)), TlsAction::ReportReuseFailed);
        assert_eq!(c.step(TlsEvent::Succeeded), TlsAction::OpenSsh);
        assert_eq!(c.step(TlsEvent::Failed), TlsAction::Fail);
    }
    // Credentials that were fetched before are not fetched again.
    let (mut c, _) = TlsConnect::start(true, true);
    c.step(TlsEvent::ConnectFailed(ConnectError::Refused));
    assert_eq!(c.step(TlsEvent::Succeeded), TlsAction::TryConnect);

    let (mut c, _) = TlsConnect::start(true, false);
    assert_eq!(
        c.step(TlsEvent::ConnectFailed(ConnectError::NotFound)),
        TlsAction::ReportReuseFailed
    );
    let mut seen = Vec::new();
    let mut action = c.step(TlsEvent::Succeeded);
    while action != TlsAction::Use {
        assert!(seen.len() < 20);
        seen.push(action);
        action = c.step(TlsEvent::Succeeded);
    }
    assert_eq!(
        seen,
        vec![
            TlsAction::OpenSsh,
            TlsAction::RunCommand,
            TlsAction::WaitCommand,
            TlsAction::ReadCredentials,
            TlsAction::WriteCa,
            TlsAction::WriteCert,
            TlsAction::TryConnect,
        ]
    );
}

#[test]
fn without_bootstrap_there_is_one_attempt() {
    let (mut c, first) = TlsConnect::start(false, false);
    assert_eq!(first, TlsAction::TryConnect);
    assert_eq!(
        c.step(TlsEvent::ConnectFailed(ConnectError::NotFound)),
        TlsAction::Fail
    );
}

#[test]
fn setup_of_a_tls_connection() {
    let mut client = TlsDomainClient::default();
    client.pem_cert = Some("/c.pem".to_owned());
    client.pem_private_key = Some("/k.pem".to_owned());
    client.pem_root_certs = vec!["/r1".to_owned(), "/r2".to_owned()];
    client.connect_timeout = 7;
    client.write_timeout = 8;
    client.read_timeout = 9;
    let steps = plan_setup(&client, "/creds/cert.pem", &None, "host");
    assert_eq!(
        format!("{:?}", steps),
        "[Certificate(\"/c.pem\"), PrivateKey(\"/k.pem\"), TrustRoot(\"/r1\"), \
         TrustRoot(\"/r2\"), VerifyHostname(true), ConnectTcp(7), NoDelay, \
         WriteTimeout(8), ReadTimeout(9), Handshake(\"host\")]"
    );

    let mut client = TlsDomainClient::default();
    client.accept_invalid_hostnames = true;
    client.expected_cn = Some("cn".to_owned());
    let steps = plan_setup(&client, "/creds/cert.pem", &Some("/creds/ca.pem".to_owned()), "host");
    assert!(steps.iter().any(|s| matches!(s, SetupStep::VerifyHostname(false))));
    assert!(steps.iter().any(|s| matches!(s, SetupStep::TrustCa(p) if p == "/creds/ca.pem")));
    assert!(matches!(steps.last(), Some(SetupStep::Handshake(n)) if n == "cn"));
}

#[test]
fn credentials_are_published_whole() {
    let mut step = WriteStep::RemoveStale;
    let mut seen = vec![step];
    while step != WriteStep::Done {
        step = step.next(WriteResult::Succeeded);
        seen.push(step);
        assert!(seen.len() < 10);
    }
    assert_eq!(
        seen,
        vec![
            WriteStep::RemoveStale,
            WriteStep::Create,
            WriteStep::Write,
            WriteStep::Sync,
            WriteStep::Rename,
            WriteStep::Done,
        ]
    );
    assert_eq!(WriteStep::RemoveStale.next(WriteResult::NotFound), WriteStep::Create);
    assert_eq!(WriteStep::RemoveStale.next(WriteResult::Failed), WriteStep::Failed);
    assert_eq!(WriteStep::Write.next(WriteResult::Failed), WriteStep::Failed);
    assert_eq!(temporary_path("/d/cert.pem", 17), "/d/cert.pem.tmp.17");
    assert_eq!(creds_file("/d", "ca.pem"), "/d/ca.pem");
    assert_eq!(creds_file("/d/", "ca.pem"), "/d/ca.pem");
    assert_eq!(WriteStep::Rename.failure("/t", "/p"), "renaming /t to /p");
    assert_eq!(WriteStep::Sync.failure("/t", "/p"), "syncing /t");
}

#[test]
fn only_the_file_with_the_key_is_for_the_owner_alone() {
    let ca = TlsAction::WriteCa.writes().unwrap();
    assert_eq!(ca.name, "ca.pem");
    assert!(!ca.owner_only);
    let cert = TlsAction::WriteCert.writes().unwrap();
    assert_eq!(cert.name, "cert.pem");
    assert!(cert.owner_only);
    assert!(TlsAction::ReadCredentials.writes().is_none());
}

#[test]
fn what_is_shown_while_a_local_server_is_connected_to() {
    let first = UnixAction::Connect { just_spawned: false, max_attempts: None };
    assert_eq!(first.shown("Socket(\"/s\")", "").as_deref(), Some("Connect to Socket(\"/s\")\n"));
    let second = UnixAction::Connect { just_spawned: true, max_attempts: None };
    assert_eq!(second.shown("t", "e"), None);
    assert_eq!(
        UnixAction::StartServer.shown("t", "refused").as_deref(),
        Some("Error: refused.  Will try spawning server.\n")
    );
    assert_eq!(UnixAction::Use.shown("t", "e").as_deref(), Some("Connected!\n"));
    assert_eq!(running_message("\"wezterm\""), "Running: \"wezterm\"\n");
    assert_eq!(start_context("\"wezterm\""), "while spawning \"wezterm\"");
    assert_eq!(proxy_context("\"ssh\""), "spawning proxy command \"ssh\"");
    assert_eq!(
        proxy_exited("\"ssh\"", "ExitStatus(unix_wait_status(256))"),
        "\"ssh\" exited already with status ExitStatus(unix_wait_status(256))"
    );
}

#[test]
fn what_is_shown_while_connecting_over_tls() {
    let cmd = "wezterm cli tlscreds";
    assert_eq!(
        TlsAction::ReportReuseFailed.shown(cmd, "expired").as_deref(),
        Some("Failed to reuse creds: expired\nWill retry bootstrap via SSH\n")
    );
    assert_eq!(
        TlsAction::RunCommand.shown(cmd, "").as_deref(),
        Some("Running: wezterm cli tlscreds\n")
    );
    assert_eq!(TlsAction::TryConnect.shown(cmd, ""), None);
    assert_eq!(
        TlsAction::RunCommand.failure(cmd).as_deref(),
        Some("executing `wezterm cli tlscreds` on remote host")
    );
    assert_eq!(
        TlsAction::WaitCommand.failure(cmd).as_deref(),
        Some("wezterm cli tlscreds failed")
    );
    assert_eq!(
        TlsAction::ReadCredentials.failure(cmd).as_deref(),
        Some("reading tlscreds response")
    );
    assert_eq!(TlsAction::OpenSsh.failure(cmd), None);
    assert_eq!(UNEXPECTED_TLSCREDS, "unexpected response to tlscreds");

    let connect = SetupStep::ConnectTcp(1);
    assert_eq!(connect.shown("h:1").as_deref(), Some("Connecting to h:1 using TLS\n"));
    assert_eq!(connect.failure("h:1", "h").as_deref(), Some("connecting to h:1"));
    let handshake = SetupStep::Handshake("expected".to_owned());
    assert_eq!(handshake.shown("h:1"), None);
    assert_eq!(
        handshake.failure("h:1", "h").as_deref(),
        Some("SslConnector for h:1 with host name h")
    );
    assert_eq!(SetupStep::NoDelay.failure("h:1", "h"), None);
    assert_eq!(TLS_CONNECTED, "TLS Connected!\n");
}

#[test]
fn which_failures_the_user_is_shown() {
    assert!(!TlsStage::Reusing.shows_failure() && !TlsStage::Ssh.shows_failure());
    assert!(TlsStage::Running.shows_failure() && TlsStage::WritingCert.shows_failure());
    assert!(TlsStage::Connecting.shows_failure() && !TlsStage::Finished.shows_failure());
}
