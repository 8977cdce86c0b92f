//! The ssh agent symlink: liveness of owners, the choice of a client, pruning.

use termlink::ssh_agent::{
    agent_owner_is_alive, best_client, contains_text, is_abandoned, owner_is_alive, owner_of, should_prune,
    AgentClient, AgentProxy, AgentUpdate, LinkResult, LinkStep, Probe, UpdaterAction, UpdaterEvent,
};

/// The liveness probe must not be inverted: our own pid is the one case that can
/// be asserted with certainty.
#[test]
fn own_process_is_alive() {
    let me = nix::unistd::getpid().as_raw();
    assert!(agent_owner_is_alive(me), "our own pid must read as alive");
}

/// A live process we may not signal must still read as alive.
#[test]
fn process_owned_by_another_user_is_alive() {
    assert!(
        agent_owner_is_alive(1),
        "pid 1 exists; EPERM must not be read as gone"
    );
}

#[test]
fn impossible_pid_is_not_alive() {
    assert!(!agent_owner_is_alive(i32::MAX));
}

#[test]
fn only_a_missing_process_is_dead() {
    assert!(owner_is_alive(Probe::Reachable));
    assert!(owner_is_alive(Probe::NotPermitted));
    assert!(!owner_is_alive(Probe::Gone));
}

fn client(id: u64, hostname: &str, sock: Option<&str>, last_input: i128) -> AgentClient {
    AgentClient {
        id,
        hostname: hostname.to_owned(),
        ssh_auth_sock: sock.map(str::to_owned),
        last_input,
    }
}

#[test]
fn the_latest_client_with_an_agent_is_used() {
    let clients = vec![
        client(1, "a", Some("/a"), 10),
        client(2, "b", Some("/b"), 30),
        client(3, "c", None, 90),
        client(4, "d", Some("/d"), 30),
    ];
    assert_eq!(best_client(&clients), Some(1));
    assert_eq!(best_client(&vec![client(3, "c", None, 90)]), None);
    assert_eq!(best_client(&Vec::new()), None);
}

#[test]
fn a_proxy_goes_ahead_of_a_slightly_later_client() {
    let clients = vec![
        client(1, "host", Some("/a"), 1_000),
        client(2, "host (via proxy pid 7)", Some("/b"), 900),
    ];
    assert_eq!(best_client(&clients), Some(1));
    let clients = vec![
        client(1, "host", Some("/a"), 100_000_901),
        client(2, "host (via proxy pid 7)", Some("/b"), 900),
    ];
    assert_eq!(best_client(&clients), Some(0));
}

#[test]
fn part_of_a_text() {
    assert!(contains_text("host (via proxy pid 7)", "via proxy pid"));
    assert!(!contains_text("via proxy pi", "via proxy pid"));
    assert!(contains_text("x", ""));
}

#[test]
fn agent_link_follows_the_clients() {
    let mut proxy = AgentProxy::new("/run/me", 42);
    assert_eq!(proxy.path(), "/run/me/agent.42");
    assert_eq!(AgentProxy::new("/run/me/", 42).path(), "/run/me/agent.42");
    let clients = vec![client(1, "a", Some("/a"), 10)];
    assert!(matches!(proxy.update_now(&clients), AgentUpdate::PointTo(p) if p == "/a"));
    assert!(matches!(proxy.update_now(&clients), AgentUpdate::Keep));
    assert!(matches!(proxy.update_now(&Vec::new()), AgentUpdate::Clear));
}

#[test]
fn configured_agent_goes_ahead_of_the_environment() {
    assert_eq!(
        AgentProxy::default_ssh_auth_sock(Some("/c".to_owned()), Some("/e".to_owned())),
        Some("/c".to_owned())
    );
    assert_eq!(
        AgentProxy::default_ssh_auth_sock(None, Some("/e".to_owned())),
        Some("/e".to_owned())
    );
    assert_eq!(AgentProxy::default_ssh_auth_sock(None, None), None);
}

#[test]
fn an_existing_link_is_replaced() {
    assert_eq!(LinkStep::Create.next(LinkResult::Succeeded), LinkStep::Done);
    assert_eq!(LinkStep::Create.next(LinkResult::AlreadyExists), LinkStep::Remove);
    assert_eq!(LinkStep::Remove.next(LinkResult::Succeeded), LinkStep::CreateAgain);
    assert_eq!(LinkStep::CreateAgain.next(LinkResult::Succeeded), LinkStep::Done);
    assert_eq!(LinkStep::Create.next(LinkResult::Failed), LinkStep::FailCreate);
    assert_eq!(LinkStep::Remove.next(LinkResult::Failed), LinkStep::FailRemove);
    assert_eq!(
        LinkStep::FailCreate.failure("/l", "/o", "e").as_deref(),
        Some("failed to create symlink /l -> /o: e")
    );
    assert_eq!(
        LinkStep::FailRemove.failure("/l", "/o", "e").as_deref(),
        Some("failed to remove /l")
    );
    assert_eq!(LinkStep::Done.failure("/l", "/o", "e"), None);
}

#[test]
fn only_links_of_dead_owners_are_pruned() {
    assert_eq!(owner_of("agent.123"), Some(123));
    assert_eq!(owner_of("agent.x"), None);
    assert_eq!(owner_of("gui-sock-123"), None);
    for name in ["agent.0", "agent.-1", "agent.+7", "agent.007", "agent.", "agent.2147483648"] {
        assert_eq!(owner_of(name), None, "{}", name);
        assert!(!should_prune(name, Probe::Gone), "{}", name);
        assert!(!is_abandoned(name), "{}", name);
    }
    assert_eq!(owner_of("agent.2147483647"), Some(i32::MAX));
    assert!(is_abandoned("agent.2147483647"));
    assert!(!is_abandoned("agent.1"));
    assert!(should_prune("agent.123", Probe::Gone));
    assert!(!should_prune("agent.123", Probe::NotPermitted));
    assert!(!should_prune("agent.x", Probe::Gone));
    assert!(!should_prune("default-org", Probe::Gone));
}

#[test]
fn a_burst_of_signals_leads_to_one_update() {
    let mut proxy = AgentProxy::new("/run/me", 42);
    assert_eq!(proxy.process_updates(UpdaterEvent::Woken), UpdaterAction::Wait);
    proxy.update_target();
    assert_eq!(
        proxy.process_updates(UpdaterEvent::Woken),
        UpdaterAction::Sleep { ms: 100 }
    );
    for _ in 0..40 {
        proxy.update_target();
    }
    assert_eq!(proxy.process_updates(UpdaterEvent::Slept), UpdaterAction::UpdateNow);
    assert_eq!(proxy.process_updates(UpdaterEvent::Updated), UpdaterAction::Wait);
    assert_eq!(proxy.process_updates(UpdaterEvent::Woken), UpdaterAction::Wait);
}

#[test]
fn a_signal_during_an_update_leads_to_another() {
    let mut proxy = AgentProxy::new("/run/me", 42);
    proxy.update_target();
    proxy.process_updates(UpdaterEvent::Woken);
    proxy.process_updates(UpdaterEvent::Slept);
    proxy.update_target();
    proxy.close();
    assert_eq!(
        proxy.process_updates(UpdaterEvent::Updated),
        UpdaterAction::Sleep { ms: 100 }
    );
    assert_eq!(proxy.process_updates(UpdaterEvent::Slept), UpdaterAction::UpdateNow);
    assert_eq!(proxy.process_updates(UpdaterEvent::Updated), UpdaterAction::Stop);
}
