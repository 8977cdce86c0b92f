//! The two authentication conversations.

use termlink::auth::{
    AskFailure, AuthFailure, AuthMethods, AuthPromptOrigin, AuthStatus, AuthenticationPrompt,
    LibsshAction, LibsshAuth, LibsshEvent, Question, TERMOB_PREFER_PASSWORD_OPTION,
};
use termlink::auth_ssh2::{read_methods, Ssh2Action, Ssh2Auth, Ssh2Event, Ssh2Methods};
use termlink::config_map::ConfigMap;

fn methods(password: bool, public_key: bool, interactive: bool) -> AuthMethods {
    AuthMethods {
        none: false,
        password,
        public_key,
        host_based: false,
        interactive,
        gssapi_mic: false,
    }
}

fn show<T: std::fmt::Debug>(t: T) -> String {
    format!("{:?}", t)
}

fn listed(config: &ConfigMap, m: AuthMethods) -> (LibsshAuth, LibsshAction) {
    let (mut auth, first) = LibsshAuth::start(config);
    assert_eq!(show(first), "TryNone");
    assert_eq!(show(auth.step(LibsshEvent::Status(AuthStatus::Denied))), "ListMethods");
    let next = auth.step(LibsshEvent::Methods(m));
    (auth, next)
}

#[test]
fn a_server_that_asks_for_nothing() {
    let (mut auth, _) = LibsshAuth::start(&ConfigMap::new());
    assert!(matches!(
        auth.step(LibsshEvent::Status(AuthStatus::Success)),
        LibsshAction::Done { with_key: false }
    ));
}

#[test]
fn keys_go_ahead_of_the_password() {
    let (mut auth, next) = listed(&ConfigMap::new(), methods(true, true, false));
    assert_eq!(show(next), "TryPublicKey");
    assert!(matches!(
        auth.step(LibsshEvent::Status(AuthStatus::Success)),
        LibsshAction::Done { with_key: true }
    ));
}

#[test]
fn a_password_held_by_the_embedder_goes_first() {
    let mut config = ConfigMap::new();
    config.insert(TERMOB_PREFER_PASSWORD_OPTION, "yes");
    let (mut auth, next) = listed(&config, methods(true, true, false));
    assert!(matches!(next, LibsshAction::Ask(Question::Password)));
    let next = auth.step(LibsshEvent::Answers(vec!["secret".to_owned()]));
    assert!(matches!(next, LibsshAction::OfferPassword(p) if p == "secret"));
    // Refused: the keys come next, as if it had not been offered.
    assert_eq!(show(auth.step(LibsshEvent::Status(AuthStatus::Denied))), "TryPublicKey");
}

#[test]
fn a_password_login_is_not_a_key_login() {
    let (mut auth, next) = listed(&ConfigMap::new(), methods(true, false, false));
    assert!(matches!(next, LibsshAction::Ask(Question::Password)));
    auth.step(LibsshEvent::Answers(vec!["secret".to_owned()]));
    assert!(matches!(
        auth.step(LibsshEvent::Status(AuthStatus::Success)),
        LibsshAction::Done { with_key: false }
    ));
}

#[test]
fn interactive_prompts_are_relayed() {
    let (mut auth, next) = listed(&ConfigMap::new(), methods(false, false, true));
    assert_eq!(show(next), "TryInteractive");
    assert_eq!(show(auth.step(LibsshEvent::Status(AuthStatus::Info))), "FetchInteractive");
    let next = auth.step(LibsshEvent::Info {
        username: "u".to_owned(),
        instructions: "i".to_owned(),
        prompts: vec![AuthenticationPrompt { prompt: "p".to_owned(), echo: true }],
    });
    match next {
        LibsshAction::Ask(q) => {
            let e = q.into_event();
            assert_eq!(e.username, "u");
            assert_eq!(e.instructions, "i");
            assert_eq!(e.prompts.len(), 1);
            assert_eq!(e.origin, AuthPromptOrigin::Server);
        }
        other => panic!("{:?}", other),
    }
    let next = auth.step(LibsshEvent::Answers(vec!["a".to_owned()]));
    assert!(matches!(next, LibsshAction::SetAnswers(a) if a == vec!["a".to_owned()]));
    assert_eq!(show(auth.step(LibsshEvent::AnswersSet)), "TryInteractive");
}

#[test]
fn failures_of_the_libssh_conversation() {
    let (mut auth, _) = LibsshAuth::start(&ConfigMap::new());
    assert!(matches!(
        auth.step(LibsshEvent::CallFailed("gone".to_owned())),
        LibsshAction::Fail(AuthFailure::Call(e)) if e == "gone"
    ));

    let mut prefer = ConfigMap::new();
    prefer.insert(TERMOB_PREFER_PASSWORD_OPTION, "yes");
    let (mut auth, _) = listed(&prefer, methods(true, false, false));
    assert!(matches!(
        auth.step(LibsshEvent::AskFailed(AskFailure::Send("s".to_owned()))),
        LibsshAction::Fail(AuthFailure::SendQuestion(_))
    ));
    let (mut auth, _) = listed(&prefer, methods(true, false, false));
    assert!(matches!(
        auth.step(LibsshEvent::AskFailed(AskFailure::Wait("w".to_owned()))),
        LibsshAction::Fail(AuthFailure::WaitAnswers(_))
    ));

    let (_, next) = listed(&ConfigMap::new(), methods(false, false, false));
    assert!(matches!(next, LibsshAction::Fail(AuthFailure::Unhandled { .. })));

    let (mut auth, _) = listed(&ConfigMap::new(), methods(true, false, false));
    auth.step(LibsshEvent::Answers(vec!["secret".to_owned()]));
    assert!(matches!(
        auth.step(LibsshEvent::Status(AuthStatus::Denied)),
        LibsshAction::Fail(AuthFailure::PasswordStatus(AuthStatus::Denied))
    ));
    let (mut auth, _) = listed(&ConfigMap::new(), methods(false, false, true));
    assert!(matches!(
        auth.step(LibsshEvent::Status(AuthStatus::Again)),
        LibsshAction::Fail(AuthFailure::InteractiveStatus(AuthStatus::Again))
    ));
}

#[test]
fn questions_say_who_reads_the_answer() {
    let e = Question::Password.into_event();
    assert_eq!(e.origin, AuthPromptOrigin::Server);
    assert_eq!(e.prompts.len(), 1);
    assert!(!e.prompts[0].echo);
    let e = Question::KeyPassphrase {
        file: "/k".to_owned(),
        user: "u".to_owned(),
        host: "h".to_owned(),
    }
    .into_event();
    assert_eq!(e.origin, AuthPromptOrigin::Local);
}

#[test]
fn methods_are_read_from_a_list() {
    let m = read_methods("publickey,keyboard-interactive");
    assert!(m.publickey && m.keyboard_interactive && !m.password);
    let m = read_methods("password");
    assert!(m.password && !m.publickey && !m.keyboard_interactive);
    let m = read_methods("");
    assert!(!m.password && !m.publickey && !m.keyboard_interactive);
}

fn ssh2(config: &ConfigMap, files: Vec<String>) -> (Ssh2Auth, Ssh2Action) {
    Ssh2Auth::start(config, "u", "h", files)
}

const ALL: Ssh2Methods = Ssh2Methods {
    publickey: true,
    password: true,
    keyboard_interactive: true,
};

#[test]
fn an_agent_key_wins() {
    let (mut auth, first) = ssh2(&ConfigMap::new(), Vec::new());
    assert_eq!(show(first), "CheckAuthenticated");
    assert_eq!(show(auth.step(Ssh2Event::Authenticated(false))), "ListMethods");
    assert_eq!(show(auth.step(Ssh2Event::Methods(ALL))), "CheckAuthenticated");
    assert_eq!(show(auth.step(Ssh2Event::Authenticated(false))), "OpenAgent");
    assert_eq!(show(auth.step(Ssh2Event::AgentOpened)), "ConnectAgent");
    assert_eq!(show(auth.step(Ssh2Event::AgentConnected(true))), "ListIdentities");
    assert_eq!(show(auth.step(Ssh2Event::Identities(2))), "TryIdentity(0)");
    assert_eq!(show(auth.step(Ssh2Event::Tried(false))), "TryIdentity(1)");
    assert_eq!(show(auth.step(Ssh2Event::Tried(true))), "CheckAuthenticated");
    assert_eq!(show(auth.step(Ssh2Event::Authenticated(true))), "Done { with_key: true }");
}

#[test]
fn the_agent_is_left_alone_where_only_identities_count() {
    let mut config = ConfigMap::new();
    config.insert("identitiesonly", "yes");
    let (mut auth, _) = ssh2(&config, vec!["/k".to_owned()]);
    auth.step(Ssh2Event::Authenticated(false));
    auth.step(Ssh2Event::Methods(ALL));
    assert_eq!(show(auth.step(Ssh2Event::Authenticated(false))), "ProbeKey(0)");
}

#[test]
fn a_key_that_needs_a_passphrase() {
    let mut config = ConfigMap::new();
    config.insert("identitiesonly", "yes");
    let (mut auth, _) = ssh2(&config, vec!["/k".to_owned()]);
    assert_eq!(auth.key_path(0), "/k");
    assert_eq!(auth.public_key_path(0), "/k.pub");
    auth.step(Ssh2Event::Authenticated(false));
    auth.step(Ssh2Event::Methods(ALL));
    auth.step(Ssh2Event::Authenticated(false));
    let next = auth.step(Ssh2Event::Probed { key: true, public: true });
    assert_eq!(show(next), "TryKey { index: 0, with_public: true, passphrase: None }");
    let next = auth.step(Ssh2Event::Tried(false));
    assert_eq!(show(next), "AskPassphrase(0)");
    let q = auth.passphrase_question(0);
    assert_eq!(q.origin, AuthPromptOrigin::Local);
    let next = auth.step(Ssh2Event::Answers(vec!["p".to_owned()]));
    assert_eq!(show(next), "TryKey { index: 0, with_public: true, passphrase: Some(\"p\") }");
    auth.step(Ssh2Event::Tried(true));
    assert_eq!(show(auth.step(Ssh2Event::Authenticated(true))), "Done { with_key: true }");
}

#[test]
fn a_password_by_the_other_library() {
    let (mut auth, _) = ssh2(&ConfigMap::new(), Vec::new());
    auth.step(Ssh2Event::Authenticated(false));
    let only = Ssh2Methods { publickey: false, password: true, keyboard_interactive: false };
    assert_eq!(show(auth.step(Ssh2Event::Methods(only))), "CheckAuthenticated");
    assert_eq!(show(auth.step(Ssh2Event::Authenticated(false))), "CheckAuthenticated");
    assert_eq!(show(auth.step(Ssh2Event::Authenticated(false))), "AskPassword");
    let q = auth.password_question();
    assert_eq!(q.origin, AuthPromptOrigin::Server);
    let next = auth.step(Ssh2Event::Answers(vec!["p".to_owned()]));
    assert_eq!(show(next), "TryPassword(\"p\")");
    let next = auth.step(Ssh2Event::Tried(true));
    assert_eq!(show(next), "CheckAuthenticated");
    assert_eq!(show(auth.step(Ssh2Event::Authenticated(true))), "CheckAuthenticated");
    assert_eq!(show(auth.step(Ssh2Event::Authenticated(true))), "Done { with_key: false }");
}

#[test]
fn failures_of_the_other_library() {
    let (mut auth, _) = ssh2(&ConfigMap::new(), Vec::new());
    auth.step(Ssh2Event::Authenticated(false));
    assert!(matches!(
        auth.step(Ssh2Event::CallFailed("gone".to_owned())),
        Ssh2Action::Fail(AuthFailure::Call(e)) if e == "gone"
    ));
    let (mut auth, _) = ssh2(&ConfigMap::new(), Vec::new());
    auth.step(Ssh2Event::Authenticated(false));
    auth.step(Ssh2Event::Methods(read_methods("password")));
    auth.step(Ssh2Event::Authenticated(false));
    auth.step(Ssh2Event::Authenticated(false));
    assert!(matches!(
        auth.step(Ssh2Event::Answers(Vec::new())),
        Ssh2Action::Fail(AuthFailure::UserCancelled)
    ));
}

#[test]
fn failures_say_what_went_wrong() {
    assert_eq!(AuthFailure::Call("gone".to_owned()).message(), "gone");
    assert_eq!(
        AuthFailure::SendQuestion("e".to_owned()).message(),
        "sending Authenticate request to user"
    );
    assert_eq!(
        AuthFailure::WaitAnswers("e".to_owned()).message(),
        "waiting for authentication answers from user"
    );
    assert_eq!(AuthFailure::UserCancelled.message(), "user cancelled authentication");
    assert_eq!(
        AuthFailure::InteractiveStatus(AuthStatus::Again).message(),
        "interactive auth status: Again"
    );
    assert_eq!(
        AuthFailure::PasswordStatus(AuthStatus::Denied).message(),
        "password auth status: Denied"
    );
    let unhandled = AuthFailure::Unhandled {
        methods: methods(false, false, false),
        password: None,
        public_key: None,
    };
    assert_eq!(unhandled.message(), "unhandled auth case; methods=(empty), status={}");
    let unhandled = AuthFailure::Unhandled {
        methods: AuthMethods {
            none: true,
            password: false,
            public_key: true,
            host_based: true,
            interactive: false,
            gssapi_mic: true,
        },
        password: Some(AuthStatus::Denied),
        public_key: Some(AuthStatus::Partial),
    };
    assert_eq!(
        unhandled.message(),
        "unhandled auth case; methods=NONE | PUBLIC_KEY | HOST_BASED | GSSAPI_MIC, \
         status={PASSWORD: Denied, PUBLIC_KEY: Partial}"
    );
    let refused = AuthFailure::Unhandled {
        methods: methods(true, false, false),
        password: None,
        public_key: Some(AuthStatus::Denied),
    };
    assert!(refused.message().ends_with(", status={PUBLIC_KEY: Denied}"));
}
