//! Authentication with libssh2: agent, key files, password and
//! keyboard-interactive, round after round until the session is authenticated.

use crate::auth::{ask_failure, AskFailure, AuthFailure, AuthenticationEvent, Question};
use crate::config_map::ConfigMap;
use crate::text::{same_text, split_at_char, split_text, texts};
use vstd::prelude::*;

verus! {

/// The methods this side knows how to carry out.
#[derive(Debug, Clone, Copy, PartialEq, Eq, Structural)]
pub struct Ssh2Methods {
    pub publickey: bool,
    pub password: bool,
    pub keyboard_interactive: bool,
}

/// What a comma separated list of method names offers.
pub open spec fn listed_methods(list: Seq<char>) -> Ssh2Methods {
    let names = split_at_char(list, ',');
    Ssh2Methods {
        publickey: names.contains("publickey"@),
        password: names.contains("password"@),
        keyboard_interactive: names.contains("keyboard-interactive"@),
    }
}

fn any_is(names: &Vec<String>, name: &str) -> (r: bool)
    ensures
        r == texts(names@).contains(name@),
{
    let mut i: usize = 0;
    while i < names.len()
        invariant
            i <= names.len(),
            forall|j: int| 0 <= j < i ==> (#[trigger] texts(names@)[j]) != name@,
        decreases names.len() - i,
    {
        if same_text(names[i].as_str(), name) {
            assert(texts(names@)[i as int] == name@);
            return true;
        }
        i = i + 1;
    }
    false
}

/// Reads the server's list of methods.
pub fn read_methods(list: &str) -> (m: Ssh2Methods)
    ensures
        m == listed_methods(list@),
{
    let names = split_text(list, ',');
    Ssh2Methods {
        publickey: any_is(&names, "publickey"),
        password: any_is(&names, "password"),
        keyboard_interactive: any_is(&names, "keyboard-interactive"),
    }
}

/// Where the conversation stands: what was asked for last.
#[derive(Debug, Clone, Copy, PartialEq, Eq, Structural)]
pub enum Ssh2Stage {
    /// Whether the session is authenticated, at the top of a round.
    CheckRound,
    Methods,
    CheckKeys,
    AgentOpen,
    AgentConnect,
    AgentList,
    AgentTry { index: usize, count: usize },
    KeyProbe { index: usize },
    KeyTry { index: usize },
    KeyAsk { index: usize },
    KeyRetry { index: usize },
    CheckPassword,
    PasswordAsk,
    Password,
    CheckInteractive,
    Interactive,
    Finished,
}

/// The next thing to do. Key files are named by their place in the list of
/// identity files.
#[derive(Debug)]
pub enum Ssh2Action {
    CheckAuthenticated,
    ListMethods,
    OpenAgent,
    ConnectAgent,
    ListIdentities,
    TryIdentity(usize),
    /// See whether the key file and its `.pub` file exist.
    ProbeKey(usize),
    TryKey { index: usize, with_public: bool, passphrase: Option<String> },
    AskPassphrase(usize),
    AskPassword,
    TryPassword(String),
    TryInteractive,
    Done { with_key: bool },
    Fail(AuthFailure),
}

/// What came of the last action.
#[derive(Debug)]
pub enum Ssh2Event {
    Authenticated(bool),
    Methods(Ssh2Methods),
    AgentOpened,
    AgentConnected(bool),
    Identities(usize),
    Tried(bool),
    Probed { key: bool, public: bool },
    Answers(Vec<String>),
    CallFailed(String),
    AskFailed(AskFailure),
}

/// The part of the conversation that changes.
#[derive(Debug, Clone, Copy, PartialEq, Eq, Structural)]
pub struct Ssh2State {
    pub methods: Ssh2Methods,
    /// Whether the key file being tried has a `.pub` file.
    pub with_public: bool,
    /// Whether a key is what was accepted last.
    pub key_accepted: bool,
    pub stage: Ssh2Stage,
}

/// What is fixed for the whole conversation: `files` identity files, and
/// whether the agent is left alone.
pub struct Ssh2Rules {
    pub files: nat,
    pub identities_only: bool,
}

impl Ssh2State {
    pub open spec fn at(self, stage: Ssh2Stage) -> Ssh2State {
        Ssh2State { stage, ..self }
    }

    pub open spec fn finish(self, action: Ssh2Action) -> (Ssh2State, Ssh2Action) {
        (self.at(Ssh2Stage::Finished), action)
    }

    /// A key was accepted: look whether that was enough.
    pub open spec fn accept_key(self) -> (Ssh2State, Ssh2Action) {
        (
            Ssh2State { key_accepted: true, stage: Ssh2Stage::CheckRound, ..self },
            Ssh2Action::CheckAuthenticated,
        )
    }

    /// On to the identity file at `index`, or past the keys.
    pub open spec fn key_file(self, rules: Ssh2Rules, index: int) -> (Ssh2State, Ssh2Action) {
        if index < rules.files {
            (
                self.at(Ssh2Stage::KeyProbe { index: index as usize }),
                Ssh2Action::ProbeKey(index as usize),
            )
        } else {
            (self.at(Ssh2Stage::CheckPassword), Ssh2Action::CheckAuthenticated)
        }
    }

    /// What the answer "authenticated or not" leads to.
    pub open spec fn on_authenticated(self, rules: Ssh2Rules, yes: bool) -> (
        Ssh2State,
        Ssh2Action,
    ) {
        match self.stage {
            Ssh2Stage::CheckRound => if yes {
                self.finish(Ssh2Action::Done { with_key: self.key_accepted })
            } else {
                (
                    Ssh2State { key_accepted: false, stage: Ssh2Stage::Methods, ..self },
                    Ssh2Action::ListMethods,
                )
            },
            Ssh2Stage::CheckKeys => if !yes && self.methods.publickey {
                if rules.identities_only {
                    self.key_file(rules, 0)
                } else {
                    (self.at(Ssh2Stage::AgentOpen), Ssh2Action::OpenAgent)
                }
            } else {
                (self.at(Ssh2Stage::CheckPassword), Ssh2Action::CheckAuthenticated)
            },
            Ssh2Stage::CheckPassword => if !yes && self.methods.password {
                (self.at(Ssh2Stage::PasswordAsk), Ssh2Action::AskPassword)
            } else {
                (self.at(Ssh2Stage::CheckInteractive), Ssh2Action::CheckAuthenticated)
            },
            _ => if !yes && self.methods.keyboard_interactive {
                (self.at(Ssh2Stage::Interactive), Ssh2Action::TryInteractive)
            } else {
                (self.at(Ssh2Stage::CheckRound), Ssh2Action::CheckAuthenticated)
            },
        }
    }

    /// What an accepted or refused attempt leads to.
    pub open spec fn on_tried(self, rules: Ssh2Rules, accepted: bool) -> (
        Ssh2State,
        Ssh2Action,
    ) {
        match self.stage {
            Ssh2Stage::AgentTry { index, count } => if accepted {
                self.accept_key()
            } else if index + 1 < count {
                (
                    self.at(Ssh2Stage::AgentTry { index: (index + 1) as usize, count }),
                    Ssh2Action::TryIdentity((index + 1) as usize),
                )
            } else {
                self.key_file(rules, 0)
            },
            Ssh2Stage::KeyTry { index } => if accepted {
                self.accept_key()
            } else {
                (self.at(Ssh2Stage::KeyAsk { index }), Ssh2Action::AskPassphrase(index))
            },
            Ssh2Stage::KeyRetry { index } => if accepted {
                self.accept_key()
            } else {
                self.key_file(rules, index + 1)
            },
            Ssh2Stage::Password => (
                self.at(Ssh2Stage::CheckInteractive),
                Ssh2Action::CheckAuthenticated,
            ),
            _ => (self.at(Ssh2Stage::CheckRound), Ssh2Action::CheckAuthenticated),
        }
    }

    /// What the user's answers lead to: none at all is a cancellation.
    pub open spec fn on_answers(self, answers: Vec<String>) -> (Ssh2State, Ssh2Action) {
        if answers@.len() == 0 {
            self.finish(Ssh2Action::Fail(AuthFailure::UserCancelled))
        } else {
            match self.stage {
                Ssh2Stage::KeyAsk { index } => (
                    self.at(Ssh2Stage::KeyRetry { index }),
                    Ssh2Action::TryKey {
                        index,
                        with_public: self.with_public,
                        passphrase: Some(answers@[0]),
                    },
                ),
                _ => (self.at(Ssh2Stage::Password), Ssh2Action::TryPassword(answers@[0])),
            }
        }
    }

    /// What a look at a key file leads to: a missing key is passed over, and
    /// one that is there is first tried without a passphrase.
    pub open spec fn on_probed(self, rules: Ssh2Rules, key: bool, public: bool) -> (
        Ssh2State,
        Ssh2Action,
    ) {
        let index = self.stage->KeyProbe_index;
        if key {
            (
                Ssh2State { with_public: public, stage: Ssh2Stage::KeyTry { index }, ..self },
                Ssh2Action::TryKey { index, with_public: public, passphrase: None },
            )
        } else {
            self.key_file(rules, index + 1)
        }
    }

    /// The conversation's next state and action.
    pub open spec fn next(self, rules: Ssh2Rules, event: Ssh2Event) -> (Ssh2State, Ssh2Action) {
        match event {
            Ssh2Event::Authenticated(yes) => self.on_authenticated(rules, yes),
            Ssh2Event::Methods(methods) => (
                Ssh2State { methods, stage: Ssh2Stage::CheckKeys, ..self },
                Ssh2Action::CheckAuthenticated,
            ),
            Ssh2Event::AgentOpened => (
                self.at(Ssh2Stage::AgentConnect),
                Ssh2Action::ConnectAgent,
            ),
            Ssh2Event::AgentConnected(yes) => if yes {
                (self.at(Ssh2Stage::AgentList), Ssh2Action::ListIdentities)
            } else {
                self.key_file(rules, 0)
            },
            Ssh2Event::Identities(count) => if count > 0 {
                (
                    self.at(Ssh2Stage::AgentTry { index: 0, count }),
                    Ssh2Action::TryIdentity(0),
                )
            } else {
                self.key_file(rules, 0)
            },
            Ssh2Event::Tried(accepted) => self.on_tried(rules, accepted),
            Ssh2Event::Probed { key, public } => self.on_probed(rules, key, public),
            Ssh2Event::Answers(answers) => self.on_answers(answers),
            Ssh2Event::CallFailed(e) => self.finish(Ssh2Action::Fail(AuthFailure::Call(e))),
            Ssh2Event::AskFailed(f) => self.finish(Ssh2Action::Fail(ask_failure(f))),
        }
    }

    /// The events that can follow the last action.
    pub open spec fn expects(self, event: Ssh2Event) -> bool {
        let stage = self.stage;
        match event {
            Ssh2Event::Authenticated(_) => stage is CheckRound || stage is CheckKeys
                || stage is CheckPassword || stage is CheckInteractive,
            Ssh2Event::Methods(_) => stage is Methods,
            Ssh2Event::AgentOpened => stage is AgentOpen,
            Ssh2Event::AgentConnected(_) => stage is AgentConnect,
            Ssh2Event::Identities(_) => stage is AgentList,
            Ssh2Event::Tried(_) => stage is AgentTry || stage is KeyTry || stage is KeyRetry
                || stage is Password || stage is Interactive,
            Ssh2Event::Probed { .. } => stage is KeyProbe,
            Ssh2Event::Answers(_) => stage is KeyAsk || stage is PasswordAsk,
            Ssh2Event::CallFailed(_) => stage is Methods || stage is AgentOpen
                || stage is AgentList,
            Ssh2Event::AskFailed(_) => stage is KeyAsk || stage is PasswordAsk,
        }
    }

    /// The key file or identity that the stage speaks of is one there is.
    pub open spec fn wf(self, rules: Ssh2Rules) -> bool {
        match self.stage {
            Ssh2Stage::AgentTry { index, count } => index < count,
            Ssh2Stage::KeyProbe { index } => index < rules.files,
            Ssh2Stage::KeyTry { index } => index < rules.files,
            Ssh2Stage::KeyAsk { index } => index < rules.files,
            Ssh2Stage::KeyRetry { index } => index < rules.files,
            _ => true,
        }
    }
}

/// The conversation with libssh2.
pub struct Ssh2Auth {
    user: String,
    host: String,
    files: Vec<String>,
    identities_only: bool,
    state: Ssh2State,
}

impl Ssh2Auth {
    pub closed spec fn state(&self) -> Ssh2State {
        self.state
    }

    pub closed spec fn rules(&self) -> Ssh2Rules {
        Ssh2Rules { files: self.files@.len(), identities_only: self.identities_only }
    }

    pub closed spec fn user_text(&self) -> Seq<char> {
        self.user@
    }

    pub closed spec fn host_text(&self) -> Seq<char> {
        self.host@
    }

    pub closed spec fn file_texts(&self) -> Seq<Seq<char>> {
        texts(self.files@)
    }

    /// What stays the same from one step to the next.
    pub open spec fn same_target(&self, other: &Ssh2Auth) -> bool {
        &&& self.rules() == other.rules()
        &&& self.user_text() == other.user_text()
        &&& self.host_text() == other.host_text()
        &&& self.file_texts() == other.file_texts()
    }

    /// Begins a conversation for `user` at `host` with the given identity
    /// files. The agent is left alone where the options say to use the named
    /// identities only.
    pub fn start(config: &ConfigMap, user: &str, host: &str, files: Vec<String>) -> (r: (
        Ssh2Auth,
        Ssh2Action,
    ))
        requires
            config.wf(),
        ensures
            r.0.state() == Ssh2Auth::initial(),
            r.0.rules() == (Ssh2Rules {
                files: files@.len(),
                identities_only: config.is_set_to("identitiesonly"@, "yes"@),
            }),
            r.0.user_text() == user@,
            r.0.host_text() == host@,
            r.0.file_texts() == texts(files@),
            r.1 is CheckAuthenticated,
    {
        let identities_only = config.has("identitiesonly", "yes");
        (
            Ssh2Auth {
                user: user.to_owned(),
                host: host.to_owned(),
                files,
                identities_only,
                state: Ssh2State {
                    methods: Ssh2Methods {
                        publickey: false,
                        password: false,
                        keyboard_interactive: false,
                    },
                    with_public: false,
                    key_accepted: false,
                    stage: Ssh2Stage::CheckRound,
                },
            },
            Ssh2Action::CheckAuthenticated,
        )
    }

    pub open spec fn initial() -> Ssh2State {
        Ssh2State {
            methods: Ssh2Methods {
                publickey: false,
                password: false,
                keyboard_interactive: false,
            },
            with_public: false,
            key_accepted: false,
            stage: Ssh2Stage::CheckRound,
        }
    }

    fn go(&mut self, stage: Ssh2Stage, action: Ssh2Action) -> (r: Ssh2Action)
        ensures
            final(self).same_target(old(self)),
            (final(self).state(), r) == (old(self).state().at(stage), action),
    {
        self.state.stage = stage;
        action
    }

    fn next_key_file(&mut self, index: usize) -> (r: Ssh2Action)
        ensures
            final(self).same_target(old(self)),
            (final(self).state(), r) == old(self).state().key_file(
                old(self).rules(),
                index as int,
            ),
    {
        if index < self.files.len() {
            self.go(Ssh2Stage::KeyProbe { index }, Ssh2Action::ProbeKey(index))
        } else {
            self.go(Ssh2Stage::CheckPassword, Ssh2Action::CheckAuthenticated)
        }
    }

    fn key_file_after(&mut self, index: usize) -> (r: Ssh2Action)
        requires
            index < old(self).rules().files,
        ensures
            final(self).same_target(old(self)),
            (final(self).state(), r) == old(self).state().key_file(
                old(self).rules(),
                index + 1,
            ),
    {
        let count: usize = self.files.len();
        self.next_key_file(if index < count {
            index + 1
        } else {
            count
        })
    }

    fn key_was_accepted(&mut self) -> (r: Ssh2Action)
        ensures
            final(self).same_target(old(self)),
            (final(self).state(), r) == old(self).state().accept_key(),
    {
        self.state.key_accepted = true;
        self.go(Ssh2Stage::CheckRound, Ssh2Action::CheckAuthenticated)
    }

    fn take_authenticated(&mut self, yes: bool) -> (r: Ssh2Action)
        requires
            old(self).state().expects(Ssh2Event::Authenticated(yes)),
        ensures
            final(self).same_target(old(self)),
            (final(self).state(), r) == old(self).state().on_authenticated(
                old(self).rules(),
                yes,
            ),
    {
        match self.state.stage {
            Ssh2Stage::CheckRound => {
                let with_key = self.state.key_accepted;
                if yes {
                    self.go(Ssh2Stage::Finished, Ssh2Action::Done { with_key })
                } else {
                    self.state.key_accepted = false;
                    self.go(Ssh2Stage::Methods, Ssh2Action::ListMethods)
                }
            },
            Ssh2Stage::CheckKeys => if !yes && self.state.methods.publickey {
                if self.identities_only {
                    self.next_key_file(0)
                } else {
                    self.go(Ssh2Stage::AgentOpen, Ssh2Action::OpenAgent)
                }
            } else {
                self.go(Ssh2Stage::CheckPassword, Ssh2Action::CheckAuthenticated)
            },
            Ssh2Stage::CheckPassword => if !yes && self.state.methods.password {
                self.go(Ssh2Stage::PasswordAsk, Ssh2Action::AskPassword)
            } else {
                self.go(Ssh2Stage::CheckInteractive, Ssh2Action::CheckAuthenticated)
            },
            _ => if !yes && self.state.methods.keyboard_interactive {
                self.go(Ssh2Stage::Interactive, Ssh2Action::TryInteractive)
            } else {
                self.go(Ssh2Stage::CheckRound, Ssh2Action::CheckAuthenticated)
            },
        }
    }

    fn take_tried(&mut self, accepted: bool) -> (r: Ssh2Action)
        requires
            old(self).state().wf(old(self).rules()),
            old(self).state().expects(Ssh2Event::Tried(accepted)),
        ensures
            final(self).same_target(old(self)),
            (final(self).state(), r) == old(self).state().on_tried(old(self).rules(), accepted),
    {
        match self.state.stage {
            Ssh2Stage::AgentTry { index, count } => if accepted {
                self.key_was_accepted()
            } else if index + 1 < count {
                let index: usize = index + 1;
                self.go(Ssh2Stage::AgentTry { index, count }, Ssh2Action::TryIdentity(index))
            } else {
                self.next_key_file(0)
            },
            Ssh2Stage::KeyTry { index } => if accepted {
                self.key_was_accepted()
            } else {
                self.go(Ssh2Stage::KeyAsk { index }, Ssh2Action::AskPassphrase(index))
            },
            Ssh2Stage::KeyRetry { index } => if accepted {
                self.key_was_accepted()
            } else {
                self.key_file_after(index)
            },
            Ssh2Stage::Password => self.go(
                Ssh2Stage::CheckInteractive,
                Ssh2Action::CheckAuthenticated,
            ),
            _ => self.go(Ssh2Stage::CheckRound, Ssh2Action::CheckAuthenticated),
        }
    }

    fn take_answers(&mut self, answers: Vec<String>) -> (r: Ssh2Action)
        requires
            old(self).state().expects(Ssh2Event::Answers(answers)),
        ensures
            final(self).same_target(old(self)),
            (final(self).state(), r) == old(self).state().on_answers(answers),
    {
        if answers.len() == 0 {
            return self.go(Ssh2Stage::Finished, Ssh2Action::Fail(AuthFailure::UserCancelled));
        }
        let mut answers = answers;
        let answer = answers.remove(0);
        match self.state.stage {
            Ssh2Stage::KeyAsk { index } => {
                let with_public = self.state.with_public;
                self.go(
                    Ssh2Stage::KeyRetry { index },
                    Ssh2Action::TryKey { index, with_public, passphrase: Some(answer) },
                )
            },
            _ => self.go(Ssh2Stage::Password, Ssh2Action::TryPassword(answer)),
        }
    }

    /// Takes what came of the last action and names the next one.
    pub fn step(&mut self, event: Ssh2Event) -> (action: Ssh2Action)
        requires
            old(self).state().wf(old(self).rules()),
            old(self).state().expects(event),
        ensures
            final(self).same_target(old(self)),
            (final(self).state(), action) == old(self).state().next(old(self).rules(), event),
            final(self).state().wf(final(self).rules()),
    {
        match event {
            Ssh2Event::Authenticated(yes) => self.take_authenticated(yes),
            Ssh2Event::Methods(methods) => {
                self.state.methods = methods;
                self.go(Ssh2Stage::CheckKeys, Ssh2Action::CheckAuthenticated)
            },
            Ssh2Event::AgentOpened => self.go(Ssh2Stage::AgentConnect, Ssh2Action::ConnectAgent),
            Ssh2Event::AgentConnected(yes) => if yes {
                self.go(Ssh2Stage::AgentList, Ssh2Action::ListIdentities)
            } else {
                self.next_key_file(0)
            },
            Ssh2Event::Identities(count) => if count > 0 {
                self.go(Ssh2Stage::AgentTry { index: 0, count }, Ssh2Action::TryIdentity(0))
            } else {
                self.next_key_file(0)
            },
            Ssh2Event::Tried(accepted) => self.take_tried(accepted),
            Ssh2Event::Probed { key, public } => match self.state.stage {
                Ssh2Stage::KeyProbe { index } => if key {
                    self.state.with_public = public;
                    self.go(
                        Ssh2Stage::KeyTry { index },
                        Ssh2Action::TryKey { index, with_public: public, passphrase: None },
                    )
                } else {
                    self.key_file_after(index)
                },
                _ => Ssh2Action::CheckAuthenticated,
            },
            Ssh2Event::Answers(answers) => self.take_answers(answers),
            Ssh2Event::CallFailed(e) => self.go(
                Ssh2Stage::Finished,
                Ssh2Action::Fail(AuthFailure::Call(e)),
            ),
            Ssh2Event::AskFailed(f) => {
                let failure = match f {
                    AskFailure::Send(e) => AuthFailure::SendQuestion(e),
                    AskFailure::Wait(e) => AuthFailure::WaitAnswers(e),
                };
                self.go(Ssh2Stage::Finished, Ssh2Action::Fail(failure))
            },
        }
    }

    /// The identity file at `index`.
    pub fn key_path(&self, index: usize) -> (s: String)
        requires
            index < self.rules().files,
        ensures
            s@ == self.file_texts()[index as int],
    {
        self.files[index].clone()
    }

    /// Where the public half of the identity file at `index` is looked for.
    pub fn public_key_path(&self, index: usize) -> (s: String)
        requires
            index < self.rules().files,
        ensures
            s@ == self.file_texts()[index as int] + ".pub"@,
    {
        let mut s = self.files[index].clone();
        s.append(".pub");
        s
    }

    /// The question that asks for the passphrase of the key file at `index`.
    pub fn passphrase_question(&self, index: usize) -> (e: AuthenticationEvent)
        requires
            index < self.rules().files,
        ensures
            e@.origin is Local,
            e@.username == Seq::<char>::empty(),
            e@.instructions == Seq::<char>::empty(),
            e@.prompts == seq![
                (
                    "Passphrase to decrypt "@ + self.file_texts()[index as int] + " for "@
                        + self.user_text() + "@"@ + self.host_text() + ":\n> "@,
                    false,
                ),
            ],
    {
        Question::KeyPassphrase {
            file: self.files[index].clone(),
            user: self.user.clone(),
            host: self.host.clone(),
        }.into_event()
    }

    /// The question that asks for the password.
    pub fn password_question(&self) -> (e: AuthenticationEvent)
        ensures
            e@.origin is Server,
            e@.username == self.user_text(),
            e@.instructions == Seq::<char>::empty(),
            e@.prompts == seq![
                (
                    "Password for "@ + self.user_text() + "@"@ + self.host_text() + ": "@,
                    false,
                ),
            ],
    {
        Question::PasswordFor { user: self.user.clone(), host: self.host.clone() }.into_event()
    }
}

/// A secret of this machine never reaches the server: an answer goes to the
/// server as a password only if the question asked for the server's password,
/// and an answer to a question about a key file is only used on that file.
pub proof fn passphrase_stays_local(s: Ssh2State, rules: Ssh2Rules, event: Ssh2Event)
    requires
        s.wf(rules),
        s.expects(event),
    ensures
        s.next(rules, event).1 is TryPassword ==> s.stage is PasswordAsk && event is Answers,
        s.stage is KeyAsk ==> (s.next(rules, event).1 is TryKey || s.next(rules, event).1 is Fail),
        s.next(rules, event).1 matches Ssh2Action::TryKey { index, passphrase: Some(_), .. }
            ==> s.stage == (Ssh2Stage::KeyAsk { index }),
        s.next(rules, event).0.stage is KeyAsk <==> s.next(rules, event).1 is AskPassphrase,
        s.next(rules, event).0.stage is PasswordAsk <==> s.next(rules, event).1 is AskPassword,
{
}

/// Authentication is done exactly when the session says it is authenticated at
/// the top of a round, and it is put down to a key exactly when a key was the
/// last thing accepted.
pub proof fn ssh2_done_means_authenticated(s: Ssh2State, rules: Ssh2Rules, event: Ssh2Event)
    requires
        s.wf(rules),
        s.expects(event),
    ensures
        s.next(rules, event).1 is Done <==> s.stage is CheckRound && event
            == Ssh2Event::Authenticated(true),
        s.next(rules, event).1 matches Ssh2Action::Done { with_key } ==> with_key
            == s.key_accepted,
        s.next(rules, event).0.key_accepted && !s.key_accepted ==> event == Ssh2Event::Tried(true)
            && (s.stage is AgentTry || s.stage is KeyTry || s.stage is KeyRetry),
        s.stage is Password || s.stage is Interactive ==> s.next(rules, event).0.key_accepted
            == s.key_accepted,
{
}

/// From the moment a round finds the session unauthenticated until a key is
/// accepted, no key counts as accepted.
pub open spec fn key_flag_is_fresh(s: Ssh2State) -> bool {
    s.key_accepted ==> s.stage is CheckRound || s.stage is Finished
}

/// A password or an interactive login is never put down to a key: the mark that
/// a key was accepted does not outlive the look at the session that follows it.
pub proof fn password_login_is_not_a_key_login(s: Ssh2State, rules: Ssh2Rules, event: Ssh2Event)
    requires
        s.wf(rules),
        s.expects(event),
        key_flag_is_fresh(s),
    ensures
        key_flag_is_fresh(Ssh2Auth::initial()),
        key_flag_is_fresh(s.next(rules, event).0),
        s.stage is Password || s.stage is Interactive ==> !s.next(rules, event).0.key_accepted,
{
}

/// The agent is not consulted where only the named identities may be used.
pub proof fn identities_only_leaves_the_agent_alone(
    s: Ssh2State,
    rules: Ssh2Rules,
    event: Ssh2Event,
)
    requires
        s.expects(event),
        rules.identities_only,
    ensures
        !(s.next(rules, event).1 is OpenAgent),
{
}

/// Where the session is found unauthenticated, the methods that the server offers
/// have their turn in the order public key, password, keyboard-interactive: each
/// where it is offered and not otherwise, and after the last the session is
/// looked at again.
pub proof fn ssh2_methods_have_their_turn(s: Ssh2State, rules: Ssh2Rules)
    requires
        s.wf(rules),
    ensures
        ({
            let (after, action) = s.next(rules, Ssh2Event::Authenticated(false));
            let then = after.next(rules, Ssh2Event::Authenticated(false)).1;
            let keys = s.stage is CheckKeys;
            let password = s.stage is CheckPassword;
            let interactive = s.stage is CheckInteractive;
            &&& s.stage is CheckRound ==> action is ListMethods && !after.key_accepted
            &&& keys && s.methods.publickey && !rules.identities_only ==> action is OpenAgent
            &&& keys && s.methods.publickey && rules.identities_only && rules.files > 0 ==> action
                == Ssh2Action::ProbeKey(0)
            &&& keys && !s.methods.publickey ==> action is CheckAuthenticated
                && after.stage is CheckPassword
            &&& password && s.methods.password ==> action is AskPassword
            &&& password && !s.methods.password ==> action is CheckAuthenticated
            &&& password && !s.methods.password && s.methods.keyboard_interactive
                ==> then is TryInteractive
            &&& interactive && s.methods.keyboard_interactive ==> action is TryInteractive
            &&& interactive && !s.methods.keyboard_interactive ==> action is CheckAuthenticated
                && then is ListMethods
        }),
{
}

/// Once the session is authenticated, nothing more is tried or asked: whatever is
/// looked at next, the round runs out and the attempt is done.
pub proof fn an_authenticated_session_is_left_alone(s: Ssh2State, rules: Ssh2Rules)
    requires
        s.wf(rules),
        s.stage is CheckKeys,
    ensures
        ({
            let yes = Ssh2Event::Authenticated(true);
            let (s1, a1) = s.next(rules, yes);
            let (s2, a2) = s1.next(rules, yes);
            let (s3, a3) = s2.next(rules, yes);
            &&& a1 is CheckAuthenticated && a2 is CheckAuthenticated && a3 is CheckAuthenticated
            &&& s3.next(rules, yes).1 == (Ssh2Action::Done { with_key: s.key_accepted })
        }),
{
}

/// What the server offers is what it listed last, and a round that was just told
/// so begins by looking at the session, with the keys next.
pub proof fn a_list_begins_its_round(s: Ssh2State, rules: Ssh2Rules, methods: Ssh2Methods)
    ensures
        ({
            let (after, action) = s.next(rules, Ssh2Event::Methods(methods));
            &&& action is CheckAuthenticated
            &&& after.methods == methods
            &&& after.key_accepted == s.key_accepted
            &&& methods.publickey && !rules.identities_only ==> after.next(
                rules,
                Ssh2Event::Authenticated(false),
            ).1 is OpenAgent
        }),
{
}

/// The identities of the agent are tried one after the other from the first on,
/// each once, and then the key files from the first on, until one is accepted. A
/// key file is passed over where it is missing; where it is there it is tried
/// without a passphrase first, and with the first answer if that is refused.
pub proof fn keys_are_tried_one_after_the_other(
    s: Ssh2State,
    rules: Ssh2Rules,
    event: Ssh2Event,
)
    requires
        s.wf(rules),
        s.expects(event),
    ensures
        ({
            let action = s.next(rules, event).1;
            let refused = event == Ssh2Event::Tried(false);
            let first_file = if rules.files > 0 {
                action == Ssh2Action::ProbeKey(0)
            } else {
                action is CheckAuthenticated
            };
            &&& event == Ssh2Event::AgentOpened ==> action is ConnectAgent
            &&& event == Ssh2Event::AgentConnected(true) ==> action is ListIdentities
            &&& event == Ssh2Event::AgentConnected(false) ==> first_file
            &&& event == Ssh2Event::Identities(0) ==> first_file
            &&& event is Identities && event->Identities_0 > 0 ==> action == Ssh2Action::TryIdentity(0)
            &&& s.stage is AgentTry && refused && s.stage->AgentTry_index + 1
                < s.stage->AgentTry_count ==> action == Ssh2Action::TryIdentity(
                (s.stage->AgentTry_index + 1) as usize,
            )
            &&& s.stage is AgentTry && refused && s.stage->AgentTry_index + 1
                == s.stage->AgentTry_count ==> first_file
            &&& s.stage is KeyTry && refused ==> action == Ssh2Action::AskPassphrase(
                s.stage->KeyTry_index,
            )
            &&& event is Tried && event->Tried_0 && (s.stage is AgentTry || s.stage is KeyTry
                || s.stage is KeyRetry) ==> action is CheckAuthenticated && s.next(
                rules,
                event,
            ).0.next(rules, Ssh2Event::Authenticated(true)).1 == (Ssh2Action::Done {
                with_key: true,
            })
        }),
{
}

/// A key file that is missing, or refused with its passphrase too, is followed by
/// the next one, and the last by the other methods.
pub proof fn key_files_follow_one_another(s: Ssh2State, rules: Ssh2Rules, public: bool)
    requires
        s.wf(rules),
        s.stage is KeyProbe || s.stage is KeyRetry,
        rules.files <= usize::MAX,
    ensures
        ({
            let index = if s.stage is KeyProbe {
                s.stage->KeyProbe_index
            } else {
                s.stage->KeyRetry_index
            };
            let (after, action) = if s.stage is KeyProbe {
                s.next(rules, Ssh2Event::Probed { key: false, public })
            } else {
                s.next(rules, Ssh2Event::Tried(false))
            };
            &&& index + 1 < rules.files ==> action == Ssh2Action::ProbeKey((index + 1) as usize)
            &&& index + 1 == rules.files ==> action is CheckAuthenticated
            &&& index + 1 == rules.files && s.methods.password ==> after.next(
                rules,
                Ssh2Event::Authenticated(false),
            ).1 is AskPassword
        }),
{
}

/// A key file that is there is tried along with its public half where that is
/// there too, first without a passphrase and then with the one given, which is
/// the first answer to the question for that very file.
pub proof fn a_key_file_is_tried_with_its_own_passphrase(
    s: Ssh2State,
    rules: Ssh2Rules,
    public: bool,
    answers: Vec<String>,
)
    requires
        s.wf(rules),
        s.stage is KeyProbe,
        answers@.len() > 0,
    ensures
        ({
            let index = s.stage->KeyProbe_index;
            let (tried, first) = s.next(rules, Ssh2Event::Probed { key: true, public });
            let (asked, ask) = tried.next(rules, Ssh2Event::Tried(false));
            let (_, second) = asked.next(rules, Ssh2Event::Answers(answers));
            &&& first == (Ssh2Action::TryKey { index, with_public: public, passphrase: None })
            &&& ask == Ssh2Action::AskPassphrase(index)
            &&& second == (Ssh2Action::TryKey {
                index,
                with_public: public,
                passphrase: Some(answers@[0]),
            })
        }),
{
}

/// The password that is tried is the first answer; no answer at all, to whichever
/// question, cancels the attempt. Whether the password was accepted shows when
/// the session is looked at next, as it does after keyboard-interactive.
pub proof fn answers_are_tried_or_cancel(s: Ssh2State, rules: Ssh2Rules, answers: Vec<String>, accepted: bool)
    requires
        s.wf(rules),
    ensures
        ({
            let (after, action) = s.next(rules, Ssh2Event::Answers(answers));
            &&& answers@.len() == 0 ==> action == Ssh2Action::Fail(AuthFailure::UserCancelled)
            &&& answers@.len() == 0 ==> !after.expects(Ssh2Event::Answers(answers))
            &&& s.stage is PasswordAsk && answers@.len() > 0 ==> action
                == Ssh2Action::TryPassword(answers@[0])
            &&& s.stage is Password || s.stage is Interactive ==> s.next(
                rules,
                Ssh2Event::Tried(accepted),
            ).1 is CheckAuthenticated
            &&& s.stage is Password && s.methods.keyboard_interactive ==> s.next(
                rules,
                Ssh2Event::Tried(accepted),
            ).0.next(rules, Ssh2Event::Authenticated(false)).1 is TryInteractive
            &&& s.stage is Interactive ==> s.next(rules, Ssh2Event::Tried(accepted)).0.next(
                rules,
                Ssh2Event::Authenticated(false),
            ).1 is ListMethods
        }),
{
}

/// An error ends the attempt, and is named as what failed.
pub proof fn ssh2_errors_end_the_attempt(s: Ssh2State, rules: Ssh2Rules, e: String)
    ensures
        s.next(rules, Ssh2Event::CallFailed(e)).1 == Ssh2Action::Fail(AuthFailure::Call(e)),
        s.next(rules, Ssh2Event::AskFailed(AskFailure::Send(e))).1 == Ssh2Action::Fail(
            AuthFailure::SendQuestion(e),
        ),
        s.next(rules, Ssh2Event::AskFailed(AskFailure::Wait(e))).1 == Ssh2Action::Fail(
            AuthFailure::WaitAnswers(e),
        ),
{
}

/// Each action is followed by word of its own outcome, and the end by nothing.
pub proof fn each_ssh2_action_has_its_outcomes(
    s: Ssh2State,
    rules: Ssh2Rules,
    event: Ssh2Event,
    then: Ssh2Event,
)
    requires
        s.wf(rules),
        s.expects(event),
    ensures
        ({
            let (after, action) = s.next(rules, event);
            after.expects(then) <==> match action {
                Ssh2Action::CheckAuthenticated => then is Authenticated,
                Ssh2Action::ListMethods => then is Methods || then is CallFailed,
                Ssh2Action::OpenAgent => then is AgentOpened || then is CallFailed,
                Ssh2Action::ConnectAgent => then is AgentConnected,
                Ssh2Action::ListIdentities => then is Identities || then is CallFailed,
                Ssh2Action::TryIdentity(_) => then is Tried,
                Ssh2Action::ProbeKey(_) => then is Probed,
                Ssh2Action::TryKey { .. } => then is Tried,
                Ssh2Action::AskPassphrase(_) => then is Answers || then is AskFailed,
                Ssh2Action::AskPassword => then is Answers || then is AskFailed,
                Ssh2Action::TryPassword(_) => then is Tried,
                Ssh2Action::TryInteractive => then is Tried,
                Ssh2Action::Done { .. } => false,
                Ssh2Action::Fail(_) => false,
            }
        }),
{
}

/// The methods of a round stay those that the server listed until it lists them
/// anew, and each kind of attempt is made only where its method is offered: no
/// key without public key, no question for the password without password.
pub proof fn only_offered_methods_are_tried(s: Ssh2State, rules: Ssh2Rules, event: Ssh2Event)
    requires
        s.expects(event),
    ensures
        !(event is Methods) ==> s.next(rules, event).0.methods == s.methods,
        s.next(rules, event).1 is OpenAgent ==> s.methods.publickey,
        s.next(rules, event).1 is AskPassword ==> s.methods.password,
        s.next(rules, event).1 is TryInteractive ==> s.methods.keyboard_interactive,
        s.next(rules, event).1 is ProbeKey && event is Authenticated ==> s.methods.publickey,
{
}

} // verus!
