//! Messages that the server sends of its own accord: where each one goes, and
//! how the pane that one is about is found.

use crate::text::{decimal, decimal_text, join2, join3};
use vstd::prelude::*;

verus! {

pub type DomainId = usize;

pub type PaneId = usize;

pub type WindowId = usize;

pub type TabId = usize;

/// A message of the server, as far as its way is decided by it.
#[derive(Debug)]
pub enum UnilateralPdu {
    WindowWorkspaceChanged { window_id: WindowId, workspace: String },
    WindowTitleChanged { window_id: WindowId, title: String },
    RenameWorkspace { old_workspace: String, new_workspace: String },
    TabTitleChanged { tab_id: TabId, title: String },
    TabResized,
    TabAddedToWindow,
    /// An opaque message for the embedder.
    TermobChannelResponse { pane_id: PaneId, call_id: u64, payload: Vec<u8> },
    /// Any other message, and the pane that it is about.
    Other { pane: Option<PaneId> },
}

/// What is to be done on the main thread.
#[derive(Debug)]
pub enum MainThreadTask {
    SetWorkspace { domain: DomainId, window_id: WindowId, workspace: String },
    SetWindowTitle { domain: DomainId, window_id: WindowId, title: String },
    RenameWorkspace { old_workspace: String, new_workspace: String },
    SetTabTitle { domain: DomainId, tab_id: TabId, title: String },
    Resync { domain: DomainId },
    /// Relay the message verbatim, whatever its pane.
    NotifyEmbedder { domain: DomainId, pane_id: PaneId, call_id: u64, payload: Vec<u8> },
    /// Find the pane and hand the message to it.
    ProcessForPane { domain: DomainId, pane_id: PaneId },
}

/// Where a message goes.
#[derive(Debug)]
pub enum Route {
    /// The client has no local domain: messages are ignored.
    Ignore,
    OnMainThread(MainThreadTask),
    /// It is of no known kind and about no pane: [`unknown_message`] says so.
    Unknown,
}

/// The way of a message for a client with the given local domain.
pub open spec fn route_of(local_domain_id: Option<DomainId>, pdu: UnilateralPdu) -> Route {
    match local_domain_id {
        None => Route::Ignore,
        Some(domain) => match pdu {
            UnilateralPdu::WindowWorkspaceChanged { window_id, workspace } => Route::OnMainThread(
                MainThreadTask::SetWorkspace { domain, window_id, workspace },
            ),
            UnilateralPdu::WindowTitleChanged { window_id, title } => Route::OnMainThread(
                MainThreadTask::SetWindowTitle { domain, window_id, title },
            ),
            UnilateralPdu::RenameWorkspace { old_workspace, new_workspace } => Route::OnMainThread(
                MainThreadTask::RenameWorkspace { old_workspace, new_workspace },
            ),
            UnilateralPdu::TabTitleChanged { tab_id, title } => Route::OnMainThread(
                MainThreadTask::SetTabTitle { domain, tab_id, title },
            ),
            UnilateralPdu::TabResized => Route::OnMainThread(MainThreadTask::Resync { domain }),
            UnilateralPdu::TabAddedToWindow => Route::OnMainThread(
                MainThreadTask::Resync { domain },
            ),
            UnilateralPdu::TermobChannelResponse { pane_id, call_id, payload } =>
                Route::OnMainThread(
                MainThreadTask::NotifyEmbedder { domain, pane_id, call_id, payload },
            ),
            UnilateralPdu::Other { pane: Some(pane_id) } => Route::OnMainThread(
                MainThreadTask::ProcessForPane { domain, pane_id },
            ),
            UnilateralPdu::Other { pane: None } => Route::Unknown,
        },
    }
}

/// Decides where a message goes.
pub fn process_unilateral(local_domain_id: Option<DomainId>, pdu: UnilateralPdu) -> (r: Route)
    ensures
        r == route_of(local_domain_id, pdu),
{
    let domain: usize = match local_domain_id {
        Some(id) => id,
        None => {
            return Route::Ignore;
        },
    };
    Route::OnMainThread(
        match pdu {
            UnilateralPdu::WindowWorkspaceChanged { window_id, workspace } =>
                MainThreadTask::SetWorkspace { domain, window_id, workspace },
            UnilateralPdu::WindowTitleChanged { window_id, title } =>
                MainThreadTask::SetWindowTitle { domain, window_id, title },
            UnilateralPdu::RenameWorkspace { old_workspace, new_workspace } =>
                MainThreadTask::RenameWorkspace { old_workspace, new_workspace },
            UnilateralPdu::TabTitleChanged { tab_id, title } =>
                MainThreadTask::SetTabTitle { domain, tab_id, title },
            UnilateralPdu::TabResized => MainThreadTask::Resync { domain },
            UnilateralPdu::TabAddedToWindow => MainThreadTask::Resync { domain },
            UnilateralPdu::TermobChannelResponse { pane_id, call_id, payload } =>
                MainThreadTask::NotifyEmbedder { domain, pane_id, call_id, payload },
            UnilateralPdu::Other { pane } => match pane {
                Some(pane_id) => MainThreadTask::ProcessForPane { domain, pane_id },
                None => {
                    return Route::Unknown;
                },
            },
        },
    )
}

/// What is said of a message that could not be placed; `shown` is the message
/// as it is shown.
pub fn unknown_message(shown: &str) -> (s: String)
    ensures
        s@ == "don't know how to handle "@ + shown@,
{
    join2("don't know how to handle ", shown)
}

/// What looking up a domain found.
#[derive(Debug, Clone, Copy, PartialEq, Eq, Structural)]
pub enum DomainLookup {
    NoMux,
    Missing,
    /// A domain of another kind.
    NotClient,
    Client,
}

/// Why a task cannot be carried out.
#[derive(Debug, Clone, Copy, PartialEq, Eq, Structural)]
pub enum TaskError {
    NoMoreMux,
    NoSuchDomain(DomainId),
    NotAClientDomain(DomainId),
    NoLocalWindow(WindowId),
    NoLocalPane(PaneId),
    LocalPaneNotFound(PaneId),
    NotAClientPane(PaneId),
    ResyncFailed,
}

impl TaskError {
    /// What is said of it, where `shown` is the message as it is shown and
    /// `resync` is the error of the resync.
    pub open spec fn text(self, shown: Seq<char>, resync: Seq<char>) -> Seq<char> {
        match self {
            TaskError::NoMoreMux => "no more mux"@,
            TaskError::NoSuchDomain(id) => "no such domain "@ + decimal(id as nat),
            TaskError::NotAClientDomain(id) => "domain "@ + decimal(id as nat)
                + " is not a ClientDomain instance"@,
            TaskError::NoLocalWindow(id) => "no local window for remote window id "@ + decimal(
                id as nat,
            ),
            TaskError::NoLocalPane(id) => "remote pane id "@ + decimal(id as nat)
                + " does not have a local pane id"@,
            TaskError::LocalPaneNotFound(id) => "local pane "@ + decimal(id as nat)
                + " not found"@,
            TaskError::NotAClientPane(id) => "received unilateral PDU for pane "@ + decimal(
                id as nat,
            ) + " which is not an instance of ClientPane: "@ + shown,
            TaskError::ResyncFailed => resync,
        }
    }

    /// The error as it is reported. The message is part of it where its pane is
    /// of another kind; the error of a resync is handed on as it is.
    pub fn message(&self, shown: &str, resync: &str) -> (s: String)
        ensures
            s@ == self.text(shown@, resync@),
    {
        match *self {
            TaskError::NoMoreMux => "no more mux".to_owned(),
            TaskError::NoSuchDomain(id) => numbered("no such domain ", id),
            TaskError::NotAClientDomain(id) => join3(
                "domain ",
                decimal_text(id as u64).as_str(),
                " is not a ClientDomain instance",
            ),
            TaskError::NoLocalWindow(id) => numbered("no local window for remote window id ", id),
            TaskError::NoLocalPane(id) => join3(
                "remote pane id ",
                decimal_text(id as u64).as_str(),
                " does not have a local pane id",
            ),
            TaskError::LocalPaneNotFound(id) => join3(
                "local pane ",
                decimal_text(id as u64).as_str(),
                " not found",
            ),
            TaskError::NotAClientPane(id) => {
                let mut s = join3(
                    "received unilateral PDU for pane ",
                    decimal_text(id as u64).as_str(),
                    " which is not an instance of ClientPane: ",
                );
                s.append(shown);
                s
            },
            TaskError::ResyncFailed => resync.to_owned(),
        }
    }
}

/// A text that ends in a number.
fn numbered(text: &str, n: usize) -> (s: String)
    ensures
        s@ == text@ + decimal(n as nat),
{
    let mut s = text.to_owned();
    s.append(decimal_text(n as u64).as_str());
    s
}

/// What a domain is of no use for, if it is of none.
pub open spec fn domain_error(domain: DomainId, lookup: DomainLookup) -> Option<TaskError> {
    match lookup {
        DomainLookup::NoMux => Some(TaskError::NoMoreMux),
        DomainLookup::Missing => Some(TaskError::NoSuchDomain(domain)),
        DomainLookup::NotClient => Some(TaskError::NotAClientDomain(domain)),
        DomainLookup::Client => None,
    }
}

/// The window whose workspace changes, or why there is none.
pub open spec fn window_found(
    domain: DomainId,
    lookup: DomainLookup,
    window_id: WindowId,
    local_window: Option<WindowId>,
) -> Result<WindowId, TaskError> {
    match domain_error(domain, lookup) {
        Some(e) => Err(e),
        None => match local_window {
            Some(w) => Ok(w),
            None => Err(TaskError::NoLocalWindow(window_id)),
        },
    }
}

/// Whether the domain of a task is one that it can be carried out on.
pub fn check_domain(domain: DomainId, lookup: DomainLookup) -> (r: Result<(), TaskError>)
    ensures
        r == match lookup {
            DomainLookup::NoMux => Err::<(), TaskError>(TaskError::NoMoreMux),
            DomainLookup::Missing => Err(TaskError::NoSuchDomain(domain)),
            DomainLookup::NotClient => Err(TaskError::NotAClientDomain(domain)),
            DomainLookup::Client => Ok(()),
        },
        r is Ok <==> domain_error(domain, lookup) is None,
        r is Err ==> domain_error(domain, lookup) == Some(r->Err_0),
{
    match lookup {
        DomainLookup::NoMux => Err(TaskError::NoMoreMux),
        DomainLookup::Missing => Err(TaskError::NoSuchDomain(domain)),
        DomainLookup::NotClient => Err(TaskError::NotAClientDomain(domain)),
        DomainLookup::Client => Ok(()),
    }
}

/// The local window whose workspace changes. The domain is checked first.
pub fn workspace_window(
    domain: DomainId,
    lookup: DomainLookup,
    window_id: WindowId,
    local_window: Option<WindowId>,
) -> (r: Result<WindowId, TaskError>)
    ensures
        r == match lookup {
            DomainLookup::NoMux => Err::<WindowId, TaskError>(TaskError::NoMoreMux),
            DomainLookup::Missing => Err(TaskError::NoSuchDomain(domain)),
            DomainLookup::NotClient => Err(TaskError::NotAClientDomain(domain)),
            DomainLookup::Client => match local_window {
                Some(w) => Ok(w),
                None => Err(TaskError::NoLocalWindow(window_id)),
            },
        },
        r == window_found(domain, lookup, window_id, local_window),
{
    match check_domain(domain, lookup) {
        Err(e) => Err(e),
        Ok(()) => match local_window {
            Some(w) => Ok(w),
            None => Err(TaskError::NoLocalWindow(window_id)),
        },
    }
}

/// What looking up a local pane found.
#[derive(Debug, Clone, Copy, PartialEq, Eq, Structural)]
pub enum PaneLookup {
    Missing,
    /// A pane of another kind.
    NotClient,
    Client,
}

/// Where the search for a pane stands: what was asked for last.
#[derive(Debug, Clone, Copy, PartialEq, Eq, Structural)]
pub enum PaneStage {
    Domain,
    /// The local id, before any resync.
    MapFirst,
    /// The resync for a pane that was not known.
    ResyncUnknown,
    MapAgain,
    Pane { local: PaneId },
    /// The resync for a local pane that is gone.
    ResyncGone { local: PaneId },
    MapLast { local: PaneId },
    PaneLast { first: PaneId, local: PaneId },
    Finished,
}

/// What was found.
#[derive(Debug, Clone, Copy, PartialEq, Eq, Structural)]
pub enum PaneEvent {
    Domain(DomainLookup),
    LocalId(Option<PaneId>),
    Resynced(bool),
    Pane(PaneLookup),
}

/// What to do next.
#[derive(Debug, Clone, Copy, PartialEq, Eq, Structural)]
pub enum PaneAction {
    LookUpDomain,
    /// Ask the domain for the local id of the remote pane.
    MapPaneId,
    Resync,
    LookUpPane(PaneId),
    /// Hand the message to the pane just found.
    Deliver,
    /// There is no mux: the message is dropped.
    Drop,
    Fail(TaskError),
}

/// The search for the pane that a message is about.
#[derive(Debug, Clone, Copy, PartialEq, Eq, Structural)]
pub struct PaneSearch {
    pub pane_id: PaneId,
    pub domain: DomainId,
    pub stage: PaneStage,
}

impl PaneSearch {
    pub open spec fn at(self, stage: PaneStage) -> PaneSearch {
        PaneSearch { stage, ..self }
    }

    pub open spec fn finish(self, action: PaneAction) -> (PaneSearch, PaneAction) {
        (self.at(PaneStage::Finished), action)
    }

    /// What the pane found leads to; `known_as` is the id it is reported under
    /// where it is of another kind.
    pub open spec fn found(self, known_as: PaneId, lookup: PaneLookup) -> (
        PaneSearch,
        PaneAction,
    ) {
        if lookup is Client {
            self.finish(PaneAction::Deliver)
        } else {
            self.finish(PaneAction::Fail(TaskError::NotAClientPane(known_as)))
        }
    }

    /// The search's next state and action. A pane that is not known, and a
    /// local pane that is gone, each have the domain resync once.
    pub open spec fn next(self, event: PaneEvent) -> (PaneSearch, PaneAction) {
        let unmapped = self.finish(PaneAction::Fail(TaskError::NoLocalPane(self.pane_id)));
        match (self.stage, event) {
            (PaneStage::Domain, PaneEvent::Domain(lookup)) => match lookup {
                DomainLookup::NoMux => self.finish(PaneAction::Drop),
                DomainLookup::Missing => self.finish(
                    PaneAction::Fail(TaskError::NoSuchDomain(self.domain)),
                ),
                DomainLookup::NotClient => self.finish(
                    PaneAction::Fail(TaskError::NotAClientDomain(self.domain)),
                ),
                DomainLookup::Client => (self.at(PaneStage::MapFirst), PaneAction::MapPaneId),
            },
            (PaneStage::MapFirst, PaneEvent::LocalId(id)) => match id {
                Some(local) => (
                    self.at(PaneStage::Pane { local }),
                    PaneAction::LookUpPane(local),
                ),
                None => (self.at(PaneStage::ResyncUnknown), PaneAction::Resync),
            },
            (PaneStage::ResyncUnknown, PaneEvent::Resynced(worked)) => if worked {
                (self.at(PaneStage::MapAgain), PaneAction::MapPaneId)
            } else {
                self.finish(PaneAction::Fail(TaskError::ResyncFailed))
            },
            (PaneStage::MapAgain, PaneEvent::LocalId(id)) => match id {
                Some(local) => (
                    self.at(PaneStage::Pane { local }),
                    PaneAction::LookUpPane(local),
                ),
                None => unmapped,
            },
            (PaneStage::Pane { local }, PaneEvent::Pane(lookup)) => if lookup is Missing {
                (self.at(PaneStage::ResyncGone { local }), PaneAction::Resync)
            } else {
                self.found(local, lookup)
            },
            (PaneStage::ResyncGone { local }, PaneEvent::Resynced(worked)) => if worked {
                (self.at(PaneStage::MapLast { local }), PaneAction::MapPaneId)
            } else {
                self.finish(PaneAction::Fail(TaskError::ResyncFailed))
            },
            (PaneStage::MapLast { local: first }, PaneEvent::LocalId(id)) => match id {
                Some(local) => (
                    self.at(PaneStage::PaneLast { first, local }),
                    PaneAction::LookUpPane(local),
                ),
                None => unmapped,
            },
            (PaneStage::PaneLast { first, local }, PaneEvent::Pane(lookup)) => if lookup is Missing {
                self.finish(PaneAction::Fail(TaskError::LocalPaneNotFound(local)))
            } else {
                self.found(first, lookup)
            },
            _ => (self, PaneAction::LookUpDomain),
        }
    }

    pub open spec fn expects(self, event: PaneEvent) -> bool {
        match self.stage {
            PaneStage::Domain => event is Domain,
            PaneStage::MapFirst => event is LocalId,
            PaneStage::ResyncUnknown => event is Resynced,
            PaneStage::MapAgain => event is LocalId,
            PaneStage::Pane { .. } => event is Pane,
            PaneStage::ResyncGone { .. } => event is Resynced,
            PaneStage::MapLast { .. } => event is LocalId,
            PaneStage::PaneLast { .. } => event is Pane,
            PaneStage::Finished => false,
        }
    }

    /// Begins the search.
    pub fn start(pane_id: PaneId, domain: DomainId) -> (r: (PaneSearch, PaneAction))
        ensures
            r.0 == (PaneSearch { pane_id, domain, stage: PaneStage::Domain }),
            r.1 is LookUpDomain,
    {
        (PaneSearch { pane_id, domain, stage: PaneStage::Domain }, PaneAction::LookUpDomain)
    }

    fn done(&mut self, action: PaneAction) -> (r: PaneAction)
        ensures
            (*final(self), r) == old(self).finish(action),
    {
        self.stage = PaneStage::Finished;
        action
    }

    fn go(&mut self, stage: PaneStage, action: PaneAction) -> (r: PaneAction)
        ensures
            (*final(self), r) == (old(self).at(stage), action),
    {
        self.stage = stage;
        action
    }

    /// Takes what was found and names what to do next.
    pub fn step(&mut self, event: PaneEvent) -> (action: PaneAction)
        requires
            old(self).expects(event),
        ensures
            (*final(self), action) == old(self).next(event),
    {
        let unmapped = PaneAction::Fail(TaskError::NoLocalPane(self.pane_id));
        match event {
            PaneEvent::Domain(lookup) => match check_domain(self.domain, lookup) {
                Ok(()) => self.go(PaneStage::MapFirst, PaneAction::MapPaneId),
                Err(TaskError::NoMoreMux) => self.done(PaneAction::Drop),
                Err(e) => self.done(PaneAction::Fail(e)),
            },
            PaneEvent::LocalId(id) => match (self.stage, id) {
                (PaneStage::MapFirst, None) => self.go(
                    PaneStage::ResyncUnknown,
                    PaneAction::Resync,
                ),
                (_, None) => self.done(unmapped),
                (PaneStage::MapLast { local: first }, Some(local)) => self.go(
                    PaneStage::PaneLast { first, local },
                    PaneAction::LookUpPane(local),
                ),
                (_, Some(local)) => self.go(
                    PaneStage::Pane { local },
                    PaneAction::LookUpPane(local),
                ),
            },
            PaneEvent::Resynced(worked) => {
                if !worked {
                    return self.done(PaneAction::Fail(TaskError::ResyncFailed));
                }
                match self.stage {
                    PaneStage::ResyncGone { local } => self.go(
                        PaneStage::MapLast { local },
                        PaneAction::MapPaneId,
                    ),
                    _ => self.go(PaneStage::MapAgain, PaneAction::MapPaneId),
                }
            },
            PaneEvent::Pane(lookup) => match (self.stage, lookup) {
                (_, PaneLookup::Client) => self.done(PaneAction::Deliver),
                (PaneStage::Pane { local }, PaneLookup::Missing) => self.go(
                    PaneStage::ResyncGone { local },
                    PaneAction::Resync,
                ),
                (PaneStage::Pane { local }, PaneLookup::NotClient) => self.done(
                    PaneAction::Fail(TaskError::NotAClientPane(local)),
                ),
                (PaneStage::PaneLast { first, local }, PaneLookup::Missing) => self.done(
                    PaneAction::Fail(TaskError::LocalPaneNotFound(local)),
                ),
                (PaneStage::PaneLast { first, local }, PaneLookup::NotClient) => self.done(
                    PaneAction::Fail(TaskError::NotAClientPane(first)),
                ),
                _ => PaneAction::LookUpDomain,
            },
        }
    }
}

/// A client without a local domain ignores every message, and one with a domain
/// only fails to place a message that is about no pane and of no known kind.
pub proof fn only_paneless_messages_are_unknown(
    local_domain_id: Option<DomainId>,
    pdu: UnilateralPdu,
)
    ensures
        route_of(local_domain_id, pdu) is Ignore <==> local_domain_id is None,
        route_of(local_domain_id, pdu) is Unknown <==> local_domain_id is Some && pdu
            == (UnilateralPdu::Other { pane: None }),
{
}

/// The states that a search passes through, by how many more lookups can follow.
pub open spec fn search_rank(stage: PaneStage) -> nat {
    match stage {
        PaneStage::Domain => 8,
        PaneStage::MapFirst => 7,
        PaneStage::ResyncUnknown => 6,
        PaneStage::MapAgain => 5,
        PaneStage::Pane { .. } => 4,
        PaneStage::ResyncGone { .. } => 3,
        PaneStage::MapLast { .. } => 2,
        PaneStage::PaneLast { .. } => 1,
        PaneStage::Finished => 0,
    }
}

/// A search ends: every step brings it closer to its end, so the domain is made
/// to resync at most twice for one message.
pub proof fn pane_search_terminates(s: PaneSearch, event: PaneEvent)
    requires
        s.expects(event),
    ensures
        search_rank(s.next(event).0.stage) < search_rank(s.stage),
        s.next(event).1 is Resync ==> s.stage is MapFirst || s.stage is Pane,
        s.next(event).1 is Deliver ==> event == PaneEvent::Pane(PaneLookup::Client),
{
}

/// With a local domain each kind of message leads to the task of its own kind,
/// for that domain, with what the message says unchanged: a window gets the
/// workspace or the title that the message gives it, a workspace goes from its
/// old name to its new one, and what is meant for the embedder arrives whole.
pub proof fn messages_arrive_unchanged(
    domain: DomainId,
    window_id: WindowId,
    tab_id: TabId,
    pane_id: PaneId,
    call_id: u64,
    payload: Vec<u8>,
    a: String,
    b: String,
)
    ensures
        ({
            let d = Some(domain);
            let workspace = route_of(
                d,
                UnilateralPdu::WindowWorkspaceChanged { window_id, workspace: a },
            );
            let title = route_of(d, UnilateralPdu::WindowTitleChanged { window_id, title: a });
            let tab = route_of(d, UnilateralPdu::TabTitleChanged { tab_id, title: a });
            let renamed = route_of(
                d,
                UnilateralPdu::RenameWorkspace { old_workspace: a, new_workspace: b },
            );
            let relayed = route_of(
                d,
                UnilateralPdu::TermobChannelResponse { pane_id, call_id, payload },
            );
            let other = route_of(d, UnilateralPdu::Other { pane: Some(pane_id) });
            &&& workspace == Route::OnMainThread(
                MainThreadTask::SetWorkspace { domain, window_id, workspace: a },
            )
            &&& title == Route::OnMainThread(
                MainThreadTask::SetWindowTitle { domain, window_id, title: a },
            )
            &&& tab == Route::OnMainThread(MainThreadTask::SetTabTitle { domain, tab_id, title: a })
            &&& renamed == Route::OnMainThread(
                MainThreadTask::RenameWorkspace { old_workspace: a, new_workspace: b },
            )
            &&& relayed == Route::OnMainThread(
                MainThreadTask::NotifyEmbedder { domain, pane_id, call_id, payload },
            )
            &&& other == Route::OnMainThread(MainThreadTask::ProcessForPane { domain, pane_id })
            &&& route_of(d, UnilateralPdu::TabResized) == Route::OnMainThread(
                MainThreadTask::Resync { domain },
            )
            &&& route_of(d, UnilateralPdu::TabAddedToWindow) == Route::OnMainThread(
                MainThreadTask::Resync { domain },
            )
        }),
{
}

/// No two messages lead to the same task but those that have the domain resync.
pub proof fn tasks_tell_their_messages_apart(
    domain: DomainId,
    p: UnilateralPdu,
    q: UnilateralPdu,
)
    requires
        route_of(Some(domain), p) == route_of(Some(domain), q),
    ensures
        p == q || ((p is TabResized || p is TabAddedToWindow) && (q is TabResized
            || q is TabAddedToWindow)),
{
}

/// What is found leads on in the same way wherever the search stands. A local id
/// is looked up under that very id; a pane of the right kind gets the message;
/// a resync that worked is followed by asking for the local id again, and one
/// that failed ends the search.
pub proof fn what_is_found_is_used(s: PaneSearch, event: PaneEvent)
    requires
        s.expects(event),
    ensures
        ({
            let (after, action) = s.next(event);
            &&& action is LookUpPane <==> event is LocalId && event->LocalId_0 is Some
            &&& action is LookUpPane ==> action == PaneAction::LookUpPane(event->LocalId_0->0)
            &&& action is Deliver <==> event == PaneEvent::Pane(PaneLookup::Client)
            &&& action is MapPaneId <==> event == PaneEvent::Resynced(true) || event
                == PaneEvent::Domain(DomainLookup::Client)
            &&& action == PaneAction::Fail(TaskError::ResyncFailed) <==> event
                == PaneEvent::Resynced(false)
            &&& action is Drop <==> event == PaneEvent::Domain(DomainLookup::NoMux)
            &&& after.pane_id == s.pane_id && after.domain == s.domain
        }),
{
}

/// A pane that is not known, and a local pane that is gone, each have the domain
/// resync the first time and end the search the next.
pub proof fn what_is_missing_is_resynced_once(s: PaneSearch, event: PaneEvent)
    requires
        s.expects(event),
    ensures
        ({
            let action = s.next(event).1;
            let unknown = event == PaneEvent::LocalId(None);
            let gone = event == PaneEvent::Pane(PaneLookup::Missing);
            &&& action is Resync <==> (unknown && s.stage is MapFirst) || (gone
                && s.stage is Pane)
            &&& unknown && !(s.stage is MapFirst) ==> action == PaneAction::Fail(
                TaskError::NoLocalPane(s.pane_id),
            )
            &&& gone && !(s.stage is Pane) ==> action is Fail
        }),
{
}

/// A whole search, as long as it can get: the domain is there, the pane is not
/// known until after a resync, what it is known as is gone, and after another
/// resync it is known under an id that may be another. The message goes to what
/// is found there, and the errors name what they speak of: a pane of another kind
/// the id that it was first known as, and a pane that is gone for good the id
/// that was looked up last.
pub proof fn a_pane_is_searched_for_to_the_end(
    pane_id: PaneId,
    domain: DomainId,
    first: PaneId,
    second: PaneId,
)
    ensures
        ({
            let begun = PaneSearch { pane_id, domain, stage: PaneStage::Domain };
            let (s1, a1) = begun.next(PaneEvent::Domain(DomainLookup::Client));
            let (s2, a2) = s1.next(PaneEvent::LocalId(None));
            let (s3, a3) = s2.next(PaneEvent::Resynced(true));
            let (s4, a4) = s3.next(PaneEvent::LocalId(Some(first)));
            let (s5, a5) = s4.next(PaneEvent::Pane(PaneLookup::Missing));
            let (s6, a6) = s5.next(PaneEvent::Resynced(true));
            let (s7, a7) = s6.next(PaneEvent::LocalId(Some(second)));
            &&& begun.expects(PaneEvent::Domain(DomainLookup::Client))
            &&& a1 is MapPaneId && s1.expects(PaneEvent::LocalId(None))
            &&& a2 is Resync && s2.expects(PaneEvent::Resynced(true))
            &&& a3 is MapPaneId && s3.expects(PaneEvent::LocalId(Some(first)))
            &&& a4 == PaneAction::LookUpPane(first)
            &&& s4 == s1.next(PaneEvent::LocalId(Some(first))).0
            &&& s4.expects(PaneEvent::Pane(PaneLookup::Missing))
            &&& a5 is Resync && s5.expects(PaneEvent::Resynced(true))
            &&& a6 is MapPaneId && s6.expects(PaneEvent::LocalId(Some(second)))
            &&& a7 == PaneAction::LookUpPane(second)
            &&& s7.expects(PaneEvent::Pane(PaneLookup::Missing))
            &&& s4.next(PaneEvent::Pane(PaneLookup::NotClient)).1 == PaneAction::Fail(
                TaskError::NotAClientPane(first),
            )
            &&& s7.next(PaneEvent::Pane(PaneLookup::Client)).1 is Deliver
            &&& s7.next(PaneEvent::Pane(PaneLookup::NotClient)).1 == PaneAction::Fail(
                TaskError::NotAClientPane(first),
            )
            &&& s7.next(PaneEvent::Pane(PaneLookup::Missing)).1 == PaneAction::Fail(
                TaskError::LocalPaneNotFound(second),
            )
            &&& begun.next(PaneEvent::Domain(DomainLookup::Missing)).1 == PaneAction::Fail(
                TaskError::NoSuchDomain(domain),
            )
            &&& begun.next(PaneEvent::Domain(DomainLookup::NotClient)).1 == PaneAction::Fail(
                TaskError::NotAClientDomain(domain),
            )
        }),
{
}

/// Each lookup is followed by what it found, and an end by nothing.
pub proof fn each_lookup_has_its_findings(s: PaneSearch, event: PaneEvent, then: PaneEvent)
    requires
        s.expects(event),
    ensures
        s.next(event).0.expects(then) <==> match s.next(event).1 {
            PaneAction::LookUpDomain => false,
            PaneAction::MapPaneId => then is LocalId,
            PaneAction::Resync => then is Resynced,
            PaneAction::LookUpPane(_) => then is Pane,
            PaneAction::Deliver => false,
            PaneAction::Drop => false,
            PaneAction::Fail(_) => false,
        },
{
}

/// An error that names a domain, a window or a pane says its number.
pub proof fn task_errors_say_their_number(id: usize, shown: Seq<char>, resync: Seq<char>)
    ensures
        ({
            let number = decimal(id as nat);
            let domain = TaskError::NoSuchDomain(id).text(shown, resync);
            let window = TaskError::NoLocalWindow(id).text(shown, resync);
            let n = number.len() as int;
            &&& domain.len() >= n && domain.skip(domain.len() - n) == number
            &&& window.len() >= n && window.skip(window.len() - n) == number
            &&& TaskError::ResyncFailed.text(shown, resync) == resync
            &&& ({
                let pane = TaskError::NotAClientPane(id).text(shown, resync);
                pane.len() >= shown.len() && pane.skip(pane.len() - shown.len()) == shown
            })
        }),
{
    let number = decimal(id as nat);
    let domain = TaskError::NoSuchDomain(id).text(shown, resync);
    let window = TaskError::NoLocalWindow(id).text(shown, resync);
    let pane = TaskError::NotAClientPane(id).text(shown, resync);
    assert(domain.skip(domain.len() - number.len()) == number);
    assert(window.skip(window.len() - number.len()) == number);
    assert(pane.skip(pane.len() - shown.len()) == shown);
}

/// The domain is looked at before the window: a domain that is of no use is the
/// error whichever window there is, and a window that is missing is only ever
/// missed in a domain that is there. The errors name the domain and the remote
/// window.
pub proof fn the_domain_is_looked_at_first(
    domain: DomainId,
    lookup: DomainLookup,
    window_id: WindowId,
    local_window: Option<WindowId>,
)
    ensures
        ({
            let r = window_found(domain, lookup, window_id, local_window);
            &&& r is Ok <==> lookup is Client && local_window is Some
            &&& r is Ok ==> r->Ok_0 == local_window->0
            &&& lookup is NoMux ==> r->Err_0 == TaskError::NoMoreMux
            &&& lookup is Missing ==> r->Err_0 == TaskError::NoSuchDomain(domain)
            &&& lookup is NotClient ==> r->Err_0 == TaskError::NotAClientDomain(domain)
            &&& lookup is Client && local_window is None ==> r->Err_0
                == TaskError::NoLocalWindow(window_id)
            &&& domain_error(domain, lookup) is None <==> lookup is Client
        }),
{
}

} // verus!
