//! The holder's side of an SSH session: what it hears of the session, how its
//! requests are queued, and how they are settled.

use crate::auth::AuthenticationEvent;
use crate::session_inner::SessionRequest;
use vstd::prelude::*;

verus! {

/// What the holder of a session hears of it while it is being made.
#[derive(Debug)]
pub enum SessionEvent {
    Banner(Option<String>),
    /// Whether to go on with a host that is not known yet.
    HostVerify { message: String },
    Authenticate(AuthenticationEvent),
    /// The host's key is not the one that is known.
    HostVerificationFailed { message: String },
    Error(String),
    Authenticated,
}

/// The session thread is no longer there.
#[derive(Debug, Clone, Copy, PartialEq, Eq, Structural)]
pub struct DeadSession;

impl DeadSession {
    pub fn message(self) -> (s: String)
        ensures
            s@ == "SSH session is dead"@,
    {
        "SSH session is dead".to_owned()
    }
}

/// Why a request came to nothing.
#[derive(Debug)]
pub enum RequestFailed {
    Dead(DeadSession),
    /// What the session thread answered.
    Refused(String),
}

/// How a request comes out: `sent` says that it could be queued, and `reply` is
/// what came back, if anything did. A reply that never comes means the same as
/// a request that could not be sent.
pub open spec fn settled<T>(sent: bool, reply: Option<Result<T, String>>) -> Result<
    T,
    RequestFailed,
> {
    match reply {
        Some(Ok(v)) if sent => Ok(v),
        Some(Err(e)) if sent => Err(RequestFailed::Refused(e)),
        _ => Err(RequestFailed::Dead(DeadSession)),
    }
}

/// How a request comes out.
pub fn settle<T>(sent: bool, reply: Option<Result<T, String>>) -> (r: Result<T, RequestFailed>)
    ensures
        r == settled(sent, reply),
{
    if !sent {
        return Err(RequestFailed::Dead(DeadSession));
    }
    match reply {
        Some(Ok(v)) => Ok(v),
        Some(Err(e)) => Err(RequestFailed::Refused(e)),
        None => Err(RequestFailed::Dead(DeadSession)),
    }
}

/// How a request is put in the queue.
#[derive(Debug, Clone, Copy, PartialEq, Eq, Structural)]
pub enum Queueing {
    /// Wait for room in the queue.
    Wait,
    /// Displace the oldest request where the queue is full.
    Displace,
}

/// How a request is put in the queue.
pub open spec fn queueing_of(request: SessionRequest) -> Queueing {
    if request is SessionDropped || request is Shutdown {
        Queueing::Displace
    } else {
        Queueing::Wait
    }
}

/// How a request is put in the queue. The two that say the connection is
/// finished must not be lost to a full queue.
pub fn queueing(request: SessionRequest) -> (q: Queueing)
    ensures
        q == (if request is SessionDropped || request is Shutdown {
            Queueing::Displace
        } else {
            Queueing::Wait
        }),
        q == queueing_of(request),
{
    match request {
        SessionRequest::SessionDropped | SessionRequest::Shutdown => Queueing::Displace,
        _ => Queueing::Wait,
    }
}

/// The handles of one session, and what they are told when they go.
#[derive(Debug, Clone, Copy, PartialEq, Eq, Structural)]
pub struct Handles {
    pub held: u64,
}

impl Handles {
    /// Connecting gives one handle.
    pub fn connect() -> (h: Handles)
        ensures
            h.held == 1,
    {
        Handles { held: 1 }
    }

    /// Another handle is taken.
    pub fn cloned(&mut self)
        requires
            0 < old(self).held < u64::MAX,
        ensures
            final(self).held == old(self).held + 1,
    {
        self.held = self.held + 1;
    }

    /// A handle goes. The session is told when the last of them does, and not
    /// before.
    pub fn dropped(&mut self) -> (tell: Option<SessionRequest>)
        requires
            0 < old(self).held,
        ensures
            final(self).held == old(self).held - 1,
            tell == (if final(self).held == 0 {
                Some(SessionRequest::SessionDropped)
            } else {
                None
            }),
    {
        self.held = self.held - 1;
        if self.held == 0 {
            Some(SessionRequest::SessionDropped)
        } else {
            None
        }
    }
}

/// A session that stopped after a request was queued looks like one that
/// stopped before it, whatever it would have answered.
pub proof fn late_death_looks_like_early_death<T>(reply: Option<Result<T, String>>)
    ensures
        settled::<T>(true, None) == settled::<T>(false, reply),
        settled::<T>(true, None) == Err::<T, RequestFailed>(RequestFailed::Dead(DeadSession)),
{
}

/// A request that was queued comes out as the session thread answered it, with
/// what it gave or what it said against it.
pub proof fn replies_are_handed_on<T>(v: T, e: String)
    ensures
        settled::<T>(true, Some(Ok(v))) == Ok::<T, RequestFailed>(v),
        settled::<T>(true, Some(Err(e))) == Err::<T, RequestFailed>(RequestFailed::Refused(e)),
{
}

/// Exactly the two notices that the connection is finished do not wait for room;
/// no request for anything displaces another.
pub proof fn only_closing_requests_displace_others(request: SessionRequest)
    ensures
        queueing_of(SessionRequest::SessionDropped) is Displace,
        queueing_of(SessionRequest::Shutdown) is Displace,
        queueing_of(request) is Displace ==> request == SessionRequest::SessionDropped || request
            == SessionRequest::Shutdown,
{
}

} // verus!
