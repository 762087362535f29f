//! The vocabulary of the claim runtime: messages, engine events and actions, and
//! the effects that the driver asks for.
//!
//! The types are generic in their text. The driver handles them over `String`;
//! contracts speak of them over `Seq<char>`.

use vstd::prelude::*;

use crate::clock::Nanos;
use crate::text::opt_text;

verus! {

/// Why a claim is denied.
#[derive(Clone, Copy, PartialEq, Eq, Debug, Structural)]
pub enum ClaimDeniedReason {
    Unsupported,
    IdentityUnavailable,
    CoordinationDisabled,
}

/// An owner's answer to a claim.
#[derive(Clone, Copy, PartialEq, Eq, Debug, Structural)]
pub enum ClaimVerdict {
    Accepted { eta_ms: u64 },
    NotOwner,
    /// The owner does not give the display away.
    Denied(ClaimDeniedReason),
    /// Any other answer, by its wire tag; the driver only passes it on.
    Other(u64),
}

/// Why a claim came to nothing.
#[derive(Clone, Copy, PartialEq, Eq, Debug, Structural)]
pub enum ClaimFailure {
    Denied(ClaimDeniedReason),
}

/// The result of running a hook slot.
#[derive(Clone, Copy, PartialEq, Eq, Debug, Structural)]
pub enum HookResult {
    Completed,
    Aborted,
}

/// Which way a display changes hands.
#[derive(Clone, Copy, PartialEq, Eq, Debug, Structural)]
pub enum Direction {
    Release,
    Acquire,
}

/// On which side of the hand-over a hook runs.
#[derive(Clone, Copy, PartialEq, Eq, Debug, Structural)]
pub enum Phase {
    Before,
    After,
}

/// A request for a display.
#[derive(PartialEq, Eq, Debug)]
#[verifier::ext_equal]
pub struct ClaimRequest<T> {
    pub display_identity: T,
    pub requester_instance_id: T,
    pub requester_input_code: u16,
    pub counter: u64,
    pub nonce: T,
}

/// A message between instances.
#[derive(PartialEq, Eq, Debug)]
#[verifier::ext_equal]
pub enum ClaimMessage<T> {
    ClaimRequest(ClaimRequest<T>),
    ClaimAbort { nonce: T },
    ClaimAcquireReady { nonce: T, request_nonce: T },
    ReleaseFailed { nonce: T, reason: T },
    ClaimResponse { nonce: T, verdict: ClaimVerdict },
    IdleQuery { display_identity: T, nonce: T },
    IdleReport { idle_ms: u64, counter: u64, nonce: T },
}

/// An event for the owner side of the engine.
#[derive(PartialEq, Eq, Debug)]
#[verifier::ext_equal]
pub enum OwnerEvent<T> {
    AckDelivered,
    AcquireReady,
    BeforeRelease(HookResult),
    AfterReleaseCompleted,
    WriteSucceeded,
    WriteFailed(T),
    WakeCompleted,
    Abort { nonce: T },
    DisplayRemoved,
}

/// An event for the requester side of the engine.
#[derive(PartialEq, Eq, Debug)]
#[verifier::ext_equal]
pub enum RequesterEvent<T> {
    FanoutSent,
    Response { nonce: T, peer_instance_id: T, verdict: ClaimVerdict },
    ReleaseFailed { nonce: T, reason: T },
    AcquireCompleted,
    AcquireFailed { reason: T },
    DisplayRemoved,
}

/// An event for one side of a display's engine.
#[derive(PartialEq, Eq, Debug)]
#[verifier::ext_equal]
pub enum Feed<T> {
    Owner(OwnerEvent<T>),
    Requester(RequesterEvent<T>),
}

/// What the engine asks the driver to do.
#[derive(PartialEq, Eq, Debug)]
#[verifier::ext_equal]
pub enum Action<T> {
    SendAbort,
    AttemptFallback,
    WatchForFlip,
    BroadcastRequest,
    RetryRequest,
    RetryWithEpoch(T),
    RunBeforeRelease,
    SendAcquireReady,
    WriteInput,
    RunAfterRelease { aborted: bool },
    RunBeforeAcquire,
    WakeDisplay,
    SendVerdict(ClaimVerdict),
    SendReleaseFailed,
    EnterDeferred,
    Trace(T),
    Terminal,
    BusyLocal,
}

/// What the driver asks the program to do.
#[derive(PartialEq, Eq, Debug)]
#[verifier::ext_equal]
pub enum Effect<T> {
    /// Record a lifecycle event.
    Record(T),
    /// Append a line to the event log.
    Log(T),
    /// Sign a message for one peer and send it; where it is signed, record `note`.
    Send {
        peer: T,
        peer_epoch: T,
        counter: u64,
        nonce: T,
        message: ClaimMessage<T>,
        note: Option<T>,
    },
    /// Sign a message for every addressable peer and send it.
    Fanout { counter: u64, nonce: T, message: ClaimMessage<T> },
    /// Tell the rules engine how long ownership losses of a display are ours.
    SetSuppression { display: T, until: Option<Nanos> },
    /// Note who owns a display.
    SetOwner { display: T, owner: T },
    /// Answer an idle query.
    AnswerIdle { query: T, idle_ms: u64 },
    /// Run a hook slot of a display; its completion is tagged with `nonce`.
    RunHooks {
        display: T,
        display_identity: T,
        peer: T,
        direction: Direction,
        phase: Phase,
        aborted: bool,
        nonce: T,
    },
    /// Select an input of a display; the completion is tagged with `nonce`.
    WriteInput { display: T, target: u8, nonce: T },
    /// Wake a display; the completion is tagged with `nonce`.
    Wake { display: T, nonce: T },
    /// Try to take a display without its owner.
    Fallback { display: T, target: u8 },
}

/// Whether a display's input can be switched.
#[derive(Clone, Copy, PartialEq, Eq, Debug, Structural)]
pub enum ClaimCapability {
    Writable,
    ObserveOnly,
}

/// How a display stands with this instance.
#[derive(Clone, Copy, PartialEq, Eq, Debug, Structural)]
pub enum OwnerDisposition {
    Ready { standby: bool },
    NotOwner,
    Quiescing,
}

/// A request put to the engine.
#[derive(PartialEq, Eq, Debug)]
#[verifier::ext_equal]
pub struct OwnerRequest<T> {
    pub display: T,
    pub requested_identity: T,
    pub local_identity: Option<T>,
    pub requester_input_code: u16,
    pub local_input_code: u16,
    pub capability: ClaimCapability,
    pub disposition: OwnerDisposition,
    pub eta: Nanos,
}

/// What an inbound frame asks of the engine.
#[derive(PartialEq, Eq, Debug)]
#[verifier::ext_equal]
pub enum InboundCall<T> {
    Nothing,
    /// Begin an owner flight, then dispatch the actions.
    BeginOwner { request: OwnerRequest<T>, nonce: T, release_cap: Nanos },
    /// Feed an event, then dispatch the actions.
    Owner { display: T, event: OwnerEvent<T> },
    /// Feed an event, dispatch the actions, then clear a finished flight.
    Requester { display: T, event: RequesterEvent<T> },
}

impl View for ClaimRequest<String> {
    type V = ClaimRequest<Seq<char>>;

    open spec fn view(&self) -> ClaimRequest<Seq<char>> {
        ClaimRequest {
            display_identity: self.display_identity@,
            requester_instance_id: self.requester_instance_id@,
            requester_input_code: self.requester_input_code,
            counter: self.counter,
            nonce: self.nonce@,
        }
    }
}

impl View for ClaimMessage<String> {
    type V = ClaimMessage<Seq<char>>;

    open spec fn view(&self) -> ClaimMessage<Seq<char>> {
        match *self {
            ClaimMessage::ClaimRequest(r) => ClaimMessage::ClaimRequest(r@),
            ClaimMessage::ClaimAbort { nonce } => ClaimMessage::ClaimAbort { nonce: nonce@ },
            ClaimMessage::ClaimAcquireReady {
                nonce,
                request_nonce,
            } => ClaimMessage::ClaimAcquireReady {
                nonce: nonce@,
                request_nonce: request_nonce@,
            },
            ClaimMessage::ReleaseFailed { nonce, reason } => ClaimMessage::ReleaseFailed {
                nonce: nonce@,
                reason: reason@,
            },
            ClaimMessage::ClaimResponse { nonce, verdict } => ClaimMessage::ClaimResponse {
                nonce: nonce@,
                verdict,
            },
            ClaimMessage::IdleQuery { display_identity, nonce } => ClaimMessage::IdleQuery {
                display_identity: display_identity@,
                nonce: nonce@,
            },
            ClaimMessage::IdleReport { idle_ms, counter, nonce } => ClaimMessage::IdleReport {
                idle_ms,
                counter,
                nonce: nonce@,
            },
        }
    }
}

impl View for OwnerEvent<String> {
    type V = OwnerEvent<Seq<char>>;

    open spec fn view(&self) -> OwnerEvent<Seq<char>> {
        match *self {
            OwnerEvent::AckDelivered => OwnerEvent::AckDelivered,
            OwnerEvent::AcquireReady => OwnerEvent::AcquireReady,
            OwnerEvent::BeforeRelease(r) => OwnerEvent::BeforeRelease(r),
            OwnerEvent::AfterReleaseCompleted => OwnerEvent::AfterReleaseCompleted,
            OwnerEvent::WriteSucceeded => OwnerEvent::WriteSucceeded,
            OwnerEvent::WriteFailed(e) => OwnerEvent::WriteFailed(e@),
            OwnerEvent::WakeCompleted => OwnerEvent::WakeCompleted,
            OwnerEvent::Abort { nonce } => OwnerEvent::Abort { nonce: nonce@ },
            OwnerEvent::DisplayRemoved => OwnerEvent::DisplayRemoved,
        }
    }
}

impl View for RequesterEvent<String> {
    type V = RequesterEvent<Seq<char>>;

    open spec fn view(&self) -> RequesterEvent<Seq<char>> {
        match *self {
            RequesterEvent::FanoutSent => RequesterEvent::FanoutSent,
            RequesterEvent::Response {
                nonce,
                peer_instance_id,
                verdict,
            } => RequesterEvent::Response {
                nonce: nonce@,
                peer_instance_id: peer_instance_id@,
                verdict,
            },
            RequesterEvent::ReleaseFailed { nonce, reason } => RequesterEvent::ReleaseFailed {
                nonce: nonce@,
                reason: reason@,
            },
            RequesterEvent::AcquireCompleted => RequesterEvent::AcquireCompleted,
            RequesterEvent::AcquireFailed { reason } => RequesterEvent::AcquireFailed {
                reason: reason@,
            },
            RequesterEvent::DisplayRemoved => RequesterEvent::DisplayRemoved,
        }
    }
}

impl View for Feed<String> {
    type V = Feed<Seq<char>>;

    open spec fn view(&self) -> Feed<Seq<char>> {
        match *self {
            Feed::Owner(e) => Feed::Owner(e@),
            Feed::Requester(e) => Feed::Requester(e@),
        }
    }
}

impl View for Action<String> {
    type V = Action<Seq<char>>;

    open spec fn view(&self) -> Action<Seq<char>> {
        match *self {
            Action::SendAbort => Action::SendAbort,
            Action::AttemptFallback => Action::AttemptFallback,
            Action::WatchForFlip => Action::WatchForFlip,
            Action::BroadcastRequest => Action::BroadcastRequest,
            Action::RetryRequest => Action::RetryRequest,
            Action::RetryWithEpoch(e) => Action::RetryWithEpoch(e@),
            Action::RunBeforeRelease => Action::RunBeforeRelease,
            Action::SendAcquireReady => Action::SendAcquireReady,
            Action::WriteInput => Action::WriteInput,
            Action::RunAfterRelease { aborted } => Action::RunAfterRelease { aborted },
            Action::RunBeforeAcquire => Action::RunBeforeAcquire,
            Action::WakeDisplay => Action::WakeDisplay,
            Action::SendVerdict(v) => Action::SendVerdict(v),
            Action::SendReleaseFailed => Action::SendReleaseFailed,
            Action::EnterDeferred => Action::EnterDeferred,
            Action::Trace(t) => Action::Trace(t@),
            Action::Terminal => Action::Terminal,
            Action::BusyLocal => Action::BusyLocal,
        }
    }
}

impl View for Effect<String> {
    type V = Effect<Seq<char>>;

    open spec fn view(&self) -> Effect<Seq<char>> {
        match *self {
            Effect::Record(t) => Effect::Record(t@),
            Effect::Log(t) => Effect::Log(t@),
            Effect::Send { peer, peer_epoch, counter, nonce, message, note } => Effect::Send {
                peer: peer@,
                peer_epoch: peer_epoch@,
                counter,
                nonce: nonce@,
                message: message@,
                note: opt_text(note),
            },
            Effect::Fanout { counter, nonce, message } => Effect::Fanout {
                counter,
                nonce: nonce@,
                message: message@,
            },
            Effect::SetSuppression { display, until } => Effect::SetSuppression {
                display: display@,
                until,
            },
            Effect::SetOwner { display, owner } => Effect::SetOwner {
                display: display@,
                owner: owner@,
            },
            Effect::AnswerIdle { query, idle_ms } => Effect::AnswerIdle { query: query@, idle_ms },
            Effect::RunHooks {
                display,
                display_identity,
                peer,
                direction,
                phase,
                aborted,
                nonce,
            } => Effect::RunHooks {
                display: display@,
                display_identity: display_identity@,
                peer: peer@,
                direction,
                phase,
                aborted,
                nonce: nonce@,
            },
            Effect::WriteInput { display, target, nonce } => Effect::WriteInput {
                display: display@,
                target,
                nonce: nonce@,
            },
            Effect::Wake { display, nonce } => Effect::Wake { display: display@, nonce: nonce@ },
            Effect::Fallback { display, target } => Effect::Fallback { display: display@, target },
        }
    }
}

impl View for OwnerRequest<String> {
    type V = OwnerRequest<Seq<char>>;

    open spec fn view(&self) -> OwnerRequest<Seq<char>> {
        OwnerRequest {
            display: self.display@,
            requested_identity: self.requested_identity@,
            local_identity: opt_text(self.local_identity),
            requester_input_code: self.requester_input_code,
            local_input_code: self.local_input_code,
            capability: self.capability,
            disposition: self.disposition,
            eta: self.eta,
        }
    }
}

impl View for InboundCall<String> {
    type V = InboundCall<Seq<char>>;

    open spec fn view(&self) -> InboundCall<Seq<char>> {
        match *self {
            InboundCall::Nothing => InboundCall::Nothing,
            InboundCall::BeginOwner { request, nonce, release_cap } => InboundCall::BeginOwner {
                request: request@,
                nonce: nonce@,
                release_cap,
            },
            InboundCall::Owner { display, event } => InboundCall::Owner {
                display: display@,
                event: event@,
            },
            InboundCall::Requester { display, event } => InboundCall::Requester {
                display: display@,
                event: event@,
            },
        }
    }
}

/// The contents of a list of effects.
pub open spec fn effect_models(v: Seq<Effect<String>>) -> Seq<Effect<Seq<char>>> {
    v.map_values(|e: Effect<String>| e@)
}

/// The contents of a list of actions.
pub open spec fn action_models(v: Seq<Action<String>>) -> Seq<Action<Seq<char>>> {
    v.map_values(|a: Action<String>| a@)
}

/// The contents of an optional engine event.
pub open spec fn feed_model(f: Option<Feed<String>>) -> Option<Feed<Seq<char>>> {
    match f {
        Some(e) => Some(e@),
        None => None,
    }
}

/// Requests are seen with all that they hold.
pub proof fn law_requests_are_seen_whole(r: ClaimRequest<String>, o: OwnerRequest<String>)
    ensures
        r@.display_identity == r.display_identity@,
        r@.requester_instance_id == r.requester_instance_id@,
        r@.requester_input_code == r.requester_input_code && r@.counter == r.counter,
        r@.nonce == r.nonce@,
        o@.display == o.display@ && o@.requested_identity == o.requested_identity@,
        o@.local_identity == opt_text(o.local_identity),
        o@.requester_input_code == o.requester_input_code && o@.local_input_code
            == o.local_input_code,
        o@.capability == o.capability && o@.disposition == o.disposition && o@.eta == o.eta,
{
}

/// Messages are seen as what they are, with every nonce in its place.
pub proof fn law_messages_are_seen_whole(m: ClaimMessage<String>)
    ensures
        m matches ClaimMessage::ClaimRequest(r) ==> m@ == ClaimMessage::ClaimRequest(r@),
        m matches ClaimMessage::ClaimAbort { nonce } ==> m@ == (ClaimMessage::ClaimAbort {
            nonce: nonce@,
        }),
        m matches ClaimMessage::ClaimAcquireReady { nonce, request_nonce } ==> m@ == (
        ClaimMessage::ClaimAcquireReady { nonce: nonce@, request_nonce: request_nonce@ }),
        m matches ClaimMessage::ReleaseFailed { nonce, reason } ==> m@ == (
        ClaimMessage::ReleaseFailed { nonce: nonce@, reason: reason@ }),
        m matches ClaimMessage::ClaimResponse { nonce, verdict } ==> m@ == (
        ClaimMessage::ClaimResponse { nonce: nonce@, verdict }),
        m matches ClaimMessage::IdleQuery { display_identity, nonce } ==> m@ == (
        ClaimMessage::IdleQuery { display_identity: display_identity@, nonce: nonce@ }),
        m matches ClaimMessage::IdleReport { idle_ms, counter, nonce } ==> m@ == (
        ClaimMessage::IdleReport { idle_ms, counter, nonce: nonce@ }),
{
}

/// Effects are seen as what they are, with every name in its place.
pub proof fn law_effects_are_seen_whole(e: Effect<String>)
    ensures
        e matches Effect::Record(t) ==> e@ == Effect::Record(t@),
        e matches Effect::Log(t) ==> e@ == Effect::Log(t@),
        e matches Effect::Send { peer, peer_epoch, counter, nonce, message, note } ==> e@ == (
        Effect::Send {
            peer: peer@,
            peer_epoch: peer_epoch@,
            counter,
            nonce: nonce@,
            message: message@,
            note: opt_text(note),
        }),
        e matches Effect::Fanout { counter, nonce, message } ==> e@ == (Effect::Fanout {
            counter,
            nonce: nonce@,
            message: message@,
        }),
        e matches Effect::SetOwner { display, owner } ==> e@ == (Effect::SetOwner {
            display: display@,
            owner: owner@,
        }),
        e matches Effect::RunHooks {
            display,
            display_identity,
            peer,
            direction,
            phase,
            aborted,
            nonce,
        } ==> e@ == (Effect::RunHooks {
            display: display@,
            display_identity: display_identity@,
            peer: peer@,
            direction,
            phase,
            aborted,
            nonce: nonce@,
        }),
        e matches Effect::WriteInput { display, target, nonce } ==> e@ == (Effect::WriteInput {
            display: display@,
            target,
            nonce: nonce@,
        }),
        e matches Effect::Fallback { display, target } ==> e@ == (Effect::Fallback {
            display: display@,
            target,
        }),
        e matches Effect::Wake { display, nonce } ==> e@ == (Effect::Wake {
            display: display@,
            nonce: nonce@,
        }),
        e matches Effect::AnswerIdle { query, idle_ms } ==> e@ == (Effect::AnswerIdle {
            query: query@,
            idle_ms,
        }),
        e matches Effect::SetSuppression { display, until } ==> e@ == (Effect::SetSuppression {
            display: display@,
            until,
        }),
{
}

/// Lists of effects and of actions are seen one for one, and a feed as what it is.
pub proof fn law_effects_are_seen_one_for_one(
    effects: Seq<Effect<String>>,
    actions: Seq<Action<String>>,
    i: int,
    feed: Option<Feed<String>>,
)
    ensures
        effect_models(effects).len() == effects.len(),
        0 <= i < effects.len() ==> effect_models(effects)[i] == effects[i]@,
        action_models(actions).len() == actions.len(),
        0 <= i < actions.len() ==> action_models(actions)[i] == actions[i]@,
        feed is None <==> feed_model(feed) is None,
        feed matches Some(Feed::Owner(e)) ==> feed_model(feed) == Some(Feed::Owner(e@)),
        feed matches Some(Feed::Requester(e)) ==> feed_model(feed) == Some(Feed::Requester(e@)),
{
}

} // verus!
