//! The claim runtime: how instances hand a shared display to one another.
//!
//! A separate engine per display holds the protocol's state machine. The driver
//! here routes: it turns triggers, inbound frames and completions into engine
//! events, and the engine's actions into effects for the program to perform.

use std::collections::VecDeque;

use vstd::prelude::*;
use vstd::string::StringExecFns;

use crate::claim_probe::FallbackOutcome;
use crate::claim_types;
use crate::claim_types::{
    Action, ClaimCapability, ClaimDeniedReason, ClaimFailure, ClaimMessage, ClaimRequest,
    ClaimVerdict, Direction, Effect, Feed, HookResult, InboundCall, OwnerDisposition, OwnerEvent,
    OwnerRequest, Phase, RequesterEvent,
};
use crate::clock;
use crate::clock::{after, Nanos};
use crate::coordination_claim::FanoutResult;
use crate::seqs;
use crate::tables::TextMap;
use crate::text;
use crate::text::{copy_texts, holds_text, push_decimal, same_text};

verus! {

/// How often deadlines are swept: a tenth of a second.
pub const DEADLINE_SWEEP_PERIOD: u128 = 100_000_000;

/// The poll interval of an engine that is made for a flight: two seconds.
pub const FLIGHT_POLL_INTERVAL: u128 = 2_000_000_000;

/// The release cap of a fresh handle: forty-five seconds.
pub const DEFAULT_RELEASE_CAP: u128 = 45_000_000_000;

/// The input code that a panel in standby reports.
pub const MAGIC_STANDBY: u8 = 0;

/// Nonces that are remembered.
pub const NONCE_RING: usize = 64;

/// The names of the claim lifecycle events.
pub const CLAIM_EVENTS: [&'static str; 13] = [
    "claim_requested",
    "claim_accepted",
    "claim_denied",
    "claim_busy",
    "claim_not_owner",
    "claim_release_aborted",
    "claim_release_failed",
    "claim_fallback_direct",
    "claim_failed",
    "claim_completed",
    "claim_acquire_failed",
    "claim_acquire_ready",
    "claim_acquire_wait_expired",
];

// ── small types ──────────────────────────────────────────────────────────

/// Outcome of an input-source writability probe.
#[derive(Clone, Copy, PartialEq, Eq, Debug, Structural)]
pub enum InputWritability {
    /// The input was read and written.
    Capable,
    /// The controller said that it cannot write inputs.
    Incapable,
    /// The probe could not tell.
    Unknown,
}

impl InputWritability {
    /// Whether claims should be attempted.
    pub fn is_not_incapable(self) -> (res: bool)
        ensures
            res == (self != InputWritability::Incapable),
    {
        match self {
            InputWritability::Incapable => false,
            _ => true,
        }
    }
}

/// A message published by a hook.
#[derive(PartialEq, Eq, Debug)]
pub struct MqttHook {
    pub topic: String,
    pub payload: String,
}

/// One hook.
#[derive(PartialEq, Eq, Debug)]
pub struct HookAction {
    pub command: Option<Vec<String>>,
    pub mqtt: Option<MqttHook>,
    /// How long it may take, in nanoseconds.
    pub timeout: u64,
    /// Whether the hand-over waits for it; the phase decides where unset.
    pub blocking: Option<bool>,
    pub abort_on_failure: bool,
}

/// The hooks of a display.
#[derive(PartialEq, Eq, Debug)]
pub struct HookSlots {
    pub before_release: Vec<HookAction>,
    pub after_release: Vec<HookAction>,
    pub before_acquire: Vec<HookAction>,
    pub after_acquire: Vec<HookAction>,
}

impl HookSlots {
    /// The hooks for a direction and phase.
    pub open spec fn slot(&self, direction: Direction, phase: Phase) -> Seq<HookAction> {
        match (direction, phase) {
            (Direction::Release, Phase::Before) => self.before_release@,
            (Direction::Release, Phase::After) => self.after_release@,
            (Direction::Acquire, Phase::Before) => self.before_acquire@,
            (Direction::Acquire, Phase::After) => self.after_acquire@,
        }
    }

    /// The hooks for a direction and phase.
    pub fn slot_for(&self, direction: Direction, phase: Phase) -> (res: &Vec<HookAction>)
        ensures
            res@ == self.slot(direction, phase),
    {
        match (direction, phase) {
            (Direction::Release, Phase::Before) => &self.before_release,
            (Direction::Release, Phase::After) => &self.after_release,
            (Direction::Acquire, Phase::Before) => &self.before_acquire,
            (Direction::Acquire, Phase::After) => &self.after_acquire,
        }
    }
}

/// Whether the hand-over waits for a hook that runs before it.
pub open spec fn blocks_before(h: HookAction) -> bool {
    match h.blocking {
        Some(b) => b,
        None => true,
    }
}

/// The time that the blocking hooks of a list may take together.
pub open spec fn blocking_time(hooks: Seq<HookAction>) -> nat
    decreases hooks.len(),
{
    if hooks.len() == 0 {
        0
    } else {
        blocking_time(hooks.drop_last()) + (if blocks_before(hooks.last()) {
            hooks.last().timeout as nat
        } else {
            0
        })
    }
}

/// The time that the blocking hooks before a release may take together.
pub fn sum_blocking_before_release(hooks: &HookSlots) -> (total: Nanos)
    ensures
        total == blocking_time(hooks.before_release@),
{
    let ghost all = hooks.before_release@;
    let mut total: u128 = 0;
    let mut i: usize = 0;
    assert(all.take(0) =~= Seq::<HookAction>::empty());
    while i < hooks.before_release.len()
        invariant
            i <= hooks.before_release@.len(),
            all == hooks.before_release@,
            total == blocking_time(all.take(i as int)),
            total <= i * u64::MAX,
        decreases hooks.before_release@.len() - i,
    {
        let h = &hooks.before_release[i];
        proof {
            assert(all.take(i + 1).drop_last() =~= all.take(i as int));
            assert(all.take(i + 1).last() == *h);
            assert((i + 1) * u64::MAX == i * u64::MAX + u64::MAX) by (nonlinear_arith);
            assert((i + 1) * u64::MAX <= 0x1_0000_0000_0000_0000 * u64::MAX) by (nonlinear_arith)
                requires
                    i + 1 <= 0x1_0000_0000_0000_0000,
            ;
        }
        let blocking = match h.blocking {
            Some(b) => b,
            None => true,
        };
        if blocking {
            total = total + h.timeout as u128;
        }
        i = i + 1;
    }
    assert(all.take(i as int) =~= all);
    total
}

/// What a display's generation knows of it.
#[verifier::ext_equal]
#[derive(PartialEq, Eq, Debug)]
pub struct DisplayCtx<T> {
    /// The input code that this instance reads while it owns the display.
    pub local_input_code: Option<u8>,
    /// The input code to write, where it differs from the one read.
    pub local_input_write_code: Option<u8>,
    /// The display's identity across instances.
    pub claim_identity: Option<T>,
    /// Whether its input can be switched, as far as is known.
    pub writable: bool,
    pub hooks: HookSlots,
}

impl View for DisplayCtx<String> {
    type V = DisplayCtx<Seq<char>>;

    open spec fn view(&self) -> DisplayCtx<Seq<char>> {
        DisplayCtx {
            local_input_code: self.local_input_code,
            local_input_write_code: self.local_input_write_code,
            claim_identity: text::opt_text(self.claim_identity),
            writable: self.writable,
            hooks: self.hooks,
        }
    }
}

impl<T> DisplayCtx<T> {
    /// The code to write to select this instance's input.
    pub open spec fn write_code(&self) -> Option<u8> {
        match self.local_input_write_code {
            Some(c) => Some(c),
            None => self.local_input_code,
        }
    }

    /// The code to write to select this instance's input: the write override, or
    /// else the code that is read.
    pub fn effective_write_code(&self) -> (res: Option<u8>)
        ensures
            res == self.write_code(),
    {
        match self.local_input_write_code {
            Some(c) => Some(c),
            None => self.local_input_code,
        }
    }

    /// Whether the display can be claimed or armed. One whose input code is not
    /// known takes part in no claim.
    pub open spec fn claimable(&self) -> bool {
        self.writable && self.local_input_code is Some && self.claim_identity is Some
    }
}

/// A claim in flight on a display.
#[verifier::ext_equal]
#[derive(PartialEq, Eq, Debug)]
pub struct ActiveFlight<T> {
    /// The request's nonce.
    pub nonce: T,
    /// The other side; empty while a requester has heard from nobody.
    pub peer_instance_id: T,
    /// The epoch authenticated in the other side's frame.
    pub peer_epoch: T,
    /// The input code to write.
    pub write_code: u8,
}

impl View for ActiveFlight<String> {
    type V = ActiveFlight<Seq<char>>;

    open spec fn view(&self) -> ActiveFlight<Seq<char>> {
        ActiveFlight {
            nonce: self.nonce@,
            peer_instance_id: self.peer_instance_id@,
            peer_epoch: self.peer_epoch@,
            write_code: self.write_code,
        }
    }
}

/// The number of peers that a fanout reached, if any.
pub fn negotiated_peer_count(result: FanoutResult) -> (res: Option<usize>)
    ensures
        res == (if result.contacted > 0 {
            Some(result.contacted)
        } else {
            None
        }),
{
    if result.contacted > 0 {
        Some(result.contacted)
    } else {
        None
    }
}

// ── the handle ───────────────────────────────────────────────────────────

/// When activity on this instance claims a display.
#[derive(Clone, Copy, PartialEq, Eq, Debug, Structural)]
pub enum ActivityClaimPolicy {
    Off,
    Armed,
    OwnerIdle,
}

/// Why a display is not armed.
#[derive(Clone, Copy, PartialEq, Eq, Debug, Structural)]
pub enum ArmFailure {
    CoordinationDisabled,
    /// The activity policy is not to arm.
    NotArmed,
    /// The display cannot be claimed.
    NotClaimCapable,
}

/// The key bindings that claim displays: pairs of a key and a display.
#[derive(PartialEq, Eq, Debug)]
pub struct KeymapConfig {
    pub bindings: Vec<(String, String)>,
}

/// The pairs of a keymap.
pub open spec fn keymap_model(k: KeymapConfig) -> Seq<(Seq<char>, Seq<char>)> {
    k.bindings@.map_values(|b: (String, String)| (b.0@, b.1@))
}

impl KeymapConfig {
    /// A copy with the same pairs.
    pub fn copy(&self) -> (res: Self)
        ensures
            keymap_model(res) == keymap_model(*self),
    {
        let mut bindings: Vec<(String, String)> = Vec::new();
        let mut i: usize = 0;
        while i < self.bindings.len()
            invariant
                i <= self.bindings@.len(),
                bindings@.len() == i,
                forall|j: int|
                    0 <= j < i ==> (#[trigger] bindings@[j]).0@ == self.bindings@[j].0@
                        && bindings@[j].1@ == self.bindings@[j].1@,
            decreases self.bindings@.len() - i,
        {
            bindings.push((self.bindings[i].0.clone(), self.bindings[i].1.clone()));
            i = i + 1;
        }
        let res = KeymapConfig { bindings };
        assert(keymap_model(res) =~= keymap_model(*self));
        res
    }
}

/// What the rest of the daemon asks of the claim runtime.
pub struct ClaimRuntimeHandle {
    /// Until when displays are armed.
    pub armed: TextMap<Nanos>,
    /// Until when ownership losses of displays are our own doing.
    pub suppressed: TextMap<Nanos>,
    pub claim_capable: Vec<String>,
    pub keymap: KeymapConfig,
    pub activity_claim: ActivityClaimPolicy,
    pub release_deadline_cap: Nanos,
}

/// The mathematical content of a [`ClaimRuntimeHandle`].
#[verifier::ext_equal]
pub struct HandleModel {
    pub armed: Map<Seq<char>, Nanos>,
    pub suppressed: Map<Seq<char>, Nanos>,
    pub claim_capable: Seq<Seq<char>>,
    pub keymap: Seq<(Seq<char>, Seq<char>)>,
    pub activity_claim: ActivityClaimPolicy,
    pub release_deadline_cap: Nanos,
}

impl View for ClaimRuntimeHandle {
    type V = HandleModel;

    open spec fn view(&self) -> HandleModel {
        HandleModel {
            armed: self.armed@,
            suppressed: self.suppressed@,
            claim_capable: text::texts(self.claim_capable@),
            keymap: keymap_model(self.keymap),
            activity_claim: self.activity_claim,
            release_deadline_cap: self.release_deadline_cap,
        }
    }
}

/// What a user interface shows of the claim runtime.
pub struct KvmStatus {
    pub keymap: KeymapConfig,
    pub claim_capable_displays: Vec<String>,
    pub activity_claim: ActivityClaimPolicy,
    /// The displays that are armed, and for how many milliseconds yet.
    pub claim_armed_remaining: Vec<(String, u64)>,
}

/// A deadline that lies ahead, in whole milliseconds from `now`.
pub open spec fn remaining_ms(now: Nanos, deadline: Nanos) -> u64 {
    let ms = (deadline - now) / (clock::NANOS_PER_MILLI as int);
    if ms <= u64::MAX {
        ms as u64
    } else {
        u64::MAX
    }
}

/// What the status says of an armed entry; nothing once it has expired.
pub open spec fn armed_row(now: Nanos) -> spec_fn((Seq<char>, Nanos)) -> Option<(Seq<char>, u64)> {
    |e: (Seq<char>, Nanos)|
        if now < e.1 {
            Some((e.0, remaining_ms(now, e.1)))
        } else {
            None
        }
}

/// The rows of a status.
pub open spec fn row_models(v: Seq<(String, u64)>) -> Seq<(Seq<char>, u64)> {
    v.map_values(|r: (String, u64)| (r.0@, r.1))
}

impl ClaimRuntimeHandle {
    /// A handle with nothing armed, suppressed or bound.
    pub fn new(activity_claim: ActivityClaimPolicy) -> (res: Self)
        ensures
            res@ == (HandleModel {
                armed: Map::empty(),
                suppressed: Map::empty(),
                claim_capable: Seq::empty(),
                keymap: Seq::empty(),
                activity_claim,
                release_deadline_cap: DEFAULT_RELEASE_CAP,
            }),
    {
        let res = ClaimRuntimeHandle {
            armed: TextMap::new(),
            suppressed: TextMap::new(),
            claim_capable: Vec::new(),
            keymap: KeymapConfig { bindings: Vec::new() },
            activity_claim,
            release_deadline_cap: DEFAULT_RELEASE_CAP,
        };
        assert(res@.claim_capable =~= Seq::<Seq<char>>::empty());
        assert(res@.keymap =~= Seq::<(Seq<char>, Seq<char>)>::empty());
        res
    }

    /// Whether a request to arm is put to the driver at all.
    pub fn arm(policy: ActivityClaimPolicy) -> (res: Result<(), ArmFailure>)
        ensures
            res == (if policy == ActivityClaimPolicy::Armed {
                Ok::<(), ArmFailure>(())
            } else {
                Err(ArmFailure::NotArmed)
            }),
    {
        match policy {
            ActivityClaimPolicy::Armed => Ok(()),
            _ => Err(ArmFailure::NotArmed),
        }
    }

    /// Whether an ownership loss of a display is our own doing.
    pub fn is_suppressed(&self, display: &str, now: Nanos) -> (res: bool)
        ensures
            res == (self.suppressed@.contains_key(display@) && now < self.suppressed@[display@]),
    {
        match self.suppressed.get(display) {
            Some(deadline) => now < *deadline,
            None => false,
        }
    }

    /// Whether a display is armed.
    pub fn is_armed(&self, display: &str, now: Nanos) -> (res: bool)
        ensures
            res == (self.armed@.contains_key(display@) && now < self.armed@[display@]),
    {
        self.armed_deadline(display, now).is_some()
    }

    /// Until when a display is armed; nothing where it is not, or no longer is.
    pub fn armed_deadline(&self, display: &str, now: Nanos) -> (res: Option<Nanos>)
        ensures
            res == (if self.armed@.contains_key(display@) && now < self.armed@[display@] {
                Some(self.armed@[display@])
            } else {
                None
            }),
    {
        match self.armed.get(display) {
            Some(deadline) => if now < *deadline {
                Some(*deadline)
            } else {
                None
            },
            None => None,
        }
    }

    /// What a user interface shows.
    pub fn kvm_status(&self, now: Nanos) -> (status: KvmStatus)
        ensures
            keymap_model(status.keymap) == self@.keymap,
            text::texts(status.claim_capable_displays@) == self@.claim_capable,
            status.activity_claim == self.activity_claim,
            row_models(status.claim_armed_remaining@) == self.armed.pairs().filter_map(
                armed_row(now),
            ),
    {
        let mut rows: Vec<(String, u64)> = Vec::new();
        let n: usize = self.armed.len();
        let ghost pairs = self.armed.pairs();
        let ghost f = armed_row(now);
        let mut i: usize = 0;
        assert(pairs.take(0) =~= Seq::<(Seq<char>, Nanos)>::empty());
        assert(row_models(rows@) =~= Seq::<(Seq<char>, u64)>::empty());
        while i < n
            invariant
                i <= n,
                n == pairs.len(),
                pairs == self.armed.pairs(),
                f == armed_row(now),
                row_models(rows@) == pairs.take(i as int).filter_map(f),
            decreases n - i,
        {
            let ghost before = rows@;
            let deadline: Nanos = *self.armed.value_at(i);
            proof {
                seqs::lemma_filter_map_step(pairs, i as int, f);
            }
            if now < deadline {
                let ms: u128 = (deadline - now) / clock::NANOS_PER_MILLI;
                let shown: u64 = if ms <= u64::MAX as u128 {
                    ms as u64
                } else {
                    u64::MAX
                };
                rows.push((self.armed.key_at(i).clone(), shown));
                assert(row_models(rows@) =~= row_models(before).push(
                    (pairs[i as int].0, remaining_ms(now, deadline)),
                ));
            }
            i = i + 1;
        }
        proof {
            seqs::lemma_take_all(pairs);
        }
        KvmStatus {
            keymap: self.keymap.copy(),
            claim_capable_displays: copy_texts(&self.claim_capable),
            activity_claim: self.activity_claim,
            claim_armed_remaining: rows,
        }
    }

    /// Take up what a new generation has resolved.
    pub fn refresh_status(
        &mut self,
        claim_capable: Vec<String>,
        keymap: KeymapConfig,
        activity_claim: ActivityClaimPolicy,
        release_deadline_cap: Nanos,
    )
        ensures
            final(self)@ == (HandleModel {
                armed: old(self)@.armed,
                suppressed: old(self)@.suppressed,
                claim_capable: text::texts(claim_capable@),
                keymap: keymap_model(keymap),
                activity_claim,
                release_deadline_cap,
            }),
    {
        self.claim_capable = claim_capable;
        self.keymap = keymap;
        self.activity_claim = activity_claim;
        self.release_deadline_cap = release_deadline_cap;
    }

    /// Drop the displays whose time is up.
    pub fn auto_disarm_expired(&mut self, now: Nanos)
        ensures
            final(self)@ == (HandleModel { armed: unexpired(old(self)@.armed, now), ..old(self)@ }),
    {
        let mut kept: TextMap<Nanos> = TextMap::new();
        let n: usize = self.armed.len();
        let ghost pairs = self.armed.pairs();
        let mut i: usize = 0;
        proof {
            assert(pairs.take(0) =~= Seq::<(Seq<char>, Nanos)>::empty());
            assert(unexpired(Map::<Seq<char>, Nanos>::empty(), now) =~= Map::<
                Seq<char>,
                Nanos,
            >::empty());
        }
        while i < n
            invariant
                i <= n,
                n == pairs.len(),
                pairs == self.armed.pairs(),
                seqs::keys_distinct(pairs),
                kept@ == unexpired(seqs::assoc(pairs.take(i as int)), now),
            decreases n - i,
        {
            let deadline: Nanos = *self.armed.value_at(i);
            let ghost shorter = seqs::assoc(pairs.take(i as int));
            let ghost longer = seqs::assoc(pairs.take(i + 1));
            let ghost k = pairs[i as int].0;
            proof {
                assert(pairs.take(i + 1).drop_last() =~= pairs.take(i as int));
                assert(longer == shorter.insert(k, deadline));
                let front = pairs.take(i as int);
                assert(seqs::keys_distinct(front)) by {
                    assert forall|a: int, b: int| 0 <= a < b < front.len() implies (
                    #[trigger] front[a]).0 != (#[trigger] front[b]).0 by {
                        assert(front[a] == pairs[a] && front[b] == pairs[b]);
                    }
                }
                seqs::lemma_assoc(front);
                if shorter.contains_key(k) {
                    let a = choose|a: int| 0 <= a < front.len() && (#[trigger] front[a]).0 == k;
                    assert(front[a] == pairs[a]);
                }
            }
            if now < deadline {
                kept.insert(self.armed.key_at(i).clone(), deadline);
                assert(unexpired(longer, now) =~= unexpired(shorter, now).insert(k, deadline));
            } else {
                assert(unexpired(longer, now) =~= unexpired(shorter, now));
            }
            i = i + 1;
        }
        proof {
            seqs::lemma_take_all(pairs);
        }
        self.armed = kept;
    }
}

/// The deadlines that lie ahead.
pub open spec fn unexpired(deadlines: Map<Seq<char>, Nanos>, now: Nanos) -> Map<Seq<char>, Nanos> {
    Map::new(
        |d: Seq<char>| deadlines.contains_key(d) && now < deadlines[d],
        |d: Seq<char>| deadlines[d],
    )
}

// ── the driver ───────────────────────────────────────────────────────────

/// The times that the configuration sets.
#[derive(Clone, Copy, PartialEq, Eq, Debug, Structural)]
pub struct CoordinationTimes {
    pub poll_interval: Nanos,
    pub release_deadline_cap: Nanos,
    pub claim_timeout: Nanos,
    pub armed_window: Nanos,
}

/// The driver's state.
pub struct Driver {
    pub handle: ClaimRuntimeHandle,
    pub contexts: TextMap<DisplayCtx<String>>,
    pub flights: TextMap<ActiveFlight<String>>,
    /// The display that each unanswered idle query is about, by nonce.
    pub pending_idle: TextMap<String>,
    pub local_instance_id: String,
    pub outbound_counter: u64,
    pub outbound_nonces: VecDeque<String>,
    pub times: CoordinationTimes,
}

/// The mathematical content of a [`Driver`].
#[verifier::ext_equal]
pub struct DriverModel {
    pub handle: HandleModel,
    pub contexts: Map<Seq<char>, DisplayCtx<Seq<char>>>,
    pub flights: Map<Seq<char>, ActiveFlight<Seq<char>>>,
    pub pending_idle: Map<Seq<char>, Seq<char>>,
    pub local_instance_id: Seq<char>,
    pub counter: u64,
    pub nonces: Seq<Seq<char>>,
    pub times: CoordinationTimes,
}

impl View for Driver {
    type V = DriverModel;

    open spec fn view(&self) -> DriverModel {
        DriverModel {
            handle: self.handle@,
            contexts: self.contexts@,
            flights: self.flights@,
            pending_idle: self.pending_idle@,
            local_instance_id: self.local_instance_id@,
            counter: self.outbound_counter,
            nonces: text::texts(self.outbound_nonces@),
            times: self.times,
        }
    }
}

/// What the program knows when an action is executed.
#[derive(Clone, Copy, PartialEq, Eq, Debug, Structural)]
pub struct ActionEnv {
    /// Whether the display has an executor.
    pub has_executor: bool,
    /// Whether the display's engine has a requester flight.
    pub requester_active: bool,
}

/// What an action leads to.
pub struct ActionStep {
    pub effects: Vec<Effect<String>>,
    /// The event to feed the engine next; its actions join the queue.
    pub feed: Option<Feed<String>>,
}

/// The effects and engine event of one step, and the state it leaves.
pub struct StepModel {
    pub state: DriverModel,
    pub effects: Seq<Effect<Seq<char>>>,
    pub feed: Option<Feed<Seq<char>>>,
}

/// The next outbound counter.
pub open spec fn counter_after(c: u64) -> u64 {
    if c < u64::MAX {
        (c + 1) as u64
    } else {
        c
    }
}

/// A state with the next outbound counter.
pub open spec fn counted(m: DriverModel) -> DriverModel {
    DriverModel { counter: counter_after(m.counter), ..m }
}

/// The nonce made at a point in time.
pub open spec fn nonce_text(epoch_nanos: u128, counter: u64) -> Seq<char> {
    "req-"@ + text::decimal(epoch_nanos as nat) + "-"@ + text::decimal(counter as nat)
}

/// The remembered nonces with one more.
pub open spec fn ring_with(nonces: Seq<Seq<char>>, n: Seq<char>) -> Seq<Seq<char>> {
    if nonces.len() + 1 > NONCE_RING {
        nonces.push(n).skip(1)
    } else {
        nonces.push(n)
    }
}

/// A state with one more nonce.
pub open spec fn nonced(m: DriverModel, epoch_nanos: u128) -> DriverModel {
    DriverModel { nonces: ring_with(m.nonces, nonce_text(epoch_nanos, m.counter)), ..m }
}

/// The nonce of a display's flight, empty where it has none.
pub open spec fn flight_nonce(m: DriverModel, d: Seq<char>) -> Seq<char> {
    if m.flights.contains_key(d) {
        m.flights[d].nonce
    } else {
        Seq::empty()
    }
}

/// The flight of a display that has heard from its other side.
pub open spec fn addressed_flight(m: DriverModel, d: Seq<char>) -> Option<ActiveFlight<Seq<char>>> {
    if m.flights.contains_key(d) && m.flights[d].peer_instance_id.len() > 0
        && m.flights[d].peer_epoch.len() > 0 {
        Some(m.flights[d])
    } else {
        None
    }
}

/// The code to write to select this instance's input on a display.
pub open spec fn display_code(m: DriverModel, d: Seq<char>) -> Option<u8> {
    if m.contexts.contains_key(d) {
        m.contexts[d].write_code()
    } else {
        None
    }
}

/// The request for a display under a nonce, if one can be made.
pub open spec fn claim_request(m: DriverModel, d: Seq<char>, nonce: Seq<char>) -> Option<
    ClaimRequest<Seq<char>>,
> {
    if m.contexts.contains_key(d) && m.contexts[d].local_input_code is Some
        && m.contexts[d].claim_identity is Some {
        Some(
            ClaimRequest {
                display_identity: m.contexts[d].claim_identity->0,
                requester_instance_id: m.local_instance_id,
                requester_input_code: m.contexts[d].write_code()->0 as u16,
                counter: m.counter,
                nonce,
            },
        )
    } else {
        None
    }
}

/// A reply to the other side of a flight, sent under the next counter.
pub open spec fn reply(
    m: DriverModel,
    f: ActiveFlight<Seq<char>>,
    nonce: Seq<char>,
    message: ClaimMessage<Seq<char>>,
) -> Effect<Seq<char>> {
    Effect::Send {
        peer: f.peer_instance_id,
        peer_epoch: f.peer_epoch,
        counter: counter_after(m.counter),
        nonce,
        message,
        note: None,
    }
}

/// A step that does nothing.
pub open spec fn idle_step(m: DriverModel) -> StepModel {
    StepModel { state: m, effects: Seq::empty(), feed: None }
}

/// A step with one effect.
pub open spec fn effect_step(m: DriverModel, e: Effect<Seq<char>>) -> StepModel {
    StepModel { state: m, effects: seq![e], feed: None }
}

/// A step that goes straight on to the engine.
pub open spec fn feed_step(m: DriverModel, f: Feed<Seq<char>>) -> StepModel {
    StepModel { state: m, effects: Seq::empty(), feed: Some(f) }
}

/// The engine event that follows a hook slot that completed.
pub open spec fn after_slot(direction: Direction, phase: Phase, env: ActionEnv) -> Feed<Seq<char>> {
    if direction == Direction::Acquire && env.requester_active {
        Feed::Requester(RequesterEvent::AcquireCompleted)
    } else {
        match phase {
            Phase::Before => Feed::Owner(OwnerEvent::BeforeRelease(HookResult::Completed)),
            Phase::After => Feed::Owner(OwnerEvent::AfterReleaseCompleted),
        }
    }
}

/// Running a hook slot; an empty one completes at once.
pub open spec fn hook_step(
    m: DriverModel,
    d: Seq<char>,
    direction: Direction,
    phase: Phase,
    aborted: bool,
    env: ActionEnv,
) -> StepModel {
    if m.contexts.contains_key(d) && m.contexts[d].hooks.slot(direction, phase).len() > 0 {
        effect_step(
            m,
            Effect::RunHooks {
                display: d,
                display_identity: match m.contexts[d].claim_identity {
                    Some(i) => i,
                    None => Seq::empty(),
                },
                peer: if m.flights.contains_key(d) {
                    m.flights[d].peer_instance_id
                } else {
                    Seq::empty()
                },
                direction,
                phase,
                aborted,
                nonce: flight_nonce(m, d),
            },
        )
    } else {
        feed_step(m, after_slot(direction, phase, env))
    }
}

/// What an action leads to.
pub open spec fn action_step(
    m: DriverModel,
    d: Seq<char>,
    action: Action<Seq<char>>,
    env: ActionEnv,
) -> StepModel {
    match action {
        Action::SendAbort => match addressed_flight(m, d) {
            Some(f) => effect_step(
                counted(m),
                reply(
                    m,
                    f,
                    "abort-"@ + f.nonce,
                    ClaimMessage::ClaimAbort { nonce: f.nonce },
                ),
            ),
            None => idle_step(counted(m)),
        },
        Action::AttemptFallback => match display_code(m, d) {
            Some(target) if env.has_executor => StepModel {
                state: m,
                effects: seq![
                    Effect::Record("claim_fallback_direct"@),
                    Effect::Fallback { display: d, target },
                ],
                feed: None,
            },
            _ => StepModel {
                state: m,
                effects: seq![
                    Effect::Record("claim_failed"@),
                    Effect::Log("claim_failed:"@ + d),
                    Effect::Log("reason:Denied(Unsupported)"@),
                ],
                feed: None,
            },
        },
        Action::BroadcastRequest | Action::RetryRequest | Action::RetryWithEpoch(_) =>
            match claim_request(m, d, flight_nonce(m, d)) {
            Some(r) => effect_step(
                m,
                Effect::Fanout {
                    counter: m.counter,
                    nonce: flight_nonce(m, d),
                    message: ClaimMessage::ClaimRequest(r),
                },
            ),
            None => idle_step(m),
        },
        Action::RunBeforeRelease => hook_step(m, d, Direction::Release, Phase::Before, false, env),
        Action::RunAfterRelease { aborted } => hook_step(
            m,
            d,
            Direction::Release,
            Phase::After,
            aborted,
            env,
        ),
        Action::RunBeforeAcquire => hook_step(m, d, Direction::Acquire, Phase::Before, false, env),
        Action::SendAcquireReady => match addressed_flight(m, d) {
            Some(f) => effect_step(
                counted(m),
                reply(
                    m,
                    f,
                    "acq-"@ + f.nonce,
                    ClaimMessage::ClaimAcquireReady {
                        nonce: "acq-"@ + f.nonce,
                        request_nonce: f.nonce,
                    },
                ),
            ),
            None => idle_step(m),
        },
        Action::WriteInput => match display_code(m, d) {
            Some(local) if env.has_executor => effect_step(
                m,
                Effect::WriteInput {
                    display: d,
                    target: if m.flights.contains_key(d) {
                        m.flights[d].write_code
                    } else {
                        local
                    },
                    nonce: flight_nonce(m, d),
                },
            ),
            _ => feed_step(
                m,
                Feed::Owner(OwnerEvent::WriteFailed("E_DISPLAY_IO: no executor"@)),
            ),
        },
        Action::WakeDisplay => if env.has_executor {
            effect_step(m, Effect::Wake { display: d, nonce: flight_nonce(m, d) })
        } else {
            feed_step(m, Feed::Owner(OwnerEvent::WakeCompleted))
        },
        Action::SendVerdict(verdict) => match addressed_flight(m, d) {
            Some(f) => StepModel {
                state: counted(m),
                effects: seq![
                    reply(
                        m,
                        f,
                        "resp-"@ + f.nonce,
                        ClaimMessage::ClaimResponse { nonce: f.nonce, verdict },
                    ),
                ],
                feed: Some(Feed::Owner(OwnerEvent::AckDelivered)),
            },
            None => feed_step(m, Feed::Owner(OwnerEvent::AckDelivered)),
        },
        Action::SendReleaseFailed => match addressed_flight(m, d) {
            Some(f) => effect_step(
                counted(m),
                reply(
                    m,
                    f,
                    "relfail-"@ + f.nonce,
                    ClaimMessage::ReleaseFailed { nonce: f.nonce, reason: "write failed"@ },
                ),
            ),
            None => idle_step(m),
        },
        Action::Trace(name) => effect_step(m, Effect::Record(name)),
        Action::WatchForFlip | Action::EnterDeferred | Action::Terminal | Action::BusyLocal =>
            idle_step(m),
    }
}

/// A state in which a display's flight is over: neither flight nor suppression
/// is left of it.
pub open spec fn flight_over(m: DriverModel, d: Seq<char>) -> DriverModel {
    DriverModel {
        flights: m.flights.remove(d),
        handle: HandleModel { suppressed: m.handle.suppressed.remove(d), ..m.handle },
        ..m
    }
}

/// The engine event that a tagged completion means; nothing where it belongs to
/// no current flight.
pub open spec fn completion_feed(
    m: DriverModel,
    d: Seq<char>,
    nonce: Seq<char>,
    event: OwnerEvent<Seq<char>>,
    requester_active: bool,
) -> Option<Feed<Seq<char>>> {
    if !(m.flights.contains_key(d) && m.flights[d].nonce == nonce) {
        None
    } else if requester_active {
        match event {
            OwnerEvent::BeforeRelease(HookResult::Completed) => Some(
                Feed::Requester(RequesterEvent::AcquireCompleted),
            ),
            OwnerEvent::BeforeRelease(HookResult::Aborted) => Some(
                Feed::Requester(RequesterEvent::AcquireFailed { reason: "hook aborted"@ }),
            ),
            _ => None,
        }
    } else {
        Some(Feed::Owner(event))
    }
}

/// `prefix` and then `tail`.
fn prefixed(prefix: &str, tail: &str) -> (res: String)
    ensures
        res@ == prefix@ + tail@,
{
    let mut res = prefix.to_owned();
    res.append(tail);
    res
}

/// One effect as a list.
fn only(e: Effect<String>) -> (res: Vec<Effect<String>>)
    ensures
        claim_types::effect_models(res@) == seq![e@],
{
    let mut res: Vec<Effect<String>> = Vec::new();
    res.push(e);
    assert(claim_types::effect_models(res@) =~= seq![e@]);
    res
}

/// No effect.
fn none() -> (res: Vec<Effect<String>>)
    ensures
        claim_types::effect_models(res@) == Seq::<Effect<Seq<char>>>::empty(),
{
    let res: Vec<Effect<String>> = Vec::new();
    assert(claim_types::effect_models(res@) =~= Seq::<Effect<Seq<char>>>::empty());
    res
}

impl Driver {
    /// A driver that knows no display yet.
    pub fn new(local_instance_id: String, handle: ClaimRuntimeHandle, times: CoordinationTimes) -> (
        res: Self)
        ensures
            res@ == (DriverModel {
                handle: handle@,
                contexts: Map::empty(),
                flights: Map::empty(),
                pending_idle: Map::empty(),
                local_instance_id: local_instance_id@,
                counter: 0,
                nonces: Seq::empty(),
                times,
            }),
    {
        let res = Driver {
            handle,
            contexts: TextMap::new(),
            flights: TextMap::new(),
            pending_idle: TextMap::new(),
            local_instance_id,
            outbound_counter: 0,
            outbound_nonces: VecDeque::new(),
            times,
        };
        assert(res@.nonces =~= Seq::<Seq<char>>::empty());
        res
    }

    /// The next outbound counter.
    pub fn next_counter(&mut self) -> (res: u64)
        ensures
            final(self)@ == counted(old(self)@),
            res == counter_after(old(self)@.counter),
    {
        self.outbound_counter = self.outbound_counter.saturating_add(1);
        self.outbound_counter
    }

    /// A nonce for a request made at `epoch_nanos` after the epoch.
    pub fn next_nonce(&mut self, epoch_nanos: u128) -> (nonce: String)
        ensures
            nonce@ == nonce_text(epoch_nanos, old(self)@.counter),
            final(self)@ == nonced(old(self)@, epoch_nanos),
    {
        let mut nonce = "req-".to_owned();
        push_decimal(&mut nonce, epoch_nanos);
        nonce.append("-");
        push_decimal(&mut nonce, self.outbound_counter as u128);
        let ghost before = self.outbound_nonces@;
        let remembered = nonce.clone();
        self.outbound_nonces.push_back(remembered);
        assert(text::texts(self.outbound_nonces@) =~= text::texts(before).push(nonce@));
        if self.outbound_nonces.len() > NONCE_RING {
            let ghost full = self.outbound_nonces@;
            let _ = self.outbound_nonces.pop_front();
            assert(text::texts(self.outbound_nonces@) =~= text::texts(full).skip(1));
        }
        nonce
    }

    /// The nonce of a display's flight, empty where it has none.
    pub fn nonce_of(&self, display: &str) -> (res: String)
        ensures
            res@ == flight_nonce(self@, display@),
    {
        match self.flights.get(display) {
            Some(f) => f.nonce.clone(),
            None => String::new(),
        }
    }

    /// The code to write to select this instance's input on a display.
    fn write_code_of(&self, display: &str) -> (res: Option<u8>)
        ensures
            res == display_code(self@, display@),
    {
        match self.contexts.get(display) {
            Some(ctx) => ctx.effective_write_code(),
            None => None,
        }
    }

    /// The hooks to run for a display.
    pub fn hook_actions(&self, display: &str, direction: Direction, phase: Phase) -> (res: Option<
        &Vec<HookAction>,
    >)
        ensures
            match res {
                Some(v) => self.contexts@.contains_key(display@) && v@
                    == self.contexts@[display@].hooks.slot(direction, phase),
                None => !self.contexts@.contains_key(display@),
            },
    {
        match self.contexts.get(display) {
            Some(ctx) => Some(ctx.hooks.slot_for(direction, phase)),
            None => None,
        }
    }

    /// The request for a display under a nonce, with the current counter.
    pub fn build_claim_request(&self, display: &str, nonce: &str) -> (res: Option<
        ClaimRequest<String>,
    >)
        ensures
            match res {
                Some(r) => claim_request(self@, display@, nonce@) == Some(r@),
                None => claim_request(self@, display@, nonce@) is None,
            },
    {
        match self.contexts.get(display) {
            Some(ctx) => match (
                ctx.local_input_code,
                ctx.effective_write_code(),
                &ctx.claim_identity,
            ) {
                (Some(_), Some(code), Some(identity)) => Some(
                    ClaimRequest {
                        display_identity: identity.clone(),
                        requester_instance_id: self.local_instance_id.clone(),
                        requester_input_code: code as u16,
                        counter: self.outbound_counter,
                        nonce: nonce.to_owned(),
                    },
                ),
                _ => None,
            },
            None => None,
        }
    }

    /// The flight of a display that has heard from its other side.
    fn addressed(&self, display: &str) -> (res: Option<&ActiveFlight<String>>)
        ensures
            match res {
                Some(f) => addressed_flight(self@, display@) == Some(f@),
                None => addressed_flight(self@, display@) is None,
            },
    {
        match self.flights.get(display) {
            Some(f) => {
                if f.peer_instance_id.as_str().is_empty() || f.peer_epoch.as_str().is_empty() {
                    None
                } else {
                    Some(f)
                }
            },
            None => None,
        }
    }

    /// The verdict on a display's flight, where its other side is known.
    fn send_owner_verdict(&mut self, display: &str, verdict: ClaimVerdict) -> (effects: Vec<
        Effect<String>,
    >)
        ensures
            match addressed_flight(old(self)@, display@) {
                Some(f) => {
                    &&& final(self)@ == counted(old(self)@)
                    &&& claim_types::effect_models(effects@) == seq![
                        reply(
                            old(self)@,
                            f,
                            "resp-"@ + f.nonce,
                            ClaimMessage::ClaimResponse { nonce: f.nonce, verdict },
                        ),
                    ]
                },
                None => final(self)@ == old(self)@ && claim_types::effect_models(effects@)
                    == Seq::<Effect<Seq<char>>>::empty(),
            },
    {
        let (peer, peer_epoch, nonce) = match self.addressed(display) {
            Some(f) => (f.peer_instance_id.clone(), f.peer_epoch.clone(), f.nonce.clone()),
            None => {
                return none();
            },
        };
        self.send_verdict_to_peer_now(peer, peer_epoch, nonce, verdict)
    }

    /// A verdict for a peer.
    fn send_verdict_to_peer_now(
        &mut self,
        peer: String,
        peer_epoch: String,
        nonce: String,
        verdict: ClaimVerdict,
    ) -> (effects: Vec<Effect<String>>)
        ensures
            final(self)@ == counted(old(self)@),
            claim_types::effect_models(effects@) == seq![
                verdict_send(old(self)@, peer@, peer_epoch@, nonce@, verdict),
            ],
    {
        let counter: u64 = self.next_counter();
        only(
            Effect::Send {
                peer,
                peer_epoch,
                counter,
                nonce: prefixed("resp-", nonce.as_str()),
                message: ClaimMessage::ClaimResponse { nonce, verdict },
                note: None,
            },
        )
    }

    /// The abort of a display's flight. The counter moves on in any case.
    fn send_abort(&mut self, display: &str) -> (effects: Vec<Effect<String>>)
        ensures
            final(self)@ == counted(old(self)@),
            claim_types::effect_models(effects@) == action_step(
                old(self)@,
                display@,
                Action::SendAbort,
                ActionEnv { has_executor: true, requester_active: true },
            ).effects,
    {
        let counter: u64 = self.next_counter();
        match self.addressed(display) {
            Some(f) => only(
                Effect::Send {
                    peer: f.peer_instance_id.clone(),
                    peer_epoch: f.peer_epoch.clone(),
                    counter,
                    nonce: prefixed("abort-", f.nonce.as_str()),
                    message: ClaimMessage::ClaimAbort { nonce: f.nonce.clone() },
                    note: None,
                },
            ),
            None => none(),
        }
    }

    /// Word to the owner that this instance is ready to take the display over.
    fn send_acquire_ready_to_owner(&mut self, display: &str) -> (effects: Vec<Effect<String>>)
        ensures
            ({
                let env = ActionEnv { has_executor: true, requester_active: true };
                let step = action_step(old(self)@, display@, Action::SendAcquireReady, env);
                final(self)@ == step.state && claim_types::effect_models(effects@) == step.effects
            }),
    {
        let (peer, peer_epoch, request_nonce) = match self.addressed(display) {
            Some(f) => (f.peer_instance_id.clone(), f.peer_epoch.clone(), f.nonce.clone()),
            None => {
                return none();
            },
        };
        let counter: u64 = self.next_counter();
        only(
            Effect::Send {
                peer,
                peer_epoch,
                counter,
                nonce: prefixed("acq-", request_nonce.as_str()),
                message: ClaimMessage::ClaimAcquireReady {
                    nonce: prefixed("acq-", request_nonce.as_str()),
                    request_nonce,
                },
                note: None,
            },
        )
    }

    /// Word to the requester that the release failed.
    fn send_release_failed_to_requester(&mut self, display: &str) -> (effects: Vec<Effect<String>>)
        ensures
            ({
                let env = ActionEnv { has_executor: true, requester_active: true };
                let step = action_step(old(self)@, display@, Action::SendReleaseFailed, env);
                final(self)@ == step.state && claim_types::effect_models(effects@) == step.effects
            }),
    {
        let (peer, peer_epoch, nonce) = match self.addressed(display) {
            Some(f) => (f.peer_instance_id.clone(), f.peer_epoch.clone(), f.nonce.clone()),
            None => {
                return none();
            },
        };
        let counter: u64 = self.next_counter();
        only(
            Effect::Send {
                peer,
                peer_epoch,
                counter,
                nonce: prefixed("relfail-", nonce.as_str()),
                message: ClaimMessage::ReleaseFailed {
                    nonce,
                    reason: "write failed".to_owned(),
                },
                note: None,
            },
        )
    }

    /// Try to take a display without its owner.
    fn attempt_fallback(&self, display: &str, has_executor: bool) -> (effects: Vec<Effect<String>>)
        ensures
            claim_types::effect_models(effects@) == action_step(
                self@,
                display@,
                Action::AttemptFallback,
                ActionEnv { has_executor, requester_active: true },
            ).effects,
    {
        let mut effects: Vec<Effect<String>> = Vec::new();
        let target = self.write_code_of(display);
        if has_executor {
            if let Some(target) = target {
                effects.push(Effect::Record("claim_fallback_direct".to_owned()));
                effects.push(Effect::Fallback { display: display.to_owned(), target });
                assert(claim_types::effect_models(effects@) =~= seq![
                    Effect::Record("claim_fallback_direct"@),
                    Effect::Fallback { display: display@, target },
                ]);
                return effects;
            }
        }
        effects.push(Effect::Record("claim_failed".to_owned()));
        effects.push(Effect::Log(prefixed("claim_failed:", display)));
        effects.push(Effect::Log("reason:Denied(Unsupported)".to_owned()));
        assert(claim_types::effect_models(effects@) =~= seq![
            Effect::Record("claim_failed"@),
            Effect::Log("claim_failed:"@ + display@),
            Effect::Log("reason:Denied(Unsupported)"@),
        ]);
        effects
    }

    /// Run a hook slot; an empty one completes at once.
    fn run_hook_slot(
        &self,
        display: &str,
        direction: Direction,
        phase: Phase,
        aborted: bool,
        env: ActionEnv,
    ) -> (step: ActionStep)
        ensures
            ({
                let model = hook_step(self@, display@, direction, phase, aborted, env);
                claim_types::effect_models(step.effects@) == model.effects
                    && claim_types::feed_model(step.feed) == model.feed
            }),
    {
        match self.contexts.get(display) {
            Some(ctx) => {
                if ctx.hooks.slot_for(direction, phase).len() > 0 {
                    let display_identity = match &ctx.claim_identity {
                        Some(i) => i.clone(),
                        None => String::new(),
                    };
                    let peer = match self.flights.get(display) {
                        Some(f) => f.peer_instance_id.clone(),
                        None => String::new(),
                    };
                    return ActionStep {
                        effects: only(
                            Effect::RunHooks {
                                display: display.to_owned(),
                                display_identity,
                                peer,
                                direction,
                                phase,
                                aborted,
                                nonce: self.nonce_of(display),
                            },
                        ),
                        feed: None,
                    };
                }
            },
            None => {},
        }
        ActionStep {
            effects: none(),
            feed: Some(Self::feed_owner_event_after_slot(direction, phase, env.requester_active)),
        }
    }

    /// The engine event that follows a hook slot that completed.
    fn feed_owner_event_after_slot(direction: Direction, phase: Phase, requester_active: bool) -> (
        feed: Feed<String>)
        ensures
            feed@ == after_slot(
                direction,
                phase,
                ActionEnv { has_executor: true, requester_active },
            ),
    {
        if direction == Direction::Acquire && requester_active {
            Feed::Requester(RequesterEvent::AcquireCompleted)
        } else {
            match phase {
                Phase::Before => Feed::Owner(OwnerEvent::BeforeRelease(HookResult::Completed)),
                Phase::After => Feed::Owner(OwnerEvent::AfterReleaseCompleted),
            }
        }
    }

    /// Select the input that the display's flight calls for.
    fn write_input_source(&self, display: &str, has_executor: bool) -> (step: ActionStep)
        ensures
            ({
                let env = ActionEnv { has_executor, requester_active: true };
                let model = action_step(self@, display@, Action::WriteInput, env);
                claim_types::effect_models(step.effects@) == model.effects
                    && claim_types::feed_model(step.feed) == model.feed
            }),
    {
        let local = self.write_code_of(display);
        if has_executor {
            if let Some(local) = local {
                let target: u8 = match self.flights.get(display) {
                    Some(f) => f.write_code,
                    None => local,
                };
                return ActionStep {
                    effects: only(
                        Effect::WriteInput {
                            display: display.to_owned(),
                            target,
                            nonce: self.nonce_of(display),
                        },
                    ),
                    feed: None,
                };
            }
        }
        ActionStep {
            effects: none(),
            feed: Some(
                Feed::Owner(OwnerEvent::WriteFailed("E_DISPLAY_IO: no executor".to_owned())),
            ),
        }
    }

    /// Execute one action of a display's engine.
    pub fn execute_action(&mut self, display: &str, action: Action<String>, env: ActionEnv) -> (step:
        ActionStep)
        ensures
            ({
                let model = action_step(old(self)@, display@, action@, env);
                &&& final(self)@ == model.state
                &&& claim_types::effect_models(step.effects@) == model.effects
                &&& claim_types::feed_model(step.feed) == model.feed
            }),
    {
        match action {
            Action::SendAbort => ActionStep { effects: self.send_abort(display), feed: None },
            Action::AttemptFallback => ActionStep {
                effects: self.attempt_fallback(display, env.has_executor),
                feed: None,
            },
            Action::BroadcastRequest | Action::RetryRequest | Action::RetryWithEpoch(_) => {
                let nonce = self.nonce_of(display);
                match self.build_claim_request(display, nonce.as_str()) {
                    Some(r) => ActionStep {
                        effects: only(
                            Effect::Fanout {
                                counter: self.outbound_counter,
                                nonce,
                                message: ClaimMessage::ClaimRequest(r),
                            },
                        ),
                        feed: None,
                    },
                    None => ActionStep { effects: none(), feed: None },
                }
            },
            Action::RunBeforeRelease => self.run_hook_slot(
                display,
                Direction::Release,
                Phase::Before,
                false,
                env,
            ),
            Action::RunAfterRelease { aborted } => self.run_hook_slot(
                display,
                Direction::Release,
                Phase::After,
                aborted,
                env,
            ),
            Action::RunBeforeAcquire => self.run_hook_slot(
                display,
                Direction::Acquire,
                Phase::Before,
                false,
                env,
            ),
            Action::SendAcquireReady => ActionStep {
                effects: self.send_acquire_ready_to_owner(display),
                feed: None,
            },
            Action::WriteInput => self.write_input_source(display, env.has_executor),
            Action::WakeDisplay => {
                if env.has_executor {
                    ActionStep {
                        effects: only(
                            Effect::Wake {
                                display: display.to_owned(),
                                nonce: self.nonce_of(display),
                            },
                        ),
                        feed: None,
                    }
                } else {
                    ActionStep {
                        effects: none(),
                        feed: Some(Feed::Owner(OwnerEvent::WakeCompleted)),
                    }
                }
            },
            Action::SendVerdict(verdict) => ActionStep {
                effects: self.send_owner_verdict(display, verdict),
                feed: Some(Feed::Owner(OwnerEvent::AckDelivered)),
            },
            Action::SendReleaseFailed => ActionStep {
                effects: self.send_release_failed_to_requester(display),
                feed: None,
            },
            Action::Trace(name) => ActionStep { effects: only(Effect::Record(name)), feed: None },
            Action::WatchForFlip
            | Action::EnterDeferred
            | Action::Terminal
            | Action::BusyLocal => ActionStep { effects: none(), feed: None },
        }
    }

    /// Clear a display's flight where the side that was fed has none left.
    pub fn clear_finished_flight(&mut self, display: &str, still_active: bool) -> (effects: Vec<
        Effect<String>,
    >)
        ensures
            final(self)@ == (if still_active {
                old(self)@
            } else {
                flight_over(old(self)@, display@)
            }),
            claim_types::effect_models(effects@) == (if still_active {
                Seq::<Effect<Seq<char>>>::empty()
            } else {
                seq![Effect::SetSuppression { display: display@, until: None }]
            }),
    {
        if still_active {
            return none();
        }
        self.flights.remove(display);
        self.clear_claim_suppression(display)
    }

    /// Lift the suppression of a display, here and in the rules engine.
    fn clear_claim_suppression(&mut self, display: &str) -> (effects: Vec<Effect<String>>)
        ensures
            final(self)@ == (DriverModel {
                handle: HandleModel {
                    suppressed: old(self)@.handle.suppressed.remove(display@),
                    ..old(self)@.handle
                },
                ..old(self)@
            }),
            claim_types::effect_models(effects@) == seq![
                Effect::SetSuppression { display: display@, until: None },
            ],
    {
        self.handle.suppressed.remove(display);
        only(Effect::SetSuppression { display: display.to_owned(), until: None })
    }

    /// Take up the completion of a hook, a write or a wake. One whose nonce is
    /// not that of the display's flight is stale and goes nowhere.
    pub fn handle_owner_completion(
        &self,
        display: &str,
        nonce: &str,
        event: OwnerEvent<String>,
        requester_active: bool,
    ) -> (feed: Option<Feed<String>>)
        ensures
            claim_types::feed_model(feed) == completion_feed(
                self@,
                display@,
                nonce@,
                event@,
                requester_active,
            ),
    {
        let current = match self.flights.get(display) {
            Some(f) => same_text(f.nonce.as_str(), nonce),
            None => false,
        };
        if !current {
            return None;
        }
        if requester_active {
            return match event {
                OwnerEvent::BeforeRelease(HookResult::Completed) => Some(
                    Feed::Requester(RequesterEvent::AcquireCompleted),
                ),
                OwnerEvent::BeforeRelease(HookResult::Aborted) => Some(
                    Feed::Requester(
                        RequesterEvent::AcquireFailed { reason: "hook aborted".to_owned() },
                    ),
                ),
                _ => None,
            };
        }
        Some(Feed::Owner(event))
    }
}

/// A verdict for a peer, sent under the next counter.
pub open spec fn verdict_send(
    m: DriverModel,
    peer: Seq<char>,
    peer_epoch: Seq<char>,
    nonce: Seq<char>,
    verdict: ClaimVerdict,
) -> Effect<Seq<char>> {
    Effect::Send {
        peer,
        peer_epoch,
        counter: counter_after(m.counter),
        nonce: "resp-"@ + nonce,
        message: ClaimMessage::ClaimResponse { nonce, verdict },
        note: None,
    }
}

// ── inbound frames ───────────────────────────────────────────────────────

/// An authenticated frame of a peer.
#[verifier::ext_equal]
#[derive(PartialEq, Eq, Debug)]
pub struct InboundFrame<T> {
    pub sender_instance_id: T,
    pub sender_epoch: T,
    pub nonce: T,
    pub message: ClaimMessage<T>,
}

impl View for InboundFrame<String> {
    type V = InboundFrame<Seq<char>>;

    open spec fn view(&self) -> InboundFrame<Seq<char>> {
        InboundFrame {
            sender_instance_id: self.sender_instance_id@,
            sender_epoch: self.sender_epoch@,
            nonce: self.nonce@,
            message: self.message@,
        }
    }
}

/// The power state that a panel reports.
#[derive(Clone, Copy, PartialEq, Eq, Debug, Structural)]
pub enum PowerState {
    Standby,
    Other,
}

/// What coordination knows of a shared display.
#[verifier::ext_equal]
#[derive(PartialEq, Eq, Debug)]
pub struct CoordRecord<T> {
    pub owned: bool,
    pub owner_instance_id: Option<T>,
    /// The panel's power state, where it is known.
    pub power: Option<PowerState>,
}

impl View for CoordRecord<String> {
    type V = CoordRecord<Seq<char>>;

    open spec fn view(&self) -> CoordRecord<Seq<char>> {
        CoordRecord {
            owned: self.owned,
            owner_instance_id: text::opt_text(self.owner_instance_id),
            power: self.power,
        }
    }
}

/// What coordination knows; nothing while there is no coordination.
pub open spec fn coord_model(c: Option<&TextMap<CoordRecord<String>>>) -> Option<
    Map<Seq<char>, CoordRecord<Seq<char>>>,
> {
    match c {
        Some(t) => Some(t@),
        None => None,
    }
}

/// What an inbound frame leads to.
pub struct InboundStep {
    pub effects: Vec<Effect<String>>,
    pub call: InboundCall<String>,
}

/// The effects and engine call of an inbound frame, and the state it leaves.
pub struct InboundModel {
    pub state: DriverModel,
    pub effects: Seq<Effect<Seq<char>>>,
    pub call: InboundCall<Seq<char>>,
}

/// Whether `found` is a display in whose flight the nonce is, or none is.
pub open spec fn flight_named(m: DriverModel, nonce: Seq<char>, found: Option<Seq<char>>) -> bool {
    match found {
        Some(d) => m.flights.contains_key(d) && m.flights[d].nonce == nonce,
        None => forall|d: Seq<char>| #[trigger]
            m.flights.contains_key(d) ==> m.flights[d].nonce != nonce,
    }
}

/// Whether `found` is a display of that identity, or none is.
pub open spec fn display_named(m: DriverModel, identity: Seq<char>, found: Option<Seq<char>>) -> bool {
    match found {
        Some(d) => m.contexts.contains_key(d) && m.contexts[d].claim_identity == Some(identity),
        None => forall|d: Seq<char>| #[trigger]
            m.contexts.contains_key(d) ==> m.contexts[d].claim_identity != Some(identity),
    }
}

/// Whether `found` is the display that a frame is about. Which one it is, is
/// open where several share an identity or a nonce.
pub open spec fn concerns(m: DriverModel, f: InboundFrame<Seq<char>>, found: Option<Seq<char>>) -> bool {
    match f.message {
        ClaimMessage::ClaimRequest(r) => display_named(m, r.display_identity, found),
        ClaimMessage::ClaimAbort { .. } => flight_named(m, f.nonce, found),
        ClaimMessage::ClaimAcquireReady { request_nonce, .. } => flight_named(
            m,
            request_nonce,
            found,
        ),
        ClaimMessage::ReleaseFailed { nonce, .. } => flight_named(m, nonce, found),
        ClaimMessage::ClaimResponse { nonce, .. } => flight_named(m, nonce, found),
        ClaimMessage::IdleQuery { display_identity, .. } => display_named(
            m,
            display_identity,
            found,
        ),
        ClaimMessage::IdleReport { nonce, .. } => found == (if m.pending_idle.contains_key(nonce) {
            Some(m.pending_idle[nonce])
        } else {
            None
        }),
    }
}

/// How a display stands with this instance.
pub open spec fn disposition_of(
    coord: Option<Map<Seq<char>, CoordRecord<Seq<char>>>>,
    d: Seq<char>,
) -> OwnerDisposition {
    match coord {
        Some(records) => if !records.contains_key(d) {
            OwnerDisposition::Quiescing
        } else if records[d].owned {
            OwnerDisposition::Ready { standby: records[d].power == Some(PowerState::Standby) }
        } else {
            OwnerDisposition::NotOwner
        },
        None => OwnerDisposition::NotOwner,
    }
}

/// A wire input code as the panel takes it; zero where it does not fit.
pub open spec fn panel_code(code: u16) -> u8 {
    if code <= u8::MAX {
        code as u8
    } else {
        0
    }
}

/// The request that is put to the engine of a display.
pub open spec fn owner_request(
    m: DriverModel,
    d: Seq<char>,
    r: ClaimRequest<Seq<char>>,
    coord: Option<Map<Seq<char>, CoordRecord<Seq<char>>>>,
) -> OwnerRequest<Seq<char>> {
    let ctx = m.contexts[d];
    let disposition = disposition_of(coord, d);
    OwnerRequest {
        display: d,
        requested_identity: r.display_identity,
        local_identity: ctx.claim_identity,
        requester_input_code: r.requester_input_code,
        local_input_code: match ctx.local_input_code {
            Some(c) => c as u16,
            None => 0,
        },
        capability: if ctx.writable {
            ClaimCapability::Writable
        } else {
            ClaimCapability::ObserveOnly
        },
        disposition,
        eta: if disposition == (OwnerDisposition::Ready { standby: true }) {
            m.times.release_deadline_cap
        } else {
            blocking_time(ctx.hooks.before_release@) as u128
        },
    }
}

/// What an inbound request leads to: a display that is not ours to give is
/// answered at once, any other goes to its engine.
pub open spec fn request_result(
    m: DriverModel,
    f: InboundFrame<Seq<char>>,
    r: ClaimRequest<Seq<char>>,
    coord: Option<Map<Seq<char>, CoordRecord<Seq<char>>>>,
    found: Option<Seq<char>>,
) -> InboundModel {
    match found {
        Some(d) => InboundModel {
            state: DriverModel {
                flights: m.flights.insert(
                    d,
                    ActiveFlight {
                        nonce: f.nonce,
                        peer_instance_id: f.sender_instance_id,
                        peer_epoch: f.sender_epoch,
                        write_code: panel_code(r.requester_input_code),
                    },
                ),
                ..m
            },
            effects: Seq::empty(),
            call: InboundCall::BeginOwner {
                request: owner_request(m, d, r, coord),
                nonce: f.nonce,
                release_cap: m.times.release_deadline_cap,
            },
        },
        None => InboundModel {
            state: counted(m),
            effects: seq![
                verdict_send(
                    m,
                    f.sender_instance_id,
                    f.sender_epoch,
                    f.nonce,
                    ClaimVerdict::NotOwner,
                ),
            ],
            call: InboundCall::Nothing,
        },
    }
}

/// A flight after an answer: an accepting peer, or the first to answer, becomes
/// its other side.
pub open spec fn answered(
    flight: ActiveFlight<Seq<char>>,
    f: InboundFrame<Seq<char>>,
    verdict: ClaimVerdict,
) -> ActiveFlight<Seq<char>> {
    if verdict is Accepted || flight.peer_instance_id.len() == 0 {
        ActiveFlight {
            peer_instance_id: f.sender_instance_id,
            peer_epoch: f.sender_epoch,
            ..flight
        }
    } else {
        flight
    }
}

/// What an inbound frame leads to.
pub open spec fn inbound_result(
    m: DriverModel,
    f: InboundFrame<Seq<char>>,
    coord: Option<Map<Seq<char>, CoordRecord<Seq<char>>>>,
    idle_ms: Option<u64>,
    epoch_nanos: u128,
    found: Option<Seq<char>>,
) -> InboundModel {
    let nothing = InboundModel { state: m, effects: Seq::empty(), call: InboundCall::Nothing };
    match f.message {
        ClaimMessage::ClaimRequest(r) => request_result(m, f, r, coord, found),
        ClaimMessage::ClaimAbort { .. } => match found {
            Some(d) => InboundModel {
                call: InboundCall::Owner {
                    display: d,
                    event: OwnerEvent::Abort { nonce: f.nonce },
                },
                ..nothing
            },
            None => nothing,
        },
        ClaimMessage::ClaimAcquireReady { .. } => match found {
            Some(d) => InboundModel {
                call: InboundCall::Owner { display: d, event: OwnerEvent::AcquireReady },
                ..nothing
            },
            None => nothing,
        },
        ClaimMessage::ReleaseFailed { nonce, reason } => match found {
            Some(d) => InboundModel {
                call: InboundCall::Requester {
                    display: d,
                    event: RequesterEvent::ReleaseFailed { nonce, reason },
                },
                ..nothing
            },
            None => nothing,
        },
        ClaimMessage::ClaimResponse { nonce, verdict } => match found {
            Some(d) => InboundModel {
                state: DriverModel {
                    flights: m.flights.insert(d, answered(m.flights[d], f, verdict)),
                    ..m
                },
                effects: Seq::empty(),
                call: InboundCall::Requester {
                    display: d,
                    event: RequesterEvent::Response {
                        nonce,
                        peer_instance_id: f.sender_instance_id,
                        verdict,
                    },
                },
            },
            None => nothing,
        },
        ClaimMessage::IdleQuery { .. } => {
            let ours = found is Some && disposition_of(coord, found->0) is Ready;
            if ours {
                let next = counted(m);
                InboundModel {
                    state: nonced(next, epoch_nanos),
                    effects: seq![
                        Effect::Send {
                            peer: f.sender_instance_id,
                            peer_epoch: f.sender_epoch,
                            counter: next.counter,
                            nonce: nonce_text(epoch_nanos, next.counter),
                            message: ClaimMessage::IdleReport {
                                idle_ms: match idle_ms {
                                    Some(ms) => ms,
                                    None => 0,
                                },
                                counter: next.counter,
                                nonce: f.nonce,
                            },
                            note: Some("idle_report_sent"@),
                        },
                    ],
                    call: InboundCall::Nothing,
                }
            } else {
                nothing
            }
        },
        ClaimMessage::IdleReport { idle_ms, nonce, .. } => {
            let from_owner = found is Some && coord is Some && coord->0.contains_key(found->0)
                && coord->0[found->0].owner_instance_id == Some(f.sender_instance_id);
            if from_owner {
                InboundModel {
                    state: DriverModel { pending_idle: m.pending_idle.remove(nonce), ..m },
                    effects: seq![Effect::AnswerIdle { query: nonce, idle_ms }],
                    call: InboundCall::Nothing,
                }
            } else {
                nothing
            }
        },
    }
}

impl Driver {
    /// A display of this identity.
    pub fn find_display_by_claim_identity(&self, identity: &str) -> (res: Option<String>)
        ensures
            display_named(self@, identity@, text::opt_text(res)),
    {
        let n: usize = self.contexts.len();
        let ghost pairs = self.contexts.pairs();
        proof {
            seqs::lemma_assoc(pairs);
        }
        let mut i: usize = 0;
        while i < n
            invariant
                i <= n,
                n == pairs.len(),
                pairs == self.contexts.pairs(),
                self@.contexts == seqs::assoc(pairs),
                forall|k: int|
                    0 <= k < pairs.len() ==> seqs::assoc(pairs).contains_key(
                        (#[trigger] pairs[k]).0,
                    ) && seqs::assoc(pairs)[pairs[k].0] == pairs[k].1,
                forall|k: int|
                    0 <= k < i ==> (#[trigger] pairs[k]).1.claim_identity != Some(identity@),
            decreases n - i,
        {
            let ctx = self.contexts.value_at(i);
            let same = match &ctx.claim_identity {
                Some(c) => same_text(c.as_str(), identity),
                None => false,
            };
            if same {
                assert(pairs[i as int].1 == ctx@);
                return Some(self.contexts.key_at(i).clone());
            }
            i = i + 1;
        }
        proof {
            assert forall|d: Seq<char>| #[trigger]
                self@.contexts.contains_key(d) implies self@.contexts[d].claim_identity != Some(
                identity@,
            ) by {
                let k = choose|k: int| 0 <= k < pairs.len() && (#[trigger] pairs[k]).0 == d;
                assert(pairs[k].1.claim_identity != Some(identity@));
            }
        }
        None
    }

    /// A display in whose flight a nonce is.
    pub fn find_display_by_nonce(&self, nonce: &str) -> (res: Option<String>)
        ensures
            flight_named(self@, nonce@, text::opt_text(res)),
    {
        let n: usize = self.flights.len();
        let ghost pairs = self.flights.pairs();
        proof {
            seqs::lemma_assoc(pairs);
        }
        let mut i: usize = 0;
        while i < n
            invariant
                i <= n,
                n == pairs.len(),
                pairs == self.flights.pairs(),
                self@.flights == seqs::assoc(pairs),
                forall|k: int|
                    0 <= k < pairs.len() ==> seqs::assoc(pairs).contains_key(
                        (#[trigger] pairs[k]).0,
                    ) && seqs::assoc(pairs)[pairs[k].0] == pairs[k].1,
                forall|k: int| 0 <= k < i ==> (#[trigger] pairs[k]).1.nonce != nonce@,
            decreases n - i,
        {
            let flight = self.flights.value_at(i);
            if same_text(flight.nonce.as_str(), nonce) {
                assert(pairs[i as int].1 == flight@);
                return Some(self.flights.key_at(i).clone());
            }
            i = i + 1;
        }
        proof {
            assert forall|d: Seq<char>| #[trigger]
                self@.flights.contains_key(d) implies self@.flights[d].nonce != nonce@ by {
                let k = choose|k: int| 0 <= k < pairs.len() && (#[trigger] pairs[k]).0 == d;
                assert(pairs[k].1.nonce != nonce@);
            }
        }
        None
    }

    /// How a display stands with this instance.
    fn disposition(coord: Option<&TextMap<CoordRecord<String>>>, display: &str) -> (res:
        OwnerDisposition)
        ensures
            res == disposition_of(coord_model(coord), display@),
    {
        match coord {
            Some(records) => match records.get(display) {
                Some(r) => {
                    if r.owned {
                        let standby = match r.power {
                            Some(p) => p == PowerState::Standby,
                            None => false,
                        };
                        OwnerDisposition::Ready { standby }
                    } else {
                        OwnerDisposition::NotOwner
                    }
                },
                None => OwnerDisposition::Quiescing,
            },
            None => OwnerDisposition::NotOwner,
        }
    }

    /// Take up a request for a display.
    pub fn handle_inbound_request(
        &mut self,
        sender_instance_id: String,
        sender_epoch: String,
        nonce: String,
        request: ClaimRequest<String>,
        coord: Option<&TextMap<CoordRecord<String>>>,
    ) -> (step: InboundStep)
        ensures
            ({
                let f = InboundFrame {
                    sender_instance_id: sender_instance_id@,
                    sender_epoch: sender_epoch@,
                    nonce: nonce@,
                    message: ClaimMessage::ClaimRequest(request@),
                };
                exists|found: Option<Seq<char>>| #[trigger]
                    concerns(old(self)@, f, found) && ({
                        let model = request_result(
                            old(self)@,
                            f,
                            request@,
                            coord_model(coord),
                            found,
                        );
                        &&& final(self)@ == model.state
                        &&& claim_types::effect_models(step.effects@) == model.effects
                        &&& step.call@ == model.call
                    })
            }),
    {
        let ghost before = self@;
        let ghost f = InboundFrame {
            sender_instance_id: sender_instance_id@,
            sender_epoch: sender_epoch@,
            nonce: nonce@,
            message: ClaimMessage::ClaimRequest(request@),
        };
        let found = self.find_display_by_claim_identity(request.display_identity.as_str());
        let ghost g = text::opt_text(found);
        assert(concerns(before, f, g));
        let display = match found {
            Some(d) => d,
            None => {
                let effects = self.send_verdict_to_peer_now(
                    sender_instance_id,
                    sender_epoch,
                    nonce,
                    ClaimVerdict::NotOwner,
                );
                return InboundStep { effects, call: InboundCall::Nothing };
            },
        };
        let disposition = Self::disposition(coord, display.as_str());
        let release_cap: Nanos = self.times.release_deadline_cap;
        let owner_request = match self.contexts.get(display.as_str()) {
            Some(ctx) => {
                let standby = match disposition {
                    OwnerDisposition::Ready { standby } => standby,
                    _ => false,
                };
                let blocking: Nanos = sum_blocking_before_release(&ctx.hooks);
                OwnerRequest {
                    display: display.clone(),
                    requested_identity: request.display_identity.clone(),
                    local_identity: match &ctx.claim_identity {
                        Some(i) => Some(i.clone()),
                        None => None,
                    },
                    requester_input_code: request.requester_input_code,
                    local_input_code: match ctx.local_input_code {
                        Some(c) => c as u16,
                        None => 0,
                    },
                    capability: if ctx.writable {
                        ClaimCapability::Writable
                    } else {
                        ClaimCapability::ObserveOnly
                    },
                    disposition,
                    eta: if standby {
                        release_cap
                    } else {
                        blocking
                    },
                }
            },
            None => {
                assert(false);
                return InboundStep { effects: none(), call: InboundCall::Nothing };
            },
        };
        let code: u16 = request.requester_input_code;
        let write_code: u8 = if code <= 255 {
            code as u8
        } else {
            0
        };
        let flight = ActiveFlight {
            nonce: nonce.clone(),
            peer_instance_id: sender_instance_id,
            peer_epoch: sender_epoch,
            write_code,
        };
        self.flights.insert(display, flight);
        InboundStep {
            effects: none(),
            call: InboundCall::BeginOwner { request: owner_request, nonce, release_cap },
        }
    }

    /// Take up an answer: its sender may become the other side of the flight.
    fn note_answer(
        &mut self,
        display: &str,
        sender_instance_id: &String,
        sender_epoch: &String,
        accepted: bool,
    )
        requires
            old(self)@.flights.contains_key(display@),
        ensures
            ({
                let flight = old(self)@.flights[display@];
                final(self)@ == (DriverModel {
                    flights: old(self)@.flights.insert(
                        display@,
                        if accepted || flight.peer_instance_id.len() == 0 {
                            ActiveFlight {
                                peer_instance_id: sender_instance_id@,
                                peer_epoch: sender_epoch@,
                                ..flight
                            }
                        } else {
                            flight
                        },
                    ),
                    ..old(self)@
                })
            }),
    {
        let ghost before = self@;
        let (open, nonce, write_code) = match self.flights.get(display) {
            Some(f) => (f.peer_instance_id.as_str().is_empty(), f.nonce.clone(), f.write_code),
            None => (false, String::new(), 0u8),
        };
        if accepted || open {
            self.flights.insert(
                display.to_owned(),
                ActiveFlight {
                    nonce,
                    peer_instance_id: sender_instance_id.clone(),
                    peer_epoch: sender_epoch.clone(),
                    write_code,
                },
            );
        } else {
            assert(before.flights.insert(display@, before.flights[display@]) =~= before.flights);
        }
    }

    /// Take up an authenticated frame.
    pub fn handle_inbound(
        &mut self,
        frame: InboundFrame<String>,
        coord: Option<&TextMap<CoordRecord<String>>>,
        idle_ms: Option<u64>,
        epoch_nanos: u128,
    ) -> (step: InboundStep)
        ensures
            exists|found: Option<Seq<char>>| #[trigger]
                concerns(old(self)@, frame@, found) && ({
                    let model = inbound_result(
                        old(self)@,
                        frame@,
                        coord_model(coord),
                        idle_ms,
                        epoch_nanos,
                        found,
                    );
                    &&& final(self)@ == model.state
                    &&& claim_types::effect_models(step.effects@) == model.effects
                    &&& step.call@ == model.call
                }),
    {
        let ghost before = self@;
        let ghost f = frame@;
        let InboundFrame { sender_instance_id, sender_epoch, nonce, message } = frame;
        match message {
            ClaimMessage::ClaimRequest(request) => {
                self.handle_inbound_request(sender_instance_id, sender_epoch, nonce, request, coord)
            },
            ClaimMessage::ClaimAbort { .. } => {
                let found = self.find_display_by_nonce(nonce.as_str());
                assert(concerns(before, f, text::opt_text(found)));
                match found {
                    Some(display) => InboundStep {
                        effects: none(),
                        call: InboundCall::Owner { display, event: OwnerEvent::Abort { nonce } },
                    },
                    None => InboundStep { effects: none(), call: InboundCall::Nothing },
                }
            },
            ClaimMessage::ClaimAcquireReady { request_nonce, .. } => {
                let found = self.find_display_by_nonce(request_nonce.as_str());
                assert(concerns(before, f, text::opt_text(found)));
                match found {
                    Some(display) => InboundStep {
                        effects: none(),
                        call: InboundCall::Owner { display, event: OwnerEvent::AcquireReady },
                    },
                    None => InboundStep { effects: none(), call: InboundCall::Nothing },
                }
            },
            ClaimMessage::ReleaseFailed { nonce: release_nonce, reason } => {
                let found = self.find_display_by_nonce(release_nonce.as_str());
                assert(concerns(before, f, text::opt_text(found)));
                match found {
                    Some(display) => InboundStep {
                        effects: none(),
                        call: InboundCall::Requester {
                            display,
                            event: RequesterEvent::ReleaseFailed { nonce: release_nonce, reason },
                        },
                    },
                    None => InboundStep { effects: none(), call: InboundCall::Nothing },
                }
            },
            ClaimMessage::ClaimResponse { nonce: response_nonce, verdict } => {
                let found = self.find_display_by_nonce(response_nonce.as_str());
                assert(concerns(before, f, text::opt_text(found)));
                match found {
                    Some(display) => {
                        let accepted = match verdict {
                            ClaimVerdict::Accepted { .. } => true,
                            _ => false,
                        };
                        self.note_answer(
                            display.as_str(),
                            &sender_instance_id,
                            &sender_epoch,
                            accepted,
                        );
                        InboundStep {
                            effects: none(),
                            call: InboundCall::Requester {
                                display,
                                event: RequesterEvent::Response {
                                    nonce: response_nonce,
                                    peer_instance_id: sender_instance_id,
                                    verdict,
                                },
                            },
                        }
                    },
                    None => InboundStep { effects: none(), call: InboundCall::Nothing },
                }
            },
            ClaimMessage::IdleQuery { display_identity, .. } => {
                let found = self.find_display_by_claim_identity(display_identity.as_str());
                assert(concerns(before, f, text::opt_text(found)));
                let ours = match &found {
                    Some(d) => match Self::disposition(coord, d.as_str()) {
                        OwnerDisposition::Ready { .. } => true,
                        _ => false,
                    },
                    None => false,
                };
                if !ours {
                    return InboundStep { effects: none(), call: InboundCall::Nothing };
                }
                let counter: u64 = self.next_counter();
                let report_nonce = self.next_nonce(epoch_nanos);
                let shown: u64 = match idle_ms {
                    Some(ms) => ms,
                    None => 0,
                };
                InboundStep {
                    effects: only(
                        Effect::Send {
                            peer: sender_instance_id,
                            peer_epoch: sender_epoch,
                            counter,
                            nonce: report_nonce,
                            message: ClaimMessage::IdleReport { idle_ms: shown, counter, nonce },
                            note: Some("idle_report_sent".to_owned()),
                        },
                    ),
                    call: InboundCall::Nothing,
                }
            },
            ClaimMessage::IdleReport { idle_ms: reported, nonce: query, .. } => {
                let ghost found = if before.pending_idle.contains_key(query@) {
                    Some(before.pending_idle[query@])
                } else {
                    None
                };
                assert(concerns(before, f, found));
                let from_owner = match self.pending_idle.get(query.as_str()) {
                    Some(display) => match coord {
                        Some(records) => match records.get(display.as_str()) {
                            Some(r) => match &r.owner_instance_id {
                                Some(owner) => same_text(
                                    owner.as_str(),
                                    sender_instance_id.as_str(),
                                ),
                                None => false,
                            },
                            None => false,
                        },
                        None => false,
                    },
                    None => false,
                };
                if !from_owner {
                    return InboundStep { effects: none(), call: InboundCall::Nothing };
                }
                self.pending_idle.remove(query.as_str());
                InboundStep {
                    effects: only(Effect::AnswerIdle { query, idle_ms: reported }),
                    call: InboundCall::Nothing,
                }
            },
        }
    }
}

/// Whether the engine has reported an acceptance among its actions.
pub open spec fn reports_acceptance(actions: Seq<Action<Seq<char>>>) -> bool {
    actions.contains(Action::Trace("claim_accepted"@))
}

/// The effect of the engine's reaction to an answer: an acceptance that it took
/// up makes the sender the display's owner, where there is coordination.
pub fn response_fed(
    display: &str,
    sender_instance_id: &str,
    accepted: bool,
    actions: &Vec<Action<String>>,
    coordinated: bool,
) -> (effects: Vec<Effect<String>>)
    ensures
        claim_types::effect_models(effects@) == (if accepted && coordinated && reports_acceptance(
            claim_types::action_models(actions@),
        ) {
            seq![Effect::SetOwner { display: display@, owner: sender_instance_id@ }]
        } else {
            Seq::<Effect<Seq<char>>>::empty()
        }),
{
    let ghost models = claim_types::action_models(actions@);
    let ghost wanted = Action::Trace("claim_accepted"@);
    let mut i: usize = 0;
    while i < actions.len()
        invariant
            i <= actions@.len(),
            models == claim_types::action_models(actions@),
            wanted == Action::Trace("claim_accepted"@),
            forall|k: int| 0 <= k < i ==> #[trigger] models[k] != wanted,
        decreases actions@.len() - i,
    {
        let hit = match &actions[i] {
            Action::Trace(name) => same_text(name.as_str(), "claim_accepted"),
            _ => false,
        };
        assert(models[i as int] == actions@[i as int]@);
        if hit {
            assert(models[i as int] == wanted);
            assert(models.contains(wanted));
            if accepted && coordinated {
                return only(
                    Effect::SetOwner {
                        display: display.to_owned(),
                        owner: sender_instance_id.to_owned(),
                    },
                );
            }
            return none();
        }
        i = i + 1;
    }
    assert(!models.contains(wanted));
    none()
}

// ── completions ──────────────────────────────────────────────────────────

/// The event that follows a wake. A panel that did not wake counts as one whose
/// input could not be written.
pub fn wake_finished(result: Result<(), String>) -> (e: OwnerEvent<String>)
    ensures
        e@ == (match result {
            Ok(()) => OwnerEvent::<Seq<char>>::WakeCompleted,
            Err(error) => OwnerEvent::<Seq<char>>::WriteFailed(error@),
        }),
{
    match result {
        Ok(()) => OwnerEvent::WakeCompleted,
        Err(error) => OwnerEvent::WriteFailed(error),
    }
}

/// The event that follows the write of an input.
pub fn write_finished(result: Result<(), String>) -> (e: OwnerEvent<String>)
    ensures
        e@ == (match result {
            Ok(()) => OwnerEvent::<Seq<char>>::WriteSucceeded,
            Err(error) => OwnerEvent::<Seq<char>>::WriteFailed(error@),
        }),
{
    match result {
        Ok(()) => OwnerEvent::WriteSucceeded,
        Err(error) => OwnerEvent::WriteFailed(error),
    }
}

/// The event that follows a slot of hooks. Only the hooks that run before can
/// abort.
pub fn hooks_finished(phase: Phase, result: HookResult) -> (e: OwnerEvent<String>)
    ensures
        e@ == (match phase {
            Phase::Before => OwnerEvent::<Seq<char>>::BeforeRelease(result),
            Phase::After => OwnerEvent::<Seq<char>>::AfterReleaseCompleted,
        }),
{
    match phase {
        Phase::Before => OwnerEvent::BeforeRelease(result),
        Phase::After => OwnerEvent::AfterReleaseCompleted,
    }
}

// ── local triggers ───────────────────────────────────────────────────────

/// The answer to a local claim.
#[derive(Clone, Copy, PartialEq, Eq, Debug, Structural)]
pub enum ClaimSharedResult {
    /// The owner has accepted and releases the display by `deadline`.
    Accepted { deadline: Nanos },
    /// The display has a flight already.
    Busy,
    /// The claim was denied, here or by the owner.
    Denied(ClaimDeniedReason),
    /// Nobody accepted, and the fallback has brought the display here.
    Completed,
    /// Nobody accepted, and the fallback did not apply.
    Failed(ClaimFailure),
}

/// A claim whose request is about to go out.
#[verifier::ext_equal]
#[derive(PartialEq, Eq, Debug)]
pub struct ClaimPending<T> {
    pub display: T,
    pub nonce: T,
    pub write_code: u8,
}

impl View for ClaimPending<String> {
    type V = ClaimPending<Seq<char>>;

    open spec fn view(&self) -> ClaimPending<Seq<char>> {
        ClaimPending { display: self.display@, nonce: self.nonce@, write_code: self.write_code }
    }
}

/// How a claim begins.
#[verifier::ext_equal]
#[derive(PartialEq, Eq, Debug)]
pub enum ClaimStart<T> {
    /// The claim is answered at once, an event being recorded where one is due.
    Answer { result: ClaimSharedResult, record: Option<T> },
    /// The request is to be sent to every addressable peer.
    Fanout { pending: ClaimPending<T>, counter: u64, message: ClaimMessage<T> },
}

impl View for ClaimStart<String> {
    type V = ClaimStart<Seq<char>>;

    open spec fn view(&self) -> ClaimStart<Seq<char>> {
        match *self {
            ClaimStart::Answer { result, record } => ClaimStart::Answer {
                result,
                record: text::opt_text(record),
            },
            ClaimStart::Fanout { pending, counter, message } => ClaimStart::Fanout {
                pending: pending@,
                counter,
                message: message@,
            },
        }
    }
}

/// What follows the fanout of a claim.
#[verifier::ext_equal]
#[derive(PartialEq, Eq, Debug)]
pub enum ClaimFanned<T> {
    /// Nobody was reached: the claim is answered, and an event is recorded.
    Answer { result: ClaimSharedResult, record: T },
    /// Begin a requester flight with so many peers.
    Begin { peer_count: usize, timeout: Nanos, release_cap: Nanos },
}

impl View for ClaimFanned<String> {
    type V = ClaimFanned<Seq<char>>;

    open spec fn view(&self) -> ClaimFanned<Seq<char>> {
        match *self {
            ClaimFanned::Answer { result, record } => ClaimFanned::Answer {
                result,
                record: record@,
            },
            ClaimFanned::Begin { peer_count, timeout, release_cap } => ClaimFanned::Begin {
                peer_count,
                timeout,
                release_cap,
            },
        }
    }
}

/// What follows the beginning of a requester flight.
pub struct ClaimBegun {
    pub effects: Vec<Effect<String>>,
    /// The answer, where there is one already; else that of the owner is awaited.
    pub answer: Option<ClaimSharedResult>,
    /// Whether the engine is to be told that the request is out.
    pub fanout_sent: bool,
}

/// A claim that is denied.
pub open spec fn denied(reason: ClaimDeniedReason) -> ClaimStart<Seq<char>> {
    ClaimStart::Answer { result: ClaimSharedResult::Denied(reason), record: None }
}

/// How a claim begins, and the state it leaves.
pub open spec fn claim_start(
    m: DriverModel,
    d: Seq<char>,
    busy: bool,
    addressable: nat,
    epoch_nanos: u128,
) -> (DriverModel, ClaimStart<Seq<char>>) {
    if !m.contexts.contains_key(d) || !m.contexts[d].writable {
        (m, denied(ClaimDeniedReason::Unsupported))
    } else if m.contexts[d].claim_identity is None {
        (m, denied(ClaimDeniedReason::IdentityUnavailable))
    } else if busy {
        (
            m,
            ClaimStart::Answer { result: ClaimSharedResult::Busy, record: Some("claim_busy"@) },
        )
    } else if addressable == 0 {
        (
            m,
            ClaimStart::Answer {
                result: ClaimSharedResult::Denied(ClaimDeniedReason::CoordinationDisabled),
                record: Some("claim_no_addressable_peers"@),
            },
        )
    } else {
        let nonce = nonce_text(epoch_nanos, m.counter);
        let next = counted(nonced(m, epoch_nanos));
        match claim_request(next, d, nonce) {
            Some(r) => (
                next,
                ClaimStart::Fanout {
                    pending: ClaimPending {
                        display: d,
                        nonce,
                        write_code: m.contexts[d].write_code()->0,
                    },
                    counter: next.counter,
                    message: ClaimMessage::ClaimRequest(r),
                },
            ),
            None => (next, denied(ClaimDeniedReason::Unsupported)),
        }
    }
}

/// Whether the engine refused to begin because it has a flight already.
pub open spec fn refused_busy(actions: Seq<Action<Seq<char>>>) -> bool {
    actions.contains(Action::BusyLocal)
}

/// The event that an action traces.
pub open spec fn trace_effect() -> spec_fn(Action<Seq<char>>) -> Option<Effect<Seq<char>>> {
    |a: Action<Seq<char>>|
        match a {
            Action::Trace(name) => Some(Effect::Record(name)),
            _ => None,
        }
}

/// The state after a claim has begun: the display is in flight, and its losses
/// are our own doing until the deadline.
pub open spec fn claim_flying(m: DriverModel, p: ClaimPending<Seq<char>>, now: Nanos) -> DriverModel {
    DriverModel {
        handle: HandleModel {
            suppressed: m.handle.suppressed.insert(
                p.display,
                clock::later(now, m.times.claim_timeout),
            ),
            ..m.handle
        },
        flights: m.flights.insert(
            p.display,
            ActiveFlight {
                nonce: p.nonce,
                peer_instance_id: Seq::empty(),
                peer_epoch: Seq::empty(),
                write_code: p.write_code,
            },
        ),
        ..m
    }
}

/// Whether the engine has asked for the fallback.
pub open spec fn tries_fallback(actions: Seq<Action<Seq<char>>>) -> bool {
    actions.contains(Action::AttemptFallback)
}

fn holds_fallback(actions: &Vec<Action<String>>) -> (res: bool)
    ensures
        res == tries_fallback(claim_types::action_models(actions@)),
{
    let ghost models = claim_types::action_models(actions@);
    let mut i: usize = 0;
    while i < actions.len()
        invariant
            i <= actions@.len(),
            models == claim_types::action_models(actions@),
            forall|k: int|
                0 <= k < i ==> #[trigger] models[k] != Action::<Seq<char>>::AttemptFallback,
        decreases actions@.len() - i,
    {
        assert(models[i as int] == actions@[i as int]@);
        if let Action::AttemptFallback = &actions[i] {
            assert(models.contains(Action::AttemptFallback));
            return true;
        }
        i = i + 1;
    }
    assert(!models.contains(Action::AttemptFallback));
    false
}

/// The answer to a claim that a verdict gives, if it gives one. `undecided` says
/// whether somebody else may still decide.
pub open spec fn claim_answer(
    m: DriverModel,
    d: Seq<char>,
    nonce: Seq<char>,
    verdict: ClaimVerdict,
    undecided: bool,
    now: Nanos,
) -> Option<ClaimSharedResult> {
    if !(m.flights.contains_key(d) && m.flights[d].nonce == nonce) {
        None
    } else {
        match verdict {
            ClaimVerdict::Accepted { .. } => Some(
                ClaimSharedResult::Accepted {
                    deadline: clock::later(now, m.times.release_deadline_cap),
                },
            ),
            ClaimVerdict::Denied(reason) => Some(ClaimSharedResult::Denied(reason)),
            _ => if undecided {
                None
            } else {
                Some(end_answer(None))
            },
        }
    }
}

/// The answer to a claim that ended without the owner's verdict, given what came
/// of the fallback where it was tried.
pub open spec fn end_answer(fallback: Option<FallbackOutcome>) -> ClaimSharedResult {
    match fallback {
        Some(FallbackOutcome::Wrote) | Some(FallbackOutcome::AlreadyOnTarget) =>
            ClaimSharedResult::Completed,
        Some(FallbackOutcome::IdentityUnavailable) => ClaimSharedResult::Failed(
            ClaimFailure::Denied(ClaimDeniedReason::IdentityUnavailable),
        ),
        _ => ClaimSharedResult::Failed(ClaimFailure::Denied(ClaimDeniedReason::Unsupported)),
    }
}

/// The answer to a claim that ended without the owner's verdict, given what came
/// of the fallback where it was tried.
pub fn claim_ended(fallback: Option<FallbackOutcome>) -> (res: ClaimSharedResult)
    ensures
        res == end_answer(fallback),
{
    match fallback {
        Some(FallbackOutcome::Wrote) | Some(FallbackOutcome::AlreadyOnTarget) =>
            ClaimSharedResult::Completed,
        Some(FallbackOutcome::IdentityUnavailable) => ClaimSharedResult::Failed(
            ClaimFailure::Denied(ClaimDeniedReason::IdentityUnavailable),
        ),
        _ => ClaimSharedResult::Failed(ClaimFailure::Denied(ClaimDeniedReason::Unsupported)),
    }
}

/// The answer to a claim that nobody has answered yet, where it is over: its
/// flight has ended, and no fallback is running.
pub fn settle_claim(requester_active: bool, falling_back: bool) -> (res: Option<
    ClaimSharedResult,
>)
    ensures
        res == (if requester_active || falling_back {
            None
        } else {
            Some(end_answer(None))
        }),
{
    if requester_active || falling_back {
        None
    } else {
        Some(claim_ended(None))
    }
}

impl Driver {
    /// Begin a claim. `busy` says whether the display's engine has a flight, and
    /// `addressable` how many peers a request could be addressed to.
    pub fn handle_claim_shared(
        &mut self,
        display: &str,
        busy: bool,
        addressable: usize,
        epoch_nanos: u128,
    ) -> (start: ClaimStart<String>)
        ensures
            (final(self)@, start@) == claim_start(
                old(self)@,
                display@,
                busy,
                addressable as nat,
                epoch_nanos,
            ),
    {
        let (writable, identified) = match self.contexts.get(display) {
            Some(ctx) => (ctx.writable, ctx.claim_identity.is_some()),
            None => (false, false),
        };
        if !writable {
            return ClaimStart::Answer {
                result: ClaimSharedResult::Denied(ClaimDeniedReason::Unsupported),
                record: None,
            };
        }
        if !identified {
            return ClaimStart::Answer {
                result: ClaimSharedResult::Denied(ClaimDeniedReason::IdentityUnavailable),
                record: None,
            };
        }
        if busy {
            return ClaimStart::Answer {
                result: ClaimSharedResult::Busy,
                record: Some("claim_busy".to_owned()),
            };
        }
        if addressable == 0 {
            return ClaimStart::Answer {
                result: ClaimSharedResult::Denied(ClaimDeniedReason::CoordinationDisabled),
                record: Some("claim_no_addressable_peers".to_owned()),
            };
        }
        let nonce = self.next_nonce(epoch_nanos);
        let counter: u64 = self.next_counter();
        let request = self.build_claim_request(display, nonce.as_str());
        let code = self.write_code_of(display);
        match (request, code) {
            (Some(request), Some(write_code)) => ClaimStart::Fanout {
                pending: ClaimPending { display: display.to_owned(), nonce, write_code },
                counter,
                message: ClaimMessage::ClaimRequest(request),
            },
            _ => ClaimStart::Answer {
                result: ClaimSharedResult::Denied(ClaimDeniedReason::Unsupported),
                record: None,
            },
        }
    }

    /// Go on once the request has been sent.
    pub fn claim_fanned_out(&self, fanout: FanoutResult) -> (next: ClaimFanned<String>)
        ensures
            next@ == (if fanout.contacted == 0 {
                ClaimFanned::<Seq<char>>::Answer {
                    result: ClaimSharedResult::Denied(ClaimDeniedReason::CoordinationDisabled),
                    record: "claim_no_addressable_peers"@,
                }
            } else {
                ClaimFanned::<Seq<char>>::Begin {
                    peer_count: fanout.contacted,
                    timeout: self.times.claim_timeout,
                    release_cap: self.times.release_deadline_cap,
                }
            }),
    {
        match negotiated_peer_count(fanout) {
            Some(peer_count) => ClaimFanned::Begin {
                peer_count,
                timeout: self.times.claim_timeout,
                release_cap: self.times.release_deadline_cap,
            },
            None => ClaimFanned::Answer {
                result: ClaimSharedResult::Denied(ClaimDeniedReason::CoordinationDisabled),
                record: "claim_no_addressable_peers".to_owned(),
            },
        }
    }

    /// Go on once the engine has begun the flight, or refused to.
    pub fn claim_begun(
        &mut self,
        pending: ClaimPending<String>,
        actions: &Vec<Action<String>>,
        now: Nanos,
    ) -> (begun: ClaimBegun)
        ensures
            ({
                let models = claim_types::action_models(actions@);
                let traces = models.filter_map(trace_effect());
                let until = clock::later(now, old(self)@.times.claim_timeout);
                if refused_busy(models) {
                    &&& final(self)@ == old(self)@
                    &&& begun.answer == Some(ClaimSharedResult::Busy)
                    &&& !begun.fanout_sent
                    &&& claim_types::effect_models(begun.effects@) == traces
                } else {
                    &&& final(self)@ == claim_flying(old(self)@, pending@, now)
                    &&& begun.answer is None
                    &&& begun.fanout_sent
                    &&& claim_types::effect_models(begun.effects@) == traces.push(
                        Effect::SetSuppression { display: pending@.display, until: Some(until) },
                    )
                }
            }),
    {
        let ghost models = claim_types::action_models(actions@);
        let mut effects: Vec<Effect<String>> = Vec::new();
        let mut refused = false;
        let mut i: usize = 0;
        assert(models.take(0) =~= Seq::<Action<Seq<char>>>::empty());
        assert(claim_types::effect_models(effects@) =~= Seq::<Effect<Seq<char>>>::empty());
        while i < actions.len()
            invariant
                i <= actions@.len(),
                models == claim_types::action_models(actions@),
                claim_types::effect_models(effects@) == models.take(i as int).filter_map(
                    trace_effect(),
                ),
                refused == (exists|k: int| 0 <= k < i && #[trigger] models[k] == Action::<Seq<char>>::BusyLocal),
            decreases actions@.len() - i,
        {
            let ghost before = effects@;
            proof {
                seqs::lemma_filter_map_step(models, i as int, trace_effect());
                assert(models[i as int] == actions@[i as int]@);
            }
            match &actions[i] {
                Action::Trace(name) => {
                    effects.push(Effect::Record(name.clone()));
                    assert(claim_types::effect_models(effects@) =~= claim_types::effect_models(
                        before,
                    ).push(Effect::Record(name@)));
                },
                Action::BusyLocal => {
                    refused = true;
                    assert(models[i as int] == Action::<Seq<char>>::BusyLocal);
                },
                _ => {},
            }
            i = i + 1;
        }
        proof {
            seqs::lemma_take_all(models);
        }
        if refused {
            assert(models.contains(Action::BusyLocal));
            return ClaimBegun {
                effects,
                answer: Some(ClaimSharedResult::Busy),
                fanout_sent: false,
            };
        }
        assert(!models.contains(Action::BusyLocal));
        let until: Nanos = after(now, self.times.claim_timeout);
        self.handle.suppressed.insert(pending.display.clone(), until);
        let ghost traces = effects@;
        effects.push(
            Effect::SetSuppression { display: pending.display.clone(), until: Some(until) },
        );
        assert(claim_types::effect_models(effects@) =~= claim_types::effect_models(traces).push(
            Effect::SetSuppression { display: pending@.display, until: Some(until) },
        ));
        self.flights.insert(
            pending.display,
            ActiveFlight {
                nonce: pending.nonce,
                peer_instance_id: String::new(),
                peer_epoch: String::new(),
                write_code: pending.write_code,
            },
        );
        ClaimBegun { effects, answer: None, fanout_sent: true }
    }

    /// A peer has answered a claim, and the engine has reacted to that with
    /// `actions`; `still_active` says whether its flight goes on. The claim is
    /// answered by the owner's verdict. A peer that is not the owner decides
    /// nothing as long as another peer, or the fallback, may.
    pub fn claim_answered(
        &self,
        display: &str,
        nonce: &str,
        verdict: ClaimVerdict,
        actions: &Vec<Action<String>>,
        still_active: bool,
        now: Nanos,
    ) -> (res: Option<ClaimSharedResult>)
        ensures
            res == claim_answer(
                self@,
                display@,
                nonce@,
                verdict,
                still_active || tries_fallback(claim_types::action_models(actions@)),
                now,
            ),
    {
        let current = match self.flights.get(display) {
            Some(f) => same_text(f.nonce.as_str(), nonce),
            None => false,
        };
        if !current {
            return None;
        }
        match verdict {
            ClaimVerdict::Accepted { .. } => Some(
                ClaimSharedResult::Accepted {
                    deadline: after(now, self.times.release_deadline_cap),
                },
            ),
            ClaimVerdict::Denied(reason) => Some(ClaimSharedResult::Denied(reason)),
            ClaimVerdict::NotOwner | ClaimVerdict::Other(_) => if still_active
                || holds_fallback(actions) {
                None
            } else {
                Some(claim_ended(None))
            },
        }
    }

    /// Arm a display.
    pub fn handle_claim_arm(&mut self, display: &str, now: Nanos) -> (res: Result<
        Nanos,
        ArmFailure,
    >)
        ensures
            ({
                let m = old(self)@;
                let until = clock::later(now, m.times.armed_window);
                if m.contexts.contains_key(display@) && m.contexts[display@].claimable() {
                    &&& res == Ok::<Nanos, ArmFailure>(until)
                    &&& final(self)@ == (DriverModel {
                        handle: HandleModel {
                            armed: m.handle.armed.insert(display@, until),
                            ..m.handle
                        },
                        ..m
                    })
                } else {
                    &&& res == Err::<Nanos, ArmFailure>(ArmFailure::NotClaimCapable)
                    &&& final(self)@ == m
                }
            }),
    {
        let claimable = match self.contexts.get(display) {
            Some(ctx) => ctx.writable && ctx.local_input_code.is_some()
                && ctx.claim_identity.is_some(),
            None => false,
        };
        if !claimable {
            return Err(ArmFailure::NotClaimCapable);
        }
        let until: Nanos = after(now, self.times.armed_window);
        self.handle.armed.insert(display.to_owned(), until);
        Ok(until)
    }

    /// The engine event of a display's removal: its requester side hears of it
    /// where that has a flight, its owner side otherwise.
    pub fn handle_display_removed(requester_active: bool) -> (feed: Feed<String>)
        ensures
            feed@ == (if requester_active {
                Feed::<Seq<char>>::Requester(RequesterEvent::DisplayRemoved)
            } else {
                Feed::<Seq<char>>::Owner(OwnerEvent::DisplayRemoved)
            }),
    {
        if requester_active {
            Feed::Requester(RequesterEvent::DisplayRemoved)
        } else {
            Feed::Owner(OwnerEvent::DisplayRemoved)
        }
    }

    /// Forget a display that was removed, once its engine has heard of it.
    pub fn forget_display(&mut self, display: &str)
        ensures
            final(self)@ == without_display(old(self)@, display@),
    {
        self.contexts.remove(display);
        self.flights.remove(display);
        self.handle.suppressed.remove(display);
    }

    /// Ask a display's owner how long it has been idle. `abandoned` are the
    /// queries that nobody waits for any more.
    pub fn handle_idle_query(
        &mut self,
        display: &str,
        abandoned: &Vec<String>,
        epoch_nanos: u128,
    ) -> (effects: Vec<Effect<String>>)
        ensures
            ({
                let m = old(self)@;
                let nonce = nonce_text(epoch_nanos, m.counter);
                let next = counted(nonced(m, epoch_nanos));
                &&& final(self)@ == (DriverModel {
                    pending_idle: without_keys(m.pending_idle, text::texts(abandoned@)).insert(
                        nonce,
                        display@,
                    ),
                    ..next
                })
                &&& claim_types::effect_models(effects@) == seq![
                    Effect::Log("idle_query_sent nonce="@ + nonce),
                    Effect::Fanout {
                        counter: next.counter,
                        nonce,
                        message: ClaimMessage::IdleQuery {
                            display_identity: identity_or_empty(m, display@),
                            nonce,
                        },
                    },
                ]
            }),
    {
        let display_identity = match self.contexts.get(display) {
            Some(ctx) => match &ctx.claim_identity {
                Some(i) => i.clone(),
                None => String::new(),
            },
            None => String::new(),
        };
        let nonce = self.next_nonce(epoch_nanos);
        let counter: u64 = self.next_counter();
        let ghost pending0 = self.pending_idle@;
        let ghost state0 = self@;
        let ghost gone = text::texts(abandoned@);
        let mut i: usize = 0;
        assert(without_keys(pending0, gone.take(0)) =~= pending0);
        while i < abandoned.len()
            invariant
                i <= abandoned@.len(),
                gone == text::texts(abandoned@),
                self.pending_idle@ == without_keys(pending0, gone.take(i as int)),
                self@ == (DriverModel { pending_idle: self.pending_idle@, ..state0 }),
            decreases abandoned@.len() - i,
        {
            self.pending_idle.remove(abandoned[i].as_str());
            proof {
                lemma_without_keys_step(pending0, gone, i as int);
            }
            i = i + 1;
        }
        proof {
            seqs::lemma_take_all(gone);
        }
        self.pending_idle.insert(nonce.clone(), display.to_owned());
        let ghost n = nonce@;
        let mut effects: Vec<Effect<String>> = Vec::new();
        effects.push(Effect::Log(prefixed("idle_query_sent nonce=", nonce.as_str())));
        effects.push(
            Effect::Fanout {
                counter,
                nonce: nonce.clone(),
                message: ClaimMessage::IdleQuery { display_identity, nonce },
            },
        );
        assert(claim_types::effect_models(effects@) =~= seq![
            Effect::Log("idle_query_sent nonce="@ + n),
            Effect::Fanout {
                counter: state0.counter,
                nonce: n,
                message: ClaimMessage::IdleQuery {
                    display_identity: identity_or_empty(old(self)@, display@),
                    nonce: n,
                },
            },
        ]);
        effects
    }

    /// Sweep one display: a suppression that its engine no longer upholds goes.
    pub fn sweep_display(&mut self, display: &str, engine_suppresses: bool) -> (effects: Vec<
        Effect<String>,
    >)
        ensures
            final(self)@ == (if engine_suppresses {
                old(self)@
            } else {
                DriverModel {
                    handle: HandleModel {
                        suppressed: old(self)@.handle.suppressed.remove(display@),
                        ..old(self)@.handle
                    },
                    ..old(self)@
                }
            }),
            claim_types::effect_models(effects@) == (if engine_suppresses {
                Seq::<Effect<Seq<char>>>::empty()
            } else {
                seq![Effect::SetSuppression { display: display@, until: None }]
            }),
    {
        if engine_suppresses {
            none()
        } else {
            self.clear_claim_suppression(display)
        }
    }

    /// Drop the flight of a display whose swept actions, dispatched by now, ended
    /// it.
    pub fn sweep_deadlines(&mut self, display: &str, terminal: bool)
        ensures
            final(self)@ == (if terminal {
                DriverModel { flights: old(self)@.flights.remove(display@), ..old(self)@ }
            } else {
                old(self)@
            }),
    {
        if terminal {
            self.flights.remove(display);
        }
    }
}

/// Whether a list of actions ends a flight.
pub fn ends_flight(actions: &Vec<Action<String>>) -> (res: bool)
    ensures
        res == claim_types::action_models(actions@).contains(Action::Terminal),
{
    let ghost models = claim_types::action_models(actions@);
    let mut i: usize = 0;
    while i < actions.len()
        invariant
            i <= actions@.len(),
            models == claim_types::action_models(actions@),
            forall|k: int| 0 <= k < i ==> #[trigger] models[k] != Action::<Seq<char>>::Terminal,
        decreases actions@.len() - i,
    {
        assert(models[i as int] == actions@[i as int]@);
        match &actions[i] {
            Action::Terminal => {
                assert(models[i as int] == Action::<Seq<char>>::Terminal);
                return true;
            },
            _ => {},
        }
        i = i + 1;
    }
    false
}

/// A table without some keys.
pub open spec fn without_keys<V>(t: Map<Seq<char>, V>, keys: Seq<Seq<char>>) -> Map<Seq<char>, V> {
    Map::new(|k: Seq<char>| t.contains_key(k) && !keys.contains(k), |k: Seq<char>| t[k])
}

/// A display's identity, empty where it has none.
pub open spec fn identity_or_empty(m: DriverModel, d: Seq<char>) -> Seq<char> {
    if m.contexts.contains_key(d) && m.contexts[d].claim_identity is Some {
        m.contexts[d].claim_identity->0
    } else {
        Seq::empty()
    }
}

/// A state that knows nothing of a display, but for its arming.
pub open spec fn without_display(m: DriverModel, d: Seq<char>) -> DriverModel {
    DriverModel {
        contexts: m.contexts.remove(d),
        flights: m.flights.remove(d),
        handle: HandleModel { suppressed: m.handle.suppressed.remove(d), ..m.handle },
        ..m
    }
}

proof fn lemma_without_keys_step<V>(t: Map<Seq<char>, V>, keys: Seq<Seq<char>>, i: int)
    requires
        0 <= i < keys.len(),
    ensures
        without_keys(t, keys.take(i + 1)) == without_keys(t, keys.take(i)).remove(keys[i]),
{
    let longer = keys.take(i + 1);
    let shorter = keys.take(i);
    assert forall|k: Seq<char>| longer.contains(k) == (shorter.contains(k) || k == keys[i]) by {
        if shorter.contains(k) {
            let j = choose|j: int| 0 <= j < shorter.len() && #[trigger] shorter[j] == k;
            assert(longer[j] == k);
        }
        if longer.contains(k) {
            let j = choose|j: int| 0 <= j < longer.len() && #[trigger] longer[j] == k;
            if j < i {
                assert(shorter[j] == k);
            }
        }
        assert(longer[i] == keys[i]);
    }
    assert(without_keys(t, longer) =~= without_keys(t, shorter).remove(keys[i]));
}

// ── generations ──────────────────────────────────────────────────────────

/// What a display's executor says of itself.
pub struct ExecutorFacts {
    pub writability: InputWritability,
    pub claim_identity: Option<String>,
}

/// A display of the configuration.
pub struct DisplayRow {
    pub name: String,
    /// Whether the display is shared between instances.
    pub shared: bool,
    /// What its executor says, where it has one.
    pub executor: Option<ExecutorFacts>,
    pub shared_input_code: Option<u8>,
    pub shared_input_write_code: Option<u8>,
    pub hooks: HookSlots,
}

/// What a new configuration means for the engines.
pub struct ContextRefresh {
    /// The displays that need an engine; one that has it keeps it.
    pub engines: Vec<String>,
    /// The displays whose engines go.
    pub removed: Vec<String>,
}

/// The context that a display of the configuration gets: only a shared display
/// with an executor takes part in claims.
pub open spec fn row_context(r: DisplayRow) -> Option<DisplayCtx<Seq<char>>> {
    match r.executor {
        Some(e) if r.shared => Some(
            DisplayCtx {
                local_input_code: r.shared_input_code,
                local_input_write_code: r.shared_input_write_code,
                claim_identity: text::opt_text(e.claim_identity),
                writable: e.writability != InputWritability::Incapable,
                hooks: r.hooks,
            },
        ),
        _ => None,
    }
}

/// The name of a display that takes part in claims.
pub open spec fn row_engine() -> spec_fn(DisplayRow) -> Option<Seq<char>> {
    |r: DisplayRow|
        if row_context(r) is Some {
            Some(r.name@)
        } else {
            None
        }
}

/// The names of the configured displays.
pub open spec fn row_names(rows: Seq<DisplayRow>) -> Seq<Seq<char>> {
    rows.map_values(|r: DisplayRow| r.name@)
}

/// The contexts after those of the configured displays were taken up.
pub open spec fn contexts_with(
    contexts: Map<Seq<char>, DisplayCtx<Seq<char>>>,
    rows: Seq<DisplayRow>,
) -> Map<Seq<char>, DisplayCtx<Seq<char>>>
    decreases rows.len(),
{
    if rows.len() == 0 {
        contexts
    } else {
        let before = contexts_with(contexts, rows.drop_last());
        match row_context(rows.last()) {
            Some(ctx) => before.insert(rows.last().name@, ctx),
            None => before,
        }
    }
}

impl Driver {
    /// Take up the displays of a new configuration or of new executors. A display
    /// that is no longer configured loses its context, flight and engine; one
    /// that is, keeps what it had unless it is replaced.
    pub fn refresh_contexts_from_config(&mut self, rows: Vec<DisplayRow>) -> (res: ContextRefresh)
        ensures
            ({
                let known = contexts_with(old(self)@.contexts, rows@);
                let gone = text::texts(res.removed@);
                &&& text::texts(res.engines@) == rows@.filter_map(row_engine())
                &&& forall|d: Seq<char>| #[trigger]
                    gone.contains(d) <==> known.contains_key(d) && !row_names(rows@).contains(d)
                &&& final(self)@ == (DriverModel {
                    contexts: without_keys(known, gone),
                    flights: without_keys(old(self)@.flights, gone),
                    ..old(self)@
                })
            }),
    {
        let ghost before = self@;
        let ghost all = rows@;
        let mut names: Vec<String> = Vec::new();
        let mut engines: Vec<String> = Vec::new();
        assert(all.take(0) =~= Seq::<DisplayRow>::empty());
        assert(text::texts(engines@) =~= Seq::<Seq<char>>::empty());
        assert(text::texts(names@) =~= row_names(all.take(0)));
        for row in it: rows
            invariant
                it.seq() == all,
                0 <= it.index() <= all.len(),
                text::texts(names@) == row_names(all.take(it.index() as int)),
                text::texts(engines@) == all.take(it.index() as int).filter_map(row_engine()),
                self@ == (DriverModel {
                    contexts: contexts_with(before.contexts, all.take(it.index() as int)),
                    ..before
                }),
        {
            let ghost k = it.index() as int;
            let ghost names0 = names@;
            let ghost engines0 = engines@;
            proof {
                assert(row == all[k]);
                assert(all.take(k + 1).drop_last() =~= all.take(k));
                assert(all.take(k + 1).last() == row);
                seqs::lemma_filter_map_step(all, k, row_engine());
            }
            names.push(row.name.clone());
            assert(text::texts(names@) =~= text::texts(names0).push(row.name@));
            assert(row_names(all.take(k + 1)) =~= row_names(all.take(k)).push(row.name@));
            match row.executor {
                Some(e) => {
                    if row.shared {
                        engines.push(row.name.clone());
                        assert(text::texts(engines@) =~= text::texts(engines0).push(row.name@));
                        let ctx = DisplayCtx {
                            local_input_code: row.shared_input_code,
                            local_input_write_code: row.shared_input_write_code,
                            claim_identity: e.claim_identity,
                            writable: e.writability.is_not_incapable(),
                            hooks: row.hooks,
                        };
                        self.contexts.insert(row.name, ctx);
                    }
                },
                None => {},
            }
        }
        proof {
            seqs::lemma_take_all(all);
            assert(text::texts(names@) == row_names(all));
        }
        let removed = self.unconfigured(&names);
        let ghost known = self@.contexts;
        let ghost gone = text::texts(removed@);
        let mut i: usize = 0;
        proof {
            assert(without_keys(known, gone.take(0)) =~= known);
            assert(without_keys(before.flights, gone.take(0)) =~= before.flights);
        }
        while i < removed.len()
            invariant
                i <= removed@.len(),
                gone == text::texts(removed@),
                self@ == (DriverModel {
                    contexts: without_keys(known, gone.take(i as int)),
                    flights: without_keys(before.flights, gone.take(i as int)),
                    ..before
                }),
            decreases removed@.len() - i,
        {
            proof {
                lemma_without_keys_step(known, gone, i as int);
                lemma_without_keys_step(before.flights, gone, i as int);
            }
            self.contexts.remove(removed[i].as_str());
            self.flights.remove(removed[i].as_str());
            i = i + 1;
        }
        proof {
            seqs::lemma_take_all(gone);
        }
        ContextRefresh { engines, removed }
    }

    /// The displays with a context that are not among `names`.
    fn unconfigured(&self, names: &Vec<String>) -> (removed: Vec<String>)
        ensures
            forall|d: Seq<char>| #[trigger]
                text::texts(removed@).contains(d) <==> self@.contexts.contains_key(d)
                    && !text::texts(names@).contains(d),
    {
        let mut removed: Vec<String> = Vec::new();
        let n: usize = self.contexts.len();
        let ghost pairs = self.contexts.pairs();
        let ghost wanted = text::texts(names@);
        proof {
            seqs::lemma_assoc(pairs);
        }
        let mut i: usize = 0;
        while i < n
            invariant
                i <= n,
                n == pairs.len(),
                pairs == self.contexts.pairs(),
                wanted == text::texts(names@),
                forall|d: Seq<char>| #[trigger]
                    text::texts(removed@).contains(d) <==> (exists|k: int|
                        0 <= k < i && (#[trigger] pairs[k]).0 == d) && !wanted.contains(d),
            decreases n - i,
        {
            let ghost removed0 = text::texts(removed@);
            let key = self.contexts.key_at(i);
            let ghost here = key@;
            let configured = holds_text(names, key.as_str());
            if !configured {
                removed.push(key.clone());
                assert(text::texts(removed@) =~= removed0.push(here));
            }
            proof {
                let now = text::texts(removed@);
                assert forall|d: Seq<char>| #[trigger] now.contains(d) <==> (exists|k: int|
                    0 <= k < i + 1 && (#[trigger] pairs[k]).0 == d) && !wanted.contains(d) by {
                    if removed0.contains(d) {
                        let j = choose|j: int| 0 <= j < removed0.len() && removed0[j] == d;
                        assert(now[j] == d);
                        let k = choose|k: int| 0 <= k < i && (#[trigger] pairs[k]).0 == d;
                        assert(pairs[k].0 == d);
                    }
                    if now.contains(d) && !removed0.contains(d) {
                        let j = choose|j: int| 0 <= j < now.len() && now[j] == d;
                        assert(j == removed0.len());
                        assert(pairs[i as int].0 == d);
                    }
                    if d == here && !configured {
                        assert(now[removed0.len() as int] == d);
                    }
                    if (exists|k: int| 0 <= k < i + 1 && (#[trigger] pairs[k]).0 == d)
                        && !wanted.contains(d) {
                        let k = choose|k: int| 0 <= k < i + 1 && (#[trigger] pairs[k]).0 == d;
                        if k < i {
                            assert(removed0.contains(d));
                        } else {
                            assert(d == here);
                        }
                    }
                }
            }
            i = i + 1;
        }
        proof {
            assert forall|d: Seq<char>| #[trigger]
                text::texts(removed@).contains(d) <==> self@.contexts.contains_key(d)
                    && !wanted.contains(d) by {
                if self@.contexts.contains_key(d) {
                    let k = choose|k: int| 0 <= k < pairs.len() && (#[trigger] pairs[k]).0 == d;
                    assert(pairs[k].0 == d);
                }
            }
        }
        removed
    }
}

// ── laws ─────────────────────────────────────────────────────────────────

/// A completion that is tagged with another nonce than that of the display's
/// flight reaches no engine.
pub proof fn law_stale_completion_goes_nowhere(
    m: DriverModel,
    d: Seq<char>,
    nonce: Seq<char>,
    event: OwnerEvent<Seq<char>>,
    requester_active: bool,
)
    requires
        flight_nonce(m, d) != nonce || !m.flights.contains_key(d),
    ensures
        completion_feed(m, d, nonce, event, requester_active) is None,
{
}

/// A finished flight leaves nothing of itself behind, and no other display
/// notices.
pub proof fn law_finished_flight_is_cleared(m: DriverModel, d: Seq<char>, other: Seq<char>)
    ensures
        !flight_over(m, d).flights.contains_key(d),
        !flight_over(m, d).handle.suppressed.contains_key(d),
        other != d ==> flight_over(m, d).flights.contains_key(other) == m.flights.contains_key(
            other,
        ) && flight_over(m, d).handle.suppressed.contains_key(other)
            == m.handle.suppressed.contains_key(other),
        other != d && m.flights.contains_key(other) ==> flight_over(m, d).flights[other]
            == m.flights[other],
        other != d && m.handle.suppressed.contains_key(other) ==> flight_over(
            m,
            d,
        ).handle.suppressed[other] == m.handle.suppressed[other],
{
}

/// Executing an action never lowers the counter, and every frame it addresses to
/// a peer carries a counter above all before it, as long as there is one.
pub proof fn law_frames_carry_fresh_counters(
    m: DriverModel,
    d: Seq<char>,
    action: Action<Seq<char>>,
    env: ActionEnv,
    i: int,
)
    requires
        0 <= i < action_step(m, d, action, env).effects.len(),
        action_step(m, d, action, env).effects[i] is Send,
        m.counter < u64::MAX,
    ensures
        action_step(m, d, action, env).effects[i]->Send_counter > m.counter,
        action_step(m, d, action, env).state.counter == action_step(
            m,
            d,
            action,
            env,
        ).effects[i]->Send_counter,
{
}

/// A frame goes only to the other side of the display's flight, under the epoch
/// that this side has authenticated; never to nobody.
pub proof fn law_frames_go_to_the_flights_peer(
    m: DriverModel,
    d: Seq<char>,
    action: Action<Seq<char>>,
    env: ActionEnv,
    i: int,
)
    requires
        0 <= i < action_step(m, d, action, env).effects.len(),
        action_step(m, d, action, env).effects[i] is Send,
    ensures
        ({
            let e = action_step(m, d, action, env).effects[i];
            &&& m.flights.contains_key(d)
            &&& e->Send_peer == m.flights[d].peer_instance_id
            &&& e->peer_epoch == m.flights[d].peer_epoch
            &&& e->Send_peer.len() > 0
            &&& e->peer_epoch.len() > 0
        }),
{
}

/// Executing an action leaves every flight, context and suppression alone.
pub proof fn law_actions_keep_the_tables(
    m: DriverModel,
    d: Seq<char>,
    action: Action<Seq<char>>,
    env: ActionEnv,
)
    ensures
        action_step(m, d, action, env).state == (DriverModel {
            counter: action_step(m, d, action, env).state.counter,
            ..m
        }),
{
}

/// An owner that gives a display away selects the requester's input.
pub proof fn law_owner_selects_the_requesters_input(
    m: DriverModel,
    f: InboundFrame<Seq<char>>,
    r: ClaimRequest<Seq<char>>,
    coord: Option<Map<Seq<char>, CoordRecord<Seq<char>>>>,
    d: Seq<char>,
    requester_active: bool,
)
    requires
        f.message == ClaimMessage::ClaimRequest(r),
        concerns(m, f, Some(d)),
        r.requester_input_code <= u8::MAX,
        m.contexts[d].write_code() is Some,
    ensures
        ({
            let next = request_result(m, f, r, coord, Some(d)).state;
            let env = ActionEnv { has_executor: true, requester_active };
            action_step(next, d, Action::WriteInput, env).effects == seq![
                Effect::WriteInput {
                    display: d,
                    target: r.requester_input_code as u8,
                    nonce: f.nonce,
                },
            ]
        }),
{
}

/// The verdict on a request goes back to its sender, under its nonce.
pub proof fn law_verdict_answers_the_request(
    m: DriverModel,
    f: InboundFrame<Seq<char>>,
    r: ClaimRequest<Seq<char>>,
    coord: Option<Map<Seq<char>, CoordRecord<Seq<char>>>>,
    d: Seq<char>,
    verdict: ClaimVerdict,
    env: ActionEnv,
)
    requires
        f.message == ClaimMessage::ClaimRequest(r),
        concerns(m, f, Some(d)),
        f.sender_instance_id.len() > 0,
        f.sender_epoch.len() > 0,
    ensures
        ({
            let next = request_result(m, f, r, coord, Some(d)).state;
            action_step(next, d, Action::SendVerdict(verdict), env).effects == seq![
                verdict_send(m, f.sender_instance_id, f.sender_epoch, f.nonce, verdict),
            ]
        }),
{
}

/// A request for a display that this instance does not know is answered "not
/// owner", and no flight begins.
pub proof fn law_unknown_display_is_not_ours(
    m: DriverModel,
    f: InboundFrame<Seq<char>>,
    r: ClaimRequest<Seq<char>>,
    coord: Option<Map<Seq<char>, CoordRecord<Seq<char>>>>,
    found: Option<Seq<char>>,
)
    requires
        f.message == ClaimMessage::ClaimRequest(r),
        concerns(m, f, found),
        forall|d: Seq<char>| #[trigger]
            m.contexts.contains_key(d) ==> m.contexts[d].claim_identity != Some(
                r.display_identity,
            ),
    ensures
        request_result(m, f, r, coord, found).state.flights == m.flights,
        request_result(m, f, r, coord, found).call == InboundCall::<Seq<char>>::Nothing,
        request_result(m, f, r, coord, found).effects == seq![
            verdict_send(
                m,
                f.sender_instance_id,
                f.sender_epoch,
                f.nonce,
                ClaimVerdict::NotOwner,
            ),
        ],
{
}

/// An answer or a failure report under an unknown nonce changes nothing.
pub proof fn law_unknown_nonce_changes_nothing(
    m: DriverModel,
    f: InboundFrame<Seq<char>>,
    coord: Option<Map<Seq<char>, CoordRecord<Seq<char>>>>,
    idle_ms: Option<u64>,
    epoch_nanos: u128,
    nonce: Seq<char>,
    verdict: ClaimVerdict,
    found: Option<Seq<char>>,
)
    requires
        f.message == (ClaimMessage::ClaimResponse { nonce, verdict }),
        concerns(m, f, found),
        forall|d: Seq<char>| #[trigger]
            m.flights.contains_key(d) ==> m.flights[d].nonce != nonce,
    ensures
        ({
            let model = inbound_result(m, f, coord, idle_ms, epoch_nanos, found);
            &&& model.state == m
            &&& model.effects.len() == 0
            &&& model.call == InboundCall::<Seq<char>>::Nothing
        }),
{
}

/// An idle report counts only when it comes from the display's owner.
pub proof fn law_idle_report_needs_the_owner(
    m: DriverModel,
    f: InboundFrame<Seq<char>>,
    coord: Option<Map<Seq<char>, CoordRecord<Seq<char>>>>,
    idle_ms: Option<u64>,
    epoch_nanos: u128,
    reported: u64,
    counter: u64,
    query: Seq<char>,
    found: Option<Seq<char>>,
)
    requires
        f.message == (ClaimMessage::IdleReport { idle_ms: reported, counter, nonce: query }),
        concerns(m, f, found),
        inbound_result(m, f, coord, idle_ms, epoch_nanos, found).effects.len() > 0,
    ensures
        m.pending_idle.contains_key(query),
        coord is Some,
        coord->0.contains_key(m.pending_idle[query]),
        coord->0[m.pending_idle[query]].owner_instance_id == Some(f.sender_instance_id),
{
}

/// An idle query is answered only for a display that this instance owns.
pub proof fn law_idle_query_needs_ownership(
    m: DriverModel,
    f: InboundFrame<Seq<char>>,
    coord: Option<Map<Seq<char>, CoordRecord<Seq<char>>>>,
    idle_ms: Option<u64>,
    epoch_nanos: u128,
    identity: Seq<char>,
    nonce: Seq<char>,
    found: Option<Seq<char>>,
)
    requires
        f.message == (ClaimMessage::IdleQuery { display_identity: identity, nonce }),
        concerns(m, f, found),
        inbound_result(m, f, coord, idle_ms, epoch_nanos, found).effects.len() > 0,
    ensures
        found is Some,
        m.contexts.contains_key(found->0),
        m.contexts[found->0].claim_identity == Some(identity),
        coord is Some,
        coord->0.contains_key(found->0),
        coord->0[found->0].owned,
{
}

/// A claim goes out only for a known display that is writable, identified and
/// free, and only where somebody can be addressed; its request names this
/// instance and the code to write.
pub proof fn law_claim_needs_a_free_display(
    m: DriverModel,
    d: Seq<char>,
    busy: bool,
    addressable: nat,
    epoch_nanos: u128,
)
    requires
        claim_start(m, d, busy, addressable, epoch_nanos).1 is Fanout,
    ensures
        m.contexts.contains_key(d),
        m.contexts[d].claimable(),
        m.contexts[d].write_code() is Some,
        !busy,
        addressable > 0,
        ({
            let start = claim_start(m, d, busy, addressable, epoch_nanos).1;
            &&& start->message matches ClaimMessage::ClaimRequest(r)
            &&& r.requester_instance_id == m.local_instance_id
            &&& r.requester_input_code == m.contexts[d].write_code()->0
            &&& r.nonce == start->pending.nonce
            &&& r.counter == start->counter
        }),
{
}

/// From a claim until its deadline the display's losses are our own doing, and
/// its flight answers to the request's nonce.
pub proof fn law_claim_is_suppressed_until_its_deadline(
    m: DriverModel,
    p: ClaimPending<Seq<char>>,
    now: Nanos,
    t: Nanos,
)
    requires
        now <= t < clock::later(now, m.times.claim_timeout),
    ensures
        claim_flying(m, p, now).handle.suppressed.contains_key(p.display),
        t < claim_flying(m, p, now).handle.suppressed[p.display],
        flight_named(claim_flying(m, p, now), p.nonce, Some(p.display)),
{
}

/// A claim is accepted exactly by an accepting verdict under its nonce: nothing
/// that happens before, and no end without a verdict, accepts it. The display is
/// then released within the release deadline.
pub proof fn law_only_a_verdict_accepts_a_claim(
    m: DriverModel,
    d: Seq<char>,
    busy: bool,
    addressable: nat,
    epoch_nanos: u128,
    nonce: Seq<char>,
    verdict: ClaimVerdict,
    undecided: bool,
    fallback: Option<FallbackOutcome>,
    now: Nanos,
)
    ensures
        claim_start(m, d, busy, addressable, epoch_nanos).1 matches ClaimStart::Answer {
            result,
            ..
        } ==> result !is Accepted,
        end_answer(fallback) !is Accepted,
        (claim_answer(m, d, nonce, verdict, undecided, now) matches Some(result)
            && result is Accepted) <==> (m.flights.contains_key(d) && m.flights[d].nonce == nonce
            && verdict is Accepted),
        m.flights.contains_key(d) && m.flights[d].nonce == nonce && verdict is Accepted
            ==> claim_answer(m, d, nonce, verdict, undecided, now) == Some(
            ClaimSharedResult::Accepted {
                deadline: clock::later(now, m.times.release_deadline_cap),
            },
        ),
{
}

/// A display stays armed through every sweep before its deadline, and no sweep
/// at or past the deadline leaves it armed.
pub proof fn law_arming_lasts_until_its_deadline(
    deadlines: Map<Seq<char>, Nanos>,
    d: Seq<char>,
    deadline: Nanos,
    now: Nanos,
)
    ensures
        now < deadline ==> unexpired(deadlines.insert(d, deadline), now).contains_key(d)
            && unexpired(deadlines.insert(d, deadline), now)[d] == deadline,
        now >= deadline ==> !unexpired(deadlines.insert(d, deadline), now).contains_key(d),
{
}

/// No more than sixty-four nonces are ever remembered, the newest among them.
pub proof fn law_nonce_ring_is_bounded(m: DriverModel, epoch_nanos: u128)
    requires
        m.nonces.len() <= NONCE_RING,
    ensures
        nonced(m, epoch_nanos).nonces.len() <= NONCE_RING,
        nonced(m, epoch_nanos).nonces.last() == nonce_text(epoch_nanos, m.counter),
{
}

/// A removed display keeps no flight, context or suppression.
pub proof fn law_removed_display_is_forgotten(m: DriverModel, d: Seq<char>)
    ensures
        !without_display(m, d).contexts.contains_key(d),
        !without_display(m, d).flights.contains_key(d),
        !without_display(m, d).handle.suppressed.contains_key(d),
{
}

/// A claim asks for the input that the panel accepts: the configured write code
/// where there is one, whatever the panel reports, and else the code that it
/// reports. The claim itself remembers the same code.
pub proof fn law_claim_sends_the_code_that_the_panel_accepts(
    m: DriverModel,
    d: Seq<char>,
    busy: bool,
    addressable: nat,
    epoch_nanos: u128,
)
    requires
        claim_start(m, d, busy, addressable, epoch_nanos).1 is Fanout,
    ensures
        ({
            let start = claim_start(m, d, busy, addressable, epoch_nanos).1;
            let ctx = m.contexts[d];
            &&& start->message matches ClaimMessage::ClaimRequest(r)
            &&& ctx.local_input_write_code matches Some(w) ==> r.requester_input_code == w
                && start->pending.write_code == w
            &&& ctx.local_input_write_code is None ==> ctx.local_input_code is Some
                && r.requester_input_code == ctx.local_input_code->0
                && start->pending.write_code == ctx.local_input_code->0
        }),
{
}

/// The direct fallback writes that code too, exactly where there is a panel to
/// write to and a code to write, and else fails aloud.
pub proof fn law_fallback_writes_the_code_that_the_panel_accepts(
    m: DriverModel,
    d: Seq<char>,
    env: ActionEnv,
)
    requires
        m.contexts.contains_key(d),
    ensures
        ({
            let step = action_step(m, d, Action::AttemptFallback, env);
            let ctx = m.contexts[d];
            let coded = ctx.local_input_write_code is Some || ctx.local_input_code is Some;
            &&& step.state == m
            &&& step.feed is None
            &&& env.has_executor && coded ==> {
                &&& step.effects.len() == 2
                &&& step.effects[0] == Effect::Record("claim_fallback_direct"@)
                &&& ctx.local_input_write_code matches Some(w) ==> step.effects[1]
                    == (Effect::Fallback { display: d, target: w })
                &&& ctx.local_input_write_code is None ==> step.effects[1] == (Effect::Fallback {
                    display: d,
                    target: ctx.local_input_code->0,
                })
            }
            &&& !(env.has_executor && coded) ==> {
                &&& step.effects.len() == 3
                &&& step.effects[0] == Effect::Record("claim_failed"@)
                &&& forall|i: int|
                    0 <= i < step.effects.len() ==> !((#[trigger] step.effects[i]) is Fallback)
            }
        }),
{
}

/// The input that is selected for a flight is the one that the flight asks for;
/// without a flight it is this instance's own; and where nothing can be selected
/// the engine learns that it failed.
pub proof fn law_flight_selects_its_input(m: DriverModel, d: Seq<char>, env: ActionEnv)
    requires
        m.contexts.contains_key(d),
    ensures
        ({
            let step = action_step(m, d, Action::WriteInput, env);
            let ctx = m.contexts[d];
            let coded = ctx.local_input_write_code is Some || ctx.local_input_code is Some;
            &&& step.state == m
            &&& env.has_executor && coded ==> {
                &&& step.feed is None
                &&& step.effects.len() == 1
                &&& step.effects[0] is WriteInput
                &&& step.effects[0]->WriteInput_display == d
                &&& m.flights.contains_key(d) ==> step.effects[0]->WriteInput_target
                    == m.flights[d].write_code && step.effects[0]->WriteInput_nonce
                    == m.flights[d].nonce
                &&& !m.flights.contains_key(d) && ctx.local_input_write_code is Some
                    ==> step.effects[0]->WriteInput_target == ctx.local_input_write_code->0
                &&& !m.flights.contains_key(d) && ctx.local_input_write_code is None
                    ==> step.effects[0]->WriteInput_target == ctx.local_input_code->0
            }
            &&& !(env.has_executor && coded) ==> step.effects.len() == 0 && step.feed matches Some(
                Feed::Owner(OwnerEvent::WriteFailed(_)),
            )
        }),
{
}

/// A claim is answered by the first of these that holds: the display is unknown
/// or cannot be switched; it has no identity; it is busy; nobody can be asked; it
/// has no input code. Else the request goes out.
pub proof fn law_claim_is_refused_in_order(
    m: DriverModel,
    d: Seq<char>,
    busy: bool,
    addressable: nat,
    epoch_nanos: u128,
)
    ensures
        ({
            let (next, start) = claim_start(m, d, busy, addressable, epoch_nanos);
            let known = m.contexts.contains_key(d) && m.contexts[d].writable;
            let named = known && m.contexts[d].claim_identity is Some;
            let free = named && !busy;
            let heard = free && addressable > 0;
            let sent = heard && m.contexts[d].local_input_code is Some;
            &&& !known ==> start == (ClaimStart::<Seq<char>>::Answer {
                result: ClaimSharedResult::Denied(ClaimDeniedReason::Unsupported),
                record: None,
            })
            &&& known && !named ==> start == (ClaimStart::<Seq<char>>::Answer {
                result: ClaimSharedResult::Denied(ClaimDeniedReason::IdentityUnavailable),
                record: None,
            })
            &&& named && busy ==> start == (ClaimStart::Answer {
                result: ClaimSharedResult::Busy,
                record: Some("claim_busy"@),
            })
            &&& free && addressable == 0 ==> start == (ClaimStart::Answer {
                result: ClaimSharedResult::Denied(ClaimDeniedReason::CoordinationDisabled),
                record: Some("claim_no_addressable_peers"@),
            })
            &&& heard && !sent ==> start == (ClaimStart::<Seq<char>>::Answer {
                result: ClaimSharedResult::Denied(ClaimDeniedReason::Unsupported),
                record: None,
            })
            &&& start is Fanout <==> sent
            &&& !heard ==> next == m
            &&& next.flights == m.flights && next.handle == m.handle && next.contexts
                == m.contexts && next.pending_idle == m.pending_idle && next.times == m.times
        }),
{
}

/// A request that goes out names the display by its identity and this instance by
/// its own, is numbered one higher than the last, and its nonce is remembered.
pub proof fn law_request_is_numbered_and_remembered(
    m: DriverModel,
    d: Seq<char>,
    busy: bool,
    addressable: nat,
    epoch_nanos: u128,
)
    requires
        claim_start(m, d, busy, addressable, epoch_nanos).1 is Fanout,
    ensures
        ({
            let (next, start) = claim_start(m, d, busy, addressable, epoch_nanos);
            &&& start->message matches ClaimMessage::ClaimRequest(r)
            &&& Some(r.display_identity) == m.contexts[d].claim_identity
            &&& r.requester_instance_id == m.local_instance_id
            &&& m.counter < u64::MAX ==> r.counter == m.counter + 1
            &&& m.counter == u64::MAX ==> r.counter == m.counter
            &&& start->counter == r.counter && next.counter == r.counter
            &&& start->pending.display == d
            &&& r.nonce == start->pending.nonce
            &&& next.nonces.len() > 0 && next.nonces.last() == r.nonce
        }),
{
    let pushed = m.nonces.push(nonce_text(epoch_nanos, m.counter));
    assert(pushed.last() == nonce_text(epoch_nanos, m.counter));
}

/// The last sixty-four nonces are remembered, in order.
pub proof fn law_nonce_ring_keeps_the_newest(m: DriverModel, epoch_nanos: u128)
    requires
        m.nonces.len() <= 64,
    ensures
        ({
            let ring = nonced(m, epoch_nanos).nonces;
            let n = ring.len() as int;
            &&& n == if m.nonces.len() < 64 { m.nonces.len() + 1 } else { 64 }
            &&& forall|x: int|
                1 <= x < n ==> #[trigger] ring[n - 1 - x] == m.nonces[m.nonces.len() - x]
            &&& nonced(m, epoch_nanos) == (DriverModel { nonces: ring, ..m })
        }),
{
}

/// A nonce is made of the time and the counter, so that no two are alike that
/// differ in a counter of the same time.
pub proof fn law_nonces_differ_by_their_counter(epoch_nanos: u128, a: u64, b: u64)
    requires
        nonce_text(epoch_nanos, a) == nonce_text(epoch_nanos, b),
    ensures
        a == b,
{
    let head = "req-"@ + text::decimal(epoch_nanos as nat) + "-"@;
    let n = head.len() as int;
    assert(nonce_text(epoch_nanos, a).skip(n) =~= text::decimal(a as nat));
    assert(nonce_text(epoch_nanos, b).skip(n) =~= text::decimal(b as nat));
    text::law_parse_undoes_decimal(a);
    text::law_parse_undoes_decimal(b);
}

/// What is said to the other side of a flight speaks of that flight: an abort, a
/// readiness, a verdict and a failure all carry its nonce, and each goes out
/// exactly if there is somebody to say it to.
pub proof fn law_frames_speak_of_their_flight(
    m: DriverModel,
    d: Seq<char>,
    verdict: ClaimVerdict,
    env: ActionEnv,
)
    ensures
        ({
            let known = m.flights.contains_key(d) && m.flights[d].peer_instance_id.len() > 0
                && m.flights[d].peer_epoch.len() > 0;
            let f = m.flights[d];
            let abort = action_step(m, d, Action::SendAbort, env);
            let ready = action_step(m, d, Action::SendAcquireReady, env);
            let answer = action_step(m, d, Action::SendVerdict(verdict), env);
            let failed = action_step(m, d, Action::SendReleaseFailed, env);
            &&& known ==> abort.effects.len() == 1 && abort.effects[0]->Send_message
                == (ClaimMessage::ClaimAbort { nonce: f.nonce })
            &&& known ==> ready.effects.len() == 1 && ready.effects[0]->Send_message is
                ClaimAcquireReady && ready.effects[0]->Send_message->request_nonce == f.nonce
                && ready.effects[0]->Send_message->ClaimAcquireReady_nonce
                == ready.effects[0]->Send_nonce
            &&& known ==> answer.effects.len() == 1 && answer.effects[0]->Send_message
                == (ClaimMessage::ClaimResponse { nonce: f.nonce, verdict })
            &&& known ==> failed.effects.len() == 1 && failed.effects[0]->Send_message is
                ReleaseFailed && failed.effects[0]->Send_message->ReleaseFailed_nonce == f.nonce
            &&& !known ==> abort.effects.len() == 0 && ready.effects.len() == 0
                && answer.effects.len() == 0 && failed.effects.len() == 0
            &&& answer.feed == Some(Feed::<Seq<char>>::Owner(OwnerEvent::AckDelivered))
            &&& abort.feed is None && ready.feed is None && failed.feed is None
        }),
{
}

/// A request that is sent again is the request of the flight, under the counter
/// of now.
pub proof fn law_request_is_sent_again_for_its_flight(
    m: DriverModel,
    d: Seq<char>,
    epoch: Seq<char>,
    env: ActionEnv,
)
    ensures
        ({
            let a = action_step(m, d, Action::BroadcastRequest, env);
            let able = m.contexts.contains_key(d) && m.contexts[d].local_input_code is Some
                && m.contexts[d].claim_identity is Some;
            &&& action_step(m, d, Action::RetryRequest, env) == a
            &&& action_step(m, d, Action::RetryWithEpoch(epoch), env) == a
            &&& a.state == m && a.feed is None
            &&& !able ==> a.effects.len() == 0
            &&& able ==> {
                &&& a.effects.len() == 1
                &&& a.effects[0] is Fanout
                &&& a.effects[0]->Fanout_counter == m.counter
                &&& a.effects[0]->Fanout_message matches ClaimMessage::ClaimRequest(r)
                &&& Some(r.display_identity) == m.contexts[d].claim_identity
                &&& r.requester_instance_id == m.local_instance_id
                &&& r.counter == m.counter
                &&& r.nonce == a.effects[0]->Fanout_nonce
                &&& m.flights.contains_key(d) ==> r.nonce == m.flights[d].nonce
                &&& m.contexts[d].local_input_write_code matches Some(w)
                    ==> r.requester_input_code == w
                &&& m.contexts[d].local_input_write_code is None ==> r.requester_input_code
                    == m.contexts[d].local_input_code->0
            }
        }),
{
}

/// A panel is woken where there is one, and else counts as woken; a trace is
/// recorded under its name; and what only the engine minds does nothing.
pub proof fn law_other_actions_do_what_they_say(
    m: DriverModel,
    d: Seq<char>,
    name: Seq<char>,
    env: ActionEnv,
)
    ensures
        ({
            let wake = action_step(m, d, Action::WakeDisplay, env);
            &&& wake.state == m
            &&& env.has_executor ==> wake.feed is None && wake.effects.len() == 1
                && wake.effects[0] is Wake && wake.effects[0]->Wake_display == d && (
            m.flights.contains_key(d) ==> wake.effects[0]->Wake_nonce == m.flights[d].nonce)
            &&& !env.has_executor ==> wake.effects.len() == 0 && wake.feed == Some(
                Feed::<Seq<char>>::Owner(OwnerEvent::WakeCompleted),
            )
        }),
        action_step(m, d, Action::Trace(name), env).effects == seq![Effect::Record(name)],
        action_step(m, d, Action::Trace(name), env).feed is None,
        forall|a: Action<Seq<char>>|
            a is WatchForFlip || a is EnterDeferred || a is Terminal || a is BusyLocal
                ==> #[trigger] action_step(m, d, a, env) == (StepModel {
                state: m,
                effects: Seq::empty(),
                feed: None,
            }),
{
}

/// The hooks of a hand-over run for its own direction and side, with the flight
/// and the other side named; where there are none the engine goes on at once.
pub proof fn law_hooks_run_for_their_side(
    m: DriverModel,
    d: Seq<char>,
    aborted: bool,
    env: ActionEnv,
)
    requires
        m.contexts.contains_key(d),
    ensures
        ({
            let hooks = m.contexts[d].hooks;
            let before = action_step(m, d, Action::RunBeforeRelease, env);
            let after = action_step(m, d, Action::RunAfterRelease { aborted }, env);
            let acquire = action_step(m, d, Action::RunBeforeAcquire, env);
            &&& hooks.before_release@.len() > 0 ==> before.effects.len() == 1 && hooks_of(
                before.effects[0],
                m,
                d,
                Direction::Release,
                Phase::Before,
                false,
            )
            &&& hooks.after_release@.len() > 0 ==> after.effects.len() == 1 && hooks_of(
                after.effects[0],
                m,
                d,
                Direction::Release,
                Phase::After,
                aborted,
            )
            &&& hooks.before_acquire@.len() > 0 ==> acquire.effects.len() == 1 && hooks_of(
                acquire.effects[0],
                m,
                d,
                Direction::Acquire,
                Phase::Before,
                false,
            )
            &&& hooks.before_release@.len() == 0 ==> before.effects.len() == 0 && before.feed
                == Some(
                Feed::<Seq<char>>::Owner(OwnerEvent::BeforeRelease(HookResult::Completed)),
            )
            &&& hooks.after_release@.len() == 0 ==> after.effects.len() == 0 && after.feed == Some(
                Feed::<Seq<char>>::Owner(OwnerEvent::AfterReleaseCompleted),
            )
            &&& hooks.before_acquire@.len() == 0 && env.requester_active ==> acquire.effects.len()
                == 0 && acquire.feed == Some(
                Feed::<Seq<char>>::Requester(RequesterEvent::AcquireCompleted),
            )
            &&& hooks.before_release@.len() > 0 ==> before.feed is None
            &&& hooks.after_release@.len() > 0 ==> after.feed is None
            &&& hooks.before_acquire@.len() > 0 ==> acquire.feed is None
        }),
{
}

/// Whether an effect runs the hooks of one side of a display's hand-over.
pub open spec fn hooks_of(
    e: Effect<Seq<char>>,
    m: DriverModel,
    d: Seq<char>,
    direction: Direction,
    phase: Phase,
    aborted: bool,
) -> bool {
    &&& e matches Effect::RunHooks {
        display,
        display_identity,
        peer,
        direction: way,
        phase: side,
        aborted: cut,
        nonce,
    }
    &&& display == d
    &&& way == direction && side == phase && cut == aborted
    &&& m.contexts[d].claim_identity matches Some(i) ==> display_identity == i
    &&& m.flights.contains_key(d) ==> peer == m.flights[d].peer_instance_id && nonce
        == m.flights[d].nonce
}

/// Each slot of hooks is its own.
pub proof fn law_slots_are_told_apart(h: HookSlots)
    ensures
        h.slot(Direction::Release, Phase::Before) == h.before_release@,
        h.slot(Direction::Release, Phase::After) == h.after_release@,
        h.slot(Direction::Acquire, Phase::Before) == h.before_acquire@,
        h.slot(Direction::Acquire, Phase::After) == h.after_acquire@,
{
}

/// The time that hooks may hold a release up is the sum of the timeouts of those
/// that block, which a hook does unless it says otherwise.
pub proof fn law_blocking_hooks_add_up(hooks: Seq<HookAction>, h: HookAction)
    ensures
        blocking_time(Seq::empty()) == 0,
        h.blocking is None || h.blocking == Some(true) ==> blocking_time(hooks.push(h))
            == blocking_time(hooks) + h.timeout,
        h.blocking == Some(false) ==> blocking_time(hooks.push(h)) == blocking_time(hooks),
{
    assert(hooks.push(h).drop_last() =~= hooks);
}

/// What comes back for a flight is told to the side of the engine that waits for
/// it: hooks that end an acquisition to the requester, all else to the owner.
pub proof fn law_completions_reach_the_side_that_waits(
    m: DriverModel,
    d: Seq<char>,
    event: OwnerEvent<Seq<char>>,
)
    requires
        m.flights.contains_key(d),
    ensures
        ({
            let n = m.flights[d].nonce;
            &&& completion_feed(m, d, n, event, false) == Some(Feed::Owner(event))
            &&& completion_feed(
                m,
                d,
                n,
                OwnerEvent::BeforeRelease(HookResult::Completed),
                true,
            ) == Some(Feed::<Seq<char>>::Requester(RequesterEvent::AcquireCompleted))
            &&& completion_feed(m, d, n, OwnerEvent::BeforeRelease(HookResult::Aborted), true)
                matches Some(Feed::Requester(RequesterEvent::AcquireFailed { .. }))
            &&& event !is BeforeRelease ==> completion_feed(m, d, n, event, true) is None
        }),
{
}

/// An instance stands ready to give a display away exactly if the coordination
/// has it as its own, in standby exactly if the panel is; it is quiescing while
/// the coordination does not know the display; and it owns nothing without one.
pub proof fn law_disposition_follows_the_coordination(
    records: Map<Seq<char>, CoordRecord<Seq<char>>>,
    d: Seq<char>,
)
    ensures
        disposition_of(None, d) == OwnerDisposition::NotOwner,
        !records.contains_key(d) ==> disposition_of(Some(records), d)
            == OwnerDisposition::Quiescing,
        records.contains_key(d) && !records[d].owned ==> disposition_of(Some(records), d)
            == OwnerDisposition::NotOwner,
        records.contains_key(d) && records[d].owned ==> disposition_of(Some(records), d)
            == (OwnerDisposition::Ready { standby: records[d].power == Some(PowerState::Standby) }),
{
}

/// A request is put to the engine as it came, with what this instance knows of
/// the display: its identity, its code, whether it can be switched, how it stands,
/// and how long a release may take.
pub proof fn law_owner_is_told_what_was_asked(
    m: DriverModel,
    f: InboundFrame<Seq<char>>,
    r: ClaimRequest<Seq<char>>,
    coord: Option<Map<Seq<char>, CoordRecord<Seq<char>>>>,
    d: Seq<char>,
)
    ensures
        ({
            let out = request_result(m, f, r, coord, Some(d));
            let ctx = m.contexts[d];
            &&& out.effects.len() == 0
            &&& out.call is BeginOwner
            &&& out.call->BeginOwner_nonce == f.nonce
            &&& out.call->release_cap == m.times.release_deadline_cap
            &&& out.call->request.display == d
            &&& out.call->request.requested_identity == r.display_identity
            &&& out.call->request.local_identity == ctx.claim_identity
            &&& out.call->request.requester_input_code == r.requester_input_code
            &&& ctx.local_input_code matches Some(c) ==> out.call->request.local_input_code == c
            &&& ctx.local_input_code is None ==> out.call->request.local_input_code == 0
            &&& out.call->request.capability == ClaimCapability::Writable <==> ctx.writable
            &&& out.call->request.disposition == disposition_of(coord, d)
            &&& disposition_of(coord, d) == (OwnerDisposition::Ready { standby: true })
                ==> out.call->request.eta == m.times.release_deadline_cap
            &&& disposition_of(coord, d) != (OwnerDisposition::Ready { standby: true })
                ==> out.call->request.eta == blocking_time(ctx.hooks.before_release@) as u128
            &&& out.state == (DriverModel { flights: out.state.flights, ..m })
            &&& out.state.flights == m.flights.insert(d, out.state.flights[d])
            &&& out.state.flights[d].nonce == f.nonce
            &&& out.state.flights[d].peer_instance_id == f.sender_instance_id
            &&& out.state.flights[d].peer_epoch == f.sender_epoch
            &&& r.requester_input_code <= 255 ==> out.state.flights[d].write_code
                == r.requester_input_code
            &&& r.requester_input_code > 255 ==> out.state.flights[d].write_code == 0
        }),
{
}

/// A request for a display that is not ours is answered so, to whoever sent it.
pub proof fn law_foreign_request_is_answered(
    m: DriverModel,
    f: InboundFrame<Seq<char>>,
    r: ClaimRequest<Seq<char>>,
    coord: Option<Map<Seq<char>, CoordRecord<Seq<char>>>>,
)
    ensures
        ({
            let out = request_result(m, f, r, coord, None);
            &&& out.call == InboundCall::<Seq<char>>::Nothing
            &&& out.effects.len() == 1
            &&& out.effects[0] is Send
            &&& out.effects[0]->Send_peer == f.sender_instance_id
            &&& out.effects[0]->peer_epoch == f.sender_epoch
            &&& out.effects[0]->Send_message == (ClaimMessage::ClaimResponse {
                nonce: f.nonce,
                verdict: ClaimVerdict::NotOwner,
            })
            &&& m.counter < u64::MAX ==> out.effects[0]->Send_counter == m.counter + 1
            &&& out.state.counter == out.effects[0]->Send_counter
            &&& out.state == (DriverModel { counter: out.state.counter, ..m })
        }),
{
}

/// A frame concerns the flight whose nonce it names: an abort by its own, a
/// readiness by that of the request, a failure and an answer by the one inside.
/// Requests and idle queries concern the display whose identity they name, and an
/// idle report the query that it answers.
pub proof fn law_frame_concerns_what_it_names(
    m: DriverModel,
    f: InboundFrame<Seq<char>>,
    d: Seq<char>,
)
    requires
        concerns(m, f, Some(d)),
    ensures
        f.message is ClaimAbort ==> m.flights.contains_key(d) && m.flights[d].nonce == f.nonce,
        f.message matches ClaimMessage::ClaimAcquireReady { request_nonce, .. }
            ==> m.flights.contains_key(d) && m.flights[d].nonce == request_nonce,
        f.message matches ClaimMessage::ReleaseFailed { nonce, .. } ==> m.flights.contains_key(d)
            && m.flights[d].nonce == nonce,
        f.message matches ClaimMessage::ClaimResponse { nonce, .. } ==> m.flights.contains_key(d)
            && m.flights[d].nonce == nonce,
        f.message matches ClaimMessage::ClaimRequest(r) ==> m.contexts.contains_key(d)
            && m.contexts[d].claim_identity == Some(r.display_identity),
        f.message matches ClaimMessage::IdleQuery { display_identity, .. }
            ==> m.contexts.contains_key(d) && m.contexts[d].claim_identity == Some(
            display_identity,
        ),
        f.message matches ClaimMessage::IdleReport { nonce, .. } ==> m.pending_idle.contains_key(
            nonce,
        ) && m.pending_idle[nonce] == d,
{
}

/// A frame that concerns nothing leaves everything as it is, but for a request,
/// which is answered.
pub proof fn law_frame_for_nobody_does_nothing(
    m: DriverModel,
    f: InboundFrame<Seq<char>>,
    coord: Option<Map<Seq<char>, CoordRecord<Seq<char>>>>,
    idle_ms: Option<u64>,
    epoch_nanos: u128,
)
    requires
        f.message !is ClaimRequest,
    ensures
        inbound_result(m, f, coord, idle_ms, epoch_nanos, None) == (InboundModel {
            state: m,
            effects: Seq::empty(),
            call: InboundCall::Nothing,
        }),
{
}

/// A frame of a flight is handed to the side that waits for it, as it came: an
/// abort and a readiness to the owner, a failure to the requester.
pub proof fn law_frames_of_a_flight_reach_the_engine(
    m: DriverModel,
    f: InboundFrame<Seq<char>>,
    coord: Option<Map<Seq<char>, CoordRecord<Seq<char>>>>,
    idle_ms: Option<u64>,
    epoch_nanos: u128,
    d: Seq<char>,
)
    ensures
        ({
            let out = inbound_result(m, f, coord, idle_ms, epoch_nanos, Some(d));
            &&& f.message is ClaimAbort ==> out.call == (InboundCall::Owner {
                display: d,
                event: OwnerEvent::Abort { nonce: f.nonce },
            }) && out.state == m && out.effects.len() == 0
            &&& f.message is ClaimAcquireReady ==> out.call == (InboundCall::Owner {
                display: d,
                event: OwnerEvent::AcquireReady,
            }) && out.state == m && out.effects.len() == 0
            &&& f.message matches ClaimMessage::ReleaseFailed { nonce, reason } ==> out.call
                == (InboundCall::Requester {
                display: d,
                event: RequesterEvent::ReleaseFailed { nonce, reason },
            }) && out.state == m && out.effects.len() == 0
        }),
{
}

/// An answer reaches the requester under the sender's name. The one who accepts
/// becomes the other side of the flight, and so does the first who answers at
/// all; nobody else does.
pub proof fn law_whoever_accepts_is_the_other_side(
    m: DriverModel,
    f: InboundFrame<Seq<char>>,
    coord: Option<Map<Seq<char>, CoordRecord<Seq<char>>>>,
    idle_ms: Option<u64>,
    epoch_nanos: u128,
    d: Seq<char>,
    nonce: Seq<char>,
    verdict: ClaimVerdict,
)
    requires
        f.message == (ClaimMessage::ClaimResponse { nonce, verdict }),
        m.flights.contains_key(d),
    ensures
        ({
            let out = inbound_result(m, f, coord, idle_ms, epoch_nanos, Some(d));
            let was = m.flights[d];
            let after = out.state.flights[d];
            let joins = verdict is Accepted || was.peer_instance_id.len() == 0;
            &&& out.effects.len() == 0
            &&& out.call == (InboundCall::Requester {
                display: d,
                event: RequesterEvent::Response {
                    nonce,
                    peer_instance_id: f.sender_instance_id,
                    verdict,
                },
            })
            &&& out.state == (DriverModel { flights: m.flights.insert(d, after), ..m })
            &&& after.nonce == was.nonce && after.write_code == was.write_code
            &&& joins ==> after.peer_instance_id == f.sender_instance_id && after.peer_epoch
                == f.sender_epoch
            &&& !joins ==> after == was
        }),
{
}

/// An idle query for a display that this instance owns is answered with how long
/// it has been idle, zero where that is not known, to whoever asked and for the
/// query that asked.
pub proof fn law_owner_answers_idle_queries(
    m: DriverModel,
    f: InboundFrame<Seq<char>>,
    records: Map<Seq<char>, CoordRecord<Seq<char>>>,
    idle_ms: Option<u64>,
    epoch_nanos: u128,
    d: Seq<char>,
)
    requires
        f.message is IdleQuery,
        records.contains_key(d),
        records[d].owned,
    ensures
        ({
            let out = inbound_result(m, f, Some(records), idle_ms, epoch_nanos, Some(d));
            &&& out.call == InboundCall::<Seq<char>>::Nothing
            &&& out.effects.len() == 1
            &&& out.effects[0] is Send
            &&& out.effects[0]->Send_peer == f.sender_instance_id
            &&& out.effects[0]->peer_epoch == f.sender_epoch
            &&& out.effects[0]->note == Some("idle_report_sent"@)
            &&& out.effects[0]->Send_message is IdleReport
            &&& out.effects[0]->Send_message->IdleReport_nonce == f.nonce
            &&& idle_ms matches Some(ms) ==> out.effects[0]->Send_message->idle_ms == ms
            &&& idle_ms is None ==> out.effects[0]->Send_message->idle_ms == 0
            &&& out.effects[0]->Send_message->IdleReport_counter == out.effects[0]->Send_counter
            &&& m.counter < u64::MAX ==> out.effects[0]->Send_counter == m.counter + 1
            &&& out.state.counter == out.effects[0]->Send_counter
        }),
{
}

/// An idle report from the owner of the display that was asked about answers the
/// query, once; from anybody else it is ignored.
pub proof fn law_idle_report_answers_its_query(
    m: DriverModel,
    f: InboundFrame<Seq<char>>,
    coord: Option<Map<Seq<char>, CoordRecord<Seq<char>>>>,
    idle_ms: Option<u64>,
    epoch_nanos: u128,
    reported: u64,
    counter: u64,
    query: Seq<char>,
    d: Seq<char>,
)
    requires
        f.message == (ClaimMessage::IdleReport { idle_ms: reported, counter, nonce: query }),
    ensures
        ({
            let out = inbound_result(m, f, coord, idle_ms, epoch_nanos, Some(d));
            let owner = coord is Some && coord->0.contains_key(d) && coord->0[d].owner_instance_id
                == Some(f.sender_instance_id);
            &&& out.call == InboundCall::<Seq<char>>::Nothing
            &&& owner ==> out.effects == seq![
                Effect::<Seq<char>>::AnswerIdle { query, idle_ms: reported },
            ] && out.state == (DriverModel { pending_idle: m.pending_idle.remove(query), ..m })
            &&& !owner ==> out.effects.len() == 0 && out.state == m
        }),
{
}

/// A claim that goes out is in flight with its own nonce and code and nobody on
/// the other side yet, and the losses of its display are its own doing for the
/// claim timeout. Nothing else changes.
pub proof fn law_claim_takes_off(m: DriverModel, p: ClaimPending<Seq<char>>, now: Nanos, o: Seq<char>)
    ensures
        ({
            let after = claim_flying(m, p, now);
            &&& after.flights.contains_key(p.display)
            &&& after.flights[p.display].nonce == p.nonce
            &&& after.flights[p.display].write_code == p.write_code
            &&& after.flights[p.display].peer_instance_id.len() == 0
            &&& after.flights[p.display].peer_epoch.len() == 0
            &&& after.handle.suppressed.contains_key(p.display)
            &&& now + m.times.claim_timeout <= u128::MAX
                ==> after.handle.suppressed[p.display] == now + m.times.claim_timeout
            &&& o != p.display ==> after.flights.contains_key(o) == m.flights.contains_key(o)
                && after.handle.suppressed.contains_key(o) == m.handle.suppressed.contains_key(o)
            &&& o != p.display && m.flights.contains_key(o) ==> after.flights[o] == m.flights[o]
            &&& after.handle.armed == m.handle.armed
            &&& after.contexts == m.contexts && after.pending_idle == m.pending_idle
            &&& after.counter == m.counter && after.nonces == m.nonces && after.times == m.times
            &&& after.local_instance_id == m.local_instance_id
        }),
{
}

/// The answer to a claim is the verdict on it: accepted until the release
/// deadline, denied for the owner's reason, and for any other verdict undecided
/// while somebody else may answer and failed once nobody can. A verdict on
/// another flight is no answer.
pub proof fn law_verdict_is_the_answer(
    m: DriverModel,
    d: Seq<char>,
    nonce: Seq<char>,
    reason: ClaimDeniedReason,
    other: u64,
    eta_ms: u64,
    undecided: bool,
    now: Nanos,
)
    ensures
        !(m.flights.contains_key(d) && m.flights[d].nonce == nonce) ==> claim_answer(
            m,
            d,
            nonce,
            ClaimVerdict::Accepted { eta_ms },
            undecided,
            now,
        ) is None && claim_answer(m, d, nonce, ClaimVerdict::Denied(reason), undecided, now)
            is None && claim_answer(m, d, nonce, ClaimVerdict::NotOwner, undecided, now) is None,
        m.flights.contains_key(d) && m.flights[d].nonce == nonce ==> {
            &&& claim_answer(m, d, nonce, ClaimVerdict::Denied(reason), undecided, now) == Some(
                ClaimSharedResult::Denied(reason),
            )
            &&& claim_answer(m, d, nonce, ClaimVerdict::Accepted { eta_ms }, undecided, now)
                matches Some(ClaimSharedResult::Accepted { deadline }) && (now
                + m.times.release_deadline_cap <= u128::MAX ==> deadline == now
                + m.times.release_deadline_cap)
            &&& claim_answer(m, d, nonce, ClaimVerdict::NotOwner, true, now) is None
            &&& claim_answer(m, d, nonce, ClaimVerdict::Other(other), true, now) is None
            &&& claim_answer(m, d, nonce, ClaimVerdict::NotOwner, false, now) == Some(
                ClaimSharedResult::Failed(ClaimFailure::Denied(ClaimDeniedReason::Unsupported)),
            )
            &&& claim_answer(m, d, nonce, ClaimVerdict::Other(other), false, now) == Some(
                ClaimSharedResult::Failed(ClaimFailure::Denied(ClaimDeniedReason::Unsupported)),
            )
        },
{
}

/// A claim that ends without a verdict is completed exactly if the fallback has
/// the panel on the right input, and else failed: for want of an identity where
/// the panel could not be read.
pub proof fn law_claim_ends_as_its_fallback_did(fallback: Option<FallbackOutcome>)
    ensures
        end_answer(fallback) == ClaimSharedResult::Completed <==> fallback == Some(
            FallbackOutcome::Wrote,
        ) || fallback == Some(FallbackOutcome::AlreadyOnTarget),
        fallback == Some(FallbackOutcome::IdentityUnavailable) ==> end_answer(fallback)
            == ClaimSharedResult::Failed(
            ClaimFailure::Denied(ClaimDeniedReason::IdentityUnavailable),
        ),
        fallback is None || fallback == Some(FallbackOutcome::Standby) || fallback == Some(
            FallbackOutcome::WriteFailed,
        ) ==> end_answer(fallback) == ClaimSharedResult::Failed(
            ClaimFailure::Denied(ClaimDeniedReason::Unsupported),
        ),
{
}

/// A display can be armed exactly if it can be switched, has an input code, and
/// has an identity.
pub proof fn law_claimable_display_has_all_it_needs(ctx: DisplayCtx<Seq<char>>)
    ensures
        ctx.claimable() <==> ctx.writable && ctx.local_input_code is Some && ctx.claim_identity
            is Some,
        ctx.claimable() ==> ctx.write_code() is Some,
        ctx.local_input_write_code is Some ==> ctx.write_code() == ctx.local_input_write_code,
        ctx.local_input_write_code is None ==> ctx.write_code() == ctx.local_input_code,
{
}

/// A shared display with a controller can be claimed as it is configured; it can
/// be switched unless its controller is known not to. No other display can.
pub proof fn law_context_is_what_is_configured(r: DisplayRow)
    ensures
        row_context(r) is Some <==> r.shared && r.executor is Some,
        row_context(r) matches Some(ctx) ==> {
            let e = r.executor->0;
            &&& ctx.local_input_code == r.shared_input_code
            &&& ctx.local_input_write_code == r.shared_input_write_code
            &&& ctx.claim_identity is Some <==> e.claim_identity is Some
            &&& e.claim_identity matches Some(i) ==> ctx.claim_identity == Some(i@)
            &&& ctx.writable <==> e.writability != InputWritability::Incapable
            &&& ctx.hooks == r.hooks
        },
        row_engine()(r) == (if r.shared && r.executor is Some {
            Some(r.name@)
        } else {
            None
        }),
{
}

/// A refresh gives every listed display its new context, and leaves one that is
/// not listed with a context as it was.
pub proof fn law_refresh_gives_every_display_its_context(
    contexts: Map<Seq<char>, DisplayCtx<Seq<char>>>,
    rows: Seq<DisplayRow>,
    d: Seq<char>,
)
    ensures
        ({
            let after = contexts_with(contexts, rows);
            &&& forall|i: int|
                0 <= i < rows.len() && (#[trigger] rows[i]).name@ == d && row_context(rows[i])
                    is Some && (forall|j: int|
                    i < j < rows.len() ==> (#[trigger] rows[j]).name@ != d) ==> after.contains_key(
                    d,
                ) && Some(after[d]) == row_context(rows[i])
            &&& (forall|j: int|
                0 <= j < rows.len() ==> (#[trigger] rows[j]).name@ != d || row_context(rows[j])
                    is None) ==> after.contains_key(d) == contexts.contains_key(d) && (
            contexts.contains_key(d) ==> after[d] == contexts[d])
        }),
    decreases rows.len(),
{
    if rows.len() > 0 {
        let front = rows.drop_last();
        let n = rows.len() - 1;
        law_refresh_gives_every_display_its_context(contexts, front, d);
        let after = contexts_with(contexts, rows);
        assert forall|i: int|
            0 <= i < rows.len() && (#[trigger] rows[i]).name@ == d && row_context(rows[i]) is Some
                && (forall|j: int| i < j < rows.len() ==> (#[trigger] rows[j]).name@
                != d) implies after.contains_key(d) && Some(after[d]) == row_context(rows[i]) by {
            if i < n {
                assert(front[i] == rows[i]);
                assert forall|j: int| i < j < front.len() implies (#[trigger] front[j]).name@
                    != d by {
                    assert(front[j] == rows[j]);
                }
                assert(rows[n].name@ != d);
            }
        }
        if forall|j: int|
            0 <= j < rows.len() ==> (#[trigger] rows[j]).name@ != d || row_context(rows[j])
                is None {
            assert forall|j: int| 0 <= j < front.len() implies (#[trigger] front[j]).name@ != d
                || row_context(front[j]) is None by {
                assert(front[j] == rows[j]);
            }
            assert(rows[n].name@ != d || row_context(rows[n]) is None);
        }
    }
}

/// Striking keys takes exactly those away; the names of rows are those that the
/// rows have.
pub proof fn law_struck_keys_are_gone<V>(
    t: Map<Seq<char>, V>,
    keys: Seq<Seq<char>>,
    k: Seq<char>,
    rows: Seq<DisplayRow>,
)
    ensures
        without_keys(t, keys).contains_key(k) <==> t.contains_key(k) && !keys.contains(k),
        without_keys(t, keys).contains_key(k) ==> without_keys(t, keys)[k] == t[k],
        row_names(rows).contains(k) <==> exists|i: int|
            0 <= i < rows.len() && (#[trigger] rows[i]).name@ == k,
{
    let names = row_names(rows);
    if names.contains(k) {
        let i = choose|i: int| 0 <= i < names.len() && names[i] == k;
        assert(rows[i].name@ == k);
    }
    if exists|i: int| 0 <= i < rows.len() && (#[trigger] rows[i]).name@ == k {
        let i = choose|i: int| 0 <= i < rows.len() && (#[trigger] rows[i]).name@ == k;
        assert(names[i] == k);
    }
}

/// A display is shown as armed while its deadline lies ahead, with the whole
/// milliseconds that are left.
pub proof fn law_armed_rows_show_what_is_left(d: Seq<char>, deadline: Nanos, now: Nanos)
    ensures
        armed_row(now)((d, deadline)) is Some <==> now < deadline,
        now < deadline ==> {
            let row = armed_row(now)((d, deadline))->0;
            &&& row.0 == d
            &&& row.1 * 1_000_000 <= deadline - now
            &&& row.1 < u64::MAX ==> deadline - now < (row.1 + 1) * 1_000_000
        },
{
}

/// Forgetting a display touches no other.
pub proof fn law_other_displays_are_not_forgotten(m: DriverModel, d: Seq<char>, o: Seq<char>)
    requires
        o != d,
    ensures
        ({
            let after = without_display(m, d);
            &&& after.contexts.contains_key(o) == m.contexts.contains_key(o)
            &&& m.contexts.contains_key(o) ==> after.contexts[o] == m.contexts[o]
            &&& after.flights.contains_key(o) == m.flights.contains_key(o)
            &&& m.flights.contains_key(o) ==> after.flights[o] == m.flights[o]
            &&& after.handle.suppressed.contains_key(o) == m.handle.suppressed.contains_key(o)
            &&& after.handle.armed == m.handle.armed
            &&& after.counter == m.counter && after.nonces == m.nonces && after.times == m.times
            &&& after.pending_idle == m.pending_idle
        }),
{
}

/// What an engine reports is read by name: that it accepts, that it is busy, that
/// it tries the fallback; and only what it traces is recorded.
pub proof fn law_engine_actions_are_read_by_name(
    actions: Seq<Action<Seq<char>>>,
    a: Action<Seq<char>>,
)
    ensures
        reports_acceptance(actions) <==> exists|i: int|
            0 <= i < actions.len() && #[trigger] actions[i] == Action::Trace("claim_accepted"@),
        refused_busy(actions) <==> exists|i: int|
            0 <= i < actions.len() && #[trigger] actions[i] is BusyLocal,
        tries_fallback(actions) <==> exists|i: int|
            0 <= i < actions.len() && #[trigger] actions[i] is AttemptFallback,
        trace_effect()(a) is Some <==> a is Trace,
        a matches Action::Trace(name) ==> trace_effect()(a) == Some(Effect::Record(name)),
{
}

/// A query names the display by its identity, and by nothing where it has none.
pub proof fn law_query_names_the_display(m: DriverModel, d: Seq<char>)
    ensures
        m.contexts.contains_key(d) && m.contexts[d].claim_identity is Some ==> Some(
            identity_or_empty(m, d),
        ) == m.contexts[d].claim_identity,
        !(m.contexts.contains_key(d) && m.contexts[d].claim_identity is Some)
            ==> identity_or_empty(m, d).len() == 0,
        m.flights.contains_key(d) ==> flight_nonce(m, d) == m.flights[d].nonce,
        !m.flights.contains_key(d) ==> flight_nonce(m, d).len() == 0,
{
}

/// Contexts, flights, frames and claims are seen with all that they hold.
pub proof fn law_claims_are_seen_whole(
    c: DisplayCtx<String>,
    f: ActiveFlight<String>,
    frame: InboundFrame<String>,
    p: ClaimPending<String>,
    r: CoordRecord<String>,
)
    ensures
        c@.local_input_code == c.local_input_code,
        c@.local_input_write_code == c.local_input_write_code,
        c@.claim_identity == text::opt_text(c.claim_identity),
        c@.writable == c.writable && c@.hooks == c.hooks,
        f@.nonce == f.nonce@ && f@.peer_instance_id == f.peer_instance_id@ && f@.peer_epoch
            == f.peer_epoch@ && f@.write_code == f.write_code,
        frame@.sender_instance_id == frame.sender_instance_id@ && frame@.sender_epoch
            == frame.sender_epoch@ && frame@.nonce == frame.nonce@ && frame@.message
            == frame.message@,
        p@.display == p.display@ && p@.nonce == p.nonce@ && p@.write_code == p.write_code,
        r@.owned == r.owned && r@.owner_instance_id == text::opt_text(r.owner_instance_id)
            && r@.power == r.power,
{
}

/// A handle and a driver are seen with each of their tables as its own, and rows
/// and bindings one for one.
pub proof fn law_driver_is_seen_whole(
    h: ClaimRuntimeHandle,
    d: Driver,
    rows: Seq<(String, u64)>,
    k: KeymapConfig,
    i: int,
)
    ensures
        h@.armed == h.armed@ && h@.suppressed == h.suppressed@,
        h@.activity_claim == h.activity_claim && h@.release_deadline_cap
            == h.release_deadline_cap,
        d@.handle == d.handle@ && d@.contexts == d.contexts@ && d@.flights == d.flights@,
        d@.pending_idle == d.pending_idle@ && d@.local_instance_id == d.local_instance_id@,
        d@.counter == d.outbound_counter && d@.times == d.times,
        row_models(rows).len() == rows.len(),
        0 <= i < rows.len() ==> row_models(rows)[i] == (rows[i].0@, rows[i].1),
        keymap_model(k).len() == k.bindings@.len(),
        0 <= i < k.bindings@.len() ==> keymap_model(k)[i] == (
            k.bindings@[i].0@,
            k.bindings@[i].1@,
        ),
{
}

/// What became of a wake, of a write and of hooks is told to the engine as it
/// happened: an error with its text, and only hooks that run before a release with
/// their result.
pub proof fn law_completions_are_told_as_they_happened(
    result: Result<(), String>,
    woken: OwnerEvent<String>,
    written: OwnerEvent<String>,
    phase: Phase,
    hooks: HookResult,
    ran: OwnerEvent<String>,
)
    requires
        call_ensures(wake_finished, (result,), woken),
        call_ensures(write_finished, (result,), written),
        call_ensures(hooks_finished, (phase, hooks), ran),
    ensures
        result is Ok ==> woken@ == OwnerEvent::<Seq<char>>::WakeCompleted && written@
            == OwnerEvent::<Seq<char>>::WriteSucceeded,
        result matches Err(e) ==> woken@ == OwnerEvent::WriteFailed(e@) && written@
            == OwnerEvent::WriteFailed(e@),
        phase == Phase::Before ==> ran@ == OwnerEvent::<Seq<char>>::BeforeRelease(hooks),
        phase == Phase::After ==> ran@ == OwnerEvent::<Seq<char>>::AfterReleaseCompleted,
{
}

/// A claim that reached nobody is denied as if coordination were off; one that
/// reached somebody waits for as many answers, for the claim timeout.
pub proof fn law_fanned_claim_waits_for_those_it_reached(
    d: Driver,
    fanout: FanoutResult,
    next: ClaimFanned<String>,
    count: Option<usize>,
)
    requires
        call_ensures(Driver::claim_fanned_out, (&d, fanout), next),
        call_ensures(negotiated_peer_count, (fanout,), count),
    ensures
        next@ is Begin <==> fanout.contacted > 0,
        next@ is Begin ==> next@->peer_count == fanout.contacted && next@->timeout
            == d@.times.claim_timeout && next@->release_cap == d@.times.release_deadline_cap
            && count == Some(next@->peer_count),
        fanout.contacted == 0 ==> count is None && next@ == (ClaimFanned::Answer {
            result: ClaimSharedResult::Denied(ClaimDeniedReason::CoordinationDisabled),
            record: "claim_no_addressable_peers"@,
        }),
{
}

/// Losing a display is this instance's own doing, and a display is armed, until
/// the deadline of each and not at it.
pub proof fn law_deadlines_are_kept(
    h: ClaimRuntimeHandle,
    d: &str,
    now: Nanos,
    own: bool,
    armed: bool,
    until: Option<Nanos>,
)
    requires
        call_ensures(ClaimRuntimeHandle::is_suppressed, (&h, d, now), own),
        call_ensures(ClaimRuntimeHandle::is_armed, (&h, d, now), armed),
        call_ensures(ClaimRuntimeHandle::armed_deadline, (&h, d, now), until),
    ensures
        own <==> h@.suppressed.contains_key(d@) && now < h@.suppressed[d@],
        armed <==> h@.armed.contains_key(d@) && now < h@.armed[d@],
        armed <==> until is Some,
        until matches Some(t) ==> t == h@.armed[d@] && now < t,
{
}

/// A removal is told to the side whose engine runs.
pub proof fn law_removal_reaches_the_side_that_runs(requester_active: bool, feed: Feed<String>)
    requires
        call_ensures(Driver::handle_display_removed, (requester_active,), feed),
    ensures
        requester_active ==> feed@ == Feed::<Seq<char>>::Requester(RequesterEvent::DisplayRemoved),
        !requester_active ==> feed@ == Feed::<Seq<char>>::Owner(OwnerEvent::DisplayRemoved),
{
}

/// A frame concerns nobody only if no flight has the nonce that it names, no
/// display the identity, and no query the nonce.
pub proof fn law_frame_misses_nobody_it_names(
    m: DriverModel,
    f: InboundFrame<Seq<char>>,
    d: Seq<char>,
)
    requires
        concerns(m, f, None),
    ensures
        m.flights.contains_key(d) ==> {
            &&& f.message is ClaimAbort ==> m.flights[d].nonce != f.nonce
            &&& f.message matches ClaimMessage::ClaimAcquireReady { request_nonce, .. }
                ==> m.flights[d].nonce != request_nonce
            &&& f.message matches ClaimMessage::ReleaseFailed { nonce, .. } ==> m.flights[d].nonce
                != nonce
            &&& f.message matches ClaimMessage::ClaimResponse { nonce, .. } ==> m.flights[d].nonce
                != nonce
        },
        m.contexts.contains_key(d) ==> {
            &&& f.message matches ClaimMessage::ClaimRequest(r) ==> m.contexts[d].claim_identity
                != Some(r.display_identity)
            &&& f.message matches ClaimMessage::IdleQuery { display_identity, .. }
                ==> m.contexts[d].claim_identity != Some(display_identity)
        },
        f.message matches ClaimMessage::IdleReport { nonce, .. } ==> !m.pending_idle.contains_key(
            nonce,
        ),
{
}

/// A display is found by the nonce of its flight or by its identity, and by
/// nothing else, and is missed only where there is none.
pub proof fn law_displays_are_found_by_what_they_have(
    m: DriverModel,
    key: Seq<char>,
    d: Seq<char>,
)
    ensures
        flight_named(m, key, Some(d)) <==> m.flights.contains_key(d) && m.flights[d].nonce == key,
        flight_named(m, key, None) && m.flights.contains_key(d) ==> m.flights[d].nonce != key,
        display_named(m, key, Some(d)) <==> m.contexts.contains_key(d)
            && m.contexts[d].claim_identity == Some(key),
        display_named(m, key, None) && m.contexts.contains_key(d) ==> m.contexts[d].claim_identity
            != Some(key),
{
}

/// Every frame of a flight goes to the other side of that flight, in its epoch,
/// numbered one higher than the last, under a nonce that is its own by its kind.
pub proof fn law_frames_go_to_the_other_side(
    m: DriverModel,
    d: Seq<char>,
    verdict: ClaimVerdict,
    env: ActionEnv,
    action: Action<Seq<char>>,
)
    requires
        m.flights.contains_key(d),
        m.flights[d].peer_instance_id.len() > 0,
        m.flights[d].peer_epoch.len() > 0,
        action == Action::<Seq<char>>::SendAbort || action == Action::<Seq<char>>::SendAcquireReady
            || action == Action::<Seq<char>>::SendVerdict(verdict) || action == Action::<
            Seq<char>,
        >::SendReleaseFailed,
    ensures
        ({
            let step = action_step(m, d, action, env);
            let e = step.effects[0];
            let f = m.flights[d];
            &&& step.effects.len() == 1
            &&& e is Send
            &&& e->Send_peer == f.peer_instance_id
            &&& e->peer_epoch == f.peer_epoch
            &&& e->note is None
            &&& m.counter < u64::MAX ==> e->Send_counter == m.counter + 1
            &&& step.state == (DriverModel { counter: e->Send_counter, ..m })
            &&& action is SendAbort ==> e->Send_nonce == "abort-"@ + f.nonce
            &&& action is SendAcquireReady ==> e->Send_nonce == "acq-"@ + f.nonce
            &&& action is SendVerdict ==> e->Send_nonce == "resp-"@ + f.nonce
            &&& action is SendReleaseFailed ==> e->Send_nonce == "relfail-"@ + f.nonce
        }),
{
}

/// What comes back for a flight that is over, or for one that another has taken the
/// place of, is told to nobody.
pub proof fn law_late_completions_are_dropped(
    m: DriverModel,
    d: Seq<char>,
    nonce: Seq<char>,
    event: OwnerEvent<Seq<char>>,
    requester_active: bool,
)
    requires
        !m.flights.contains_key(d) || m.flights[d].nonce != nonce,
    ensures
        completion_feed(m, d, nonce, event, requester_active) is None,
{
}

/// What fails says why: a fallback without a panel or a code to write in the log, a
/// write without them to the engine, a release to the other side, and an
/// acquisition whose hook aborts to the requester.
pub proof fn law_failures_say_why(m: DriverModel, d: Seq<char>, env: ActionEnv)
    ensures
        !env.has_executor ==> {
            &&& action_step(m, d, Action::AttemptFallback, env).effects == seq![
                Effect::Record("claim_failed"@),
                Effect::Log("claim_failed:"@ + d),
                Effect::Log("reason:Denied(Unsupported)"@),
            ]
            &&& action_step(m, d, Action::WriteInput, env).feed == Some(
                Feed::Owner(OwnerEvent::WriteFailed("E_DISPLAY_IO: no executor"@)),
            )
        },
        m.flights.contains_key(d) && m.flights[d].peer_instance_id.len() > 0
            && m.flights[d].peer_epoch.len() > 0 ==> action_step(
            m,
            d,
            Action::SendReleaseFailed,
            env,
        ).effects[0]->Send_message == (ClaimMessage::ReleaseFailed {
            nonce: m.flights[d].nonce,
            reason: "write failed"@,
        }),
        m.flights.contains_key(d) ==> completion_feed(
            m,
            d,
            m.flights[d].nonce,
            OwnerEvent::BeforeRelease(HookResult::Aborted),
            true,
        ) == Some(
            Feed::Requester(RequesterEvent::AcquireFailed { reason: "hook aborted"@ }),
        ),
{
}

} // verus!
