//! Timing policy of the audio inhibitor: debounce, failure tolerance, breaker.
//!
//! The caller supplies the clock with every probe outcome; the policy says which
//! edges to publish.

use vstd::prelude::*;

use crate::clock;
use crate::clock::{after, elapsed_since, Nanos};
use crate::text::same_text;

verus! {

/// Consecutive probe failures after which both inhibitors are dropped.
pub const FAILURE_THRESHOLD: u32 = 2;

/// What may keep a display from being blanked.
#[derive(Clone, Copy, PartialEq, Eq, Debug, Structural)]
pub enum InhibitorKind {
    UserActivity,
    AudioPlayback,
    Call,
}

/// The configuration literal of activity inhibition.
pub const INHIBITOR_USER_ACTIVITY: &'static str = "user-activity";

/// The configuration literal of playback inhibition.
pub const INHIBITOR_AUDIO_PLAYBACK: &'static str = "audio-playback";

/// The configuration literal of call inhibition.
pub const INHIBITOR_CALL: &'static str = "call";

/// The kind that a configuration literal names.
pub open spec fn kind_named(s: Seq<char>) -> Option<InhibitorKind> {
    if s == INHIBITOR_USER_ACTIVITY@ {
        Some(InhibitorKind::UserActivity)
    } else if s == INHIBITOR_AUDIO_PLAYBACK@ {
        Some(InhibitorKind::AudioPlayback)
    } else if s == INHIBITOR_CALL@ {
        Some(InhibitorKind::Call)
    } else {
        None
    }
}

impl InhibitorKind {
    /// The kind that a configuration literal names.
    pub fn from_config(s: &str) -> (res: Option<InhibitorKind>)
        ensures
            res == kind_named(s@),
    {
        if same_text(s, INHIBITOR_USER_ACTIVITY) {
            Some(InhibitorKind::UserActivity)
        } else if same_text(s, INHIBITOR_AUDIO_PLAYBACK) {
            Some(InhibitorKind::AudioPlayback)
        } else if same_text(s, INHIBITOR_CALL) {
            Some(InhibitorKind::Call)
        } else {
            None
        }
    }
}

/// The outcome of one audio probe.
#[derive(Clone, Copy, PartialEq, Eq, Debug, Structural)]
pub enum ProbeOutcome {
    /// The probe's output was classified.
    Classified { playback: bool, call: bool },
    /// Spawning, waiting for, or parsing the probe failed.
    Failure,
    /// Too many probe processes could not be reaped.
    ReapCapReached,
}

/// One edge of the policy.
#[derive(Clone, Copy, PartialEq, Eq, Debug, Structural)]
pub enum AudioTransition {
    Assert(InhibitorKind),
    Deassert(InhibitorKind),
    /// Stop probing until the cooldown is over.
    OpenBreaker,
    /// Probe again.
    CloseBreaker,
    /// Nothing to publish.
    NoChange,
}

/// The debounce state of one inhibitor.
#[derive(Clone, Copy, PartialEq, Eq, Debug, Structural)]
pub struct KindDebounce {
    pub active_since: Option<Nanos>,
    pub effective: bool,
}

/// The policy's state.
#[derive(Clone, Copy, PartialEq, Eq, Debug, Structural)]
pub struct AudioPolicy {
    pub min_active: Nanos,
    pub breaker_cooldown: Nanos,
    pub playback: KindDebounce,
    pub call: KindDebounce,
    pub consecutive_failures: u32,
    pub startup_grace: bool,
    pub breaker_open: bool,
    pub cooldown_until: Option<Nanos>,
}

/// The debounce state of a stream that is not there.
pub open spec fn silent() -> KindDebounce {
    KindDebounce { active_since: None, effective: false }
}

/// The debounce state after a probe. A stream counts once it has been active for
/// `min_active`, at once during the startup grace, and until it stops.
pub open spec fn debounced(
    d: KindDebounce,
    now: Nanos,
    active: bool,
    grace: bool,
    min_active: Nanos,
) -> KindDebounce {
    if !active {
        silent()
    } else {
        let since = match d.active_since {
            Some(t) => t,
            None => now,
        };
        KindDebounce {
            active_since: Some(since),
            effective: d.effective || grace || clock::elapsed(since, now) >= min_active,
        }
    }
}

/// The edge that publishes a debounce state.
pub open spec fn edge(d: KindDebounce, kind: InhibitorKind) -> AudioTransition {
    if d.effective {
        AudioTransition::Assert(kind)
    } else {
        AudioTransition::Deassert(kind)
    }
}

/// Both inhibitors dropped.
pub open spec fn both_dropped() -> Seq<AudioTransition> {
    seq![
        AudioTransition::Deassert(InhibitorKind::AudioPlayback),
        AudioTransition::Deassert(InhibitorKind::Call),
    ]
}

/// One failure more, counted up to the largest number.
pub open spec fn one_more(n: u32) -> u32 {
    if n < u32::MAX {
        (n + 1) as u32
    } else {
        n
    }
}

/// The state after a probe outcome.
pub open spec fn policy_after(p: AudioPolicy, now: Nanos, outcome: ProbeOutcome) -> AudioPolicy {
    match outcome {
        ProbeOutcome::Classified { playback, call } => AudioPolicy {
            playback: debounced(p.playback, now, playback, p.startup_grace, p.min_active),
            call: debounced(p.call, now, call, p.startup_grace, p.min_active),
            consecutive_failures: 0,
            startup_grace: false,
            breaker_open: false,
            cooldown_until: if p.breaker_open {
                None
            } else {
                p.cooldown_until
            },
            ..p
        },
        ProbeOutcome::Failure => {
            let dropped = one_more(p.consecutive_failures) >= FAILURE_THRESHOLD;
            AudioPolicy {
                playback: if dropped {
                    silent()
                } else {
                    p.playback
                },
                call: if dropped {
                    silent()
                } else {
                    p.call
                },
                consecutive_failures: one_more(p.consecutive_failures),
                breaker_open: false,
                cooldown_until: if p.breaker_open {
                    None
                } else {
                    p.cooldown_until
                },
                ..p
            }
        },
        ProbeOutcome::ReapCapReached => AudioPolicy {
            playback: silent(),
            call: silent(),
            breaker_open: true,
            cooldown_until: Some(clock::later(now, p.breaker_cooldown)),
            ..p
        },
    }
}

/// The edges that a probe outcome calls for, in publishing order.
pub open spec fn edges(p: AudioPolicy, now: Nanos, outcome: ProbeOutcome) -> Seq<AudioTransition> {
    let next = policy_after(p, now, outcome);
    let closing = if p.breaker_open && outcome != ProbeOutcome::ReapCapReached {
        seq![AudioTransition::CloseBreaker]
    } else {
        Seq::<AudioTransition>::empty()
    };
    let body = match outcome {
        ProbeOutcome::Classified { .. } => seq![
            edge(next.playback, InhibitorKind::AudioPlayback),
            edge(next.call, InhibitorKind::Call),
        ],
        ProbeOutcome::Failure => if next.consecutive_failures >= FAILURE_THRESHOLD {
            both_dropped()
        } else {
            Seq::<AudioTransition>::empty()
        },
        ProbeOutcome::ReapCapReached => if p.breaker_open {
            both_dropped()
        } else {
            both_dropped().push(AudioTransition::OpenBreaker)
        },
    };
    if (closing + body).len() == 0 {
        seq![AudioTransition::NoChange]
    } else {
        closing + body
    }
}

impl ProbeOutcome {
    /// A classified outcome.
    pub fn classified(playback: bool, call: bool) -> (res: Self)
        ensures
            res == (ProbeOutcome::Classified { playback, call }),
    {
        ProbeOutcome::Classified { playback, call }
    }
}

impl Default for KindDebounce {
    fn default() -> (res: Self)
        ensures
            res == silent(),
    {
        KindDebounce { active_since: None, effective: false }
    }
}

impl AudioPolicy {
    /// A fresh policy for one poller generation.
    pub fn new(min_active: Nanos, breaker_cooldown: Nanos) -> (res: Self)
        ensures
            res == (AudioPolicy {
                min_active,
                breaker_cooldown,
                playback: silent(),
                call: silent(),
                consecutive_failures: 0,
                startup_grace: true,
                breaker_open: false,
                cooldown_until: None,
            }),
    {
        AudioPolicy {
            min_active,
            breaker_cooldown,
            playback: KindDebounce::default(),
            call: KindDebounce::default(),
            consecutive_failures: 0,
            startup_grace: true,
            breaker_open: false,
            cooldown_until: None,
        }
    }

    /// Fold one probe outcome into the policy.
    pub fn step(&mut self, now: Nanos, outcome: ProbeOutcome) -> (transitions: Vec<
        AudioTransition,
    >)
        ensures
            *final(self) == policy_after(*old(self), now, outcome),
            transitions@ == edges(*old(self), now, outcome),
    {
        let mut transitions: Vec<AudioTransition> = Vec::new();
        let reap_cap = match outcome {
            ProbeOutcome::ReapCapReached => true,
            _ => false,
        };
        if self.breaker_open && !reap_cap {
            self.breaker_open = false;
            self.cooldown_until = None;
            transitions.push(AudioTransition::CloseBreaker);
        }
        let ghost closing = transitions@;
        match outcome {
            ProbeOutcome::Classified { playback, call } => {
                self.consecutive_failures = 0;
                let grace = self.startup_grace;
                let min_active: Nanos = self.min_active;
                transitions.push(
                    Self::update_kind(
                        now,
                        playback,
                        &mut self.playback,
                        InhibitorKind::AudioPlayback,
                        grace,
                        min_active,
                    ),
                );
                transitions.push(
                    Self::update_kind(
                        now,
                        call,
                        &mut self.call,
                        InhibitorKind::Call,
                        grace,
                        min_active,
                    ),
                );
                self.startup_grace = false;
            },
            ProbeOutcome::Failure => {
                self.consecutive_failures = self.consecutive_failures.saturating_add(1);
                if self.consecutive_failures >= FAILURE_THRESHOLD {
                    self.reset_debounce();
                    Self::deassert_all(&mut transitions);
                }
            },
            ProbeOutcome::ReapCapReached => {
                self.cooldown_until = Some(after(now, self.breaker_cooldown));
                Self::deassert_all(&mut transitions);
                self.reset_debounce();
                if !self.breaker_open {
                    self.breaker_open = true;
                    transitions.push(AudioTransition::OpenBreaker);
                }
            },
        }
        if transitions.len() == 0 {
            transitions.push(AudioTransition::NoChange);
        }
        assert(transitions@ =~= edges(*old(self), now, outcome));
        transitions
    }

    /// Whether probing is stopped.
    pub fn breaker_is_open(&self) -> (res: bool)
        ensures
            res == self.breaker_open,
    {
        self.breaker_open
    }

    /// The time left before probing may resume.
    pub fn cooldown_remaining(&self, now: Nanos) -> (res: Option<Nanos>)
        ensures
            res == (match self.cooldown_until {
                Some(deadline) => Some(clock::elapsed(now, deadline) as u128),
                None => None,
            }),
    {
        match self.cooldown_until {
            Some(deadline) => Some(elapsed_since(now, deadline)),
            None => None,
        }
    }

    /// Fold a stream's presence into its debounce state.
    fn update_kind(
        now: Nanos,
        active: bool,
        debounce: &mut KindDebounce,
        kind: InhibitorKind,
        startup_grace: bool,
        min_active: Nanos,
    ) -> (res: AudioTransition)
        ensures
            *final(debounce) == debounced(*old(debounce), now, active, startup_grace, min_active),
            res == edge(*final(debounce), kind),
    {
        if active {
            let since: Nanos = match debounce.active_since {
                Some(t) => t,
                None => now,
            };
            debounce.active_since = Some(since);
            debounce.effective = debounce.effective || startup_grace || elapsed_since(since, now)
                >= min_active;
            if debounce.effective {
                AudioTransition::Assert(kind)
            } else {
                AudioTransition::Deassert(kind)
            }
        } else {
            debounce.active_since = None;
            debounce.effective = false;
            AudioTransition::Deassert(kind)
        }
    }

    /// Forget both streams.
    fn reset_debounce(&mut self)
        ensures
            *final(self) == (AudioPolicy { playback: silent(), call: silent(), ..*old(self) }),
    {
        self.playback = KindDebounce::default();
        self.call = KindDebounce::default();
    }

    /// Publish that both inhibitors are dropped.
    fn deassert_all(transitions: &mut Vec<AudioTransition>)
        ensures
            final(transitions)@ == old(transitions)@ + both_dropped(),
    {
        transitions.push(AudioTransition::Deassert(InhibitorKind::AudioPlayback));
        transitions.push(AudioTransition::Deassert(InhibitorKind::Call));
        assert(transitions@ =~= old(transitions)@ + both_dropped());
    }
}

// ── laws ─────────────────────────────────────────────────────────────────

/// Whether a probe outcome reports a stream of `kind`.
pub open spec fn reports(outcome: ProbeOutcome, kind: InhibitorKind) -> bool {
    outcome matches ProbeOutcome::Classified { playback, call } && (kind
        == InhibitorKind::AudioPlayback && playback || kind == InhibitorKind::Call && call)
}

/// The breaker is open exactly after an outcome at the reap cap.
pub proof fn law_breaker_follows_reap_cap(p: AudioPolicy, now: Nanos, outcome: ProbeOutcome)
    ensures
        policy_after(p, now, outcome).breaker_open == (outcome == ProbeOutcome::ReapCapReached),
{
}

/// Every outcome publishes something, and "no change" stands alone.
pub proof fn law_edges_are_never_empty(p: AudioPolicy, now: Nanos, outcome: ProbeOutcome)
    ensures
        edges(p, now, outcome).len() > 0,
        edges(p, now, outcome).contains(AudioTransition::NoChange) ==> edges(p, now, outcome)
            == seq![AudioTransition::NoChange],
{
}

/// Nothing is asserted but a stream that the probe reports.
pub proof fn law_assertion_needs_a_stream(
    p: AudioPolicy,
    now: Nanos,
    outcome: ProbeOutcome,
    kind: InhibitorKind,
)
    requires
        edges(p, now, outcome).contains(AudioTransition::Assert(kind)),
    ensures
        reports(outcome, kind),
{
}

/// A stream that a successful probe no longer reports is dropped at once.
pub proof fn law_deassertion_is_immediate(
    p: AudioPolicy,
    now: Nanos,
    outcome: ProbeOutcome,
    kind: InhibitorKind,
)
    requires
        outcome is Classified,
        kind == InhibitorKind::AudioPlayback || kind == InhibitorKind::Call,
        !reports(outcome, kind),
    ensures
        edges(p, now, outcome).contains(AudioTransition::Deassert(kind)),
{
    let e = edges(p, now, outcome);
    let at = e.len() - (if kind == InhibitorKind::Call {
        1int
    } else {
        2
    });
    assert(e[at] == AudioTransition::Deassert(kind));
}

/// After the startup grace, playback that was first reported less than
/// `min_active` ago is not asserted yet.
pub proof fn law_short_playback_is_held_back(
    p: AudioPolicy,
    first: Nanos,
    now: Nanos,
    call_first: bool,
    call_now: bool,
)
    requires
        !p.startup_grace,
        p.playback == silent(),
        clock::elapsed(first, now) < p.min_active,
    ensures
        ({
            let started = policy_after(
                p,
                first,
                ProbeOutcome::Classified { playback: true, call: call_first },
            );
            !edges(started, now, ProbeOutcome::Classified { playback: true, call: call_now }).contains(
                AudioTransition::Assert(InhibitorKind::AudioPlayback),
            )
        }),
{
}

/// Two failures in a row drop both inhibitors.
pub proof fn law_two_failures_drop_both(p: AudioPolicy, first: Nanos, second: Nanos)
    ensures
        ({
            let failed = policy_after(p, first, ProbeOutcome::Failure);
            let e = edges(failed, second, ProbeOutcome::Failure);
            &&& e.contains(AudioTransition::Deassert(InhibitorKind::AudioPlayback))
            &&& e.contains(AudioTransition::Deassert(InhibitorKind::Call))
        }),
{
    let failed = policy_after(p, first, ProbeOutcome::Failure);
    let e = edges(failed, second, ProbeOutcome::Failure);
    assert(e[e.len() - 2] == AudioTransition::Deassert(InhibitorKind::AudioPlayback));
    assert(e[e.len() - 1] == AudioTransition::Deassert(InhibitorKind::Call));
}

/// A single failure after a success publishes nothing and keeps both streams.
pub proof fn law_one_failure_is_tolerated(
    p: AudioPolicy,
    first: Nanos,
    playback: bool,
    call: bool,
    now: Nanos,
)
    ensures
        ({
            let ok = policy_after(p, first, ProbeOutcome::Classified { playback, call });
            let failed = policy_after(ok, now, ProbeOutcome::Failure);
            &&& edges(ok, now, ProbeOutcome::Failure) == seq![AudioTransition::NoChange]
            &&& failed.playback == ok.playback
            &&& failed.call == ok.call
        }),
{
}

/// The streams that a probe can report.
pub open spec fn is_audio(kind: InhibitorKind) -> bool {
    kind == InhibitorKind::AudioPlayback || kind == InhibitorKind::Call
}

/// What the policy remembers of a stream.
pub open spec fn remembered(p: AudioPolicy, kind: InhibitorKind) -> KindDebounce {
    if kind == InhibitorKind::Call {
        p.call
    } else {
        p.playback
    }
}

/// A successful probe publishes one edge for playback and then one for calls,
/// after the breaker's where that closes.
pub proof fn law_successful_probe_publishes_each_stream_once(
    p: AudioPolicy,
    now: Nanos,
    playback: bool,
    call: bool,
)
    ensures
        ({
            let e = edges(p, now, ProbeOutcome::Classified { playback, call });
            let n = e.len() as int;
            &&& n == if p.breaker_open { 3int } else { 2 }
            &&& p.breaker_open ==> e[0] == AudioTransition::CloseBreaker
            &&& e[n - 2] == AudioTransition::Assert(InhibitorKind::AudioPlayback) || e[n - 2]
                == AudioTransition::Deassert(InhibitorKind::AudioPlayback)
            &&& e[n - 1] == AudioTransition::Assert(InhibitorKind::Call) || e[n - 1]
                == AudioTransition::Deassert(InhibitorKind::Call)
        }),
{
}

/// An asserted stream stays asserted for as long as it is reported, however
/// little time has passed and however it came to be asserted.
pub proof fn law_asserted_stream_stays_asserted(
    p: AudioPolicy,
    first: Nanos,
    outcome: ProbeOutcome,
    now: Nanos,
    next: ProbeOutcome,
    kind: InhibitorKind,
)
    requires
        edges(p, first, outcome).contains(AudioTransition::Assert(kind)),
        reports(next, kind),
    ensures
        edges(policy_after(p, first, outcome), now, next).contains(AudioTransition::Assert(kind)),
{
    let e = edges(policy_after(p, first, outcome), now, next);
    if kind == InhibitorKind::Call {
        assert(e[e.len() - 1] == AudioTransition::Assert(kind));
    } else {
        assert(e[e.len() - 2] == AudioTransition::Assert(kind));
    }
}

/// A single failed probe between two that report a stream does not drop it.
pub proof fn law_asserted_stream_survives_one_failure(
    p: AudioPolicy,
    first: Nanos,
    outcome: ProbeOutcome,
    failed: Nanos,
    now: Nanos,
    next: ProbeOutcome,
    kind: InhibitorKind,
)
    requires
        edges(p, first, outcome).contains(AudioTransition::Assert(kind)),
        reports(next, kind),
    ensures
        ({
            let seen = policy_after(p, first, outcome);
            let after = policy_after(seen, failed, ProbeOutcome::Failure);
            edges(after, now, next).contains(AudioTransition::Assert(kind))
        }),
{
    let seen = policy_after(p, first, outcome);
    let after = policy_after(seen, failed, ProbeOutcome::Failure);
    let e = edges(after, now, next);
    if kind == InhibitorKind::Call {
        assert(e[e.len() - 1] == AudioTransition::Assert(kind));
    } else {
        assert(e[e.len() - 2] == AudioTransition::Assert(kind));
    }
}

/// A stream that the first successful probe reports is asserted at once, and no
/// probe after that one has the grace.
pub proof fn law_startup_grace_is_for_the_first_successful_probe(
    p: AudioPolicy,
    now: Nanos,
    outcome: ProbeOutcome,
    kind: InhibitorKind,
)
    ensures
        p.startup_grace && reports(outcome, kind) ==> edges(p, now, outcome).contains(
            AudioTransition::Assert(kind),
        ),
        policy_after(p, now, outcome).startup_grace == (p.startup_grace && outcome !is Classified),
{
    let e = edges(p, now, outcome);
    if p.startup_grace && reports(outcome, kind) {
        if kind == InhibitorKind::Call {
            assert(e[e.len() - 1] == AudioTransition::Assert(kind));
        } else {
            assert(e[e.len() - 2] == AudioTransition::Assert(kind));
        }
    }
}

/// Two probes that both report a stream which was not there before, without the
/// grace: the second asserts it exactly if `min_active` has passed since the
/// first. The first asserts nothing unless no time is asked for.
pub proof fn law_stream_is_asserted_once_it_has_lasted(
    p: AudioPolicy,
    first: Nanos,
    started: ProbeOutcome,
    now: Nanos,
    next: ProbeOutcome,
    kind: InhibitorKind,
)
    requires
        !p.startup_grace,
        is_audio(kind),
        remembered(p, kind).active_since is None,
        !remembered(p, kind).effective,
        reports(started, kind),
        reports(next, kind),
        p.min_active > 0,
    ensures
        !edges(p, first, started).contains(AudioTransition::Assert(kind)),
        edges(policy_after(p, first, started), now, next).contains(AudioTransition::Assert(kind))
            <==> now >= first + p.min_active,
{
    let e = edges(policy_after(p, first, started), now, next);
    if now >= first + p.min_active {
        if kind == InhibitorKind::Call {
            assert(e[e.len() - 1] == AudioTransition::Assert(kind));
        } else {
            assert(e[e.len() - 2] == AudioTransition::Assert(kind));
        }
    }
}

/// A stream counts from when it was first reported, over any probes that report
/// it, and is forgotten by a probe that does not.
pub proof fn law_stream_counts_from_its_first_report(
    p: AudioPolicy,
    now: Nanos,
    outcome: ProbeOutcome,
    kind: InhibitorKind,
)
    requires
        is_audio(kind),
        outcome is Classified,
    ensures
        ({
            let before = remembered(p, kind).active_since;
            let after = remembered(policy_after(p, now, outcome), kind);
            if reports(outcome, kind) {
                &&& before is Some ==> after.active_since == before
                &&& before is None ==> after.active_since == Some(now)
            } else {
                after.active_since is None && !after.effective
            }
        }),
{
}

/// Playback and calls do not meddle with each other: what a probe says of one
/// changes nothing about the other.
pub proof fn law_streams_are_independent(
    p: AudioPolicy,
    now: Nanos,
    playback: bool,
    call: bool,
    other: bool,
)
    ensures
        policy_after(p, now, ProbeOutcome::Classified { playback, call }).playback
            == policy_after(p, now, ProbeOutcome::Classified { playback, call: other }).playback,
        policy_after(p, now, ProbeOutcome::Classified { playback, call }).call == policy_after(
            p,
            now,
            ProbeOutcome::Classified { playback: other, call },
        ).call,
{
}

/// Every failure from the second in a row on drops both inhibitors and forgets
/// both streams; a success in between starts the count anew.
pub proof fn law_failures_are_counted_in_a_row(
    p: AudioPolicy,
    now: Nanos,
    first: Nanos,
    playback: bool,
    call: bool,
)
    ensures
        ({
            let ok = policy_after(p, now, ProbeOutcome::Classified { playback, call });
            &&& ok.consecutive_failures == 0
            &&& policy_after(ok, first, ProbeOutcome::Failure).consecutive_failures == 1
        }),
        p.consecutive_failures < u32::MAX ==> policy_after(p, now, ProbeOutcome::Failure)
            .consecutive_failures == p.consecutive_failures + 1,
        p.consecutive_failures >= 1 ==> {
            let after = policy_after(p, now, ProbeOutcome::Failure);
            let e = edges(p, now, ProbeOutcome::Failure);
            &&& after.consecutive_failures >= 2
            &&& after.playback.active_since is None && !after.playback.effective
            &&& after.call.active_since is None && !after.call.effective
            &&& e.contains(AudioTransition::Deassert(InhibitorKind::AudioPlayback))
            &&& e.contains(AudioTransition::Deassert(InhibitorKind::Call))
        },
        policy_after(p, now, ProbeOutcome::ReapCapReached).consecutive_failures
            == p.consecutive_failures,
{
    if p.consecutive_failures >= 1 {
        let e = edges(p, now, ProbeOutcome::Failure);
        assert(e[e.len() - 2] == AudioTransition::Deassert(InhibitorKind::AudioPlayback));
        assert(e[e.len() - 1] == AudioTransition::Deassert(InhibitorKind::Call));
    }
}

/// At the reap cap both inhibitors are dropped and forgotten, the breaker opens
/// if it was closed, and the cooldown begins anew.
pub proof fn law_reap_cap_drops_everything(p: AudioPolicy, now: Nanos)
    ensures
        ({
            let after = policy_after(p, now, ProbeOutcome::ReapCapReached);
            let e = edges(p, now, ProbeOutcome::ReapCapReached);
            &&& after.playback.active_since is None && !after.playback.effective
            &&& after.call.active_since is None && !after.call.effective
            &&& e.contains(AudioTransition::Deassert(InhibitorKind::AudioPlayback))
            &&& e.contains(AudioTransition::Deassert(InhibitorKind::Call))
            &&& e.contains(AudioTransition::OpenBreaker) <==> !p.breaker_open
            &&& after.cooldown_until is Some
            &&& now + p.breaker_cooldown <= u128::MAX ==> after.cooldown_until->0 == now
                + p.breaker_cooldown
        }),
{
    let e = edges(p, now, ProbeOutcome::ReapCapReached);
    assert(e[0] == AudioTransition::Deassert(InhibitorKind::AudioPlayback));
    assert(e[1] == AudioTransition::Deassert(InhibitorKind::Call));
    if !p.breaker_open {
        assert(e[2] == AudioTransition::OpenBreaker);
    }
}

/// The breaker opens and closes by turns: an edge says so exactly where it was
/// the other way before, closing comes first, and a closed breaker has no
/// cooldown.
pub proof fn law_breaker_edges_follow_its_state(p: AudioPolicy, now: Nanos, outcome: ProbeOutcome)
    ensures
        ({
            let after = policy_after(p, now, outcome);
            let e = edges(p, now, outcome);
            &&& e.contains(AudioTransition::OpenBreaker) <==> !p.breaker_open
                && after.breaker_open
            &&& e.contains(AudioTransition::CloseBreaker) <==> p.breaker_open
                && !after.breaker_open
            &&& p.breaker_open && !after.breaker_open ==> e[0] == AudioTransition::CloseBreaker
                && after.cooldown_until is None
            &&& !p.breaker_open && !after.breaker_open ==> after.cooldown_until
                == p.cooldown_until
            &&& after.min_active == p.min_active
            &&& after.breaker_cooldown == p.breaker_cooldown
        }),
{
    let e = edges(p, now, outcome);
    if outcome == ProbeOutcome::ReapCapReached && !p.breaker_open {
        assert(e[2] == AudioTransition::OpenBreaker);
    }
    if outcome != ProbeOutcome::ReapCapReached && p.breaker_open {
        assert(e[0] == AudioTransition::CloseBreaker);
    }
}

/// Three texts name a kind, each another one.
pub proof fn law_kinds_have_one_name_each(s: Seq<char>)
    ensures
        kind_named("user-activity"@) == Some(InhibitorKind::UserActivity),
        kind_named("audio-playback"@) == Some(InhibitorKind::AudioPlayback),
        kind_named("call"@) == Some(InhibitorKind::Call),
        kind_named(s) is Some ==> s == "user-activity"@ || s == "audio-playback"@ || s == "call"@,
{
    reveal_strlit("user-activity");
    reveal_strlit("audio-playback");
    reveal_strlit("call");
    assert("user-activity"@.len() != "audio-playback"@.len());
}

} // verus!
