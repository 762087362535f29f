//! The claim runtime: what the driver makes of commands, frames and completions.

use dormantd::claim_probe::{
    fallback_written, input_written_back, is_lifecycle_event, run_direct_fallback,
    sink_claim_capable, sink_input_writable, FallbackOutcome, FallbackStep, WritabilityProbe,
};
use dormantd::claim_runtime::{
    claim_ended, ends_flight, hooks_finished, negotiated_peer_count, response_fed, settle_claim,
    sum_blocking_before_release, wake_finished, write_finished, ActionEnv, ActivityClaimPolicy,
    ArmFailure, ClaimFanned, ClaimRuntimeHandle, ClaimSharedResult, ClaimStart, CoordRecord,
    CoordinationTimes, DisplayRow, Driver, ExecutorFacts, HookAction, HookSlots, InboundFrame,
    InputWritability, KeymapConfig, PowerState, CLAIM_EVENTS,
};
use dormantd::claim_types::{
    Action, ClaimCapability, ClaimDeniedReason, ClaimFailure, ClaimMessage, ClaimRequest,
    ClaimVerdict, Direction, Effect, Feed, HookResult, InboundCall, OwnerDisposition,
    OwnerEvent, Phase, RequesterEvent,
};
use dormantd::coordination_claim::FanoutResult;
use dormantd::tables::TextMap;

const MS: u128 = 1_000_000;
const SECOND: u128 = 1_000 * MS;
const SECOND_64: u64 = 1_000_000_000;

fn times() -> CoordinationTimes {
    CoordinationTimes {
        poll_interval: 2 * SECOND,
        release_deadline_cap: 45 * SECOND,
        claim_timeout: 500 * MS,
        armed_window: 60 * SECOND,
    }
}

fn hook(timeout_s: u64, blocking: Option<bool>) -> HookAction {
    HookAction {
        command: Some(vec!["echo".to_string()]),
        mqtt: None,
        timeout: timeout_s * SECOND_64,
        blocking,
        abort_on_failure: false,
    }
}

fn no_hooks() -> HookSlots {
    HookSlots {
        before_release: vec![],
        after_release: vec![],
        before_acquire: vec![],
        after_acquire: vec![],
    }
}

fn row(name: &str, writability: InputWritability) -> DisplayRow {
    DisplayRow {
        name: name.to_string(),
        shared: true,
        executor: Some(ExecutorFacts {
            writability,
            claim_identity: Some("edid:test".to_string()),
        }),
        shared_input_code: Some(0x0f),
        shared_input_write_code: None,
        hooks: no_hooks(),
    }
}

fn driver() -> Driver {
    let mut d = Driver::new(
        "me".to_string(),
        ClaimRuntimeHandle::new(ActivityClaimPolicy::Armed),
        times(),
    );
    d.refresh_contexts_from_config(vec![row("panel", InputWritability::Capable)]);
    d
}

const BUSY_NOTHING: ActionEnv = ActionEnv {
    has_executor: true,
    requester_active: false,
};

/// A driver whose claim of the panel is in flight, and the claim's nonce.
fn claiming() -> (Driver, String) {
    let mut d = driver();
    let pending = match d.handle_claim_shared("panel", false, 2, 123) {
        ClaimStart::Fanout { pending, .. } => pending,
        ClaimStart::Answer { .. } => panic!("answered at once"),
    };
    let nonce = pending.nonce.clone();
    let begun = d.claim_begun(
        pending,
        &vec![Action::Trace("claim_requested".to_string())],
        10 * SECOND,
    );
    assert!(begun.fanout_sent);
    assert_eq!(begun.answer, None, "the owner has not answered yet");
    (d, nonce)
}

fn frame(nonce: &str, message: ClaimMessage<String>) -> InboundFrame<String> {
    InboundFrame {
        sender_instance_id: "peer".to_string(),
        sender_epoch: "peer-epoch".to_string(),
        nonce: nonce.to_string(),
        message,
    }
}

fn request(code: u16) -> ClaimMessage<String> {
    ClaimMessage::ClaimRequest(ClaimRequest {
        display_identity: "edid:test".to_string(),
        requester_instance_id: "peer".to_string(),
        requester_input_code: code,
        counter: 42,
        nonce: "req-1".to_string(),
    })
}

fn records(owned: bool, power: Option<PowerState>) -> TextMap<CoordRecord<String>> {
    let mut map = TextMap::new();
    map.insert(
        "panel".to_string(),
        CoordRecord {
            owned,
            owner_instance_id: Some("peer".to_string()),
            power,
        },
    );
    map
}

#[test]
fn claim_events_vocabulary_is_exact() {
    assert_eq!(
        CLAIM_EVENTS,
        [
            "claim_requested",
            "claim_accepted",
            "claim_denied",
            "claim_busy",
            "claim_not_owner",
            "claim_release_aborted",
            "claim_release_failed",
            "claim_fallback_direct",
            "claim_failed",
            "claim_completed",
            "claim_acquire_failed",
            "claim_acquire_ready",
            "claim_acquire_wait_expired",
        ]
    );
    assert!(is_lifecycle_event("claim_busy"));
    assert!(!is_lifecycle_event("claim_no_addressable_peers"));
}

#[test]
fn zero_contact_fanout_is_not_negotiated() {
    let no_contact = FanoutResult {
        contacted: 0,
        dial_failed: 2,
        ..FanoutResult::default()
    };
    let contacted = FanoutResult {
        contacted: 2,
        ..FanoutResult::default()
    };
    assert_eq!(negotiated_peer_count(no_contact), None);
    assert_eq!(negotiated_peer_count(contacted), Some(2));
}

#[test]
fn kvm_status_defaults_roundtrip() {
    let handle = ClaimRuntimeHandle::new(ActivityClaimPolicy::Off);
    let status = handle.kvm_status(0);
    assert!(status.claim_capable_displays.is_empty());
    assert_eq!(status.activity_claim, ActivityClaimPolicy::Off);
    assert!(status.keymap.bindings.is_empty());
    assert!(status.claim_armed_remaining.is_empty());
    assert_eq!(handle.release_deadline_cap, 45 * SECOND);
}

#[test]
fn blocking_before_release_sums_only_blocking_entries() {
    let slots = HookSlots {
        before_release: vec![hook(2, Some(true)), hook(2, Some(false)), hook(3, None)],
        ..no_hooks()
    };
    assert_eq!(sum_blocking_before_release(&slots), 5 * SECOND);
    assert_eq!(sum_blocking_before_release(&no_hooks()), 0);
}

#[test]
fn slots_are_kept_apart() {
    let slots = HookSlots {
        before_release: vec![hook(1, None)],
        after_release: vec![hook(2, None)],
        before_acquire: vec![hook(3, None)],
        after_acquire: vec![hook(4, None)],
    };
    let timeout = |d: Direction, p: Phase| slots.slot_for(d, p)[0].timeout;
    assert_eq!(timeout(Direction::Release, Phase::Before), SECOND_64);
    assert_eq!(timeout(Direction::Release, Phase::After), 2 * SECOND_64);
    assert_eq!(timeout(Direction::Acquire, Phase::Before), 3 * SECOND_64);
    assert_eq!(timeout(Direction::Acquire, Phase::After), 4 * SECOND_64);
}

// ── probes ───────────────────────────────────────────────────────────────

/// What a panel is found to be that answers a read and a write like this.
fn probed(read: &Result<Option<u8>, String>, write: &Result<(), String>) -> InputWritability {
    match sink_input_writable(read) {
        WritabilityProbe::Done(verdict) => verdict,
        WritabilityProbe::WriteBack(code) => {
            assert_eq!(Ok(Some(code)), *read, "what was read is written back");
            input_written_back(write)
        }
    }
}

#[test]
fn sampler_skip_does_not_mark_display_incapable() {
    let verdict = probed(
        &Err("skipped: command holds panel lock".to_string()),
        &Ok(()),
    );
    assert_eq!(verdict, InputWritability::Unknown);
    assert!(verdict.is_not_incapable());
}

#[test]
fn unsupported_write_marks_display_incapable() {
    let verdict = probed(
        &Ok(Some(0x0f)),
        &Err("E_DISPLAY_IO: unsupported input-source write".to_string()),
    );
    assert_eq!(verdict, InputWritability::Incapable);
    assert!(!verdict.is_not_incapable());
}

#[test]
fn successful_read_and_write_returns_capable() {
    let verdict = probed(&Ok(Some(0x0f)), &Ok(()));
    assert_eq!(verdict, InputWritability::Capable);
    assert!(verdict.is_not_incapable());
}

#[test]
fn transient_io_error_on_read_returns_unknown() {
    let verdict = probed(&Err("E_DISPLAY_IO: read failed".to_string()), &Ok(()));
    assert_eq!(verdict, InputWritability::Unknown);
    assert!(verdict.is_not_incapable());
}

#[test]
fn no_input_source_readback_returns_unknown() {
    let verdict = probed(&Ok(None), &Ok(()));
    assert_eq!(verdict, InputWritability::Unknown);
    assert!(verdict.is_not_incapable());
}

#[test]
fn transient_write_error_returns_unknown() {
    let verdict = probed(
        &Ok(Some(0x0f)),
        &Err("E_DISPLAY_IO: i2c timeout".to_string()),
    );
    assert_eq!(verdict, InputWritability::Unknown);
    assert!(verdict.is_not_incapable());
}

#[test]
fn terminal_fallback_outcomes_emit_tracing_anchors() {
    assert!(matches!(
        run_direct_fallback(Some(0x11), 0x11),
        FallbackStep::Done(FallbackOutcome::AlreadyOnTarget)
    ));
    assert_eq!(FallbackOutcome::AlreadyOnTarget.event(), "claim_completed");
    assert!(matches!(
        run_direct_fallback(Some(0x22), 0x99),
        FallbackStep::Write(0x99)
    ));
    assert_eq!(fallback_written(false), FallbackOutcome::WriteFailed);
    assert_eq!(FallbackOutcome::WriteFailed.event(), "claim_failed:write");
    assert_eq!(fallback_written(true), FallbackOutcome::Wrote);
    assert_eq!(
        FallbackOutcome::Wrote.event(),
        "claim_fallback_direct:wrote"
    );
    assert!(matches!(
        run_direct_fallback(None, 0x99),
        FallbackStep::Done(FallbackOutcome::IdentityUnavailable)
    ));
    assert_eq!(
        FallbackOutcome::IdentityUnavailable.event(),
        "claim_failed:identity_unavailable"
    );
    assert!(matches!(
        run_direct_fallback(Some(0), 0x99),
        FallbackStep::Done(FallbackOutcome::Standby)
    ));
    assert_eq!(FallbackOutcome::Standby.event(), "claim_failed:standby");
}

#[test]
fn a_display_is_claimed_by_its_identity() {
    assert!(sink_claim_capable(&Some("MFG:MODEL:SN".to_string())));
    assert!(!sink_claim_capable(&None));
}

// ── claims ───────────────────────────────────────────────────────────────

#[test]
fn a_request_carries_the_nonce_and_the_counter_of_its_frame() {
    let mut d = driver();
    match d.handle_claim_shared("panel", false, 1, 123) {
        ClaimStart::Fanout {
            pending,
            counter,
            message,
        } => {
            assert_eq!(pending.nonce, "req-123-0");
            assert_eq!(counter, 1);
            assert_eq!(pending.write_code, 0x0f);
            assert_eq!(
                message,
                ClaimMessage::ClaimRequest(ClaimRequest {
                    display_identity: "edid:test".to_string(),
                    requester_instance_id: "me".to_string(),
                    requester_input_code: 15,
                    counter: 1,
                    nonce: "req-123-0".to_string(),
                })
            );
        }
        ClaimStart::Answer { .. } => panic!("answered at once"),
    }
}

#[test]
fn a_claim_is_denied_where_it_cannot_succeed() {
    let mut d = driver();
    let answer = |start: ClaimStart<String>| match start {
        ClaimStart::Answer { result, record } => (result, record),
        ClaimStart::Fanout { .. } => panic!("sent"),
    };
    assert_eq!(
        answer(d.handle_claim_shared("elsewhere", false, 1, 0)),
        (
            ClaimSharedResult::Denied(ClaimDeniedReason::Unsupported),
            None
        )
    );
    assert_eq!(
        answer(d.handle_claim_shared("panel", true, 1, 0)),
        (ClaimSharedResult::Busy, Some("claim_busy".to_string()))
    );
    assert_eq!(
        answer(d.handle_claim_shared("panel", false, 0, 0)),
        (
            ClaimSharedResult::Denied(ClaimDeniedReason::CoordinationDisabled),
            Some("claim_no_addressable_peers".to_string())
        )
    );
    let mut anonymous = row("panel", InputWritability::Capable);
    anonymous.executor = Some(ExecutorFacts {
        writability: InputWritability::Capable,
        claim_identity: None,
    });
    d.refresh_contexts_from_config(vec![anonymous]);
    assert_eq!(
        answer(d.handle_claim_shared("panel", false, 1, 0)).0,
        ClaimSharedResult::Denied(ClaimDeniedReason::IdentityUnavailable)
    );
    d.refresh_contexts_from_config(vec![row("panel", InputWritability::Incapable)]);
    assert_eq!(
        answer(d.handle_claim_shared("panel", false, 1, 0)).0,
        ClaimSharedResult::Denied(ClaimDeniedReason::Unsupported)
    );
    assert_eq!(d.outbound_counter, 0, "nothing was counted");
}

#[test]
fn an_engine_that_has_a_flight_makes_a_claim_busy() {
    let mut d = driver();
    let pending = match d.handle_claim_shared("panel", false, 1, 5) {
        ClaimStart::Fanout { pending, .. } => pending,
        ClaimStart::Answer { .. } => panic!("answered at once"),
    };
    let begun = d.claim_begun(
        pending,
        &vec![
            Action::Trace("claim_busy".to_string()),
            Action::BusyLocal,
        ],
        0,
    );
    assert_eq!(begun.answer, Some(ClaimSharedResult::Busy));
    assert!(!begun.fanout_sent);
    assert_eq!(
        begun.effects,
        vec![Effect::Record("claim_busy".to_string())]
    );
    assert!(!d.handle.is_suppressed("panel", 0));
    assert_eq!(d.nonce_of("panel"), "");
}

#[test]
fn a_claim_in_flight_suppresses_its_own_losses() {
    let (mut d, nonce) = claiming();
    assert_eq!(d.nonce_of("panel"), nonce);
    assert!(d.handle.is_suppressed("panel", 10 * SECOND));
    assert!(d.handle.is_suppressed("panel", 10 * SECOND + 499 * MS));
    assert!(!d.handle.is_suppressed("panel", 10 * SECOND + 500 * MS));
    assert!(d.clear_finished_flight("panel", true).is_empty());
    let effects = d.clear_finished_flight("panel", false);
    assert_eq!(
        effects,
        vec![Effect::SetSuppression {
            display: "panel".to_string(),
            until: None
        }]
    );
    assert_eq!(d.nonce_of("panel"), "");
    assert!(!d.handle.is_suppressed("panel", 10 * SECOND));
}

#[test]
fn a_claim_nobody_hears_is_denied() {
    let d = driver();
    assert!(matches!(
        d.claim_fanned_out(FanoutResult::default()),
        ClaimFanned::Answer {
            result: ClaimSharedResult::Denied(ClaimDeniedReason::CoordinationDisabled),
            record,
        } if record == "claim_no_addressable_peers"
    ));
    let heard = FanoutResult {
        contacted: 3,
        ..FanoutResult::default()
    };
    assert!(matches!(
        d.claim_fanned_out(heard),
        ClaimFanned::Begin { peer_count: 3, .. }
    ));
}

#[test]
fn a_display_that_is_gone_has_no_flight() {
    let (mut d, _) = claiming();
    assert_eq!(
        Driver::handle_display_removed(true),
        Feed::Requester(RequesterEvent::DisplayRemoved)
    );
    assert_eq!(
        Driver::handle_display_removed(false),
        Feed::Owner(OwnerEvent::DisplayRemoved)
    );
    d.forget_display("panel");
    assert!(!d.handle.is_suppressed("panel", 10 * SECOND));
    assert_eq!(d.nonce_of("panel"), "");
    assert!(d.build_claim_request("panel", "n").is_none());
}

#[test]
fn an_accepting_peer_becomes_the_other_side() {
    let (mut d, nonce) = claiming();
    let step = d.handle_inbound(
        frame(
            "resp-1",
            ClaimMessage::ClaimResponse {
                nonce: nonce.clone(),
                verdict: ClaimVerdict::Accepted { eta_ms: 5_000 },
            },
        ),
        None,
        None,
        0,
    );
    assert!(step.effects.is_empty());
    assert_eq!(
        step.call,
        InboundCall::Requester {
            display: "panel".to_string(),
            event: RequesterEvent::Response {
                nonce: nonce.clone(),
                peer_instance_id: "peer".to_string(),
                verdict: ClaimVerdict::Accepted { eta_ms: 5_000 },
            }
        }
    );
    let abort = d.execute_action("panel", Action::SendAbort, BUSY_NOTHING);
    assert_eq!(
        abort.effects,
        vec![Effect::Send {
            peer: "peer".to_string(),
            peer_epoch: "peer-epoch".to_string(),
            counter: 2,
            nonce: format!("abort-{nonce}"),
            message: ClaimMessage::ClaimAbort { nonce },
            note: None,
        }]
    );
}

#[test]
fn reply_frames_are_addressed_to_the_peers_epoch() {
    let mut d = driver();
    d.handle_inbound(frame("req-1", request(0x11)), Some(&records(true, None)), None, 0);
    let verdict = ClaimVerdict::Accepted { eta_ms: 10 };
    let step = d.execute_action("panel", Action::SendVerdict(verdict), BUSY_NOTHING);
    assert_eq!(step.feed, Some(Feed::Owner(OwnerEvent::AckDelivered)));
    assert_eq!(
        step.effects,
        vec![Effect::Send {
            peer: "peer".to_string(),
            peer_epoch: "peer-epoch".to_string(),
            counter: 1,
            nonce: "resp-req-1".to_string(),
            message: ClaimMessage::ClaimResponse {
                nonce: "req-1".to_string(),
                verdict,
            },
            note: None,
        }]
    );
    let step = d.execute_action("panel", Action::SendReleaseFailed, BUSY_NOTHING);
    assert_eq!(
        step.effects,
        vec![Effect::Send {
            peer: "peer".to_string(),
            peer_epoch: "peer-epoch".to_string(),
            counter: 2,
            nonce: "relfail-req-1".to_string(),
            message: ClaimMessage::ReleaseFailed {
                nonce: "req-1".to_string(),
                reason: "write failed".to_string(),
            },
            note: None,
        }]
    );
    let step = d.execute_action("panel", Action::SendAcquireReady, BUSY_NOTHING);
    assert_eq!(
        step.effects,
        vec![Effect::Send {
            peer: "peer".to_string(),
            peer_epoch: "peer-epoch".to_string(),
            counter: 3,
            nonce: "acq-req-1".to_string(),
            message: ClaimMessage::ClaimAcquireReady {
                nonce: "acq-req-1".to_string(),
                request_nonce: "req-1".to_string(),
            },
            note: None,
        }]
    );
}

#[test]
fn an_inbound_request_reaches_its_engine() {
    let mut d = driver();
    let step = d.handle_inbound(
        frame("req-1", request(0x11)),
        Some(&records(true, Some(PowerState::Standby))),
        None,
        0,
    );
    let request_seen = match step.call {
        InboundCall::BeginOwner {
            request,
            nonce,
            release_cap,
        } => {
            assert_eq!(nonce, "req-1");
            assert_eq!(release_cap, 45 * SECOND);
            request
        }
        other => panic!("{other:?}"),
    };
    assert_eq!(request_seen.display, "panel");
    assert_eq!(request_seen.local_input_code, 0x0f);
    assert_eq!(request_seen.requester_input_code, 0x11);
    assert_eq!(request_seen.capability, ClaimCapability::Writable);
    assert_eq!(
        request_seen.disposition,
        OwnerDisposition::Ready { standby: true }
    );
    assert_eq!(request_seen.eta, 45 * SECOND);
    let write = d.execute_action("panel", Action::WriteInput, BUSY_NOTHING);
    assert_eq!(
        write.effects,
        vec![Effect::WriteInput {
            display: "panel".to_string(),
            target: 0x11,
            nonce: "req-1".to_string(),
        }]
    );
}

#[test]
fn an_unknown_display_is_not_ours() {
    let mut d = driver();
    let mut other = request(1);
    if let ClaimMessage::ClaimRequest(r) = &mut other {
        r.display_identity = "edid:other".to_string();
    }
    let step = d.handle_inbound(frame("req-9", other), None, None, 0);
    assert_eq!(step.call, InboundCall::Nothing);
    assert_eq!(step.effects.len(), 1);
    assert!(matches!(
        &step.effects[0],
        Effect::Send {
            message: ClaimMessage::ClaimResponse {
                verdict: ClaimVerdict::NotOwner,
                ..
            },
            ..
        }
    ));
}

#[test]
fn a_display_elsewhere_is_not_given() {
    for (coord, expected) in [
        (Some(records(false, None)), OwnerDisposition::NotOwner),
        (None, OwnerDisposition::NotOwner),
        (Some(TextMap::new()), OwnerDisposition::Quiescing),
        (
            Some(records(true, Some(PowerState::Other))),
            OwnerDisposition::Ready { standby: false },
        ),
    ] {
        let mut d = driver();
        let step = d.handle_inbound(frame("req-1", request(1)), coord.as_ref(), None, 0);
        match step.call {
            InboundCall::BeginOwner { request, .. } => {
                assert_eq!(request.disposition, expected);
            }
            other => panic!("{other:?}"),
        }
    }
}

#[test]
fn hooks_run_or_are_done_at_once() {
    let mut d = driver();
    let step = d.execute_action("panel", Action::RunBeforeRelease, BUSY_NOTHING);
    assert_eq!(
        step.feed,
        Some(Feed::Owner(OwnerEvent::BeforeRelease(HookResult::Completed)))
    );
    let requesting = ActionEnv {
        has_executor: true,
        requester_active: true,
    };
    let step = d.execute_action("panel", Action::RunBeforeAcquire, requesting);
    assert_eq!(
        step.feed,
        Some(Feed::Requester(RequesterEvent::AcquireCompleted))
    );
    let mut hooked = row("panel", InputWritability::Capable);
    hooked.hooks.after_release = vec![hook(1, None)];
    d.refresh_contexts_from_config(vec![hooked]);
    let step = d.execute_action(
        "panel",
        Action::RunAfterRelease { aborted: true },
        BUSY_NOTHING,
    );
    assert_eq!(
        step.effects,
        vec![Effect::RunHooks {
            display: "panel".to_string(),
            display_identity: "edid:test".to_string(),
            peer: String::new(),
            direction: Direction::Release,
            phase: Phase::After,
            aborted: true,
            nonce: String::new(),
        }]
    );
    assert_eq!(step.feed, None);
}

#[test]
fn a_fallback_needs_an_executor_and_a_code() {
    let mut d = driver();
    let step = d.execute_action("panel", Action::AttemptFallback, BUSY_NOTHING);
    assert_eq!(
        step.effects,
        vec![
            Effect::Record("claim_fallback_direct".to_string()),
            Effect::Fallback {
                display: "panel".to_string(),
                target: 0x0f
            },
        ]
    );
    let bare = ActionEnv {
        has_executor: false,
        requester_active: false,
    };
    let step = d.execute_action("panel", Action::AttemptFallback, bare);
    assert_eq!(step.effects[0], Effect::Record("claim_failed".to_string()));
    let step = d.execute_action("panel", Action::WriteInput, bare);
    assert_eq!(
        step.feed,
        Some(Feed::Owner(OwnerEvent::WriteFailed(
            "E_DISPLAY_IO: no executor".to_string()
        )))
    );
    let step = d.execute_action("panel", Action::WakeDisplay, bare);
    assert_eq!(step.feed, Some(Feed::Owner(OwnerEvent::WakeCompleted)));
}

#[test]
fn completions_of_old_flights_are_ignored() {
    let (d, nonce) = claiming();
    assert_eq!(
        d.handle_owner_completion("panel", "req-0", OwnerEvent::WakeCompleted, false),
        None
    );
    assert_eq!(
        d.handle_owner_completion("panel", &nonce, OwnerEvent::WakeCompleted, false),
        Some(Feed::Owner(OwnerEvent::WakeCompleted))
    );
    assert_eq!(
        d.handle_owner_completion(
            "panel",
            &nonce,
            OwnerEvent::BeforeRelease(HookResult::Aborted),
            true
        ),
        Some(Feed::Requester(RequesterEvent::AcquireFailed {
            reason: "hook aborted".to_string()
        }))
    );
    assert_eq!(
        d.handle_owner_completion("panel", &nonce, OwnerEvent::WriteSucceeded, true),
        None
    );
}

#[test]
fn idle_reports_count_only_from_the_owner() {
    let mut d = driver();
    let effects = d.handle_idle_query("panel", &vec![], 77);
    assert!(!effects.is_empty());
    let nonce = "req-77-0".to_string();
    let report = || ClaimMessage::IdleReport {
        idle_ms: 900,
        counter: 4,
        nonce: nonce.clone(),
    };
    let mut stranger = frame("x", report());
    stranger.sender_instance_id = "stranger".to_string();
    let step = d.handle_inbound(stranger, Some(&records(false, None)), None, 0);
    assert!(step.effects.is_empty());
    let step = d.handle_inbound(frame("x", report()), Some(&records(false, None)), None, 0);
    assert_eq!(
        step.effects,
        vec![Effect::AnswerIdle {
            query: nonce.clone(),
            idle_ms: 900
        }]
    );
    let step = d.handle_inbound(frame("x", report()), Some(&records(false, None)), None, 0);
    assert!(step.effects.is_empty(), "a query is answered once");
}

#[test]
fn arming_has_a_deadline() {
    let mut d = driver();
    assert_eq!(
        d.handle_claim_arm("elsewhere", 0),
        Err(ArmFailure::NotClaimCapable)
    );
    assert_eq!(d.handle_claim_arm("panel", SECOND), Ok(61 * SECOND));
    assert!(d.handle.is_armed("panel", 60 * SECOND));
    assert!(!d.handle.is_armed("panel", 61 * SECOND));
    assert_eq!(
        d.handle.armed_deadline("panel", 60 * SECOND),
        Some(61 * SECOND)
    );
    assert_eq!(d.handle.armed_deadline("panel", 61 * SECOND), None);
    let status = d.handle.kvm_status(SECOND);
    assert_eq!(
        status.claim_armed_remaining,
        vec![("panel".to_string(), 60_000)]
    );
    d.handle.auto_disarm_expired(61 * SECOND);
    assert_eq!(d.handle.armed_deadline("panel", SECOND), None);
    assert_eq!(
        ClaimRuntimeHandle::arm(ActivityClaimPolicy::Off),
        Err(ArmFailure::NotArmed)
    );
    assert_eq!(
        ClaimRuntimeHandle::arm(ActivityClaimPolicy::OwnerIdle),
        Err(ArmFailure::NotArmed)
    );
    assert_eq!(ClaimRuntimeHandle::arm(ActivityClaimPolicy::Armed), Ok(()));
}

#[test]
fn executors_changed_refreshes_contexts() {
    let mut d = Driver::new(
        "me".to_string(),
        ClaimRuntimeHandle::new(ActivityClaimPolicy::Off),
        times(),
    );
    let mut absent = row("panel", InputWritability::Capable);
    absent.executor = None;
    let refreshed = d.refresh_contexts_from_config(vec![absent]);
    assert!(refreshed.engines.is_empty());
    assert!(d.build_claim_request("panel", "n").is_none());
    let before = d.handle_claim_shared("panel", false, 0, 0);
    assert!(matches!(
        before,
        ClaimStart::Answer {
            result: ClaimSharedResult::Denied(ClaimDeniedReason::Unsupported),
            record: None,
        }
    ));

    let refreshed =
        d.refresh_contexts_from_config(vec![row("panel", probed(&Ok(Some(0x0f)), &Ok(())))]);
    assert_eq!(refreshed.engines, vec!["panel".to_string()]);
    assert!(d.build_claim_request("panel", "n").is_some());
    let after = d.handle_claim_shared("panel", false, 0, 0);
    assert!(matches!(
        after,
        ClaimStart::Answer {
            result: ClaimSharedResult::Denied(ClaimDeniedReason::CoordinationDisabled),
            record: Some(_),
        }
    ));
    assert!(matches!(
        d.handle_claim_shared("panel", false, 1, 0),
        ClaimStart::Fanout { .. }
    ));
    let mut private = row("other", InputWritability::Capable);
    private.shared = false;
    let refreshed = d.refresh_contexts_from_config(vec![private]);
    assert_eq!(refreshed.removed, vec!["panel".to_string()]);
    assert!(refreshed.engines.is_empty());
    assert!(d.build_claim_request("panel", "n").is_none());
}

#[test]
fn a_status_is_refreshed_as_a_whole() {
    let mut handle = ClaimRuntimeHandle::new(ActivityClaimPolicy::Off);
    handle.refresh_status(
        vec!["panel".to_string()],
        KeymapConfig {
            bindings: vec![("F1".to_string(), "panel".to_string())],
        },
        ActivityClaimPolicy::Armed,
        SECOND,
    );
    let status = handle.kvm_status(0);
    assert_eq!(status.claim_capable_displays, vec!["panel".to_string()]);
    assert_eq!(status.activity_claim, ActivityClaimPolicy::Armed);
    assert_eq!(status.keymap.bindings.len(), 1);
    assert_eq!(handle.release_deadline_cap, SECOND);
}

#[test]
fn a_terminal_action_ends_a_flight() {
    assert!(ends_flight(&vec![Action::SendAbort, Action::Terminal]));
    assert!(!ends_flight(&vec![Action::SendAbort]));
    let (mut d, _) = claiming();
    d.sweep_deadlines("panel", false);
    assert_ne!(d.nonce_of("panel"), "");
    d.sweep_deadlines("panel", true);
    assert_eq!(d.nonce_of("panel"), "");
    assert!(d.sweep_display("panel", true).is_empty());
    assert_eq!(d.sweep_display("panel", false).len(), 1);
}

#[test]
fn counters_stop_at_the_last() {
    let mut d = driver();
    d.outbound_counter = u64::MAX;
    assert_eq!(d.next_counter(), u64::MAX);
    assert_eq!(
        d.next_nonce(5),
        "req-5-18446744073709551615"
    );
    for i in 0..70u128 {
        d.next_nonce(i);
    }
    assert_eq!(d.outbound_nonces.len(), 64);
}

#[test]
fn an_acceptance_that_was_taken_up_moves_the_ownership() {
    let taken_up = vec![
        Action::Trace("claim_accepted".to_string()),
        Action::WatchForFlip,
    ];
    assert_eq!(
        response_fed("panel", "peer", true, &taken_up, true),
        vec![Effect::SetOwner {
            display: "panel".to_string(),
            owner: "peer".to_string(),
        }]
    );
    assert_eq!(response_fed("panel", "peer", true, &taken_up, false), vec![]);
    assert_eq!(response_fed("panel", "peer", false, &taken_up, true), vec![]);
    let ignored = vec![Action::Trace("claim_busy".to_string())];
    assert_eq!(response_fed("panel", "peer", true, &ignored, true), vec![]);
}

#[test]
fn a_display_runs_its_own_hooks() {
    let mut d = driver();
    let mut hooked = row("panel", InputWritability::Capable);
    hooked.hooks.after_release = vec![hook(3, None)];
    d.refresh_contexts_from_config(vec![hooked]);
    let slot = d.hook_actions("panel", Direction::Release, Phase::After);
    assert_eq!(slot.map(|s| s.len()), Some(1));
    assert_eq!(slot.map(|s| s[0].timeout), Some(3 * SECOND_64));
    let empty = d.hook_actions("panel", Direction::Release, Phase::Before);
    assert_eq!(empty.map(|s| s.len()), Some(0));
    assert!(d
        .hook_actions("elsewhere", Direction::Release, Phase::After)
        .is_none());
}

#[test]
fn a_claim_is_accepted_by_the_owners_verdict() {
    let (d, nonce) = claiming();
    let now = 10 * SECOND + 20 * MS;
    let none: Vec<Action<String>> = vec![];
    assert_eq!(
        d.claim_answered(
            "panel",
            &nonce,
            ClaimVerdict::Accepted { eta_ms: 5_000 },
            &none,
            true,
            now
        ),
        Some(ClaimSharedResult::Accepted {
            deadline: now + 45 * SECOND
        })
    );
    assert_eq!(
        d.claim_answered(
            "panel",
            "another-nonce",
            ClaimVerdict::Accepted { eta_ms: 5_000 },
            &none,
            true,
            now
        ),
        None
    );
    assert_eq!(
        d.claim_answered(
            "panel",
            &nonce,
            ClaimVerdict::Denied(ClaimDeniedReason::Unsupported),
            &none,
            true,
            now
        ),
        Some(ClaimSharedResult::Denied(ClaimDeniedReason::Unsupported))
    );
}

#[test]
fn a_claim_fails_once_nobody_is_left_to_accept() {
    let (d, nonce) = claiming();
    let failed =
        || ClaimSharedResult::Failed(ClaimFailure::Denied(ClaimDeniedReason::Unsupported));
    let not_owner = |actions: &Vec<Action<String>>, active: bool| {
        d.claim_answered("panel", &nonce, ClaimVerdict::NotOwner, actions, active, 0)
    };
    assert_eq!(not_owner(&vec![], true), None, "another peer may own it");
    assert_eq!(
        not_owner(&vec![Action::SendAbort, Action::AttemptFallback], false),
        None,
        "the fallback decides"
    );
    assert_eq!(
        not_owner(&vec![Action::Terminal], false),
        Some(failed())
    );
    assert_eq!(claim_ended(None), failed());
    assert_eq!(claim_ended(Some(FallbackOutcome::Standby)), failed());
    assert_eq!(claim_ended(Some(FallbackOutcome::WriteFailed)), failed());
    assert_eq!(
        claim_ended(Some(FallbackOutcome::IdentityUnavailable)),
        ClaimSharedResult::Failed(ClaimFailure::Denied(
            ClaimDeniedReason::IdentityUnavailable
        ))
    );
}

#[test]
fn a_claim_that_the_fallback_completed_is_answered() {
    assert_eq!(
        claim_ended(Some(FallbackOutcome::Wrote)),
        ClaimSharedResult::Completed
    );
    assert_eq!(
        claim_ended(Some(FallbackOutcome::AlreadyOnTarget)),
        ClaimSharedResult::Completed
    );
}

#[test]
fn a_claim_is_settled_once_nothing_runs_for_it() {
    assert_eq!(settle_claim(true, false), None);
    assert_eq!(settle_claim(false, true), None);
    assert_eq!(settle_claim(true, true), None);
    assert_eq!(settle_claim(false, false), Some(claim_ended(None)));
}

#[test]
fn a_display_without_an_input_code_takes_part_in_no_claim() {
    for write_code in [None, Some(0x11)] {
        let mut d = driver();
        let half = |identity: Option<&str>| {
            let mut half = row("panel", InputWritability::Capable);
            half.shared_input_code = None;
            half.shared_input_write_code = write_code;
            half.executor = Some(ExecutorFacts {
                writability: InputWritability::Capable,
                claim_identity: identity.map(str::to_string),
            });
            half
        };
        let answer = |start: ClaimStart<String>| match start {
            ClaimStart::Answer { result, record } => (result, record),
            ClaimStart::Fanout { .. } => panic!("sent"),
        };
        d.refresh_contexts_from_config(vec![half(None)]);
        assert_eq!(
            answer(d.handle_claim_shared("panel", true, 0, 5)),
            (
                ClaimSharedResult::Denied(ClaimDeniedReason::IdentityUnavailable),
                None
            )
        );
        d.refresh_contexts_from_config(vec![half(Some("edid:test"))]);
        assert_eq!(
            answer(d.handle_claim_shared("panel", true, 0, 5)),
            (ClaimSharedResult::Busy, Some("claim_busy".to_string()))
        );
        assert_eq!(
            answer(d.handle_claim_shared("panel", false, 0, 5)),
            (
                ClaimSharedResult::Denied(ClaimDeniedReason::CoordinationDisabled),
                Some("claim_no_addressable_peers".to_string())
            )
        );
        assert_eq!(d.outbound_counter, 0);
        assert_eq!(
            answer(d.handle_claim_shared("panel", false, 2, 5)),
            (
                ClaimSharedResult::Denied(ClaimDeniedReason::Unsupported),
                None
            )
        );
        assert_eq!(d.outbound_counter, 1, "the request was numbered");
        assert_eq!(d.outbound_nonces.len(), 1);
        assert_eq!(
            d.handle_claim_arm("panel", 0),
            Err(ArmFailure::NotClaimCapable)
        );
        assert!(d.build_claim_request("panel", "n").is_none());
    }
}

#[test]
fn completions_tell_the_engine_what_happened() {
    let error = || Err("E_DISPLAY_IO".to_string());
    assert_eq!(wake_finished(Ok(())), OwnerEvent::WakeCompleted);
    assert_eq!(
        wake_finished(error()),
        OwnerEvent::WriteFailed("E_DISPLAY_IO".to_string())
    );
    assert_eq!(write_finished(Ok(())), OwnerEvent::WriteSucceeded);
    assert_eq!(
        write_finished(error()),
        OwnerEvent::WriteFailed("E_DISPLAY_IO".to_string())
    );
    assert_eq!(
        hooks_finished(Phase::Before, HookResult::Aborted),
        OwnerEvent::BeforeRelease(HookResult::Aborted)
    );
    assert_eq!(
        hooks_finished(Phase::Before, HookResult::Completed),
        OwnerEvent::BeforeRelease(HookResult::Completed)
    );
    assert_eq!(
        hooks_finished(Phase::After, HookResult::Aborted),
        OwnerEvent::AfterReleaseCompleted
    );
}
