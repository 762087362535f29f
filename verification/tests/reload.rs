//! Reloads, from the request to the receipt.

use dormantd::app::{
    assemble_loaded, begin_reload_spawn_rollback_capture_for_test,
    record_reload_spawn_rollback_for_test, run_loop, take_reload_spawn_rollback_capture_for_test,
    validate_only, validate_or_bail, App, LoopAction, LoopEvent, ReloadSpawnCaptures, StartFacts,
    StartStep, ValidationReport, Warning,
};
use dormantd::assembly::index_display_rules;
use dormantd::config::RuleConfig;
use dormantd::coordination_claim::{Ip, SockAddr};
use dormantd::lkg::{
    new_lkg_candidate, reset_candidate_on_probe_failure, write_lkg, LkgCandidate,
    LkgCandidateObserved, LkgStep, LkgTracker,
};
use dormantd::reload::{
    await_generation_barrier, ping_if_healthy, BarrierEvent, BatchStart, Boundary, Effect,
    FailedReload, GenerationConfig, InstalledReload, LifecycleStage, NextGeneration, Quiescing, ReloadBatch,
    ReloadLifecycleCapture, ReloadOutcome, ReloadReceipt, ReloadRequest, ReloadSource, ReloadStart,
    ReloadTicket, Replacing, RollbackClear, Runner, SpawnPlan, SpawnResult, Spawned, WakeResult,
    WatchdogStep, FIRST_SHARED,
};
use dormantd::restore::{
    changed_dispatch_dark_displays, classify_transient, phase_is_dark, removed_dark_displays,
    retained_dark_displays, TransientClass,
};
use dormantd::revision::{
    credentials_mode_ok, load_runtime_from_paths, runtime_revision_from_paths, ConfigRead,
    ContentRevision, CredentialsRead, RuntimeRevision,
};
use dormantd::router::{GenerationRouter, Routed};
use dormantd::snapshot::{ControllerHealth, DisplaySnapshot, StateSnapshot};
use dormantd::tables::TextMap;

const SECOND: u128 = 1_000_000_000;
const COMMAND_TIMEOUT: u128 = 10 * SECOND;

fn seen(phase: &str) -> DisplaySnapshot {
    DisplaySnapshot {
        phase: phase.to_string(),
        cmd_gen: 0,
        controllers: Vec::new(),
        wake_attempts: 0,
        last_blank_failed: false,
    }
}

fn snap(displays: &[(&str, &str)]) -> StateSnapshot {
    StateSnapshot {
        displays: displays
            .iter()
            .map(|(id, phase)| (id.to_string(), seen(phase)))
            .collect(),
        sensors: Vec::new(),
    }
}

fn texts(v: &[&str]) -> Vec<String> {
    v.iter().map(|s| s.to_string()).collect()
}

fn dispatch(entries: &[(&str, &str)]) -> TextMap<String> {
    let mut map = TextMap::new();
    for (id, chain) in entries {
        map.insert(id.to_string(), chain.to_string());
    }
    map
}

fn generation(entries: &[(&str, &str)]) -> GenerationConfig {
    GenerationConfig {
        executors: entries.iter().map(|(id, _)| id.to_string()).collect(),
        dispatch: dispatch(entries),
        sensors: TextMap::new(),
        barrier_ack_timeout: 5 * SECOND,
        stability_window: 30 * SECOND,
        reload_debounce: 0,
        lkg_enabled: true,
    }
}

fn next(entries: &[(&str, &str)], ruled: &[&str]) -> NextGeneration {
    NextGeneration {
        config: generation(entries),
        shared: vec![],
        ruled: texts(ruled),
        web_port: None,
        web_bind: Ip::V4(0x7f00_0001),
    }
}

fn revision(config: &str) -> RuntimeRevision {
    RuntimeRevision {
        config: ContentRevision {
            digest: Some(config.to_string()),
        },
        credentials: ContentRevision::missing(),
    }
}

fn runner(entries: &[(&str, &str)]) -> Runner {
    Runner {
        coordinated: false,
        generation: generation(entries),
        generation_id: 3,
        applied_revision: revision("old"),
        started_web_port: None,
        started_web_bind: Ip::V4(0x7f00_0001),
        generation_barrier_ack_timeout: 5 * SECOND,
        lkg: LkgTracker {
            candidate: None,
            defer_count: 0,
        },
        probe_failed_warned: false,
        rollback_active: false,
        rollback_status: None,
        rollback_clear: RollbackClear {
            pending: false,
            warned: false,
        },
        stopping: false,
        force_reload_snapshot_timeout: false,
        reload_lifecycle_capture: None,
    }
}

fn ticket() -> ReloadTicket {
    ReloadTicket {
        request_ids: vec![7, 8],
        sources: vec![ReloadSource::Ipc],
        requested: revision("new"),
    }
}

/// The receipt of [`ticket`] while the runner is as [`runner`] makes it.
fn rejection(detail: &str) -> ReloadReceipt {
    ReloadReceipt {
        request_ids: vec![7, 8],
        sources: vec![ReloadSource::Ipc],
        requested_revision: revision("new"),
        applied_revision: revision("old"),
        generation: 3,
        outcome: ReloadOutcome::Rejected(detail.to_string()),
        coalesced: false,
    }
}

/// The reload that a spawn left, where the next generation was installed.
fn installed(spawned: Spawned) -> InstalledReload {
    match spawned {
        Spawned::Installed(installed) => installed,
        Spawned::Rebuild(_) => panic!("rebuilt"),
    }
}

/// Report the wake of the next display, which does not fail.
fn woken(replacing: Replacing, r: &Runner, result: WakeResult) -> (Replacing, Vec<Effect<String>>) {
    match replacing.wake_finished(r, result) {
        (Ok(replacing), effects) => (replacing, effects),
        (Err(_), _) => panic!("the wake failed"),
    }
}

/// A reload that failed because a display that is gone could not be woken.
fn failed_wake(r: &mut Runner) -> FailedReload {
    let (replacing, _) = torn_down(r, next(&[], &[]), Some(snap(&[("mon", "blanked")])));
    match replacing.wake_finished(r, WakeResult::Failed("why".to_string())) {
        (Err(failed), _) => failed,
        (Ok(_), _) => panic!("woken"),
    }
}

/// Start a reload that is not refused.
fn begin(
    r: &Runner,
    n: NextGeneration,
    snapshot: Option<StateSnapshot>,
) -> (Quiescing, Vec<Effect<String>>) {
    match r.reload(ticket(), Ok(n), snapshot, 0, COMMAND_TIMEOUT) {
        (ReloadStart::Quiesce(q), effects) => (q, effects),
        (ReloadStart::Rejected(receipt), _) => panic!("refused: {:?}", receipt.outcome),
    }
}

/// Bring a reload to the point where the old engine is gone.
fn torn_down(
    r: &mut Runner,
    n: NextGeneration,
    snapshot: Option<StateSnapshot>,
) -> (Replacing, Vec<Effect<String>>) {
    let (q, mut effects) = begin(r, n, snapshot);
    let (replacing, more) = q.replace(r);
    effects.extend(more);
    let (passed, more) = r.barrier_finished(replacing, BarrierEvent::Acknowledged);
    effects.extend(more);
    match passed {
        Ok(replacing) => (replacing, effects),
        Err(receipt) => panic!("not drained: {:?}", receipt.outcome),
    }
}

fn rejected(detail: &str) -> Effect<String> {
    Effect::Broadcast(ReloadOutcome::Rejected(detail.to_string()))
}

/// The displays that rules drive, by rule.
fn ruled_by(rules: &[(&str, &[&str])]) -> Vec<String> {
    let rules: Vec<RuleConfig> = rules
        .iter()
        .map(|(id, displays)| RuleConfig {
            id: id.to_string(),
            zone: "z".to_string(),
            displays: texts(displays),
            grace_period: SECOND,
            min_blank_time: 0,
            min_wake_time: 0,
            inhibitors: vec![],
            activity_idle_threshold: 300 * SECOND,
            activity_poll_interval: 5 * SECOND,
            wake_retries: 0,
            wake_retry_backoff: SECOND / 100,
            wake_retry_interval: SECOND,
        })
        .collect();
    let index = index_display_rules(&rules);
    (0..index.first.len())
        .map(|i| index.first.key_at(i).clone())
        .collect()
}

// ── displays at a reload ─────────────────────────────────────────────────

#[test]
fn classify_transient_all_combos() {
    assert_eq!(
        classify_transient("blanking", true),
        TransientClass::Quiesce
    );
    assert_eq!(
        classify_transient("blanked", true),
        TransientClass::RestoreDirect
    );
    assert_eq!(
        classify_transient("waking", true),
        TransientClass::RestoreDirect
    );
    assert_eq!(classify_transient("active", true), TransientClass::Ignore);
    assert_eq!(classify_transient("staged", true), TransientClass::Ignore);
    assert_eq!(
        classify_transient("render_pending", true),
        TransientClass::Ignore
    );
    assert_eq!(
        classify_transient("blanking", false),
        TransientClass::Ignore
    );
    assert_eq!(classify_transient("blanked", false), TransientClass::Ignore);
    assert_eq!(classify_transient("waking", false), TransientClass::Ignore);
    assert_eq!(classify_transient("active", false), TransientClass::Ignore);
    assert_eq!(classify_transient("garbage", true), TransientClass::Ignore);
    assert_eq!(classify_transient("garbage", false), TransientClass::Ignore);
}

#[test]
fn a_panel_under_an_overlay_is_not_dark() {
    assert!(phase_is_dark("blanked"));
    assert!(phase_is_dark("blanking"));
    assert!(phase_is_dark("waking"));
    assert!(!phase_is_dark("active"));
    assert!(!phase_is_dark("staged"));
    assert!(!phase_is_dark("render_pending"));
    assert!(!phase_is_dark(""));
}

#[test]
fn ruled_display_dispatch_change_is_never_classified_as_changed_identity() {
    let ruled = ruled_by(&[("r", &["mon"])]);
    assert_eq!(ruled, texts(&["mon"]));
    let changed = changed_dispatch_dark_displays(
        &Some(snap(&[("mon", "blanked")])),
        &dispatch(&[("mon", "macos-gamma-black cg:panel")]),
        &dispatch(&[("mon", "command cg:panel")]),
        &ruled,
    );
    assert!(changed.is_empty());

    let manual = changed_dispatch_dark_displays(
        &Some(snap(&[("mon", "blanked")])),
        &dispatch(&[("mon", "macos-gamma-black cg:panel")]),
        &dispatch(&[("mon", "command cg:panel")]),
        &vec![],
    );
    assert_eq!(manual, texts(&["mon"]));
}

#[test]
fn dark_displays_are_sorted_by_what_becomes_of_them() {
    let snapshot = Some(snap(&[
        ("gone", "blanked"),
        ("ruled", "waking"),
        ("manual", "blanked"),
        ("lit", "active"),
        ("gone_lit", "active"),
    ]));
    let present = texts(&["ruled", "manual", "lit"]);
    let ruled = texts(&["ruled", "lit", "gone"]);
    assert_eq!(removed_dark_displays(&snapshot, &present), texts(&["gone"]));
    assert_eq!(
        retained_dark_displays(&snapshot, &present, &ruled),
        texts(&["ruled"])
    );
    assert!(removed_dark_displays(&None, &present).is_empty());
    assert!(retained_dark_displays(&None, &present, &ruled).is_empty());
}

// ── the gamma scenarios ──────────────────────────────────────────────────

/// What is done about dark displays at a reload: those that are gone, those that
/// are commanded otherwise, and those that a rule drives.
fn sorted_out(
    old: &[(&str, &str)],
    new: &[(&str, &str)],
    executors: &[&str],
) -> (Vec<String>, Vec<String>, Vec<String>) {
    let snapshot = Some(snap(&[("mon", "blanked")]));
    let ruled = ruled_by(&[]);
    (
        removed_dark_displays(&snapshot, &texts(executors)),
        changed_dispatch_dark_displays(&snapshot, &dispatch(old), &dispatch(new), &ruled),
        retained_dark_displays(&snapshot, &texts(executors), &ruled),
    )
}

const GAMMA: &str = "macos-gamma-black cg:panel";

#[test]
fn manual_gamma_blank_survives_generation_reload_without_flash_wake() {
    let (removed, changed, retained) = sorted_out(&[("mon", GAMMA)], &[("mon", GAMMA)], &["mon"]);
    assert!(removed.is_empty());
    assert!(changed.is_empty());
    assert!(retained.is_empty());

    let mut r = runner(&[("mon", GAMMA)]);
    let (replacing, _) = torn_down(
        &mut r,
        next(&[("mon", GAMMA)], &[]),
        Some(snap(&[("mon", "blanked")])),
    );
    assert_eq!(replacing.next_wake(), None);
    assert!(replacing.wake_after.is_empty());
    let (spawned, _) = r.spawn_finished(replacing, SpawnResult::Spawned);
    let (_, effects) = r.finish_reload(installed(spawned), None, 0);
    assert!(!effects
        .iter()
        .any(|e| matches!(e, Effect::DefensiveWake(_))));
}

#[test]
fn removed_gamma_display_is_woken_through_the_old_executor() {
    let (removed, changed, _) =
        sorted_out(&[("mon", GAMMA)], &[("other", "command n/a")], &[]);
    assert_eq!(removed, texts(&["mon"]));
    assert!(changed.is_empty());

    let mut r = runner(&[("mon", GAMMA)]);
    let (replacing, _) = torn_down(
        &mut r,
        next(&[("other", "command n/a")], &[]),
        Some(snap(&[("mon", "blanked")])),
    );
    assert_eq!(replacing.wake, texts(&["mon"]));
    assert_eq!(replacing.next_wake().map(String::as_str), Some("mon"));
    assert!(r.generation.executors.contains(&"mon".to_string()));
    let (replacing, effects) = woken(replacing, &r, WakeResult::Woken);
    assert_eq!(effects, vec![Effect::Ping(Boundary::RemovedDisplayWake)]);
    assert_eq!(replacing.next_wake(), None);
}

#[test]
fn same_display_id_with_changed_chain_wakes_old_gamma_before_install() {
    let (removed, changed, _) =
        sorted_out(&[("mon", GAMMA)], &[("mon", "command cg:panel")], &["mon"]);
    assert!(removed.is_empty());
    assert_eq!(changed, texts(&["mon"]));

    let mut r = runner(&[("mon", GAMMA)]);
    let (replacing, effects) = torn_down(
        &mut r,
        next(&[("mon", "command cg:panel")], &[]),
        Some(snap(&[("mon", "blanked")])),
    );
    assert!(!effects.contains(&Effect::Install));
    assert_eq!(replacing.next_wake().map(String::as_str), Some("mon"));
    let (replacing, effects) = woken(replacing, &r, WakeResult::Woken);
    assert_eq!(effects, vec![Effect::Ping(Boundary::RemovedDisplayWake)]);
    assert_eq!(replacing.next_wake(), None);
    let (_, effects) = r.spawn_finished(replacing, SpawnResult::Spawned);
    assert_eq!(effects[0], Effect::Install);
}

#[test]
fn same_display_id_with_changed_selector_wakes_the_old_selector() {
    let replacement = "macos-gamma-black cg:replacement";
    let (removed, changed, _) =
        sorted_out(&[("mon", GAMMA)], &[("mon", replacement)], &["mon"]);
    assert!(removed.is_empty());
    assert_eq!(changed, texts(&["mon"]));

    let mut r = runner(&[("mon", GAMMA)]);
    let (replacing, _) = torn_down(
        &mut r,
        next(&[("mon", replacement)], &[]),
        Some(snap(&[("mon", "blanked")])),
    );
    assert_eq!(replacing.wake, texts(&["mon"]));
    assert_eq!(r.generation.dispatch.get("mon").map(String::as_str), Some(GAMMA));
    let (replacing, _) = woken(replacing, &r, WakeResult::Woken);
    assert_eq!(replacing.next_wake(), None, "woken exactly once");
}

#[test]
fn spawn_failure_rolls_back_old_generation_while_gamma_is_blanked() {
    let mut r = runner(&[("mon", GAMMA)]);
    let (replacing, _) = torn_down(
        &mut r,
        next(&[("mon", GAMMA)], &[]),
        Some(snap(&[("mon", "blanked")])),
    );
    assert_eq!(replacing.next_wake(), None);
    let (spawned, effects) =
        r.spawn_finished(replacing, SpawnResult::Failed("no zone".to_string()));
    let failed = match spawned {
        Spawned::Rebuild(failed) => failed,
        Spawned::Installed(_) => panic!("installed"),
    };
    let detail = "rebuild from new config failed: no zone".to_string();
    assert_eq!(
        effects,
        vec![
            Effect::Ping(Boundary::BeforeRebuildOldSpawnFailure),
            Effect::Record(LifecycleStage::RebuildOldStarted),
            Effect::Spawn(SpawnPlan {
                generation: 3,
                pending: Some(detail.clone()),
                rollback: None,
                new_config: false,
            }),
        ]
    );
    let (receipt, effects) = r.rebuild_old_finished(failed, true);
    assert_eq!(
        effects,
        vec![
            Effect::Install,
            Effect::EmitStarted(3),
            Effect::Record(LifecycleStage::RebuildOldFinished),
            rejected(&detail),
            Effect::Record(LifecycleStage::OutcomeBroadcast),
        ]
    );
    assert_eq!(receipt, rejection(&detail));
    assert_eq!(r.generation_id, 3);
    assert!(!r.stopping);
    assert!(r.applied_revision.same(&revision("old")));
}

#[test]
fn removed_display_wake_failure_rebuilds_old_gamma_generation() {
    let (removed, _, _) = sorted_out(&[("mon", GAMMA)], &[("other", "command n/a")], &[]);
    assert_eq!(removed, texts(&["mon"]));

    let mut r = runner(&[("mon", GAMMA)]);
    r.rollback_status = Some("held back".to_string());
    let (replacing, _) = torn_down(
        &mut r,
        next(&[("other", "command n/a")], &[]),
        Some(snap(&[("mon", "blanked")])),
    );
    let (left, effects) =
        replacing.wake_finished(&r, WakeResult::Failed("panel silent".to_string()));
    let failed = match left {
        Err(failed) => failed,
        Ok(_) => panic!("woken"),
    };
    let detail = "removed display 'mon' failed verified wake: panel silent".to_string();
    assert_eq!(
        effects,
        vec![
            Effect::Ping(Boundary::BeforeRebuildOldWakeFailure),
            Effect::Spawn(SpawnPlan {
                generation: 3,
                pending: Some(detail.clone()),
                rollback: Some("held back".to_string()),
                new_config: false,
            }),
        ]
    );
    let (receipt, effects) = r.rebuild_old_finished(failed, true);
    assert_eq!(
        effects,
        vec![Effect::Install, Effect::EmitStarted(3), rejected(&detail)]
    );
    assert_eq!(receipt, rejection(&detail));
    assert!(r.generation.executors.contains(&"mon".to_string()));
}

// ── reloads ──────────────────────────────────────────────────────────────

#[test]
fn an_invalid_config_touches_nothing() {
    let r = runner(&[("mon", "x")]);
    let (start, effects) = r.reload(ticket(), Err("bad".to_string()), None, 0, COMMAND_TIMEOUT);
    assert!(matches!(start, ReloadStart::Rejected(receipt) if receipt == rejection("bad")));
    assert_eq!(
        effects,
        vec![
            Effect::SetPending(Some("bad".to_string())),
            rejected("bad")
        ]
    );
    assert_eq!(r.generation_id, 3);
}

#[test]
fn a_first_shared_display_needs_a_restart() {
    let mut r = runner(&[]);
    let mut n = next(&[("tv", "x")], &[]);
    n.shared = texts(&["tv"]);
    let (start, effects) = r.reload(ticket(), Ok(n), None, 0, COMMAND_TIMEOUT);
    assert!(matches!(start, ReloadStart::Rejected(receipt) if receipt == rejection(FIRST_SHARED)));
    assert_eq!(effects.len(), 2);

    r.coordinated = true;
    let mut n = next(&[("tv", "x")], &[]);
    n.shared = texts(&["tv"]);
    let (_, effects) = begin(&r, n, None);
    assert_eq!(
        effects,
        vec![
            Effect::ReconcileShared,
            Effect::Ping(Boundary::AfterAssemble)
        ]
    );
}

#[test]
fn an_accepted_reload_runs_in_order() {
    let mut r = runner(&[("a", "x"), ("b", "y")]);
    let (replacing, effects) = torn_down(
        &mut r,
        next(&[("a", "x"), ("b", "y")], &["a"]),
        Some(snap(&[("a", "blanked"), ("b", "blanked")])),
    );
    assert_eq!(
        effects,
        vec![
            Effect::Ping(Boundary::AfterAssemble),
            Effect::Ping(Boundary::AfterQuiesce),
            Effect::EmptyExecutors,
            Effect::Ping(Boundary::BeforeTeardown),
            Effect::PauseRouters,
            Effect::Record(LifecycleStage::RoutersPaused),
            Effect::QuiesceInputs,
            Effect::Record(LifecycleStage::InputsQuiesced),
            Effect::AwaitBarrier(5 * SECOND),
            Effect::Record(LifecycleStage::BarrierAcknowledged),
            Effect::EmitDrained(3),
            Effect::Teardown,
            Effect::Record(LifecycleStage::EngineTornDown),
        ]
    );
    assert_eq!(
        r.spawn_plan(),
        SpawnPlan {
            generation: 4,
            pending: None,
            rollback: None,
            new_config: true,
        }
    );
    let (spawned, effects) = r.spawn_finished(replacing, SpawnResult::Spawned);
    assert_eq!(effects, vec![Effect::Install, Effect::EmitStarted(4)]);
    let (receipt, effects) = r.finish_reload(
        installed(spawned),
        Some(b"new bytes".to_vec()),
        7 * SECOND,
    );
    assert_eq!(
        effects,
        vec![
            Effect::WarnHazards,
            Effect::DefensiveWake("a".to_string()),
            Effect::PublishConfig,
            Effect::Ping(Boundary::ReloadEnd),
            Effect::Broadcast(ReloadOutcome::Reloaded),
        ]
    );
    assert_eq!(r.generation_id, 4);
    assert_eq!(
        receipt,
        ReloadReceipt {
            request_ids: vec![7, 8],
            sources: vec![ReloadSource::Ipc],
            requested_revision: revision("new"),
            applied_revision: revision("new"),
            generation: 4,
            outcome: ReloadOutcome::Reloaded,
            coalesced: false,
        }
    );
    assert!(r.applied_revision.same(&revision("new")));
    let candidate = r.lkg.candidate.as_ref().expect("armed");
    assert_eq!(candidate.source, "reload");
    assert_eq!(candidate.bytes, b"new bytes");
    assert_eq!(candidate.since, 7 * SECOND);
}

#[test]
fn a_display_caught_blanking_is_waited_for() {
    let mut r = runner(&[("m", "x")]);
    let (mut q, _) = begin(
        &r,
        next(&[("m", "x")], &[]),
        Some(snap(&[("m", "blanking"), ("other", "active")])),
    );
    assert_eq!(q.need, texts(&["m"]));
    assert_eq!(q.deadline, COMMAND_TIMEOUT);
    assert!(!q.done(SECOND));
    assert_eq!(q.stuck_count(), 1);
    q.observe(None);
    assert!(!q.done(SECOND));
    assert!(q.done(COMMAND_TIMEOUT));
    q.observe(Some(snap(&[("m", "blanked")])));
    assert!(q.done(SECOND));
    assert_eq!(q.stuck_count(), 0);
    let (replacing, _) = q.replace(&mut r);
    assert!(replacing.wake.is_empty());
    assert!(replacing.wake_after.is_empty());

    let (mut q, _) = begin(
        &r,
        next(&[("m", "x")], &[]),
        Some(snap(&[("m", "blanking")])),
    );
    q.observe(Some(snap(&[("elsewhere", "active")])));
    assert!(q.done(0));

    let (q, _) = begin(
        &r,
        next(&[("m", "x")], &[]),
        Some(snap(&[("m", "blanking")])),
    );
    let (replacing, _) = q.replace(&mut r);
    assert_eq!(replacing.wake_after, texts(&["m"]));

    let (q, _) = begin(
        &r,
        next(&[("m", "x")], &["m"]),
        Some(snap(&[("m", "blanking")])),
    );
    assert!(q.need.is_empty());
    assert!(q.done(0));
}

#[test]
fn a_moved_web_listener_stays_where_it_is() {
    let mut r = runner(&[]);
    let mut n = next(&[], &[]);
    n.web_port = Some(8080);
    let (q, _) = begin(&r, n, None);
    let (_, effects) = q.replace(&mut r);
    assert_eq!(effects[1], Effect::NoteWebBindIgnored);

    let mut n = next(&[], &[]);
    n.web_bind = Ip::V4(0);
    n.config.barrier_ack_timeout = 9 * SECOND;
    let (q, _) = begin(&r, n, None);
    let (_, effects) = q.replace(&mut r);
    assert!(effects.contains(&Effect::NoteWebBindIgnored));
    assert_eq!(effects.last(), Some(&Effect::AwaitBarrier(9 * SECOND)));
    assert_eq!(r.generation_barrier_ack_timeout, 9 * SECOND);
}

#[test]
fn a_failed_barrier_stops_the_daemon() {
    assert_eq!(await_generation_barrier(BarrierEvent::Acknowledged), Ok(()));
    for (event, text) in [
        (
            BarrierEvent::Closed,
            "old engine closed before accepting its generation barrier",
        ),
        (
            BarrierEvent::Dropped,
            "old engine exited before acknowledging its generation barrier",
        ),
        (
            BarrierEvent::TimedOut,
            "old engine did not acknowledge its generation barrier before timeout",
        ),
    ] {
        let mut r = runner(&[]);
        let (q, _) = begin(&r, next(&[], &[]), None);
        let (replacing, _) = q.replace(&mut r);
        let (res, effects) = r.barrier_finished(replacing, event);
        assert_eq!(res.err(), Some(rejection(text)));
        assert_eq!(effects, vec![Effect::CancelRoot, rejected(text)]);
        assert!(r.stopping);
        assert_eq!(r.generation_id, 3);
    }
}

#[test]
fn a_failed_rebuild_stops_the_daemon() {
    let mut r = runner(&[("mon", "x")]);
    let failed = failed_wake(&mut r);
    let (receipt, effects) = r.rebuild_old_finished(failed, false);
    let why = "removed display 'mon' failed verified wake: why";
    assert_eq!(effects, vec![Effect::CancelRoot, rejected(why)]);
    assert_eq!(receipt, rejection(why));
    assert!(r.stopping);
}

#[test]
fn a_rebuilt_generation_has_its_own_barrier_timeout() {
    let mut r = runner(&[("mon", "x")]);
    let failed = failed_wake(&mut r);
    r.generation_barrier_ack_timeout = 99;
    r.rebuild_old_finished(failed, true);
    assert_eq!(r.generation_barrier_ack_timeout, 5 * SECOND);
}

#[test]
fn generation_numbers_stop_at_the_last() {
    let mut r = runner(&[]);
    r.generation_id = u64::MAX;
    assert_eq!(r.spawn_plan().generation, u64::MAX);
}

#[test]
fn displays_without_an_old_executor_are_passed_over() {
    let mut r = runner(&[]);
    let (replacing, _) = torn_down(
        &mut r,
        next(&[], &[]),
        Some(snap(&[("a", "blanked"), ("b", "waking")])),
    );
    assert_eq!(replacing.next_wake().map(String::as_str), Some("a"));
    let (replacing, effects) = woken(replacing, &r, WakeResult::NoExecutor);
    assert!(effects.is_empty());
    assert_eq!(replacing.next_wake().map(String::as_str), Some("b"));
}

#[test]
fn a_rollback_is_over_after_a_reload() {
    let mut r = runner(&[]);
    r.rollback_active = true;
    r.rollback_status = Some("held back".to_string());
    let (replacing, _) = torn_down(&mut r, next(&[], &[]), None);
    let (_, effects) = r.spawn_finished(replacing, SpawnResult::Spawned);
    assert_eq!(
        effects,
        vec![
            Effect::Install,
            Effect::EmitStarted(4),
            Effect::SetPending(None),
            Effect::ClearRollbackState,
        ]
    );
    assert!(r.rollback_active);
    assert!(r.rollback_recovered(false));
    assert!(!r.rollback_active);
    assert_eq!(r.rollback_status, None);
    assert!(r.retry_rollback_state_clear());
    assert!(!r.retry_finished(false));
    assert!(r.retry_rollback_state_clear());
    assert!(!r.retry_finished(true));
    assert!(!r.retry_rollback_state_clear());
    assert!(r.retry_finished(false));
}

#[test]
fn stages_are_recorded_where_reloads_are_observed() {
    let mut r = runner(&[]);
    r.reload_lifecycle_capture = Some(ReloadLifecycleCapture::new());
    r.record_reload_lifecycle_stage(LifecycleStage::RoutersPaused);
    assert!(r.wants_snapshot());
    r.force_reload_snapshot_timeout = true;
    assert!(!r.wants_snapshot());
    for stage in [
        LifecycleStage::SnapshotBypassed,
        LifecycleStage::RoutersPaused,
        LifecycleStage::InputsQuiesced,
        LifecycleStage::BarrierAcknowledged,
        LifecycleStage::EngineTornDown,
        LifecycleStage::RebuildOldStarted,
        LifecycleStage::RebuildOldFinished,
        LifecycleStage::OutcomeBroadcast,
    ] {
        r.record_reload_lifecycle_stage(stage);
    }
    assert_eq!(
        r.reload_lifecycle_capture.unwrap().stages(),
        [
            "snapshot_bypassed",
            "routers_paused",
            "inputs_quiesced",
            "barrier_acknowledged",
            "engine_torn_down",
            "rebuild_old_started",
            "rebuild_old_finished",
            "outcome_broadcast",
        ]
    );
    assert!(ReloadLifecycleCapture::default().stages().is_empty());
}

#[test]
fn the_seven_pings_have_names() {
    let names: Vec<&str> = [
        Boundary::AfterAssemble,
        Boundary::AfterQuiesce,
        Boundary::BeforeTeardown,
        Boundary::RemovedDisplayWake,
        Boundary::BeforeRebuildOldWakeFailure,
        Boundary::BeforeRebuildOldSpawnFailure,
        Boundary::ReloadEnd,
    ]
    .iter()
    .map(|b| b.as_str())
    .collect();
    assert_eq!(
        names,
        [
            "after_assemble",
            "after_quiesce",
            "before_teardown",
            "removed_display_wake",
            "before_rebuild_old_wake_failure",
            "before_rebuild_old_spawn_failure",
            "reload_end",
        ]
    );
}

#[test]
fn requests_are_answered_together() {
    let request = |request_id: u64, source: ReloadSource, waiter: Option<u64>| ReloadRequest {
        request_id,
        source,
        waiter,
    };
    let mut batch = ReloadBatch::new(request(1, ReloadSource::Watcher, None));
    batch.push(request(2, ReloadSource::Ipc, Some(20)));
    batch.push(request(3, ReloadSource::Watcher, Some(30)));
    assert_eq!(batch.request_ids, [1, 2, 3]);
    assert_eq!(batch.sources, [ReloadSource::Watcher, ReloadSource::Ipc]);
    assert_eq!(batch.waiters, [20, 30]);

    let r = runner(&[]);
    match r.execute_reload_batch(batch, revision("new")) {
        BatchStart::Reload { ticket, waiters } => {
            assert_eq!(ticket.request_ids, [1, 2, 3]);
            assert_eq!(ticket.sources, [ReloadSource::Watcher, ReloadSource::Ipc]);
            assert_eq!(ticket.requested, revision("new"));
            assert_eq!(waiters, [20, 30]);
        }
        BatchStart::Applied { .. } => panic!("it does not run yet"),
    }
}

#[test]
fn a_batch_whose_revision_runs_already_is_answered_at_once() {
    let batch = ReloadBatch::new(ReloadRequest {
        request_id: 4,
        source: ReloadSource::Control,
        waiter: Some(40),
    });
    let r = runner(&[]);
    match r.execute_reload_batch(batch, revision("old")) {
        BatchStart::Applied {
            receipt,
            effects,
            waiters,
        } => {
            assert_eq!(
                receipt,
                ReloadReceipt {
                    request_ids: vec![4],
                    sources: vec![ReloadSource::Control],
                    requested_revision: revision("old"),
                    applied_revision: revision("old"),
                    generation: 3,
                    outcome: ReloadOutcome::Reloaded,
                    coalesced: true,
                }
            );
            assert_eq!(effects, vec![Effect::Broadcast(ReloadOutcome::Reloaded)]);
            assert_eq!(waiters, [40]);
        }
        BatchStart::Reload { .. } => panic!("it runs already"),
    }
}

#[test]
fn requests_are_gathered_for_the_window_of_the_running_config() {
    let mut r = runner(&[]);
    assert_eq!(r.gather_window(), None);
    r.generation.reload_debounce = 3 * SECOND;
    assert_eq!(r.gather_window(), Some(3 * SECOND));
}

// ── the watchdog and the candidate ───────────────────────────────────────

fn candidate(bytes: &[u8], since: u128) -> LkgCandidate {
    LkgCandidate {
        bytes: bytes.to_vec(),
        since,
        source: "boot",
        dirty_logged: false,
        health_deferred_logged: false,
        save_failed_logged: false,
    }
}

#[test]
fn failed_probe_resets_candidate_since() {
    let now = 1_000 * SECOND;
    let mut armed = Some(candidate(&[1, 2, 3], now - 600 * SECOND));
    reset_candidate_on_probe_failure(&mut armed, now);
    assert_eq!(armed.unwrap().since, now, "since must be reset to `now`");
}

#[test]
fn failed_probe_reset_is_noop_on_no_candidate() {
    let mut armed: Option<LkgCandidate> = None;
    reset_candidate_on_probe_failure(&mut armed, SECOND);
    assert!(armed.is_none());
}

#[test]
fn new_lkg_candidate_disabled_is_none() {
    assert!(new_lkg_candidate(Some(b"config_version = 1\n".to_vec()), false, "boot", 0).is_none());
    assert!(new_lkg_candidate(None, true, "boot", 0).is_none());
}

#[test]
fn new_lkg_candidate_enabled_captures_bytes() {
    let armed = new_lkg_candidate(
        Some(b"config_version = 1\nx = 1\n".to_vec()),
        true,
        "reload",
        9,
    )
    .expect("candidate armed");
    assert_eq!(armed.bytes, b"config_version = 1\nx = 1\n");
    assert_eq!(armed.source, "reload");
    assert_eq!(armed.since, 9);
}

#[test]
fn an_observer_sees_the_candidate() {
    let armed = candidate(b"abc", 0);
    let seen = LkgCandidateObserved::from_candidate(Some(&armed));
    assert!(seen.armed);
    assert_eq!(seen.source, Some("boot"));
    assert_eq!(seen.bytes.as_deref(), Some(&b"abc"[..]));
    assert_eq!(
        LkgCandidateObserved::from_candidate(None),
        LkgCandidateObserved::default()
    );
}

#[test]
fn ping_if_healthy_sends_nothing_on_failed_probe() {
    assert!(!ping_if_healthy(&None));
}

#[test]
fn ping_if_healthy_sends_watchdog_on_healthy_probe() {
    assert!(ping_if_healthy(&Some(snap(&[]))));
}

#[test]
fn a_healthy_run_is_saved() {
    let mut r = runner(&[]);
    r.lkg.candidate = Some(candidate(b"abc", 0));
    let fresh = || Some(b"abc".to_vec());
    let step = r.watchdog_tick_at(true, Some(snap(&[])), 29 * SECOND, fresh());
    assert_eq!(step, WatchdogStep::Ping(LkgStep::Idle));
    let step = r.watchdog_tick_at(true, Some(snap(&[])), 30 * SECOND, fresh());
    assert_eq!(
        step,
        WatchdogStep::Ping(LkgStep::Save {
            source: "boot",
            bytes: b"abc".to_vec(),
            despite_health: false
        })
    );
    assert!(r.lkg.save_finished(false));
    assert!(!r.lkg.save_finished(false));
    assert!(r.lkg.candidate.is_some());
    assert!(!r.lkg.save_finished(true));
    assert!(r.lkg.candidate.is_none());
    let step = r.watchdog_tick_at(true, Some(snap(&[])), 90 * SECOND, fresh());
    assert_eq!(step, WatchdogStep::Ping(LkgStep::Idle));
}

#[test]
fn an_edited_file_is_not_saved() {
    let mut r = runner(&[]);
    r.lkg.candidate = Some(candidate(b"abc", 0));
    for warn in [true, false] {
        let step = r.watchdog_tick_at(true, Some(snap(&[])), 60 * SECOND, Some(b"abd".to_vec()));
        assert_eq!(step, WatchdogStep::Ping(LkgStep::Dirty { warn }));
    }
    let step = r.watchdog_tick_at(true, Some(snap(&[])), 60 * SECOND, None);
    assert_eq!(step, WatchdogStep::Ping(LkgStep::Dirty { warn: false }));
}

#[test]
fn failing_displays_put_a_save_off_three_times() {
    let mut r = runner(&[]);
    r.lkg.candidate = Some(candidate(b"abc", 0));
    let failing = || {
        let mut s = snap(&[("m", "active")]);
        s.displays[0].1.controllers = vec![ControllerHealth {
            name: "command".to_string(),
            healthy: false,
        }];
        Some(s)
    };
    for warn in [true, false, false] {
        let step = r.watchdog_tick_at(true, failing(), 60 * SECOND, Some(b"abc".to_vec()));
        assert_eq!(step, WatchdogStep::Ping(LkgStep::Deferred { warn }));
    }
    let step = r.watchdog_tick_at(true, failing(), 60 * SECOND, Some(b"abc".to_vec()));
    assert!(matches!(
        step,
        WatchdogStep::Ping(LkgStep::Save {
            despite_health: true,
            ..
        })
    ));
}

#[test]
fn a_healthy_tick_ends_the_row_of_deferrals() {
    let mut r = runner(&[]);
    r.lkg.candidate = Some(candidate(b"abc", 0));
    r.lkg.defer_count = 2;
    let step = r.watchdog_tick_at(true, Some(snap(&[])), 60 * SECOND, Some(b"abd".to_vec()));
    assert_eq!(step, WatchdogStep::Ping(LkgStep::Dirty { warn: true }));
    assert_eq!(r.lkg.defer_count, 0);
    let kept = r.lkg.candidate.as_ref().expect("candidate");
    assert_eq!(kept.bytes, b"abc");
    assert_eq!(kept.since, 0);
    r.lkg.defer_count = 2;
    r.watchdog_tick_at(true, Some(snap(&[])), 60 * SECOND, Some(b"abc".to_vec()));
    r.lkg.save_finished(false);
    assert_eq!(r.lkg.defer_count, 0, "the save failed, the displays did not");
    r.lkg.defer_count = 2;
    r.watchdog_tick_at(true, Some(snap(&[])), 29 * SECOND, Some(b"abc".to_vec()));
    assert_eq!(r.lkg.defer_count, 2, "the window is not through");
}

#[test]
fn a_silent_engine_starves_the_watchdog() {
    let mut r = runner(&[]);
    r.lkg.candidate = Some(candidate(b"abc", 0));
    for warn in [true, false] {
        let step = r.watchdog_tick_at(true, None, 29 * SECOND, None);
        assert_eq!(step, WatchdogStep::Withhold { warn });
    }
    assert_eq!(r.lkg.candidate.as_ref().unwrap().since, 29 * SECOND);
    let step = r.watchdog_tick_at(true, Some(snap(&[])), 58 * SECOND, Some(b"abc".to_vec()));
    assert_eq!(step, WatchdogStep::Ping(LkgStep::Idle));
    assert!(!r.probe_failed_warned);
    let step = r.watchdog_tick_at(false, None, 58 * SECOND, None);
    assert_eq!(step, WatchdogStep::RouteMissing);
}

#[test]
fn the_saved_copy_says_where_it_came_from() {
    let meta = write_lkg("reload", &b"abc".to_vec(), 42);
    assert_eq!(meta.schema_version, 1);
    assert_eq!(meta.saved_at_epoch_s, 42);
    assert_eq!(meta.source, "reload");
    assert_eq!(
        meta.fingerprint,
        dormantd::boot_guard::fingerprint_bytes(b"abc")
    );
}

// ── routes ───────────────────────────────────────────────────────────────

#[test]
fn control_queued_while_paused_releases_once_to_new_generation() {
    let mut router: GenerationRouter<&str, &str> = GenerationRouter::new("old");
    router.pause();
    assert_eq!(router.current(), None);
    assert!(matches!(router.route("wake manual-only"), Routed::Queued));
    router.install("new");
    assert_eq!(router.release_next(), Some("wake manual-only"));
    assert_eq!(router.release_next(), None);
    router.resume();
    assert_eq!(router.current(), Some(&"new"));
    assert!(matches!(router.route("next"), Routed::Send("next")));
}

#[test]
fn event_queued_while_paused_releases_once_to_new_generation() {
    let mut router: GenerationRouter<u8, (&str, bool)> = GenerationRouter::new(0);
    router.pause();
    for event in [("test-sensor", true), ("b", false), ("a", false)] {
        assert!(matches!(router.route(event), Routed::Queued));
    }
    router.install(1);
    assert_eq!(router.release_next(), Some(("test-sensor", true)));
    assert_eq!(router.release_next(), Some(("b", false)));
    assert_eq!(router.release_next(), Some(("a", false)));
    assert_eq!(router.release_next(), None);
}

#[test]
fn without_a_target_a_message_is_dropped() {
    let mut router: GenerationRouter<u8, u8> = GenerationRouter::new(0);
    assert!(matches!(router.route(5), Routed::Send(5)));
    router.pause();
    router.resume();
    assert!(matches!(router.route(5), Routed::Dropped));
}

// ── the files ────────────────────────────────────────────────────────────

fn loaded(
    config: ConfigRead<u8>,
    creds: CredentialsRead<u8>,
) -> (RuntimeRevision, Result<(u8, u8), String>) {
    load_runtime_from_paths(config, "c.toml", creds, "k.toml", 0, "empty".to_string())
}

fn digest(s: &str) -> ContentRevision {
    ContentRevision {
        digest: Some(s.to_string()),
    }
}

#[test]
fn a_runtime_is_loaded_from_two_files() {
    let config = || ConfigRead::Read {
        revision: digest("c1"),
        parsed: Ok(1),
    };
    let (rev, got) = loaded(config(), CredentialsRead::Absent);
    assert_eq!(got, Ok((1, 0)));
    assert_eq!(rev.credentials, ContentRevision::missing());
    assert_eq!(rev.config, digest("c1"));

    let (rev, got) = loaded(
        config(),
        CredentialsRead::Read {
            revision: digest("k1"),
            parsed: Ok(2),
        },
    );
    assert_eq!(got, Ok((1, 2)));
    assert_eq!(rev.credentials, digest("k1"));

    let (rev, got) = loaded(config(), CredentialsRead::StatFailed("gone".to_string()));
    assert_eq!(got, Err("stat credentials 'k.toml': gone".to_string()));
    assert_eq!(rev.credentials, digest("empty"));

    let (_, got) = loaded(config(), CredentialsRead::Exposed);
    assert_eq!(
        got,
        Err("credentials permissions are not 0600: 'k.toml'".to_string())
    );

    let (_, got) = loaded(config(), CredentialsRead::Failed("denied".to_string()));
    assert_eq!(got, Err("read credentials 'k.toml': denied".to_string()));

    let (rev, got) = loaded(
        ConfigRead::Failed("missing".to_string()),
        CredentialsRead::Exposed,
    );
    assert_eq!(got, Err("load config 'c.toml': missing".to_string()));
    assert_eq!(rev.config, digest("empty"));
    assert_eq!(rev.credentials, ContentRevision::missing());

    let (_, got) = loaded(
        ConfigRead::Read {
            revision: digest("c1"),
            parsed: Err("bad config".to_string()),
        },
        CredentialsRead::Read {
            revision: digest("k1"),
            parsed: Err("bad creds".to_string()),
        },
    );
    assert_eq!(got, Err("bad config".to_string()));
}

#[test]
fn credentials_must_be_private() {
    assert!(credentials_mode_ok(0o100600));
    assert!(!credentials_mode_ok(0o100644));
    assert!(!credentials_mode_ok(0o100400));
    assert!(!credentials_mode_ok(0o100640));
    assert!(credentials_mode_ok(0o104600));
}

#[test]
fn a_daemon_starts_from_readable_files() {
    let ok = runtime_revision_from_paths(Ok(digest("c")), "c.toml", None, "k.toml").unwrap();
    assert_eq!(ok.credentials, ContentRevision::missing());
    let both =
        runtime_revision_from_paths(Ok(digest("c")), "c.toml", Some(Ok(digest("k"))), "k.toml")
            .unwrap();
    assert_eq!(both.credentials, digest("k"));
    assert_eq!(
        runtime_revision_from_paths(Err("io".to_string()), "c.toml", None, "k.toml"),
        Err("read config 'c.toml': io".to_string())
    );
    assert_eq!(
        runtime_revision_from_paths(
            Ok(digest("c")),
            "c.toml",
            Some(Err("io".to_string())),
            "k.toml"
        ),
        Err("read credentials 'k.toml': io".to_string())
    );
}

// ── validation and start ─────────────────────────────────────────────────

fn warning(key: &str, message: &str) -> Warning {
    Warning {
        key_path: key.to_string(),
        message: message.to_string(),
    }
}

#[test]
fn a_report_is_printed_line_by_line() {
    let report = ValidationReport {
        warnings: vec![warning("daemon.x", "unknown key")],
        errors: texts(&["first", "second"]),
        load_error: None,
    };
    let mut out = String::from("> ");
    report.render(&mut out);
    assert_eq!(out, "> warning [daemon.x]: unknown key\nfirst\nsecond\n");
    assert!(!report.is_ok());
    assert_eq!(report.exit_code(), 1);
    assert_eq!(
        validate_or_bail(&report),
        Err("startup validation failed:\n  first\n  second".to_string())
    );

    let fine = ValidationReport::default();
    let mut out = String::new();
    fine.render(&mut out);
    assert_eq!(out, "configuration OK\n");
    assert_eq!(fine.exit_code(), 0);
    assert_eq!(validate_or_bail(&fine), Ok(()));
}

#[test]
fn a_validation_stops_at_the_first_unreadable_file() {
    let report = validate_only(Err("no config".to_string()), Ok(()), texts(&["x"]));
    assert_eq!(report.load_error.as_deref(), Some("no config"));
    assert!(report.errors.is_empty());
    let mut out = String::new();
    report.render(&mut out);
    assert_eq!(out, "no config\n");
    assert_eq!(validate_or_bail(&report), Err("no config".to_string()));

    let report = validate_only(
        Ok(vec![warning("k", "m")]),
        Err("no creds".to_string()),
        texts(&["x"]),
    );
    assert_eq!(report.warnings.len(), 1);
    assert_eq!(report.load_error.as_deref(), Some("no creds"));
    assert!(report.errors.is_empty());

    let report = validate_only(Ok(vec![]), Ok(()), texts(&["x"]));
    assert_eq!(report.errors, texts(&["x"]));
    assert_eq!(report.load_error, None);
}

#[test]
fn errors_of_a_reload_stand_on_one_line() {
    assert_eq!(assemble_loaded(&vec![]), Ok(()));
    assert_eq!(assemble_loaded(&texts(&["a"])), Err("a".to_string()));
    assert_eq!(
        assemble_loaded(&texts(&["a", "b", "c"])),
        Err("a; b; c".to_string())
    );
}

fn app() -> App {
    App::build(
        "/etc/dormant/config.toml".to_string(),
        "/etc/dormant/credentials.toml".to_string(),
        "/var/lib/dormant".to_string(),
        &ValidationReport::default(),
    )
    .unwrap_or_else(|e| panic!("{e}"))
}

fn start_facts() -> StartFacts {
    StartFacts {
        shared: false,
        generation: generation(&[]),
        applied_revision: revision("c"),
        web_port: None,
        web_bind: Ip::V4(0x7f00_0001),
        web_allow_nonloopback: false,
        operator_bytes: Some(b"operator".to_vec()),
        env_watchdog: None,
        now: 5,
    }
}

#[test]
fn a_plain_start_arms_a_candidate() {
    assert_eq!(app().config_path(), "/etc/dormant/config.toml");
    let plan = app().start(start_facts());
    assert_eq!(plan.wear_dir, "/var/lib/dormant/wear");
    assert_eq!(plan.watched, "/etc/dormant/config.toml");
    assert_eq!(
        plan.steps,
        vec![
            StartStep::TrackWear,
            StartStep::WarnHazards,
            StartStep::WatchConfig,
            StartStep::ListenIpc,
            StartStep::Ready,
            StartStep::Run,
        ]
    );
    assert_eq!(plan.watchdog_interval, 30 * SECOND);
    assert_eq!(plan.runner.generation_id, 0);
    assert!(!plan.runner.coordinated);
    assert_eq!(
        plan.runner.lkg.candidate,
        Some(LkgCandidate {
            source: "boot",
            ..candidate(b"operator", 5)
        })
    );
}

#[test]
fn a_start_out_of_a_rollback_arms_none() {
    let app = app().with_boot_source(
        "/home/me/config.toml".to_string(),
        Some("held back".to_string()),
        "/state".to_string(),
    );
    assert!(app.rollback_active);
    let plan = app.start(start_facts());
    assert_eq!(plan.runner.lkg.candidate, None);
    assert!(plan.runner.rollback_active);
    assert_eq!(plan.runner.rollback_status.as_deref(), Some("held back"));
    assert_eq!(plan.watched, "/home/me/config.toml");
    assert_eq!(plan.wear_dir, "/state/wear");
}

#[test]
fn a_start_does_as_it_was_told() {
    let mut facts = start_facts();
    facts.web_port = Some(8080);
    facts.web_allow_nonloopback = true;
    facts.shared = true;
    facts.env_watchdog = Some(4 * SECOND);
    let plan = app().disable_ipc().start(facts);
    assert_eq!(
        plan.steps,
        vec![
            StartStep::TrackWear,
            StartStep::WarnNonloopback,
            StartStep::WarnHazards,
            StartStep::WatchConfig,
            StartStep::ServeWeb(SockAddr::new(Ip::V4(0x7f00_0001), 8080)),
            StartStep::Ready,
            StartStep::Run,
        ]
    );
    assert!(plan.runner.coordinated);
    assert_eq!(plan.watchdog_interval, 4 * SECOND);
    let plan = app()
        .with_watchdog_interval(SECOND)
        .with_state_dir("/s".to_string())
        .with_test_force_reload_snapshot_timeout()
        .with_test_reload_lifecycle_capture(ReloadLifecycleCapture::new())
        .start(start_facts());
    assert_eq!(plan.watchdog_interval, SECOND);
    assert_eq!(plan.wear_dir, "/s/wear");
    assert!(plan.runner.force_reload_snapshot_timeout);
    assert!(plan.runner.reload_lifecycle_capture.is_some());
    let flagged = app()
        .with_test_force_reload_spawn_failure()
        .with_test_force_rebuild_old_spawn_failure()
        .with_test_force_generation_barrier_timeout()
        .with_test_rollback_status("r".to_string(), "/d".to_string());
    assert!(flagged.force_reload_spawn_failure);
    assert!(flagged.force_rebuild_old_spawn_failure);
    assert!(flagged.force_generation_barrier_timeout);
    assert!(flagged.rollback_active);
}

#[test]
fn a_bad_config_builds_no_daemon() {
    let report = ValidationReport {
        warnings: vec![],
        errors: texts(&["x"]),
        load_error: None,
    };
    let res = App::build(
        "c".to_string(),
        "k".to_string(),
        "s".to_string(),
        &report,
    );
    assert!(matches!(res, Err(e) if e == "startup validation failed:\n  x"));
}

#[test]
fn the_main_loop_reacts() {
    assert_eq!(
        run_loop(LoopEvent::Cancelled),
        LoopAction::Stop { cancel: false }
    );
    assert_eq!(
        run_loop(LoopEvent::Terminate),
        LoopAction::Stop { cancel: true }
    );
    assert_eq!(
        run_loop(LoopEvent::Interrupt),
        LoopAction::Stop { cancel: true }
    );
    assert_eq!(
        run_loop(LoopEvent::Hangup),
        LoopAction::Notify(ReloadSource::Signal)
    );
    assert_eq!(
        run_loop(LoopEvent::ConfigChanged),
        LoopAction::Notify(ReloadSource::Watcher)
    );
    assert_eq!(run_loop(LoopEvent::ReloadRequested), LoopAction::RunBatch);
    assert_eq!(run_loop(LoopEvent::WatchdogDue), LoopAction::Tick);
}

#[test]
fn spawned_rollbacks_are_captured_by_directory() {
    let mut captures = ReloadSpawnCaptures::default();
    let status = "held back".to_string();
    record_reload_spawn_rollback_for_test(&mut captures, "/a", Some(&status));
    begin_reload_spawn_rollback_capture_for_test(&mut captures, "/a");
    begin_reload_spawn_rollback_capture_for_test(&mut captures, "/b");
    record_reload_spawn_rollback_for_test(&mut captures, "/a", Some(&status));
    record_reload_spawn_rollback_for_test(&mut captures, "/a", None);
    record_reload_spawn_rollback_for_test(&mut captures, "/b", None);
    assert_eq!(
        take_reload_spawn_rollback_capture_for_test(&mut captures, "/a"),
        vec![Some(status), None]
    );
    assert_eq!(
        take_reload_spawn_rollback_capture_for_test(&mut captures, "/b"),
        vec![None]
    );
    assert!(!captures.by_dir.contains_key("/a"));
}
