//! The boot guard: verdicts, preparation of a boot, promotion.

use std::collections::HashSet;

use dormantd::boot_guard::{
    cap_starts, clear_rollback_after_reload, collect_and_sweep_discounts, decide,
    discount_file_name, fingerprint_bytes, fingerprint_file, fingerprint_from_fields,
    fingerprint_from_text, fingerprint_key, join_path, load_crash_loop_state, lkg_path,
    persist_fingerprint, prepare, record_start, same_fingerprint_window_stats, should_promote,
    Action, BootFacts, BootPlan, CrashLoopState, DeferredEvent, DirEntry, Fingerprint,
    FingerprintError, FingerprintFields, FingerprintKey, LkgInfo, PersistedFingerprint,
    PromoteVerdict, StartEntry, CRASH_LOOP_THRESHOLD, CRASH_LOOP_WINDOW, LKG_FILE,
    LKG_HEALTH_DEFER_CAP, MAX_STARTS, RETRY_MESSAGE, STICKY_MESSAGE,
};
use dormantd::snapshot::{ControllerHealth, DisplaySnapshot, StateSnapshot};
use serde_json::Value;

const SECOND: u128 = 1_000_000_000;
const START: u128 = 5_000 * SECOND;
const WINDOW: u128 = 30 * SECOND;

fn entry(epoch_s: u64, fp: Fingerprint, nonce: u64) -> StartEntry {
    StartEntry {
        epoch_s,
        fingerprint: fp,
        nonce,
    }
}

fn state_with(starts: Vec<StartEntry>) -> CrashLoopState {
    CrashLoopState {
        schema_version: 1,
        starts,
        rollback_active: false,
        rolled_back_from: None,
    }
}

fn lkg(exists: bool, validates: bool, bytes_equal_current: bool) -> LkgInfo {
    LkgInfo {
        exists,
        validates,
        bytes_equal_current,
    }
}

fn facts(config: &[u8], lkg: Option<&[u8]>, now: u64, nonce: u64) -> BootFacts {
    BootFacts {
        config_path: "/etc/dormant/config.toml".to_string(),
        state_dir: "/var/lib/dormant".to_string(),
        config: Some(config.to_vec()),
        lkg_exists: lkg.is_some(),
        lkg_validates: lkg.is_some(),
        lkg: lkg.map(|b| b.to_vec()),
        now_epoch_s: now,
        nonce,
        lkg_rollback_enabled: true,
    }
}

fn healthy_ctl(name: &str) -> ControllerHealth {
    ControllerHealth {
        name: name.to_string(),
        healthy: true,
    }
}

fn unhealthy_ctl(name: &str) -> ControllerHealth {
    ControllerHealth {
        name: name.to_string(),
        healthy: false,
    }
}

fn display(phase: &str, controllers: Vec<ControllerHealth>) -> DisplaySnapshot {
    DisplaySnapshot {
        phase: phase.to_string(),
        cmd_gen: 0,
        controllers,
        wake_attempts: 0,
        last_blank_failed: false,
    }
}

fn snap(displays: Vec<(&str, DisplaySnapshot)>) -> StateSnapshot {
    StateSnapshot {
        sensors: Vec::new(),
        displays: displays
            .into_iter()
            .map(|(id, d)| (id.to_string(), d))
            .collect(),
    }
}

fn all_healthy_snap() -> StateSnapshot {
    snap(vec![(
        "mon",
        display("active", vec![healthy_ctl("command")]),
    )])
}

#[test]
fn two_starts_proceed_three_rolls_back() {
    let fp_a = fingerprint_bytes(b"config-a");
    let now = 1_000_000u64;
    let empty = HashSet::new();

    let two = state_with(vec![entry(now - 120, fp_a, 1), entry(now, fp_a, 2)]);
    let v = decide(&two, &empty, &lkg(true, true, false), fp_a, now, true);
    assert_eq!(v.action, Action::Proceed, "2 starts must not roll back");

    let three = state_with(vec![
        entry(now - 240, fp_a, 1),
        entry(now - 120, fp_a, 2),
        entry(now, fp_a, 3),
    ]);
    let v = decide(&three, &empty, &lkg(true, true, false), fp_a, now, true);
    assert_eq!(
        v.action,
        Action::RollBack,
        "3 starts in-window must roll back"
    );
    assert!(!v.clear_rollback_active, "RollBack forces clear=false");

    let edge = state_with(vec![
        entry(now - 361, fp_a, 1),
        entry(now - 120, fp_a, 2),
        entry(now, fp_a, 3),
    ]);
    let v = decide(&edge, &empty, &lkg(true, true, false), fp_a, now, true);
    assert_eq!(
        v.action,
        Action::Proceed,
        "the 6m+1s-old start must fall outside the window"
    );
}

#[test]
fn window_boundary_is_inclusive() {
    let fp_a = fingerprint_bytes(b"config-a");
    let now = 1_000_000u64;
    let empty = HashSet::new();
    let window_s = CRASH_LOOP_WINDOW;

    let boundary = state_with(vec![
        entry(now - window_s, fp_a, 1),
        entry(now - 120, fp_a, 2),
        entry(now, fp_a, 3),
    ]);
    let v = decide(&boundary, &empty, &lkg(true, true, false), fp_a, now, true);
    assert_eq!(
        v.action,
        Action::RollBack,
        "a start exactly CRASH_LOOP_WINDOW old must still count (inclusive boundary)"
    );
}

#[test]
fn mixed_fingerprints_proceed() {
    let fp_a = fingerprint_bytes(b"config-a");
    let fp_b = fingerprint_bytes(b"config-b");
    let now = 1_000_000u64;
    let empty = HashSet::new();

    let mixed = state_with(vec![
        entry(now - 240, fp_a, 1),
        entry(now - 120, fp_b, 2),
        entry(now, fp_a, 3),
    ]);
    let v = decide(&mixed, &empty, &lkg(true, true, false), fp_a, now, true);
    assert_eq!(
        v.action,
        Action::Proceed,
        "condition (b) fails: not all same fp"
    );
}

#[test]
fn bytes_equal_lkg_proceeds_with_crash_loop_detected() {
    let fp_a = fingerprint_bytes(b"config-a");
    let now = 1_000_000u64;
    let empty = HashSet::new();

    let three = state_with(vec![
        entry(now - 240, fp_a, 1),
        entry(now - 120, fp_a, 2),
        entry(now, fp_a, 3),
    ]);
    let v = decide(&three, &empty, &lkg(true, true, true), fp_a, now, true);
    assert_eq!(v.action, Action::Proceed);

    let (total, matching) = same_fingerprint_window_stats(&three, &empty, fp_a, now);
    assert_eq!(total, 3);
    assert_eq!(matching, 3);
    assert!(total >= CRASH_LOOP_THRESHOLD && total == matching);
}

#[test]
fn boot_plan_field_list_is_minimal() {
    let _plan = BootPlan {
        chosen_config: "/tmp/config.toml".to_string(),
        operator_config: "/tmp/config.toml".to_string(),
        nonce: 0,
        deferred_events: Vec::new(),
        pending_message: None,
    };
}

#[test]
fn no_lkg_proceeds() {
    let fp_a = fingerprint_bytes(b"config-a");
    let now = 1_000_000u64;
    let empty = HashSet::new();

    let three = state_with(vec![
        entry(now - 240, fp_a, 1),
        entry(now - 120, fp_a, 2),
        entry(now, fp_a, 3),
    ]);
    let v = decide(&three, &empty, &lkg(false, false, false), fp_a, now, true);
    assert_eq!(v.action, Action::Proceed, "no LKG must never roll back");
}

#[test]
fn discounted_starts_ignored() {
    let fp_a = fingerprint_bytes(b"config-a");
    let now = 1_000_000u64;
    let mut discounts = HashSet::new();
    discounts.insert(1u64);
    discounts.insert(2u64);

    let three = state_with(vec![
        entry(now - 240, fp_a, 1),
        entry(now - 120, fp_a, 2),
        entry(now, fp_a, 3),
    ]);
    let v = decide(&three, &discounts, &lkg(true, true, false), fp_a, now, true);
    assert_eq!(
        v.action,
        Action::Proceed,
        "discounted starts must not count"
    );
}

#[test]
fn sticky_continue_rollback() {
    let fp_a = fingerprint_bytes(b"config-a");
    let now = 1_000_000u64;
    let empty = HashSet::new();

    let mut state = state_with(vec![entry(now - 30, fp_a, 1), entry(now, fp_a, 2)]);
    state.rollback_active = true;
    state.rolled_back_from = Some(fp_a);

    let v = decide(&state, &empty, &lkg(true, true, true), fp_a, now, true);
    assert_eq!(v.action, Action::ContinueRollback);
    assert!(!v.clear_rollback_active);
    assert!(!v.retry_after_quiet);
    assert!(!v.lkg_missing_disarmed);
}

#[test]
fn bytes_changed_clears_and_proceeds() {
    let fp_a = fingerprint_bytes(b"config-a");
    let fp_b = fingerprint_bytes(b"config-b");
    let now = 1_000_000u64;
    let empty = HashSet::new();

    let mut state = state_with(vec![entry(now - 30, fp_a, 1), entry(now, fp_b, 2)]);
    state.rollback_active = true;
    state.rolled_back_from = Some(fp_a);

    let v = decide(&state, &empty, &lkg(true, true, false), fp_b, now, true);
    assert_eq!(v.action, Action::Proceed);
    assert!(
        v.clear_rollback_active,
        "bytes-changed must clear rollback_active"
    );
    assert!(!v.retry_after_quiet);
}

#[test]
fn quiet_period_clears_and_retries_loudly() {
    let fp_a = fingerprint_bytes(b"config-a");
    let now = 1_000_000u64;
    let empty = HashSet::new();

    let mut state = state_with(vec![entry(now - 400, fp_a, 1), entry(now, fp_a, 2)]);
    state.rollback_active = true;
    state.rolled_back_from = Some(fp_a);

    let v = decide(&state, &empty, &lkg(true, true, true), fp_a, now, true);
    assert_eq!(
        v.action,
        Action::Proceed,
        "quiet-retry must win over sticky ContinueRollback"
    );
    assert!(v.clear_rollback_active);
    assert!(v.retry_after_quiet);
    assert!(!v.lkg_missing_disarmed);
}

#[test]
fn lkg_missing_mid_storm_disarms_loudly() {
    let fp_a = fingerprint_bytes(b"config-a");
    let now = 1_000_000u64;
    let empty = HashSet::new();

    let mut state = state_with(vec![entry(now - 30, fp_a, 1), entry(now, fp_a, 2)]);
    state.rollback_active = true;
    state.rolled_back_from = Some(fp_a);

    let v = decide(&state, &empty, &lkg(false, false, false), fp_a, now, true);
    assert_eq!(v.action, Action::Proceed);
    assert!(v.clear_rollback_active);
    assert!(v.lkg_missing_disarmed);
    assert!(!v.retry_after_quiet);
}

#[test]
fn counted_rollback_gate_false_proceeds() {
    let fp_a = fingerprint_bytes(b"config-a");
    let now = 1_000_000u64;
    let empty = HashSet::new();

    let three = state_with(vec![
        entry(now - 240, fp_a, 1),
        entry(now - 120, fp_a, 2),
        entry(now, fp_a, 3),
    ]);
    let v = decide(&three, &empty, &lkg(true, true, false), fp_a, now, false);
    assert_eq!(
        v.action,
        Action::Proceed,
        "gate=false must suppress counted RollBack"
    );
}

#[test]
fn unreadable_sentinel_matrix() {
    let now = 1_000_000u64;
    let empty = HashSet::new();

    let three = state_with(vec![
        entry(now - 240, Fingerprint::Unreadable, 1),
        entry(now - 120, Fingerprint::Unreadable, 2),
        entry(now, Fingerprint::Unreadable, 3),
    ]);
    let v = decide(
        &three,
        &empty,
        &lkg(true, true, false),
        Fingerprint::Unreadable,
        now,
        true,
    );
    assert_eq!(v.action, Action::RollBack);

    let real = fingerprint_bytes(b"anything");
    assert_ne!(Fingerprint::Unreadable, real);
}

#[test]
fn window_not_elapsed_waits() {
    let since = START;
    let now = since + 10 * SECOND;
    let v = should_promote(since, now, WINDOW, &all_healthy_snap(), 0, true);
    assert_eq!(v, PromoteVerdict::Wait);
}

#[test]
fn elapsed_healthy_clean_promotes() {
    let since = START;
    let now = since + WINDOW + SECOND;
    let v = should_promote(since, now, WINDOW, &all_healthy_snap(), 0, true);
    assert_eq!(v, PromoteVerdict::Promote);
}

#[test]
fn elapsed_healthy_dirty_skips() {
    let since = START;
    let now = since + WINDOW + SECOND;
    let v = should_promote(since, now, WINDOW, &all_healthy_snap(), 0, false);
    assert_eq!(v, PromoteVerdict::SkipDirty);
}

#[test]
fn all_unhealthy_display_defers_below_cap() {
    let since = START;
    let now = since + WINDOW + SECOND;
    let unhealthy = snap(vec![(
        "mon",
        display("active", vec![unhealthy_ctl("command")]),
    )]);
    for defer_count in 0..LKG_HEALTH_DEFER_CAP {
        let v = should_promote(since, now, WINDOW, &unhealthy, defer_count, true);
        assert_eq!(
            v,
            PromoteVerdict::DeferHealth,
            "defer_count={defer_count} must still defer"
        );
    }
}

#[test]
fn all_unhealthy_display_promotes_despite_health_at_cap() {
    let since = START;
    let now = since + WINDOW + SECOND;
    let unhealthy = snap(vec![(
        "mon",
        display("active", vec![unhealthy_ctl("command")]),
    )]);
    let v = should_promote(since, now, WINDOW, &unhealthy, LKG_HEALTH_DEFER_CAP, true);
    assert_eq!(v, PromoteVerdict::PromoteDespiteHealth);
}

#[test]
fn dirty_check_still_wins_at_cap() {
    let since = START;
    let now = since + WINDOW + SECOND;
    let unhealthy = snap(vec![(
        "mon",
        display("active", vec![unhealthy_ctl("command")]),
    )]);
    let v = should_promote(since, now, WINDOW, &unhealthy, LKG_HEALTH_DEFER_CAP, false);
    assert_eq!(v, PromoteVerdict::SkipDirty);
}

#[test]
fn different_unhealthy_sets_accumulate_identically_r3_m2() {
    let since = START;
    let now = since + WINDOW + SECOND;
    let set_a = snap(vec![(
        "a",
        display("active", vec![unhealthy_ctl("command")]),
    )]);
    let set_b = snap(vec![(
        "b",
        display("active", vec![unhealthy_ctl("command")]),
    )]);
    let set_c = snap(vec![(
        "c",
        display("active", vec![unhealthy_ctl("command")]),
    )]);

    assert_eq!(
        should_promote(since, now, WINDOW, &set_a, 0, true),
        PromoteVerdict::DeferHealth
    );
    assert_eq!(
        should_promote(since, now, WINDOW, &set_b, 1, true),
        PromoteVerdict::DeferHealth
    );
    assert_eq!(
        should_promote(since, now, WINDOW, &set_c, 2, true),
        PromoteVerdict::DeferHealth
    );
    let set_d = snap(vec![(
        "d",
        display("active", vec![unhealthy_ctl("command")]),
    )]);
    assert_eq!(
        should_promote(since, now, WINDOW, &set_d, LKG_HEALTH_DEFER_CAP, true),
        PromoteVerdict::PromoteDespiteHealth
    );
}

#[test]
fn empty_health_display_never_defers() {
    let since = START;
    let now = since + WINDOW + SECOND;
    let unproven = snap(vec![("mon", display("active", Vec::new()))]);
    let v = should_promote(since, now, WINDOW, &unproven, 0, true);
    assert_eq!(v, PromoteVerdict::Promote);
}

#[test]
fn mixed_proven_and_unproven_only_proven_can_defer() {
    let since = START;
    let now = since + WINDOW + SECOND;
    let mixed = snap(vec![
        ("ok", display("active", vec![healthy_ctl("command")])),
        ("unproven", display("active", Vec::new())),
        ("bad", display("active", vec![unhealthy_ctl("command")])),
    ]);
    let v = should_promote(since, now, WINDOW, &mixed, 0, true);
    assert_eq!(v, PromoteVerdict::DeferHealth);
}

#[test]
fn cap_truncates_to_ten() {
    let fp_a = fingerprint_bytes(b"config-a");
    let starts: Vec<StartEntry> = (0..15u64).map(|i| entry(i, fp_a, i)).collect();
    let mut state = state_with(starts);
    cap_starts(&mut state.starts);
    assert_eq!(state.starts.len(), MAX_STARTS);
    assert_eq!(state.starts.last().unwrap().nonce, 14);
    assert_eq!(state.starts[0].nonce, 5);
}

#[test]
fn corrupt_state_file_is_default() {
    let state = load_crash_loop_state(None);
    assert_eq!(state, CrashLoopState::default());
    assert_eq!(state.schema_version, 1);
    assert!(state.starts.is_empty());
    assert!(!state.rollback_active);

    let fp = fingerprint_bytes(b"x");
    let kept = load_crash_loop_state(Some(state_with(vec![entry(7, fp, 8)])));
    assert_eq!(kept.starts, vec![entry(7, fp, 8)]);
}

#[test]
fn prepare_records_start_and_writes_crash_loop_state() {
    let f = facts(b"config_version = 1\n", None, 1_000_000, 77);
    let prepared = prepare(CrashLoopState::default(), &HashSet::new(), &f);
    assert_eq!(prepared.plan.chosen_config, f.config_path);
    assert!(prepared.plan.deferred_events.is_empty());
    assert!(prepared.plan.pending_message.is_none());
    assert_eq!(prepared.state.starts.len(), 1);
    assert_eq!(prepared.state.starts[0].nonce, prepared.plan.nonce);
    assert_eq!(prepared.plan.nonce, 77);
    assert!(!prepared.state.rollback_active);
}

#[test]
fn prepare_counted_rollback_writes_state_and_chooses_lkg() {
    let config_bytes = b"config_version = 1\nbroken = true\n";
    let fp = fingerprint_bytes(config_bytes);
    let now = 1_000_000u64;
    let seeded = state_with(vec![entry(now - 60, fp, 101), entry(now - 30, fp, 102)]);
    let f = facts(config_bytes, Some(b"config_version = 1\n"), now, 103);

    let prepared = prepare(seeded, &HashSet::new(), &f);

    assert_eq!(
        prepared.plan.chosen_config,
        "/var/lib/dormant/last-known-good.toml"
    );
    assert_eq!(prepared.plan.operator_config, f.config_path);
    assert!(
        matches!(
            prepared.plan.deferred_events.as_slice(),
            [DeferredEvent::RollbackBoot { .. }]
        ),
        "got {:?}",
        prepared.plan.deferred_events
    );
    assert!(prepared.plan.pending_message.is_some());
    assert_eq!(prepared.state.starts.len(), 3);
    assert!(prepared.state.rollback_active);
    assert_eq!(prepared.state.rolled_back_from, Some(fp));
}

#[test]
fn prepare_emits_crash_loop_detected_when_bytes_equal_lkg() {
    let config_bytes = b"config_version = 1\n";
    let fp = fingerprint_bytes(config_bytes);
    let now = 1_000_000u64;
    let seeded = state_with(vec![entry(now - 60, fp, 301), entry(now - 30, fp, 302)]);
    let f = facts(config_bytes, Some(config_bytes), now, 303);

    let prepared = prepare(seeded, &HashSet::new(), &f);

    assert_eq!(prepared.plan.chosen_config, f.config_path);
    assert_eq!(
        prepared.plan.deferred_events,
        vec![DeferredEvent::CrashLoopDetected { count: 3 }]
    );
}

#[test]
fn prepare_sweeps_stale_discount_files() {
    let now = 1_000_000u64;
    let entries = vec![
        DirEntry {
            name: Some("discount-999".to_string()),
            mtime_epoch_s: Some(now - CRASH_LOOP_WINDOW - 3600),
        },
        DirEntry {
            name: Some("discount-5".to_string()),
            mtime_epoch_s: Some(now - CRASH_LOOP_WINDOW),
        },
        DirEntry {
            name: Some("crash-loop.json".to_string()),
            mtime_epoch_s: Some(0),
        },
        DirEntry {
            name: None,
            mtime_epoch_s: Some(0),
        },
        DirEntry {
            name: Some("discount-x".to_string()),
            mtime_epoch_s: Some(0),
        },
    ];
    let sweep = collect_and_sweep_discounts(&entries, now);
    assert_eq!(sweep.stale, vec![0]);
    assert_eq!(sweep.live, HashSet::from([5]));
}

#[test]
fn record_discount_then_prepare_ignores_that_start() {
    let config_bytes = b"config_version = 1\nx = 1\n";
    let fp = fingerprint_bytes(config_bytes);
    let now = 1_000_000u64;
    let seeded = state_with(vec![entry(now - 60, fp, 201), entry(now - 30, fp, 202)]);
    let listed = vec![DirEntry {
        name: Some(discount_file_name(201)),
        mtime_epoch_s: Some(now),
    }];
    let discounts = collect_and_sweep_discounts(&listed, now).live;
    assert_eq!(discounts, HashSet::from([201]));
    let f = facts(
        config_bytes,
        Some(b"config_version = 1\ndiffers = true\n"),
        now,
        203,
    );

    let prepared = prepare(seeded, &discounts, &f);
    assert_eq!(
        prepared.plan.chosen_config, f.config_path,
        "discounted start must not trigger rollback"
    );
}

#[test]
fn clear_rollback_after_reload_clears_persisted_state() {
    let fp = fingerprint_bytes(b"broken-operator-bytes");
    let mut state = CrashLoopState {
        schema_version: 1,
        starts: vec![entry(1_000, fp, 1)],
        rollback_active: true,
        rolled_back_from: Some(fp),
    };
    clear_rollback_after_reload(&mut state);
    assert!(!state.rollback_active);
    assert_eq!(state.rolled_back_from, None);
    assert_eq!(state.starts.len(), 1);
    assert_eq!(state.starts[0].nonce, 1);
}

#[test]
fn continue_rollback_survives_repeated_crash_loop_storm() {
    let bad_bytes = b"config_version = 1\nbroken = true\n";
    let lkg_bytes = b"config_version = 1\n";
    let fp = fingerprint_bytes(bad_bytes);
    let now = 1_000_000u64;
    let mut state = CrashLoopState {
        schema_version: 1,
        starts: vec![entry(now - 30, fp, 9001)],
        rollback_active: true,
        rolled_back_from: Some(fp),
    };
    for i in 0..CRASH_LOOP_THRESHOLD {
        let f = facts(bad_bytes, Some(lkg_bytes), now, u64::from(i));
        let prepared = prepare(state, &HashSet::new(), &f);
        assert_eq!(prepared.plan.chosen_config, lkg_path(&f.state_dir));
        assert_eq!(
            prepared.plan.deferred_events,
            vec![DeferredEvent::RollbackContinued]
        );
        assert_eq!(
            prepared.plan.pending_message.as_deref(),
            Some(STICKY_MESSAGE)
        );
        assert!(prepared.state.rollback_active);
        assert_eq!(prepared.state.rolled_back_from, Some(fp));
        state = prepared.state;
    }
}

#[test]
fn fingerprint_json_shape_pinned() {
    let json = |fp: Fingerprint| match persist_fingerprint(fp) {
        PersistedFingerprint::Text(text) => Value::from(text).to_string(),
        PersistedFingerprint::Object(fields) => {
            let mut map = serde_json::Map::new();
            map.insert("len".to_string(), Value::from(fields.len));
            map.insert("hash64".to_string(), Value::from(fields.hash64));
            Value::Object(map).to_string()
        }
    };
    let fp = Fingerprint::Bytes {
        len: 12,
        hash64: 0xdead_beef,
    };
    let shape = json(fp);
    assert!(shape.contains("\"len\":12"), "got {shape}");
    assert!(shape.contains("\"hash64\":"), "got {shape}");
    assert!(!shape.contains("\"Bytes\""), "got {shape}");
    let mark = json(Fingerprint::Unreadable);
    assert_eq!(mark, "\"unreadable\"");
    assert!(!mark.contains("Unreadable"));

    let read = |fp: Fingerprint| match persist_fingerprint(fp) {
        PersistedFingerprint::Text(text) => fingerprint_from_text(text),
        PersistedFingerprint::Object(fields) => fingerprint_from_fields(fields),
    };
    assert_eq!(read(fp), Ok(fp));
    assert_eq!(read(Fingerprint::Unreadable), Ok(Fingerprint::Unreadable));
}

#[test]
fn prepare_retries_loudly_after_a_quiet_period() {
    let bytes = b"config_version = 1\nbroken = true\n";
    let fp = fingerprint_bytes(bytes);
    let now = 1_000_000u64;
    let seeded = CrashLoopState {
        schema_version: 1,
        starts: vec![entry(now - 400, fp, 1)],
        rollback_active: true,
        rolled_back_from: Some(fp),
    };
    let f = facts(bytes, Some(b"config_version = 1\n"), now, 2);
    let prepared = prepare(seeded, &HashSet::new(), &f);
    assert_eq!(prepared.plan.chosen_config, f.config_path);
    assert_eq!(
        prepared.plan.deferred_events,
        vec![DeferredEvent::RollbackRetry {
            message: RETRY_MESSAGE.to_string()
        }]
    );
    assert!(!prepared.state.rollback_active);
    assert_eq!(prepared.state.rolled_back_from, None);
}

#[test]
fn prepare_disarms_where_the_good_copy_is_gone() {
    let bytes = b"broken";
    let fp = fingerprint_bytes(bytes);
    let now = 1_000_000u64;
    let seeded = CrashLoopState {
        schema_version: 1,
        starts: vec![entry(now - 30, fp, 1)],
        rollback_active: true,
        rolled_back_from: Some(fp),
    };
    let f = facts(bytes, None, now, 2);
    let prepared = prepare(seeded, &HashSet::new(), &f);
    assert_eq!(prepared.plan.chosen_config, f.config_path);
    assert!(prepared
        .plan
        .deferred_events
        .contains(&DeferredEvent::LkgMissingRollbackDisarmed));
    assert!(!prepared.state.rollback_active);
}

#[test]
fn recorded_starts_keep_the_newest() {
    let fp = fingerprint_bytes(b"a");
    let mut state = CrashLoopState::default();
    for i in 0..12u64 {
        record_start(&mut state, entry(100 + i, fp, i));
    }
    assert_eq!(state.starts.len(), 10);
    assert_eq!(state.starts[0].nonce, 2);
    assert_eq!(state.starts[9].nonce, 11);
}

#[test]
fn persisted_fingerprint_fields_are_read() {
    assert_eq!(fingerprint_key("len"), FingerprintKey::Len);
    assert_eq!(fingerprint_key("hash64"), FingerprintKey::Hash64);
    assert_eq!(fingerprint_key("Bytes"), FingerprintKey::Other);
    assert_eq!(
        fingerprint_from_fields(FingerprintFields {
            len: Some(12),
            hash64: Some(0xdead_beef)
        }),
        Ok(Fingerprint::Bytes {
            len: 12,
            hash64: 0xdead_beef
        })
    );
    assert_eq!(
        fingerprint_from_fields(FingerprintFields {
            len: None,
            hash64: Some(1)
        }),
        Err(FingerprintError::MissingLen)
    );
    assert_eq!(
        fingerprint_from_fields(FingerprintFields {
            len: Some(1),
            hash64: None
        }),
        Err(FingerprintError::MissingHash64)
    );
    assert_eq!(
        fingerprint_from_text("unreadable"),
        Ok(Fingerprint::Unreadable)
    );
    assert_eq!(
        fingerprint_from_text("Unreadable"),
        Err(FingerprintError::UnknownText)
    );
}

#[test]
fn fingerprints_tell_contents_apart() {
    assert_eq!(fingerprint_bytes(b"abc"), fingerprint_bytes(b"abc"));
    assert_ne!(fingerprint_bytes(b"abc"), fingerprint_bytes(b"abd"));
    assert_ne!(fingerprint_bytes(b""), fingerprint_bytes(b"a"));
    assert!(matches!(
        fingerprint_bytes(b"abc"),
        Fingerprint::Bytes { len: 3, .. }
    ));
    assert_eq!(fingerprint_file(&None), Fingerprint::Unreadable);
    assert_eq!(
        fingerprint_file(&Some(b"abc".to_vec())),
        fingerprint_bytes(b"abc")
    );
}

#[test]
fn paths_are_joined_with_one_slash() {
    assert_eq!(join_path("/var/lib", "x"), "/var/lib/x");
    assert_eq!(join_path("/var/lib/", "x"), "/var/lib/x");
    assert_eq!(join_path("", "x"), "x");
    assert_eq!(lkg_path("/s"), format!("/s/{LKG_FILE}"));
    assert_eq!(discount_file_name(0), "discount-0");
    assert_eq!(
        discount_file_name(u64::MAX),
        "discount-18446744073709551615"
    );
}
