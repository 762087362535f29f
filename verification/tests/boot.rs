//! A boot, stage by stage.

use dormantd::app::{App, ValidationReport};
use dormantd::boot::{
    boot, immediate_rollback_eligible, write_immediate_rollback_state, AfterCheck, AfterLkg,
    AfterLock, AfterPlanned, BootOutcome, CheckRollback,
};
use dormantd::boot_guard::{fingerprint_bytes, BootPlan, CrashLoopState, Fingerprint};

const BANNER: &str =
    "your latest config failed and was rolled back to last-known-good — fix it and reload: ";

fn plan(chosen: &str) -> BootPlan {
    BootPlan {
        chosen_config: chosen.to_string(),
        operator_config: "/etc/config.toml".to_string(),
        nonce: 7,
        deferred_events: vec![],
        pending_message: None,
    }
}

fn bytes(b: &[u8]) -> Option<Vec<u8>> {
    Some(b.to_vec())
}

fn failed_build() -> CheckRollback {
    match boot(plan("/etc/config.toml"), "/state").built(Err("bad zone".to_string())) {
        AfterPlanned::Check(next) => next,
        _ => panic!("no check"),
    }
}

#[test]
fn a_plain_boot_starts_the_operators_config() {
    let lock = match boot(plan("/etc/config.toml"), "/state").built(Ok(())) {
        AfterPlanned::Lock(lock) => lock,
        _ => panic!("no lock"),
    };
    assert!(!lock.rolled_back);
    let start = match lock.locked(true) {
        AfterLock::Start(start) => start,
        AfterLock::End(_) => panic!("ended"),
    };
    match start.started() {
        BootOutcome::Started {
            used_config,
            operator_config,
            rolled_back,
            pending,
        } => {
            assert_eq!(used_config, "/etc/config.toml");
            assert_eq!(operator_config, "/etc/config.toml");
            assert!(!rolled_back);
            assert_eq!(pending, None);
        }
        _ => panic!("not started"),
    }
}

#[test]
fn a_planned_rollback_boots_the_good_copy() {
    let mut planned = plan("/state/last-known-good.toml");
    planned.pending_message = Some("held back".to_string());
    let lock = match boot(planned, "/state").built(Ok(())) {
        AfterPlanned::Lock(lock) => lock,
        _ => panic!("no lock"),
    };
    assert!(lock.rolled_back);
    assert_eq!(lock.pending.as_deref(), Some("held back"));
    let start = match lock.locked(true) {
        AfterLock::Start(start) => start,
        AfterLock::End(_) => panic!("ended"),
    };
    assert_eq!(start.operator_config, "/etc/config.toml");
    let built = App::build(
        "/state/last-known-good.toml".to_string(),
        "/creds".to_string(),
        "/elsewhere".to_string(),
        &ValidationReport::default(),
    )
    .unwrap_or_else(|e| panic!("{e}"));
    let app = start.equip(built, "/state".to_string());
    assert_eq!(app.config_path(), "/state/last-known-good.toml");
    assert_eq!(app.operator_config_path, "/etc/config.toml");
    assert!(app.rollback_active);
    assert_eq!(app.rollback_status.as_deref(), Some("held back"));
    assert_eq!(app.state_dir, "/state");
}

#[test]
fn a_good_copy_that_fails_is_the_end() {
    let ended = boot(plan("/state/last-known-good.toml"), "/state").built(Err("worse".to_string()));
    assert!(matches!(
        ended,
        AfterPlanned::End(BootOutcome::BuildFailed(e)) if e == "worse"
    ));
}

#[test]
fn a_failed_build_rolls_back_at_once() {
    let chosen = b"config_version = 1\nbroken = true\n";
    let good = b"config_version = 1\n";
    let next = match failed_build().checked(
        true,
        &bytes(chosen),
        &bytes(good),
        CrashLoopState::default(),
    ) {
        AfterCheck::Build(next) => next,
        AfterCheck::End(_) => panic!("ended"),
    };
    assert_eq!(next.failed_fp, fingerprint_bytes(chosen));
    assert_eq!(next.lkg_fp, fingerprint_bytes(good));
    assert!(next.state.rollback_active);
    assert_eq!(next.state.rolled_back_from, Some(fingerprint_bytes(chosen)));
    assert_eq!(next.lkg_path, "/state/last-known-good.toml");
    let detail = next.detail.clone();
    let lock = match next.built(Ok(())) {
        AfterLkg::Lock(lock) => lock,
        AfterLkg::End(_) => panic!("ended"),
    };
    assert!(lock.rolled_back);
    assert_eq!(lock.used_config, "/state/last-known-good.toml");
    assert_eq!(lock.operator_config, "/etc/config.toml");
    assert_eq!(lock.pending, Some(format!("{BANNER}{detail}")));
}

#[test]
fn without_a_differing_good_copy_a_failed_build_is_the_end() {
    for (exists, lkg) in [(false, None), (true, bytes(b"same"))] {
        let ended = failed_build().checked(
            exists,
            &bytes(b"same"),
            &lkg,
            CrashLoopState::default(),
        );
        assert!(matches!(
            ended,
            AfterCheck::End(BootOutcome::BuildFailed(e)) if e == "bad zone"
        ));
    }
}

#[test]
fn a_good_copy_that_fails_after_a_rollback_is_the_end() {
    let next = match failed_build().checked(
        true,
        &None,
        &bytes(b"good"),
        CrashLoopState::default(),
    ) {
        AfterCheck::Build(next) => next,
        AfterCheck::End(_) => panic!("ended"),
    };
    assert_eq!(next.failed_fp, Fingerprint::Unreadable);
    assert!(matches!(
        next.built(Err("worse".to_string())),
        AfterLkg::End(BootOutcome::BuildFailed(e)) if e == "worse"
    ));
}

#[test]
fn a_taken_lock_discounts_the_start() {
    let lock = match boot(plan("/etc/config.toml"), "/state").built(Ok(())) {
        AfterPlanned::Lock(lock) => lock,
        _ => panic!("no lock"),
    };
    assert!(matches!(
        lock.locked(false),
        AfterLock::End(BootOutcome::LockFailed { discount: 7 })
    ));
}

#[test]
fn a_rollback_at_once_needs_different_bytes() {
    assert_eq!(
        immediate_rollback_eligible(true, &bytes(b"a"), &bytes(b"b")),
        Some((fingerprint_bytes(b"a"), fingerprint_bytes(b"b")))
    );
    assert_eq!(
        immediate_rollback_eligible(true, &bytes(b"a"), &bytes(b"a")),
        None
    );
    assert_eq!(
        immediate_rollback_eligible(false, &bytes(b"a"), &bytes(b"b")),
        None
    );
    let mut state = CrashLoopState::default();
    write_immediate_rollback_state(&mut state, Fingerprint::Unreadable);
    assert!(state.rollback_active);
    assert_eq!(state.rolled_back_from, Some(Fingerprint::Unreadable));
}
