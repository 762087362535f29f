//! The boot sequence: build the planned config, fall back to last-known-good
//! where it cannot be built, take the single-instance lock, start.
//!
//! Each stage is a value of its own. The program performs what a stage asks for
//! and trades the stage and the observed result for the next stage.

use vstd::prelude::*;

use crate::app::{App, AppModel, StartFacts};
use crate::boot_guard;
use crate::boot_guard::{
    files_bytes_equal, fingerprint_file, lkg_path, pending_message_for_rollback, BootPlan,
    CrashLoopState, Fingerprint,
};
use crate::text;
use crate::text::same_text;

verus! {

/// How a boot ends.
pub enum BootOutcome {
    /// The daemon runs `used_config`, watches and reloads `operator_config`;
    /// `pending` is the banner to park on it.
    Started {
        used_config: String,
        operator_config: String,
        rolled_back: bool,
        pending: Option<String>,
    },
    /// Another instance holds the lock; the start `discount` is to be disowned.
    LockFailed { discount: u64 },
    /// No config could be built.
    BuildFailed(String),
}

/// Build the planned config.
pub struct BuildPlanned {
    pub plan: BootPlan,
    pub lkg_path: String,
}

/// The planned config cannot be built: look at it and at last-known-good.
pub struct CheckRollback {
    pub plan: BootPlan,
    pub lkg_path: String,
    pub error: String,
}

/// Persist `state`, report the rollback, and build last-known-good.
pub struct BuildLkg {
    pub plan: BootPlan,
    pub lkg_path: String,
    pub failed_fp: Fingerprint,
    pub lkg_fp: Fingerprint,
    pub detail: String,
    pub state: CrashLoopState,
}

/// A config is built: take the single-instance lock.
pub struct TakeLock {
    pub nonce: u64,
    pub used_config: String,
    /// The operator's own file, whichever config is used.
    pub operator_config: String,
    pub rolled_back: bool,
    pub pending: Option<String>,
}

/// The lock is held: start the daemon.
pub struct StartApp {
    pub used_config: String,
    /// The operator's own file, whichever config is used.
    pub operator_config: String,
    pub rolled_back: bool,
    pub pending: Option<String>,
}

/// What follows the build of the planned config.
pub enum AfterPlanned {
    Lock(TakeLock),
    Check(CheckRollback),
    End(BootOutcome),
}

/// What follows the look at last-known-good.
pub enum AfterCheck {
    Build(BuildLkg),
    End(BootOutcome),
}

/// What follows the build of last-known-good.
pub enum AfterLkg {
    Lock(TakeLock),
    End(BootOutcome),
}

/// What follows the attempt to take the lock.
pub enum AfterLock {
    Start(StartApp),
    End(BootOutcome),
}

/// Begin a boot that follows `plan`.
pub fn boot(plan: BootPlan, state_dir: &str) -> (s: BuildPlanned)
    ensures
        s.plan == plan,
        s.lkg_path@ == boot_guard::joined(state_dir@, boot_guard::LKG_FILE@),
{
    BuildPlanned { plan, lkg_path: lkg_path(state_dir) }
}

/// The fingerprints of a config that is to be left for last-known-good at once:
/// a copy exists, and its bytes are not known to be the same.
pub open spec fn immediate_rollback(
    lkg_exists: bool,
    chosen: Option<Vec<u8>>,
    lkg: Option<Vec<u8>>,
) -> Option<(Fingerprint, Fingerprint)> {
    if lkg_exists && !boot_guard::bytes_equal(lkg, chosen) {
        Some((boot_guard::fingerprint_of_file(chosen), boot_guard::fingerprint_of_file(lkg)))
    } else {
        None
    }
}

/// Whether a config that cannot be built is left for last-known-good at once.
pub fn immediate_rollback_eligible(
    lkg_exists: bool,
    chosen: &Option<Vec<u8>>,
    lkg: &Option<Vec<u8>>,
) -> (res: Option<(Fingerprint, Fingerprint)>)
    ensures
        res == immediate_rollback(lkg_exists, *chosen, *lkg),
{
    if !lkg_exists {
        return None;
    }
    if files_bytes_equal(lkg, chosen) {
        return None;
    }
    Some((fingerprint_file(chosen), fingerprint_file(lkg)))
}

/// Mark the state as rolled back from a config that could not be built.
pub fn write_immediate_rollback_state(state: &mut CrashLoopState, failed_fp: Fingerprint)
    ensures
        final(state)@ == boot_guard::rolled_back(old(state)@, failed_fp),
{
    state.rollback_active = true;
    state.rolled_back_from = Some(failed_fp);
}

impl BuildPlanned {
    /// Whether the plan is to run last-known-good.
    pub open spec fn is_lkg(&self) -> bool {
        self.plan.chosen_config@ == self.lkg_path@
    }

    /// The planned config was built, or failed to with an error.
    ///
    /// A failed last-known-good config ends the boot; any other is looked at
    /// once more.
    pub fn built(self, result: Result<(), String>) -> (res: AfterPlanned)
        ensures
            match result {
                Ok(_) => {
                    &&& res matches AfterPlanned::Lock(next)
                    &&& next.nonce == self.plan.nonce
                    &&& next.used_config == self.plan.chosen_config
                    &&& next.operator_config == self.plan.operator_config
                    &&& next.rolled_back == self.is_lkg()
                    &&& next.pending == self.plan.pending_message
                },
                Err(e) => if self.is_lkg() {
                    res == AfterPlanned::End(BootOutcome::BuildFailed(e))
                } else {
                    &&& res matches AfterPlanned::Check(next)
                    &&& next.plan == self.plan
                    &&& next.lkg_path == self.lkg_path
                    &&& next.error == e
                },
            },
    {
        let is_lkg_chosen = same_text(self.plan.chosen_config.as_str(), self.lkg_path.as_str());
        match result {
            Ok(_) => AfterPlanned::Lock(
                TakeLock {
                    nonce: self.plan.nonce,
                    used_config: self.plan.chosen_config,
                    operator_config: self.plan.operator_config,
                    rolled_back: is_lkg_chosen,
                    pending: self.plan.pending_message,
                },
            ),
            Err(e) => {
                if is_lkg_chosen {
                    AfterPlanned::End(BootOutcome::BuildFailed(e))
                } else {
                    AfterPlanned::Check(
                        CheckRollback { plan: self.plan, lkg_path: self.lkg_path, error: e },
                    )
                }
            },
        }
    }
}

impl CheckRollback {
    /// The last-known-good file and the failed config were read, and `state` is
    /// the persisted crash-loop state.
    ///
    /// Where the rollback is eligible the state is marked before anything else
    /// is built; otherwise the boot ends with the error of the failed build.
    pub fn checked(
        self,
        lkg_exists: bool,
        chosen: &Option<Vec<u8>>,
        lkg: &Option<Vec<u8>>,
        state: CrashLoopState,
    ) -> (res: AfterCheck)
        ensures
            match immediate_rollback(lkg_exists, *chosen, *lkg) {
                Some((failed_fp, lkg_fp)) => {
                    &&& res matches AfterCheck::Build(next)
                    &&& next.plan == self.plan
                    &&& next.lkg_path == self.lkg_path
                    &&& next.failed_fp == failed_fp
                    &&& next.lkg_fp == lkg_fp
                    &&& next.detail == self.error
                    &&& next.state@ == boot_guard::rolled_back(state@, failed_fp)
                },
                None => res == AfterCheck::End(BootOutcome::BuildFailed(self.error)),
            },
    {
        match immediate_rollback_eligible(lkg_exists, chosen, lkg) {
            Some((failed_fp, lkg_fp)) => {
                let mut state = state;
                write_immediate_rollback_state(&mut state, failed_fp);
                AfterCheck::Build(
                    BuildLkg {
                        plan: self.plan,
                        lkg_path: self.lkg_path,
                        failed_fp,
                        lkg_fp,
                        detail: self.error,
                        state,
                    },
                )
            },
            None => AfterCheck::End(BootOutcome::BuildFailed(self.error)),
        }
    }
}

impl BuildLkg {
    /// Last-known-good was built, or failed to with an error of its own, which
    /// ends the boot. The banner of the failed config replaces the planned one.
    pub fn built(self, result: Result<(), String>) -> (res: AfterLkg)
        ensures
            match result {
                Ok(_) => {
                    &&& res matches AfterLkg::Lock(next)
                    &&& next.nonce == self.plan.nonce
                    &&& next.used_config == self.lkg_path
                    &&& next.operator_config == self.plan.operator_config
                    &&& next.rolled_back
                    &&& text::opt_text(next.pending) == Some(
                        boot_guard::rollback_banner(self.detail@),
                    )
                },
                Err(e) => res == AfterLkg::End(BootOutcome::BuildFailed(e)),
            },
    {
        match result {
            Ok(_) => AfterLkg::Lock(
                TakeLock {
                    nonce: self.plan.nonce,
                    used_config: self.lkg_path,
                    operator_config: self.plan.operator_config,
                    rolled_back: true,
                    pending: Some(pending_message_for_rollback(self.detail.as_str())),
                },
            ),
            Err(e) => AfterLkg::End(BootOutcome::BuildFailed(e)),
        }
    }
}

impl TakeLock {
    /// The lock was taken or is held by another instance. In the latter case the
    /// start that this boot recorded is disowned under its own nonce.
    pub fn locked(self, acquired: bool) -> (res: AfterLock)
        ensures
            res == (if acquired {
                AfterLock::Start(
                    StartApp {
                        used_config: self.used_config,
                        operator_config: self.operator_config,
                        rolled_back: self.rolled_back,
                        pending: self.pending,
                    },
                )
            } else {
                AfterLock::End(BootOutcome::LockFailed { discount: self.nonce })
            }),
    {
        if acquired {
            AfterLock::Start(
                StartApp {
                    used_config: self.used_config,
                    operator_config: self.operator_config,
                    rolled_back: self.rolled_back,
                    pending: self.pending,
                },
            )
        } else {
            AfterLock::End(BootOutcome::LockFailed { discount: self.nonce })
        }
    }
}

/// What a daemon reports about the rollback that it starts out of: nothing
/// where there is none, else the banner.
pub open spec fn rollback_status(rolled_back: bool, pending: Option<Seq<char>>) -> Option<
    Seq<char>,
> {
    if !rolled_back {
        None
    } else {
        match pending {
            Some(message) => Some(message),
            None => Some(Seq::empty()),
        }
    }
}

/// A daemon with what the boot decided: whichever config it runs, it keeps to
/// the operator's own file, and a rollback is active exactly where the config is
/// last-known-good.
pub open spec fn booted(app: AppModel, start: StartApp, state_dir: Seq<char>) -> AppModel {
    AppModel {
        operator_config_path: start.operator_config@,
        rollback_active: start.rolled_back,
        rollback_status: rollback_status(start.rolled_back, text::opt_text(start.pending)),
        state_dir,
        ..app
    }
}

impl StartApp {
    /// Tell the daemon that is to be started what the boot decided.
    pub fn equip(&self, app: App, state_dir: String) -> (res: App)
        ensures
            res@ == booted(app@, *self, state_dir@),
    {
        let status = if self.rolled_back {
            match &self.pending {
                Some(message) => Some(message.clone()),
                None => Some(String::new()),
            }
        } else {
            None
        };
        app.with_boot_source(self.operator_config.clone(), status, state_dir)
    }

    /// The daemon runs.
    pub fn started(self) -> (res: BootOutcome)
        ensures
            res == (BootOutcome::Started {
                used_config: self.used_config,
                operator_config: self.operator_config,
                rolled_back: self.rolled_back,
                pending: self.pending,
            }),
    {
        BootOutcome::Started {
            used_config: self.used_config,
            operator_config: self.operator_config,
            rolled_back: self.rolled_back,
            pending: self.pending,
        }
    }
}

/// Whichever route a boot takes, the daemon keeps to the operator's own file, and
/// one that runs last-known-good says so and holds no candidate to replace it.
pub proof fn law_booted_daemon_keeps_the_operators_file(
    app: AppModel,
    start: StartApp,
    state_dir: Seq<char>,
    facts: StartFacts,
)
    ensures
        booted(app, start, state_dir).operator_config_path == start.operator_config@,
        booted(app, start, state_dir).rollback_status is Some == start.rolled_back,
        crate::app::started(booted(app, start, state_dir), facts).rollback_active
            == start.rolled_back,
        start.rolled_back ==> crate::app::started(
            booted(app, start, state_dir),
            facts,
        ).lkg.candidate is None,
{
}

/// A build that failed is rolled back at once exactly if there is a
/// last-known-good copy with other bytes, and the fingerprints are those of both.
pub proof fn law_failed_build_is_rolled_back_to_another_config(
    lkg_exists: bool,
    chosen: Option<Vec<u8>>,
    lkg: Option<Vec<u8>>,
)
    ensures
        immediate_rollback(lkg_exists, chosen, lkg) is Some <==> lkg_exists && !(chosen is Some
            && lkg is Some && chosen->0@ == lkg->0@),
        immediate_rollback(lkg_exists, chosen, lkg) matches Some(fps) ==> fps.0
            == boot_guard::fingerprint_of_file(chosen) && fps.1 == boot_guard::fingerprint_of_file(
            lkg,
        ),
{
}

/// A daemon that was rolled back says why, with the pending message where there
/// is one; any other says nothing. Everything else is as it was built.
pub proof fn law_booted_daemon_says_why_it_was_rolled_back(
    app: AppModel,
    start: StartApp,
    state_dir: Seq<char>,
)
    ensures
        ({
            let b = booted(app, start, state_dir);
            &&& !start.rolled_back ==> b.rollback_status is None && !b.rollback_active
            &&& start.rolled_back ==> b.rollback_active && b.rollback_status is Some
            &&& start.rolled_back && start.pending is Some ==> b.rollback_status == Some(
                start.pending->0@,
            )
            &&& b.operator_config_path == start.operator_config@
            &&& b.state_dir == state_dir
            &&& b.config_path == app.config_path
            &&& b.creds_path == app.creds_path
            &&& b.disable_ipc == app.disable_ipc
            &&& b.watchdog_interval == app.watchdog_interval
        }),
{
}

/// A boot from the last-known-good config is known by its path, and is not tried
/// again where it cannot be built.
pub proof fn law_last_known_good_is_known_by_its_path(
    b: BuildPlanned,
    result: Result<(), String>,
    res: AfterPlanned,
)
    requires
        call_ensures(BuildPlanned::built, (b, result), res),
    ensures
        result is Ok ==> (res matches AfterPlanned::Lock(next) && (next.rolled_back
            <==> b.plan.chosen_config@ == b.lkg_path@)),
        result is Err && b.plan.chosen_config@ == b.lkg_path@ ==> res is End,
        result is Err && b.plan.chosen_config@ != b.lkg_path@ ==> res is Check,
{
}

} // verus!
