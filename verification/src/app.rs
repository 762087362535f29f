//! The daemon around its generations: validating the config, starting, and what
//! the main loop does with what happens.

use vstd::prelude::*;
use vstd::string::StringExecFns;

use crate::boot_guard;
use crate::boot_guard::join_path;
use crate::clock::Nanos;
use crate::coordination_claim::{Ip, SockAddr};
use crate::lkg;
use crate::lkg::{new_lkg_candidate, LkgTracker};
use crate::reload;
use crate::reload::{
    GenerationConfig, ReloadLifecycleCapture, ReloadSource, RollbackClear, Runner, RunnerModel,
};
use crate::revision::RuntimeRevision;
use crate::tables::TextMap;
use crate::text;

verus! {

/// The watchdog interval where nothing sets one: thirty seconds.
pub const DEFAULT_WATCHDOG_INTERVAL: u128 = 30_000_000_000;

// ── validation ───────────────────────────────────────────────────────────

/// A key of the config that means nothing.
#[derive(PartialEq, Eq, Debug)]
pub struct Warning {
    pub key_path: String,
    pub message: String,
}

/// What a look at the config found.
#[derive(PartialEq, Eq, Debug)]
pub struct ValidationReport {
    pub warnings: Vec<Warning>,
    /// What is wrong between its parts.
    pub errors: Vec<String>,
    /// Why it could not be read at all.
    pub load_error: Option<String>,
}

/// Whether a config is usable.
pub open spec fn report_ok(r: ValidationReport) -> bool {
    r.load_error is None && r.errors@.len() == 0
}

/// The lines of some warnings.
pub open spec fn warning_lines(warnings: Seq<Warning>) -> Seq<char>
    decreases warnings.len(),
{
    if warnings.len() == 0 {
        Seq::empty()
    } else {
        warning_lines(warnings.drop_last()) + ("warning ["@ + warnings.last().key_path@ + "]: "@
            + warnings.last().message@ + "\n"@)
    }
}

/// The lines of some errors.
pub open spec fn error_lines(errors: Seq<String>) -> Seq<char>
    decreases errors.len(),
{
    if errors.len() == 0 {
        Seq::empty()
    } else {
        error_lines(errors.drop_last()) + (errors.last()@ + "\n"@)
    }
}

/// What is printed about a config.
pub open spec fn rendered(r: ValidationReport) -> Seq<char> {
    warning_lines(r.warnings@) + (match r.load_error {
        Some(e) => e@ + "\n"@,
        None => Seq::empty(),
    }) + error_lines(r.errors@) + (if report_ok(r) {
        "configuration OK\n"@
    } else {
        Seq::empty()
    })
}

impl Default for ValidationReport {
    fn default() -> (res: Self)
        ensures
            res.warnings@.len() == 0,
            res.errors@.len() == 0,
            res.load_error is None,
    {
        ValidationReport { warnings: Vec::new(), errors: Vec::new(), load_error: None }
    }
}

impl ValidationReport {
    /// Whether the config is usable.
    pub fn is_ok(&self) -> (res: bool)
        ensures
            res == report_ok(*self),
    {
        self.load_error.is_none() && self.errors.len() == 0
    }

    /// The exit code of a validation.
    pub fn exit_code(&self) -> (res: i32)
        ensures
            res == (if report_ok(*self) {
                0i32
            } else {
                1i32
            }),
    {
        if self.is_ok() {
            0
        } else {
            1
        }
    }

    /// Print what was found.
    pub fn render(&self, out: &mut String)
        ensures
            final(out)@ == old(out)@ + rendered(*self),
    {
        let ghost head = out@;
        let ghost warned = self.warnings@;
        let mut i: usize = 0;
        proof {
            assert(warned.take(0) =~= Seq::<Warning>::empty());
            assert(head + warning_lines(warned.take(0)) =~= head);
        }
        while i < self.warnings.len()
            invariant
                i <= self.warnings@.len(),
                warned == self.warnings@,
                out@ == head + warning_lines(warned.take(i as int)),
            decreases self.warnings@.len() - i,
        {
            let ghost longer = warned.take(i + 1);
            let ghost before = out@;
            proof {
                assert(longer.drop_last() =~= warned.take(i as int));
                assert(longer.last() == warned[i as int]);
            }
            let w = &self.warnings[i];
            out.append("warning [");
            out.append(w.key_path.as_str());
            out.append("]: ");
            out.append(w.message.as_str());
            out.append("\n");
            assert(out@ =~= head + warning_lines(longer));
            i = i + 1;
        }
        assert(warned.take(i as int) =~= warned);
        let ghost told = out@;
        if let Some(e) = &self.load_error {
            out.append(e.as_str());
            out.append("\n");
        }
        let ghost middle = out@;
        proof {
            assert(middle =~= head + warning_lines(warned) + (match self.load_error {
                Some(e) => e@ + "\n"@,
                None => Seq::empty(),
            }));
        }
        let ghost wrong = self.errors@;
        let mut k: usize = 0;
        proof {
            assert(wrong.take(0) =~= Seq::<String>::empty());
            assert(middle + error_lines(wrong.take(0)) =~= middle);
        }
        while k < self.errors.len()
            invariant
                k <= self.errors@.len(),
                wrong == self.errors@,
                out@ == middle + error_lines(wrong.take(k as int)),
            decreases self.errors@.len() - k,
        {
            let ghost longer = wrong.take(k + 1);
            proof {
                assert(longer.drop_last() =~= wrong.take(k as int));
                assert(longer.last() == wrong[k as int]);
            }
            out.append(self.errors[k].as_str());
            out.append("\n");
            assert(out@ =~= middle + error_lines(longer));
            k = k + 1;
        }
        assert(wrong.take(k as int) =~= wrong);
        if self.is_ok() {
            out.append("configuration OK\n");
        }
        assert(out@ =~= head + rendered(*self));
    }
}

/// What a look at the config finds: reading it, reading the credentials, and
/// then what is wrong between its parts. Each is looked at only where the one
/// before went well.
pub fn validate_only(
    config: Result<Vec<Warning>, String>,
    credentials: Result<(), String>,
    errors: Vec<String>,
) -> (res: ValidationReport)
    ensures
        match (config, credentials) {
            (Err(e), _) => res.warnings@.len() == 0 && res.errors@.len() == 0 && text::opt_text(
                res.load_error,
            ) == Some(e@),
            (Ok(w), Err(e)) => res.warnings == w && res.errors@.len() == 0 && text::opt_text(
                res.load_error,
            ) == Some(e@),
            (Ok(w), Ok(())) => res.warnings == w && res.errors == errors
                && res.load_error is None,
        },
{
    match config {
        Err(e) => ValidationReport {
            warnings: Vec::new(),
            errors: Vec::new(),
            load_error: Some(e),
        },
        Ok(warnings) => match credentials {
            Err(e) => ValidationReport { warnings, errors: Vec::new(), load_error: Some(e) },
            Ok(()) => ValidationReport { warnings, errors, load_error: None },
        },
    }
}

/// The list of errors below a heading.
pub open spec fn bulleted(errors: Seq<String>) -> Seq<char>
    decreases errors.len(),
{
    if errors.len() == 0 {
        Seq::empty()
    } else {
        bulleted(errors.drop_last()) + ("\n  "@ + errors.last()@)
    }
}

/// Why a daemon does not start, if it does not.
pub open spec fn start_failure(r: ValidationReport) -> Option<Seq<char>> {
    match r.load_error {
        Some(e) => Some(e@),
        None => if r.errors@.len() > 0 {
            Some("startup validation failed:"@ + bulleted(r.errors@))
        } else {
            None
        },
    }
}

/// Whether a daemon may start with the config.
pub fn validate_or_bail(report: &ValidationReport) -> (res: Result<(), String>)
    ensures
        match start_failure(*report) {
            Some(detail) => res matches Err(e) && e@ == detail,
            None => res is Ok,
        },
{
    if let Some(e) = &report.load_error {
        return Err(e.clone());
    }
    if report.errors.len() == 0 {
        return Ok(());
    }
    let mut msg: String = String::from_str("startup validation failed:");
    let ghost head = msg@;
    let ghost wrong = report.errors@;
    let mut i: usize = 0;
    proof {
        assert(wrong.take(0) =~= Seq::<String>::empty());
        assert(head + bulleted(wrong.take(0)) =~= head);
    }
    while i < report.errors.len()
        invariant
            i <= report.errors@.len(),
            wrong == report.errors@,
            msg@ == head + bulleted(wrong.take(i as int)),
        decreases report.errors@.len() - i,
    {
        let ghost longer = wrong.take(i + 1);
        proof {
            assert(longer.drop_last() =~= wrong.take(i as int));
            assert(longer.last() == wrong[i as int]);
        }
        msg.append("\n  ");
        msg.append(report.errors[i].as_str());
        assert(msg@ =~= head + bulleted(longer));
        i = i + 1;
    }
    assert(wrong.take(i as int) =~= wrong);
    Err(msg)
}

/// Some texts with a semicolon and a space between them.
pub open spec fn semicolons(errors: Seq<String>) -> Seq<char>
    decreases errors.len(),
{
    if errors.len() == 0 {
        Seq::empty()
    } else if errors.len() == 1 {
        errors[0]@
    } else {
        semicolons(errors.drop_last()) + "; "@ + errors.last()@
    }
}

/// Why a reload does not take a config whose parts do not fit, if they do not.
pub fn assemble_loaded(errors: &Vec<String>) -> (res: Result<(), String>)
    ensures
        if errors@.len() == 0 {
            res is Ok
        } else {
            res matches Err(e) && e@ == semicolons(errors@)
        },
{
    if errors.len() == 0 {
        return Ok(());
    }
    let mut msg: String = errors[0].clone();
    let ghost wrong = errors@;
    let mut i: usize = 1;
    proof {
        assert(wrong.take(1)[0] == wrong[0]);
    }
    while i < errors.len()
        invariant
            1 <= i <= errors@.len(),
            wrong == errors@,
            msg@ == semicolons(wrong.take(i as int)),
        decreases errors@.len() - i,
    {
        let ghost longer = wrong.take(i + 1);
        proof {
            assert(longer.drop_last() =~= wrong.take(i as int));
            assert(longer.last() == wrong[i as int]);
        }
        msg.append("; ");
        msg.append(errors[i].as_str());
        assert(msg@ =~= semicolons(longer));
        i = i + 1;
    }
    assert(wrong.take(i as int) =~= wrong);
    Err(msg)
}

// ── the app ──────────────────────────────────────────────────────────────

/// A daemon before it starts.
pub struct App {
    /// The config that is read.
    pub config_path: String,
    /// The config that the operator edits; in a rollback it is another one.
    pub operator_config_path: String,
    pub creds_path: String,
    /// Whether it starts from the last-known-good config.
    pub rollback_active: bool,
    /// What is reported about that.
    pub rollback_status: Option<String>,
    pub state_dir: String,
    pub disable_ipc: bool,
    pub watchdog_interval: Option<Nanos>,
    pub force_reload_spawn_failure: bool,
    pub force_rebuild_old_spawn_failure: bool,
    pub force_reload_snapshot_timeout: bool,
    pub force_generation_barrier_timeout: bool,
    pub reload_lifecycle_capture: Option<ReloadLifecycleCapture>,
}

/// The model of a daemon before it starts.
#[verifier::ext_equal]
pub struct AppModel {
    pub config_path: Seq<char>,
    pub operator_config_path: Seq<char>,
    pub creds_path: Seq<char>,
    pub rollback_active: bool,
    pub rollback_status: Option<Seq<char>>,
    pub state_dir: Seq<char>,
    pub disable_ipc: bool,
    pub watchdog_interval: Option<Nanos>,
    pub force_reload_spawn_failure: bool,
    pub force_rebuild_old_spawn_failure: bool,
    pub force_reload_snapshot_timeout: bool,
    pub force_generation_barrier_timeout: bool,
    pub captured: Option<Seq<Seq<char>>>,
}

impl View for App {
    type V = AppModel;

    open spec fn view(&self) -> AppModel {
        AppModel {
            config_path: self.config_path@,
            operator_config_path: self.operator_config_path@,
            creds_path: self.creds_path@,
            rollback_active: self.rollback_active,
            rollback_status: text::opt_text(self.rollback_status),
            state_dir: self.state_dir@,
            disable_ipc: self.disable_ipc,
            watchdog_interval: self.watchdog_interval,
            force_reload_spawn_failure: self.force_reload_spawn_failure,
            force_rebuild_old_spawn_failure: self.force_rebuild_old_spawn_failure,
            force_reload_snapshot_timeout: self.force_reload_snapshot_timeout,
            force_generation_barrier_timeout: self.force_generation_barrier_timeout,
            captured: match self.reload_lifecycle_capture {
                Some(c) => Some(c@),
                None => None,
            },
        }
    }
}

/// A daemon of some paths with nothing else set.
pub open spec fn plain_app(
    config_path: Seq<char>,
    creds_path: Seq<char>,
    state_dir: Seq<char>,
) -> AppModel {
    AppModel {
        config_path,
        operator_config_path: config_path,
        creds_path,
        rollback_active: false,
        rollback_status: None,
        state_dir,
        disable_ipc: false,
        watchdog_interval: None,
        force_reload_spawn_failure: false,
        force_rebuild_old_spawn_failure: false,
        force_reload_snapshot_timeout: false,
        force_generation_barrier_timeout: false,
        captured: None,
    }
}

/// What is known when a daemon starts, besides what it was built with.
pub struct StartFacts {
    /// Whether the config has a shared display.
    pub shared: bool,
    pub generation: GenerationConfig,
    pub applied_revision: RuntimeRevision,
    pub web_port: Option<u16>,
    pub web_bind: Ip,
    pub web_allow_nonloopback: bool,
    /// What the operator's config file holds, where it can be read.
    pub operator_bytes: Option<Vec<u8>>,
    /// The watchdog interval that the service manager asks for.
    pub env_watchdog: Option<Nanos>,
    pub now: Nanos,
}

/// A step of a start, once the first generation runs.
#[derive(Clone, Copy, PartialEq, Eq, Debug, Structural)]
pub enum StartStep {
    TrackWear,
    /// Warn that the web listener can be reached from elsewhere.
    WarnNonloopback,
    WarnHazards,
    WatchConfig,
    /// Listen for local requests.
    ListenIpc,
    /// Serve the web interface; where that fails the start goes on.
    ServeWeb(SockAddr),
    /// Tell the service manager that the daemon is ready.
    Ready,
    /// Enter the main loop.
    Run,
}

/// The steps of a start. A step that fails ends it, but for the web interface.
pub open spec fn start_steps(app: AppModel, f: StartFacts) -> Seq<StartStep> {
    let warn = if f.web_allow_nonloopback {
        seq![StartStep::TrackWear, StartStep::WarnNonloopback]
    } else {
        seq![StartStep::TrackWear]
    };
    let ipc = if app.disable_ipc {
        Seq::empty()
    } else {
        seq![StartStep::ListenIpc]
    };
    let web = match f.web_port {
        Some(port) => seq![
            StartStep::ServeWeb(crate::coordination_claim::sock_addr(f.web_bind, port)),
        ],
        None => Seq::empty(),
    };
    warn + seq![StartStep::WarnHazards, StartStep::WatchConfig] + ipc + web + seq![
        StartStep::Ready,
        StartStep::Run,
    ]
}

/// What a start comes to.
pub struct StartPlan {
    pub runner: Runner,
    /// Where the wear of the panels is kept.
    pub wear_dir: String,
    /// The file whose changes are watched, and which reloads read.
    pub watched: String,
    /// What is done, in order.
    pub steps: Vec<StartStep>,
    pub watchdog_interval: Nanos,
}

/// The runner of a daemon that starts. While a rollback is active there is no
/// candidate for the last-known-good config: the operator's file holds what was
/// rolled back from.
pub open spec fn started(app: AppModel, f: StartFacts) -> RunnerModel {
    RunnerModel {
        coordinated: f.shared,
        generation: f.generation@,
        generation_id: 0,
        applied_revision: f.applied_revision@,
        started_web_port: f.web_port,
        started_web_bind: f.web_bind,
        generation_barrier_ack_timeout: f.generation.barrier_ack_timeout,
        lkg: lkg::TrackerModel {
            candidate: if app.rollback_active {
                None
            } else {
                lkg::armed(
                    lkg::opt_bytes(f.operator_bytes),
                    f.generation.lkg_enabled,
                    "boot"@,
                    f.now,
                )
            },
            defer_count: 0,
        },
        probe_failed_warned: false,
        rollback_active: app.rollback_active,
        rollback_status: app.rollback_status,
        rollback_clear: RollbackClear { pending: false, warned: false },
        stopping: false,
        force_reload_snapshot_timeout: app.force_reload_snapshot_timeout,
        captured: app.captured,
    }
}

/// How often the watchdog ticks: as it was set, else as the service manager asks
/// for, else by default.
pub open spec fn watchdog_period(set: Option<Nanos>, env: Option<Nanos>) -> Nanos {
    match (set, env) {
        (Some(t), _) => t,
        (None, Some(t)) => t,
        (None, None) => DEFAULT_WATCHDOG_INTERVAL,
    }
}

impl App {
    /// A daemon with a config that a look at it found usable.
    pub fn build(
        config_path: String,
        creds_path: String,
        state_dir: String,
        report: &ValidationReport,
    ) -> (res: Result<App, String>)
        ensures
            match start_failure(*report) {
                Some(detail) => res matches Err(e) && e@ == detail,
                None => res matches Ok(app) && app@ == plain_app(
                    config_path@,
                    creds_path@,
                    state_dir@,
                ),
            },
    {
        match validate_or_bail(report) {
            Err(e) => Err(e),
            Ok(()) => Ok(
                App {
                    operator_config_path: config_path.clone(),
                    config_path,
                    creds_path,
                    rollback_active: false,
                    rollback_status: None,
                    state_dir,
                    disable_ipc: false,
                    watchdog_interval: None,
                    force_reload_spawn_failure: false,
                    force_rebuild_old_spawn_failure: false,
                    force_reload_snapshot_timeout: false,
                    force_generation_barrier_timeout: false,
                    reload_lifecycle_capture: None,
                },
            ),
        }
    }

    /// Do not listen for local requests.
    pub fn disable_ipc(self) -> (res: App)
        ensures
            res@ == (AppModel { disable_ipc: true, ..self@ }),
    {
        let mut app = self;
        app.disable_ipc = true;
        app
    }

    /// Keep state elsewhere.
    pub fn with_state_dir(self, state_dir: String) -> (res: App)
        ensures
            res@ == (AppModel { state_dir: state_dir@, ..self@ }),
    {
        let mut app = self;
        app.state_dir = state_dir;
        app
    }

    /// Say what the boot decided. A rollback is active exactly where there is
    /// something to report about it.
    pub fn with_boot_source(
        self,
        operator_config_path: String,
        rollback_status: Option<String>,
        state_dir: String,
    ) -> (res: App)
        ensures
            res@ == (AppModel {
                operator_config_path: operator_config_path@,
                rollback_active: rollback_status is Some,
                rollback_status: text::opt_text(rollback_status),
                state_dir: state_dir@,
                ..self@
            }),
    {
        let mut app = self;
        app.operator_config_path = operator_config_path;
        app.rollback_active = rollback_status.is_some();
        app.rollback_status = rollback_status;
        app.state_dir = state_dir;
        app
    }

    /// Set how often the watchdog ticks.
    pub fn with_watchdog_interval(self, interval: Nanos) -> (res: App)
        ensures
            res@ == (AppModel { watchdog_interval: Some(interval), ..self@ }),
    {
        let mut app = self;
        app.watchdog_interval = Some(interval);
        app
    }

    /// Let the spawn of every new config fail.
    pub fn with_test_force_reload_spawn_failure(self) -> (res: App)
        ensures
            res@ == (AppModel { force_reload_spawn_failure: true, ..self@ }),
    {
        let mut app = self;
        app.force_reload_spawn_failure = true;
        app
    }

    /// Let every spawn of an old config fail.
    pub fn with_test_force_rebuild_old_spawn_failure(self) -> (res: App)
        ensures
            res@ == (AppModel { force_rebuild_old_spawn_failure: true, ..self@ }),
    {
        let mut app = self;
        app.force_rebuild_old_spawn_failure = true;
        app
    }

    /// Ask no engine for a snapshot before a reload.
    pub fn with_test_force_reload_snapshot_timeout(self) -> (res: App)
        ensures
            res@ == (AppModel { force_reload_snapshot_timeout: true, ..self@ }),
    {
        let mut app = self;
        app.force_reload_snapshot_timeout = true;
        app
    }

    /// Let every barrier time out.
    pub fn with_test_force_generation_barrier_timeout(self) -> (res: App)
        ensures
            res@ == (AppModel { force_generation_barrier_timeout: true, ..self@ }),
    {
        let mut app = self;
        app.force_generation_barrier_timeout = true;
        app
    }

    /// Record the stages of reloads.
    pub fn with_test_reload_lifecycle_capture(self, capture: ReloadLifecycleCapture) -> (res: App)
        ensures
            res@ == (AppModel { captured: Some(capture@), ..self@ }),
    {
        let mut app = self;
        app.reload_lifecycle_capture = Some(capture);
        app
    }

    /// Start as if out of a rollback.
    pub fn with_test_rollback_status(self, status: String, state_dir: String) -> (res: App)
        ensures
            res@ == (AppModel {
                rollback_active: true,
                rollback_status: Some(status@),
                state_dir: state_dir@,
                ..self@
            }),
    {
        let mut app = self;
        app.rollback_active = true;
        app.rollback_status = Some(status);
        app.state_dir = state_dir;
        app
    }

    /// The config that is read.
    pub fn config_path(&self) -> (res: &str)
        ensures
            res@ == self@.config_path,
    {
        self.config_path.as_str()
    }

    /// What a start comes to, once the first generation runs.
    pub fn start(self, facts: StartFacts) -> (res: StartPlan)
        ensures
            res.runner@ == started(self@, facts),
            res.wear_dir@ == boot_guard::joined(self@.state_dir, "wear"@),
            res.watched@ == self@.operator_config_path,
            res.steps@ == start_steps(self@, facts),
            res.watchdog_interval == watchdog_period(
                self@.watchdog_interval,
                facts.env_watchdog,
            ),
    {
        let watchdog_interval: Nanos = match self.watchdog_interval {
            Some(t) => t,
            None => match facts.env_watchdog {
                Some(t) => t,
                None => DEFAULT_WATCHDOG_INTERVAL,
            },
        };
        let candidate = if self.rollback_active {
            None
        } else {
            new_lkg_candidate(
                facts.operator_bytes,
                facts.generation.lkg_enabled,
                "boot",
                facts.now,
            )
        };
        let mut steps: Vec<StartStep> = Vec::new();
        steps.push(StartStep::TrackWear);
        if facts.web_allow_nonloopback {
            steps.push(StartStep::WarnNonloopback);
        }
        steps.push(StartStep::WarnHazards);
        steps.push(StartStep::WatchConfig);
        if !self.disable_ipc {
            steps.push(StartStep::ListenIpc);
        }
        if let Some(port) = facts.web_port {
            steps.push(StartStep::ServeWeb(SockAddr::new(facts.web_bind, port)));
        }
        steps.push(StartStep::Ready);
        steps.push(StartStep::Run);
        assert(steps@ =~= start_steps(self@, facts));
        let wear_dir = join_path(self.state_dir.as_str(), "wear");
        let barrier: Nanos = facts.generation.barrier_ack_timeout;
        let runner = Runner {
            coordinated: facts.shared,
            generation: facts.generation,
            generation_id: 0,
            applied_revision: facts.applied_revision,
            started_web_port: facts.web_port,
            started_web_bind: facts.web_bind,
            generation_barrier_ack_timeout: barrier,
            lkg: LkgTracker { candidate, defer_count: 0 },
            probe_failed_warned: false,
            rollback_active: self.rollback_active,
            rollback_status: self.rollback_status,
            rollback_clear: RollbackClear { pending: false, warned: false },
            stopping: false,
            force_reload_snapshot_timeout: self.force_reload_snapshot_timeout,
            reload_lifecycle_capture: self.reload_lifecycle_capture,
        };
        StartPlan {
            runner,
            wear_dir,
            watched: self.operator_config_path,
            steps,
            watchdog_interval,
        }
    }
}

/// A daemon that starts out of a rollback arms no candidate: what it rolled back
/// from cannot become last-known-good before a reload has succeeded.
pub proof fn law_rollback_boot_arms_no_candidate(app: AppModel, f: StartFacts)
    requires
        app.rollback_active,
    ensures
        started(app, f).lkg.candidate is None,
        started(app, f).rollback_active,
{
}

/// A daemon says that it is ready exactly once: after everything that listens has
/// been started, and right before the main loop, which comes last.
pub proof fn law_ready_is_told_once_and_last(app: AppModel, f: StartFacts)
    ensures
        ({
            let steps = start_steps(app, f);
            &&& steps.len() >= 2
            &&& steps.last() == StartStep::Run
            &&& forall|i: int|
                0 <= i < steps.len() ==> (#[trigger] steps[i] == StartStep::Ready <==> i
                    == steps.len() - 2)
        }),
{
}

// ── the main loop ────────────────────────────────────────────────────────

/// Something that the main loop waits for.
#[derive(Clone, Copy, PartialEq, Eq, Debug, Structural)]
pub enum LoopEvent {
    /// The daemon is stopping.
    Cancelled,
    Terminate,
    Interrupt,
    Hangup,
    /// The config file changed.
    ConfigChanged,
    /// A reload was asked for.
    ReloadRequested,
    WatchdogDue,
}

/// What the main loop does.
#[derive(Clone, Copy, PartialEq, Eq, Debug, Structural)]
pub enum LoopAction {
    /// Leave the loop; first tell everything to stop where `cancel` is set.
    Stop { cancel: bool },
    /// Ask for a reload.
    Notify(ReloadSource),
    /// Gather requests and answer them by one reload.
    RunBatch,
    /// Look after the watchdog.
    Tick,
}

/// What the main loop does with what happens.
pub open spec fn loop_action(e: LoopEvent) -> LoopAction {
    match e {
        LoopEvent::Cancelled => LoopAction::Stop { cancel: false },
        LoopEvent::Terminate => LoopAction::Stop { cancel: true },
        LoopEvent::Interrupt => LoopAction::Stop { cancel: true },
        LoopEvent::Hangup => LoopAction::Notify(ReloadSource::Signal),
        LoopEvent::ConfigChanged => LoopAction::Notify(ReloadSource::Watcher),
        LoopEvent::ReloadRequested => LoopAction::RunBatch,
        LoopEvent::WatchdogDue => LoopAction::Tick,
    }
}

/// What the main loop does with what happens.
pub fn run_loop(e: LoopEvent) -> (res: LoopAction)
    ensures
        res == loop_action(e),
{
    match e {
        LoopEvent::Cancelled => LoopAction::Stop { cancel: false },
        LoopEvent::Terminate => LoopAction::Stop { cancel: true },
        LoopEvent::Interrupt => LoopAction::Stop { cancel: true },
        LoopEvent::Hangup => LoopAction::Notify(ReloadSource::Signal),
        LoopEvent::ConfigChanged => LoopAction::Notify(ReloadSource::Watcher),
        LoopEvent::ReloadRequested => LoopAction::RunBatch,
        LoopEvent::WatchdogDue => LoopAction::Tick,
    }
}

// ── observing spawns ─────────────────────────────────────────────────────

/// The rollbacks that some generations were spawned with.
pub struct SpawnedRollbacks {
    pub rollbacks: Vec<Option<String>>,
}

impl View for SpawnedRollbacks {
    type V = Seq<Option<Seq<char>>>;

    open spec fn view(&self) -> Seq<Option<Seq<char>>> {
        self.rollbacks@.map_values(|r: Option<String>| text::opt_text(r))
    }
}

/// For each state directory that is observed, the rollbacks that its generations
/// were spawned with.
pub struct ReloadSpawnCaptures {
    pub by_dir: TextMap<SpawnedRollbacks>,
}

impl View for ReloadSpawnCaptures {
    type V = Map<Seq<char>, Seq<Option<Seq<char>>>>;

    open spec fn view(&self) -> Map<Seq<char>, Seq<Option<Seq<char>>>> {
        self.by_dir@
    }
}

impl Default for ReloadSpawnCaptures {
    fn default() -> (res: Self)
        ensures
            res@ == Map::<Seq<char>, Seq<Option<Seq<char>>>>::empty(),
    {
        ReloadSpawnCaptures { by_dir: TextMap::new() }
    }
}

/// Observe a state directory from now on.
pub fn begin_reload_spawn_rollback_capture_for_test(
    captures: &mut ReloadSpawnCaptures,
    state_dir: &str,
)
    ensures
        final(captures)@ == old(captures)@.insert(state_dir@, Seq::empty()),
{
    let none = SpawnedRollbacks { rollbacks: Vec::new() };
    assert(none@ =~= Seq::<Option<Seq<char>>>::empty());
    captures.by_dir.insert(state_dir.to_owned(), none);
}

fn copy_rollbacks(v: &Vec<Option<String>>) -> (out: Vec<Option<String>>)
    ensures
        out@.map_values(|r: Option<String>| text::opt_text(r)) == v@.map_values(
            |r: Option<String>| text::opt_text(r),
        ),
{
    let mut out: Vec<Option<String>> = Vec::new();
    let mut i: usize = 0;
    while i < v.len()
        invariant
            i <= v@.len(),
            out@.len() == i,
            forall|j: int|
                0 <= j < i ==> text::opt_text(#[trigger] out@[j]) == text::opt_text(v@[j]),
        decreases v@.len() - i,
    {
        match &v[i] {
            Some(s) => out.push(Some(s.clone())),
            None => out.push(None),
        }
        i = i + 1;
    }
    assert(out@.map_values(|r: Option<String>| text::opt_text(r)) =~= v@.map_values(
        |r: Option<String>| text::opt_text(r),
    ));
    out
}

/// What was observed of a state directory, which is observed no longer.
pub fn take_reload_spawn_rollback_capture_for_test(
    captures: &mut ReloadSpawnCaptures,
    state_dir: &str,
) -> (res: Vec<Option<String>>)
    requires
        old(captures)@.contains_key(state_dir@),
    ensures
        res@.map_values(|r: Option<String>| text::opt_text(r)) == old(captures)@[state_dir@],
        final(captures)@ == old(captures)@.remove(state_dir@),
{
    let out = match captures.by_dir.get(state_dir) {
        Some(seen) => copy_rollbacks(&seen.rollbacks),
        None => Vec::new(),
    };
    captures.by_dir.remove(state_dir);
    out
}

/// A generation was spawned for a state directory. Nothing is noted of one that
/// is not observed.
pub fn record_reload_spawn_rollback_for_test(
    captures: &mut ReloadSpawnCaptures,
    state_dir: &str,
    rollback: Option<&String>,
)
    ensures
        final(captures)@ == (if old(captures)@.contains_key(state_dir@) {
            old(captures)@.insert(
                state_dir@,
                old(captures)@[state_dir@].push(
                    match rollback {
                        Some(s) => Some(s@),
                        None => None,
                    },
                ),
            )
        } else {
            old(captures)@
        }),
{
    let seen = match captures.by_dir.get(state_dir) {
        Some(seen) => Some(copy_rollbacks(&seen.rollbacks)),
        None => None,
    };
    if let Some(mut seen) = seen {
        let ghost before = seen@;
        let ghost f = |r: Option<String>| text::opt_text(r);
        let added = match rollback {
            Some(s) => Some(s.clone()),
            None => None,
        };
        let ghost made = added;
        seen.push(added);
        assert(seen@.map_values(f) =~= before.map_values(f).push(f(made)));
        captures.by_dir.insert(state_dir.to_owned(), SpawnedRollbacks { rollbacks: seen });
    }
}

/// A daemon starts with the config and the revision that were found, as
/// generation zero, with nothing failed yet; the operator's bytes are a candidate
/// exactly if saving is on, they could be read and no rollback is in force.
pub proof fn law_daemon_starts_with_what_was_found(app: AppModel, f: StartFacts)
    ensures
        ({
            let r = started(app, f);
            &&& r.generation == f.generation@
            &&& r.generation_id == 0
            &&& r.applied_revision == f.applied_revision@
            &&& r.coordinated == f.shared
            &&& r.started_web_port == f.web_port
            &&& r.started_web_bind == f.web_bind
            &&& r.generation_barrier_ack_timeout == f.generation.barrier_ack_timeout
            &&& r.rollback_active == app.rollback_active
            &&& r.rollback_status == app.rollback_status
            &&& !r.rollback_clear.pending && !r.rollback_clear.warned
            &&& !r.stopping && !r.probe_failed_warned
            &&& r.lkg.defer_count == 0
            &&& r.lkg.candidate is Some <==> !app.rollback_active && f.generation.lkg_enabled
                && f.operator_bytes is Some
            &&& r.lkg.candidate matches Some(c) ==> c.bytes == f.operator_bytes->0@ && c.since
                == f.now && c.source == "boot"@
            &&& r.force_reload_snapshot_timeout == app.force_reload_snapshot_timeout
            &&& r.captured == app.captured
        }),
{
}

/// A start takes each step that it was told to, once: the listener for local
/// requests unless it is switched off, the web interface where it has a port, the
/// warning where it may be reached from elsewhere.
pub proof fn law_start_takes_the_steps_it_was_told_to(app: AppModel, f: StartFacts)
    ensures
        ({
            let s = start_steps(app, f);
            &&& s[0] == StartStep::TrackWear
            &&& s.contains(StartStep::WarnNonloopback) <==> f.web_allow_nonloopback
            &&& s.contains(StartStep::WarnHazards)
            &&& s.contains(StartStep::WatchConfig)
            &&& s.contains(StartStep::ListenIpc) <==> !app.disable_ipc
            &&& f.web_port matches Some(port) ==> s.contains(
                StartStep::ServeWeb(crate::coordination_claim::sock_addr(f.web_bind, port)),
            )
            &&& f.web_port is None ==> forall|i: int|
                0 <= i < s.len() ==> !((#[trigger] s[i]) is ServeWeb)
            &&& s.len() == 5 + (if f.web_allow_nonloopback { 1int } else { 0 }) + (
            if app.disable_ipc { 0int } else { 1 }) + (if f.web_port is Some { 1int } else { 0 })
        }),
{
    let s = start_steps(app, f);
    let a = if f.web_allow_nonloopback { 2int } else { 1 };
    let b = a + 2 + if app.disable_ipc { 0int } else { 1 };
    assert(s[a] == StartStep::WarnHazards);
    assert(s[a + 1] == StartStep::WatchConfig);
    if f.web_allow_nonloopback {
        assert(s[1] == StartStep::WarnNonloopback);
    }
    if !app.disable_ipc {
        assert(s[a + 2] == StartStep::ListenIpc);
    }
    match f.web_port {
        Some(port) => {
            assert(s[b] == StartStep::ServeWeb(
                crate::coordination_claim::sock_addr(f.web_bind, port),
            ));
        },
        None => {},
    }
}

/// The watchdog's period is the one that was set, else the one that the service
/// manager asks for, else half a minute.
pub proof fn law_watchdog_period_is_the_nearest_one_set(set: Option<Nanos>, env: Option<Nanos>)
    ensures
        set matches Some(t) ==> watchdog_period(set, env) == t,
        set is None ==> (env matches Some(t) ==> watchdog_period(set, env) == t),
        set is None && env is None ==> watchdog_period(set, env) == 30_000_000_000,
{
}

/// A start is refused exactly if the report is not clean; what could not be
/// loaded is the reason before any error.
pub proof fn law_start_needs_a_clean_report(r: ValidationReport)
    ensures
        start_failure(r) is None <==> r.load_error is None && r.errors@.len() == 0,
        report_ok(r) <==> start_failure(r) is None,
        r.load_error matches Some(e) ==> start_failure(r) == Some(e@),
{
}

/// A plain daemon reads one config file, has no rollback behind it, and nothing
/// is switched off or forced.
pub proof fn law_plain_daemon_has_no_past(
    config_path: Seq<char>,
    creds_path: Seq<char>,
    state_dir: Seq<char>,
)
    ensures
        ({
            let a = plain_app(config_path, creds_path, state_dir);
            &&& a.config_path == config_path
            &&& a.operator_config_path == config_path
            &&& a.creds_path == creds_path
            &&& a.state_dir == state_dir
            &&& !a.rollback_active && a.rollback_status is None
            &&& !a.disable_ipc && a.watchdog_interval is None
            &&& !a.force_reload_spawn_failure && !a.force_rebuild_old_spawn_failure
            &&& !a.force_reload_snapshot_timeout && !a.force_generation_barrier_timeout
            &&& a.captured is None
        }),
{
}

/// Whatever happens, the loop either stops, asks for a reload, runs one or ticks:
/// signals to end stop the daemon and everything in it, a cancelled daemon just
/// stops, and a hangup or an edited file asks for a reload under its own source.
pub proof fn law_loop_reacts_by_the_event(e: LoopEvent)
    ensures
        loop_action(e) is Stop <==> e is Cancelled || e is Terminate || e is Interrupt,
        loop_action(e) matches LoopAction::Stop { cancel } ==> cancel == (e !is Cancelled),
        loop_action(e) == LoopAction::Notify(ReloadSource::Signal) <==> e is Hangup,
        loop_action(e) == LoopAction::Notify(ReloadSource::Watcher) <==> e is ConfigChanged,
        loop_action(e) is RunBatch <==> e is ReloadRequested,
        loop_action(e) is Tick <==> e is WatchdogDue,
{
}

/// A report prints its warnings, then why the config could not be read, then what
/// is wrong with it, each on a line of its own, and says that all is well exactly
/// if nothing is wrong.
pub proof fn law_report_prints_line_by_line(
    r: ValidationReport,
    warnings: Seq<Warning>,
    w: Warning,
    errors: Seq<String>,
    e: String,
)
    ensures
        warning_lines(Seq::empty()).len() == 0,
        warning_lines(warnings.push(w)) == warning_lines(warnings) + ("warning ["@ + w.key_path@
            + "]: "@ + w.message@ + "\n"@),
        error_lines(Seq::empty()).len() == 0,
        error_lines(errors.push(e)) == error_lines(errors) + (e@ + "\n"@),
        ({
            let n = warning_lines(r.warnings@).len() as int;
            let printed = rendered(r);
            &&& printed.take(n) == warning_lines(r.warnings@)
            &&& r.load_error is None && r.errors@.len() == 0 ==> printed.skip(n)
                == "configuration OK\n"@
            &&& r.load_error is None && r.errors@.len() > 0 ==> printed.skip(n) == error_lines(
                r.errors@,
            )
            &&& r.load_error matches Some(why) ==> printed.skip(n) == why@ + "\n"@ + error_lines(
                r.errors@,
            )
        }),
{
    assert(warnings.push(w).drop_last() =~= warnings);
    assert(errors.push(e).drop_last() =~= errors);
    let n = warning_lines(r.warnings@).len() as int;
    let printed = rendered(r);
    assert(printed.take(n) =~= warning_lines(r.warnings@));
    if r.load_error is None && r.errors@.len() == 0 {
        assert(printed.skip(n) =~= "configuration OK\n"@);
    } else if r.load_error is None {
        assert(printed.skip(n) =~= error_lines(r.errors@));
    } else {
        assert(printed.skip(n) =~= r.load_error->0@ + "\n"@ + error_lines(r.errors@));
    }
}

/// A refusal names everything that is wrong, in order, parted by semicolons.
pub proof fn law_refusal_names_every_error(errors: Seq<String>, e: String)
    ensures
        semicolons(Seq::empty()).len() == 0,
        semicolons(seq![e]) == e@,
        errors.len() > 0 ==> semicolons(errors.push(e)) == semicolons(errors) + "; "@ + e@,
{
    assert(errors.push(e).drop_last() =~= errors);
}

/// An application is seen with each of its paths and switches as its own.
pub proof fn law_app_is_seen_whole(a: App)
    ensures
        a@.config_path == a.config_path@,
        a@.operator_config_path == a.operator_config_path@,
        a@.creds_path == a.creds_path@,
        a@.state_dir == a.state_dir@,
        a@.rollback_active == a.rollback_active && a@.disable_ipc == a.disable_ipc,
        a@.force_reload_spawn_failure == a.force_reload_spawn_failure,
        a@.force_rebuild_old_spawn_failure == a.force_rebuild_old_spawn_failure,
        a@.force_reload_snapshot_timeout == a.force_reload_snapshot_timeout,
        a@.force_generation_barrier_timeout == a.force_generation_barrier_timeout,
        a@.watchdog_interval == a.watchdog_interval,
{
}

/// A start that is refused for errors names each of them, in order, on a line of
/// its own.
pub proof fn law_refused_start_names_every_error(r: ValidationReport, errors: Seq<String>, e: String)
    ensures
        r.load_error is None && r.errors@.len() > 0 ==> start_failure(r) == Some(
            "startup validation failed:"@ + bulleted(r.errors@),
        ),
        bulleted(Seq::empty()).len() == 0,
        bulleted(errors.push(e)) == bulleted(errors) + ("\n  "@ + e@),
{
    assert(errors.push(e).drop_last() =~= errors);
}

} // verus!
