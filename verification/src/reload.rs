//! Replacing the running generation by one from a new config: what is done in
//! which order, what makes a reload fail, and what a failed reload leaves
//! behind.
//!
//! Every step takes what the step before came to and hands back the effects that
//! are to be carried out, in their order.

use vstd::prelude::*;
use vstd::string::StringExecFns;

use crate::clock;
use crate::clock::{after, Nanos};
use crate::coordination_claim::Ip;
use crate::lkg;
use crate::lkg::{new_lkg_candidate, reset_candidate_on_probe_failure, LkgStep, LkgTracker};
use crate::restore;
use crate::restore::{
    are_settled, blanking_displays, changed_dispatch_dark_displays, phase_of,
    removed_dark_displays, retained_dark_displays,
};
use crate::revision;
use crate::revision::RuntimeRevision;
use crate::seqs;
use crate::snapshot;
use crate::snapshot::StateSnapshot;
use crate::tables::TextMap;
use crate::text;
use crate::text::{holds_text, same_text};

verus! {

/// Why a reload that adds a first shared display is refused.
pub const FIRST_SHARED: &'static str =
    "E_CONFIG_INVALID: adding the first shared display requires daemon restart";

/// How long to wait between two looks at a display that is being blanked: 200
/// milliseconds.
pub const QUIESCE_POLL: u128 = 200_000_000;

// ── requests ─────────────────────────────────────────────────────────────

/// Who asked for a reload.
#[derive(Clone, Copy, PartialEq, Eq, Debug, Structural)]
pub enum ReloadSource {
    Control,
    Ipc,
    WebApply,
    Signal,
    Watcher,
}

/// A request for a reload. `waiter` stands for whoever waits for the receipt.
#[derive(Clone, Copy, PartialEq, Eq, Debug, Structural)]
pub struct ReloadRequest {
    pub request_id: u64,
    pub source: ReloadSource,
    pub waiter: Option<u64>,
}

/// Requests that are answered by one reload.
#[derive(PartialEq, Eq, Debug)]
pub struct ReloadBatch {
    pub request_ids: Vec<u64>,
    pub sources: Vec<ReloadSource>,
    pub waiters: Vec<u64>,
}

/// The model of a batch.
#[verifier::ext_equal]
pub struct BatchModel {
    pub request_ids: Seq<u64>,
    pub sources: Seq<ReloadSource>,
    pub waiters: Seq<u64>,
}

impl View for ReloadBatch {
    type V = BatchModel;

    open spec fn view(&self) -> BatchModel {
        BatchModel {
            request_ids: self.request_ids@,
            sources: self.sources@,
            waiters: self.waiters@,
        }
    }
}

/// A batch of no request.
pub open spec fn empty_batch() -> BatchModel {
    BatchModel { request_ids: Seq::empty(), sources: Seq::empty(), waiters: Seq::empty() }
}

/// A batch with one request more. A source that is there already is not added
/// again.
pub open spec fn batched(b: BatchModel, r: ReloadRequest) -> BatchModel {
    BatchModel {
        request_ids: b.request_ids.push(r.request_id),
        sources: if b.sources.contains(r.source) {
            b.sources
        } else {
            b.sources.push(r.source)
        },
        waiters: match r.waiter {
            Some(w) => b.waiters.push(w),
            None => b.waiters,
        },
    }
}

/// The batch of some requests.
pub open spec fn batch_of(requests: Seq<ReloadRequest>) -> BatchModel
    decreases requests.len(),
{
    if requests.len() == 0 {
        empty_batch()
    } else {
        batched(batch_of(requests.drop_last()), requests.last())
    }
}

fn holds_source(sources: &Vec<ReloadSource>, source: ReloadSource) -> (res: bool)
    ensures
        res == sources@.contains(source),
{
    let mut i: usize = 0;
    while i < sources.len()
        invariant
            i <= sources@.len(),
            forall|j: int| 0 <= j < i ==> sources@[j] != source,
        decreases sources@.len() - i,
    {
        if sources[i] == source {
            return true;
        }
        i = i + 1;
    }
    false
}

impl ReloadBatch {
    /// The batch of a first request.
    pub fn new(request: ReloadRequest) -> (res: Self)
        ensures
            res@ == batched(empty_batch(), request),
    {
        let mut batch = ReloadBatch {
            request_ids: Vec::new(),
            sources: Vec::new(),
            waiters: Vec::new(),
        };
        assert(batch@ =~= empty_batch());
        batch.push(request);
        batch
    }

    /// Add a request.
    pub fn push(&mut self, request: ReloadRequest)
        ensures
            final(self)@ == batched(old(self)@, request),
    {
        self.request_ids.push(request.request_id);
        if !holds_source(&self.sources, request.source) {
            self.sources.push(request.source);
        }
        if let Some(w) = request.waiter {
            self.waiters.push(w);
        }
    }
}

/// A batch keeps every request, in order, and names every source once.
pub proof fn law_batch_keeps_every_request(requests: Seq<ReloadRequest>)
    ensures
        batch_of(requests).request_ids == requests.map_values(|r: ReloadRequest| r.request_id),
        batch_of(requests).sources.no_duplicates(),
        forall|i: int|
            0 <= i < requests.len() ==> batch_of(requests).sources.contains(
                (#[trigger] requests[i]).source,
            ),
        forall|k: int|
            0 <= k < batch_of(requests).sources.len() ==> exists|i: int|
                0 <= i < requests.len() && (#[trigger] requests[i]).source == #[trigger] batch_of(
                    requests,
                ).sources[k],
    decreases requests.len(),
{
    let f = |r: ReloadRequest| r.request_id;
    if requests.len() == 0 {
        assert(batch_of(requests).request_ids =~= requests.map_values(f));
    } else {
        let front = requests.drop_last();
        let last = requests.last();
        law_batch_keeps_every_request(front);
        assert(requests.map_values(f) =~= front.map_values(f).push(last.request_id));
        let before = batch_of(front).sources;
        let all = batch_of(requests).sources;
        assert(requests[requests.len() - 1] == last);
        assert forall|i: int| 0 <= i < requests.len() implies all.contains(
            (#[trigger] requests[i]).source,
        ) by {
            if i < front.len() {
                assert(front[i] == requests[i]);
                let k = choose|k: int| 0 <= k < before.len() && before[k] == front[i].source;
                assert(all[k] == front[i].source);
            } else if before.contains(last.source) {
            } else {
                assert(all[all.len() - 1] == last.source);
            }
        }
        assert forall|k: int| 0 <= k < all.len() implies exists|i: int|
            0 <= i < requests.len() && (#[trigger] requests[i]).source == #[trigger] all[k] by {
            if k < before.len() {
                assert(all[k] == before[k]);
                let i = choose|i: int|
                    0 <= i < front.len() && (#[trigger] front[i]).source == before[k];
                assert(requests[i] == front[i]);
            } else {
                assert(requests[requests.len() - 1].source == all[k]);
            }
        }
    }
}

// ── outcomes and effects ─────────────────────────────────────────────────

/// What a reload came to.
#[derive(PartialEq, Eq, Debug)]
#[verifier::ext_equal]
pub enum ReloadOutcome<T> {
    Reloaded,
    Rejected(T),
}

impl View for ReloadOutcome<String> {
    type V = ReloadOutcome<Seq<char>>;

    open spec fn view(&self) -> ReloadOutcome<Seq<char>> {
        match *self {
            ReloadOutcome::Reloaded => ReloadOutcome::Reloaded,
            ReloadOutcome::Rejected(detail) => ReloadOutcome::Rejected(detail@),
        }
    }
}

/// A point of a reload at which the watchdog is pinged, so that no stretch of
/// work between two pings is unbounded.
#[derive(Clone, Copy, PartialEq, Eq, Debug, Structural)]
pub enum Boundary {
    AfterAssemble,
    AfterQuiesce,
    BeforeTeardown,
    RemovedDisplayWake,
    BeforeRebuildOldWakeFailure,
    BeforeRebuildOldSpawnFailure,
    ReloadEnd,
}

impl Boundary {
    /// The name under which a ping is logged.
    pub fn as_str(&self) -> (res: &'static str)
        ensures
            res@ == (match *self {
                Boundary::AfterAssemble => "after_assemble"@,
                Boundary::AfterQuiesce => "after_quiesce"@,
                Boundary::BeforeTeardown => "before_teardown"@,
                Boundary::RemovedDisplayWake => "removed_display_wake"@,
                Boundary::BeforeRebuildOldWakeFailure => "before_rebuild_old_wake_failure"@,
                Boundary::BeforeRebuildOldSpawnFailure => "before_rebuild_old_spawn_failure"@,
                Boundary::ReloadEnd => "reload_end"@,
            }),
    {
        match *self {
            Boundary::AfterAssemble => "after_assemble",
            Boundary::AfterQuiesce => "after_quiesce",
            Boundary::BeforeTeardown => "before_teardown",
            Boundary::RemovedDisplayWake => "removed_display_wake",
            Boundary::BeforeRebuildOldWakeFailure => "before_rebuild_old_wake_failure",
            Boundary::BeforeRebuildOldSpawnFailure => "before_rebuild_old_spawn_failure",
            Boundary::ReloadEnd => "reload_end",
        }
    }
}

/// A stage of a reload that is recorded for observers.
#[derive(Clone, Copy, PartialEq, Eq, Debug, Structural)]
pub enum LifecycleStage {
    SnapshotBypassed,
    RoutersPaused,
    InputsQuiesced,
    BarrierAcknowledged,
    EngineTornDown,
    RebuildOldStarted,
    RebuildOldFinished,
    OutcomeBroadcast,
}

/// The name of a stage.
pub open spec fn stage_name(s: LifecycleStage) -> Seq<char> {
    match s {
        LifecycleStage::SnapshotBypassed => "snapshot_bypassed"@,
        LifecycleStage::RoutersPaused => "routers_paused"@,
        LifecycleStage::InputsQuiesced => "inputs_quiesced"@,
        LifecycleStage::BarrierAcknowledged => "barrier_acknowledged"@,
        LifecycleStage::EngineTornDown => "engine_torn_down"@,
        LifecycleStage::RebuildOldStarted => "rebuild_old_started"@,
        LifecycleStage::RebuildOldFinished => "rebuild_old_finished"@,
        LifecycleStage::OutcomeBroadcast => "outcome_broadcast"@,
    }
}

impl LifecycleStage {
    /// The name of the stage.
    pub fn as_str(&self) -> (res: &'static str)
        ensures
            res@ == stage_name(*self),
    {
        match *self {
            LifecycleStage::SnapshotBypassed => "snapshot_bypassed",
            LifecycleStage::RoutersPaused => "routers_paused",
            LifecycleStage::InputsQuiesced => "inputs_quiesced",
            LifecycleStage::BarrierAcknowledged => "barrier_acknowledged",
            LifecycleStage::EngineTornDown => "engine_torn_down",
            LifecycleStage::RebuildOldStarted => "rebuild_old_started",
            LifecycleStage::RebuildOldFinished => "rebuild_old_finished",
            LifecycleStage::OutcomeBroadcast => "outcome_broadcast",
        }
    }
}

/// The stages that reloads went through. There is one log of them, so a capture
/// cannot be copied.
#[derive(Debug)]
pub struct ReloadLifecycleCapture {
    recorded: Vec<&'static str>,
}

impl View for ReloadLifecycleCapture {
    type V = Seq<Seq<char>>;

    closed spec fn view(&self) -> Seq<Seq<char>> {
        self.recorded@.map_values(|s: &'static str| s@)
    }
}

impl Default for ReloadLifecycleCapture {
    fn default() -> (res: Self)
        ensures
            res@ == Seq::<Seq<char>>::empty(),
    {
        ReloadLifecycleCapture::new()
    }
}

impl ReloadLifecycleCapture {
    /// A capture of nothing.
    pub fn new() -> (res: Self)
        ensures
            res@ == Seq::<Seq<char>>::empty(),
    {
        let res = ReloadLifecycleCapture { recorded: Vec::new() };
        assert(res@ =~= Seq::<Seq<char>>::empty());
        res
    }

    /// Add a stage.
    pub fn record(&mut self, stage: &'static str)
        ensures
            final(self)@ == old(self)@.push(stage@),
    {
        let ghost before = self@;
        self.recorded.push(stage);
        assert(self@ =~= before.push(stage@));
    }

    /// The stages, in the order in which they were added.
    pub fn stages(&self) -> (out: Vec<&'static str>)
        ensures
            out@.map_values(|s: &'static str| s@) == self@,
    {
        let mut out: Vec<&'static str> = Vec::new();
        let mut i: usize = 0;
        while i < self.recorded.len()
            invariant
                i <= self.recorded@.len(),
                out@ == self.recorded@.take(i as int),
            decreases self.recorded@.len() - i,
        {
            out.push(self.recorded[i]);
            proof {
                seqs::lemma_take_step(self.recorded@, i as int);
            }
            i = i + 1;
        }
        proof {
            seqs::lemma_take_all(self.recorded@);
        }
        out
    }
}

/// What a generation is spawned with.
#[derive(PartialEq, Eq, Debug)]
#[verifier::ext_equal]
pub struct SpawnPlan<T> {
    pub generation: u64,
    /// What the new engine reports as pending.
    pub pending: Option<T>,
    /// The rollback that the new engine reports.
    pub rollback: Option<T>,
    /// Whether it runs the new config. A generation of the new config takes over
    /// nothing that the change of config has made meaningless; one of the old
    /// config takes over everything.
    pub new_config: bool,
}

impl View for SpawnPlan<String> {
    type V = SpawnPlan<Seq<char>>;

    open spec fn view(&self) -> SpawnPlan<Seq<char>> {
        SpawnPlan {
            generation: self.generation,
            pending: text::opt_text(self.pending),
            rollback: text::opt_text(self.rollback),
            new_config: self.new_config,
        }
    }
}

/// Something that a reload does.
#[derive(PartialEq, Eq, Debug)]
#[verifier::ext_equal]
pub enum Effect<T> {
    /// Tell the current engine what is pending.
    SetPending(Option<T>),
    /// Tell the coordination which displays are shared now.
    ReconcileShared,
    Ping(Boundary),
    /// Note that the web listener stays where it is.
    NoteWebBindIgnored,
    /// Show no executor to whoever looks for one.
    EmptyExecutors,
    PauseRouters,
    Record(LifecycleStage),
    QuiesceInputs,
    AwaitBarrier(Nanos),
    /// Stop the daemon.
    CancelRoot,
    EmitDrained(u64),
    Teardown,
    Spawn(SpawnPlan<T>),
    /// Make the spawned generation the current one.
    Install,
    EmitStarted(u64),
    /// Clear the persisted rollback.
    ClearRollbackState,
    WarnHazards,
    DefensiveWake(T),
    PublishConfig,
    Broadcast(ReloadOutcome<T>),
}

impl View for Effect<String> {
    type V = Effect<Seq<char>>;

    open spec fn view(&self) -> Effect<Seq<char>> {
        match *self {
            Effect::SetPending(p) => Effect::SetPending(text::opt_text(p)),
            Effect::ReconcileShared => Effect::ReconcileShared,
            Effect::Ping(b) => Effect::Ping(b),
            Effect::NoteWebBindIgnored => Effect::NoteWebBindIgnored,
            Effect::EmptyExecutors => Effect::EmptyExecutors,
            Effect::PauseRouters => Effect::PauseRouters,
            Effect::Record(s) => Effect::Record(s),
            Effect::QuiesceInputs => Effect::QuiesceInputs,
            Effect::AwaitBarrier(t) => Effect::AwaitBarrier(t),
            Effect::CancelRoot => Effect::CancelRoot,
            Effect::EmitDrained(g) => Effect::EmitDrained(g),
            Effect::Teardown => Effect::Teardown,
            Effect::Spawn(p) => Effect::Spawn(p@),
            Effect::Install => Effect::Install,
            Effect::EmitStarted(g) => Effect::EmitStarted(g),
            Effect::ClearRollbackState => Effect::ClearRollbackState,
            Effect::WarnHazards => Effect::WarnHazards,
            Effect::DefensiveWake(d) => Effect::DefensiveWake(d@),
            Effect::PublishConfig => Effect::PublishConfig,
            Effect::Broadcast(o) => Effect::Broadcast(o@),
        }
    }
}

/// The models of some effects.
pub open spec fn effect_models(v: Seq<Effect<String>>) -> Seq<Effect<Seq<char>>> {
    v.map_values(|e: Effect<String>| e@)
}

/// What a requester is told.
#[derive(PartialEq, Eq, Debug)]
pub struct ReloadReceipt {
    pub request_ids: Vec<u64>,
    pub sources: Vec<ReloadSource>,
    pub requested_revision: RuntimeRevision,
    pub applied_revision: RuntimeRevision,
    pub generation: u64,
    pub outcome: ReloadOutcome<String>,
    pub coalesced: bool,
}

/// The model of a receipt.
#[verifier::ext_equal]
pub struct ReceiptModel {
    pub request_ids: Seq<u64>,
    pub sources: Seq<ReloadSource>,
    pub requested_revision: revision::RevisionModel,
    pub applied_revision: revision::RevisionModel,
    pub generation: u64,
    pub outcome: ReloadOutcome<Seq<char>>,
    pub coalesced: bool,
}

impl View for ReloadReceipt {
    type V = ReceiptModel;

    open spec fn view(&self) -> ReceiptModel {
        ReceiptModel {
            request_ids: self.request_ids@,
            sources: self.sources@,
            requested_revision: self.requested_revision@,
            applied_revision: self.applied_revision@,
            generation: self.generation,
            outcome: self.outcome@,
            coalesced: self.coalesced,
        }
    }
}

/// The requests that a reload answers, and the revision that it is to apply.
pub struct ReloadTicket {
    pub request_ids: Vec<u64>,
    pub sources: Vec<ReloadSource>,
    pub requested: RuntimeRevision,
}

/// The model of a ticket.
#[verifier::ext_equal]
pub struct TicketModel {
    pub request_ids: Seq<u64>,
    pub sources: Seq<ReloadSource>,
    pub requested: revision::RevisionModel,
}

impl View for ReloadTicket {
    type V = TicketModel;

    open spec fn view(&self) -> TicketModel {
        TicketModel {
            request_ids: self.request_ids@,
            sources: self.sources@,
            requested: self.requested@,
        }
    }
}

/// The ticket of a batch.
pub open spec fn ticket_of(b: BatchModel, requested: revision::RevisionModel) -> TicketModel {
    TicketModel { request_ids: b.request_ids, sources: b.sources, requested }
}

/// What a requester is told once the runner is as it is.
pub open spec fn receipt_of(
    r: RunnerModel,
    t: TicketModel,
    outcome: ReloadOutcome<Seq<char>>,
    coalesced: bool,
) -> ReceiptModel {
    ReceiptModel {
        request_ids: t.request_ids,
        sources: t.sources,
        requested_revision: t.requested,
        applied_revision: r.applied_revision,
        generation: r.generation_id,
        outcome,
        coalesced,
    }
}

// ── the runner ───────────────────────────────────────────────────────────

/// What a reload needs to know of the config of a generation.
pub struct GenerationConfig {
    /// The displays that have an executor.
    pub executors: Vec<String>,
    /// For each display, a text that two configs share exactly when they command
    /// the display alike.
    pub dispatch: TextMap<String>,
    /// For each sensor, a text that two configs share exactly when they set the
    /// sensor up alike.
    pub sensors: TextMap<String>,
    pub barrier_ack_timeout: Nanos,
    pub stability_window: Nanos,
    pub reload_debounce: Nanos,
    pub lkg_enabled: bool,
}

/// The model of a generation's config.
#[verifier::ext_equal]
pub struct GenerationModel {
    pub executors: Seq<Seq<char>>,
    pub dispatch: Map<Seq<char>, Seq<char>>,
    pub sensors: Map<Seq<char>, Seq<char>>,
    pub barrier_ack_timeout: Nanos,
    pub stability_window: Nanos,
    pub reload_debounce: Nanos,
    pub lkg_enabled: bool,
}

impl View for GenerationConfig {
    type V = GenerationModel;

    open spec fn view(&self) -> GenerationModel {
        GenerationModel {
            executors: text::texts(self.executors@),
            dispatch: self.dispatch@,
            sensors: self.sensors@,
            barrier_ack_timeout: self.barrier_ack_timeout,
            stability_window: self.stability_window,
            reload_debounce: self.reload_debounce,
            lkg_enabled: self.lkg_enabled,
        }
    }
}

/// A config that was validated and assembled.
pub struct NextGeneration {
    pub config: GenerationConfig,
    pub shared: Vec<String>,
    /// The displays that a rule drives.
    pub ruled: Vec<String>,
    pub web_port: Option<u16>,
    pub web_bind: Ip,
}

/// Whether a rollback that is over still stands in the persisted state, and
/// whether a failure to clear it was reported.
#[derive(Clone, Copy, PartialEq, Eq, Debug, Structural)]
pub struct RollbackClear {
    pub pending: bool,
    pub warned: bool,
}

/// What a try to clear the persisted rollback leaves, and whether its failure is
/// to be reported.
pub open spec fn clear_tried(c: RollbackClear, ok: bool) -> (RollbackClear, bool) {
    if ok {
        (RollbackClear { pending: false, warned: false }, false)
    } else {
        (RollbackClear { pending: true, warned: true }, !c.warned)
    }
}

/// The daemon as far as reloads concern it.
pub struct Runner {
    /// Whether this instance coordinates with others.
    pub coordinated: bool,
    pub generation: GenerationConfig,
    pub generation_id: u64,
    pub applied_revision: RuntimeRevision,
    /// Where the web listener was started.
    pub started_web_port: Option<u16>,
    pub started_web_bind: Ip,
    pub generation_barrier_ack_timeout: Nanos,
    pub lkg: LkgTracker,
    pub probe_failed_warned: bool,
    /// Whether the daemon was started from the last-known-good config.
    pub rollback_active: bool,
    /// What is reported about that.
    pub rollback_status: Option<String>,
    pub rollback_clear: RollbackClear,
    /// Whether the daemon is stopping.
    pub stopping: bool,
    pub force_reload_snapshot_timeout: bool,
    pub reload_lifecycle_capture: Option<ReloadLifecycleCapture>,
}

/// The model of the runner.
#[verifier::ext_equal]
pub struct RunnerModel {
    pub coordinated: bool,
    pub generation: GenerationModel,
    pub generation_id: u64,
    pub applied_revision: revision::RevisionModel,
    pub started_web_port: Option<u16>,
    pub started_web_bind: Ip,
    pub generation_barrier_ack_timeout: Nanos,
    pub lkg: lkg::TrackerModel,
    pub probe_failed_warned: bool,
    pub rollback_active: bool,
    pub rollback_status: Option<Seq<char>>,
    pub rollback_clear: RollbackClear,
    pub stopping: bool,
    pub force_reload_snapshot_timeout: bool,
    pub captured: Option<Seq<Seq<char>>>,
}

impl View for Runner {
    type V = RunnerModel;

    open spec fn view(&self) -> RunnerModel {
        RunnerModel {
            coordinated: self.coordinated,
            generation: self.generation@,
            generation_id: self.generation_id,
            applied_revision: self.applied_revision@,
            started_web_port: self.started_web_port,
            started_web_bind: self.started_web_bind,
            generation_barrier_ack_timeout: self.generation_barrier_ack_timeout,
            lkg: self.lkg@,
            probe_failed_warned: self.probe_failed_warned,
            rollback_active: self.rollback_active,
            rollback_status: text::opt_text(self.rollback_status),
            rollback_clear: self.rollback_clear,
            stopping: self.stopping,
            force_reload_snapshot_timeout: self.force_reload_snapshot_timeout,
            captured: match self.reload_lifecycle_capture {
                Some(c) => Some(c@),
                None => None,
            },
        }
    }
}

fn copy_opt(s: &Option<String>) -> (res: Option<String>)
    ensures
        text::opt_text(res) == text::opt_text(*s),
{
    match s {
        Some(s) => Some(s.clone()),
        None => None,
    }
}

// ── the start of a reload ────────────────────────────────────────────────

/// A reload that has not touched the running generation yet: the displays in
/// `need` are being waited for until `deadline`.
pub struct Quiescing {
    pub ticket: ReloadTicket,
    pub next: NextGeneration,
    pub snapshot: Option<StateSnapshot>,
    pub need: Vec<String>,
    pub deadline: Nanos,
}

/// What the start of a reload came to.
pub enum ReloadStart {
    /// It failed; the running generation was not touched.
    Rejected(ReloadReceipt),
    Quiesce(Quiescing),
}

/// The effects of a reload that failed before the running generation was
/// touched.
pub open spec fn refused_effects(detail: Seq<char>) -> Seq<Effect<Seq<char>>> {
    seq![
        Effect::SetPending(Some(detail)),
        Effect::Broadcast(ReloadOutcome::Rejected(detail)),
    ]
}

/// Why a reload fails before the running generation is touched, if it does.
pub open spec fn refusal(r: RunnerModel, next: Result<NextGeneration, String>) -> Option<
    Seq<char>,
> {
    match next {
        Err(detail) => Some(detail@),
        Ok(n) => if !r.coordinated && n.shared@.len() > 0 {
            Some(FIRST_SHARED@)
        } else {
            None
        },
    }
}

/// The effects of a reload that goes on.
pub open spec fn accepted_effects(r: RunnerModel) -> Seq<Effect<Seq<char>>> {
    if r.coordinated {
        seq![Effect::ReconcileShared, Effect::Ping(Boundary::AfterAssemble)]
    } else {
        seq![Effect::Ping(Boundary::AfterAssemble)]
    }
}

impl Runner {
    /// Whether the engine is asked for a snapshot before a reload. Where it is
    /// not, the stage to record is [`LifecycleStage::SnapshotBypassed`].
    pub fn wants_snapshot(&self) -> (res: bool)
        ensures
            res == !self@.force_reload_snapshot_timeout,
    {
        !self.force_reload_snapshot_timeout
    }

    /// Start the reload of a ticket. `next` is the new config, validated and assembled, or why
    /// it could not be; `snapshot` is what the running engine reported, where it
    /// did.
    pub fn reload(
        &self,
        ticket: ReloadTicket,
        next: Result<NextGeneration, String>,
        snapshot: Option<StateSnapshot>,
        now: Nanos,
        command_timeout: Nanos,
    ) -> (res: (ReloadStart, Vec<Effect<String>>))
        ensures
            match refusal(self@, next) {
                Some(detail) => (res.0 matches ReloadStart::Rejected(receipt) && receipt@
                    == receipt_of(self@, ticket@, ReloadOutcome::Rejected(detail), false))
                    && effect_models(res.1@) == refused_effects(detail),
                None => (res.0 matches ReloadStart::Quiesce(q) && q.ticket == ticket && Ok::<NextGeneration, String>(
                    q.next,
                ) == next && q.snapshot == snapshot && text::texts(q.need@) == restore::pick(
                    snapshot,
                    restore::is_blanking(text::texts(q.next.ruled@)),
                ) && q.deadline == clock::later(now, command_timeout)) && effect_models(res.1@)
                    == accepted_effects(self@),
            },
    {
        let mut effects: Vec<Effect<String>> = Vec::new();
        let rejected = match &next {
            Err(detail) => Some(detail.clone()),
            Ok(n) => if !self.coordinated && n.shared.len() > 0 {
                Some(FIRST_SHARED.to_owned())
            } else {
                None
            },
        };
        match rejected {
            Some(detail) => {
                effects.push(Effect::SetPending(Some(detail.clone())));
                effects.push(Effect::Broadcast(ReloadOutcome::Rejected(detail.clone())));
                assert(effect_models(effects@) =~= refused_effects(detail@));
                (ReloadStart::Rejected(self.rejection(ticket, detail)), effects)
            },
            None => {
                if self.coordinated {
                    effects.push(Effect::ReconcileShared);
                }
                effects.push(Effect::Ping(Boundary::AfterAssemble));
                assert(effect_models(effects@) =~= accepted_effects(self@));
                match next {
                    Ok(next) => {
                        let need = blanking_displays(&snapshot, &next.ruled);
                        let deadline = after(now, command_timeout);
                        (
                            ReloadStart::Quiesce(
                                Quiescing { ticket, next, snapshot, need, deadline },
                            ),
                            effects,
                        )
                    },
                    Err(detail) => (
                        ReloadStart::Rejected(self.rejection(ticket, detail)),
                        effects,
                    ),
                }
            },
        }
    }
}

impl Quiescing {
    /// Whether the wait is over: nothing is waited for, everything is settled,
    /// or the deadline has passed.
    pub fn done(&self, now: Nanos) -> (res: bool)
        ensures
            res == (self.need@.len() == 0 || restore::all_settled(
                self.snapshot,
                text::texts(self.need@),
            ) || now >= self.deadline),
    {
        self.need.len() == 0 || are_settled(&self.snapshot, &self.need) || now >= self.deadline
    }

    /// The engine was asked again. Where it did not answer, the last answer
    /// stands.
    pub fn observe(&mut self, snapshot: Option<StateSnapshot>)
        ensures
            final(self).snapshot == (if snapshot is Some {
                snapshot
            } else {
                old(self).snapshot
            }),
            final(self).ticket == old(self).ticket,
            final(self).next == old(self).next,
            final(self).need == old(self).need,
            final(self).deadline == old(self).deadline,
    {
        if let Some(s) = snapshot {
            self.snapshot = Some(s);
        }
    }

    /// How many of the displays waited for are still being blanked.
    pub fn stuck_count(&self) -> (n: usize)
        ensures
            n == text::texts(self.need@).filter(still_blanking(self.snapshot)).len(),
    {
        let ghost names = text::texts(self.need@);
        let ghost p = still_blanking(self.snapshot);
        let mut n: usize = 0;
        let mut i: usize = 0;
        proof {
            seqs::lemma_take_none(names, p);
        }
        while i < self.need.len()
            invariant
                i <= self.need@.len(),
                n <= i,
                names == text::texts(self.need@),
                p == still_blanking(self.snapshot),
                n == names.take(i as int).filter(p).len(),
            decreases self.need@.len() - i,
        {
            proof {
                assert(names[i as int] == self.need@[i as int]@);
                seqs::lemma_filter_step(names, i as int, p);
            }
            let stuck = match &self.snapshot {
                Some(s) => match phase_of(&s.displays, self.need[i].as_str()) {
                    Some(phase) => same_text(phase.as_str(), "blanking"),
                    None => false,
                },
                None => false,
            };
            if stuck {
                n = n + 1;
            }
            i = i + 1;
        }
        proof {
            seqs::lemma_take_all(names);
        }
        n
    }
}

/// Whether a display of a snapshot is being blanked.
pub open spec fn still_blanking(snapshot: Option<StateSnapshot>) -> spec_fn(Seq<char>) -> bool {
    |id: Seq<char>|
        match snapshot {
            Some(s) => restore::phase_in(s.displays@, id) == Some("blanking"@),
            None => false,
        }
}

// ── replacing the generation ─────────────────────────────────────────────

/// A reload that is replacing the running generation.
pub struct Replacing {
    pub ticket: ReloadTicket,
    pub next: NextGeneration,
    pub snapshot: Option<StateSnapshot>,
    /// The displays that must be woken through their old executors.
    pub wake: Vec<String>,
    /// How many of them have been seen to.
    pub woken: usize,
    /// The displays that are woken once the next generation runs.
    pub wake_after: Vec<String>,
}

/// The displays that must be woken before the next generation starts: those
/// that are gone, and those that are commanded differently from now on.
pub open spec fn wakes_before(
    snapshot: Option<StateSnapshot>,
    before: GenerationModel,
    after: GenerationModel,
    ruled: Seq<Seq<char>>,
) -> Seq<Seq<char>> {
    restore::pick(snapshot, restore::is_removed(after.executors)) + restore::pick(
        snapshot,
        restore::is_changed(before.dispatch, after.dispatch, ruled),
    )
}

/// The displays that are woken once the next generation runs: those that a rule
/// drives, which start anew, and those still being blanked that none drives.
pub open spec fn wakes_after(
    snapshot: Option<StateSnapshot>,
    after: GenerationModel,
    ruled: Seq<Seq<char>>,
) -> Seq<Seq<char>> {
    restore::pick(snapshot, restore::is_retained(after.executors, ruled)) + restore::pick(
        snapshot,
        restore::is_blanking(ruled),
    )
}

/// The effects up to the barrier.
pub open spec fn replacing_effects(web_changed: bool, barrier: Nanos) -> Seq<Effect<Seq<char>>> {
    (if web_changed {
        seq![Effect::Ping(Boundary::AfterQuiesce), Effect::NoteWebBindIgnored]
    } else {
        seq![Effect::Ping(Boundary::AfterQuiesce)]
    }) + seq![
        Effect::EmptyExecutors,
        Effect::Ping(Boundary::BeforeTeardown),
        Effect::PauseRouters,
        Effect::Record(LifecycleStage::RoutersPaused),
        Effect::QuiesceInputs,
        Effect::Record(LifecycleStage::InputsQuiesced),
        Effect::AwaitBarrier(barrier),
    ]
}

/// What is known of the generation barrier.
#[derive(Clone, Copy, PartialEq, Eq, Debug, Structural)]
pub enum BarrierEvent {
    Acknowledged,
    /// The engine took no message.
    Closed,
    /// The engine went away without an answer.
    Dropped,
    TimedOut,
}

/// What is wrong with a barrier, if anything.
pub open spec fn barrier_failure(e: BarrierEvent) -> Option<Seq<char>> {
    match e {
        BarrierEvent::Acknowledged => None,
        BarrierEvent::Closed => Some(
            "old engine closed before accepting its generation barrier"@,
        ),
        BarrierEvent::Dropped => Some(
            "old engine exited before acknowledging its generation barrier"@,
        ),
        BarrierEvent::TimedOut => Some(
            "old engine did not acknowledge its generation barrier before timeout"@,
        ),
    }
}

/// What came of the generation barrier.
pub fn await_generation_barrier(e: BarrierEvent) -> (res: Result<(), &'static str>)
    ensures
        match barrier_failure(e) {
            None => res is Ok,
            Some(detail) => res matches Err(d) && d@ == detail,
        },
{
    match e {
        BarrierEvent::Acknowledged => Ok(()),
        BarrierEvent::Closed => Err("old engine closed before accepting its generation barrier"),
        BarrierEvent::Dropped => Err(
            "old engine exited before acknowledging its generation barrier",
        ),
        BarrierEvent::TimedOut => Err(
            "old engine did not acknowledge its generation barrier before timeout",
        ),
    }
}

/// The effects of a barrier that was acknowledged.
pub open spec fn drained_effects(generation: u64) -> Seq<Effect<Seq<char>>> {
    seq![
        Effect::Record(LifecycleStage::BarrierAcknowledged),
        Effect::EmitDrained(generation),
        Effect::Teardown,
        Effect::Record(LifecycleStage::EngineTornDown),
    ]
}

/// The effects of a barrier that failed: the routes stay paused, so the daemon
/// stops.
pub open spec fn undrained_effects(detail: Seq<char>) -> Seq<Effect<Seq<char>>> {
    seq![Effect::CancelRoot, Effect::Broadcast(ReloadOutcome::Rejected(detail))]
}

/// The runner and the effects after the barrier.
pub open spec fn barrier_passed(r: RunnerModel, e: BarrierEvent) -> (
    RunnerModel,
    Seq<Effect<Seq<char>>>,
) {
    match barrier_failure(e) {
        None => (r, drained_effects(r.generation_id)),
        Some(detail) => (RunnerModel { stopping: true, ..r }, undrained_effects(detail)),
    }
}

fn joined(mut first: Vec<String>, second: Vec<String>) -> (out: Vec<String>)
    ensures
        text::texts(out@) == text::texts(first@) + text::texts(second@),
{
    let ghost wanted = text::texts(first@) + text::texts(second@);
    let mut second = second;
    first.append(&mut second);
    assert(text::texts(first@) =~= wanted);
    first
}

impl Quiescing {
    /// Go on to replace the running generation. From here on the new config says
    /// how long its barrier may take.
    pub fn replace(self, runner: &mut Runner) -> (res: (Replacing, Vec<Effect<String>>))
        ensures
            final(runner)@ == (RunnerModel {
                generation_barrier_ack_timeout: self.next.config.barrier_ack_timeout,
                ..old(runner)@
            }),
            res.0.ticket == self.ticket,
            res.0.next == self.next,
            res.0.snapshot == self.snapshot,
            res.0.woken == 0,
            text::texts(res.0.wake@) == wakes_before(
                self.snapshot,
                old(runner)@.generation,
                self.next.config@,
                text::texts(self.next.ruled@),
            ),
            text::texts(res.0.wake_after@) == wakes_after(
                self.snapshot,
                self.next.config@,
                text::texts(self.next.ruled@),
            ),
            effect_models(res.1@) == replacing_effects(
                self.next.web_port != old(runner)@.started_web_port || self.next.web_bind != old(
                    runner,
                )@.started_web_bind,
                self.next.config.barrier_ack_timeout,
            ),
    {
        let removed = removed_dark_displays(&self.snapshot, &self.next.config.executors);
        let changed = changed_dispatch_dark_displays(
            &self.snapshot,
            &runner.generation.dispatch,
            &self.next.config.dispatch,
            &self.next.ruled,
        );
        let retained = retained_dark_displays(
            &self.snapshot,
            &self.next.config.executors,
            &self.next.ruled,
        );
        let stuck = blanking_displays(&self.snapshot, &self.next.ruled);
        let wake = joined(removed, changed);
        let wake_after = joined(retained, stuck);
        let same_port = match (self.next.web_port, runner.started_web_port) {
            (Some(a), Some(b)) => a == b,
            (None, None) => true,
            _ => false,
        };
        let web_changed = !same_port || self.next.web_bind != runner.started_web_bind;
        let barrier: Nanos = self.next.config.barrier_ack_timeout;
        runner.generation_barrier_ack_timeout = barrier;
        let mut effects: Vec<Effect<String>> = Vec::new();
        effects.push(Effect::Ping(Boundary::AfterQuiesce));
        if web_changed {
            effects.push(Effect::NoteWebBindIgnored);
        }
        effects.push(Effect::EmptyExecutors);
        effects.push(Effect::Ping(Boundary::BeforeTeardown));
        effects.push(Effect::PauseRouters);
        effects.push(Effect::Record(LifecycleStage::RoutersPaused));
        effects.push(Effect::QuiesceInputs);
        effects.push(Effect::Record(LifecycleStage::InputsQuiesced));
        effects.push(Effect::AwaitBarrier(barrier));
        assert(effect_models(effects@) =~= replacing_effects(web_changed, barrier));
        (
            Replacing {
                ticket: self.ticket,
                next: self.next,
                snapshot: self.snapshot,
                wake,
                woken: 0,
                wake_after,
            },
            effects,
        )
    }
}

impl Runner {
    /// The barrier was passed, or it failed and the reload with it.
    pub fn barrier_finished(&mut self, replacing: Replacing, e: BarrierEvent) -> (res: (
        Result<Replacing, ReloadReceipt>,
        Vec<Effect<String>>,
    ))
        ensures
            (final(self)@, effect_models(res.1@)) == barrier_passed(old(self)@, e),
            match barrier_failure(e) {
                None => res.0 == Ok::<Replacing, ReloadReceipt>(replacing),
                Some(detail) => res.0 matches Err(receipt) && receipt@ == receipt_of(
                    final(self)@,
                    replacing.ticket@,
                    ReloadOutcome::Rejected(detail),
                    false,
                ),
            },
    {
        let mut effects: Vec<Effect<String>> = Vec::new();
        match await_generation_barrier(e) {
            Ok(()) => {
                effects.push(Effect::Record(LifecycleStage::BarrierAcknowledged));
                effects.push(Effect::EmitDrained(self.generation_id));
                effects.push(Effect::Teardown);
                effects.push(Effect::Record(LifecycleStage::EngineTornDown));
                assert(effect_models(effects@) =~= drained_effects(self.generation_id));
                (Ok(replacing), effects)
            },
            Err(detail) => {
                self.stopping = true;
                let told: String = detail.to_owned();
                effects.push(Effect::CancelRoot);
                effects.push(Effect::Broadcast(ReloadOutcome::Rejected(told.clone())));
                assert(effect_models(effects@) =~= undrained_effects(detail@));
                (Err(self.rejection(replacing.ticket, told)), effects)
            },
        }
    }
}

// ── wakes through the old executors ──────────────────────────────────────

/// What came of a wake through an old executor.
pub enum WakeResult {
    /// The display had no executor.
    NoExecutor,
    Woken,
    Failed(String),
}

/// What is reported where a wake failed.
pub open spec fn wake_failure(display: Seq<char>, error: Seq<char>) -> Seq<char> {
    "removed display '"@ + display + "' failed verified wake: "@ + error
}

/// What the old config is spawned with again: the engine reports what failed,
/// and the rollback that it reported before, if any.
pub open spec fn rebuild_plan(r: RunnerModel, detail: Seq<char>) -> SpawnPlan<Seq<char>> {
    SpawnPlan {
        generation: r.generation_id,
        pending: Some(detail),
        rollback: r.rollback_status,
        new_config: false,
    }
}

/// The effects of a wake, and the failure where it failed.
pub open spec fn wake_seen(r: RunnerModel, display: Seq<char>, result: WakeResult) -> (
    Option<Seq<char>>,
    Seq<Effect<Seq<char>>>,
) {
    match result {
        WakeResult::NoExecutor => (None, Seq::empty()),
        WakeResult::Woken => (None, seq![Effect::Ping(Boundary::RemovedDisplayWake)]),
        WakeResult::Failed(error) => {
            let detail = wake_failure(display, error@);
            (
                Some(detail),
                seq![
                    Effect::Ping(Boundary::BeforeRebuildOldWakeFailure),
                    Effect::Spawn(rebuild_plan(r, detail)),
                ],
            )
        },
    }
}

impl Replacing {
    /// The next display to wake through its old executor.
    pub fn next_wake(&self) -> (res: Option<&String>)
        ensures
            if self.woken < self.wake@.len() {
                res matches Some(d) && d@ == self.wake@[self.woken as int]@
            } else {
                res is None
            },
    {
        if self.woken < self.wake.len() {
            Some(&self.wake[self.woken])
        } else {
            None
        }
    }

    /// What came of the wake of that display. A failure ends the reload: the old
    /// config is spawned again.
    pub fn wake_finished(self, runner: &Runner, result: WakeResult) -> (res: (
        Result<Replacing, FailedReload>,
        Vec<Effect<String>>,
    ))
        requires
            self.woken < self.wake.len(),
        ensures
            ({
                let (failed, effects) = wake_seen(
                    runner@,
                    self.wake@[self.woken as int]@,
                    result,
                );
                &&& effect_models(res.1@) == effects
                &&& match failed {
                    None => res.0 == Ok::<Replacing, FailedReload>(
                        Replacing { woken: (self.woken + 1) as usize, ..self },
                    ),
                    Some(detail) => res.0 matches Err(f) && f.ticket() == self.ticket@
                        && f.detail() == detail && !f.recorded(),
                }
            }),
    {
        let mut effects: Vec<Effect<String>> = Vec::new();
        let ghost display = self.wake@[self.woken as int]@;
        match result {
            WakeResult::NoExecutor => {
                assert(effect_models(effects@) =~= wake_seen(runner@, display, result).1);
                (Ok(Replacing { woken: self.woken + 1, ..self }), effects)
            },
            WakeResult::Woken => {
                effects.push(Effect::Ping(Boundary::RemovedDisplayWake));
                assert(effect_models(effects@) =~= wake_seen(runner@, display, result).1);
                (Ok(Replacing { woken: self.woken + 1, ..self }), effects)
            },
            WakeResult::Failed(error) => {
                let mut detail: String = String::from_str("removed display '");
                detail.append(self.wake[self.woken].as_str());
                detail.append("' failed verified wake: ");
                detail.append(error.as_str());
                assert(detail@ =~= wake_failure(display, error@));
                effects.push(Effect::Ping(Boundary::BeforeRebuildOldWakeFailure));
                effects.push(Effect::Spawn(runner.rebuild_old(detail.clone())));
                assert(effect_models(effects@) =~= wake_seen(
                    runner@,
                    display,
                    WakeResult::Failed(error),
                ).1);
                (Err(FailedReload { ticket: self.ticket, detail, recorded: false }), effects)
            },
        }
    }
}

// ── the next generation, or the old one again ────────────────────────────

/// The number of the next generation.
pub open spec fn next_id(id: u64) -> u64 {
    if id == u64::MAX {
        id
    } else {
        (id + 1) as u64
    }
}

/// What the new config is spawned with.
pub open spec fn next_plan(r: RunnerModel) -> SpawnPlan<Seq<char>> {
    SpawnPlan { generation: next_id(r.generation_id), pending: None, rollback: None, new_config: true }
}

/// What is reported where the new config could not be spawned.
pub open spec fn spawn_failure(error: Seq<char>) -> Seq<char> {
    "rebuild from new config failed: "@ + error
}

/// The runner with the next generation installed.
pub open spec fn advanced(
    r: RunnerModel,
    next: GenerationModel,
    requested: revision::RevisionModel,
) -> RunnerModel {
    RunnerModel {
        generation: next,
        generation_id: next_id(r.generation_id),
        applied_revision: requested,
        generation_barrier_ack_timeout: next.barrier_ack_timeout,
        ..r
    }
}

/// The effects of installing the next generation.
pub open spec fn installed_effects(r: RunnerModel) -> Seq<Effect<Seq<char>>> {
    if r.rollback_active {
        seq![
            Effect::Install,
            Effect::EmitStarted(next_id(r.generation_id)),
            Effect::SetPending(None),
            Effect::ClearRollbackState,
        ]
    } else {
        seq![Effect::Install, Effect::EmitStarted(next_id(r.generation_id))]
    }
}

/// The effects of a spawn that failed.
pub open spec fn unspawned_effects(r: RunnerModel, detail: Seq<char>) -> Seq<Effect<Seq<char>>> {
    seq![
        Effect::Ping(Boundary::BeforeRebuildOldSpawnFailure),
        Effect::Record(LifecycleStage::RebuildOldStarted),
        Effect::Spawn(rebuild_plan(r, detail)),
    ]
}

/// What came of spawning the next generation.
pub enum SpawnResult {
    Spawned,
    Failed(String),
}

/// What is left of a reload whose next generation was spawned, or why it was
/// not.
pub enum Spawned {
    /// It runs; the reload is to be ended.
    Installed(InstalledReload),
    /// The old config is spawned again.
    Rebuild(FailedReload),
}

/// A reload that failed once the old engine was gone, so that the old config is
/// spawned again.
pub struct FailedReload {
    ticket: ReloadTicket,
    detail: String,
    recorded: bool,
}

impl FailedReload {
    /// The ticket that it answers.
    pub closed spec fn ticket(self) -> TicketModel {
        self.ticket@
    }

    /// Why it failed.
    pub closed spec fn detail(self) -> Seq<char> {
        self.detail@
    }

    /// Whether the stages of the rebuild are recorded: it was the spawn of the new
    /// config that failed.
    pub closed spec fn recorded(self) -> bool {
        self.recorded
    }
}

/// A reload whose next generation is installed. There is none without that.
pub struct InstalledReload {
    ticket: ReloadTicket,
    wake_after: Vec<String>,
}

impl InstalledReload {
    /// The ticket that it answers.
    pub closed spec fn ticket(self) -> TicketModel {
        self.ticket@
    }

    /// The displays that are to be woken.
    pub closed spec fn wakes(self) -> Seq<Seq<char>> {
        text::texts(self.wake_after@)
    }
}

/// The runner and the effects once the old config was spawned again, or could
/// not be: then the routes stay paused and the daemon stops.
pub open spec fn rebuilt(r: RunnerModel, ok: bool, detail: Seq<char>, recorded: bool) -> (
    RunnerModel,
    Seq<Effect<Seq<char>>>,
) {
    let first = if ok {
        seq![Effect::Install, Effect::EmitStarted(r.generation_id)]
    } else {
        seq![Effect::CancelRoot]
    };
    let told = Effect::Broadcast(ReloadOutcome::Rejected(detail));
    let rest = if recorded {
        seq![
            Effect::Record(LifecycleStage::RebuildOldFinished),
            told,
            Effect::Record(LifecycleStage::OutcomeBroadcast),
        ]
    } else {
        seq![told]
    };
    let after = if ok {
        RunnerModel {
            generation_barrier_ack_timeout: r.generation.barrier_ack_timeout,
            ..r
        }
    } else {
        RunnerModel { stopping: true, ..r }
    };
    (after, first + rest)
}

/// The runner once a rollback is over. It is over even where it still stands in
/// the persisted state.
pub open spec fn recovered(r: RunnerModel, cleared: bool) -> (RunnerModel, bool) {
    let (clear, warn) = clear_tried(r.rollback_clear, cleared);
    (
        RunnerModel {
            rollback_active: false,
            rollback_status: None,
            rollback_clear: clear,
            ..r
        },
        warn,
    )
}

/// The wakes of some displays, as far as they have an executor.
pub open spec fn wake_effects(
    displays: Seq<Seq<char>>,
    executors: Seq<Seq<char>>,
) -> Seq<Effect<Seq<char>>> {
    displays.filter_map(wake_effect(executors))
}

/// The wake of a display that has an executor.
pub open spec fn wake_effect(executors: Seq<Seq<char>>) -> spec_fn(Seq<char>) -> Option<
    Effect<Seq<char>>,
> {
    |d: Seq<char>|
        if executors.contains(d) {
            Some(Effect::<Seq<char>>::DefensiveWake(d))
        } else {
            None
        }
}

/// The runner and the effects at the end of a reload.
pub open spec fn finished(
    r: RunnerModel,
    wake_after: Seq<Seq<char>>,
    bytes: Option<Seq<u8>>,
    now: Nanos,
) -> (RunnerModel, Seq<Effect<Seq<char>>>) {
    (
        RunnerModel {
            lkg: lkg::TrackerModel {
                candidate: lkg::armed(bytes, r.generation.lkg_enabled, "reload"@, now),
                defer_count: 0,
            },
            ..r
        },
        seq![Effect::WarnHazards] + wake_effects(wake_after, r.generation.executors) + seq![
            Effect::PublishConfig,
            Effect::Ping(Boundary::ReloadEnd),
            Effect::Broadcast(ReloadOutcome::Reloaded),
        ],
    )
}

/// How a batch is answered.
pub enum BatchStart {
    /// Without a reload: every waiter gets the receipt.
    Applied { receipt: ReloadReceipt, effects: Vec<Effect<String>>, waiters: Vec<u64> },
    /// By the reload of a ticket, whose receipt every waiter gets.
    Reload { ticket: ReloadTicket, waiters: Vec<u64> },
}

/// The effects of a batch that is answered without a reload.
pub open spec fn applied_effects() -> Seq<Effect<Seq<char>>> {
    seq![Effect::Broadcast(ReloadOutcome::Reloaded)]
}

impl Runner {
    /// What the new config is spawned with.
    pub fn spawn_plan(&self) -> (res: SpawnPlan<String>)
        ensures
            res@ == next_plan(self@),
    {
        let generation: u64 = if self.generation_id == u64::MAX {
            self.generation_id
        } else {
            self.generation_id + 1
        };
        SpawnPlan { generation, pending: None, rollback: None, new_config: true }
    }

    /// What the old config is spawned with again.
    pub fn rebuild_old(&self, detail: String) -> (res: SpawnPlan<String>)
        ensures
            res@ == rebuild_plan(self@, detail@),
    {
        SpawnPlan {
            generation: self.generation_id,
            pending: Some(detail),
            rollback: copy_opt(&self.rollback_status),
            new_config: false,
        }
    }

    /// The next generation was spawned, or it could not be.
    pub fn spawn_finished(
        &mut self,
        replacing: Replacing,
        result: SpawnResult,
    ) -> (res: (Spawned, Vec<Effect<String>>))
        ensures
            match result {
                SpawnResult::Spawned => {
                    &&& final(self)@ == advanced(
                        old(self)@,
                        replacing.next.config@,
                        replacing.ticket@.requested,
                    )
                    &&& effect_models(res.1@) == installed_effects(old(self)@)
                    &&& res.0 matches Spawned::Installed(i) && i.ticket() == replacing.ticket@
                        && i.wakes() == text::texts(replacing.wake_after@)
                },
                SpawnResult::Failed(error) => {
                    &&& final(self)@ == old(self)@
                    &&& effect_models(res.1@) == unspawned_effects(
                        old(self)@,
                        spawn_failure(error@),
                    )
                    &&& res.0 matches Spawned::Rebuild(f) && f.ticket() == replacing.ticket@
                        && f.detail() == spawn_failure(error@) && f.recorded()
                },
            },
    {
        let mut effects: Vec<Effect<String>> = Vec::new();
        match result {
            SpawnResult::Spawned => {
                let plan = self.spawn_plan();
                self.generation_id = plan.generation;
                self.applied_revision = replacing.ticket.requested.copy();
                self.generation_barrier_ack_timeout = replacing.next.config.barrier_ack_timeout;
                self.generation = replacing.next.config;
                effects.push(Effect::Install);
                effects.push(Effect::EmitStarted(self.generation_id));
                if self.rollback_active {
                    effects.push(Effect::SetPending(None));
                    effects.push(Effect::ClearRollbackState);
                }
                assert(effect_models(effects@) =~= installed_effects(old(self)@));
                (
                    Spawned::Installed(
                        InstalledReload {
                            ticket: replacing.ticket,
                            wake_after: replacing.wake_after,
                        },
                    ),
                    effects,
                )
            },
            SpawnResult::Failed(error) => {
                let mut detail: String = String::from_str("rebuild from new config failed: ");
                detail.append(error.as_str());
                effects.push(Effect::Ping(Boundary::BeforeRebuildOldSpawnFailure));
                effects.push(Effect::Record(LifecycleStage::RebuildOldStarted));
                effects.push(Effect::Spawn(self.rebuild_old(detail.clone())));
                assert(effect_models(effects@) =~= unspawned_effects(self@, detail@));
                (
                    Spawned::Rebuild(
                        FailedReload { ticket: replacing.ticket, detail, recorded: true },
                    ),
                    effects,
                )
            },
        }
    }

    /// The old config was spawned again, or it could not be.
    pub fn rebuild_old_finished(&mut self, failed: FailedReload, ok: bool) -> (res: (
        ReloadReceipt,
        Vec<Effect<String>>,
    ))
        ensures
            (final(self)@, effect_models(res.1@)) == rebuilt(
                old(self)@,
                ok,
                failed.detail(),
                failed.recorded(),
            ),
            res.0@ == receipt_of(
                final(self)@,
                failed.ticket(),
                ReloadOutcome::Rejected(failed.detail()),
                false,
            ),
    {
        let mut effects: Vec<Effect<String>> = Vec::new();
        if ok {
            self.generation_barrier_ack_timeout = self.generation.barrier_ack_timeout;
            effects.push(Effect::Install);
            effects.push(Effect::EmitStarted(self.generation_id));
        } else {
            self.stopping = true;
            effects.push(Effect::CancelRoot);
        }
        let FailedReload { ticket, detail, recorded } = failed;
        let ghost told = detail@;
        if recorded {
            effects.push(Effect::Record(LifecycleStage::RebuildOldFinished));
        }
        effects.push(Effect::Broadcast(ReloadOutcome::Rejected(detail.clone())));
        if recorded {
            effects.push(Effect::Record(LifecycleStage::OutcomeBroadcast));
        }
        assert(effect_models(effects@) =~= rebuilt(old(self)@, ok, told, recorded).1);
        (self.rejection(ticket, detail), effects)
    }

    /// The persisted rollback was cleared, or it could not be, at the end of a
    /// reload out of a rollback. The result says whether the failure is to be
    /// reported.
    pub fn rollback_recovered(&mut self, cleared: bool) -> (warn: bool)
        ensures
            (final(self)@, warn) == recovered(old(self)@, cleared),
    {
        let warn = self.note_clear(cleared);
        self.rollback_status = None;
        self.rollback_active = false;
        warn
    }

    fn note_clear(&mut self, cleared: bool) -> (warn: bool)
        ensures
            final(self)@ == (RunnerModel {
                rollback_clear: clear_tried(old(self)@.rollback_clear, cleared).0,
                ..old(self)@
            }),
            warn == clear_tried(old(self)@.rollback_clear, cleared).1,
    {
        if cleared {
            self.rollback_clear = RollbackClear { pending: false, warned: false };
            return false;
        }
        let warn = !self.rollback_clear.warned;
        self.rollback_clear = RollbackClear { pending: true, warned: true };
        warn
    }

    /// The wakes of some displays, as far as they have an executor.
    pub fn defensive_wake(&self, displays: &Vec<String>) -> (out: Vec<Effect<String>>)
        ensures
            effect_models(out@) == wake_effects(
                text::texts(displays@),
                self@.generation.executors,
            ),
    {
        let mut out: Vec<Effect<String>> = Vec::new();
        let ghost names = text::texts(displays@);
        let ghost f = wake_effect(self@.generation.executors);
        let mut i: usize = 0;
        proof {
            assert(names.take(0) =~= Seq::<Seq<char>>::empty());
            assert(effect_models(out@) =~= names.take(0).filter_map(f));
        }
        while i < displays.len()
            invariant
                i <= displays@.len(),
                names == text::texts(displays@),
                f == wake_effect(self@.generation.executors),
                effect_models(out@) == names.take(i as int).filter_map(f),
            decreases displays@.len() - i,
        {
            let ghost out0 = out@;
            proof {
                assert(names[i as int] == displays@[i as int]@);
                seqs::lemma_filter_map_step(names, i as int, f);
            }
            if holds_text(&self.generation.executors, displays[i].as_str()) {
                out.push(Effect::DefensiveWake(displays[i].clone()));
                assert(effect_models(out@) =~= effect_models(out0).push(
                    Effect::<Seq<char>>::DefensiveWake(names[i as int]),
                ));
            }
            i = i + 1;
        }
        proof {
            seqs::lemma_take_all(names);
        }
        out
    }

    /// End a reload whose generation runs. `config_bytes` is what the config file
    /// holds, where it can be read.
    pub fn finish_reload(
        &mut self,
        installed: InstalledReload,
        config_bytes: Option<Vec<u8>>,
        now: Nanos,
    ) -> (res: (ReloadReceipt, Vec<Effect<String>>))
        ensures
            (final(self)@, effect_models(res.1@)) == finished(
                old(self)@,
                installed.wakes(),
                lkg::opt_bytes(config_bytes),
                now,
            ),
            res.0@ == receipt_of(
                final(self)@,
                installed.ticket(),
                ReloadOutcome::Reloaded,
                false,
            ),
    {
        let mut effects: Vec<Effect<String>> = Vec::new();
        effects.push(Effect::WarnHazards);
        let mut wakes = self.defensive_wake(&installed.wake_after);
        let ghost woken = wakes@;
        effects.append(&mut wakes);
        effects.push(Effect::PublishConfig);
        let candidate = new_lkg_candidate(
            config_bytes,
            self.generation.lkg_enabled,
            "reload",
            now,
        );
        self.lkg = LkgTracker { candidate, defer_count: 0 };
        effects.push(Effect::Ping(Boundary::ReloadEnd));
        effects.push(Effect::Broadcast(ReloadOutcome::Reloaded));
        assert(effect_models(effects@) =~= seq![Effect::<Seq<char>>::WarnHazards] + effect_models(
            woken,
        ) + seq![
            Effect::<Seq<char>>::PublishConfig,
            Effect::Ping(Boundary::ReloadEnd),
            Effect::Broadcast(ReloadOutcome::Reloaded),
        ]);
        (self.reload_receipt(installed.ticket, ReloadOutcome::Reloaded, false), effects)
    }

    /// What a requester is told.
    fn reload_receipt(
        &self,
        ticket: ReloadTicket,
        outcome: ReloadOutcome<String>,
        coalesced: bool,
    ) -> (res: ReloadReceipt)
        ensures
            res@ == receipt_of(self@, ticket@, outcome@, coalesced),
    {
        ReloadReceipt {
            request_ids: ticket.request_ids,
            sources: ticket.sources,
            requested_revision: ticket.requested,
            applied_revision: self.applied_revision.copy(),
            generation: self.generation_id,
            outcome,
            coalesced,
        }
    }

    /// What a requester is told whose reload failed.
    fn rejection(&self, ticket: ReloadTicket, detail: String) -> (res: ReloadReceipt)
        ensures
            res@ == receipt_of(self@, ticket@, ReloadOutcome::Rejected(detail@), false),
    {
        self.reload_receipt(ticket, ReloadOutcome::Rejected(detail), false)
    }

    /// For how long requests are gathered before they are answered; nothing where
    /// the first is answered at once.
    pub fn gather_window(&self) -> (res: Option<Nanos>)
        ensures
            res == (if self@.generation.reload_debounce == 0 {
                None
            } else {
                Some(self@.generation.reload_debounce)
            }),
    {
        if self.generation.reload_debounce == 0 {
            None
        } else {
            Some(self.generation.reload_debounce)
        }
    }

    /// Take up a batch that asks for a revision. One whose revision runs already
    /// is answered without a reload: the outcome is told, and every waiter gets
    /// the receipt.
    pub fn execute_reload_batch(&self, batch: ReloadBatch, requested: RuntimeRevision) -> (res:
        BatchStart)
        ensures
            if requested@ == self@.applied_revision {
                &&& res matches BatchStart::Applied { receipt, effects, waiters }
                &&& receipt@ == receipt_of(
                    self@,
                    ticket_of(batch@, requested@),
                    ReloadOutcome::Reloaded,
                    true,
                )
                &&& effect_models(effects@) == applied_effects()
                &&& waiters == batch.waiters
            } else {
                &&& res matches BatchStart::Reload { ticket, waiters }
                &&& ticket@ == ticket_of(batch@, requested@)
                &&& waiters == batch.waiters
            },
    {
        let applied = self.applied_revision.same(&requested);
        let ticket = ReloadTicket {
            request_ids: batch.request_ids,
            sources: batch.sources,
            requested,
        };
        if !applied {
            return BatchStart::Reload { ticket, waiters: batch.waiters };
        }
        let mut effects: Vec<Effect<String>> = Vec::new();
        effects.push(Effect::Broadcast(ReloadOutcome::Reloaded));
        assert(effect_models(effects@) =~= applied_effects());
        BatchStart::Applied {
            receipt: self.reload_receipt(ticket, ReloadOutcome::Reloaded, true),
            effects,
            waiters: batch.waiters,
        }
    }

    /// Record a stage, where reloads are observed.
    pub fn record_reload_lifecycle_stage(&mut self, stage: LifecycleStage)
        ensures
            final(self)@ == (RunnerModel {
                captured: match old(self)@.captured {
                    Some(c) if old(self)@.force_reload_snapshot_timeout => Some(
                        c.push(stage_name(stage)),
                    ),
                    c => c,
                },
                ..old(self)@
            }),
    {
        if self.force_reload_snapshot_timeout {
            if let Some(mut c) = self.reload_lifecycle_capture.take() {
                c.record(stage.as_str());
                self.reload_lifecycle_capture = Some(c);
            }
        }
    }
}

// ── the watchdog ─────────────────────────────────────────────────────────

/// What a tick of the watchdog came to.
#[derive(PartialEq, Eq, Debug)]
#[verifier::ext_equal]
pub enum WatchdogStep<S, B> {
    /// There is no engine to ask.
    RouteMissing,
    /// The engine answered: the watchdog is pinged.
    Ping(LkgStep<S, B>),
    /// The engine did not answer: the watchdog is not pinged. `warn` is set the
    /// first time in a row.
    Withhold { warn: bool },
}

impl View for WatchdogStep<&'static str, Vec<u8>> {
    type V = WatchdogStep<Seq<char>, Seq<u8>>;

    open spec fn view(&self) -> WatchdogStep<Seq<char>, Seq<u8>> {
        match *self {
            WatchdogStep::RouteMissing => WatchdogStep::RouteMissing,
            WatchdogStep::Ping(step) => WatchdogStep::Ping(step@),
            WatchdogStep::Withhold { warn } => WatchdogStep::Withhold { warn },
        }
    }
}

/// What a tick of the watchdog comes to, and the runner after it.
pub open spec fn watched(
    r: RunnerModel,
    routed: bool,
    probe: Option<StateSnapshot>,
    now: Nanos,
    fresh: Option<Seq<u8>>,
) -> (RunnerModel, WatchdogStep<Seq<char>, Seq<u8>>) {
    if !routed {
        (r, WatchdogStep::RouteMissing)
    } else {
        match probe {
            Some(s) => {
                let (tracker, step) = lkg::ticked(
                    r.lkg,
                    snapshot::some_display_failing(s),
                    now,
                    r.generation.stability_window,
                    fresh,
                );
                (
                    RunnerModel { lkg: tracker, probe_failed_warned: false, ..r },
                    WatchdogStep::Ping(step),
                )
            },
            None => (
                RunnerModel {
                    lkg: lkg::TrackerModel {
                        candidate: lkg::restarted(r.lkg.candidate, now),
                        ..r.lkg
                    },
                    probe_failed_warned: true,
                    ..r
                },
                WatchdogStep::Withhold { warn: !r.probe_failed_warned },
            ),
        }
    }
}

/// Whether the watchdog is pinged: only where the engine answered.
pub fn ping_if_healthy(probe: &Option<StateSnapshot>) -> (res: bool)
    ensures
        res == (*probe is Some),
{
    match probe {
        Some(_) => true,
        None => false,
    }
}

impl Runner {
    /// A tick of the watchdog. `routed` says whether there is an engine to ask,
    /// `probe` is its answer, and `fresh` is what the config file holds, where it
    /// can be read.
    pub fn watchdog_tick_at(
        &mut self,
        routed: bool,
        probe: Option<StateSnapshot>,
        now: Nanos,
        fresh: Option<Vec<u8>>,
    ) -> (step: WatchdogStep<&'static str, Vec<u8>>)
        ensures
            (final(self)@, step@) == watched(
                old(self)@,
                routed,
                probe,
                now,
                lkg::opt_bytes(fresh),
            ),
    {
        if !routed {
            return WatchdogStep::RouteMissing;
        }
        match probe {
            Some(s) => {
                self.probe_failed_warned = false;
                let window: Nanos = self.generation.stability_window;
                let step = self.lkg.lkg_tick_at(&s, now, window, fresh);
                WatchdogStep::Ping(step)
            },
            None => {
                reset_candidate_on_probe_failure(&mut self.lkg.candidate, now);
                let warn = !self.probe_failed_warned;
                self.probe_failed_warned = true;
                WatchdogStep::Withhold { warn }
            },
        }
    }

    /// Whether a persisted rollback is still to be cleared. This is looked at on
    /// every tick, whether or not the engine answers.
    pub fn retry_rollback_state_clear(&self) -> (res: bool)
        ensures
            res == self@.rollback_clear.pending,
    {
        self.rollback_clear.pending
    }

    /// The persisted rollback was tried to be cleared again. The result says
    /// whether the failure is to be reported.
    pub fn retry_finished(&mut self, cleared: bool) -> (warn: bool)
        ensures
            final(self)@ == (RunnerModel {
                rollback_clear: clear_tried(old(self)@.rollback_clear, cleared).0,
                ..old(self)@
            }),
            warn == clear_tried(old(self)@.rollback_clear, cleared).1,
    {
        self.note_clear(cleared)
    }
}

// ── laws ─────────────────────────────────────────────────────────────────

/// A reload that is refused at its start does nothing to the running generation:
/// the engine is told what is pending, the requesters are told the outcome, and
/// that is all.
pub proof fn law_refused_reload_touches_nothing(detail: Seq<char>)
    ensures
        forall|i: int|
            0 <= i < refused_effects(detail).len() ==> (#[trigger] refused_effects(
                detail,
            )[i]) is SetPending || refused_effects(detail)[i] is Broadcast,
        refused_effects(detail).last() == Effect::Broadcast(ReloadOutcome::Rejected(detail)),
{
}

/// A reload that fails keeps what runs: generation, config, revision and
/// rollback are those of before, whichever step failed.
pub proof fn law_failed_reload_keeps_the_generation(
    r: RunnerModel,
    e: BarrierEvent,
    rebuilt_ok: bool,
    detail: Seq<char>,
    recorded: bool,
)
    ensures
        ({
            let after = barrier_passed(r, e).0;
            let again = rebuilt(r, rebuilt_ok, detail, recorded).0;
            &&& after.generation_id == r.generation_id && again.generation_id == r.generation_id
            &&& after.generation == r.generation && again.generation == r.generation
            &&& after.applied_revision == r.applied_revision && again.applied_revision
                == r.applied_revision
            &&& after.rollback_active == r.rollback_active && again.rollback_active
                == r.rollback_active
            &&& after.rollback_status == r.rollback_status && again.rollback_status
                == r.rollback_status
            &&& after.lkg == r.lkg && again.lkg == r.lkg
        }),
{
}

/// How a reload goes, from its start to its receipt.
pub enum ReloadCourse {
    /// It is refused before the running generation is touched.
    Refused { detail: Seq<char> },
    /// The running engine does not pass the barrier.
    Undrained { event: BarrierEvent },
    /// A wake or the spawn of the new config fails, and the old config is spawned
    /// again.
    Rebuilt { ok: bool, detail: Seq<char>, recorded: bool },
    /// The next generation is installed.
    Installed {
        next: GenerationModel,
        cleared: bool,
        wake_after: Seq<Seq<char>>,
        bytes: Option<Seq<u8>>,
        now: Nanos,
    },
}

/// The runner at the end of a reload.
pub open spec fn runner_after(
    r: RunnerModel,
    t: TicketModel,
    barrier: Nanos,
    course: ReloadCourse,
) -> RunnerModel {
    let replacing = RunnerModel { generation_barrier_ack_timeout: barrier, ..r };
    match course {
        ReloadCourse::Refused { .. } => r,
        ReloadCourse::Undrained { event } => barrier_passed(replacing, event).0,
        ReloadCourse::Rebuilt { ok, detail, recorded } => rebuilt(
            replacing,
            ok,
            detail,
            recorded,
        ).0,
        ReloadCourse::Installed { next, cleared, wake_after, bytes, now } => {
            let installed = advanced(replacing, next, t.requested);
            let settled = if installed.rollback_active {
                recovered(installed, cleared).0
            } else {
                installed
            };
            finished(settled, wake_after, bytes, now).0
        },
    }
}

/// What a reload comes to.
pub open spec fn course_outcome(course: ReloadCourse) -> ReloadOutcome<Seq<char>> {
    match course {
        ReloadCourse::Refused { detail } => ReloadOutcome::Rejected(detail),
        ReloadCourse::Undrained { event } => ReloadOutcome::Rejected(barrier_failure(event)->0),
        ReloadCourse::Rebuilt { detail, .. } => ReloadOutcome::Rejected(detail),
        ReloadCourse::Installed { .. } => ReloadOutcome::Reloaded,
    }
}

/// A receipt agrees with what runs. It says that the config was reloaded exactly
/// where the next generation was installed, and then names that generation and
/// the revision that was asked for; otherwise it names the generation and the
/// revision of before.
pub proof fn law_receipt_agrees_with_the_generation(
    r: RunnerModel,
    t: TicketModel,
    barrier: Nanos,
    course: ReloadCourse,
)
    ensures
        ({
            let receipt = receipt_of(
                runner_after(r, t, barrier, course),
                t,
                course_outcome(course),
                false,
            );
            &&& receipt.requested_revision == t.requested
            &&& receipt.outcome is Reloaded <==> course is Installed
            &&& receipt.outcome is Reloaded ==> receipt.generation == next_id(r.generation_id)
                && receipt.applied_revision == t.requested
            &&& receipt.outcome is Reloaded && r.generation_id < u64::MAX ==> receipt.generation
                == r.generation_id + 1
            &&& receipt.outcome is Rejected ==> receipt.generation == r.generation_id
                && receipt.applied_revision == r.applied_revision
        }),
{
}

/// A batch whose revision runs already changes nothing: its receipt names what
/// runs, which is what was asked for, and its outcome is told once.
pub proof fn law_coalesced_batch_changes_nothing(r: RunnerModel, b: BatchModel)
    ensures
        ({
            let receipt = receipt_of(
                r,
                ticket_of(b, r.applied_revision),
                ReloadOutcome::Reloaded,
                true,
            );
            &&& receipt.request_ids == b.request_ids
            &&& receipt.sources == b.sources
            &&& receipt.generation == r.generation_id
            &&& receipt.applied_revision == receipt.requested_revision
            &&& receipt.coalesced
        }),
        applied_effects().len() == 1,
        applied_effects()[0] == Effect::<Seq<char>>::Broadcast(ReloadOutcome::Reloaded),
{
}

/// The old config that is spawned again after a failure reports the failure and
/// the rollback that was reported before; the new config reports neither.
pub proof fn law_rebuilt_engine_reports_what_failed(r: RunnerModel, detail: Seq<char>)
    ensures
        rebuild_plan(r, detail).pending == Some(detail),
        rebuild_plan(r, detail).rollback == r.rollback_status,
        rebuild_plan(r, detail).generation == r.generation_id,
        next_plan(r).pending is None && next_plan(r).rollback is None,
{
}

/// A rollback is over exactly when a reload has succeeded: no failure, no tick
/// and no installation alone ends it, and it is over even where the persisted
/// state could not be cleared.
pub proof fn law_rollback_ends_with_a_reload(
    r: RunnerModel,
    next: GenerationModel,
    requested: revision::RevisionModel,
    routed: bool,
    probe: Option<StateSnapshot>,
    now: Nanos,
    fresh: Option<Seq<u8>>,
    cleared: bool,
)
    ensures
        advanced(r, next, requested).rollback_active == r.rollback_active,
        watched(r, routed, probe, now, fresh).0.rollback_active == r.rollback_active,
        !recovered(r, cleared).0.rollback_active,
        recovered(r, cleared).0.rollback_status is None,
        r.rollback_active ==> installed_effects(r).contains(Effect::ClearRollbackState)
            && installed_effects(r).contains(Effect::SetPending(None)),
{
    if r.rollback_active {
        assert(installed_effects(r)[2] == Effect::<Seq<char>>::SetPending(None));
        assert(installed_effects(r)[3] == Effect::<Seq<char>>::ClearRollbackState);
    }
}

/// A persisted rollback that could not be cleared is tried again until it is,
/// and a row of failures is reported once.
pub proof fn law_clear_is_retried_until_done(c: RollbackClear, cleared: bool)
    ensures
        clear_tried(c, cleared).0.pending == !cleared,
        clear_tried(c, false).1 ==> !c.warned,
        !clear_tried(clear_tried(c, false).0, false).1,
        !clear_tried(c, true).0.warned,
{
}

/// Generations are numbered upwards, one by one, as far as numbers go.
pub proof fn law_generations_count_up(
    r: RunnerModel,
    next: GenerationModel,
    requested: revision::RevisionModel,
)
    ensures
        advanced(r, next, requested).applied_revision == requested,
        r.generation_id < u64::MAX ==> advanced(r, next, requested).generation_id
            == r.generation_id + 1,
        next_plan(r).generation == advanced(r, next, requested).generation_id,
{
}

/// The daemon stops by itself exactly where no generation is left: the barrier
/// failed, or the old config could not be spawned again.
pub proof fn law_daemon_stops_only_without_a_generation(
    r: RunnerModel,
    e: BarrierEvent,
    rebuilt_ok: bool,
    detail: Seq<char>,
    recorded: bool,
)
    requires
        !r.stopping,
    ensures
        barrier_passed(r, e).0.stopping <==> e != BarrierEvent::Acknowledged,
        rebuilt(r, rebuilt_ok, detail, recorded).0.stopping <==> !rebuilt_ok,
        barrier_passed(r, e).0.stopping ==> barrier_passed(r, e).1[0] == Effect::<
            Seq<char>,
        >::CancelRoot,
        !rebuilt_ok ==> rebuilt(r, rebuilt_ok, detail, recorded).1[0] == Effect::<
            Seq<char>,
        >::CancelRoot,
{
}

/// The order of a replacement: no executor is shown and the watchdog is pinged
/// before the routes pause, the routes pause before the inputs stop, and the
/// barrier comes last, when nothing can reach the old engine any more.
pub proof fn law_routes_pause_before_the_barrier(web_changed: bool, barrier: Nanos)
    ensures
        ({
            let e = replacing_effects(web_changed, barrier);
            let n = e.len() as int;
            &&& n >= 7
            &&& e[n - 7] == Effect::<Seq<char>>::EmptyExecutors
            &&& e[n - 6] == Effect::<Seq<char>>::Ping(Boundary::BeforeTeardown)
            &&& e[n - 5] == Effect::<Seq<char>>::PauseRouters
            &&& e[n - 3] == Effect::<Seq<char>>::QuiesceInputs
            &&& e[n - 1] == Effect::<Seq<char>>::AwaitBarrier(barrier)
            &&& forall|i: int| 0 <= i < n - 1 ==> !((#[trigger] e[i]) is AwaitBarrier)
        }),
{
}

/// At the end of a reload the watchdog is pinged and the config published before
/// anyone hears of the outcome.
pub proof fn law_outcome_is_told_last(
    r: RunnerModel,
    wake_after: Seq<Seq<char>>,
    bytes: Option<Seq<u8>>,
    now: Nanos,
)
    ensures
        ({
            let e = finished(r, wake_after, bytes, now).1;
            let n = e.len() as int;
            &&& n >= 3
            &&& e[n - 1] == Effect::<Seq<char>>::Broadcast(ReloadOutcome::Reloaded)
            &&& e[n - 2] == Effect::<Seq<char>>::Ping(Boundary::ReloadEnd)
            &&& e[n - 3] == Effect::<Seq<char>>::PublishConfig
        }),
{
}

/// An engine that does not answer starves the watchdog: it is pinged exactly
/// where the engine answered, and a candidate's window starts over where it did
/// not.
pub proof fn law_watchdog_is_pinged_only_on_an_answer(
    r: RunnerModel,
    routed: bool,
    probe: Option<StateSnapshot>,
    now: Nanos,
    fresh: Option<Seq<u8>>,
)
    ensures
        watched(r, routed, probe, now, fresh).1 is Ping <==> routed && probe is Some,
        routed && probe is None ==> watched(r, routed, probe, now, fresh).0.lkg.candidate
            == lkg::restarted(r.lkg.candidate, now),
        watched(r, routed, probe, now, fresh).0.generation_id == r.generation_id,
{
}

/// After a reload that succeeds the runner holds the config that was asked for,
/// and all that follows from it: its barrier timeout, and a candidate with its
/// bytes from the end of the reload on, exactly if it has saving on and the file
/// could be read. A rollback is over, and nothing else has changed.
pub proof fn law_reload_installs_the_config_that_was_asked_for(
    r: RunnerModel,
    t: TicketModel,
    barrier: Nanos,
    next: GenerationModel,
    cleared: bool,
    wake_after: Seq<Seq<char>>,
    bytes: Option<Seq<u8>>,
    now: Nanos,
)
    ensures
        ({
            let after = runner_after(
                r,
                t,
                barrier,
                ReloadCourse::Installed { next, cleared, wake_after, bytes, now },
            );
            &&& after.generation == next
            &&& after.generation_barrier_ack_timeout == next.barrier_ack_timeout
            &&& after.applied_revision == t.requested
            &&& after.lkg.candidate is Some <==> next.lkg_enabled && bytes is Some
            &&& after.lkg.candidate matches Some(c) ==> {
                &&& Some(c.bytes) == bytes
                &&& c.since == now
                &&& c.source == "reload"@
                &&& !c.dirty_logged && !c.health_deferred_logged && !c.save_failed_logged
            }
            &&& after.lkg.defer_count == 0
            &&& !after.rollback_active
            &&& r.rollback_active ==> after.rollback_status is None
                && after.rollback_clear.pending == !cleared
            &&& !r.rollback_active ==> after.rollback_status == r.rollback_status
                && after.rollback_clear == r.rollback_clear
            &&& after.coordinated == r.coordinated
            &&& after.started_web_port == r.started_web_port
            &&& after.started_web_bind == r.started_web_bind
            &&& after.probe_failed_warned == r.probe_failed_warned
            &&& after.stopping == r.stopping
            &&& after.force_reload_snapshot_timeout == r.force_reload_snapshot_timeout
            &&& after.captured == r.captured
        }),
{
}

/// After a reload that fails the runner is as it was: entirely where it was
/// refused; but for the stop where the old engine was lost; and where the old
/// config runs again, with that config's own barrier timeout.
pub proof fn law_failed_reload_leaves_the_runner_as_it_was(
    r: RunnerModel,
    t: TicketModel,
    barrier: Nanos,
    event: BarrierEvent,
    detail: Seq<char>,
    recorded: bool,
)
    ensures
        runner_after(r, t, barrier, ReloadCourse::Refused { detail }) == r,
        event != BarrierEvent::Acknowledged ==> runner_after(
            r,
            t,
            barrier,
            ReloadCourse::Undrained { event },
        ) == (RunnerModel { stopping: true, generation_barrier_ack_timeout: barrier, ..r }),
        runner_after(r, t, barrier, ReloadCourse::Rebuilt { ok: true, detail, recorded })
            == (RunnerModel {
            generation_barrier_ack_timeout: r.generation.barrier_ack_timeout,
            ..r
        }),
        runner_after(r, t, barrier, ReloadCourse::Rebuilt { ok: false, detail, recorded })
            == (RunnerModel { stopping: true, generation_barrier_ack_timeout: barrier, ..r }),
        barrier_failure(event) is None <==> event == BarrierEvent::Acknowledged,
{
}

/// A receipt answers the requests of its ticket, and a ticket those of its batch.
pub proof fn law_receipt_answers_its_requests(
    r: RunnerModel,
    b: BatchModel,
    requested: revision::RevisionModel,
    outcome: ReloadOutcome<Seq<char>>,
    coalesced: bool,
)
    ensures
        ({
            let receipt = receipt_of(r, ticket_of(b, requested), outcome, coalesced);
            &&& receipt.request_ids == b.request_ids
            &&& receipt.sources == b.sources
            &&& receipt.requested_revision == requested
            &&& receipt.applied_revision == r.applied_revision
            &&& receipt.generation == r.generation_id
            &&& receipt.outcome == outcome
            &&& receipt.coalesced == coalesced
        }),
{
}

/// The waiters of a batch are those of its requests, in order; a source is listed
/// where it first came up.
pub proof fn law_batch_keeps_every_waiter(requests: Seq<ReloadRequest>)
    ensures
        batch_of(requests).waiters == requests.filter_map(|r: ReloadRequest| r.waiter),
        requests.len() > 0 ==> batch_of(requests.drop_last()).sources.is_prefix_of(
            batch_of(requests).sources,
        ),
        requests.len() == 1 ==> batch_of(requests).sources == seq![requests[0].source],
    decreases requests.len(),
{
    let f = |r: ReloadRequest| r.waiter;
    if requests.len() > 0 {
        let n = requests.len() - 1;
        law_batch_keeps_every_waiter(requests.drop_last());
        assert(requests.take(n) =~= requests.drop_last());
        seqs::lemma_take_all(requests);
        seqs::lemma_filter_map_step(requests, n, f);
        if requests.len() == 1 {
            assert(requests.drop_last() =~= Seq::<ReloadRequest>::empty());
            assert(batch_of(requests.drop_last()).sources =~= Seq::<ReloadSource>::empty());
        }
    } else {
        assert(requests.take(0) =~= requests);
        reveal(Seq::filter_map);
    }
}

/// A reload is refused exactly if its config could not be assembled, for that
/// reason, or if it would be the first to share a display.
pub proof fn law_reload_is_refused_for_a_reason(r: RunnerModel, next: Result<NextGeneration, String>)
    ensures
        next matches Err(detail) ==> refusal(r, next) == Some(detail@),
        next matches Ok(n) ==> (refusal(r, next) is Some <==> !r.coordinated && n.shared@.len()
            > 0),
        next is Ok && refusal(r, next) is Some ==> refusal(r, next) == Some(FIRST_SHARED@),
{
}

/// A refused reload tells the running engine what is pending and everybody that
/// it failed, for the same reason.
pub proof fn law_refusal_is_told(detail: Seq<char>)
    ensures
        refused_effects(detail).len() == 2,
        refused_effects(detail)[0] == Effect::SetPending(Some(detail)),
        refused_effects(detail)[1] == Effect::Broadcast(ReloadOutcome::Rejected(detail)),
{
}

/// An accepted reload tells the coordination, where there is one, before anything
/// else.
pub proof fn law_coordination_learns_of_an_accepted_reload(r: RunnerModel)
    ensures
        accepted_effects(r).contains(Effect::<Seq<char>>::ReconcileShared) <==> r.coordinated,
        r.coordinated ==> accepted_effects(r)[0] == Effect::<Seq<char>>::ReconcileShared,
        accepted_effects(r).last() == Effect::<Seq<char>>::Ping(Boundary::AfterAssemble),
        accepted_effects(r).len() <= 2,
{
    if r.coordinated {
        assert(accepted_effects(r)[0] == Effect::<Seq<char>>::ReconcileShared);
    }
}

/// No panel is left dark by a reload. A display that was reported dark is woken
/// through the old engine where the new one has none for it, or commands it
/// otherwise by hand alone; it is woken afterwards where a rule drives it on; and
/// so is one by hand that was still blanking. No other is woken.
pub proof fn law_no_panel_is_left_dark(
    s: StateSnapshot,
    before: GenerationModel,
    after: GenerationModel,
    ruled: Seq<Seq<char>>,
    id: Seq<char>,
)
    ensures
        wakes_before(Some(s), before, after, ruled).contains(id) <==> restore::reports_dark(s, id)
            && (!after.executors.contains(id) || (!ruled.contains(id)
            && before.dispatch.contains_key(id) && after.dispatch.contains_key(id)
            && before.dispatch[id] != after.dispatch[id])),
        wakes_after(Some(s), after, ruled).contains(id) <==> (restore::reports_dark(s, id)
            && after.executors.contains(id) && ruled.contains(id)) || (restore::reports_phase(
            s,
            id,
            "blanking"@,
        ) && !ruled.contains(id)),
        wakes_before(None, before, after, ruled).len() == 0,
        wakes_after(None, after, ruled).len() == 0,
{
    restore::law_dark_displays_are_sorted_out(
        s,
        after.executors,
        before.dispatch,
        after.dispatch,
        ruled,
        id,
    );
    lemma_contained_in_sum(
        restore::pick(Some(s), restore::is_removed(after.executors)),
        restore::pick(Some(s), restore::is_changed(before.dispatch, after.dispatch, ruled)),
        id,
    );
    lemma_contained_in_sum(
        restore::pick(Some(s), restore::is_retained(after.executors, ruled)),
        restore::pick(Some(s), restore::is_blanking(ruled)),
        id,
    );
}

proof fn lemma_contained_in_sum<A>(a: Seq<A>, b: Seq<A>, x: A)
    ensures
        (a + b).contains(x) <==> a.contains(x) || b.contains(x),
{
    if a.contains(x) {
        let k = choose|k: int| 0 <= k < a.len() && a[k] == x;
        assert((a + b)[k] == x);
    }
    if b.contains(x) {
        let k = choose|k: int| 0 <= k < b.len() && b[k] == x;
        assert((a + b)[a.len() + k] == x);
    }
    if (a + b).contains(x) {
        let k = choose|k: int| 0 <= k < (a + b).len() && (a + b)[k] == x;
        if k < a.len() {
            assert(a[k] == x);
        } else {
            assert(b[k - a.len()] == x);
        }
    }
}

/// At its end a reload wakes exactly the displays that are to be woken and that
/// the new engine has.
pub proof fn law_reload_ends_with_its_wakes(
    r: RunnerModel,
    wake_after: Seq<Seq<char>>,
    bytes: Option<Seq<u8>>,
    now: Nanos,
    d: Seq<char>,
)
    ensures
        finished(r, wake_after, bytes, now).1.contains(Effect::<Seq<char>>::DefensiveWake(d))
            <==> wake_after.contains(d) && r.generation.executors.contains(d),
        finished(r, wake_after, bytes, now).1[0] == Effect::<Seq<char>>::WarnHazards,
{
    let f = wake_effect(r.generation.executors);
    let wake = Effect::<Seq<char>>::DefensiveWake(d);
    let head = seq![Effect::<Seq<char>>::WarnHazards];
    let mid = wake_effects(wake_after, r.generation.executors);
    let tail = seq![
        Effect::<Seq<char>>::PublishConfig,
        Effect::Ping(Boundary::ReloadEnd),
        Effect::Broadcast(ReloadOutcome::Reloaded),
    ];
    seqs::lemma_filter_map_members(wake_after, f, wake);
    lemma_contained_in_sum(head, mid, wake);
    lemma_contained_in_sum(head + mid, tail, wake);
    if mid.contains(wake) {
        let i = choose|i: int|
            0 <= i < wake_after.len() && f(#[trigger] wake_after[i]) == Some(wake);
        assert(wake_after[i] == d);
    }
    if wake_after.contains(d) && r.generation.executors.contains(d) {
        let i = choose|i: int| 0 <= i < wake_after.len() && wake_after[i] == d;
        assert(f(wake_after[i]) == Some(wake));
    }
}

/// A display is stuck exactly if the last snapshot still reports it as blanking.
pub proof fn law_stuck_display_is_still_blanking(s: StateSnapshot, id: Seq<char>, i: int)
    requires
        0 <= i < s.displays@.len(),
        s.displays@[i].0@ == id,
        forall|j: int| 0 <= j < i ==> (#[trigger] s.displays@[j]).0@ != id,
    ensures
        still_blanking(Some(s))(id) <==> s.displays@[i].1.phase@ == "blanking"@,
        !still_blanking(None)(id),
{
    restore::law_phase_is_that_of_the_first_entry(s.displays@, id, i);
}

/// What goes before the barrier is noted: that the web listener stays where it
/// is, exactly if it would have moved, and both stages.
pub proof fn law_steps_before_the_barrier_are_noted(web_changed: bool, barrier: Nanos)
    ensures
        ({
            let e = replacing_effects(web_changed, barrier);
            let n = e.len() as int;
            &&& e.contains(Effect::<Seq<char>>::NoteWebBindIgnored) <==> web_changed
            &&& e[0] == Effect::<Seq<char>>::Ping(Boundary::AfterQuiesce)
            &&& n == if web_changed { 9int } else { 8 }
            &&& e[n - 4] == Effect::<Seq<char>>::Record(LifecycleStage::RoutersPaused)
            &&& e[n - 2] == Effect::<Seq<char>>::Record(LifecycleStage::InputsQuiesced)
        }),
{
    let e = replacing_effects(web_changed, barrier);
    if web_changed {
        assert(e[1] == Effect::<Seq<char>>::NoteWebBindIgnored);
    }
}

/// An engine that passed the barrier is drained and torn down, in this order and
/// under its own number; one that did not stops the daemon, and the reason is
/// told.
pub proof fn law_engine_is_torn_down_once_it_is_drained(r: RunnerModel, e: BarrierEvent)
    ensures
        ({
            let effects = barrier_passed(r, e).1;
            &&& e == BarrierEvent::Acknowledged ==> effects == seq![
                Effect::<Seq<char>>::Record(LifecycleStage::BarrierAcknowledged),
                Effect::EmitDrained(r.generation_id),
                Effect::Teardown,
                Effect::Record(LifecycleStage::EngineTornDown),
            ]
            &&& e != BarrierEvent::Acknowledged ==> effects.len() == 2 && effects[0] == Effect::<
                Seq<char>,
            >::CancelRoot && effects[1] == Effect::Broadcast(
                ReloadOutcome::Rejected(barrier_failure(e)->0),
            )
        }),
{
}

/// A wake fails a reload exactly if it failed itself: the reason names the display
/// and the error, and the old config is spawned again, with its own number.
pub proof fn law_failed_wake_brings_the_old_config_back(
    r: RunnerModel,
    display: Seq<char>,
    result: WakeResult,
)
    ensures
        ({
            let (failed, effects) = wake_seen(r, display, result);
            &&& failed is Some <==> result is Failed
            &&& result is NoExecutor ==> effects.len() == 0
            &&& result is Woken ==> effects == seq![
                Effect::<Seq<char>>::Ping(Boundary::RemovedDisplayWake),
            ]
            &&& result matches WakeResult::Failed(error) ==> {
                &&& failed == Some(
                    "removed display '"@ + display + "' failed verified wake: "@ + error@,
                )
                &&& effects.len() == 2
                &&& effects[0] == Effect::<Seq<char>>::Ping(Boundary::BeforeRebuildOldWakeFailure)
                &&& effects[1] matches Effect::Spawn(p) && p.generation == r.generation_id
                    && p.pending == failed && p.rollback == r.rollback_status && !p.new_config
            }
        }),
{
}

/// The new config is spawned under the next number with nothing pending; where
/// that fails the old one is spawned again under its own, and reports why.
pub proof fn law_spawns_say_which_config_they_run(r: RunnerModel, error: Seq<char>)
    ensures
        next_plan(r).new_config,
        next_plan(r).pending is None,
        next_plan(r).rollback is None,
        r.generation_id < u64::MAX ==> next_plan(r).generation == r.generation_id + 1,
        ({
            let e = unspawned_effects(r, spawn_failure(error));
            &&& e.len() == 3
            &&& e[0] == Effect::<Seq<char>>::Ping(Boundary::BeforeRebuildOldSpawnFailure)
            &&& e[1] == Effect::<Seq<char>>::Record(LifecycleStage::RebuildOldStarted)
            &&& e[2] matches Effect::Spawn(p) && p.generation == r.generation_id && !p.new_config
                && p.rollback == r.rollback_status && p.pending == Some(
                "rebuild from new config failed: "@ + error,
            )
        }),
{
}

/// A spawned generation is installed first and then announced under its number;
/// out of a rollback the engine has nothing pending and the marks are cleared.
pub proof fn law_installed_generation_is_announced(r: RunnerModel)
    ensures
        ({
            let e = installed_effects(r);
            &&& e[0] == Effect::<Seq<char>>::Install
            &&& e[1] matches Effect::EmitStarted(g) && (r.generation_id < u64::MAX ==> g
                == r.generation_id + 1)
            &&& e.len() == if r.rollback_active { 4int } else { 2 }
            &&& r.rollback_active ==> e[2] == Effect::<Seq<char>>::SetPending(None) && e[3]
                == Effect::<Seq<char>>::ClearRollbackState
        }),
{
}

/// The old config that runs again is installed and announced under its own
/// number; either way the reason of the failure is told, and the stages are
/// recorded around that where they are to be.
pub proof fn law_rebuilt_generation_is_announced(
    r: RunnerModel,
    ok: bool,
    detail: Seq<char>,
    recorded: bool,
)
    ensures
        ({
            let e = rebuilt(r, ok, detail, recorded).1;
            let n = e.len() as int;
            let told = Effect::Broadcast(ReloadOutcome::Rejected(detail));
            &&& n == (if ok { 2int } else { 1 }) + (if recorded { 3int } else { 1 })
            &&& ok ==> e[0] == Effect::<Seq<char>>::Install && e[1] == Effect::<
                Seq<char>,
            >::EmitStarted(r.generation_id)
            &&& !ok ==> e[0] == Effect::<Seq<char>>::CancelRoot
            &&& !recorded ==> e[n - 1] == told
            &&& recorded ==> e[n - 2] == told && e[n - 3] == Effect::<Seq<char>>::Record(
                LifecycleStage::RebuildOldFinished,
            ) && e[n - 1] == Effect::<Seq<char>>::Record(LifecycleStage::OutcomeBroadcast)
        }),
{
}

/// A failure to clear the marks is reported exactly once until it succeeds.
pub proof fn law_failed_clear_is_reported_once(c: RollbackClear)
    ensures
        clear_tried(c, false).1 == !c.warned,
        clear_tried(c, false).0.warned,
        clear_tried(c, false).0.pending,
        clear_tried(clear_tried(c, true).0, false).1,
        !clear_tried(c, true).1,
        !clear_tried(c, true).0.pending,
{
}

/// A tick of the watchdog looks at the candidate only where the engine answers,
/// over the stability window of the running config; silence is reported once
/// until there is an answer; and nothing else of the runner changes.
pub proof fn law_watchdog_tick_touches_the_candidate_alone(
    r: RunnerModel,
    routed: bool,
    probe: Option<StateSnapshot>,
    now: Nanos,
    fresh: Option<Seq<u8>>,
)
    ensures
        ({
            let (after, step) = watched(r, routed, probe, now, fresh);
            &&& !routed ==> after == r && step is RouteMissing
            &&& routed && probe is None ==> {
                &&& step == WatchdogStep::<Seq<char>, Seq<u8>>::Withhold {
                    warn: !r.probe_failed_warned,
                }
                &&& after.probe_failed_warned
                &&& after.lkg.defer_count == r.lkg.defer_count
                &&& after.lkg.candidate is Some <==> r.lkg.candidate is Some
                &&& after.lkg.candidate is Some ==> after.lkg.candidate->0.since == now
                    && after.lkg.candidate->0.bytes == r.lkg.candidate->0.bytes
            }
            &&& routed ==> (probe matches Some(s) ==> {
                let (tracker, inner) = lkg::ticked(
                    r.lkg,
                    snapshot::some_display_failing(s),
                    now,
                    r.generation.stability_window,
                    fresh,
                );
                &&& step == WatchdogStep::Ping(inner)
                &&& after.lkg == tracker
                &&& !after.probe_failed_warned
            })
            &&& after == (RunnerModel {
                lkg: after.lkg,
                probe_failed_warned: after.probe_failed_warned,
                ..r
            })
        }),
{
}

/// Every stage of a reload goes by its own name.
pub proof fn law_stages_are_named()
    ensures
        stage_name(LifecycleStage::SnapshotBypassed) == "snapshot_bypassed"@,
        stage_name(LifecycleStage::RoutersPaused) == "routers_paused"@,
        stage_name(LifecycleStage::InputsQuiesced) == "inputs_quiesced"@,
        stage_name(LifecycleStage::BarrierAcknowledged) == "barrier_acknowledged"@,
        stage_name(LifecycleStage::EngineTornDown) == "engine_torn_down"@,
        stage_name(LifecycleStage::RebuildOldStarted) == "rebuild_old_started"@,
        stage_name(LifecycleStage::RebuildOldFinished) == "rebuild_old_finished"@,
        stage_name(LifecycleStage::OutcomeBroadcast) == "outcome_broadcast"@,
{
}

/// Receipts, tickets and plans are seen with all that they hold, and lists of
/// effects one for one.
pub proof fn law_receipts_are_seen_whole(
    r: ReloadReceipt,
    t: ReloadTicket,
    p: SpawnPlan<String>,
    g: GenerationConfig,
    effects: Seq<Effect<String>>,
    i: int,
)
    ensures
        r@.request_ids == r.request_ids@ && r@.sources == r.sources@,
        r@.requested_revision == r.requested_revision@,
        r@.applied_revision == r.applied_revision@,
        r@.generation == r.generation && r@.outcome == r.outcome@ && r@.coalesced == r.coalesced,
        t@.request_ids == t.request_ids@ && t@.sources == t.sources@ && t@.requested
            == t.requested@,
        p@.generation == p.generation && p@.new_config == p.new_config,
        p@.pending == text::opt_text(p.pending) && p@.rollback == text::opt_text(p.rollback),
        g@.executors == text::texts(g.executors@),
        g@.dispatch == g.dispatch@ && g@.sensors == g.sensors@,
        g@.barrier_ack_timeout == g.barrier_ack_timeout && g@.stability_window
            == g.stability_window && g@.reload_debounce == g.reload_debounce,
        effect_models(effects).len() == effects.len(),
        0 <= i < effects.len() ==> effect_models(effects)[i] == effects[i]@,
{
}

/// Requests are gathered for the debounce of the running config, and not at all
/// where it has none.
pub proof fn law_requests_are_gathered_for_the_debounce(r: Runner, window: Option<Nanos>)
    requires
        call_ensures(Runner::gather_window, (&r,), window),
    ensures
        window is None <==> r@.generation.reload_debounce == 0,
        window matches Some(t) ==> t == r@.generation.reload_debounce,
{
}

/// A reload whose old engine does not drain says how it failed to.
pub proof fn law_failed_barrier_says_how()
    ensures
        barrier_failure(BarrierEvent::Closed) == Some(
            "old engine closed before accepting its generation barrier"@,
        ),
        barrier_failure(BarrierEvent::Dropped) == Some(
            "old engine exited before acknowledging its generation barrier"@,
        ),
        barrier_failure(BarrierEvent::TimedOut) == Some(
            "old engine did not acknowledge its generation barrier before timeout"@,
        ),
        barrier_failure(BarrierEvent::Acknowledged) is None,
{
}

} // verus!
