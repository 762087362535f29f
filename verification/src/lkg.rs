//! The candidate for the last-known-good config: armed with the config that
//! runs, promoted once it has run well for long enough.

use vstd::prelude::*;

use crate::boot_guard;
use crate::boot_guard::{fingerprint_bytes, same_bytes, should_promote, Fingerprint, PromoteVerdict};
use crate::clock;
use crate::clock::Nanos;
use crate::snapshot;
use crate::snapshot::{any_display_failing, StateSnapshot};

verus! {

/// The file that says where the last-known-good config came from.
pub const LKG_META_FILE: &'static str = "last-known-good.meta.json";

/// The config that runs, on its way to being last-known-good.
#[derive(PartialEq, Eq, Debug)]
pub struct LkgCandidate {
    /// The bytes that were on disk when the config started to run.
    pub bytes: Vec<u8>,
    /// Since when it has run without a failed probe.
    pub since: Nanos,
    /// Whether it was started by a boot or by a reload.
    pub source: &'static str,
    pub dirty_logged: bool,
    pub health_deferred_logged: bool,
    pub save_failed_logged: bool,
}

/// The model of a candidate.
#[verifier::ext_equal]
pub struct CandidateModel {
    pub bytes: Seq<u8>,
    pub since: Nanos,
    pub source: Seq<char>,
    pub dirty_logged: bool,
    pub health_deferred_logged: bool,
    pub save_failed_logged: bool,
}

impl View for LkgCandidate {
    type V = CandidateModel;

    open spec fn view(&self) -> CandidateModel {
        CandidateModel {
            bytes: self.bytes@,
            since: self.since,
            source: self.source@,
            dirty_logged: self.dirty_logged,
            health_deferred_logged: self.health_deferred_logged,
            save_failed_logged: self.save_failed_logged,
        }
    }
}

/// The model of a candidate that may be missing.
pub open spec fn opt_candidate(c: Option<LkgCandidate>) -> Option<CandidateModel> {
    match c {
        Some(c) => Some(c@),
        None => None,
    }
}

/// The bytes of a file that may be missing.
pub open spec fn opt_bytes(b: Option<Vec<u8>>) -> Option<Seq<u8>> {
    match b {
        Some(b) => Some(b@),
        None => None,
    }
}

/// The candidate of a config that starts to run: none where it is not wanted or
/// the file cannot be read.
pub open spec fn armed(
    bytes: Option<Seq<u8>>,
    enabled: bool,
    source: Seq<char>,
    now: Nanos,
) -> Option<CandidateModel> {
    match bytes {
        Some(bytes) if enabled => Some(
            CandidateModel {
                bytes,
                since: now,
                source,
                dirty_logged: false,
                health_deferred_logged: false,
                save_failed_logged: false,
            },
        ),
        _ => None,
    }
}

/// The candidate of a config that starts to run. `bytes` is what the config file
/// holds, where it can be read.
pub fn new_lkg_candidate(
    bytes: Option<Vec<u8>>,
    lkg_enabled: bool,
    source: &'static str,
    now: Nanos,
) -> (res: Option<LkgCandidate>)
    ensures
        opt_candidate(res) == armed(opt_bytes(bytes), lkg_enabled, source@, now),
{
    if !lkg_enabled {
        return None;
    }
    match bytes {
        Some(bytes) => Some(
            LkgCandidate {
                bytes,
                since: now,
                source,
                dirty_logged: false,
                health_deferred_logged: false,
                save_failed_logged: false,
            },
        ),
        None => None,
    }
}

/// What can be seen of a candidate from outside.
#[derive(Clone, Debug, PartialEq, Eq)]
pub struct LkgCandidateObserved {
    /// Whether there is one.
    pub armed: bool,
    /// Its source.
    pub source: Option<&'static str>,
    /// Its bytes.
    pub bytes: Option<Vec<u8>>,
}

impl Default for LkgCandidateObserved {
    fn default() -> (res: Self)
        ensures
            !res.armed,
            res.source is None,
            res.bytes is None,
    {
        LkgCandidateObserved { armed: false, source: None, bytes: None }
    }
}

impl LkgCandidateObserved {
    /// What can be seen of a candidate.
    pub fn from_candidate(candidate: Option<&LkgCandidate>) -> (res: Self)
        ensures
            match candidate {
                Some(c) => res.armed && res.source == Some(c.source) && opt_bytes(res.bytes)
                    == Some(c.bytes@),
                None => !res.armed && res.source is None && res.bytes is None,
            },
    {
        match candidate {
            Some(c) => LkgCandidateObserved {
                armed: true,
                source: Some(c.source),
                bytes: Some(copy_bytes(&c.bytes)),
            },
            None => LkgCandidateObserved::default(),
        }
    }
}

fn copy_bytes(bytes: &Vec<u8>) -> (out: Vec<u8>)
    ensures
        out@ == bytes@,
{
    let mut out: Vec<u8> = Vec::new();
    let mut i: usize = 0;
    while i < bytes.len()
        invariant
            i <= bytes@.len(),
            out@ == bytes@.take(i as int),
        decreases bytes@.len() - i,
    {
        out.push(bytes[i]);
        assert(bytes@.take(i + 1) =~= bytes@.take(i as int).push(bytes@[i as int]));
        i = i + 1;
    }
    assert(bytes@.take(i as int) =~= bytes@);
    out
}

/// A candidate whose window starts over.
pub open spec fn restarted(c: Option<CandidateModel>, now: Nanos) -> Option<CandidateModel> {
    match c {
        Some(c) => Some(CandidateModel { since: now, ..c }),
        None => None,
    }
}

/// Start a candidate's window over, after a probe of the engine has failed.
pub fn reset_candidate_on_probe_failure(candidate: &mut Option<LkgCandidate>, now: Nanos)
    ensures
        opt_candidate(*final(candidate)) == restarted(opt_candidate(*old(candidate)), now),
{
    if let Some(mut c) = candidate.take() {
        c.since = now;
        *candidate = Some(c);
    }
}

/// What a tick of the watchdog makes of the candidate.
#[derive(PartialEq, Eq, Debug)]
#[verifier::ext_equal]
pub enum LkgStep<S, B> {
    /// There is none, or it has not run for long enough.
    Idle,
    /// A display is failing. `warn` is set the first time.
    Deferred { warn: bool },
    /// The file is no longer what runs. `warn` is set the first time.
    Dirty { warn: bool },
    /// Save these bytes.
    Save { source: S, bytes: B, despite_health: bool },
}

impl View for LkgStep<&'static str, Vec<u8>> {
    type V = LkgStep<Seq<char>, Seq<u8>>;

    open spec fn view(&self) -> LkgStep<Seq<char>, Seq<u8>> {
        match *self {
            LkgStep::Idle => LkgStep::Idle,
            LkgStep::Deferred { warn } => LkgStep::Deferred { warn },
            LkgStep::Dirty { warn } => LkgStep::Dirty { warn },
            LkgStep::Save { source, bytes, despite_health } => LkgStep::Save {
                source: source@,
                bytes: bytes@,
                despite_health,
            },
        }
    }
}

/// The candidate, and how often its promotion was put off.
#[derive(PartialEq, Eq, Debug)]
pub struct LkgTracker {
    pub candidate: Option<LkgCandidate>,
    pub defer_count: u32,
}

/// The model of a tracker.
#[verifier::ext_equal]
pub struct TrackerModel {
    pub candidate: Option<CandidateModel>,
    pub defer_count: u32,
}

impl View for LkgTracker {
    type V = TrackerModel;

    open spec fn view(&self) -> TrackerModel {
        TrackerModel {
            candidate: opt_candidate(self.candidate),
            defer_count: self.defer_count,
        }
    }
}

/// What a healthy tick makes of the candidate: the tracker afterwards, and what
/// is to be done. `fresh` is what the config file holds now. Deferrals count in a
/// row: a tick that finds the candidate through its window and no display failing
/// ends the row.
pub open spec fn ticked(
    t: TrackerModel,
    failing: bool,
    now: Nanos,
    window: Nanos,
    fresh: Option<Seq<u8>>,
) -> (TrackerModel, LkgStep<Seq<char>, Seq<u8>>) {
    match t.candidate {
        None => (t, LkgStep::Idle),
        Some(c) => match boot_guard::promotion(
            clock::elapsed(c.since, now),
            window as int,
            failing,
            t.defer_count as int,
            fresh == Some(c.bytes),
        ) {
            PromoteVerdict::Wait => (t, LkgStep::Idle),
            PromoteVerdict::DeferHealth => (
                TrackerModel {
                    candidate: Some(CandidateModel { health_deferred_logged: true, ..c }),
                    defer_count: (t.defer_count + 1) as u32,
                },
                LkgStep::Deferred { warn: !c.health_deferred_logged },
            ),
            PromoteVerdict::SkipDirty => (
                TrackerModel {
                    candidate: Some(CandidateModel { dirty_logged: true, ..c }),
                    defer_count: if failing {
                        t.defer_count
                    } else {
                        0
                    },
                },
                LkgStep::Dirty { warn: !c.dirty_logged },
            ),
            PromoteVerdict::Promote => (
                TrackerModel { defer_count: 0, ..t },
                LkgStep::Save { source: c.source, bytes: c.bytes, despite_health: false },
            ),
            PromoteVerdict::PromoteDespiteHealth => (
                t,
                LkgStep::Save { source: c.source, bytes: c.bytes, despite_health: true },
            ),
        },
    }
}

/// The tracker once a save was tried, and whether its failure is to be reported.
pub open spec fn saved(t: TrackerModel, ok: bool) -> (TrackerModel, bool) {
    if ok {
        (TrackerModel { candidate: None, defer_count: 0 }, false)
    } else {
        match t.candidate {
            Some(c) => (
                TrackerModel {
                    candidate: Some(CandidateModel { save_failed_logged: true, ..c }),
                    ..t
                },
                !c.save_failed_logged,
            ),
            None => (t, false),
        }
    }
}

impl LkgTracker {
    /// What a healthy tick makes of the candidate. `fresh` is what the config
    /// file holds now, where it can be read; what is saved is what was compared.
    pub fn lkg_tick_at(
        &mut self,
        snapshot: &StateSnapshot,
        now: Nanos,
        window: Nanos,
        fresh: Option<Vec<u8>>,
    ) -> (step: LkgStep<&'static str, Vec<u8>>)
        ensures
            (final(self)@, step@) == ticked(
                old(self)@,
                snapshot::some_display_failing(*snapshot),
                now,
                window,
                opt_bytes(fresh),
            ),
    {
        let (since, source, matches) = match &self.candidate {
            None => {
                return LkgStep::Idle;
            },
            Some(c) => {
                let matches = match &fresh {
                    Some(b) => same_bytes(b, &c.bytes),
                    None => false,
                };
                (c.since, c.source, matches)
            },
        };
        match should_promote(since, now, window, snapshot, self.defer_count, matches) {
            PromoteVerdict::Wait => LkgStep::Idle,
            PromoteVerdict::DeferHealth => {
                self.defer_count = self.defer_count + 1;
                let mut warn = false;
                if let Some(mut c) = self.candidate.take() {
                    warn = !c.health_deferred_logged;
                    c.health_deferred_logged = true;
                    self.candidate = Some(c);
                }
                LkgStep::Deferred { warn }
            },
            PromoteVerdict::SkipDirty => {
                if !any_display_failing(snapshot) {
                    self.defer_count = 0;
                }
                let mut warn = false;
                if let Some(mut c) = self.candidate.take() {
                    warn = !c.dirty_logged;
                    c.dirty_logged = true;
                    self.candidate = Some(c);
                }
                LkgStep::Dirty { warn }
            },
            PromoteVerdict::Promote => {
                self.defer_count = 0;
                match fresh {
                    Some(bytes) => LkgStep::Save { source, bytes, despite_health: false },
                    None => LkgStep::Idle,
                }
            },
            PromoteVerdict::PromoteDespiteHealth => match fresh {
                Some(bytes) => LkgStep::Save { source, bytes, despite_health: true },
                None => LkgStep::Idle,
            },
        }
    }

    /// A save was tried. The candidate goes once it is saved; otherwise it stays
    /// and the next tick tries again. The result says whether the failure is to
    /// be reported.
    pub fn save_finished(&mut self, ok: bool) -> (warn: bool)
        ensures
            (final(self)@, warn) == saved(old(self)@, ok),
    {
        if ok {
            self.defer_count = 0;
            self.candidate = None;
            return false;
        }
        let mut warn = false;
        if let Some(mut c) = self.candidate.take() {
            warn = !c.save_failed_logged;
            c.save_failed_logged = true;
            self.candidate = Some(c);
        }
        warn
    }
}

/// What is written beside the last-known-good config.
#[derive(PartialEq, Eq, Debug)]
pub struct LkgMeta {
    pub schema_version: u32,
    pub fingerprint: Fingerprint,
    pub saved_at_epoch_s: u64,
    pub source: &'static str,
}

/// What is written beside the last-known-good config whose bytes are `bytes`.
/// The bytes go to [`boot_guard::LKG_FILE`] first, this to [`LKG_META_FILE`].
pub fn write_lkg(source: &'static str, bytes: &Vec<u8>, now_epoch_s: u64) -> (meta: LkgMeta)
    ensures
        meta.schema_version == 1,
        meta.fingerprint == boot_guard::fingerprint_of(bytes@),
        meta.saved_at_epoch_s == now_epoch_s,
        meta.source@ == source@,
{
    LkgMeta {
        schema_version: 1,
        fingerprint: fingerprint_bytes(bytes.as_slice()),
        saved_at_epoch_s: now_epoch_s,
        source,
    }
}

// ── laws ─────────────────────────────────────────────────────────────────

/// What is saved is what runs: the bytes of the candidate, which are the bytes
/// that the tick found on disk.
pub proof fn law_saved_bytes_are_the_candidates(
    t: TrackerModel,
    failing: bool,
    now: Nanos,
    window: Nanos,
    fresh: Option<Seq<u8>>,
)
    ensures
        ticked(t, failing, now, window, fresh).1 matches LkgStep::Save { source, bytes, .. }
            ==> t.candidate matches Some(c) && bytes == c.bytes && fresh == Some(bytes) && source
            == c.source && clock::elapsed(c.since, now) >= window,
{
}

/// A tick never drops the candidate; only a save that succeeded does.
pub proof fn law_candidate_goes_only_when_saved(
    t: TrackerModel,
    failing: bool,
    now: Nanos,
    window: Nanos,
    fresh: Option<Seq<u8>>,
)
    requires
        t.candidate is Some,
    ensures
        ticked(t, failing, now, window, fresh).0.candidate is Some,
        saved(t, false).0.candidate is Some,
        saved(t, true).0.candidate is None,
{
}

/// A failed probe starts the window over: a candidate is not saved until it has
/// run for the whole window since.
pub proof fn law_failed_probe_restarts_the_window(
    t: TrackerModel,
    failing: bool,
    failed_at: Nanos,
    now: Nanos,
    window: Nanos,
    fresh: Option<Seq<u8>>,
)
    requires
        clock::elapsed(failed_at, now) < window,
    ensures
        ({
            let reset = TrackerModel { candidate: restarted(t.candidate, failed_at), ..t };
            ticked(reset, failing, now, window, fresh).1 is Idle
        }),
{
}

/// Each kind of trouble is reported once for a candidate.
pub proof fn law_trouble_is_reported_once(
    t: TrackerModel,
    failing: bool,
    now: Nanos,
    window: Nanos,
    fresh: Option<Seq<u8>>,
)
    ensures
        ({
            let (after, step) = ticked(t, failing, now, window, fresh);
            &&& step is Deferred ==> after.candidate is Some && after.candidate->0
                .health_deferred_logged
            &&& step matches LkgStep::Deferred { warn } ==> warn == !t.candidate->0
                .health_deferred_logged
            &&& step is Dirty ==> after.candidate is Some && after.candidate->0.dirty_logged
            &&& step matches LkgStep::Dirty { warn } ==> warn == !t.candidate->0.dirty_logged
        }),
{
}

/// A tick that finds the candidate through its window and no display failing
/// ends the row of deferrals, whatever else keeps the candidate from being saved.
pub proof fn law_healthy_tick_ends_the_deferrals(
    t: TrackerModel,
    c: CandidateModel,
    now: Nanos,
    window: Nanos,
    fresh: Option<Seq<u8>>,
    ok: bool,
)
    requires
        t.candidate == Some(c),
        clock::elapsed(c.since, now) >= window,
    ensures
        ticked(t, false, now, window, fresh).0.defer_count == 0,
        saved(ticked(t, false, now, window, fresh).0, ok).0.defer_count == 0,
        ticked(t, false, now, window, fresh).0.candidate == Some(
            CandidateModel { dirty_logged: c.dirty_logged || fresh != Some(c.bytes), ..c },
        ),
{
}

/// Promotion is put off at most as often as the cap allows.
pub proof fn law_deferrals_stay_within_the_cap(
    t: TrackerModel,
    failing: bool,
    now: Nanos,
    window: Nanos,
    fresh: Option<Seq<u8>>,
)
    requires
        t.defer_count <= boot_guard::LKG_HEALTH_DEFER_CAP,
    ensures
        ticked(t, failing, now, window, fresh).0.defer_count <= boot_guard::LKG_HEALTH_DEFER_CAP,
{
}

/// A candidate is armed exactly if saving is on and the file could be read: with
/// its bytes, from now on, with nothing reported of it yet.
pub proof fn law_candidate_is_armed_where_saving_is_on(
    bytes: Option<Seq<u8>>,
    enabled: bool,
    source: Seq<char>,
    now: Nanos,
)
    ensures
        armed(bytes, enabled, source, now) is Some <==> enabled && bytes is Some,
        armed(bytes, enabled, source, now) matches Some(c) ==> {
            &&& Some(c.bytes) == bytes
            &&& c.since == now
            &&& c.source == source
            &&& !c.dirty_logged && !c.health_deferred_logged && !c.save_failed_logged
        },
{
}

/// A failed probe starts the window anew and changes nothing else of a candidate.
pub proof fn law_restart_changes_the_time_alone(c: Option<CandidateModel>, now: Nanos)
    ensures
        restarted(c, now) is Some <==> c is Some,
        c matches Some(c) ==> {
            let r = restarted(Some(c), now)->0;
            &&& r.since == now
            &&& r.bytes == c.bytes
            &&& r.source == c.source
            &&& r.dirty_logged == c.dirty_logged
            &&& r.health_deferred_logged == c.health_deferred_logged
            &&& r.save_failed_logged == c.save_failed_logged
        },
{
}

/// A tick within the window does nothing. After it a healthy tick saves bytes
/// that are still on disk and reports others as edited; a failing one is put off
/// three times, each counted, and then saved all the same.
pub proof fn law_candidate_is_saved_once_it_has_proved_itself(
    t: TrackerModel,
    c: CandidateModel,
    failing: bool,
    now: Nanos,
    window: Nanos,
    fresh: Option<Seq<u8>>,
)
    requires
        t.candidate == Some(c),
    ensures
        ({
            let (after, step) = ticked(t, failing, now, window, fresh);
            let through = now >= c.since + window || window == 0;
            let save = |despite: bool|
                LkgStep::<Seq<char>, Seq<u8>>::Save {
                    source: c.source,
                    bytes: c.bytes,
                    despite_health: despite,
                };
            &&& !through ==> step is Idle && after == t
            &&& through && !failing && fresh == Some(c.bytes) ==> step == save(false)
            &&& through && !failing && fresh != Some(c.bytes) ==> step is Dirty
            &&& through && failing && t.defer_count < 3 ==> step is Deferred && after.defer_count
                == t.defer_count + 1
            &&& through && failing && t.defer_count >= 3 && fresh == Some(c.bytes) ==> step
                == save(true)
            &&& through && failing && t.defer_count >= 3 && fresh != Some(c.bytes) ==> step
                is Dirty && after.defer_count == t.defer_count
            &&& after.candidate is Some
            &&& after.candidate->0.bytes == c.bytes
            &&& after.candidate->0.since == c.since
            &&& after.candidate->0.source == c.source
            &&& after.candidate->0.save_failed_logged == c.save_failed_logged
        }),
{
    boot_guard::law_promotion_waits_for_a_healthy_window(
        clock::elapsed(c.since, now),
        window as int,
        failing,
        t.defer_count as int,
        fresh == Some(c.bytes),
    );
}

/// Without a candidate a tick does nothing.
pub proof fn law_nothing_is_saved_without_a_candidate(
    t: TrackerModel,
    failing: bool,
    now: Nanos,
    window: Nanos,
    fresh: Option<Seq<u8>>,
    ok: bool,
)
    requires
        t.candidate is None,
    ensures
        ticked(t, failing, now, window, fresh) == (
            t,
            LkgStep::<Seq<char>, Seq<u8>>::Idle,
        ),
        saved(t, false) == (t, false),
{
}

/// A save that fails keeps the candidate as it is and is reported once; one that
/// succeeds ends the tracking.
pub proof fn law_failed_save_is_reported_once(t: TrackerModel, c: CandidateModel)
    requires
        t.candidate == Some(c),
    ensures
        saved(t, true).0 == (TrackerModel { candidate: None, defer_count: 0 }),
        !saved(t, true).1,
        saved(t, false).1 == !c.save_failed_logged,
        !saved(saved(t, false).0, false).1,
        saved(t, false).0.defer_count == t.defer_count,
        saved(t, false).0.candidate == Some(CandidateModel { save_failed_logged: true, ..c }),
{
}

/// A tracker is seen with its candidate and its count, and bytes that may be
/// missing as what they are.
pub proof fn law_tracker_is_seen_whole(t: LkgTracker, b: Option<Vec<u8>>)
    ensures
        b is Some <==> opt_bytes(b) is Some,
        b matches Some(v) ==> opt_bytes(b) == Some(v@),
        t@.defer_count == t.defer_count,
        t.candidate is Some <==> t@.candidate is Some,
        t.candidate matches Some(c) ==> t@.candidate == Some(c@),
        t.candidate matches Some(c) ==> c@.bytes == c.bytes@ && c@.since == c.since && c@.source
            == c.source@ && c@.dirty_logged == c.dirty_logged && c@.health_deferred_logged
            == c.health_deferred_logged && c@.save_failed_logged == c.save_failed_logged,
{
}

} // verus!
