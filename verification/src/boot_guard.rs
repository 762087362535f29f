//! Crash-loop bookkeeping and the boot-time rollback decision.
//!
//! Each boot records itself in `crash-loop.json`, then [`decide`] tells from the
//! recent starts whether the operator's config is to be run, rolled back to the
//! last-known-good copy, or held back a while longer. [`should_promote`] is the
//! gate through which a config becomes last-known-good.

use std::collections::hash_map::DefaultHasher;
use std::collections::HashSet;
use std::hash::Hasher;

use vstd::prelude::*;
use vstd::std_specs::hash::DefaultHasherAdditionalSpecFns;
use vstd::string::StringExecFns;

use crate::clock;
use crate::clock::{elapsed_since, Nanos};
use crate::seqs;
use crate::snapshot;
use crate::snapshot::{any_display_failing, StateSnapshot};
use crate::text;
use crate::text::{chars_of, parse_u64_from, same_text, starts_with};

verus! {

broadcast use vstd::std_specs::hash::group_hash_axioms;

/// Starts within the window that make a crash loop, this one included.
pub const CRASH_LOOP_THRESHOLD: u32 = 3;

/// Length of the crash-loop window in seconds.
pub const CRASH_LOOP_WINDOW: u64 = 360;

/// Consecutive health deferrals after which a promotion goes ahead anyway.
pub const LKG_HEALTH_DEFER_CAP: u32 = 3;

/// Start entries kept in `crash-loop.json`.
pub const MAX_STARTS: usize = 10;

/// Name of the persisted crash-loop state.
pub const CRASH_LOOP_FILE: &'static str = "crash-loop.json";

/// Name of the last-known-good config.
pub const LKG_FILE: &'static str = "last-known-good.toml";

/// Prefix of the files that disown a start.
pub const DISCOUNT_PREFIX: &'static str = "discount-";

/// Banner while a rollback sticks.
pub const STICKY_MESSAGE: &'static str =
    "sticky rollback active; latest config is still being held back — edit it, wait past CRASH_LOOP_WINDOW for a loud retry, or set watchdog.lkg_rollback_enabled = false while debugging";

/// Banner when the operator's config gets another try.
pub const RETRY_MESSAGE: &'static str =
    "retrying latest config after a quiet period; to stop this cycle, edit the config, wait past CRASH_LOOP_WINDOW between restarts, or set watchdog.lkg_rollback_enabled = false while debugging";

// ── paths ────────────────────────────────────────────────────────────────

/// The path of file `name` in directory `dir`.
pub open spec fn joined(dir: Seq<char>, name: Seq<char>) -> Seq<char> {
    if dir.len() == 0 || dir.last() == '/' {
        dir + name
    } else {
        dir + seq!['/'] + name
    }
}

/// The path of file `name` in directory `dir`.
pub fn join_path(dir: &str, name: &str) -> (path: String)
    ensures
        path@ == joined(dir@, name@),
{
    let cs = chars_of(dir);
    let mut path = dir.to_owned();
    if cs.len() > 0 && cs[cs.len() - 1] != '/' {
        proof {
            reveal_strlit("/");
            assert("/"@ =~= seq!['/']);
        }
        path.append("/");
    }
    path.append(name);
    path
}

/// The path of the last-known-good config in `state_dir`.
pub fn lkg_path(state_dir: &str) -> (path: String)
    ensures
        path@ == joined(state_dir@, LKG_FILE@),
{
    join_path(state_dir, LKG_FILE)
}

// ── Fingerprint ──────────────────────────────────────────────────────────

/// Identity of a config file's bytes, or the mark of a file that could not be
/// read at all.
///
/// `hash64` is stable within one build of the daemon, not across builds: an
/// upgrade forgets old loop history.
#[derive(Clone, Copy, PartialEq, Eq, Debug, Structural)]
pub enum Fingerprint {
    Bytes { len: u64, hash64: u64 },
    Unreadable,
}

/// What `<[u8] as Hash>::hash` writes into a hasher for a slice of bytes, as the
/// list of its writes. One build of the daemon always writes the same; another
/// build, or one for another machine, may write something else.
pub uninterp spec fn slice_hash_writes(bytes: Seq<u8>) -> Seq<Seq<u8>>;

/// `<[u8] as std::hash::Hash>::hash` into a `DefaultHasher`: it adds writes to
/// the hasher's input that are determined by the bytes alone. Which writes these
/// are, a length prefix among them, is left to the standard library.
#[verifier::external_body]
fn hash_slice(bytes: &[u8], hasher: &mut DefaultHasher)
    ensures
        final(hasher)@ == old(hasher)@ + slice_hash_writes(bytes@),
{
    std::hash::Hash::hash(bytes, hasher)
}

/// The fingerprint of a sequence of bytes.
pub open spec fn fingerprint_of(bytes: Seq<u8>) -> Fingerprint {
    Fingerprint::Bytes {
        len: bytes.len() as u64,
        hash64: DefaultHasher::spec_finish(slice_hash_writes(bytes)),
    }
}

/// The fingerprint of a file's contents, `None` standing for an unreadable file.
pub open spec fn fingerprint_of_file(contents: Option<Vec<u8>>) -> Fingerprint {
    match contents {
        Some(bytes) => fingerprint_of(bytes@),
        None => Fingerprint::Unreadable,
    }
}

/// Fingerprint a byte slice.
pub fn fingerprint_bytes(bytes: &[u8]) -> (fp: Fingerprint)
    ensures
        fp == fingerprint_of(bytes@),
{
    let mut hasher = DefaultHasher::new();
    hash_slice(bytes, &mut hasher);
    assert(hasher@ =~= slice_hash_writes(bytes@));
    Fingerprint::Bytes { len: bytes.len() as u64, hash64: hasher.finish() }
}

/// Fingerprint a file's contents; an unreadable file has the `Unreadable` mark.
pub fn fingerprint_file(contents: &Option<Vec<u8>>) -> (fp: Fingerprint)
    ensures
        fp == fingerprint_of_file(*contents),
{
    match contents {
        Some(bytes) => fingerprint_bytes(bytes.as_slice()),
        None => Fingerprint::Unreadable,
    }
}

/// Which field of a persisted fingerprint a key names.
#[derive(Clone, Copy, PartialEq, Eq, Debug, Structural)]
pub enum FingerprintKey {
    Len,
    Hash64,
    Other,
}

/// Why a persisted fingerprint is refused.
#[derive(Clone, Copy, PartialEq, Eq, Debug, Structural)]
pub enum FingerprintError {
    UnknownText,
    MissingLen,
    MissingHash64,
}

/// The fields of a persisted fingerprint object, as far as they were given.
#[derive(Clone, Copy, PartialEq, Eq, Debug, Structural)]
pub struct FingerprintFields {
    pub len: Option<u64>,
    pub hash64: Option<u64>,
}

/// Which field `key` names; unknown keys are skipped by the reader.
pub fn fingerprint_key(key: &str) -> (res: FingerprintKey)
    ensures
        res == (if key@ == "len"@ {
            FingerprintKey::Len
        } else if key@ == "hash64"@ {
            FingerprintKey::Hash64
        } else {
            FingerprintKey::Other
        }),
{
    if same_text(key, "len") {
        FingerprintKey::Len
    } else if same_text(key, "hash64") {
        FingerprintKey::Hash64
    } else {
        FingerprintKey::Other
    }
}

/// A persisted fingerprint: a bare text, or an object with fields.
#[derive(Clone, Copy, PartialEq, Eq, Debug)]
#[verifier::ext_equal]
pub enum PersistedFingerprint<T> {
    Text(T),
    Object(FingerprintFields),
}

/// How a fingerprint is persisted: the mark of an unreadable file as a text, any
/// other with both fields.
pub open spec fn persisted(fp: Fingerprint) -> PersistedFingerprint<Seq<char>> {
    match fp {
        Fingerprint::Bytes { len, hash64 } => PersistedFingerprint::Object(
            FingerprintFields { len: Some(len), hash64: Some(hash64) },
        ),
        Fingerprint::Unreadable => PersistedFingerprint::Text("unreadable"@),
    }
}

/// Persist a fingerprint.
pub fn persist_fingerprint(fp: Fingerprint) -> (res: PersistedFingerprint<&'static str>)
    ensures
        match res {
            PersistedFingerprint::Text(t) => persisted(fp) == PersistedFingerprint::Text(t@),
            PersistedFingerprint::Object(f) => persisted(fp)
                == PersistedFingerprint::<Seq<char>>::Object(f),
        },
{
    match fp {
        Fingerprint::Bytes { len, hash64 } => PersistedFingerprint::Object(
            FingerprintFields { len: Some(len), hash64: Some(hash64) },
        ),
        Fingerprint::Unreadable => PersistedFingerprint::Text("unreadable"),
    }
}

/// The fingerprint that a text stands for.
pub open spec fn text_fingerprint(v: Seq<char>) -> Result<Fingerprint, FingerprintError> {
    if v == "unreadable"@ {
        Ok(Fingerprint::Unreadable)
    } else {
        Err(FingerprintError::UnknownText)
    }
}

/// The fingerprint that some fields stand for: both are needed.
pub open spec fn fields_fingerprint(f: FingerprintFields) -> Result<Fingerprint, FingerprintError> {
    match (f.len, f.hash64) {
        (Some(len), Some(hash64)) => Ok(Fingerprint::Bytes { len, hash64 }),
        (None, _) => Err(FingerprintError::MissingLen),
        (_, None) => Err(FingerprintError::MissingHash64),
    }
}

/// The fingerprint that its persisted form stands for.
pub open spec fn restored(p: PersistedFingerprint<Seq<char>>) -> Result<
    Fingerprint,
    FingerprintError,
> {
    match p {
        PersistedFingerprint::Text(t) => text_fingerprint(t),
        PersistedFingerprint::Object(f) => fields_fingerprint(f),
    }
}

/// Read the bare-text form of a persisted fingerprint.
pub fn fingerprint_from_text(v: &str) -> (res: Result<Fingerprint, FingerprintError>)
    ensures
        res == text_fingerprint(v@),
{
    if same_text(v, "unreadable") {
        Ok(Fingerprint::Unreadable)
    } else {
        Err(FingerprintError::UnknownText)
    }
}

/// Complete the object form of a persisted fingerprint: both fields are needed.
pub fn fingerprint_from_fields(f: FingerprintFields) -> (res: Result<
    Fingerprint,
    FingerprintError,
>)
    ensures
        res == fields_fingerprint(f),
{
    match (f.len, f.hash64) {
        (Some(len), Some(hash64)) => Ok(Fingerprint::Bytes { len, hash64 }),
        (None, _) => Err(FingerprintError::MissingLen),
        (_, None) => Err(FingerprintError::MissingHash64),
    }
}

// ── Persisted state ──────────────────────────────────────────────────────

/// One recorded daemon start.
#[derive(Clone, Copy, PartialEq, Eq, Debug, Structural)]
pub struct StartEntry {
    pub epoch_s: u64,
    pub fingerprint: Fingerprint,
    /// Join key to the `discount-<nonce>` file that may disown this start.
    pub nonce: u64,
}

/// The persisted crash-loop state.
#[derive(Clone, PartialEq, Eq, Debug)]
pub struct CrashLoopState {
    pub schema_version: u32,
    pub starts: Vec<StartEntry>,
    pub rollback_active: bool,
    pub rolled_back_from: Option<Fingerprint>,
}

/// The mathematical content of a [`CrashLoopState`].
#[verifier::ext_equal]
pub struct CrashLoopModel {
    pub schema_version: u32,
    pub starts: Seq<StartEntry>,
    pub rollback_active: bool,
    pub rolled_back_from: Option<Fingerprint>,
}

impl View for CrashLoopState {
    type V = CrashLoopModel;

    open spec fn view(&self) -> CrashLoopModel {
        CrashLoopModel {
            schema_version: self.schema_version,
            starts: self.starts@,
            rollback_active: self.rollback_active,
            rolled_back_from: self.rolled_back_from,
        }
    }
}

/// The state of a daemon that has never started.
pub open spec fn fresh_state() -> CrashLoopModel {
    CrashLoopModel {
        schema_version: 1,
        starts: Seq::empty(),
        rollback_active: false,
        rolled_back_from: None,
    }
}

impl Default for CrashLoopState {
    fn default() -> (res: Self)
        ensures
            res@ == fresh_state(),
    {
        CrashLoopState {
            schema_version: 1,
            starts: Vec::new(),
            rollback_active: false,
            rolled_back_from: None,
        }
    }
}

/// The state to boot with: what was parsed, or a fresh one where the file is
/// absent or corrupt.
pub fn load_crash_loop_state(parsed: Option<CrashLoopState>) -> (res: CrashLoopState)
    ensures
        res@ == (match parsed {
            Some(s) => s@,
            None => fresh_state(),
        }),
{
    match parsed {
        Some(s) => s,
        None => CrashLoopState::default(),
    }
}

/// The `n` newest entries of a list that grows at its end.
pub open spec fn newest<A>(s: Seq<A>, n: nat) -> Seq<A> {
    if s.len() <= n {
        s
    } else {
        s.skip(s.len() - n)
    }
}

/// A state with one more start, of which the newest [`MAX_STARTS`] are kept.
pub open spec fn with_start(s: CrashLoopModel, e: StartEntry) -> CrashLoopModel {
    CrashLoopModel { starts: newest(s.starts.push(e), MAX_STARTS as nat), ..s }
}

/// Drop the oldest entries beyond [`MAX_STARTS`].
pub fn cap_starts(starts: &mut Vec<StartEntry>)
    ensures
        final(starts)@ == newest(old(starts)@, MAX_STARTS as nat),
{
    if starts.len() > MAX_STARTS {
        let excess: usize = starts.len() - MAX_STARTS;
        let tail = starts.split_off(excess);
        assert(tail@ =~= old(starts)@.skip(excess as int));
        *starts = tail;
    }
}

/// Record a start.
pub fn record_start(state: &mut CrashLoopState, entry: StartEntry)
    ensures
        final(state)@ == with_start(old(state)@, entry),
{
    state.starts.push(entry);
    cap_starts(&mut state.starts);
}

/// A state with no rollback in force; its history and schema are kept.
pub open spec fn without_rollback(s: CrashLoopModel) -> CrashLoopModel {
    CrashLoopModel { rollback_active: false, rolled_back_from: None, ..s }
}

/// A state rolled back away from `from`.
pub open spec fn rolled_back(s: CrashLoopModel, from: Fingerprint) -> CrashLoopModel {
    CrashLoopModel { rollback_active: true, rolled_back_from: Some(from), ..s }
}

/// Clear the rollback marks after a reload that the engine has accepted.
pub fn clear_rollback_after_reload(state: &mut CrashLoopState)
    ensures
        final(state)@ == without_rollback(old(state)@),
{
    state.rollback_active = false;
    state.rolled_back_from = None;
}

// ── Verdict ──────────────────────────────────────────────────────────────

#[derive(Clone, Copy, PartialEq, Eq, Debug, Structural)]
pub enum Action {
    Proceed,
    RollBack,
    ContinueRollback,
}

/// The result of one [`decide`] call.
#[derive(Clone, Copy, PartialEq, Eq, Debug, Structural)]
pub struct Verdict {
    pub action: Action,
    pub clear_rollback_active: bool,
    pub retry_after_quiet: bool,
    pub lkg_missing_disarmed: bool,
}

/// Facts about the last-known-good config. The byte comparison is the only way
/// in which [`decide`] learns whether the current config matches it.
#[derive(Clone, Copy, PartialEq, Eq, Debug, Structural)]
pub struct LkgInfo {
    pub exists: bool,
    pub validates: bool,
    pub bytes_equal_current: bool,
}

/// An event to log once logging is up.
#[derive(Clone, PartialEq, Eq, Debug)]
pub enum DeferredEvent {
    CrashLoopDetected { count: u32 },
    RollbackBoot { failed_fp: Fingerprint, lkg_fp: Fingerprint, detail: String },
    RollbackContinued,
    RollbackRetry { message: String },
    LkgMissingRollbackDisarmed,
}

/// Which config to build, the nonce this boot is recorded under, the events to
/// log and the banner to show.
///
/// `operator_config` is always the operator's own file; `chosen_config` is the
/// last-known-good copy while a rollback is in force.
#[derive(Clone, PartialEq, Eq, Debug)]
pub struct BootPlan {
    pub chosen_config: String,
    pub operator_config: String,
    pub nonce: u64,
    pub deferred_events: Vec<DeferredEvent>,
    pub pending_message: Option<String>,
}

/// Whether a start has not been disowned.
pub open spec fn counts(discounts: Set<u64>) -> spec_fn(StartEntry) -> bool {
    |e: StartEntry| !discounts.contains(e.nonce)
}

/// Whether a start lies within the crash-loop window at `now`, the boundary and
/// starts of a clock that has since gone back included.
pub open spec fn recent(now: u64) -> spec_fn(StartEntry) -> bool {
    |e: StartEntry| now - e.epoch_s <= CRASH_LOOP_WINDOW
}

/// Whether a start ran the config with fingerprint `fp`.
pub open spec fn ran(fp: Fingerprint) -> spec_fn(StartEntry) -> bool {
    |e: StartEntry| e.fingerprint == fp
}

/// The starts that count, oldest first.
pub open spec fn live_starts(s: CrashLoopModel, discounts: Set<u64>) -> Seq<StartEntry> {
    s.starts.filter(counts(discounts))
}

/// The starts that count and lie within the window.
pub open spec fn recent_starts(s: CrashLoopModel, discounts: Set<u64>, now: u64) -> Seq<
    StartEntry,
> {
    live_starts(s, discounts).filter(recent(now))
}

/// Whether the config differs from the one that was rolled back.
pub open spec fn bytes_changed(s: CrashLoopModel, current: Fingerprint) -> bool {
    s.rolled_back_from != Some(current)
}

/// Whether the start before this one lies more than a window back. This boot's
/// own start is the newest one that counts.
pub open spec fn went_quiet(s: CrashLoopModel, discounts: Set<u64>, now: u64) -> bool {
    let live = live_starts(s, discounts);
    live.len() >= 2 && now - live[live.len() - 2].epoch_s > CRASH_LOOP_WINDOW
}

/// Whether the window holds a crash loop of one single config.
pub open spec fn same_config_loop(
    s: CrashLoopModel,
    discounts: Set<u64>,
    current: Fingerprint,
    now: u64,
) -> bool {
    let r = recent_starts(s, discounts, now);
    r.len() >= CRASH_LOOP_THRESHOLD && r.filter(ran(current)).len() == r.len()
}

/// The boot verdict.
pub open spec fn verdict(
    s: CrashLoopModel,
    discounts: Set<u64>,
    lkg: LkgInfo,
    current: Fingerprint,
    now: u64,
    enabled: bool,
) -> Verdict {
    let changed = bytes_changed(s, current);
    let quiet = went_quiet(s, discounts, now);
    let plain = Verdict {
        action: Action::Proceed,
        clear_rollback_active: changed || quiet,
        retry_after_quiet: false,
        lkg_missing_disarmed: false,
    };
    if quiet && !changed {
        Verdict { retry_after_quiet: true, ..plain }
    } else if s.rollback_active && !(lkg.exists && lkg.validates) {
        Verdict { clear_rollback_active: true, lkg_missing_disarmed: true, ..plain }
    } else if s.rollback_active && !changed {
        Verdict { action: Action::ContinueRollback, clear_rollback_active: false, ..plain }
    } else if same_config_loop(s, discounts, current, now) && lkg.exists
        && !lkg.bytes_equal_current && !s.rollback_active && enabled {
        Verdict { action: Action::RollBack, clear_rollback_active: false, ..plain }
    } else {
        plain
    }
}

/// The age of `epoch_s` at `now` exceeds the window.
fn older_than_window(now: u64, epoch_s: u64) -> (res: bool)
    ensures
        res == (now - epoch_s > CRASH_LOOP_WINDOW),
{
    now >= epoch_s && now - epoch_s > CRASH_LOOP_WINDOW
}

/// The newest start but one among those that count, if its age exceeds the window.
fn previous_start_is_old(
    starts: &Vec<StartEntry>,
    discounts: &HashSet<u64>,
    now_epoch_s: u64,
) -> (res: bool)
    ensures
        ({
            let live = starts@.filter(counts(discounts@));
            res == (live.len() >= 2 && now_epoch_s - live[live.len() - 2].epoch_s
                > CRASH_LOOP_WINDOW)
        }),
{
    let mut last: Option<StartEntry> = None;
    let mut previous: Option<StartEntry> = None;
    let mut i: usize = 0;
    let ghost p = counts(discounts@);
    proof {
        seqs::lemma_take_none(starts@, p);
    }
    while i < starts.len()
        invariant
            i <= starts@.len(),
            p == counts(discounts@),
            ({
                let live = starts@.take(i as int).filter(p);
                &&& last == (if live.len() >= 1 {
                    Some(live[live.len() - 1])
                } else {
                    None
                })
                &&& previous == (if live.len() >= 2 {
                    Some(live[live.len() - 2])
                } else {
                    None
                })
            }),
        decreases starts@.len() - i,
    {
        proof {
            seqs::lemma_filter_step(starts@, i as int, p);
        }
        let e = starts[i];
        if !discounts.contains(&e.nonce) {
            previous = last;
            last = Some(e);
        }
        i = i + 1;
    }
    proof {
        seqs::lemma_take_all(starts@);
    }
    match previous {
        Some(e) => older_than_window(now_epoch_s, e.epoch_s),
        None => false,
    }
}

/// The number of starts that count and lie within the window, and how many of
/// those ran the config with fingerprint `current`.
pub fn same_fingerprint_window_stats(
    state: &CrashLoopState,
    discount_nonces: &HashSet<u64>,
    current: Fingerprint,
    now_epoch_s: u64,
) -> (res: (u32, u32))
    requires
        state.starts@.len() <= u32::MAX,
    ensures
        res.0 == recent_starts(state@, discount_nonces@, now_epoch_s).len(),
        res.1 == recent_starts(state@, discount_nonces@, now_epoch_s).filter(ran(current)).len(),
{
    let ghost p = counts(discount_nonces@);
    let ghost q = recent(now_epoch_s);
    let ghost r = ran(current);
    let ghost all = state.starts@;
    let mut total: u32 = 0;
    let mut matching: u32 = 0;
    let mut i: usize = 0;
    proof {
        seqs::lemma_take_none(all, p);
        seqs::lemma_take_none(Seq::<StartEntry>::empty(), q);
        seqs::lemma_take_none(Seq::<StartEntry>::empty(), r);
        assert(Seq::<StartEntry>::empty().take(0) =~= Seq::<StartEntry>::empty());
    }
    while i < state.starts.len()
        invariant
            i <= state.starts@.len(),
            state.starts@.len() <= u32::MAX,
            all == state.starts@,
            p == counts(discount_nonces@),
            q == recent(now_epoch_s),
            r == ran(current),
            total <= i,
            matching <= total,
            total == all.take(i as int).filter(p).filter(q).len(),
            matching == all.take(i as int).filter(p).filter(q).filter(r).len(),
        decreases state.starts@.len() - i,
    {
        let e = state.starts[i];
        proof {
            let live = all.take(i as int).filter(p);
            seqs::lemma_filter_step(all, i as int, p);
            live.lemma_filter_push(e, q);
            live.filter(q).lemma_filter_push(e, r);
        }
        if !discount_nonces.contains(&e.nonce) && !older_than_window(now_epoch_s, e.epoch_s) {
            total = total + 1;
            if e.fingerprint == current {
                matching = matching + 1;
            }
        }
        i = i + 1;
    }
    proof {
        seqs::lemma_take_all(all);
    }
    (total, matching)
}

/// The crash-loop verdict.
///
/// In this order: an unchanged config is retried after a quiet period; a
/// rollback whose last-known-good copy is gone is disarmed; a rollback of an
/// unchanged config sticks; a crash loop of one config rolls back, where a
/// differing last-known-good copy exists, none is in force and rollbacks are enabled;
/// anything else proceeds.
pub fn decide(
    state: &CrashLoopState,
    discount_nonces: &HashSet<u64>,
    lkg: &LkgInfo,
    current: Fingerprint,
    now_epoch_s: u64,
    lkg_rollback_enabled: bool,
) -> (v: Verdict)
    requires
        state.starts@.len() <= u32::MAX,
    ensures
        v == verdict(
            state@,
            discount_nonces@,
            *lkg,
            current,
            now_epoch_s,
            lkg_rollback_enabled,
        ),
{
    let age_leg = previous_start_is_old(&state.starts, discount_nonces, now_epoch_s);
    let fp_differs = match state.rolled_back_from {
        Some(fp) => fp != current,
        None => true,
    };
    if age_leg && !fp_differs {
        return Verdict {
            action: Action::Proceed,
            clear_rollback_active: true,
            retry_after_quiet: true,
            lkg_missing_disarmed: false,
        };
    }
    if state.rollback_active && (!lkg.exists || !lkg.validates) {
        return Verdict {
            action: Action::Proceed,
            clear_rollback_active: true,
            retry_after_quiet: false,
            lkg_missing_disarmed: true,
        };
    }
    if state.rollback_active && !fp_differs {
        return Verdict {
            action: Action::ContinueRollback,
            clear_rollback_active: false,
            retry_after_quiet: false,
            lkg_missing_disarmed: false,
        };
    }
    let (total, matching) = same_fingerprint_window_stats(
        state,
        discount_nonces,
        current,
        now_epoch_s,
    );
    if total >= CRASH_LOOP_THRESHOLD && matching == total && !lkg.bytes_equal_current && lkg.exists
        && !state.rollback_active && lkg_rollback_enabled {
        return Verdict {
            action: Action::RollBack,
            clear_rollback_active: false,
            retry_after_quiet: false,
            lkg_missing_disarmed: false,
        };
    }
    Verdict {
        action: Action::Proceed,
        clear_rollback_active: fp_differs || age_leg,
        retry_after_quiet: false,
        lkg_missing_disarmed: false,
    }
}

// ── prepare ──────────────────────────────────────────────────────────────

/// What a boot has found on disk and on the clock.
pub struct BootFacts {
    pub config_path: String,
    pub state_dir: String,
    /// The operator's config, `None` where it could not be read.
    pub config: Option<Vec<u8>>,
    pub lkg_exists: bool,
    /// Whether the last-known-good config loads.
    pub lkg_validates: bool,
    /// The last-known-good config, `None` where it could not be read.
    pub lkg: Option<Vec<u8>>,
    pub now_epoch_s: u64,
    pub nonce: u64,
    pub lkg_rollback_enabled: bool,
}

/// A boot plan and the crash-loop state to persist with it.
pub struct Prepared {
    pub plan: BootPlan,
    pub state: CrashLoopState,
}

/// Whether two files could both be read and hold the same bytes.
pub open spec fn bytes_equal(a: Option<Vec<u8>>, b: Option<Vec<u8>>) -> bool {
    a is Some && b is Some && a->0@ == b->0@
}

/// Whether two files could both be read and hold the same bytes.
pub fn files_bytes_equal(a: &Option<Vec<u8>>, b: &Option<Vec<u8>>) -> (res: bool)
    ensures
        res == bytes_equal(*a, *b),
{
    match (a, b) {
        (Some(x), Some(y)) => same_bytes(x, y),
        _ => false,
    }
}

/// Whether two byte lists are the same.
pub fn same_bytes(x: &Vec<u8>, y: &Vec<u8>) -> (res: bool)
    ensures
        res == (x@ == y@),
{
    if x.len() != y.len() {
        return false;
    }
    let mut i: usize = 0;
    while i < x.len()
        invariant
            i <= x@.len(),
            x@.len() == y@.len(),
            forall|j: int| 0 <= j < i ==> x@[j] == y@[j],
        decreases x@.len() - i,
    {
        if x[i] != y[i] {
            return false;
        }
        i = i + 1;
    }
    assert(x@ =~= y@);
    true
}

/// What [`decide`] is told of the last-known-good config. A file that is absent
/// neither validates nor equals anything.
pub open spec fn lkg_info(facts: BootFacts) -> LkgInfo {
    LkgInfo {
        exists: facts.lkg_exists,
        validates: facts.lkg_exists && facts.lkg_validates,
        bytes_equal_current: facts.lkg_exists && bytes_equal(facts.lkg, facts.config),
    }
}

/// Gather what [`decide`] needs to know of the last-known-good config.
pub fn build_lkg_info(facts: &BootFacts) -> (info: LkgInfo)
    ensures
        info == lkg_info(*facts),
{
    if !facts.lkg_exists {
        return LkgInfo { exists: false, validates: false, bytes_equal_current: false };
    }
    LkgInfo {
        exists: true,
        validates: facts.lkg_validates,
        bytes_equal_current: files_bytes_equal(&facts.lkg, &facts.config),
    }
}

/// The entry under which a boot records itself.
pub open spec fn own_start(facts: BootFacts) -> StartEntry {
    StartEntry {
        epoch_s: facts.now_epoch_s,
        fingerprint: fingerprint_of_file(facts.config),
        nonce: facts.nonce,
    }
}

/// The verdict on a boot that found `facts` over the persisted state `s`.
pub open spec fn boot_verdict(s: CrashLoopModel, discounts: Set<u64>, facts: BootFacts) -> Verdict {
    verdict(
        with_start(s, own_start(facts)),
        discounts,
        lkg_info(facts),
        fingerprint_of_file(facts.config),
        facts.now_epoch_s,
        facts.lkg_rollback_enabled,
    )
}

/// The state that a verdict leaves behind.
pub open spec fn state_after(s: CrashLoopModel, v: Verdict, current: Fingerprint) -> CrashLoopModel {
    match v.action {
        Action::RollBack => rolled_back(s, current),
        Action::ContinueRollback => s,
        Action::Proceed => if v.clear_rollback_active {
            without_rollback(s)
        } else {
            s
        },
    }
}

/// The state that a boot persists before it builds anything.
pub open spec fn state_after_boot(s: CrashLoopModel, discounts: Set<u64>, facts: BootFacts) -> CrashLoopModel {
    state_after(
        with_start(s, own_start(facts)),
        boot_verdict(s, discounts, facts),
        fingerprint_of_file(facts.config),
    )
}

/// The reason given for a counted rollback.
pub open spec fn rollback_detail(config_path: Seq<char>) -> Seq<char> {
    "crash-loop threshold reached for '"@ + config_path + "'; rolling back to last-known-good"@
}

/// The banner of a rollback boot.
pub open spec fn rollback_banner(detail: Seq<char>) -> Seq<char> {
    "your latest config failed and was rolled back to last-known-good — fix it and reload: "@
        + detail
}

/// The banner that a verdict calls for.
pub open spec fn banner(v: Verdict, config_path: Seq<char>) -> Option<Seq<char>> {
    match v.action {
        Action::RollBack => Some(rollback_banner(rollback_detail(config_path))),
        Action::ContinueRollback => Some(STICKY_MESSAGE@),
        Action::Proceed => if v.retry_after_quiet {
            Some(RETRY_MESSAGE@)
        } else {
            None
        },
    }
}

/// The events that a boot defers. A plain boot still reports a crash loop of one
/// config that did not lead to a rollback.
pub open spec fn events_owed(
    events: Seq<DeferredEvent>,
    s: CrashLoopModel,
    discounts: Set<u64>,
    facts: BootFacts,
) -> bool {
    let started = with_start(s, own_start(facts));
    let current = fingerprint_of_file(facts.config);
    let v = boot_verdict(s, discounts, facts);
    match v.action {
        Action::RollBack => {
            &&& events.len() == 1
            &&& events[0] matches DeferredEvent::RollbackBoot { failed_fp, lkg_fp, detail }
            &&& failed_fp == current
            &&& lkg_fp == fingerprint_of_file(facts.lkg)
            &&& detail@ == rollback_detail(facts.config_path@)
        },
        Action::ContinueRollback => events == seq![DeferredEvent::RollbackContinued],
        Action::Proceed => if v.retry_after_quiet {
            &&& events.len() == 1
            &&& events[0] matches DeferredEvent::RollbackRetry { message }
            &&& message@ == RETRY_MESSAGE@
        } else if v.lkg_missing_disarmed {
            events == seq![DeferredEvent::LkgMissingRollbackDisarmed]
        } else if same_config_loop(started, discounts, current, facts.now_epoch_s) {
            events == seq![
                DeferredEvent::CrashLoopDetected {
                    count: recent_starts(started, discounts, facts.now_epoch_s).len() as u32,
                },
            ]
        } else {
            events == Seq::<DeferredEvent>::empty()
        },
    }
}

/// The banner of a rollback boot that failed for the reason `detail`.
pub fn pending_message_for_rollback(detail: &str) -> (msg: String)
    ensures
        msg@ == rollback_banner(detail@),
{
    let mut msg =
        "your latest config failed and was rolled back to last-known-good — fix it and reload: ".to_owned();
    msg.append(detail);
    msg
}

/// Record this boot, decide, and say which config to build and which state to
/// persist before building it.
pub fn prepare(state: CrashLoopState, discount_nonces: &HashSet<u64>, facts: &BootFacts) -> (res:
    Prepared)
    ensures
        res.state@ == state_after_boot(state@, discount_nonces@, *facts),
        res.plan.operator_config@ == facts.config_path@,
        res.plan.chosen_config@ == (if boot_verdict(state@, discount_nonces@, *facts).action
            == Action::Proceed {
            facts.config_path@
        } else {
            joined(facts.state_dir@, LKG_FILE@)
        }),
        res.plan.nonce == facts.nonce,
        text::opt_text(res.plan.pending_message) == banner(
            boot_verdict(state@, discount_nonces@, *facts),
            facts.config_path@,
        ),
        events_owed(res.plan.deferred_events@, state@, discount_nonces@, *facts),
{
    let mut state = state;
    let ghost before = state@;
    let now: u64 = facts.now_epoch_s;
    let current_fp = fingerprint_file(&facts.config);
    record_start(
        &mut state,
        StartEntry { epoch_s: now, fingerprint: current_fp, nonce: facts.nonce },
    );
    let info = build_lkg_info(facts);
    let verdict = decide(
        &state,
        discount_nonces,
        &info,
        current_fp,
        now,
        facts.lkg_rollback_enabled,
    );
    let mut events: Vec<DeferredEvent> = Vec::new();
    let mut pending: Option<String> = None;
    let mut chosen = facts.config_path.clone();
    match verdict.action {
        Action::RollBack => {
            state.rollback_active = true;
            state.rolled_back_from = Some(current_fp);
            let mut detail = "crash-loop threshold reached for '".to_owned();
            detail.append(facts.config_path.as_str());
            detail.append("'; rolling back to last-known-good");
            pending = Some(pending_message_for_rollback(detail.as_str()));
            chosen = lkg_path(facts.state_dir.as_str());
            events.push(
                DeferredEvent::RollbackBoot {
                    failed_fp: current_fp,
                    lkg_fp: fingerprint_file(&facts.lkg),
                    detail,
                },
            );
        },
        Action::ContinueRollback => {
            pending = Some(STICKY_MESSAGE.to_owned());
            chosen = lkg_path(facts.state_dir.as_str());
            events.push(DeferredEvent::RollbackContinued);
        },
        Action::Proceed => {
            if verdict.clear_rollback_active {
                clear_rollback_after_reload(&mut state);
            }
            if verdict.retry_after_quiet {
                pending = Some(RETRY_MESSAGE.to_owned());
                events.push(DeferredEvent::RollbackRetry { message: RETRY_MESSAGE.to_owned() });
            } else if verdict.lkg_missing_disarmed {
                events.push(DeferredEvent::LkgMissingRollbackDisarmed);
            } else {
                let (total, matching) = same_fingerprint_window_stats(
                    &state,
                    discount_nonces,
                    current_fp,
                    now,
                );
                if total >= CRASH_LOOP_THRESHOLD && total == matching {
                    events.push(DeferredEvent::CrashLoopDetected { count: total });
                }
            }
        },
    }
    Prepared {
        plan: BootPlan {
            chosen_config: chosen,
            operator_config: facts.config_path.clone(),
            nonce: facts.nonce,
            deferred_events: events,
            pending_message: pending,
        },
        state,
    }
}

// ── discount files ───────────────────────────────────────────────────────

/// One entry of the state directory.
pub struct DirEntry {
    /// The file's name, `None` where it is not valid text.
    pub name: Option<String>,
    /// When the file was last modified, where that is known.
    pub mtime_epoch_s: Option<u64>,
}

/// The nonce that a file of this name disowns.
pub open spec fn discount_nonce(name: Seq<char>) -> Option<u64> {
    if text::has_prefix(name, DISCOUNT_PREFIX@) {
        text::parsed_u64(name.skip(DISCOUNT_PREFIX@.len() as int))
    } else {
        None
    }
}

/// The nonce that a directory entry disowns.
pub open spec fn entry_nonce(e: DirEntry) -> Option<u64> {
    match e.name {
        Some(name) => discount_nonce(name@),
        None => None,
    }
}

/// Whether a directory entry is known to be older than the window.
pub open spec fn entry_stale(e: DirEntry, now: u64) -> bool {
    e.mtime_epoch_s matches Some(m) && now - m > CRASH_LOOP_WINDOW
}

/// The starts that are disowned, and the entries whose files are to be removed.
pub struct DiscountSweep {
    pub live: HashSet<u64>,
    pub stale: Vec<usize>,
}

/// The name of the file that disowns the start `nonce`.
pub fn discount_file_name(nonce: u64) -> (name: String)
    ensures
        name@ == DISCOUNT_PREFIX@ + text::decimal(nonce as nat),
{
    let mut name = DISCOUNT_PREFIX.to_owned();
    crate::text::push_decimal(&mut name, nonce as u128);
    name
}

/// Read the nonce out of a file name.
fn read_discount_nonce(name: &str) -> (res: Option<u64>)
    ensures
        res == discount_nonce(name@),
{
    let cs = chars_of(name);
    let prefix = chars_of(DISCOUNT_PREFIX);
    if starts_with(&cs, &prefix) {
        parse_u64_from(&cs, prefix.len())
    } else {
        None
    }
}

/// Whether the starts before `k` that are disowned are those in `live`.
pub open spec fn sweep_live(entries: Seq<DirEntry>, now: u64, k: int, live: Set<u64>) -> bool {
    forall|n: u64| #[trigger]
        live.contains(n) <==> exists|i: int|
            0 <= i < k && entry_nonce(#[trigger] entries[i]) == Some(n) && !entry_stale(
                entries[i],
                now,
            )
}

/// Whether the entries before `k` that are to be removed are those in `stale`,
/// in order.
pub open spec fn sweep_stale(entries: Seq<DirEntry>, now: u64, k: int, stale: Seq<usize>) -> bool {
    &&& forall|i: int|
        0 <= i < stale.len() ==> (#[trigger] stale[i]) < k && entry_nonce(entries[stale[i] as int])
            is Some && entry_stale(entries[stale[i] as int], now)
    &&& forall|i: int, j: int| 0 <= i < j < stale.len() ==> (#[trigger] stale[i]) < (#[trigger] stale[j])
    &&& forall|e: int|
        0 <= e < k && entry_nonce(#[trigger] entries[e]) is Some && entry_stale(entries[e], now)
            ==> exists|i: int| 0 <= i < stale.len() && #[trigger] stale[i] == e
}

/// Collect the disowned starts. A discount file known to be older than the
/// window is removed instead; one of unknown age still counts.
pub fn collect_and_sweep_discounts(entries: &Vec<DirEntry>, now_epoch_s: u64) -> (res:
    DiscountSweep)
    ensures
        sweep_live(entries@, now_epoch_s, entries@.len() as int, res.live@),
        sweep_stale(entries@, now_epoch_s, entries@.len() as int, res.stale@),
{
    let mut live: HashSet<u64> = HashSet::new();
    let mut stale: Vec<usize> = Vec::new();
    let mut i: usize = 0;
    while i < entries.len()
        invariant
            i <= entries@.len(),
            sweep_live(entries@, now_epoch_s, i as int, live@),
            sweep_stale(entries@, now_epoch_s, i as int, stale@),
        decreases entries@.len() - i,
    {
        let ghost live0 = live@;
        let ghost stale0 = stale@;
        let e = &entries[i];
        let nonce = match &e.name {
            Some(name) => read_discount_nonce(name.as_str()),
            None => None,
        };
        let old = match e.mtime_epoch_s {
            Some(m) => older_than_window(now_epoch_s, m),
            None => false,
        };
        if let Some(n) = nonce {
            if old {
                stale.push(i);
            } else {
                live.insert(n);
            }
        }
        proof {
            assert forall|n: u64| #[trigger] live@.contains(n) <==> exists|k: int|
                0 <= k < i + 1 && entry_nonce(#[trigger] entries@[k]) == Some(n) && !entry_stale(
                    entries@[k],
                    now_epoch_s,
                ) by {
                if live0.contains(n) {
                    let k = choose|k: int|
                        0 <= k < i && entry_nonce(#[trigger] entries@[k]) == Some(n)
                            && !entry_stale(entries@[k], now_epoch_s);
                    assert(0 <= k < i + 1 && entry_nonce(entries@[k]) == Some(n));
                }
                if nonce == Some(n) && !old {
                    assert(entry_nonce(entries@[i as int]) == Some(n));
                }
            }
            assert forall|x: int|
                0 <= x < i + 1 && entry_nonce(#[trigger] entries@[x]) is Some && entry_stale(
                    entries@[x],
                    now_epoch_s,
                ) implies exists|k: int| 0 <= k < stale@.len() && #[trigger] stale@[k] == x by {
                if x < i {
                    let k = choose|k: int| 0 <= k < stale0.len() && #[trigger] stale0[k] == x;
                    assert(stale@[k] == x);
                } else {
                    assert(stale@[stale@.len() - 1] == x);
                }
            }
        }
        i = i + 1;
    }
    DiscountSweep { live, stale }
}

// ── promotion to last-known-good ─────────────────────────────────────────

/// The result of one [`should_promote`] call.
#[derive(Clone, Copy, PartialEq, Eq, Debug, Structural)]
pub enum PromoteVerdict {
    /// The candidate has not run for the stability window yet.
    Wait,
    /// Promote the candidate.
    Promote,
    /// The file on disk is no longer what is running.
    SkipDirty,
    /// A display is failing; look again at the next tick.
    DeferHealth,
    /// A display is failing, but the deferrals are used up.
    PromoteDespiteHealth,
}

/// The promotion verdict.
pub open spec fn promotion(
    ran_for: int,
    window: int,
    failing: bool,
    defer_count: int,
    on_disk_matches: bool,
) -> PromoteVerdict {
    if ran_for < window {
        PromoteVerdict::Wait
    } else if failing && defer_count < LKG_HEALTH_DEFER_CAP {
        PromoteVerdict::DeferHealth
    } else if !on_disk_matches {
        PromoteVerdict::SkipDirty
    } else if failing {
        PromoteVerdict::PromoteDespiteHealth
    } else {
        PromoteVerdict::Promote
    }
}

/// Whether the running config may become last-known-good.
pub fn should_promote(
    since: Nanos,
    now: Nanos,
    window: Nanos,
    snapshot: &StateSnapshot,
    defer_count: u32,
    on_disk_matches: bool,
) -> (v: PromoteVerdict)
    ensures
        v == promotion(
            clock::elapsed(since, now),
            window as int,
            snapshot::some_display_failing(*snapshot),
            defer_count as int,
            on_disk_matches,
        ),
{
    if elapsed_since(since, now) < window {
        return PromoteVerdict::Wait;
    }
    let failing = any_display_failing(snapshot);
    if failing && defer_count < LKG_HEALTH_DEFER_CAP {
        return PromoteVerdict::DeferHealth;
    }
    if !on_disk_matches {
        return PromoteVerdict::SkipDirty;
    }
    if failing {
        PromoteVerdict::PromoteDespiteHealth
    } else {
        PromoteVerdict::Promote
    }
}

// ── laws ─────────────────────────────────────────────────────────────────

/// A rollback happens only where it is enabled, off a differing last-known-good
/// copy, out of no other rollback, after at least three starts within the window
/// that all ran the very config being left.
pub proof fn law_rollback_has_cause(
    s: CrashLoopModel,
    discounts: Set<u64>,
    lkg: LkgInfo,
    current: Fingerprint,
    now: u64,
    enabled: bool,
)
    requires
        verdict(s, discounts, lkg, current, now, enabled).action == Action::RollBack,
    ensures
        enabled,
        lkg.exists,
        !lkg.bytes_equal_current,
        !s.rollback_active,
        recent_starts(s, discounts, now).len() >= 3,
        forall|i: int|
            0 <= i < recent_starts(s, discounts, now).len() ==> (#[trigger] recent_starts(
                s,
                discounts,
                now,
            )[i]).fingerprint == current,
{
    let r = recent_starts(s, discounts, now);
    seqs::lemma_filter_full(r, ran(current));
    assert forall|i: int| 0 <= i < r.len() implies (#[trigger] r[i]).fingerprint == current by {
        assert(ran(current)(r[i]));
    }
}

/// With rollbacks disabled no boot is ever rolled back anew.
pub proof fn law_disabled_never_rolls_back(
    s: CrashLoopModel,
    discounts: Set<u64>,
    lkg: LkgInfo,
    current: Fingerprint,
    now: u64,
)
    ensures
        verdict(s, discounts, lkg, current, now, false).action != Action::RollBack,
{
}

/// After a quiet period an unchanged config is retried, even where a rollback of
/// it is in force.
pub proof fn law_quiet_retry_outranks_sticky(
    s: CrashLoopModel,
    discounts: Set<u64>,
    lkg: LkgInfo,
    current: Fingerprint,
    now: u64,
    enabled: bool,
)
    requires
        s.rolled_back_from == Some(current),
        went_quiet(s, discounts, now),
    ensures
        verdict(s, discounts, lkg, current, now, enabled).action == Action::Proceed,
        verdict(s, discounts, lkg, current, now, enabled).retry_after_quiet,
        state_after(s, verdict(s, discounts, lkg, current, now, enabled), current)
            == without_rollback(s),
{
}

/// Editing the config lifts a rollback: the boot proceeds and the marks go.
pub proof fn law_edit_lifts_rollback(
    s: CrashLoopModel,
    discounts: Set<u64>,
    lkg: LkgInfo,
    current: Fingerprint,
    now: u64,
    enabled: bool,
)
    requires
        s.rollback_active,
        s.rolled_back_from != Some(current),
    ensures
        verdict(s, discounts, lkg, current, now, enabled).action == Action::Proceed,
        state_after(s, verdict(s, discounts, lkg, current, now, enabled), current)
            == without_rollback(s),
{
}

/// A rollback with no usable last-known-good copy left never continues.
pub proof fn law_lost_lkg_disarms(
    s: CrashLoopModel,
    discounts: Set<u64>,
    lkg: LkgInfo,
    current: Fingerprint,
    now: u64,
    enabled: bool,
)
    requires
        s.rollback_active,
        !(lkg.exists && lkg.validates),
    ensures
        verdict(s, discounts, lkg, current, now, enabled).action == Action::Proceed,
        state_after(s, verdict(s, discounts, lkg, current, now, enabled), current)
            == without_rollback(s),
{
}

/// Whether a boot is one more of the config that was rolled back: the same
/// bytes, soon after the last recorded start, with a usable last-known-good copy,
/// neither start being disowned.
pub open spec fn boots_again(
    s: CrashLoopModel,
    discounts: Set<u64>,
    facts: BootFacts,
    failed: Fingerprint,
) -> bool {
    &&& fingerprint_of_file(facts.config) == failed
    &&& facts.lkg_exists && facts.lkg_validates
    &&& s.starts.len() > 0
    &&& facts.now_epoch_s - s.starts.last().epoch_s <= CRASH_LOOP_WINDOW
    &&& !discounts.contains(s.starts.last().nonce)
    &&& !discounts.contains(facts.nonce)
}

/// A rollback in force sticks, however it came about: one more boot of the
/// config continues it and leaves its marks as they are.
pub proof fn law_rollback_sticks(
    s: CrashLoopModel,
    discounts: Set<u64>,
    facts: BootFacts,
    failed: Fingerprint,
)
    requires
        s.rollback_active,
        s.rolled_back_from == Some(failed),
        boots_again(s, discounts, facts, failed),
    ensures
        boot_verdict(s, discounts, facts).action == Action::ContinueRollback,
        state_after_boot(s, discounts, facts) == with_start(s, own_start(facts)),
        state_after_boot(s, discounts, facts).rollback_active,
        state_after_boot(s, discounts, facts).rolled_back_from == Some(failed),
        state_after_boot(s, discounts, facts).starts.last() == own_start(facts),
{
    let e = own_start(facts);
    let starts = with_start(s, e).starts;
    let p = counts(discounts);
    let older = starts.drop_last().drop_last();
    assert(starts =~= older.push(s.starts.last()).push(e));
    older.lemma_filter_push(s.starts.last(), p);
    older.push(s.starts.last()).lemma_filter_push(e, p);
    let live = live_starts(with_start(s, e), discounts);
    assert(live == older.filter(p).push(s.starts.last()).push(e));
    assert(live[live.len() - 2] == s.starts.last());
}

/// The persisted state after some boots, each of which found its own disowned
/// starts and facts.
pub open spec fn state_after_boots(s: CrashLoopModel, boots: Seq<(Set<u64>, BootFacts)>) -> CrashLoopModel
    decreases boots.len(),
{
    if boots.len() == 0 {
        s
    } else {
        let before = state_after_boots(s, boots.drop_last());
        state_after_boot(before, boots.last().0, boots.last().1)
    }
}

/// A rollback in force sticks over any number of boots: as long as each follows
/// the one before soon enough, all of them continue it, and its marks stay.
pub proof fn law_rollback_sticks_over_any_number_of_boots(
    s: CrashLoopModel,
    boots: Seq<(Set<u64>, BootFacts)>,
    failed: Fingerprint,
)
    requires
        s.rollback_active,
        s.rolled_back_from == Some(failed),
        boots.len() > 0 ==> boots_again(s, boots[0].0, boots[0].1, failed),
        forall|i: int|
            0 < i < boots.len() ==> {
                let (discounts, facts) = #[trigger] boots[i];
                let previous = boots[i - 1].1;
                &&& fingerprint_of_file(facts.config) == failed
                &&& facts.lkg_exists && facts.lkg_validates
                &&& facts.now_epoch_s - previous.now_epoch_s <= CRASH_LOOP_WINDOW
                &&& !discounts.contains(previous.nonce)
                &&& !discounts.contains(facts.nonce)
            },
    ensures
        state_after_boots(s, boots).rollback_active,
        state_after_boots(s, boots).rolled_back_from == Some(failed),
        boots.len() > 0 ==> state_after_boots(s, boots).starts.last() == own_start(
            boots.last().1,
        ),
        forall|i: int|
            0 <= i < boots.len() ==> boot_verdict(
                state_after_boots(s, boots.take(i)),
                (#[trigger] boots[i]).0,
                boots[i].1,
            ).action == Action::ContinueRollback,
    decreases boots.len(),
{
    if boots.len() > 0 {
        let front = boots.drop_last();
        assert forall|i: int| 0 < i < front.len() implies ({
            let (discounts, facts) = #[trigger] front[i];
            let previous = front[i - 1].1;
            &&& fingerprint_of_file(facts.config) == failed
            &&& facts.lkg_exists && facts.lkg_validates
            &&& facts.now_epoch_s - previous.now_epoch_s <= CRASH_LOOP_WINDOW
            &&& !discounts.contains(previous.nonce)
            &&& !discounts.contains(facts.nonce)
        }) by {
            assert(front[i] == boots[i]);
            assert(front[i - 1] == boots[i - 1]);
        }
        law_rollback_sticks_over_any_number_of_boots(s, front, failed);
        let before = state_after_boots(s, front);
        let last = boots.last();
        assert(last == boots[boots.len() - 1]);
        if front.len() > 0 {
            assert(front.last() == boots[boots.len() - 2]);
        }
        law_rollback_sticks(before, last.0, last.1, failed);
        assert forall|i: int| 0 <= i < boots.len() implies boot_verdict(
            state_after_boots(s, boots.take(i)),
            (#[trigger] boots[i]).0,
            boots[i].1,
        ).action == Action::ContinueRollback by {
            if i < front.len() {
                assert(boots.take(i) =~= front.take(i));
                assert(boots[i] == front[i]);
            } else {
                assert(boots.take(i) =~= front);
            }
        }
    }
}

/// A counted rollback is one that sticks: the marks name the config that was
/// left, and the boot is the last recorded start.
pub proof fn law_rollback_leaves_its_marks(s: CrashLoopModel, discounts: Set<u64>, facts: BootFacts)
    requires
        boot_verdict(s, discounts, facts).action == Action::RollBack,
    ensures
        state_after_boot(s, discounts, facts).rollback_active,
        state_after_boot(s, discounts, facts).rolled_back_from == Some(
            fingerprint_of_file(facts.config),
        ),
        state_after_boot(s, discounts, facts).starts.last() == own_start(facts),
{
}

/// Reading a persisted fingerprint gives back what was written.
pub proof fn law_persisted_fingerprint_is_read_back(fp: Fingerprint)
    ensures
        restored(persisted(fp)) == Ok::<Fingerprint, FingerprintError>(fp),
{
}

/// A start that is disowned plays no part in the verdict.
pub proof fn law_discounted_start_is_invisible(
    s: CrashLoopModel,
    at: int,
    e: StartEntry,
    discounts: Set<u64>,
    lkg: LkgInfo,
    current: Fingerprint,
    now: u64,
    enabled: bool,
)
    requires
        0 <= at <= s.starts.len(),
        discounts.contains(e.nonce),
    ensures
        verdict(
            CrashLoopModel { starts: s.starts.insert(at, e), ..s },
            discounts,
            lkg,
            current,
            now,
            enabled,
        ) == verdict(s, discounts, lkg, current, now, enabled),
{
    seqs::lemma_filter_insert_dropped(s.starts, at, e, counts(discounts));
}

/// However long the history, a recorded start is the newest of at most ten.
pub proof fn law_history_is_bounded(s: CrashLoopModel, e: StartEntry)
    ensures
        1 <= with_start(s, e).starts.len() <= 10,
        with_start(s, e).starts.last() == e,
        with_start(s, e).rollback_active == s.rollback_active,
        with_start(s, e).rolled_back_from == s.rolled_back_from,
{
}

/// An accepted reload that clears the rollback leads to a next boot that
/// proceeds with the operator's config.
pub proof fn law_cleared_rollback_does_not_continue(
    s: CrashLoopModel,
    discounts: Set<u64>,
    facts: BootFacts,
)
    ensures
        boot_verdict(without_rollback(s), discounts, facts).action != Action::ContinueRollback,
{
}

/// The file that disowns a start is read back as the nonce of that start.
pub proof fn law_discount_file_names_its_start(nonce: u64)
    ensures
        discount_nonce(DISCOUNT_PREFIX@ + text::decimal(nonce as nat)) == Some(nonce),
{
    let digits = text::decimal(nonce as nat);
    let name = DISCOUNT_PREFIX@ + digits;
    assert(name.take(DISCOUNT_PREFIX@.len() as int) =~= DISCOUNT_PREFIX@);
    assert(name.skip(DISCOUNT_PREFIX@.len() as int) =~= digits);
    text::law_parse_undoes_decimal(nonce);
}

/// Bytes that are not what runs are never promoted, however often the promotion
/// was deferred.
pub proof fn law_dirty_is_never_promoted(ran_for: int, window: int, failing: bool, defer_count: int)
    ensures
        promotion(ran_for, window, failing, defer_count, false) != PromoteVerdict::Promote,
        promotion(ran_for, window, failing, defer_count, false)
            != PromoteVerdict::PromoteDespiteHealth,
{
}

/// Failing displays cannot hold a promotion back for ever: at the cap no tick is
/// deferred.
pub proof fn law_deferral_is_capped(
    ran_for: int,
    window: int,
    failing: bool,
    defer_count: int,
    on_disk_matches: bool,
)
    requires
        defer_count >= LKG_HEALTH_DEFER_CAP,
    ensures
        promotion(ran_for, window, failing, defer_count, on_disk_matches)
            != PromoteVerdict::DeferHealth,
{
}

/// Whether a start speaks for a crash loop: it is not disowned, and it is no
/// older than six minutes.
pub open spec fn speaks(discounts: Set<u64>, now: u64) -> spec_fn(StartEntry) -> bool {
    |e: StartEntry| !discounts.contains(e.nonce) && now - e.epoch_s <= 360
}

proof fn lemma_recent_starts(s: CrashLoopModel, discounts: Set<u64>, now: u64)
    ensures
        recent_starts(s, discounts, now) == s.starts.filter(speaks(discounts, now)),
{
    seqs::lemma_filter_twice(s.starts, counts(discounts), recent(now), speaks(discounts, now));
}

/// A crash loop leads to a rollback: three starts that are not disowned and lie
/// within six minutes, all such starts of the current config, a differing
/// last-known-good copy, no rollback in force, rollbacks enabled, and no earlier
/// rollback of this very config to retry.
pub proof fn law_crash_loop_rolls_back(
    s: CrashLoopModel,
    discounts: Set<u64>,
    lkg: LkgInfo,
    current: Fingerprint,
    now: u64,
    i: int,
    j: int,
    k: int,
)
    requires
        0 <= i < j < k < s.starts.len(),
        speaks(discounts, now)(s.starts[i]),
        speaks(discounts, now)(s.starts[j]),
        speaks(discounts, now)(s.starts[k]),
        forall|x: int|
            0 <= x < s.starts.len() && speaks(discounts, now)(#[trigger] s.starts[x])
                ==> s.starts[x].fingerprint == current,
        lkg.exists,
        !lkg.bytes_equal_current,
        !s.rollback_active,
        s.rolled_back_from != Some(current) || (!discounts.contains(
            s.starts[s.starts.len() - 1].nonce,
        ) && !discounts.contains(s.starts[s.starts.len() - 2].nonce) && now
            - s.starts[s.starts.len() - 2].epoch_s <= 360),
    ensures
        verdict(s, discounts, lkg, current, now, true).action == Action::RollBack,
        state_after(s, verdict(s, discounts, lkg, current, now, true), current)
            == (CrashLoopModel {
            rollback_active: true,
            rolled_back_from: Some(current),
            ..s
        }),
{
    let p = speaks(discounts, now);
    lemma_recent_starts(s, discounts, now);
    seqs::lemma_filter_keeps_three(s.starts, p, i, j, k);
    let r = s.starts.filter(p);
    seqs::lemma_filter_members(s.starts, p);
    assert forall|x: int| 0 <= x < r.len() implies ran(current)(#[trigger] r[x]) by {
        let y = choose|y: int| 0 <= y < s.starts.len() && s.starts[y] == r[x];
        assert(p(s.starts[y]));
    }
    seqs::lemma_filter_keeps_all(r, ran(current));
    if s.rolled_back_from == Some(current) {
        lemma_two_last_live(s, discounts);
    }
}

/// The two newest starts, where neither is disowned, are the two newest that
/// count.
proof fn lemma_two_last_live(s: CrashLoopModel, discounts: Set<u64>)
    requires
        s.starts.len() >= 2,
        !discounts.contains(s.starts[s.starts.len() - 1].nonce),
        !discounts.contains(s.starts[s.starts.len() - 2].nonce),
    ensures
        ({
            let live = live_starts(s, discounts);
            live.len() >= 2 && live[live.len() - 2] == s.starts[s.starts.len() - 2]
                && live[live.len() - 1] == s.starts[s.starts.len() - 1]
        }),
{
    let p = counts(discounts);
    let n = s.starts.len() as int;
    let older = s.starts.take(n - 2);
    assert(s.starts =~= older.push(s.starts[n - 2]).push(s.starts[n - 1]));
    older.lemma_filter_push(s.starts[n - 2], p);
    older.push(s.starts[n - 2]).lemma_filter_push(s.starts[n - 1], p);
}

/// The third start of one config within six minutes is rolled back, whatever
/// older starts the history holds.
pub proof fn law_third_start_is_rolled_back(s: CrashLoopModel, discounts: Set<u64>, facts: BootFacts)
    requires
        !s.rollback_active,
        s.rolled_back_from is None,
        s.starts.len() >= 2,
        !discounts.contains(facts.nonce),
        speaks(discounts, facts.now_epoch_s)(s.starts[s.starts.len() - 1]),
        speaks(discounts, facts.now_epoch_s)(s.starts[s.starts.len() - 2]),
        forall|x: int|
            0 <= x < s.starts.len() && speaks(discounts, facts.now_epoch_s)(#[trigger] s.starts[x])
                ==> s.starts[x].fingerprint == fingerprint_of_file(facts.config),
        facts.lkg_exists,
        facts.lkg is None || facts.config is None || facts.lkg->0@ != facts.config->0@,
        facts.lkg_rollback_enabled,
    ensures
        boot_verdict(s, discounts, facts).action == Action::RollBack,
        state_after_boot(s, discounts, facts).rollback_active,
{
    let e = own_start(facts);
    let started = with_start(s, e);
    let n = started.starts.len() as int;
    let cut = s.starts.len() + 1 - n;
    assert forall|x: int| 0 <= x < n - 1 implies #[trigger] started.starts[x] == s.starts[x
        + cut] by {}
    assert(started.starts[n - 1] == e);
    assert(started.starts[n - 2] == s.starts[s.starts.len() - 1]);
    assert(started.starts[n - 3] == s.starts[s.starts.len() - 2]);
    assert forall|x: int|
        0 <= x < n && speaks(discounts, facts.now_epoch_s)(
            #[trigger] started.starts[x],
        ) implies started.starts[x].fingerprint == fingerprint_of_file(facts.config) by {
        if x < n - 1 {
            assert(started.starts[x] == s.starts[x + cut]);
        }
    }
    law_crash_loop_rolls_back(
        started,
        discounts,
        lkg_info(facts),
        fingerprint_of_file(facts.config),
        facts.now_epoch_s,
        n - 3,
        n - 2,
        n - 1,
    );
}

/// A start that is older than six minutes plays no part, as long as two newer
/// ones count.
pub proof fn law_old_start_is_forgotten(
    s: CrashLoopModel,
    e: StartEntry,
    discounts: Set<u64>,
    lkg: LkgInfo,
    current: Fingerprint,
    now: u64,
    enabled: bool,
)
    requires
        now - e.epoch_s > 360,
        s.starts.filter(|x: StartEntry| !discounts.contains(x.nonce)).len() >= 2,
    ensures
        verdict(
            CrashLoopModel { starts: seq![e] + s.starts, ..s },
            discounts,
            lkg,
            current,
            now,
            enabled,
        ) == verdict(s, discounts, lkg, current, now, enabled),
{
    let t = CrashLoopModel { starts: seq![e] + s.starts, ..s };
    let p = counts(discounts);
    assert(p =~= |x: StartEntry| !discounts.contains(x.nonce));
    Seq::filter_distributes_over_add(seq![e], s.starts, p);
    let front = seq![e].filter(p);
    assert(front.len() <= 1) by {
        seq![e].lemma_filter_len(p);
    }
    assert(live_starts(t, discounts) == front + live_starts(s, discounts));
    lemma_recent_starts(s, discounts, now);
    lemma_recent_starts(t, discounts, now);
    assert(t.starts =~= s.starts.insert(0, e));
    seqs::lemma_filter_insert_dropped(s.starts, 0, e, speaks(discounts, now));
}

/// An unchanged config is retried exactly if the start before this one is more
/// than six minutes old.
pub proof fn law_retry_needs_a_quiet_period(
    s: CrashLoopModel,
    discounts: Set<u64>,
    lkg: LkgInfo,
    current: Fingerprint,
    now: u64,
    enabled: bool,
)
    requires
        s.starts.len() >= 2,
        !discounts.contains(s.starts[s.starts.len() - 1].nonce),
        !discounts.contains(s.starts[s.starts.len() - 2].nonce),
    ensures
        ({
            let v = verdict(s, discounts, lkg, current, now, enabled);
            &&& v.retry_after_quiet <==> s.rolled_back_from == Some(current) && now
                - s.starts[s.starts.len() - 2].epoch_s > 360
            &&& v.retry_after_quiet ==> v.action == Action::Proceed && !v.lkg_missing_disarmed
            &&& v.retry_after_quiet ==> !state_after(s, v, current).rollback_active
                && state_after(s, v, current).rolled_back_from is None
        }),
{
    lemma_two_last_live(s, discounts);
}

/// The first start that counts has nothing before it that it could be quiet
/// since: it is no retry.
pub proof fn law_first_start_is_no_retry(
    s: CrashLoopModel,
    discounts: Set<u64>,
    lkg: LkgInfo,
    current: Fingerprint,
    now: u64,
    enabled: bool,
)
    requires
        forall|x: int|
            0 <= x < s.starts.len() - 1 ==> discounts.contains((#[trigger] s.starts[x]).nonce),
    ensures
        !verdict(s, discounts, lkg, current, now, enabled).retry_after_quiet,
        verdict(s, discounts, lkg, current, now, enabled).action != Action::RollBack,
{
    let p = counts(discounts);
    let live = live_starts(s, discounts);
    if s.starts.len() > 0 {
        let front = s.starts.drop_last();
        assert(s.starts =~= front.push(s.starts.last()));
        front.lemma_filter_push(s.starts.last(), p);
        if front.filter(p).len() > 0 {
            seqs::lemma_filter_members(front, p);
            assert(p(front.filter(p)[0]));
            let j = choose|j: int| 0 <= j < front.len() && front[j] == front.filter(p)[0];
            assert(s.starts[j] == front[j]);
        }
        assert(live.len() <= 1);
    } else {
        s.starts.lemma_filter_len(p);
    }
    live.lemma_filter_len(recent(now));
}

/// A rollback in force is continued exactly if the config is the one that was
/// rolled back, a usable last-known-good copy is there, and the start before this
/// one is no more than six minutes old.
pub proof fn law_rollback_is_continued_exactly_if_it_still_applies(
    s: CrashLoopModel,
    discounts: Set<u64>,
    lkg: LkgInfo,
    current: Fingerprint,
    now: u64,
    enabled: bool,
)
    requires
        s.starts.len() >= 2,
        !discounts.contains(s.starts[s.starts.len() - 1].nonce),
        !discounts.contains(s.starts[s.starts.len() - 2].nonce),
    ensures
        verdict(s, discounts, lkg, current, now, enabled).action == Action::ContinueRollback <==> {
            &&& s.rollback_active
            &&& s.rolled_back_from == Some(current)
            &&& lkg.exists && lkg.validates
            &&& now - s.starts[s.starts.len() - 2].epoch_s <= 360
        },
        verdict(s, discounts, lkg, current, now, enabled).lkg_missing_disarmed <==> {
            &&& s.rollback_active
            &&& !(lkg.exists && lkg.validates)
            &&& !(s.rolled_back_from == Some(current) && now
                - s.starts[s.starts.len() - 2].epoch_s > 360)
        },
{
    lemma_two_last_live(s, discounts);
}

/// A rollback is in force after a boot exactly if the boot runs the
/// last-known-good copy, and a boot that runs the operator's config again leaves
/// no mark of one that was in force.
pub proof fn law_marks_say_what_runs(s: CrashLoopModel, discounts: Set<u64>, facts: BootFacts)
    ensures
        state_after_boot(s, discounts, facts).rollback_active <==> boot_verdict(
            s,
            discounts,
            facts,
        ).action != Action::Proceed,
        s.rollback_active && boot_verdict(s, discounts, facts).action == Action::Proceed
            ==> state_after_boot(s, discounts, facts).rolled_back_from is None,
{
}

/// A boot is recorded as the newest start, with its time, its nonce and its
/// config, and forgets nothing of the history but what exceeds ten starts.
pub proof fn law_boot_is_recorded(s: CrashLoopModel, discounts: Set<u64>, facts: BootFacts)
    ensures
        ({
            let t = state_after_boot(s, discounts, facts);
            let n = t.starts.len() as int;
            &&& t.schema_version == s.schema_version
            &&& n == if s.starts.len() < 10 { s.starts.len() + 1 } else { 10 }
            &&& t.starts[n - 1].epoch_s == facts.now_epoch_s
            &&& t.starts[n - 1].nonce == facts.nonce
            &&& t.starts[n - 1].fingerprint == fingerprint_of_file(facts.config)
            &&& forall|x: int|
                1 <= x < n ==> #[trigger] t.starts[n - 1 - x] == s.starts[s.starts.len() - x]
        }),
{
}

/// A boot is never rolled back to the bytes it has already, nor to a copy that is
/// not there; without a copy it always runs the operator's config.
pub proof fn law_rollback_needs_another_config(
    s: CrashLoopModel,
    discounts: Set<u64>,
    facts: BootFacts,
)
    ensures
        facts.lkg is Some && facts.config is Some && facts.lkg->0@ == facts.config->0@
            ==> boot_verdict(s, discounts, facts).action != Action::RollBack,
        !facts.lkg_exists ==> boot_verdict(s, discounts, facts).action == Action::Proceed,
        !facts.lkg_rollback_enabled ==> boot_verdict(s, discounts, facts).action
            != Action::RollBack,
{
}

/// A fingerprint tells a file that could not be read from one that could, and
/// files of different lengths from each other.
pub proof fn law_fingerprints_tell_files_apart(a: Option<Vec<u8>>, b: Option<Vec<u8>>)
    ensures
        fingerprint_of_file(a) == Fingerprint::Unreadable <==> a is None,
        a is Some && b is Some && a->0@.len() != b->0@.len() ==> fingerprint_of_file(a)
            != fingerprint_of_file(b),
        a is Some && b is Some && a->0@ == b->0@ ==> fingerprint_of_file(a) == fingerprint_of_file(
            b,
        ),
{
    if a is Some && b is Some {
        assert(a->0.len() == a->0@.len());
        assert(b->0.len() == b->0@.len());
        assert(a->0@.len() as u64 == a->0@.len());
        assert(b->0@.len() as u64 == b->0@.len());
    }
}

/// A persisted fingerprint that lacks a field is refused for the first that is
/// missing, and a text only stands for a file that could not be read.
pub proof fn law_incomplete_fingerprint_is_refused(f: FingerprintFields, t: Seq<char>)
    ensures
        f.len is None ==> fields_fingerprint(f) == Err::<Fingerprint, FingerprintError>(
            FingerprintError::MissingLen,
        ),
        f.len is Some && f.hash64 is None ==> fields_fingerprint(f) == Err::<
            Fingerprint,
            FingerprintError,
        >(FingerprintError::MissingHash64),
        f.len is Some && f.hash64 is Some ==> persisted(fields_fingerprint(f)->Ok_0)
            == PersistedFingerprint::<Seq<char>>::Object(f),
        text_fingerprint(t) is Ok ==> persisted(text_fingerprint(t)->Ok_0)
            == PersistedFingerprint::Text(t),
        t != "unreadable"@ ==> text_fingerprint(t) == Err::<Fingerprint, FingerprintError>(
            FingerprintError::UnknownText,
        ),
{
}

/// A path leads from its directory to its file, with a slash between.
pub proof fn law_path_lies_in_its_directory(dir: Seq<char>, name: Seq<char>)
    ensures
        ({
            let path = joined(dir, name);
            let n = path.len() as int;
            &&& n >= dir.len() + name.len()
            &&& path.take(dir.len() as int) == dir
            &&& path.skip(n - name.len()) == name
            &&& dir.len() > 0 ==> path[n - name.len() - 1] == '/'
            &&& dir.len() > 0 && dir.last() != '/' ==> n == dir.len() + 1 + name.len()
            &&& dir.len() == 0 || dir.last() == '/' ==> n == dir.len() + name.len()
        }),
{
    let path = joined(dir, name);
    assert(path.take(dir.len() as int) =~= dir);
    assert(path.skip(path.len() - name.len()) =~= name);
}

/// A banner is shown exactly where the operator's config is held back or tried
/// again, and that of a rollback names the config.
pub proof fn law_banner_tells_of_a_rollback(v: Verdict, config_path: Seq<char>)
    ensures
        banner(v, config_path) is None <==> v.action == Action::Proceed && !v.retry_after_quiet,
        v.action == Action::RollBack ==> exists|at: int|
            #![trigger banner(v, config_path)->0.subrange(at, at + config_path.len())]
            0 <= at && at + config_path.len() <= banner(v, config_path)->0.len() && banner(
                v,
                config_path,
            )->0.subrange(at, at + config_path.len()) == config_path,
        v.action == Action::ContinueRollback ==> banner(v, config_path) == Some(STICKY_MESSAGE@),
        v.action == Action::Proceed && v.retry_after_quiet ==> banner(v, config_path) == Some(
            RETRY_MESSAGE@,
        ),
{
    if v.action == Action::RollBack {
        let head = "your latest config failed and was rolled back to last-known-good — fix it and reload: "@;
        let before = "crash-loop threshold reached for '"@;
        let at = (head.len() + before.len()) as int;
        let b = banner(v, config_path)->0;
        assert(b.subrange(at, at + config_path.len()) =~= config_path);
    }
}

/// The events of a boot say what was decided: one that the config was left, and
/// for which copy; one that it still is; one that it is tried again; one that the
/// copy is gone; or, on a plain boot, one that tells of a loop that was left alone.
pub proof fn law_events_tell_what_was_decided(
    events: Seq<DeferredEvent>,
    s: CrashLoopModel,
    discounts: Set<u64>,
    facts: BootFacts,
)
    requires
        events_owed(events, s, discounts, facts),
    ensures
        ({
            let v = boot_verdict(s, discounts, facts);
            &&& events.len() <= 1
            &&& v.action == Action::RollBack <==> events.len() == 1 && events[0] is RollbackBoot
            &&& v.action == Action::RollBack ==> events[0]->failed_fp == fingerprint_of_file(
                facts.config,
            ) && events[0]->lkg_fp == fingerprint_of_file(facts.lkg)
            &&& v.action == Action::ContinueRollback <==> events.len() == 1 && events[0]
                is RollbackContinued
            &&& v.action == Action::Proceed ==> (v.retry_after_quiet <==> events.len() == 1
                && events[0] is RollbackRetry)
            &&& v.action == Action::Proceed && !v.retry_after_quiet ==> (v.lkg_missing_disarmed
                <==> events.len() == 1 && events[0] is LkgMissingRollbackDisarmed)
        }),
{
}

/// A plain boot reports a loop of the current config exactly if at least three
/// starts speak for one and none against, and tells how many.
pub proof fn law_loop_that_is_left_alone_is_reported(
    events: Seq<DeferredEvent>,
    s: CrashLoopModel,
    discounts: Set<u64>,
    facts: BootFacts,
)
    requires
        events_owed(events, s, discounts, facts),
        boot_verdict(s, discounts, facts).action == Action::Proceed,
        !boot_verdict(s, discounts, facts).retry_after_quiet,
        !boot_verdict(s, discounts, facts).lkg_missing_disarmed,
    ensures
        ({
            let r = state_after_boot(s, discounts, facts).starts.filter(
                speaks(discounts, facts.now_epoch_s),
            );
            if r.len() >= 3 && forall|x: int|
                0 <= x < r.len() ==> (#[trigger] r[x]).fingerprint == fingerprint_of_file(
                    facts.config,
                ) {
                events.len() == 1 && events[0] == (DeferredEvent::CrashLoopDetected {
                    count: r.len() as u32,
                })
            } else {
                events.len() == 0
            }
        }),
{
    let started = with_start(s, own_start(facts));
    let current = fingerprint_of_file(facts.config);
    lemma_recent_starts(started, discounts, facts.now_epoch_s);
    let r = started.starts.filter(speaks(discounts, facts.now_epoch_s));
    if forall|x: int| 0 <= x < r.len() ==> (#[trigger] r[x]).fingerprint == current {
        assert forall|x: int| 0 <= x < r.len() implies ran(current)(#[trigger] r[x]) by {}
        seqs::lemma_filter_keeps_all(r, ran(current));
    } else if r.filter(ran(current)).len() == r.len() {
        seqs::lemma_filter_full(r, ran(current));
        assert forall|x: int| 0 <= x < r.len() implies (#[trigger] r[x]).fingerprint
            == current by {
            assert(ran(current)(r[x]));
        }
    }
}

/// A file that disowns a start does so for six minutes, or as long as its age is
/// unknown; after that it is removed and disowns nothing.
pub proof fn law_discount_lasts_for_the_window(
    entries: Seq<DirEntry>,
    now: u64,
    live: Set<u64>,
    stale: Seq<usize>,
    i: int,
    nonce: u64,
)
    requires
        sweep_live(entries, now, entries.len() as int, live),
        sweep_stale(entries, now, entries.len() as int, stale),
        0 <= i < entries.len(),
        entries[i].name matches Some(name) && name@ == "discount-"@ + text::decimal(nonce as nat),
    ensures
        entries[i].mtime_epoch_s is None ==> live.contains(nonce),
        entries[i].mtime_epoch_s matches Some(m) && now - m <= 360 ==> live.contains(nonce),
        (entries[i].mtime_epoch_s matches Some(m) && now - m > 360) <==> exists|k: int|
            0 <= k < stale.len() && #[trigger] stale[k] == i,
{
    law_discount_file_names_its_start(nonce);
    assert(entry_nonce(entries[i]) == Some(nonce));
}

/// Nothing is disowned and nothing removed on account of a file that is no
/// discount.
pub proof fn law_other_files_are_left_alone(
    entries: Seq<DirEntry>,
    now: u64,
    live: Set<u64>,
    stale: Seq<usize>,
    i: int,
)
    requires
        sweep_live(entries, now, entries.len() as int, live),
        sweep_stale(entries, now, entries.len() as int, stale),
        0 <= i < entries.len(),
        entries[i].name is None || !("discount-"@.len() <= entries[i].name->0@.len()
            && entries[i].name->0@.take("discount-"@.len() as int) == "discount-"@),
    ensures
        forall|k: int| 0 <= k < stale.len() ==> #[trigger] stale[k] != i,
        (forall|j: int| 0 <= j < entries.len() ==> #[trigger] entries[j] == entries[i])
            ==> live =~= Set::<u64>::empty(),
{
    assert(entry_nonce(entries[i]) is None);
}

/// A candidate that has not run for the window waits; one that has is promoted
/// while nothing fails, put off while something does, three times at the most,
/// and skipped where the file has changed.
pub proof fn law_promotion_waits_for_a_healthy_window(
    ran_for: int,
    window: int,
    failing: bool,
    defer_count: int,
    on_disk_matches: bool,
)
    ensures
        ({
            let v = promotion(ran_for, window, failing, defer_count, on_disk_matches);
            &&& v == PromoteVerdict::Wait <==> ran_for < window
            &&& ran_for >= window && !failing && on_disk_matches ==> v == PromoteVerdict::Promote
            &&& ran_for >= window && failing && defer_count < 3 ==> v
                == PromoteVerdict::DeferHealth
            &&& ran_for >= window && failing && defer_count >= 3 && on_disk_matches ==> v
                == PromoteVerdict::PromoteDespiteHealth
            &&& ran_for >= window && !on_disk_matches && (!failing || defer_count >= 3) ==> v
                == PromoteVerdict::SkipDirty
        }),
{
}

/// Where nothing was recorded no start counts and nothing is rolled back.
pub proof fn law_fresh_state_is_empty()
    ensures
        fresh_state().starts.len() == 0,
        !fresh_state().rollback_active,
        fresh_state().rolled_back_from is None,
        fresh_state().schema_version == 1,
{
}

/// What is removed in a sweep is in the directory, each once and in order.
pub proof fn law_sweep_removes_each_file_once(
    entries: Seq<DirEntry>,
    now: u64,
    stale: Seq<usize>,
    i: int,
    j: int,
)
    requires
        sweep_stale(entries, now, entries.len() as int, stale),
        0 <= i < j < stale.len(),
    ensures
        stale[i] < stale[j] < entries.len(),
{
}

/// A last-known-good config that is not there is neither valid nor equal to
/// anything; one that is there is valid if it was found so, and is the current one
/// exactly if both could be read and hold the same bytes.
pub proof fn law_missing_config_is_good_for_nothing(facts: BootFacts)
    ensures
        lkg_info(facts).exists == facts.lkg_exists,
        !facts.lkg_exists ==> !lkg_info(facts).validates && !lkg_info(facts).bytes_equal_current,
        facts.lkg_exists ==> lkg_info(facts).validates == facts.lkg_validates,
        facts.lkg_exists ==> (lkg_info(facts).bytes_equal_current <==> facts.lkg is Some
            && facts.config is Some && facts.lkg->0@ == facts.config->0@),
{
}

/// What is recorded of a rollback names the config that it rolls back from.
pub proof fn law_rollback_names_the_config(config_path: Seq<char>)
    ensures
        rollback_detail(config_path) == "crash-loop threshold reached for '"@ + config_path
            + "'; rolling back to last-known-good"@,
{
}

} // verus!
