//! What a reload does with the state of the displays: which panels must be
//! woken, which phases the next generation takes over.

use vstd::prelude::*;

use crate::assembly;
use crate::assembly::{is_built, RuleRuntimeCfg, RulesEngineConfig, SensorRuntimeCfg};
use crate::seqs;
use crate::snapshot::{ControllerHealth, DisplaySnapshot, SensorSnapshot, StateSnapshot};
use crate::tables::TextMap;
use crate::text;
use crate::text::{holds_text, same_text};

verus! {

/// Whether a phase means that the panel is off, on its way off, or coming back.
/// A panel under an overlay is on.
pub open spec fn is_dark(phase: Seq<char>) -> bool {
    phase == "blanked"@ || phase == "blanking"@ || phase == "waking"@
}

/// Whether a phase means that the panel is off, on its way off, or coming back.
pub fn phase_is_dark(phase: &str) -> (res: bool)
    ensures
        res == is_dark(phase@),
{
    same_text(phase, "blanked") || same_text(phase, "blanking") || same_text(phase, "waking")
}

/// What a reload does with a display's phase.
#[derive(Clone, Copy, PartialEq, Eq, Debug, Structural)]
pub enum TransientClass {
    /// The running engine is polled until the phase is settled.
    Quiesce,
    /// The phase is taken over.
    RestoreDirect,
    /// Nothing is done.
    Ignore,
}

/// What a reload does with a display's phase: only displays that no rule drives
/// need anything.
pub open spec fn transient_class(phase: Seq<char>, ruleless: bool) -> TransientClass {
    if ruleless && phase == "blanking"@ {
        TransientClass::Quiesce
    } else if ruleless && (phase == "blanked"@ || phase == "waking"@) {
        TransientClass::RestoreDirect
    } else {
        TransientClass::Ignore
    }
}

/// What a reload does with a display's phase.
pub fn classify_transient(phase: &str, ruleless: bool) -> (res: TransientClass)
    ensures
        res == transient_class(phase@, ruleless),
{
    if !ruleless {
        return TransientClass::Ignore;
    }
    if same_text(phase, "blanking") {
        TransientClass::Quiesce
    } else if same_text(phase, "blanked") || same_text(phase, "waking") {
        TransientClass::RestoreDirect
    } else {
        TransientClass::Ignore
    }
}

// ── picking displays ─────────────────────────────────────────────────────

/// The name of a display whose name and phase are picked.
pub open spec fn picked(p: spec_fn(Seq<char>, Seq<char>) -> bool) -> spec_fn(
    (String, DisplaySnapshot),
) -> Option<Seq<char>> {
    |e: (String, DisplaySnapshot)|
        if p(e.0@, e.1.phase@) {
            Some(e.0@)
        } else {
            None
        }
}

/// The names of the displays of a snapshot whose name and phase are picked, in
/// the order of the snapshot.
pub open spec fn pick(
    snapshot: Option<StateSnapshot>,
    p: spec_fn(Seq<char>, Seq<char>) -> bool,
) -> Seq<Seq<char>> {
    match snapshot {
        Some(s) => s.displays@.filter_map(picked(p)),
        None => Seq::empty(),
    }
}

/// Dark, and gone from the next generation.
pub open spec fn is_removed(present: Seq<Seq<char>>) -> spec_fn(Seq<char>, Seq<char>) -> bool {
    |id: Seq<char>, phase: Seq<char>| is_dark(phase) && !present.contains(id)
}

/// Dark, still there, and driven by a rule.
pub open spec fn is_retained(present: Seq<Seq<char>>, ruled: Seq<Seq<char>>) -> spec_fn(
    Seq<char>,
    Seq<char>,
) -> bool {
    |id: Seq<char>, phase: Seq<char>|
        is_dark(phase) && present.contains(id) && ruled.contains(id)
}

/// Whether a display is in both configurations and is commanded differently.
pub open spec fn dispatch_changed(
    before: Map<Seq<char>, Seq<char>>,
    after: Map<Seq<char>, Seq<char>>,
    id: Seq<char>,
) -> bool {
    before.contains_key(id) && after.contains_key(id) && before[id] != after[id]
}

/// Dark, driven by no rule, and commanded differently from now on.
pub open spec fn is_changed(
    before: Map<Seq<char>, Seq<char>>,
    after: Map<Seq<char>, Seq<char>>,
    ruled: Seq<Seq<char>>,
) -> spec_fn(Seq<char>, Seq<char>) -> bool {
    |id: Seq<char>, phase: Seq<char>|
        is_dark(phase) && !ruled.contains(id) && dispatch_changed(before, after, id)
}

/// Caught in the middle of blanking, and driven by no rule.
pub open spec fn is_blanking(ruled: Seq<Seq<char>>) -> spec_fn(Seq<char>, Seq<char>) -> bool {
    |id: Seq<char>, phase: Seq<char>|
        transient_class(phase, !ruled.contains(id)) == TransientClass::Quiesce
}

/// Which displays of a snapshot are picked.
enum Choice<'a> {
    Removed { present: &'a Vec<String> },
    Retained { present: &'a Vec<String>, ruled: &'a Vec<String> },
    Changed { before: &'a TextMap<String>, after: &'a TextMap<String>, ruled: &'a Vec<String> },
    Blanking { ruled: &'a Vec<String> },
}

impl<'a> Choice<'a> {
    /// The names and phases that are picked.
    spec fn takes(self) -> spec_fn(Seq<char>, Seq<char>) -> bool {
        match self {
            Choice::Removed { present } => is_removed(text::texts(present@)),
            Choice::Retained { present, ruled } => is_retained(
                text::texts(present@),
                text::texts(ruled@),
            ),
            Choice::Changed { before, after, ruled } => is_changed(
                before@,
                after@,
                text::texts(ruled@),
            ),
            Choice::Blanking { ruled } => is_blanking(text::texts(ruled@)),
        }
    }

    /// Whether a display in a phase is picked.
    fn applies(&self, id: &str, phase: &str) -> (res: bool)
        ensures
            res == (self.takes())(id@, phase@),
    {
        match self {
            Choice::Removed { present } => phase_is_dark(phase) && !holds_text(present, id),
            Choice::Retained { present, ruled } => phase_is_dark(phase) && holds_text(present, id)
                && holds_text(ruled, id),
            Choice::Changed { before, after, ruled } => {
                phase_is_dark(phase) && !holds_text(ruled, id) && differs(before, after, id)
            },
            Choice::Blanking { ruled } => classify_transient(phase, !holds_text(ruled, id))
                == TransientClass::Quiesce,
        }
    }
}

/// The picked displays of a snapshot, in its order.
fn pick_displays(snapshot: &Option<StateSnapshot>, choice: Choice) -> (out: Vec<String>)
    ensures
        text::texts(out@) == pick(*snapshot, choice.takes()),
{
    let mut out: Vec<String> = Vec::new();
    assert(text::texts(out@) =~= Seq::<Seq<char>>::empty());
    if let Some(s) = snapshot {
        let ghost f = picked(choice.takes());
        let mut i: usize = 0;
        proof {
            assert(s.displays@.take(0) =~= Seq::<(String, DisplaySnapshot)>::empty());
            assert(text::texts(out@) =~= s.displays@.take(0).filter_map(f));
        }
        while i < s.displays.len()
            invariant
                i <= s.displays@.len(),
                f == picked(choice.takes()),
                text::texts(out@) == s.displays@.take(i as int).filter_map(f),
            decreases s.displays@.len() - i,
        {
            let ghost out0 = out@;
            proof {
                seqs::lemma_filter_map_step(s.displays@, i as int, f);
            }
            let id = &s.displays[i].0;
            if choice.applies(id.as_str(), s.displays[i].1.phase.as_str()) {
                out.push(id.clone());
                assert(text::texts(out@) =~= text::texts(out0).push(id@));
            }
            i = i + 1;
        }
        proof {
            seqs::lemma_take_all(s.displays@);
        }
    }
    out
}

/// The displays that went dark and have no executor in the next generation.
/// They get a verified wake through their old executor.
pub fn removed_dark_displays(snapshot: &Option<StateSnapshot>, new_executors: &Vec<String>) -> (out:
    Vec<String>)
    ensures
        text::texts(out@) == pick(*snapshot, is_removed(text::texts(new_executors@))),
{
    pick_displays(snapshot, Choice::Removed { present: new_executors })
}

/// The displays that went dark, have an executor in the next generation and are
/// driven by a rule. They get a wake once the next generation runs. A dark
/// display that no rule drives is dark because someone wanted it so.
pub fn retained_dark_displays(
    snapshot: &Option<StateSnapshot>,
    new_executors: &Vec<String>,
    ruled: &Vec<String>,
) -> (out: Vec<String>)
    ensures
        text::texts(out@) == pick(
            *snapshot,
            is_retained(text::texts(new_executors@), text::texts(ruled@)),
        ),
{
    pick_displays(snapshot, Choice::Retained { present: new_executors, ruled })
}

/// The displays that went dark, that no rule of the new configuration drives,
/// and that both configurations have but command differently. The old
/// controllers are about to go, so these are treated as if they were removed.
/// The tables hold, for each display, a text that two configurations share
/// exactly when they command the display alike.
pub fn changed_dispatch_dark_displays(
    snapshot: &Option<StateSnapshot>,
    old_dispatch: &TextMap<String>,
    new_dispatch: &TextMap<String>,
    ruled: &Vec<String>,
) -> (out: Vec<String>)
    ensures
        text::texts(out@) == pick(
            *snapshot,
            is_changed(old_dispatch@, new_dispatch@, text::texts(ruled@)),
        ),
{
    pick_displays(
        snapshot,
        Choice::Changed { before: old_dispatch, after: new_dispatch, ruled },
    )
}

/// The displays that no rule drives and that were caught in the middle of
/// blanking.
pub fn blanking_displays(snapshot: &Option<StateSnapshot>, ruled: &Vec<String>) -> (out: Vec<
    String,
>)
    ensures
        text::texts(out@) == pick(*snapshot, is_blanking(text::texts(ruled@))),
{
    pick_displays(snapshot, Choice::Blanking { ruled })
}

// ── quiescing ────────────────────────────────────────────────────────────

/// The first display of a name in a snapshot.
pub open spec fn phase_in(displays: Seq<(String, DisplaySnapshot)>, id: Seq<char>) -> Option<
    Seq<char>,
>
    decreases displays.len(),
{
    if displays.len() == 0 {
        None
    } else if displays[0].0@ == id {
        Some(displays[0].1.phase@)
    } else {
        phase_in(displays.drop_first(), id)
    }
}

/// Whether a display is gone or its phase is settled.
pub open spec fn settled(displays: Seq<(String, DisplaySnapshot)>, id: Seq<char>) -> bool {
    match phase_in(displays, id) {
        None => true,
        Some(phase) => phase == "blanked"@ || phase == "active"@,
    }
}

/// Whether all of some displays are settled. Without a snapshot nothing is.
pub open spec fn all_settled(snapshot: Option<StateSnapshot>, need: Seq<Seq<char>>) -> bool {
    match snapshot {
        None => false,
        Some(s) => forall|i: int|
            0 <= i < need.len() ==> settled(s.displays@, #[trigger] need[i]),
    }
}

/// The phase of the first display of a name.
pub fn phase_of<'a>(displays: &'a Vec<(String, DisplaySnapshot)>, id: &str) -> (res: Option<
    &'a String,
>)
    ensures
        match res {
            Some(phase) => phase_in(displays@, id@) == Some(phase@),
            None => phase_in(displays@, id@) is None,
        },
{
    let mut i: usize = 0;
    proof {
        assert(displays@.skip(0) =~= displays@);
    }
    while i < displays.len()
        invariant
            i <= displays@.len(),
            phase_in(displays@, id@) == phase_in(displays@.skip(i as int), id@),
        decreases displays@.len() - i,
    {
        let ghost rest = displays@.skip(i as int);
        proof {
            assert(rest[0] == displays@[i as int]);
            assert(rest.drop_first() =~= displays@.skip(i + 1));
        }
        if same_text(displays[i].0.as_str(), id) {
            return Some(&displays[i].1.phase);
        }
        i = i + 1;
    }
    None
}

/// Whether all of some displays are settled.
pub fn are_settled(snapshot: &Option<StateSnapshot>, need: &Vec<String>) -> (res: bool)
    ensures
        res == all_settled(*snapshot, text::texts(need@)),
{
    match snapshot {
        None => false,
        Some(s) => {
            let ghost names = text::texts(need@);
            let mut i: usize = 0;
            while i < need.len()
                invariant
                    i <= need@.len(),
                    *snapshot == Some(*s),
                    names == text::texts(need@),
                    forall|j: int| 0 <= j < i ==> settled(s.displays@, #[trigger] names[j]),
                decreases need@.len() - i,
            {
                assert(names[i as int] == need@[i as int]@);
                let done = match phase_of(&s.displays, need[i].as_str()) {
                    None => true,
                    Some(phase) => same_text(phase.as_str(), "blanked") || same_text(
                        phase.as_str(),
                        "active",
                    ),
                };
                if !done {
                    assert(!settled(s.displays@, names[i as int]));
                    return false;
                }
                i = i + 1;
            }
            true
        },
    }
}

// ── restoring ────────────────────────────────────────────────────────────

/// A phase that the next generation takes over.
#[derive(Clone, Copy, PartialEq, Eq, Debug, Structural)]
pub enum RestoredPhase {
    Waking,
    Blanked,
}

/// The phase that the next generation takes over, if any. One caught in the
/// middle of blanking never is.
pub open spec fn restored_phase(phase: Seq<char>) -> Option<RestoredPhase> {
    if phase == "waking"@ {
        Some(RestoredPhase::Waking)
    } else if phase == "blanked"@ {
        Some(RestoredPhase::Blanked)
    } else {
        None
    }
}

/// A step that brings the state of a snapshot into a new engine.
#[derive(PartialEq, Eq, Debug)]
#[verifier::ext_equal]
pub enum RestoreStep<T> {
    /// Carry the evidence of failures over.
    SeedFailure { display: T, wake_attempts: u64, last_blank_failed: bool },
    /// Replay what the phase schedules; the display itself starts anew.
    ReplayEffects { display: T, phase: RestoredPhase, cmd_gen: u64 },
    /// Put the display into the phase.
    InstallMachine { display: T, phase: RestoredPhase, cmd_gen: u64 },
    /// Note that a sensor has reported.
    SeedSensor { sensor: T },
}

impl View for RestoreStep<String> {
    type V = RestoreStep<Seq<char>>;

    open spec fn view(&self) -> RestoreStep<Seq<char>> {
        match *self {
            RestoreStep::SeedFailure { display, wake_attempts, last_blank_failed } =>
                RestoreStep::SeedFailure { display: display@, wake_attempts, last_blank_failed },
            RestoreStep::ReplayEffects { display, phase, cmd_gen } => RestoreStep::ReplayEffects {
                display: display@,
                phase,
                cmd_gen,
            },
            RestoreStep::InstallMachine { display, phase, cmd_gen } =>
                RestoreStep::InstallMachine { display: display@, phase, cmd_gen },
            RestoreStep::SeedSensor { sensor } => RestoreStep::SeedSensor { sensor: sensor@ },
        }
    }
}

/// The steps of a restore.
pub open spec fn step_models(v: Seq<RestoreStep<String>>) -> Seq<RestoreStep<Seq<char>>> {
    v.map_values(|s: RestoreStep<String>| s@)
}

/// Whether a rule of an engine drives a display.
pub open spec fn engine_rules(cfg: RulesEngineConfig, id: Seq<char>) -> bool {
    exists|i: int|
        0 <= i < cfg.rules@.len() && text::texts((#[trigger] cfg.rules@[i]).displays@).contains(id)
}

/// Whether an engine runs a display.
pub open spec fn engine_has_display(cfg: RulesEngineConfig, id: Seq<char>) -> bool {
    assembly::built_names(cfg.displays@).contains(id)
}

/// Whether an engine runs a sensor.
pub open spec fn engine_has_sensor(cfg: RulesEngineConfig, id: Seq<char>) -> bool {
    exists|i: int| 0 <= i < cfg.sensors@.len() && (#[trigger] cfg.sensors@[i]).sensor@ == id
}

/// The steps for one display. Failures are carried over whatever the phase is.
pub open spec fn display_steps(cfg: RulesEngineConfig, id: Seq<char>, d: DisplaySnapshot) -> Seq<
    RestoreStep<Seq<char>>,
> {
    if !engine_has_display(cfg, id) {
        Seq::empty()
    } else {
        let seed = RestoreStep::<Seq<char>>::SeedFailure {
            display: id,
            wake_attempts: d.wake_attempts,
            last_blank_failed: d.last_blank_failed,
        };
        match restored_phase(d.phase@) {
            None => seq![seed],
            Some(phase) => if engine_rules(cfg, id) {
                seq![
                    seed,
                    RestoreStep::ReplayEffects { display: id, phase, cmd_gen: d.cmd_gen },
                ]
            } else {
                seq![
                    seed,
                    RestoreStep::InstallMachine { display: id, phase, cmd_gen: d.cmd_gen },
                ]
            },
        }
    }
}

/// The steps for some displays.
pub open spec fn all_display_steps(
    cfg: RulesEngineConfig,
    displays: Seq<(String, DisplaySnapshot)>,
) -> Seq<RestoreStep<Seq<char>>>
    decreases displays.len(),
{
    if displays.len() == 0 {
        Seq::empty()
    } else {
        all_display_steps(cfg, displays.drop_last()) + display_steps(
            cfg,
            displays.last().0@,
            displays.last().1,
        )
    }
}

/// The step for one sensor.
pub open spec fn sensor_step(cfg: RulesEngineConfig) -> spec_fn(SensorSnapshot) -> Option<
    RestoreStep<Seq<char>>,
> {
    |s: SensorSnapshot|
        if s.reported && engine_has_sensor(cfg, s.id@) {
            Some(RestoreStep::<Seq<char>>::SeedSensor { sensor: s.id@ })
        } else {
            None
        }
}

/// The steps that bring a snapshot into an engine.
pub open spec fn restore_steps(cfg: RulesEngineConfig, s: StateSnapshot) -> Seq<
    RestoreStep<Seq<char>>,
> {
    all_display_steps(cfg, s.displays@) + s.sensors@.filter_map(sensor_step(cfg))
}

// ── what a change of config makes meaningless ────────────────────────────

/// What a change of config concerns: for each display and for each sensor, a text
/// that the old and the new config share exactly when they treat it alike.
pub struct ConfigChange<'a> {
    pub old_dispatch: &'a TextMap<String>,
    pub new_dispatch: &'a TextMap<String>,
    pub old_sensors: &'a TextMap<String>,
    pub new_sensors: &'a TextMap<String>,
}

/// The model of what a change of config concerns.
#[verifier::ext_equal]
pub struct ChangeModel {
    pub old_dispatch: Map<Seq<char>, Seq<char>>,
    pub new_dispatch: Map<Seq<char>, Seq<char>>,
    pub old_sensors: Map<Seq<char>, Seq<char>>,
    pub new_sensors: Map<Seq<char>, Seq<char>>,
}

impl<'a> View for ConfigChange<'a> {
    type V = ChangeModel;

    open spec fn view(&self) -> ChangeModel {
        ChangeModel {
            old_dispatch: self.old_dispatch@,
            new_dispatch: self.new_dispatch@,
            old_sensors: self.old_sensors@,
            new_sensors: self.new_sensors@,
        }
    }
}

/// Whether a sensor is in both configurations and is set up differently.
pub open spec fn sensor_changed(c: ChangeModel, id: Seq<char>) -> bool {
    c.old_sensors.contains_key(id) && c.new_sensors.contains_key(id) && c.old_sensors[id]
        != c.new_sensors[id]
}

/// An entry of a snapshot without the evidence of failures, where the display is
/// commanded differently from now on.
pub open spec fn voided_display(c: ChangeModel) -> spec_fn((String, DisplaySnapshot)) -> (
    String,
    DisplaySnapshot,
) {
    |e: (String, DisplaySnapshot)|
        if dispatch_changed(c.old_dispatch, c.new_dispatch, e.0@) {
            (e.0, DisplaySnapshot { wake_attempts: 0, last_blank_failed: false, ..e.1 })
        } else {
            e
        }
}

/// A sensor that has not reported yet, where it is set up differently from now
/// on.
pub open spec fn voided_sensor(c: ChangeModel) -> spec_fn(SensorSnapshot) -> SensorSnapshot {
    |s: SensorSnapshot|
        if sensor_changed(c, s.id@) {
            SensorSnapshot { reported: false, ..s }
        } else {
            s
        }
}

/// The steps that bring a snapshot into an engine of a changed config.
pub open spec fn voided_steps(cfg: RulesEngineConfig, s: StateSnapshot, c: ChangeModel) -> Seq<
    RestoreStep<Seq<char>>,
> {
    all_display_steps(cfg, s.displays@.map_values(voided_display(c)))
        + s.sensors@.map_values(voided_sensor(c)).filter_map(sensor_step(cfg))
}

/// Whether two entries of a snapshot say the same of a display.
pub open spec fn same_entry(a: (String, DisplaySnapshot), b: (String, DisplaySnapshot)) -> bool {
    &&& a.0@ == b.0@
    &&& a.1.phase@ == b.1.phase@
    &&& a.1.cmd_gen == b.1.cmd_gen
    &&& a.1.controllers@ == b.1.controllers@
    &&& a.1.wake_attempts == b.1.wake_attempts
    &&& a.1.last_blank_failed == b.1.last_blank_failed
}

/// Displays of which the same is said are restored alike.
proof fn lemma_same_entries(
    cfg: RulesEngineConfig,
    a: Seq<(String, DisplaySnapshot)>,
    b: Seq<(String, DisplaySnapshot)>,
)
    requires
        a.len() == b.len(),
        forall|i: int| 0 <= i < a.len() ==> same_entry(#[trigger] a[i], b[i]),
    ensures
        all_display_steps(cfg, a) == all_display_steps(cfg, b),
    decreases a.len(),
{
    if a.len() > 0 {
        assert(same_entry(a[a.len() - 1], b[a.len() - 1]));
        assert forall|i: int| 0 <= i < a.drop_last().len() implies same_entry(
            #[trigger] a.drop_last()[i],
            b.drop_last()[i],
        ) by {
            assert(same_entry(a[i], b[i]));
        }
        lemma_same_entries(cfg, a.drop_last(), b.drop_last());
    }
}

fn differs(before: &TextMap<String>, after: &TextMap<String>, id: &str) -> (res: bool)
    ensures
        res == dispatch_changed(before@, after@, id@),
{
    match (before.get(id), after.get(id)) {
        (Some(o), Some(n)) => !same_text(o.as_str(), n.as_str()),
        _ => false,
    }
}

fn copy_controllers(v: &Vec<ControllerHealth>) -> (out: Vec<ControllerHealth>)
    ensures
        out@ == v@,
{
    let mut out: Vec<ControllerHealth> = Vec::new();
    let mut i: usize = 0;
    while i < v.len()
        invariant
            i <= v@.len(),
            out@ == v@.take(i as int),
        decreases v@.len() - i,
    {
        out.push(v[i].copy());
        proof {
            seqs::lemma_take_step(v@, i as int);
        }
        i = i + 1;
    }
    proof {
        seqs::lemma_take_all(v@);
    }
    out
}

/// A snapshot without what a change of config makes meaningless: the evidence of
/// failures of a display that is commanded differently from now on, and the report
/// of a sensor that is set up differently. Everything else is as it was.
pub fn void_changed(snapshot: &StateSnapshot, change: &ConfigChange) -> (out: StateSnapshot)
    ensures
        out.displays@.len() == snapshot.displays@.len(),
        forall|i: int|
            0 <= i < snapshot.displays@.len() ==> same_entry(
                #[trigger] out.displays@[i],
                (voided_display(change@))(snapshot.displays@[i]),
            ),
        out.sensors@ == snapshot.sensors@.map_values(voided_sensor(change@)),
        forall|cfg: RulesEngineConfig| #[trigger]
            restore_steps(cfg, out) == voided_steps(cfg, *snapshot, change@),
{
    let ghost f = voided_display(change@);
    let ghost g = voided_sensor(change@);
    let mut displays: Vec<(String, DisplaySnapshot)> = Vec::new();
    let mut i: usize = 0;
    while i < snapshot.displays.len()
        invariant
            i <= snapshot.displays@.len(),
            f == voided_display(change@),
            displays@.len() == i,
            forall|j: int|
                0 <= j < i ==> same_entry(#[trigger] displays@[j], f(snapshot.displays@[j])),
        decreases snapshot.displays@.len() - i,
    {
        let id = &snapshot.displays[i].0;
        let d = &snapshot.displays[i].1;
        let changed = differs(change.old_dispatch, change.new_dispatch, id.as_str());
        let wake_attempts: u64 = if changed {
            0
        } else {
            d.wake_attempts
        };
        displays.push(
            (
                id.clone(),
                DisplaySnapshot {
                    phase: d.phase.clone(),
                    cmd_gen: d.cmd_gen,
                    controllers: copy_controllers(&d.controllers),
                    wake_attempts,
                    last_blank_failed: d.last_blank_failed && !changed,
                },
            ),
        );
        i = i + 1;
    }
    let mut sensors: Vec<SensorSnapshot> = Vec::new();
    let mut k: usize = 0;
    while k < snapshot.sensors.len()
        invariant
            k <= snapshot.sensors@.len(),
            g == voided_sensor(change@),
            sensors@.len() == k,
            forall|j: int| 0 <= j < k ==> #[trigger] sensors@[j] == g(snapshot.sensors@[j]),
        decreases snapshot.sensors@.len() - k,
    {
        let s = &snapshot.sensors[k];
        let changed = differs(change.old_sensors, change.new_sensors, s.id.as_str());
        sensors.push(SensorSnapshot { id: s.id.clone(), reported: s.reported && !changed });
        k = k + 1;
    }
    assert(sensors@ =~= snapshot.sensors@.map_values(g));
    let out = StateSnapshot { displays, sensors };
    proof {
        let wanted = snapshot.displays@.map_values(f);
        assert forall|cfg: RulesEngineConfig| #[trigger]
            restore_steps(cfg, out) == voided_steps(cfg, *snapshot, change@) by {
            assert forall|i: int| 0 <= i < wanted.len() implies same_entry(
                #[trigger] out.displays@[i],
                wanted[i],
            ) by {}
            lemma_same_entries(cfg, out.displays@, wanted);
        }
    }
    out
}

fn is_ruled_by(rules: &Vec<RuleRuntimeCfg>, id: &str) -> (res: bool)
    ensures
        res == exists|i: int|
            0 <= i < rules@.len() && text::texts((#[trigger] rules@[i]).displays@).contains(id@),
{
    let mut i: usize = 0;
    while i < rules.len()
        invariant
            i <= rules@.len(),
            forall|j: int|
                0 <= j < i ==> !text::texts((#[trigger] rules@[j]).displays@).contains(id@),
        decreases rules@.len() - i,
    {
        if holds_text(&rules[i].displays, id) {
            return true;
        }
        i = i + 1;
    }
    false
}

fn runs_sensor(sensors: &Vec<SensorRuntimeCfg>, id: &str) -> (res: bool)
    ensures
        res == exists|i: int| 0 <= i < sensors@.len() && (#[trigger] sensors@[i]).sensor@ == id@,
{
    let mut i: usize = 0;
    while i < sensors.len()
        invariant
            i <= sensors@.len(),
            forall|j: int| 0 <= j < i ==> (#[trigger] sensors@[j]).sensor@ != id@,
        decreases sensors@.len() - i,
    {
        if same_text(sensors[i].sensor.as_str(), id) {
            return true;
        }
        i = i + 1;
    }
    false
}

/// The steps that bring a snapshot into an engine.
pub fn apply_restore(snapshot: &StateSnapshot, cfg: &RulesEngineConfig) -> (out: Vec<
    RestoreStep<String>,
>)
    ensures
        step_models(out@) == restore_steps(*cfg, *snapshot),
{
    let mut out: Vec<RestoreStep<String>> = Vec::new();
    let ghost all = snapshot.displays@;
    let mut i: usize = 0;
    proof {
        assert(all.take(0) =~= Seq::<(String, DisplaySnapshot)>::empty());
        assert(step_models(out@) =~= all_display_steps(*cfg, all.take(0)));
    }
    while i < snapshot.displays.len()
        invariant
            i <= snapshot.displays@.len(),
            all == snapshot.displays@,
            step_models(out@) == all_display_steps(*cfg, all.take(i as int)),
        decreases snapshot.displays@.len() - i,
    {
        let ghost out0 = out@;
        let id = &snapshot.displays[i].0;
        let d = &snapshot.displays[i].1;
        proof {
            let longer = all.take(i + 1);
            assert(longer.drop_last() =~= all.take(i as int));
            assert(longer.last() == all[i as int]);
        }
        if is_built(&cfg.displays, id.as_str()) {
            out.push(
                RestoreStep::SeedFailure {
                    display: id.clone(),
                    wake_attempts: d.wake_attempts,
                    last_blank_failed: d.last_blank_failed,
                },
            );
            let phase = if same_text(d.phase.as_str(), "waking") {
                Some(RestoredPhase::Waking)
            } else if same_text(d.phase.as_str(), "blanked") {
                Some(RestoredPhase::Blanked)
            } else {
                None
            };
            match phase {
                Some(phase) => {
                    if is_ruled_by(&cfg.rules, id.as_str()) {
                        out.push(
                            RestoreStep::ReplayEffects {
                                display: id.clone(),
                                phase,
                                cmd_gen: d.cmd_gen,
                            },
                        );
                    } else {
                        out.push(
                            RestoreStep::InstallMachine {
                                display: id.clone(),
                                phase,
                                cmd_gen: d.cmd_gen,
                            },
                        );
                    }
                },
                None => {},
            }
        }
        assert(step_models(out@) =~= step_models(out0) + display_steps(*cfg, id@, *d));
        i = i + 1;
    }
    proof {
        seqs::lemma_take_all(all);
    }
    let ghost head = step_models(out@);
    let ghost f = sensor_step(*cfg);
    let ghost sensed = snapshot.sensors@;
    let mut k: usize = 0;
    proof {
        assert(sensed.take(0) =~= Seq::<SensorSnapshot>::empty());
        assert(head =~= head + sensed.take(0).filter_map(f));
    }
    while k < snapshot.sensors.len()
        invariant
            k <= snapshot.sensors@.len(),
            sensed == snapshot.sensors@,
            f == sensor_step(*cfg),
            step_models(out@) == head + sensed.take(k as int).filter_map(f),
        decreases snapshot.sensors@.len() - k,
    {
        let ghost out0 = out@;
        proof {
            seqs::lemma_filter_map_step(sensed, k as int, f);
        }
        let s = &snapshot.sensors[k];
        if s.reported && runs_sensor(&cfg.sensors, s.id.as_str()) {
            out.push(RestoreStep::SeedSensor { sensor: s.id.clone() });
            assert(step_models(out@) =~= step_models(out0).push(
                RestoreStep::<Seq<char>>::SeedSensor { sensor: s.id@ },
            ));
            assert(step_models(out@) =~= head + sensed.take(k + 1).filter_map(f));
        }
        k = k + 1;
    }
    proof {
        seqs::lemma_take_all(sensed);
    }
    out
}

// ── laws ─────────────────────────────────────────────────────────────────

/// A display is picked exactly when an entry of the snapshot has its name and a
/// phase with which it is picked.
pub proof fn lemma_pick(
    displays: Seq<(String, DisplaySnapshot)>,
    p: spec_fn(Seq<char>, Seq<char>) -> bool,
    id: Seq<char>,
)
    ensures
        displays.filter_map(picked(p)).contains(id) <==> exists|i: int|
            0 <= i < displays.len() && (#[trigger] displays[i]).0@ == id && p(
                id,
                displays[i].1.phase@,
            ),
    decreases displays.len(),
{
    let f = picked(p);
    reveal(Seq::filter_map);
    if displays.len() == 0 {
        assert(displays.filter_map(f) =~= Seq::<Seq<char>>::empty());
    } else {
        let front = displays.drop_last();
        let last = displays.last();
        lemma_pick(front, p, id);
        seqs::lemma_filter_map_step(displays, displays.len() - 1, f);
        seqs::lemma_take_all(displays);
        assert(displays.take(displays.len() - 1) =~= front);
        let before = front.filter_map(f);
        let whole = displays.filter_map(f);
        assert(displays[displays.len() - 1] == last);
        if before.contains(id) {
            let i = choose|i: int|
                0 <= i < front.len() && (#[trigger] front[i]).0@ == id && p(
                    id,
                    front[i].1.phase@,
                );
            assert(displays[i] == front[i]);
            let k = choose|k: int| 0 <= k < before.len() && before[k] == id;
            assert(whole[k] == id);
        }
        if whole.contains(id) && !before.contains(id) {
            let k = choose|k: int| 0 <= k < whole.len() && whole[k] == id;
            if k < before.len() {
                assert(before[k] == id);
            }
            assert(f(last) == Some(id));
        }
        if exists|i: int|
            0 <= i < displays.len() && (#[trigger] displays[i]).0@ == id && p(
                id,
                displays[i].1.phase@,
            ) {
            let i = choose|i: int|
                0 <= i < displays.len() && (#[trigger] displays[i]).0@ == id && p(
                    id,
                    displays[i].1.phase@,
                );
            if i < front.len() {
                assert(front[i] == displays[i]);
            } else {
                assert(f(last) == Some(id));
                assert(whole[whole.len() - 1] == id);
            }
        }
    }
}

/// No display is both removed and retained: a panel is woken through its old
/// executor or through its new one.
pub proof fn law_removed_and_retained_are_disjoint(
    snapshot: StateSnapshot,
    present: Seq<Seq<char>>,
    ruled: Seq<Seq<char>>,
    id: Seq<char>,
)
    ensures
        !(pick(Some(snapshot), is_removed(present)).contains(id) && pick(
            Some(snapshot),
            is_retained(present, ruled),
        ).contains(id)),
{
    lemma_pick(snapshot.displays@, is_removed(present), id);
    lemma_pick(snapshot.displays@, is_retained(present, ruled), id);
}

/// No display is both removed and changed, where every configured display has an
/// executor: no panel is woken twice before the next generation starts.
pub proof fn law_removed_and_changed_are_disjoint(
    snapshot: StateSnapshot,
    present: Seq<Seq<char>>,
    before: Map<Seq<char>, Seq<char>>,
    after: Map<Seq<char>, Seq<char>>,
    ruled: Seq<Seq<char>>,
    id: Seq<char>,
)
    requires
        forall|d: Seq<char>| #[trigger] after.contains_key(d) ==> present.contains(d),
    ensures
        !(pick(Some(snapshot), is_removed(present)).contains(id) && pick(
            Some(snapshot),
            is_changed(before, after, ruled),
        ).contains(id)),
{
    lemma_pick(snapshot.displays@, is_removed(present), id);
    lemma_pick(snapshot.displays@, is_changed(before, after, ruled), id);
}

/// A display that a rule drives is never treated as changed: however its
/// configuration changed, its wake cannot make a reload fail.
pub proof fn law_ruled_display_is_never_changed(
    snapshot: StateSnapshot,
    before: Map<Seq<char>, Seq<char>>,
    after: Map<Seq<char>, Seq<char>>,
    ruled: Seq<Seq<char>>,
    id: Seq<char>,
)
    requires
        ruled.contains(id),
    ensures
        !pick(Some(snapshot), is_changed(before, after, ruled)).contains(id),
{
    lemma_pick(snapshot.displays@, is_changed(before, after, ruled), id);
}

/// A dark display that no rule drives and that is configured as before keeps its
/// darkness: no reload wakes it, unless it was caught in the middle of blanking.
pub proof fn law_manual_darkness_is_kept(
    snapshot: StateSnapshot,
    present: Seq<Seq<char>>,
    before: Map<Seq<char>, Seq<char>>,
    after: Map<Seq<char>, Seq<char>>,
    ruled: Seq<Seq<char>>,
    id: Seq<char>,
)
    requires
        present.contains(id),
        !ruled.contains(id),
        !dispatch_changed(before, after, id),
        forall|i: int|
            0 <= i < snapshot.displays@.len() && (#[trigger] snapshot.displays@[i]).0@ == id
                ==> snapshot.displays@[i].1.phase@ != "blanking"@,
    ensures
        !pick(Some(snapshot), is_removed(present)).contains(id),
        !pick(Some(snapshot), is_retained(present, ruled)).contains(id),
        !pick(Some(snapshot), is_changed(before, after, ruled)).contains(id),
        !pick(Some(snapshot), is_blanking(ruled)).contains(id),
{
    lemma_pick(snapshot.displays@, is_removed(present), id);
    lemma_pick(snapshot.displays@, is_retained(present, ruled), id);
    lemma_pick(snapshot.displays@, is_changed(before, after, ruled), id);
    lemma_pick(snapshot.displays@, is_blanking(ruled), id);
}

/// Failures are carried over for every display that the engine runs, whatever
/// its phase, and before anything else is done to it.
pub proof fn law_failures_are_always_carried_over(
    cfg: RulesEngineConfig,
    id: Seq<char>,
    d: DisplaySnapshot,
)
    requires
        engine_has_display(cfg, id),
    ensures
        display_steps(cfg, id, d).len() >= 1,
        display_steps(cfg, id, d)[0] == (RestoreStep::<Seq<char>>::SeedFailure {
            display: id,
            wake_attempts: d.wake_attempts,
            last_blank_failed: d.last_blank_failed,
        }),
{
}

/// Where the config changed, what it made meaningless is not carried over: the
/// failures of a display that is commanded differently count for nothing, and a
/// sensor that is set up differently has not reported. The phase stands.
pub proof fn law_changed_config_voids_the_evidence(
    c: ChangeModel,
    e: (String, DisplaySnapshot),
    s: SensorSnapshot,
)
    ensures
        dispatch_changed(c.old_dispatch, c.new_dispatch, e.0@) ==> (voided_display(
            c,
        ))(e).1.wake_attempts == 0 && !(voided_display(c))(e).1.last_blank_failed,
        !dispatch_changed(c.old_dispatch, c.new_dispatch, e.0@) ==> (voided_display(c))(e) == e,
        (voided_display(c))(e).0 == e.0,
        (voided_display(c))(e).1.phase == e.1.phase,
        sensor_changed(c, s.id@) ==> !(voided_sensor(c))(s).reported,
        !sensor_changed(c, s.id@) ==> (voided_sensor(c))(s) == s,
{
}

/// A display caught in the middle of blanking is never put back into a phase.
pub proof fn law_blanking_is_never_restored(
    cfg: RulesEngineConfig,
    id: Seq<char>,
    d: DisplaySnapshot,
)
    requires
        d.phase@ == "blanking"@,
    ensures
        display_steps(cfg, id, d).len() <= 1,
        forall|i: int|
            0 <= i < display_steps(cfg, id, d).len() ==> (#[trigger] display_steps(
                cfg,
                id,
                d,
            )[i]) is SeedFailure,
{
    reveal_strlit("blanking");
    reveal_strlit("blanked");
    reveal_strlit("waking");
    assert("blanking"@.len() == 8 && "blanked"@.len() == 7 && "waking"@.len() == 6);
}

/// A display that a rule drives starts anew: only one that none drives is put
/// back into its phase.
pub proof fn law_only_manual_displays_keep_their_phase(
    cfg: RulesEngineConfig,
    id: Seq<char>,
    d: DisplaySnapshot,
)
    ensures
        forall|i: int|
            0 <= i < display_steps(cfg, id, d).len() ==> ((#[trigger] display_steps(
                cfg,
                id,
                d,
            )[i]) is InstallMachine ==> !engine_rules(cfg, id)),
        restored_phase(d.phase@) is Some && engine_has_display(cfg, id) && !engine_rules(cfg, id)
            ==> display_steps(cfg, id, d).last() == (RestoreStep::<Seq<char>>::InstallMachine {
            display: id,
            phase: restored_phase(d.phase@)->0,
            cmd_gen: d.cmd_gen,
        }),
{
}

/// Whether a panel in a phase is dark.
pub open spec fn shows_nothing(phase: Seq<char>) -> bool {
    phase == "blanked"@ || phase == "blanking"@ || phase == "waking"@
}

/// Whether a snapshot reports a display in a phase.
pub open spec fn reports_phase(s: StateSnapshot, id: Seq<char>, phase: Seq<char>) -> bool {
    exists|i: int|
        0 <= i < s.displays@.len() && (#[trigger] s.displays@[i]).0@ == id
            && s.displays@[i].1.phase@ == phase
}

/// Whether a snapshot reports a display as dark.
pub open spec fn reports_dark(s: StateSnapshot, id: Seq<char>) -> bool {
    exists|i: int|
        0 <= i < s.displays@.len() && (#[trigger] s.displays@[i]).0@ == id && shows_nothing(
            s.displays@[i].1.phase@,
        )
}

/// A dark display is sorted by what becomes of it: gone, driven by a rule as
/// before, or commanded otherwise; and one that a rule does not drive is waited
/// for while it is blanking.
pub proof fn law_dark_displays_are_sorted_out(
    s: StateSnapshot,
    present: Seq<Seq<char>>,
    before: Map<Seq<char>, Seq<char>>,
    after: Map<Seq<char>, Seq<char>>,
    ruled: Seq<Seq<char>>,
    id: Seq<char>,
)
    ensures
        pick(Some(s), is_removed(present)).contains(id) <==> reports_dark(s, id)
            && !present.contains(id),
        pick(Some(s), is_retained(present, ruled)).contains(id) <==> reports_dark(s, id)
            && present.contains(id) && ruled.contains(id),
        pick(Some(s), is_changed(before, after, ruled)).contains(id) <==> reports_dark(s, id)
            && !ruled.contains(id) && before.contains_key(id) && after.contains_key(id)
            && before[id] != after[id],
        pick(Some(s), is_blanking(ruled)).contains(id) <==> reports_phase(s, id, "blanking"@)
            && !ruled.contains(id),
        pick(None, is_removed(present)).len() == 0,
        pick(None, is_retained(present, ruled)).len() == 0,
        pick(None, is_changed(before, after, ruled)).len() == 0,
        pick(None, is_blanking(ruled)).len() == 0,
{
    lemma_pick(s.displays@, is_removed(present), id);
    lemma_pick(s.displays@, is_retained(present, ruled), id);
    lemma_pick(s.displays@, is_changed(before, after, ruled), id);
    lemma_pick(s.displays@, is_blanking(ruled), id);
    law_phases_are_sorted_by_what_they_need("blanking"@, true);
    if reports_dark(s, id) {
        let i = choose|i: int|
            0 <= i < s.displays@.len() && (#[trigger] s.displays@[i]).0@ == id && shows_nothing(
                s.displays@[i].1.phase@,
            );
        assert(is_dark(s.displays@[i].1.phase@));
        assert(is_removed(present)(id, s.displays@[i].1.phase@) == !present.contains(id));
        assert(is_retained(present, ruled)(id, s.displays@[i].1.phase@) == (present.contains(id)
            && ruled.contains(id)));
        assert(is_changed(before, after, ruled)(id, s.displays@[i].1.phase@) == (!ruled.contains(
            id,
        ) && dispatch_changed(before, after, id)));
    }
    if reports_phase(s, id, "blanking"@) {
        let i = choose|i: int|
            0 <= i < s.displays@.len() && (#[trigger] s.displays@[i]).0@ == id
                && s.displays@[i].1.phase@ == "blanking"@;
        assert(is_blanking(ruled)(id, s.displays@[i].1.phase@) == !ruled.contains(id));
    }
    if pick(Some(s), is_blanking(ruled)).contains(id) {
        let i = choose|i: int|
            0 <= i < s.displays@.len() && (#[trigger] s.displays@[i]).0@ == id && is_blanking(
                ruled,
            )(id, s.displays@[i].1.phase@);
        assert(s.displays@[i].1.phase@ == "blanking"@);
    }
}

/// What a display needs follows from its phase, and only where no rule drives
/// it: to be waited for while it is blanking, to be put back where it is blanked
/// or waking.
pub proof fn law_phases_are_sorted_by_what_they_need(phase: Seq<char>, ruleless: bool)
    ensures
        !ruleless ==> transient_class(phase, ruleless) == TransientClass::Ignore,
        transient_class("blanking"@, true) == TransientClass::Quiesce,
        transient_class("blanked"@, true) == TransientClass::RestoreDirect,
        transient_class("waking"@, true) == TransientClass::RestoreDirect,
        transient_class(phase, true) == TransientClass::Quiesce ==> phase == "blanking"@,
        transient_class(phase, true) == TransientClass::RestoreDirect ==> phase == "blanked"@
            || phase == "waking"@,
        transient_class(phase, true) != TransientClass::Ignore <==> shows_nothing(phase),
{
    reveal_strlit("blanking");
    reveal_strlit("blanked");
    reveal_strlit("waking");
    assert("blanking"@.len() != "blanked"@.len());
    assert("blanking"@.len() != "waking"@.len());
}

/// The phase of a display is the one that its first entry reports, and none where
/// it has no entry.
pub proof fn law_phase_is_that_of_the_first_entry(
    displays: Seq<(String, DisplaySnapshot)>,
    id: Seq<char>,
    i: int,
)
    ensures
        (forall|j: int| 0 <= j < displays.len() ==> (#[trigger] displays[j]).0@ != id)
            ==> phase_in(displays, id) is None && settled(displays, id),
        0 <= i < displays.len() && displays[i].0@ == id && (forall|j: int|
            0 <= j < i ==> (#[trigger] displays[j]).0@ != id) ==> phase_in(displays, id) == Some(
            displays[i].1.phase@,
        ),
        0 <= i < displays.len() && displays[i].0@ == id && (forall|j: int|
            0 <= j < i ==> (#[trigger] displays[j]).0@ != id) ==> (settled(displays, id) <==> (
        displays[i].1.phase@ == "blanked"@ || displays[i].1.phase@ == "active"@)),
    decreases displays.len(),
{
    if displays.len() > 0 {
        let rest = displays.drop_first();
        law_phase_is_that_of_the_first_entry(rest, id, i - 1);
        if forall|j: int| 0 <= j < displays.len() ==> (#[trigger] displays[j]).0@ != id {
            assert forall|j: int| 0 <= j < rest.len() implies (#[trigger] rest[j]).0@ != id by {
                assert(rest[j] == displays[j + 1]);
            }
            assert(displays[0].0@ != id);
        }
        if 0 <= i < displays.len() && displays[i].0@ == id && (forall|j: int|
            0 <= j < i ==> (#[trigger] displays[j]).0@ != id) {
            if i > 0 {
                assert(displays[0].0@ != id);
                assert(rest[i - 1] == displays[i]);
                assert forall|j: int| 0 <= j < i - 1 implies (#[trigger] rest[j]).0@ != id by {
                    assert(rest[j] == displays[j + 1]);
                }
            }
        }
    }
}

/// A wait is over for a display that is gone, lit or dark for good, and for no
/// display while the engine does not answer.
pub proof fn law_wait_is_over_once_nothing_is_blanking(
    snapshot: Option<StateSnapshot>,
    need: Seq<Seq<char>>,
)
    ensures
        snapshot is None ==> !all_settled(snapshot, need),
        snapshot matches Some(s) ==> (all_settled(snapshot, need) <==> forall|i: int|
            0 <= i < need.len() ==> settled(s.displays@, #[trigger] need[i])),
{
}

/// Whether an engine has a display.
pub open spec fn runs(cfg: RulesEngineConfig, id: Seq<char>) -> bool {
    exists|i: int| 0 <= i < cfg.displays@.len() && (#[trigger] cfg.displays@[i]).display@ == id
}

/// Whether a rule of an engine drives a display.
pub open spec fn is_driven(cfg: RulesEngineConfig, id: Seq<char>) -> bool {
    exists|i: int, k: int|
        0 <= i < cfg.rules@.len() && 0 <= k < (#[trigger] cfg.rules@[i]).displays@.len() && (
        #[trigger] cfg.rules@[i].displays@[k])@ == id
}

proof fn lemma_engine(cfg: RulesEngineConfig, id: Seq<char>)
    ensures
        runs(cfg, id) == engine_has_display(cfg, id),
        is_driven(cfg, id) == engine_rules(cfg, id),
{
    let names = assembly::built_names(cfg.displays@);
    if runs(cfg, id) {
        let i = choose|i: int|
            0 <= i < cfg.displays@.len() && (#[trigger] cfg.displays@[i]).display@ == id;
        assert(names[i] == id);
    }
    if engine_has_display(cfg, id) {
        let i = choose|i: int| 0 <= i < names.len() && names[i] == id;
        assert(cfg.displays@[i].display@ == id);
    }
    if is_driven(cfg, id) {
        let (i, k) = choose|i: int, k: int|
            0 <= i < cfg.rules@.len() && 0 <= k < (#[trigger] cfg.rules@[i]).displays@.len() && (
            #[trigger] cfg.rules@[i].displays@[k])@ == id;
        let t = text::texts(cfg.rules@[i].displays@);
        assert(t[k] == id);
        assert(t.contains(id));
    }
    if engine_rules(cfg, id) {
        let i = choose|i: int|
            0 <= i < cfg.rules@.len() && text::texts(
                (#[trigger] cfg.rules@[i]).displays@,
            ).contains(id);
        let t = text::texts(cfg.rules@[i].displays@);
        let k = choose|k: int| 0 <= k < t.len() && t[k] == id;
        assert(cfg.rules@[i].displays@[k]@ == id);
    }
}

/// What is restored of a display: nothing where the engine does not run it; else
/// its failures, and where it was blanked or waking that phase with its counter,
/// as a replay where a rule drives it and as the machine's own state where none
/// does.
pub proof fn law_display_is_restored_as_it_was(
    cfg: RulesEngineConfig,
    id: Seq<char>,
    d: DisplaySnapshot,
)
    ensures
        ({
            let steps = display_steps(cfg, id, d);
            let seed = RestoreStep::<Seq<char>>::SeedFailure {
                display: id,
                wake_attempts: d.wake_attempts,
                last_blank_failed: d.last_blank_failed,
            };
            let phase = if d.phase@ == "waking"@ {
                RestoredPhase::Waking
            } else {
                RestoredPhase::Blanked
            };
            let kept = d.phase@ == "waking"@ || d.phase@ == "blanked"@;
            &&& !runs(cfg, id) ==> steps.len() == 0
            &&& runs(cfg, id) && !kept ==> steps == seq![seed]
            &&& runs(cfg, id) && kept ==> steps.len() == 2 && steps[0] == seed
            &&& runs(cfg, id) && kept && is_driven(cfg, id) ==> steps[1] == (RestoreStep::<
                Seq<char>,
            >::ReplayEffects { display: id, phase, cmd_gen: d.cmd_gen })
            &&& runs(cfg, id) && kept && !is_driven(cfg, id) ==> steps[1] == (RestoreStep::<
                Seq<char>,
            >::InstallMachine { display: id, phase, cmd_gen: d.cmd_gen })
        }),
{
    lemma_engine(cfg, id);
    reveal_strlit("blanked");
    reveal_strlit("waking");
    assert("blanked"@.len() != "waking"@.len());
}

/// Everything that is restored comes from an entry of the snapshot, and every
/// entry is restored.
pub proof fn law_every_display_is_restored(
    cfg: RulesEngineConfig,
    displays: Seq<(String, DisplaySnapshot)>,
    step: RestoreStep<Seq<char>>,
)
    ensures
        all_display_steps(cfg, displays).contains(step) <==> exists|i: int|
            0 <= i < displays.len() && display_steps(
                cfg,
                (#[trigger] displays[i]).0@,
                displays[i].1,
            ).contains(step),
    decreases displays.len(),
{
    if displays.len() > 0 {
        let front = displays.drop_last();
        let n = displays.len() - 1;
        law_every_display_is_restored(cfg, front, step);
        let a = all_display_steps(cfg, front);
        let b = display_steps(cfg, displays.last().0@, displays.last().1);
        assert(displays[n] == displays.last());
        if a.contains(step) {
            let k = choose|k: int| 0 <= k < a.len() && a[k] == step;
            assert((a + b)[k] == step);
            let i = choose|i: int|
                0 <= i < front.len() && display_steps(
                    cfg,
                    (#[trigger] front[i]).0@,
                    front[i].1,
                ).contains(step);
            assert(displays[i] == front[i]);
        }
        if b.contains(step) {
            let k = choose|k: int| 0 <= k < b.len() && b[k] == step;
            assert((a + b)[a.len() + k] == step);
        }
        if (a + b).contains(step) {
            let k = choose|k: int| 0 <= k < (a + b).len() && (a + b)[k] == step;
            if k < a.len() {
                assert(a[k] == step);
            } else {
                assert(b[k - a.len()] == step);
            }
        }
        if exists|i: int|
            0 <= i < displays.len() && display_steps(
                cfg,
                (#[trigger] displays[i]).0@,
                displays[i].1,
            ).contains(step) {
            let i = choose|i: int|
                0 <= i < displays.len() && display_steps(
                    cfg,
                    (#[trigger] displays[i]).0@,
                    displays[i].1,
                ).contains(step);
            if i < n {
                assert(front[i] == displays[i]);
            }
        }
    }
}

/// A sensor is seeded exactly if it has reported and the engine has it.
pub proof fn law_reported_sensors_are_seeded(
    cfg: RulesEngineConfig,
    s: StateSnapshot,
    id: Seq<char>,
)
    ensures
        restore_steps(cfg, s).contains(RestoreStep::<Seq<char>>::SeedSensor { sensor: id }) <==> (
        exists|i: int|
            0 <= i < s.sensors@.len() && (#[trigger] s.sensors@[i]).id@ == id
                && s.sensors@[i].reported) && (exists|k: int|
            0 <= k < cfg.sensors@.len() && (#[trigger] cfg.sensors@[k]).sensor@ == id),
{
    let step = RestoreStep::<Seq<char>>::SeedSensor { sensor: id };
    let f = sensor_step(cfg);
    let a = all_display_steps(cfg, s.displays@);
    let b = s.sensors@.filter_map(f);
    seqs::lemma_filter_map_members(s.sensors@, f, step);
    law_every_display_is_restored(cfg, s.displays@, step);
    assert(!a.contains(step));
    if b.contains(step) {
        let k = choose|k: int| 0 <= k < b.len() && b[k] == step;
        assert((a + b)[a.len() + k] == step);
        let i = choose|i: int|
            0 <= i < s.sensors@.len() && f(#[trigger] s.sensors@[i]) == Some(step);
        assert(s.sensors@[i].id@ == id && s.sensors@[i].reported);
    }
    if (a + b).contains(step) {
        let k = choose|k: int| 0 <= k < (a + b).len() && (a + b)[k] == step;
        if k < a.len() {
            assert(a[k] == step);
        } else {
            assert(b[k - a.len()] == step);
        }
    }
    if (exists|i: int|
        0 <= i < s.sensors@.len() && (#[trigger] s.sensors@[i]).id@ == id
            && s.sensors@[i].reported) && engine_has_sensor(cfg, id) {
        let i = choose|i: int|
            0 <= i < s.sensors@.len() && (#[trigger] s.sensors@[i]).id@ == id
                && s.sensors@[i].reported;
        assert(f(s.sensors@[i]) == Some(step));
    }
}

/// A change of config touches nothing but the evidence against what it changed:
/// a display that both configs command, but differently, loses its failures, and
/// a sensor that both have, but set up differently, its report.
pub proof fn law_only_changed_evidence_is_voided(
    c: ChangeModel,
    e: (String, DisplaySnapshot),
    s: SensorSnapshot,
)
    ensures
        ({
            let v = (voided_display(c))(e);
            let moved = c.old_dispatch.contains_key(e.0@) && c.new_dispatch.contains_key(e.0@)
                && c.old_dispatch[e.0@] != c.new_dispatch[e.0@];
            &&& v.0 == e.0
            &&& v.1.phase == e.1.phase
            &&& v.1.cmd_gen == e.1.cmd_gen
            &&& v.1.controllers == e.1.controllers
            &&& moved ==> v.1.wake_attempts == 0 && !v.1.last_blank_failed
            &&& !moved ==> v == e
        }),
        ({
            let v = (voided_sensor(c))(s);
            let moved = c.old_sensors.contains_key(s.id@) && c.new_sensors.contains_key(s.id@)
                && c.old_sensors[s.id@] != c.new_sensors[s.id@];
            &&& v.id == s.id
            &&& v.reported == (s.reported && !moved)
        }),
{
}

/// A config that commands and sets up everything as before takes over everything.
pub proof fn law_unchanged_config_takes_over_everything(
    cfg: RulesEngineConfig,
    s: StateSnapshot,
    c: ChangeModel,
)
    requires
        c.old_dispatch == c.new_dispatch,
        c.old_sensors == c.new_sensors,
    ensures
        voided_steps(cfg, s, c) == restore_steps(cfg, s),
{
    assert(s.displays@.map_values(voided_display(c)) =~= s.displays@);
    assert(s.sensors@.map_values(voided_sensor(c)) =~= s.sensors@);
}

/// What a new config takes over is what the snapshot would restore without the
/// evidence that the change voids, entry by entry.
pub proof fn law_new_config_restores_the_voided_entries(
    cfg: RulesEngineConfig,
    s: StateSnapshot,
    c: ChangeModel,
    i: int,
    step: RestoreStep<Seq<char>>,
)
    requires
        0 <= i < s.displays@.len(),
        display_steps(
            cfg,
            s.displays@[i].0@,
            (voided_display(c))(s.displays@[i]).1,
        ).contains(step),
    ensures
        voided_steps(cfg, s, c).contains(step),
{
    let displays = s.displays@.map_values(voided_display(c));
    law_every_display_is_restored(cfg, displays, step);
    law_only_changed_evidence_is_voided(c, s.displays@[i], SensorSnapshot {
        id: s.displays@[i].0,
        reported: false,
    });
    assert(displays[i] == (voided_display(c))(s.displays@[i]));
    let a = all_display_steps(cfg, displays);
    let b = s.sensors@.map_values(voided_sensor(c)).filter_map(sensor_step(cfg));
    assert(a.contains(step));
    let k = choose|k: int| 0 <= k < a.len() && a[k] == step;
    assert((a + b)[k] == step);
}

/// A change is seen with what was and what is each in its place, and steps one for
/// one.
pub proof fn law_change_is_seen_whole(c: ConfigChange, steps: Seq<RestoreStep<String>>, i: int)
    ensures
        c@.old_dispatch == c.old_dispatch@ && c@.new_dispatch == c.new_dispatch@,
        c@.old_sensors == c.old_sensors@ && c@.new_sensors == c.new_sensors@,
        step_models(steps).len() == steps.len(),
        0 <= i < steps.len() ==> step_models(steps)[i] == steps[i]@,
{
}

/// Voiding takes evidence away and nothing else: every display keeps its place,
/// name, phase, command generation and controllers, and its failures too unless
/// it is commanded differently from now on.
pub proof fn law_voided_snapshot_keeps_the_rest(
    snapshot: StateSnapshot,
    change: ConfigChange,
    out: StateSnapshot,
    i: int,
)
    requires
        call_ensures(void_changed, (&snapshot, &change), out),
        0 <= i < snapshot.displays@.len(),
    ensures
        ({
            let was = snapshot.displays@[i];
            let left = out.displays@[i];
            let changed = dispatch_changed(change@.old_dispatch, change@.new_dispatch, was.0@);
            &&& out.displays@.len() == snapshot.displays@.len()
            &&& left.0@ == was.0@ && left.1.phase@ == was.1.phase@ && left.1.cmd_gen == was.1.cmd_gen
                && left.1.controllers@ == was.1.controllers@
            &&& changed ==> left.1.wake_attempts == 0 && !left.1.last_blank_failed
            &&& !changed ==> left.1.wake_attempts == was.1.wake_attempts
                && left.1.last_blank_failed == was.1.last_blank_failed
        }),
{
    assert(same_entry(out.displays@[i], (voided_display(change@))(snapshot.displays@[i])));
}

} // verus!
