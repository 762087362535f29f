//! What a generation is spawned with.

use vstd::prelude::*;

use crate::assembly;
use crate::assembly::{
    activity_rules, audio_rules, should_spawn_coordination_poller, ActivityRule,
    RulesEngineConfig, DEFAULT_ACTIVITY_POLL,
};
use crate::audio_source::AudioRule;
use crate::clock::Nanos;
use crate::config::{DisplayConfig, RuleConfig};
use crate::reload::{GenerationConfig, GenerationModel, SpawnPlan};
use crate::restore;
use crate::restore::{apply_restore, void_changed, ChangeModel, ConfigChange, RestoreStep};
use crate::snapshot::StateSnapshot;
use crate::text;

verus! {

/// What the engine of a generation is set to before it runs, and what feeds it.
pub struct GenerationPlan {
    pub generation: u64,
    /// What the engine reports as pending.
    pub pending: Option<String>,
    /// The rollback that the engine reports.
    pub rollback: Option<String>,
    /// How the state of the generation before is brought in.
    pub restore: Vec<RestoreStep<String>>,
    /// Whether other instances are polled.
    pub poll_coordination: bool,
    pub activity_rules: Vec<ActivityRule>,
    pub activity_poll: Nanos,
    pub audio_rules: Vec<AudioRule>,
}

/// What differs between two configs.
pub open spec fn change_of(before: GenerationModel, after: GenerationModel) -> ChangeModel {
    ChangeModel {
        old_dispatch: before.dispatch,
        new_dispatch: after.dispatch,
        old_sensors: before.sensors,
        new_sensors: after.sensors,
    }
}

/// The steps that bring in a snapshot, where there is one. A generation of a new
/// config takes over nothing that the change has made meaningless; one of the old
/// config takes over everything.
pub open spec fn carried_over(
    cfg: RulesEngineConfig,
    snapshot: Option<StateSnapshot>,
    new_config: bool,
    change: ChangeModel,
) -> Seq<RestoreStep<Seq<char>>> {
    match snapshot {
        Some(s) => if new_config {
            restore::voided_steps(cfg, s, change)
        } else {
            restore::restore_steps(cfg, s)
        },
        None => Seq::empty(),
    }
}

/// How often user activity is looked at.
pub open spec fn activity_interval(rules: Seq<RuleConfig>) -> Nanos {
    match assembly::least_poll(rules) {
        Some(p) => p,
        None => DEFAULT_ACTIVITY_POLL,
    }
}

/// What a generation is spawned with. `snapshot` is what the engine before it
/// reported, which ran the config `before`; the generation itself runs `after`.
pub fn spawn_generation(
    spawn: SpawnPlan<String>,
    displays: &Vec<DisplayConfig>,
    rules: &Vec<RuleConfig>,
    engine: &RulesEngineConfig,
    coordinated: bool,
    snapshot: &Option<StateSnapshot>,
    before: &GenerationConfig,
    after: &GenerationConfig,
) -> (res: GenerationPlan)
    ensures
        res.generation == spawn.generation,
        text::opt_text(res.pending) == spawn@.pending,
        text::opt_text(res.rollback) == spawn@.rollback,
        restore::step_models(res.restore@) == carried_over(
            *engine,
            *snapshot,
            spawn.new_config,
            change_of(before@, after@),
        ),
        res.poll_coordination == (coordinated && displays@.filter_map(
            assembly::shared_name(),
        ).len() > 0),
        res.activity_rules@.map_values(|a: ActivityRule| (a.rule@, a.idle_threshold))
            == rules@.filter_map(assembly::activity_of()),
        res.activity_poll == activity_interval(rules@),
        res.audio_rules@.map_values(|a: AudioRule| (a.rule@, a.kinds@)) == rules@.filter_map(
            assembly::audio_of(),
        ),
{
    let restore = match snapshot {
        Some(s) => if spawn.new_config {
            let change = ConfigChange {
                old_dispatch: &before.dispatch,
                new_dispatch: &after.dispatch,
                old_sensors: &before.sensors,
                new_sensors: &after.sensors,
            };
            assert(change@ == change_of(before@, after@));
            apply_restore(&void_changed(s, &change), engine)
        } else {
            apply_restore(s, engine)
        },
        None => {
            let none: Vec<RestoreStep<String>> = Vec::new();
            assert(restore::step_models(none@) =~= Seq::<RestoreStep<Seq<char>>>::empty());
            none
        },
    };
    let (activity, poll) = activity_rules(rules);
    let activity_poll: Nanos = match poll {
        Some(p) => p,
        None => DEFAULT_ACTIVITY_POLL,
    };
    GenerationPlan {
        generation: spawn.generation,
        pending: spawn.pending,
        rollback: spawn.rollback,
        restore,
        poll_coordination: should_spawn_coordination_poller(displays, coordinated),
        activity_rules: activity,
        activity_poll,
        audio_rules: audio_rules(rules),
    }
}

// ── laws ─────────────────────────────────────────────────────────────────

/// A generation starts from nothing without a snapshot; one of the old config
/// takes over all of it, and one of a new config as much where that changes
/// nothing of what is commanded and sensed.
pub proof fn law_generation_takes_over_what_still_holds(
    cfg: RulesEngineConfig,
    s: StateSnapshot,
    new_config: bool,
    before: GenerationModel,
    after: GenerationModel,
)
    ensures
        carried_over(cfg, None, new_config, change_of(before, after)).len() == 0,
        carried_over(cfg, Some(s), false, change_of(before, after)) == restore::restore_steps(
            cfg,
            s,
        ),
        before.dispatch == after.dispatch && before.sensors == after.sensors ==> carried_over(
            cfg,
            Some(s),
            true,
            change_of(before, after),
        ) == restore::restore_steps(cfg, s),
{
    if before.dispatch == after.dispatch && before.sensors == after.sensors {
        restore::law_unchanged_config_takes_over_everything(cfg, s, change_of(before, after));
    }
}

/// A generation of a new config starts without the failures of a display that it
/// commands differently, and with those of one that it commands alike.
pub proof fn law_new_config_starts_without_old_evidence(
    cfg: RulesEngineConfig,
    s: StateSnapshot,
    before: GenerationModel,
    after: GenerationModel,
    i: int,
)
    requires
        0 <= i < s.displays@.len(),
        restore::runs(cfg, s.displays@[i].0@),
        before.dispatch.contains_key(s.displays@[i].0@),
        after.dispatch.contains_key(s.displays@[i].0@),
    ensures
        ({
            let (id, d) = s.displays@[i];
            let moved = before.dispatch[id@] != after.dispatch[id@];
            carried_over(cfg, Some(s), true, change_of(before, after)).contains(
                RestoreStep::SeedFailure {
                    display: id@,
                    wake_attempts: if moved { 0 } else { d.wake_attempts },
                    last_blank_failed: d.last_blank_failed && !moved,
                },
            )
        }),
{
    let c = change_of(before, after);
    let (id, d) = s.displays@[i];
    let v = (restore::voided_display(c))(s.displays@[i]).1;
    restore::law_display_is_restored_as_it_was(cfg, id@, v);
    let step = restore::display_steps(cfg, id@, v)[0];
    assert(restore::display_steps(cfg, id@, v).contains(step));
    restore::law_new_config_restores_the_voided_entries(cfg, s, c, i, step);
}

/// Activity is looked at as often as the most impatient rule asks, and every five
/// seconds where none does.
pub proof fn law_activity_is_polled_often_enough(rules: Seq<RuleConfig>, i: int)
    ensures
        0 <= i < rules.len() && assembly::inhibited_by(rules[i], "user-activity"@)
            ==> activity_interval(rules) <= rules[i].activity_poll_interval,
        (forall|j: int|
            0 <= j < rules.len() ==> !assembly::inhibited_by(#[trigger] rules[j], "user-activity"@))
            ==> activity_interval(rules) == 5_000_000_000,
        activity_interval(rules) == 5_000_000_000 || exists|j: int|
            0 <= j < rules.len() && assembly::inhibited_by(#[trigger] rules[j], "user-activity"@)
                && rules[j].activity_poll_interval == activity_interval(rules),
{
    assembly::law_least_poll(rules);
    if 0 <= i < rules.len() {
        assembly::law_activity_inhibits_where_a_rule_says_so(rules[i]);
    }
    match assembly::least_poll(rules) {
        Some(p) => {
            let j = choose|j: int|
                0 <= j < rules.len() && assembly::activity_of()(#[trigger] rules[j]) is Some
                    && rules[j].activity_poll_interval == p;
            assembly::law_activity_inhibits_where_a_rule_says_so(rules[j]);
        },
        None => {},
    }
}

/// A change goes from what the config before says to what the config after says, of
/// commands and of sensors each.
pub proof fn law_change_goes_from_before_to_after(before: GenerationModel, after: GenerationModel)
    ensures
        change_of(before, after).old_dispatch == before.dispatch,
        change_of(before, after).new_dispatch == after.dispatch,
        change_of(before, after).old_sensors == before.sensors,
        change_of(before, after).new_sensors == after.sensors,
{
}

} // verus!
