//! From a configuration to a generation.

use dormantd::assembly::{
    activity_rules, assemble_display, assemble_static, audio_rules, build_render_sinks,
    choose_mode, display_settings, engine_config, index_display_rules, is_built,
    retry_timing_differs, shared_displays, should_spawn_coordination_poller, AssemblySettings,
    DisplayRuntimeCfg, DisplaySettings, RetrySettings, SmTimings,
};
use dormantd::audio_policy::{
    InhibitorKind, INHIBITOR_AUDIO_PLAYBACK, INHIBITOR_CALL, INHIBITOR_USER_ACTIVITY,
};
use dormantd::config::{
    BlankMode, Choice, DisplayConfig, DisplayScope, LadderStage, RuleConfig, ScaleMode,
    ScreensaverConfig, SensorConfig, StageKind, TransitionMode,
};
use dormantd::generation::spawn_generation;
use dormantd::reload::{GenerationConfig, SpawnPlan};
use dormantd::restore::{apply_restore, void_changed, ConfigChange, RestoreStep, RestoredPhase};
use dormantd::snapshot::{DisplaySnapshot, SensorSnapshot, StateSnapshot};
use dormantd::tables::TextMap;

const MS: u128 = 1_000_000;
const SECOND: u128 = 1_000 * MS;

fn rule(id: &str, displays: &[&str], inhibitors: &[&str]) -> RuleConfig {
    RuleConfig {
        id: id.to_string(),
        zone: "z".to_string(),
        displays: displays.iter().map(|d| d.to_string()).collect(),
        grace_period: 30 * SECOND,
        min_blank_time: 0,
        min_wake_time: 0,
        inhibitors: inhibitors.iter().map(|i| i.to_string()).collect(),
        activity_idle_threshold: 60 * SECOND,
        activity_poll_interval: 5 * SECOND,
        wake_retries: 0,
        wake_retry_backoff: 10 * MS,
        wake_retry_interval: SECOND,
    }
}

fn display(name: &str) -> DisplayConfig {
    DisplayConfig {
        name: name.to_string(),
        scope: DisplayScope::Private,
        primary_blank_mode: BlankMode::PowerOff,
        degraded_mode: None,
        ladder: vec![],
        screensaver: None,
        output: Some("DP-1".to_string()),
    }
}

fn stage(kind: StageKind) -> LadderStage {
    LadderStage {
        kind,
        dwell: Some(30 * SECOND),
    }
}

fn saver() -> ScreensaverConfig {
    ScreensaverConfig {
        source: vec!["/tmp/img.png".to_string()],
        audio: false,
        scale_mode: Choice::Absent,
        transition: Choice::Absent,
        transition_duration: None,
        shift_px: 2,
        shift_interval: 120 * SECOND,
    }
}

/// A display that goes dark and then shows a screensaver.
fn saving(name: &str, screensaver: ScreensaverConfig) -> DisplayConfig {
    let mut d = display(name);
    d.ladder = vec![
        stage(StageKind::Controller(BlankMode::PowerOff)),
        LadderStage {
            kind: StageKind::RenderScreensaver,
            dwell: None,
        },
    ];
    d.screensaver = Some(screensaver);
    d
}

fn manual() -> DisplaySettings {
    DisplaySettings {
        retry: RetrySettings {
            wake_retries: 2,
            wake_retry_backoff: 500 * MS,
        },
        timings: SmTimings {
            grace_period: 0,
            min_blank_time: 0,
            min_wake_time: 0,
            startup_holdoff: 7 * SECOND,
            wake_retry_interval: 3 * SECOND,
        },
    }
}

#[test]
fn audio_rules_recognizes_exactly_the_declared_kind_literals() {
    let rules = vec![
        rule("playback", &[], &[INHIBITOR_AUDIO_PLAYBACK]),
        rule("call", &[], &[INHIBITOR_CALL]),
        rule(
            "both",
            &[],
            &[
                INHIBITOR_AUDIO_PLAYBACK,
                INHIBITOR_CALL,
                INHIBITOR_USER_ACTIVITY,
            ],
        ),
        rule("activity_only", &[], &[INHIBITOR_USER_ACTIVITY]),
        rule("typo", &[], &["audio_playback"]),
    ];
    let extracted = audio_rules(&rules);
    let find = |id: &str| extracted.iter().find(|r| r.rule == id);

    assert_eq!(
        find("playback").map(|r| r.kinds.clone()),
        Some(vec![InhibitorKind::AudioPlayback])
    );
    assert_eq!(
        find("call").map(|r| r.kinds.clone()),
        Some(vec![InhibitorKind::Call])
    );
    assert_eq!(
        find("both").map(|r| r.kinds.clone()),
        Some(vec![InhibitorKind::AudioPlayback, InhibitorKind::Call])
    );
    assert!(find("activity_only").is_none());
    assert!(find("typo").is_none());
    assert_eq!(extracted.len(), 3);
}

#[test]
fn inhibitor_literals_are_fixed() {
    assert_eq!(
        InhibitorKind::from_config("user-activity"),
        Some(InhibitorKind::UserActivity)
    );
    assert_eq!(
        InhibitorKind::from_config("audio-playback"),
        Some(InhibitorKind::AudioPlayback)
    );
    assert_eq!(InhibitorKind::from_config("call"), Some(InhibitorKind::Call));
    assert_eq!(InhibitorKind::from_config("manual-pause"), None);
    assert_eq!(InhibitorKind::from_config(""), None);
}

#[test]
fn activity_polls_at_the_smallest_interval() {
    let mut slow = rule("slow", &[], &["user-activity"]);
    slow.activity_poll_interval = 9 * SECOND;
    let mut fast = rule("fast", &[], &["call", "user-activity"]);
    fast.activity_poll_interval = 2 * SECOND;
    let mut other = rule("other", &[], &["call"]);
    other.activity_poll_interval = SECOND;
    let (rules, poll) = activity_rules(&vec![slow, other, fast]);
    let names: Vec<&str> = rules.iter().map(|r| r.rule.as_str()).collect();
    assert_eq!(names, ["slow", "fast"]);
    assert_eq!(rules[0].idle_threshold, 60 * SECOND);
    assert_eq!(poll, Some(2 * SECOND));

    let (none, poll) = activity_rules(&vec![rule("r", &[], &["call"])]);
    assert!(none.is_empty());
    assert_eq!(poll, None);
}

#[test]
fn the_first_rule_drives_a_display() {
    let first = rule("first", &["a", "b"], &[]);
    let mut second = rule("second", &["b", "c"], &[]);
    second.grace_period = 5 * SECOND;
    let third = rule("third", &["a"], &[]);
    assert!(retry_timing_differs(&first, &second));
    assert!(!retry_timing_differs(&first, &third));
    let rules = vec![first, second, third];
    let index = index_display_rules(&rules);
    assert_eq!(index.first.get("a"), Some(&0));
    assert_eq!(index.first.get("b"), Some(&0));
    assert_eq!(index.first.get("c"), Some(&1));
    assert_eq!(index.first.get("d"), None);
    assert_eq!(
        index.conflicts,
        vec![("b".to_string(), "second".to_string())]
    );

    let b = display_settings(&rules, &index, "b", SECOND, manual());
    assert_eq!(b.timings.grace_period, 30 * SECOND);
    assert_eq!(b.timings.startup_holdoff, SECOND);
    assert_eq!(b.retry.wake_retry_backoff, 10 * MS);
    let c = display_settings(&rules, &index, "c", SECOND, manual());
    assert_eq!(c.timings.grace_period, 5 * SECOND);
    let d = display_settings(&rules, &index, "d", SECOND, manual());
    assert_eq!(d, manual());
}

#[test]
fn every_timing_counts_as_a_difference() {
    let base = rule("r", &[], &[]);
    let mut r = rule("r", &[], &[]);
    r.min_blank_time = 1;
    assert!(retry_timing_differs(&base, &r));
    let mut r = rule("r", &[], &[]);
    r.min_wake_time = 1;
    assert!(retry_timing_differs(&base, &r));
    let mut r = rule("r", &[], &[]);
    r.wake_retries = 1;
    assert!(retry_timing_differs(&base, &r));
    let mut r = rule("r", &[], &[]);
    r.wake_retry_backoff = 1;
    assert!(retry_timing_differs(&base, &r));
    let mut r = rule("r", &[], &[]);
    r.wake_retry_interval = 1;
    assert!(retry_timing_differs(&base, &r));
    let mut r = rule("other", &["x"], &["call"]);
    r.zone = "elsewhere".to_string();
    assert!(!retry_timing_differs(&base, &r));
}

#[test]
fn a_degraded_mode_is_the_second_choice() {
    let both = vec![BlankMode::PowerOff, BlankMode::BrightnessZero];
    assert_eq!(
        choose_mode(BlankMode::PowerOff, Some(BlankMode::BrightnessZero), &both),
        Some(BlankMode::PowerOff)
    );
    let weak = vec![BlankMode::BrightnessZero];
    assert_eq!(
        choose_mode(BlankMode::PowerOff, Some(BlankMode::BrightnessZero), &weak),
        Some(BlankMode::BrightnessZero)
    );
    assert_eq!(choose_mode(BlankMode::PowerOff, None, &weak), None);
    assert_eq!(
        choose_mode(BlankMode::PowerOff, Some(BlankMode::ScreenOffAudioOn), &weak),
        None
    );
}

#[test]
fn chain_with_no_effective_mode_fails_assembly_as_mode_unsupported() {
    let mut panel = display("panel");
    panel.output = None;
    let assembled = assemble_static(
        &vec![panel],
        &vec![],
        &vec![],
        &vec![vec![BlankMode::ScreenOffAudioOn]],
        assembly_settings(),
    );
    let text = match assembled {
        Ok(_) => panic!("assembled"),
        Err(e) => e.detail(),
    };
    assert!(text.contains("E_MODE_UNSUPPORTED"), "got {text}");
    assert_eq!(
        text,
        "E_MODE_UNSUPPORTED: display 'panel' cannot blank: wanted PowerOff (degraded None), \
         effective modes [ScreenOffAudioOn]"
    );
}

#[test]
fn an_unsupported_mode_lists_everything() {
    let mut panel = display("tv");
    panel.primary_blank_mode = BlankMode::ScreenOffAudioOn;
    panel.degraded_mode = Some(BlankMode::ScreenOffAudioOn);
    let err = assemble_display(
        &panel,
        manual().timings,
        &vec![BlankMode::PowerOff, BlankMode::BrightnessZero],
    )
    .expect_err("no effective mode");
    assert_eq!(
        err.detail(),
        "E_MODE_UNSUPPORTED: display 'tv' cannot blank: wanted ScreenOffAudioOn (degraded \
         Some(ScreenOffAudioOn)), effective modes [PowerOff, BrightnessZero]"
    );
    let none = assemble_display(&panel, manual().timings, &vec![]).expect_err("nothing");
    assert!(none.detail().ends_with("effective modes []"));
}

#[test]
fn the_engine_gets_what_was_built() {
    let mut mon = display("mon");
    mon.ladder = vec![stage(StageKind::RenderBlack)];
    let built = assemble_display(&mon, manual().timings, &vec![BlankMode::PowerOff]).unwrap();
    assert_eq!(built.ladder, vec![stage(StageKind::RenderBlack)]);
    let rules = vec![rule("r", &["gone", "mon"], &[]), rule("s", &["gone"], &[])];
    let sensors = vec![
        SensorConfig {
            id: "desk".to_string(),
            kind: 1,
            hold_time: SECOND,
            stale_timeout: None,
        },
        SensorConfig {
            id: "door".to_string(),
            kind: 2,
            hold_time: 0,
            stale_timeout: Some(4 * SECOND),
        },
    ];
    let engine = engine_config(&rules, &sensors, vec![built], 90 * SECOND, 3 * SECOND);
    assert_eq!(engine.rules[0].displays, vec!["mon".to_string()]);
    assert_eq!(engine.rules[0].zone, "z");
    assert!(engine.rules[1].displays.is_empty());
    assert_eq!(engine.sensors[0].stale_timeout, 90 * SECOND);
    assert_eq!(engine.sensors[1].stale_timeout, 4 * SECOND);
    assert_eq!(engine.sensors[1].sensor, "door");
    assert_eq!(engine.doctor_wake_settle, 3 * SECOND);
    assert_eq!(engine.displays.len(), 1);
}

fn assembly_settings() -> AssemblySettings {
    AssemblySettings {
        startup_holdoff: 7 * SECOND,
        manual: manual(),
        default_stale: 90 * SECOND,
        doctor_wake_settle: 3 * SECOND,
    }
}

#[test]
fn every_configured_display_is_assembled() {
    let mut degraded = display("degraded");
    degraded.degraded_mode = Some(BlankMode::BrightnessZero);
    let displays = vec![display("ruled"), display("by-hand"), degraded];
    let rules = vec![rule("r", &["ruled", "gone"], &[])];
    let effective = vec![
        vec![BlankMode::PowerOff],
        vec![BlankMode::ScreenOffAudioOn, BlankMode::PowerOff],
        vec![BlankMode::BrightnessZero],
    ];
    let engine =
        assemble_static(&displays, &rules, &vec![], &effective, assembly_settings()).unwrap();
    let names: Vec<&str> = engine.displays.iter().map(|d| d.display.as_str()).collect();
    assert_eq!(names, ["ruled", "by-hand", "degraded"]);
    assert_eq!(engine.displays[0].blank_mode, BlankMode::PowerOff);
    assert_eq!(engine.displays[0].timings.grace_period, 30 * SECOND);
    assert_eq!(engine.displays[1].timings, manual().timings);
    assert_eq!(engine.displays[2].blank_mode, BlankMode::BrightnessZero);
    assert_eq!(engine.rules[0].displays, vec!["ruled".to_string()]);
    assert!(is_built(&engine.displays, "by-hand"));
    assert!(!is_built(&engine.displays, "gone"));
}

#[test]
fn one_display_that_cannot_blank_fails_the_assembly() {
    let displays = vec![display("good"), display("bad"), display("worse")];
    let effective = vec![vec![BlankMode::PowerOff], vec![], vec![]];
    let error = match assemble_static(
        &displays,
        &vec![],
        &vec![],
        &effective,
        assembly_settings(),
    ) {
        Ok(_) => panic!("assembled"),
        Err(e) => e,
    };
    assert_eq!(error.display, "bad");
    assert_eq!(error.wanted, BlankMode::PowerOff);
    assert!(error.effective.is_empty());
}

#[test]
fn shared_displays_need_coordination() {
    let private = display("a");
    let mut shared = display("b");
    shared.scope = DisplayScope::Shared;
    let both = vec![private, shared];
    assert_eq!(shared_displays(&both), vec!["b".to_string()]);
    assert!(should_spawn_coordination_poller(&both, true));
    assert!(!should_spawn_coordination_poller(&both, false));
    let alone = vec![display("a")];
    assert!(!should_spawn_coordination_poller(&alone, true));
}

#[test]
fn build_render_sinks_returns_sink_and_channel_for_render_eligible_display() {
    let mut mon = display("mon");
    mon.ladder = vec![stage(StageKind::RenderBlack)];
    let plain = display("plain");
    let built = build_render_sinks(&vec![mon, plain], 20 * SECOND);
    assert_eq!(built.sinks.len(), 1);
    assert_eq!(built.sinks[0].display, "mon");
    assert_eq!(built.sinks[0].output, "DP-1");
    assert!(built.missing_output.is_empty());
}

#[test]
fn build_render_sinks_withholds_shift_for_black_only_ladder() {
    let mut ss = saver();
    ss.shift_px = 3;
    ss.shift_interval = 45 * SECOND;
    let mut mon = saving("mon", ss);
    mon.ladder[1].kind = StageKind::RenderBlack;
    let built = build_render_sinks(&vec![mon], 20 * SECOND);
    assert_eq!(built.sinks.len(), 1);
    assert_eq!(built.sinks[0].screensaver, None);
    assert_eq!(built.sinks[0].shift, None);
}

#[test]
fn build_render_sinks_shift_is_none_when_no_screensaver_table() {
    let mut mon = display("mon");
    mon.ladder = vec![LadderStage {
        kind: StageKind::RenderBlack,
        dwell: None,
    }];
    let built = build_render_sinks(&vec![mon], 20 * SECOND);
    assert_eq!(built.sinks.len(), 1);
    assert_eq!(built.sinks[0].shift, None);

    let mut reaching = display("mon");
    reaching.ladder = vec![stage(StageKind::RenderScreensaver)];
    let built = build_render_sinks(&vec![reaching], 20 * SECOND);
    assert_eq!(built.sinks[0].shift, None);
    assert_eq!(built.sinks[0].screensaver, None);
}

#[test]
fn build_render_sinks_passes_scale_mode_stretch_through() {
    let mut ss = saver();
    ss.scale_mode = Choice::Known(ScaleMode::Stretch);
    let built = build_render_sinks(&vec![saving("mon", ss)], 20 * SECOND);
    assert!(!built.sinks.is_empty());
    let seen = built.sinks[0].screensaver.as_ref().expect("settings");
    assert_eq!(seen.scale_mode, ScaleMode::Stretch);
    let shift = built.sinks[0].shift.expect("shift");
    assert_eq!(shift.shift_px, 2);
    assert_eq!(shift.shift_interval, 120 * SECOND);
}

#[test]
fn build_render_sinks_defaults_scale_mode_to_fill_when_absent() {
    let mon = saving("mon", saver());
    assert_eq!(
        mon.screensaver.as_ref().map(|ss| ss.scale_mode),
        Some(Choice::Absent)
    );
    let built = build_render_sinks(&vec![mon], 20 * SECOND);
    assert!(!built.sinks.is_empty());
    let seen = built.sinks[0].screensaver.as_ref().expect("settings");
    assert_eq!(seen.scale_mode, ScaleMode::Fill);
    assert_eq!(seen.transition_duration, SECOND);
    assert!(!seen.audio);
    assert_eq!(seen.source, vec!["/tmp/img.png".to_string()]);
    assert_eq!(seen.image_duration, 20 * SECOND);
}

#[test]
fn build_render_sinks_passes_transition_none_through() {
    let mut ss = saver();
    ss.transition = Choice::Known(TransitionMode::Cut);
    ss.transition_duration = Some(250 * MS);
    let built = build_render_sinks(&vec![saving("mon", ss)], 20 * SECOND);
    assert!(!built.sinks.is_empty());
    let seen = built.sinks[0].screensaver.as_ref().expect("settings");
    assert_eq!(seen.transition, TransitionMode::Cut);
    assert_eq!(seen.transition_duration, 250 * MS);
}

#[test]
fn build_render_sinks_defaults_transition_to_crossfade_when_absent() {
    let mon = saving("mon", saver());
    assert_eq!(
        mon.screensaver.as_ref().map(|ss| ss.transition),
        Some(Choice::Absent)
    );
    let built = build_render_sinks(&vec![mon], 20 * SECOND);
    assert!(!built.sinks.is_empty());
    let seen = built.sinks[0].screensaver.as_ref().expect("settings");
    assert_eq!(seen.transition, TransitionMode::Crossfade);
}

#[test]
fn choices_that_name_nothing_are_taken_for_the_defaults() {
    let mut ss = saver();
    ss.scale_mode = Choice::Unknown;
    ss.transition = Choice::Unknown;
    let built = build_render_sinks(&vec![saving("mon", ss)], 20 * SECOND);
    assert_eq!(built.sinks.len(), 1);
    let seen = built.sinks[0].screensaver.as_ref().expect("settings");
    assert_eq!(seen.transition, TransitionMode::Crossfade);
    assert_eq!(seen.scale_mode, ScaleMode::Fill);
}

#[test]
fn a_drawing_display_without_an_output_is_named() {
    let mut mon = display("mon");
    mon.ladder = vec![
        stage(StageKind::Controller(BlankMode::PowerOff)),
        stage(StageKind::RenderBlack),
    ];
    mon.output = None;
    let mut dull = display("dull");
    dull.output = None;
    let built = build_render_sinks(&vec![mon, dull], 20 * SECOND);
    assert!(built.sinks.is_empty());
    assert_eq!(built.missing_output, vec!["mon".to_string()]);
}

// ── restoring ────────────────────────────────────────────────────────────

fn manual_engine(display: &str) -> dormantd::assembly::RulesEngineConfig {
    let built = DisplayRuntimeCfg {
        display: display.to_string(),
        blank_mode: BlankMode::PowerOff,
        ladder: vec![],
        timings: manual().timings,
    };
    engine_config(&vec![], &vec![], vec![built], SECOND, 3 * SECOND)
}

fn seen(phase: &str, wake_attempts: u64, last_blank_failed: bool) -> DisplaySnapshot {
    DisplaySnapshot {
        phase: phase.to_string(),
        cmd_gen: 3,
        controllers: Vec::new(),
        wake_attempts,
        last_blank_failed,
    }
}

fn snapshot(displays: Vec<(&str, DisplaySnapshot)>) -> StateSnapshot {
    StateSnapshot {
        displays: displays
            .into_iter()
            .map(|(id, d)| (id.to_string(), d))
            .collect(),
        sensors: Vec::new(),
    }
}

fn seed(display: &str, wake_attempts: u64, last_blank_failed: bool) -> RestoreStep<String> {
    RestoreStep::SeedFailure {
        display: display.to_string(),
        wake_attempts,
        last_blank_failed,
    }
}

#[test]
fn restore_seeds_failure_state_independent_of_phase() {
    let engine = manual_engine("mon");
    let steps = apply_restore(&snapshot(vec![("mon", seen("active", 5, true))]), &engine);
    assert_eq!(steps, vec![seed("mon", 5, true)]);
}

#[test]
fn restore_skips_removed_display_silently() {
    let engine = manual_engine("mon");
    let steps = apply_restore(
        &snapshot(vec![
            ("mon", seen("active", 5, true)),
            ("gone", seen("blanked", 9, true)),
        ]),
        &engine,
    );
    assert_eq!(steps, vec![seed("mon", 5, true)], "and nothing of what is gone");
}

#[test]
fn restore_seeds_retained_display_alongside_removed() {
    let engine = manual_engine("mon");
    let steps = apply_restore(
        &snapshot(vec![
            ("mon", seen("active", 5, true)),
            ("gone", seen("blanked", 9, true)),
        ]),
        &engine,
    );
    assert_eq!(steps, vec![seed("mon", 5, true)]);
    let steps = apply_restore(
        &snapshot(vec![
            ("gone", seen("blanked", 9, true)),
            ("mon", seen("active", 5, true)),
        ]),
        &engine,
    );
    assert_eq!(steps, vec![seed("mon", 5, true)]);
}

#[test]
fn a_manual_display_keeps_its_phase_and_a_ruled_one_starts_anew() {
    let engine = manual_engine("mon");
    let steps = apply_restore(&snapshot(vec![("mon", seen("blanked", 0, false))]), &engine);
    assert_eq!(
        steps,
        vec![
            seed("mon", 0, false),
            RestoreStep::InstallMachine {
                display: "mon".to_string(),
                phase: RestoredPhase::Blanked,
                cmd_gen: 3
            }
        ]
    );
    let ruled = engine_config(
        &vec![rule("r", &["mon"], &[])],
        &vec![],
        manual_engine("mon").displays,
        SECOND,
        SECOND,
    );
    let steps = apply_restore(&snapshot(vec![("mon", seen("waking", 1, false))]), &ruled);
    assert_eq!(
        steps,
        vec![
            seed("mon", 1, false),
            RestoreStep::ReplayEffects {
                display: "mon".to_string(),
                phase: RestoredPhase::Waking,
                cmd_gen: 3
            }
        ]
    );
    let steps = apply_restore(&snapshot(vec![("mon", seen("blanking", 1, true))]), &engine);
    assert_eq!(steps, vec![seed("mon", 1, true)]);
}

#[test]
fn sensors_that_reported_are_carried_over() {
    let sensors = vec![SensorConfig {
        id: "desk".to_string(),
        kind: 1,
        hold_time: SECOND,
        stale_timeout: None,
    }];
    let engine = engine_config(&vec![], &sensors, vec![], SECOND, SECOND);
    let sense = |id: &str, reported: bool| SensorSnapshot {
        id: id.to_string(),
        reported,
    };
    let seen = StateSnapshot {
        displays: vec![],
        sensors: vec![sense("desk", true), sense("gone", true), sense("desk", false)],
    };
    assert_eq!(
        apply_restore(&seen, &engine),
        vec![RestoreStep::SeedSensor {
            sensor: "desk".to_string()
        }]
    );
}

#[test]
fn a_generation_is_spawned_with_its_plan() {
    let mut tv = display("tv");
    tv.scope = DisplayScope::Shared;
    let rules = vec![rule("r", &["tv"], &["call"])];
    let engine = manual_engine("tv");
    let plan = SpawnPlan {
        generation: 4,
        pending: Some("why".to_string()),
        rollback: None,
        new_config: false,
    };
    let spawned = spawn_generation(
        plan,
        &vec![tv],
        &rules,
        &engine,
        true,
        &Some(snapshot(vec![("tv", seen("blanked", 2, false))])),
        &generation(&[("tv", "x")], &[]),
        &generation(&[("tv", "x")], &[]),
    );
    assert_eq!(spawned.generation, 4);
    assert_eq!(spawned.pending.as_deref(), Some("why"));
    assert_eq!(spawned.rollback, None);
    assert_eq!(spawned.restore.len(), 2);
    assert!(spawned.poll_coordination);
    assert!(spawned.activity_rules.is_empty());
    assert_eq!(spawned.activity_poll, 5 * SECOND);
    assert_eq!(spawned.audio_rules.len(), 1);

    let fresh = SpawnPlan {
        generation: 0,
        pending: None,
        rollback: None,
        new_config: true,
    };
    let none = generation(&[], &[]);
    let spawned = spawn_generation(
        fresh,
        &vec![],
        &vec![],
        &engine,
        true,
        &None,
        &none,
        &none,
    );
    assert!(spawned.restore.is_empty());
    assert!(!spawned.poll_coordination);
}

fn identities(entries: &[(&str, &str)]) -> TextMap<String> {
    let mut map = TextMap::new();
    for (id, identity) in entries {
        map.insert(id.to_string(), identity.to_string());
    }
    map
}

fn generation(displays: &[(&str, &str)], sensors: &[(&str, &str)]) -> GenerationConfig {
    GenerationConfig {
        executors: vec![],
        dispatch: identities(displays),
        sensors: identities(sensors),
        barrier_ack_timeout: SECOND,
        stability_window: SECOND,
        reload_debounce: 0,
        lkg_enabled: false,
    }
}

#[test]
fn a_change_of_config_voids_the_evidence_against_what_changed() {
    let old = generation(
        &[("same", "x"), ("moved", "x"), ("gone", "x")],
        &[("desk", "mqtt a"), ("door", "mqtt b")],
    );
    let new = generation(
        &[("same", "x"), ("moved", "y"), ("added", "x")],
        &[("desk", "mqtt a"), ("door", "mqtt c")],
    );
    let sense = |id: &str| SensorSnapshot {
        id: id.to_string(),
        reported: true,
    };
    let mut before = snapshot(vec![
        ("same", seen("blanked", 2, true)),
        ("moved", seen("blanked", 2, true)),
        ("gone", seen("active", 2, true)),
    ]);
    before.sensors = vec![sense("desk"), sense("door")];
    let change = ConfigChange {
        old_dispatch: &old.dispatch,
        new_dispatch: &new.dispatch,
        old_sensors: &old.sensors,
        new_sensors: &new.sensors,
    };
    let after = void_changed(&before, &change);
    assert_eq!(after.displays[0].0, "same");
    assert_eq!(after.displays[0].1.wake_attempts, 2);
    assert!(after.displays[0].1.last_blank_failed);
    assert_eq!(after.displays[1].0, "moved");
    assert_eq!(after.displays[1].1.phase, "blanked");
    assert_eq!(after.displays[1].1.wake_attempts, 0);
    assert!(!after.displays[1].1.last_blank_failed);
    assert_eq!(after.displays.len(), 3);
    assert!(after.sensors[0].reported);
    assert!(!after.sensors[1].reported);
    assert_eq!(after.sensors[1].id, "door");
}

#[test]
fn only_a_generation_of_the_old_config_takes_over_everything() {
    let old = generation(&[("mon", "x")], &[]);
    let new = generation(&[("mon", "y")], &[]);
    let engine = manual_engine("mon");
    let spawn = |new_config: bool| {
        let plan = SpawnPlan {
            generation: 4,
            pending: None,
            rollback: None,
            new_config,
        };
        let reported = Some(snapshot(vec![("mon", seen("active", 2, true))]));
        spawn_generation(
            plan,
            &vec![],
            &vec![],
            &engine,
            false,
            &reported,
            &old,
            &new,
        )
        .restore
    };
    assert_eq!(spawn(true), vec![seed("mon", 0, false)]);
    assert_eq!(spawn(false), vec![seed("mon", 2, true)]);
}
