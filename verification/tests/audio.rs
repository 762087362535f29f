//! The audio inhibitor: reading a dump, and when its edges are published.

use dormantd::audio_policy::{AudioPolicy, AudioTransition, InhibitorKind, ProbeOutcome};
use dormantd::audio_source::{
    classify, classify_nodes, output_too_large, probe_command, publish, publish_transitions,
    run_tick, AudioConfig, AudioLoop, AudioRule, ClassifyError, FailureKind, KindStates, LastSent,
    TickBody, TickOutcome, MAX_INPUT_LEN, REAP_CAP,
};

const MS: u128 = 1_000_000;
const SECOND: u128 = 1_000 * MS;
const MIN_ACTIVE: u128 = 10 * SECOND;
const BREAKER_COOLDOWN: u128 = 60 * SECOND;

#[derive(Clone, Copy)]
struct Step<'a> {
    advance: u128,
    outcome: ProbeOutcome,
    expected: &'a [AudioTransition],
    breaker_open: bool,
    cooldown: Option<u128>,
    reload: bool,
}

#[test]
fn timing_policy_cases_are_deterministic() {
    let deassert_both = [
        AudioTransition::Deassert(InhibitorKind::AudioPlayback),
        AudioTransition::Deassert(InhibitorKind::Call),
    ];
    let assert_playback = [
        AudioTransition::Assert(InhibitorKind::AudioPlayback),
        AudioTransition::Deassert(InhibitorKind::Call),
    ];
    let breaker_open = [
        AudioTransition::Deassert(InhibitorKind::AudioPlayback),
        AudioTransition::Deassert(InhibitorKind::Call),
        AudioTransition::OpenBreaker,
    ];
    let breaker_closed = [
        AudioTransition::CloseBreaker,
        AudioTransition::Deassert(InhibitorKind::AudioPlayback),
        AudioTransition::Deassert(InhibitorKind::Call),
    ];
    let no_change = [AudioTransition::NoChange];

    let cases = [
        (
            "startup grace asserts an existing stream immediately",
            vec![Step {
                advance: 0,
                outcome: ProbeOutcome::classified(true, false),
                expected: &assert_playback,
                breaker_open: false,
                cooldown: None,
                reload: false,
            }],
        ),
        (
            "min active delays a stream that begins after startup",
            vec![
                Step {
                    advance: 0,
                    outcome: ProbeOutcome::classified(false, false),
                    expected: &deassert_both,
                    breaker_open: false,
                    cooldown: None,
                    reload: false,
                },
                Step {
                    advance: 1 * SECOND,
                    outcome: ProbeOutcome::classified(true, false),
                    expected: &deassert_both,
                    breaker_open: false,
                    cooldown: None,
                    reload: false,
                },
                Step {
                    advance: MIN_ACTIVE - MS,
                    outcome: ProbeOutcome::classified(true, false),
                    expected: &deassert_both,
                    breaker_open: false,
                    cooldown: None,
                    reload: false,
                },
                Step {
                    advance: 1 * MS,
                    outcome: ProbeOutcome::classified(true, false),
                    expected: &assert_playback,
                    breaker_open: false,
                    cooldown: None,
                    reload: false,
                },
            ],
        ),
        (
            "deassertion is immediate after an asserted stream stops",
            vec![
                Step {
                    advance: 0,
                    outcome: ProbeOutcome::classified(true, false),
                    expected: &assert_playback,
                    breaker_open: false,
                    cooldown: None,
                    reload: false,
                },
                Step {
                    advance: 1 * SECOND,
                    outcome: ProbeOutcome::classified(false, false),
                    expected: &deassert_both,
                    breaker_open: false,
                    cooldown: None,
                    reload: false,
                },
            ],
        ),
        (
            "two failures deassert without opening the breaker",
            vec![
                Step {
                    advance: 0,
                    outcome: ProbeOutcome::classified(true, false),
                    expected: &assert_playback,
                    breaker_open: false,
                    cooldown: None,
                    reload: false,
                },
                Step {
                    advance: 1 * SECOND,
                    outcome: ProbeOutcome::Failure,
                    expected: &no_change,
                    breaker_open: false,
                    cooldown: None,
                    reload: false,
                },
                Step {
                    advance: 1 * SECOND,
                    outcome: ProbeOutcome::Failure,
                    expected: &deassert_both,
                    breaker_open: false,
                    cooldown: None,
                    reload: false,
                },
                Step {
                    advance: 1 * SECOND,
                    outcome: ProbeOutcome::classified(true, false),
                    expected: &deassert_both,
                    breaker_open: false,
                    cooldown: None,
                    reload: false,
                },
                Step {
                    advance: MIN_ACTIVE,
                    outcome: ProbeOutcome::classified(true, false),
                    expected: &assert_playback,
                    breaker_open: false,
                    cooldown: None,
                    reload: false,
                },
            ],
        ),
        (
            "reap cap opens a breaker with a cooldown",
            vec![
                Step {
                    advance: 0,
                    outcome: ProbeOutcome::classified(true, false),
                    expected: &assert_playback,
                    breaker_open: false,
                    cooldown: None,
                    reload: false,
                },
                Step {
                    advance: 1 * SECOND,
                    outcome: ProbeOutcome::ReapCapReached,
                    expected: &breaker_open,
                    breaker_open: true,
                    cooldown: Some(BREAKER_COOLDOWN),
                    reload: false,
                },
                Step {
                    advance: BREAKER_COOLDOWN,
                    outcome: ProbeOutcome::classified(false, false),
                    expected: &breaker_closed,
                    breaker_open: false,
                    cooldown: None,
                    reload: false,
                },
            ],
        ),
        (
            "playback and call debounce independently",
            vec![
                Step {
                    advance: 0,
                    outcome: ProbeOutcome::classified(false, false),
                    expected: &deassert_both,
                    breaker_open: false,
                    cooldown: None,
                    reload: false,
                },
                Step {
                    advance: 1 * SECOND,
                    outcome: ProbeOutcome::classified(true, false),
                    expected: &deassert_both,
                    breaker_open: false,
                    cooldown: None,
                    reload: false,
                },
                Step {
                    advance: 1 * SECOND,
                    outcome: ProbeOutcome::classified(true, true),
                    expected: &deassert_both,
                    breaker_open: false,
                    cooldown: None,
                    reload: false,
                },
                Step {
                    advance: 9 * SECOND,
                    outcome: ProbeOutcome::classified(true, true),
                    expected: &assert_playback,
                    breaker_open: false,
                    cooldown: None,
                    reload: false,
                },
                Step {
                    advance: 1 * SECOND,
                    outcome: ProbeOutcome::classified(true, true),
                    expected: &[
                        AudioTransition::Assert(InhibitorKind::AudioPlayback),
                        AudioTransition::Assert(InhibitorKind::Call),
                    ],
                    breaker_open: false,
                    cooldown: None,
                    reload: false,
                },
            ],
        ),
        (
            "reload starts a fresh policy with fresh startup grace",
            vec![
                Step {
                    advance: 0,
                    outcome: ProbeOutcome::classified(false, false),
                    expected: &deassert_both,
                    breaker_open: false,
                    cooldown: None,
                    reload: false,
                },
                Step {
                    advance: 1 * SECOND,
                    outcome: ProbeOutcome::classified(true, false),
                    expected: &deassert_both,
                    breaker_open: false,
                    cooldown: None,
                    reload: false,
                },
                Step {
                    advance: 0,
                    outcome: ProbeOutcome::classified(true, false),
                    expected: &assert_playback,
                    breaker_open: false,
                    cooldown: None,
                    reload: true,
                },
            ],
        ),
    ];

    for (name, steps) in cases {
        let base = 1_000 * SECOND;
        let mut now = base;
        let mut policy = AudioPolicy::new(MIN_ACTIVE, BREAKER_COOLDOWN);

        for step in steps {
            if step.reload {
                policy = AudioPolicy::new(MIN_ACTIVE, BREAKER_COOLDOWN);
            }
            now += step.advance;
            assert_eq!(policy.step(now, step.outcome), step.expected, "{name}");
            assert_eq!(policy.breaker_is_open(), step.breaker_open, "{name}");
            assert_eq!(policy.cooldown_remaining(now), step.cooldown, "{name}");
        }
    }
}

fn default_cfg() -> AudioConfig {
    AudioConfig {
        pw_dump_command: "pw-dump".to_string(),
        poll_interval: 5 * SECOND,
        min_active: 10 * SECOND,
        call_roles: vec!["Communication".to_string()],
        capture_is_call: false,
        playback_roles: None,
    }
}

/// A node of a dump; a missing role is left out.
fn node(class: &str, role: Option<&str>, state: &str) -> String {
    let role = match role {
        Some(r) => format!(", \"media.role\": \"{r}\""),
        None => String::new(),
    };
    format!(
        "{{\"id\": 1, \"type\": \"PipeWire:Interface:Node\", \"info\": {{\"state\": \"{state}\", \
         \"props\": {{\"media.class\": \"{class}\"{role}}}}}}}"
    )
}

fn dump(nodes: &[String]) -> String {
    format!("[{}]", nodes.join(", "))
}

fn states(json: &str, cfg: &AudioConfig) -> (bool, bool) {
    let s = classify(json, cfg).unwrap();
    (s.playback, s.call)
}

const OUTPUT: &str = "Stream/Output/Audio";
const INPUT: &str = "Stream/Input/Audio";

#[test]
fn movie_running_output_is_playback_not_call() {
    let json = dump(&[node(OUTPUT, Some("Movie"), "running")]);
    assert_eq!(states(&json, &default_cfg()), (true, false));
}

#[test]
fn call_fixture_under_default_config_is_playback_not_call() {
    let json = dump(&[
        node(OUTPUT, Some("Movie"), "running"),
        node(INPUT, Some("Music"), "running"),
    ]);
    assert_eq!(states(&json, &default_cfg()), (true, false));
}

#[test]
fn movie_paused_is_neither() {
    let json = dump(&[node(OUTPUT, Some("Movie"), "idle")]);
    assert_eq!(states(&json, &default_cfg()), (false, false));
    let json = dump(&[node(OUTPUT, Some("Movie"), "suspended")]);
    assert_eq!(states(&json, &default_cfg()), (false, false));
}

#[test]
fn idle_is_neither() {
    let json = dump(&[node("Audio/Sink", None, "running")]);
    assert_eq!(states(&json, &default_cfg()), (false, false));
    assert_eq!(states("[]", &default_cfg()), (false, false));
}

#[test]
fn mic_only_call_false_under_default_capture_is_call() {
    let json = dump(&[node(INPUT, None, "running")]);
    assert_eq!(states(&json, &default_cfg()), (false, false));
}

#[test]
fn mic_only_call_true_when_capture_is_call_enabled() {
    let cfg = AudioConfig {
        capture_is_call: true,
        ..default_cfg()
    };
    let json = dump(&[node(INPUT, None, "running")]);
    assert_eq!(states(&json, &cfg), (false, true));
}

#[test]
fn role_missing_running_output_is_playback() {
    let json = dump(&[node(OUTPUT, None, "running")]);
    assert_eq!(states(&json, &default_cfg()), (true, false));
}

#[test]
fn unknown_state_stream_node_is_treated_as_running() {
    let json = dump(&[node(OUTPUT, Some("Movie"), "wandering")]);
    assert_eq!(states(&json, &default_cfg()), (true, false));
}

#[test]
fn music_role_inhibits_playback_by_default() {
    let json = dump(&[node(OUTPUT, Some("Music"), "running")]);
    assert_eq!(states(&json, &default_cfg()), (true, false));
}

#[test]
fn playback_roles_narrowing_excludes_music() {
    let cfg = AudioConfig {
        playback_roles: Some(vec!["Movie".to_string()]),
        ..default_cfg()
    };
    let json = dump(&[node(OUTPUT, Some("Music"), "running")]);
    assert_eq!(states(&json, &cfg), (false, false));
    let json = dump(&[node(OUTPUT, Some("Movie"), "running")]);
    assert_eq!(states(&json, &cfg), (true, false));
}

#[test]
fn idle_dirty_orphan_node_is_tolerated_as_playback() {
    let json = dump(&[
        node("Audio/Sink", None, "idle"),
        node(OUTPUT, Some("Movie"), "running"),
    ]);
    assert_eq!(states(&json, &default_cfg()), (true, false));
}

#[test]
fn running_output_with_communication_role_is_call_not_playback() {
    let json = r#"[
        {
            "id": 1,
            "type": "PipeWire:Interface:Node",
            "info": {
                "state": "running",
                "props": {
                    "media.class": "Stream/Output/Audio",
                    "media.role": "Communication"
                }
            }
        }
    ]"#;
    let states = classify(json, &default_cfg()).unwrap();
    assert_eq!(
        states,
        KindStates {
            playback: false,
            call: true
        }
    );
}

#[test]
fn top_level_garbage_is_json_error() {
    let err = classify("not valid json {{{", &default_cfg()).unwrap_err();
    assert_eq!(err, ClassifyError::Json);
}

#[test]
fn oversized_input_is_too_large_error() {
    let huge = "a".repeat(MAX_INPUT_LEN + 1);
    let err = classify(&huge, &default_cfg()).unwrap_err();
    assert_eq!(err, ClassifyError::TooLarge);
    let full = "a".repeat(MAX_INPUT_LEN);
    assert_eq!(
        classify(&full, &default_cfg()).unwrap_err(),
        ClassifyError::Json
    );
    assert!(output_too_large(MAX_INPUT_LEN + 1));
    assert!(!output_too_large(MAX_INPUT_LEN));
}

#[test]
fn a_dump_that_is_no_list_is_a_json_error() {
    assert_eq!(
        classify("{}", &default_cfg()).unwrap_err(),
        ClassifyError::Json
    );
}

#[test]
fn nodes_of_other_kinds_are_passed_over() {
    let json = dump(&[
        "{\"type\": \"PipeWire:Interface:Link\", \"info\": {\"state\": \"running\"}}".to_string(),
        "{}".to_string(),
        "7".to_string(),
        "{\"type\": \"PipeWire:Interface:Node\"}".to_string(),
    ]);
    assert_eq!(states(&json, &default_cfg()), (false, false));
    let parsed: serde_json::Value =
        serde_json::from_str(&dump(&[node(OUTPUT, None, "running")])).unwrap();
    let nodes = parsed.as_array().unwrap();
    assert!(classify_nodes(nodes, &default_cfg()).playback);
}

#[test]
fn a_probe_ends_in_one_of_five_ways() {
    let end = run_tick(TickBody::NotSpawned);
    assert!(matches!(
        end.outcome,
        TickOutcome::Failure(FailureKind::SpawnFailed)
    ));
    assert!(!end.kill_child);
    let end = run_tick(TickBody::Overran);
    assert!(matches!(
        end.outcome,
        TickOutcome::Failure(FailureKind::TimedOut)
    ));
    assert!(end.kill_child);
    let end = run_tick(TickBody::Oversized);
    assert!(matches!(
        end.outcome,
        TickOutcome::Failure(FailureKind::TooLarge)
    ));
    assert!(end.kill_child);
}

#[test]
fn a_probe_command_is_split_at_blanks() {
    let c = probe_command("  pw-dump  -N\tx ").unwrap();
    assert_eq!(c.program, "pw-dump");
    assert_eq!(c.args, vec!["-N".to_string(), "x".to_string()]);
    assert!(probe_command(" \t ").is_none());
}

fn rule(id: &str, kinds: &[InhibitorKind]) -> AudioRule {
    AudioRule {
        rule: id.to_string(),
        kinds: kinds.to_vec(),
    }
}

#[test]
fn edges_go_to_the_rules_that_declare_them() {
    let rules = vec![
        rule("both", &[InhibitorKind::AudioPlayback, InhibitorKind::Call]),
        rule("call", &[InhibitorKind::Call]),
    ];
    let updates = publish_transitions(
        &rules,
        &vec![
            AudioTransition::Assert(InhibitorKind::Call),
            AudioTransition::NoChange,
            AudioTransition::Deassert(InhibitorKind::AudioPlayback),
        ],
    );
    let seen: Vec<(&str, InhibitorKind, bool)> = updates
        .iter()
        .map(|u| (u.rule.as_str(), u.kind, u.inhibited))
        .collect();
    assert_eq!(
        seen,
        [
            ("both", InhibitorKind::Call, true),
            ("call", InhibitorKind::Call, true),
            ("both", InhibitorKind::AudioPlayback, false),
        ]
    );
}

#[test]
fn an_update_is_sent_once() {
    let mut last = LastSent::new();
    let first = publish(&last, "r", InhibitorKind::Call, true).expect("news");
    assert_eq!(last.last("r", InhibitorKind::Call), None);
    last.record(first);
    assert_eq!(last.last("r", InhibitorKind::Call), Some(true));
    assert!(publish(&last, "r", InhibitorKind::Call, true).is_none());
    assert!(publish(&last, "r", InhibitorKind::Call, false).is_some());
    assert!(publish(&last, "r", InhibitorKind::AudioPlayback, true).is_some());
    assert!(publish(&last, "s", InhibitorKind::Call, true).is_some());
}

#[test]
fn the_poller_backs_off_at_the_reap_cap() {
    assert!(AudioLoop::at_reap_cap(REAP_CAP));
    assert!(!AudioLoop::at_reap_cap(REAP_CAP - 1));
    let mut poller = AudioLoop::new(10 * SECOND);
    let step = poller.on_reap_cap(0);
    assert_eq!(step.sleep, 60 * SECOND);
    assert!(step.transitions.contains(&AudioTransition::OpenBreaker));
    assert!(poller.policy.breaker_is_open());
}

#[test]
fn the_poller_reports_trouble_once() {
    let mut poller = AudioLoop::new(0);
    let cfg = default_cfg();
    let garbage = TickOutcome::Success("nonsense".to_string());
    assert!(poller.on_tick(0, &garbage, &cfg).log_parse_failed);
    assert!(!poller.on_tick(1, &garbage, &cfg).log_parse_failed);
    let failed = TickOutcome::Failure(FailureKind::SpawnFailed);
    assert!(poller.on_tick(2, &failed, &cfg).log_unreachable);
    assert!(!poller.on_tick(3, &failed, &cfg).log_unreachable);
    let fine = TickOutcome::Success(dump(&[node(OUTPUT, None, "running")]));
    let step = poller.on_tick(4, &fine, &cfg);
    assert_eq!(step.sleep, 5 * SECOND);
}
