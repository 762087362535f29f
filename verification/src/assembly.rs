//! From a configuration to the parts of a generation: which rule drives which
//! display, how each display blanks, who inhibits, and what is drawn.

use vstd::prelude::*;
use vstd::string::StringExecFns;

use crate::audio_policy;
use crate::audio_policy::{InhibitorKind, INHIBITOR_USER_ACTIVITY};
use crate::audio_source::AudioRule;
use crate::clock::Nanos;
use crate::config;
use crate::config::{
    BlankMode, Choice, DisplayConfig, DisplayScope, LadderStage, RuleConfig, ScaleMode,
    SensorConfig, StageKind, TransitionMode,
};
use crate::seqs;
use crate::tables::TextMap;
use crate::text;
use crate::text::{copy_texts, holds_text, same_text};

verus! {

/// The poll interval where no rule sets one: five seconds.
pub const DEFAULT_ACTIVITY_POLL: u128 = 5_000_000_000;

/// How long a transition takes where it is not set: one second.
pub const DEFAULT_TRANSITION_DURATION: u128 = 1_000_000_000;

// ── rules and displays ───────────────────────────────────────────────────

/// Whether a rule drives a display.
pub open spec fn drives(r: RuleConfig, d: Seq<char>) -> bool {
    text::texts(r.displays@).contains(d)
}

/// The first rule that drives a display.
pub open spec fn first_rule(rules: Seq<RuleConfig>, d: Seq<char>) -> Option<int>
    decreases rules.len(),
{
    if rules.len() == 0 {
        None
    } else {
        match first_rule(rules.drop_last(), d) {
            Some(i) => Some(i),
            None => if drives(rules.last(), d) {
                Some(rules.len() - 1)
            } else {
                None
            },
        }
    }
}

/// Whether some rule drives a display.
pub open spec fn is_ruled(rules: Seq<RuleConfig>, d: Seq<char>) -> bool {
    exists|i: int| 0 <= i < rules.len() && drives(#[trigger] rules[i], d)
}

/// The first rule that drives a display is a rule, drives it, and none before
/// it does.
pub proof fn law_first_rule_wins(rules: Seq<RuleConfig>, d: Seq<char>)
    ensures
        match first_rule(rules, d) {
            Some(i) => 0 <= i < rules.len() && drives(rules[i], d) && forall|j: int|
                0 <= j < i ==> !drives(#[trigger] rules[j], d),
            None => forall|j: int| 0 <= j < rules.len() ==> !drives(#[trigger] rules[j], d),
        },
        is_ruled(rules, d) <==> first_rule(rules, d) is Some,
    decreases rules.len(),
{
    if rules.len() > 0 {
        let front = rules.drop_last();
        law_first_rule_wins(front, d);
        match first_rule(front, d) {
            Some(i) => {
                assert(front[i] == rules[i]);
                assert forall|j: int| 0 <= j < i implies !drives(#[trigger] rules[j], d) by {
                    assert(front[j] == rules[j]);
                }
            },
            None => {
                assert forall|j: int| 0 <= j < rules.len() - 1 implies !drives(
                    #[trigger] rules[j],
                    d,
                ) by {
                    assert(front[j] == rules[j]);
                }
            },
        }
        match first_rule(rules, d) {
            Some(i) => {
                assert(drives(rules[i], d));
            },
            None => {},
        }
    }
}

/// Whether two rules set retries or timings differently.
pub open spec fn timing_differs(a: RuleConfig, b: RuleConfig) -> bool {
    a.grace_period != b.grace_period || a.min_blank_time != b.min_blank_time || a.min_wake_time
        != b.min_wake_time || a.wake_retries != b.wake_retries || a.wake_retry_backoff
        != b.wake_retry_backoff || a.wake_retry_interval != b.wake_retry_interval
}

/// Whether two rules set retries or timings differently.
pub fn retry_timing_differs(a: &RuleConfig, b: &RuleConfig) -> (res: bool)
    ensures
        res == timing_differs(*a, *b),
{
    a.grace_period != b.grace_period || a.min_blank_time != b.min_blank_time || a.min_wake_time
        != b.min_wake_time || a.wake_retries != b.wake_retries || a.wake_retry_backoff
        != b.wake_retry_backoff || a.wake_retry_interval != b.wake_retry_interval
}

/// The conflict that a rule's mention of a display is: an earlier rule drives
/// the display with other retries or timings.
pub open spec fn mention_conflict(rules: Seq<RuleConfig>, j: int) -> spec_fn(Seq<char>) -> Option<
    (Seq<char>, Seq<char>),
> {
    |d: Seq<char>|
        match first_rule(rules.take(j + 1), d) {
            Some(i) if timing_differs(rules[i], rules[j]) => Some((d, rules[j].id@)),
            _ => None,
        }
}

/// The conflicts among rules, in the order in which they are met.
pub open spec fn conflicts(rules: Seq<RuleConfig>, n: int) -> Seq<(Seq<char>, Seq<char>)>
    decreases n,
{
    if n <= 0 {
        Seq::empty()
    } else {
        conflicts(rules, n - 1) + text::texts(rules[n - 1].displays@).filter_map(
            mention_conflict(rules, n - 1),
        )
    }
}

/// The rule that drives each display, and the conflicts met.
pub struct RuleIndex {
    /// The index of the first rule that drives a display.
    pub first: TextMap<usize>,
    /// Displays, and the later rules that would drive them otherwise.
    pub conflicts: Vec<(String, String)>,
}

/// The pairs of a conflict list.
pub open spec fn conflict_models(v: Seq<(String, String)>) -> Seq<(Seq<char>, Seq<char>)> {
    v.map_values(|c: (String, String)| (c.0@, c.1@))
}

/// Whether an index names the first rule of every display among the first `n`
/// rules and the first `k` displays of the next.
spec fn indexes(
    rules: Seq<RuleConfig>,
    n: int,
    k: int,
    first: Map<Seq<char>, usize>,
) -> bool {
    forall|d: Seq<char>| #[trigger] indexes_one(rules, n, k, first, d)
}

spec fn indexes_one(
    rules: Seq<RuleConfig>,
    n: int,
    k: int,
    first: Map<Seq<char>, usize>,
    d: Seq<char>,
) -> bool {
    match first_rule(rules.take(n), d) {
        Some(i) => first.contains_key(d) && first[d] == i,
        None => if k > 0 && text::texts(rules[n].displays@).take(k).contains(d) {
            first.contains_key(d) && first[d] == n
        } else {
            !first.contains_key(d)
        },
    }
}

/// Map each display to the first rule that drives it, keeping note of later
/// rules that set other retries or timings.
pub fn index_display_rules(rules: &Vec<RuleConfig>) -> (res: RuleIndex)
    ensures
        forall|d: Seq<char>|
            match first_rule(rules@, d) {
                Some(i) => (#[trigger] res.first@.contains_key(d)) && res.first@[d] == i,
                None => !res.first@.contains_key(d),
            },
        conflict_models(res.conflicts@) == conflicts(rules@, rules@.len() as int),
{
    let mut first: TextMap<usize> = TextMap::new();
    let mut out: Vec<(String, String)> = Vec::new();
    let ghost all = rules@;
    let mut n: usize = 0;
    proof {
        assert(all.take(0) =~= Seq::<RuleConfig>::empty());
        assert(conflict_models(out@) =~= Seq::<(Seq<char>, Seq<char>)>::empty());
        assert forall|d: Seq<char>| #[trigger] indexes_one(all, 0, 0, first@, d) by {}
    }
    while n < rules.len()
        invariant
            n <= rules@.len(),
            all == rules@,
            indexes(all, n as int, 0, first@),
            conflict_models(out@) == conflicts(all, n as int),
        decreases rules@.len() - n,
    {
        let rule = &rules[n];
        let ghost listed = text::texts(rule.displays@);
        let ghost f = mention_conflict(all, n as int);
        let mut k: usize = 0;
        proof {
            assert(listed.take(0) =~= Seq::<Seq<char>>::empty());
            assert(conflicts(all, n as int) + Seq::<(Seq<char>, Seq<char>)>::empty() =~= conflicts(
                all,
                n as int,
            ));
        }
        while k < rule.displays.len()
            invariant
                n < rules@.len(),
                all == rules@,
                *rule == all[n as int],
                listed == text::texts(rule.displays@),
                f == mention_conflict(all, n as int),
                k <= rule.displays@.len(),
                indexes(all, n as int, k as int, first@),
                conflict_models(out@) == conflicts(all, n as int) + listed.take(
                    k as int,
                ).filter_map(f),
            decreases rule.displays@.len() - k,
        {
            let d = &rule.displays[k];
            let ghost out0 = out@;
            let ghost first0 = first@;
            proof {
                assert(listed[k as int] == d@);
                seqs::lemma_filter_map_step(listed, k as int, f);
                law_first_rule_wins(all.take(n as int), d@);
                assert(indexes_one(all, n as int, k as int, first@, d@));
                lemma_first_rule_grows(all, n as int, d@);
                assert(listed.contains(d@)) by {
                    assert(listed[k as int] == d@);
                }
            }
            match first.get(d.as_str()) {
                Some(i) => {
                    let i: usize = *i;
                    proof {
                        if first_rule(all.take(n as int), d@) is None {
                            assert(i == n);
                        }
                        assert(first_rule(all.take(n + 1), d@) == Some(i as int));
                    }
                    if retry_timing_differs(&rules[i], rule) {
                        out.push((d.clone(), rule.id.clone()));
                        assert(conflict_models(out@) =~= conflict_models(out0).push(
                            (d@, rule.id@),
                        ));
                        assert(conflict_models(out@) =~= conflicts(all, n as int) + listed.take(
                            k + 1,
                        ).filter_map(f));
                    }
                },
                None => {
                    proof {
                        assert(first_rule(all.take(n + 1), d@) == Some(n as int));
                        assert(!timing_differs(all[n as int], all[n as int]));
                    }
                    first.insert(d.clone(), n);
                },
            }
            proof {
                lemma_indexes_step(all, n as int, k as int, first0, first@, d@);
            }
            k = k + 1;
        }
        proof {
            seqs::lemma_take_all(listed);
            lemma_indexes_next(all, n as int, first@);
        }
        n = n + 1;
    }
    proof {
        seqs::lemma_take_all(all);
        assert forall|d: Seq<char>|
            match first_rule(all, d) {
                Some(i) => (#[trigger] first@.contains_key(d)) && first@[d] == i,
                None => !first@.contains_key(d),
            } by {
            assert(indexes_one(all, n as int, 0, first@, d));
        }
    }
    RuleIndex { first, conflicts: out }
}

proof fn lemma_first_rule_grows(rules: Seq<RuleConfig>, n: int, d: Seq<char>)
    requires
        0 <= n < rules.len(),
    ensures
        first_rule(rules.take(n + 1), d) == (match first_rule(rules.take(n), d) {
            Some(i) => Some(i),
            None => if drives(rules[n], d) {
                Some(n)
            } else {
                None
            },
        }),
{
    let longer = rules.take(n + 1);
    assert(longer.drop_last() =~= rules.take(n));
    assert(longer.last() == rules[n]);
}

proof fn lemma_indexes_step(
    rules: Seq<RuleConfig>,
    n: int,
    k: int,
    before: Map<Seq<char>, usize>,
    after: Map<Seq<char>, usize>,
    d: Seq<char>,
)
    requires
        0 <= n < rules.len(),
        n <= usize::MAX,
        0 <= k < text::texts(rules[n].displays@).len(),
        text::texts(rules[n].displays@)[k] == d,
        indexes(rules, n, k, before),
        after == (if before.contains_key(d) {
            before
        } else {
            before.insert(d, n as usize)
        }),
    ensures
        indexes(rules, n, k + 1, after),
{
    let listed = text::texts(rules[n].displays@);
    let shorter = listed.take(k);
    let longer = listed.take(k + 1);
    assert forall|e: Seq<char>| #[trigger] indexes_one(rules, n, k + 1, after, e) by {
        assert(indexes_one(rules, n, k, before, e));
        assert(listed.take(k + 1).contains(e) == (listed.take(k).contains(e) || e == d)) by {
            if listed.take(k).contains(e) {
                let j = choose|j: int| 0 <= j < k && shorter[j] == e;
                assert(longer[j] == e);
            }
            if listed.take(k + 1).contains(e) {
                let j = choose|j: int| 0 <= j < longer.len() && longer[j] == e;
                if j < k {
                    assert(shorter[j] == e);
                }
            }
            assert(longer[k] == d);
        }
    }
}

proof fn lemma_indexes_next(rules: Seq<RuleConfig>, n: int, first: Map<Seq<char>, usize>)
    requires
        0 <= n < rules.len(),
        indexes(rules, n, text::texts(rules[n].displays@).len() as int, first),
    ensures
        indexes(rules, n + 1, 0, first),
{
    let listed = text::texts(rules[n].displays@);
    assert(listed.take(listed.len() as int) =~= listed);
    assert forall|e: Seq<char>| #[trigger] indexes_one(rules, n + 1, 0, first, e) by {
        lemma_first_rule_grows(rules, n, e);
        assert(indexes_one(rules, n, listed.len() as int, first, e));
    }
}

// ── a display ────────────────────────────────────────────────────────────

/// How often and how fast a wake is tried again.
#[derive(Clone, Copy, PartialEq, Eq, Debug, Structural)]
pub struct RetrySettings {
    pub wake_retries: u32,
    pub wake_retry_backoff: Nanos,
}

/// The timings of a display's state machine.
#[derive(Clone, Copy, PartialEq, Eq, Debug, Structural)]
pub struct SmTimings {
    pub grace_period: Nanos,
    pub min_blank_time: Nanos,
    pub min_wake_time: Nanos,
    pub startup_holdoff: Nanos,
    pub wake_retry_interval: Nanos,
}

/// What a display is driven by.
#[derive(Clone, Copy, PartialEq, Eq, Debug, Structural)]
pub struct DisplaySettings {
    pub retry: RetrySettings,
    pub timings: SmTimings,
}

/// The settings of a display: those of the first rule that drives it, or, for a
/// display that is controlled by hand alone, the defaults.
pub open spec fn settings_of(
    rules: Seq<RuleConfig>,
    d: Seq<char>,
    startup_holdoff: Nanos,
    manual: DisplaySettings,
) -> DisplaySettings {
    match first_rule(rules, d) {
        Some(i) => DisplaySettings {
            retry: RetrySettings {
                wake_retries: rules[i].wake_retries,
                wake_retry_backoff: rules[i].wake_retry_backoff,
            },
            timings: SmTimings {
                grace_period: rules[i].grace_period,
                min_blank_time: rules[i].min_blank_time,
                min_wake_time: rules[i].min_wake_time,
                startup_holdoff,
                wake_retry_interval: rules[i].wake_retry_interval,
            },
        },
        None => manual,
    }
}

/// The settings that a display is built with. `index` is what
/// [`index_display_rules`] found.
pub fn display_settings(
    rules: &Vec<RuleConfig>,
    index: &RuleIndex,
    display: &str,
    startup_holdoff: Nanos,
    manual: DisplaySettings,
) -> (res: DisplaySettings)
    requires
        match first_rule(rules@, display@) {
            Some(i) => index.first@.contains_key(display@) && index.first@[display@] == i,
            None => !index.first@.contains_key(display@),
        },
    ensures
        res == settings_of(rules@, display@, startup_holdoff, manual),
{
    proof {
        law_first_rule_wins(rules@, display@);
    }
    match index.first.get(display) {
        Some(i) => {
            let rc = &rules[*i];
            DisplaySettings {
                retry: RetrySettings {
                    wake_retries: rc.wake_retries,
                    wake_retry_backoff: rc.wake_retry_backoff,
                },
                timings: SmTimings {
                    grace_period: rc.grace_period,
                    min_blank_time: rc.min_blank_time,
                    min_wake_time: rc.min_wake_time,
                    startup_holdoff,
                    wake_retry_interval: rc.wake_retry_interval,
                },
            }
        },
        None => manual,
    }
}

/// The mode a display blanks with: the one it asks for where a controller has
/// it, else the degraded one where a controller has that.
pub open spec fn chosen_mode(
    primary: BlankMode,
    degraded: Option<BlankMode>,
    effective: Seq<BlankMode>,
) -> Option<BlankMode> {
    if effective.contains(primary) {
        Some(primary)
    } else {
        match degraded {
            Some(d) if effective.contains(d) => Some(d),
            _ => None,
        }
    }
}

/// Whether a mode is among those that the controllers have.
pub fn holds_mode(modes: &Vec<BlankMode>, mode: BlankMode) -> (res: bool)
    ensures
        res == modes@.contains(mode),
{
    let mut i: usize = 0;
    while i < modes.len()
        invariant
            i <= modes@.len(),
            forall|j: int| 0 <= j < i ==> modes@[j] != mode,
        decreases modes@.len() - i,
    {
        if modes[i] == mode {
            return true;
        }
        i = i + 1;
    }
    false
}

/// The mode a display blanks with, if any.
pub fn choose_mode(
    primary: BlankMode,
    degraded: Option<BlankMode>,
    effective: &Vec<BlankMode>,
) -> (res: Option<BlankMode>)
    ensures
        res == chosen_mode(primary, degraded, effective@),
{
    if holds_mode(effective, primary) {
        return Some(primary);
    }
    match degraded {
        Some(d) => if holds_mode(effective, d) {
            Some(d)
        } else {
            None
        },
        None => None,
    }
}

/// No controller of a display has a mode that the display accepts.
#[derive(PartialEq, Eq, Debug)]
pub struct ModeUnsupported {
    pub display: String,
    pub wanted: BlankMode,
    pub degraded: Option<BlankMode>,
    pub effective: Vec<BlankMode>,
}

/// The names of some modes, with a comma and a space between them.
pub open spec fn mode_names(modes: Seq<BlankMode>) -> Seq<char>
    decreases modes.len(),
{
    if modes.len() == 0 {
        Seq::empty()
    } else if modes.len() == 1 {
        config::mode_name(modes[0])
    } else {
        mode_names(modes.drop_last()) + ", "@ + config::mode_name(modes.last())
    }
}

/// A mode that may be missing, as a text.
pub open spec fn optional_mode_name(mode: Option<BlankMode>) -> Seq<char> {
    match mode {
        None => "None"@,
        Some(m) => "Some("@ + config::mode_name(m) + ")"@,
    }
}

/// What is reported for a display without a usable mode.
pub open spec fn mode_unsupported_text(e: ModeUnsupported) -> Seq<char> {
    "E_MODE_UNSUPPORTED: display '"@ + e.display@ + "' cannot blank: wanted "@ + config::mode_name(
        e.wanted,
    ) + " (degraded "@ + optional_mode_name(e.degraded) + "), effective modes ["@ + mode_names(
        e.effective@,
    ) + "]"@
}

impl ModeUnsupported {
    /// What is reported.
    pub fn detail(&self) -> (out: String)
        ensures
            out@ == mode_unsupported_text(*self),
    {
        let mut out: String = String::from_str("E_MODE_UNSUPPORTED: display '");
        out.append(self.display.as_str());
        out.append("' cannot blank: wanted ");
        out.append(self.wanted.name());
        out.append(" (degraded ");
        match self.degraded {
            None => {
                out.append("None");
                assert(out@ =~= "E_MODE_UNSUPPORTED: display '"@ + self.display@
                    + "' cannot blank: wanted "@ + config::mode_name(self.wanted) + " (degraded "@
                    + optional_mode_name(self.degraded));
            },
            Some(m) => {
                out.append("Some(");
                out.append(m.name());
                out.append(")");
                assert(out@ =~= "E_MODE_UNSUPPORTED: display '"@ + self.display@
                    + "' cannot blank: wanted "@ + config::mode_name(self.wanted) + " (degraded "@
                    + optional_mode_name(self.degraded));
            },
        }
        out.append("), effective modes [");
        let ghost head = out@;
        let mut i: usize = 0;
        proof {
            assert(self.effective@.take(0) =~= Seq::<BlankMode>::empty());
            assert(head + mode_names(self.effective@.take(0)) =~= head);
        }
        while i < self.effective.len()
            invariant
                i <= self.effective@.len(),
                out@ == head + mode_names(self.effective@.take(i as int)),
            decreases self.effective@.len() - i,
        {
            let ghost before = self.effective@.take(i as int);
            let ghost after = self.effective@.take(i + 1);
            proof {
                assert(after.drop_last() =~= before);
                assert(after.last() == self.effective@[i as int]);
            }
            if i > 0 {
                out.append(", ");
            }
            out.append(self.effective[i].name());
            proof {
                if i == 0 {
                    assert(mode_names(before) =~= Seq::<char>::empty());
                }
                assert(out@ =~= head + mode_names(after));
            }
            i = i + 1;
        }
        proof {
            seqs::lemma_take_all(self.effective@);
        }
        out.append("]");
        assert(out@ =~= mode_unsupported_text(*self));
        out
    }
}

/// A display as the engine runs it.
#[derive(PartialEq, Eq, Debug)]
pub struct DisplayRuntimeCfg {
    pub display: String,
    pub blank_mode: BlankMode,
    pub ladder: Vec<LadderStage>,
    pub timings: SmTimings,
}

fn copy_ladder(ladder: &Vec<LadderStage>) -> (out: Vec<LadderStage>)
    ensures
        out@ == ladder@,
{
    let mut out: Vec<LadderStage> = Vec::new();
    let mut i: usize = 0;
    while i < ladder.len()
        invariant
            i <= ladder@.len(),
            out@ == ladder@.take(i as int),
        decreases ladder@.len() - i,
    {
        out.push(ladder[i]);
        proof {
            seqs::lemma_take_step(ladder@, i as int);
        }
        i = i + 1;
    }
    proof {
        seqs::lemma_take_all(ladder@);
    }
    out
}

fn copy_modes(modes: &Vec<BlankMode>) -> (out: Vec<BlankMode>)
    ensures
        out@ == modes@,
{
    let mut out: Vec<BlankMode> = Vec::new();
    let mut i: usize = 0;
    while i < modes.len()
        invariant
            i <= modes@.len(),
            out@ == modes@.take(i as int),
        decreases modes@.len() - i,
    {
        out.push(modes[i]);
        proof {
            seqs::lemma_take_step(modes@, i as int);
        }
        i = i + 1;
    }
    proof {
        seqs::lemma_take_all(modes@);
    }
    out
}

/// A display as the engine runs it, once its controllers have been probed and
/// `effective` is what they can do.
pub fn assemble_display(
    dc: &DisplayConfig,
    timings: SmTimings,
    effective: &Vec<BlankMode>,
) -> (res: Result<DisplayRuntimeCfg, ModeUnsupported>)
    ensures
        match chosen_mode(dc.primary_blank_mode, dc.degraded_mode, effective@) {
            Some(mode) => res matches Ok(d) && d.display@ == dc.name@ && d.blank_mode == mode
                && d.ladder@ == dc.ladder@ && d.timings == timings,
            None => res matches Err(e) && e.display@ == dc.name@ && e.wanted
                == dc.primary_blank_mode && e.degraded == dc.degraded_mode && e.effective@
                == effective@,
        },
{
    match choose_mode(dc.primary_blank_mode, dc.degraded_mode, effective) {
        Some(blank_mode) => Ok(
            DisplayRuntimeCfg {
                display: dc.name.clone(),
                blank_mode,
                ladder: copy_ladder(&dc.ladder),
                timings,
            },
        ),
        None => Err(
            ModeUnsupported {
                display: dc.name.clone(),
                wanted: dc.primary_blank_mode,
                degraded: dc.degraded_mode,
                effective: copy_modes(effective),
            },
        ),
    }
}

/// Whether a display is run as its configuration, its settings and what its
/// controllers can do make it.
pub open spec fn display_runtime_of(
    r: DisplayRuntimeCfg,
    dc: DisplayConfig,
    timings: SmTimings,
    effective: Seq<BlankMode>,
) -> bool {
    &&& r.display@ == dc.name@
    &&& chosen_mode(dc.primary_blank_mode, dc.degraded_mode, effective) == Some(r.blank_mode)
    &&& r.ladder@ == dc.ladder@
    &&& r.timings == timings
}

/// Whether the controllers of a display have a mode that it accepts.
pub open spec fn can_blank(dc: DisplayConfig, effective: Seq<BlankMode>) -> bool {
    chosen_mode(dc.primary_blank_mode, dc.degraded_mode, effective) is Some
}

/// Whether the display at `i` is the first that cannot blank.
pub open spec fn first_unable(
    displays: Seq<DisplayConfig>,
    effective: Seq<Vec<BlankMode>>,
    i: int,
) -> bool {
    &&& 0 <= i < displays.len()
    &&& !can_blank(displays[i], effective[i]@)
    &&& forall|j: int| 0 <= j < i ==> can_blank(#[trigger] displays[j], effective[j]@)
}

/// Whether an error is about a display.
pub open spec fn unsupported_of(
    e: ModeUnsupported,
    dc: DisplayConfig,
    effective: Seq<BlankMode>,
) -> bool {
    &&& e.display@ == dc.name@
    &&& e.wanted == dc.primary_blank_mode
    &&& e.degraded == dc.degraded_mode
    &&& e.effective@ == effective
}

/// The names of some configured displays.
pub open spec fn display_names(displays: Seq<DisplayConfig>) -> Seq<Seq<char>> {
    displays.map_values(|d: DisplayConfig| d.name@)
}

/// Assemble every configured display, whether a rule drives it or not: one entry
/// each, in order. `effective` holds, at a display's place, what its controllers
/// were found to be able to do. The first display that cannot blank fails the
/// whole assembly.
pub fn assemble_displays(
    displays: &Vec<DisplayConfig>,
    rules: &Vec<RuleConfig>,
    startup_holdoff: Nanos,
    manual: DisplaySettings,
    effective: &Vec<Vec<BlankMode>>,
) -> (res: Result<Vec<DisplayRuntimeCfg>, ModeUnsupported>)
    requires
        effective@.len() == displays@.len(),
    ensures
        match res {
            Ok(out) => {
                &&& out@.len() == displays@.len()
                &&& forall|i: int|
                    0 <= i < displays@.len() ==> display_runtime_of(
                        #[trigger] out@[i],
                        displays@[i],
                        settings_of(rules@, displays@[i].name@, startup_holdoff, manual).timings,
                        effective@[i]@,
                    )
                &&& built_names(out@) == display_names(displays@)
            },
            Err(e) => exists|i: int| #[trigger]
                first_unable(displays@, effective@, i) && unsupported_of(
                    e,
                    displays@[i],
                    effective@[i]@,
                ),
        },
        res is Ok <==> forall|i: int|
            0 <= i < displays@.len() ==> can_blank(#[trigger] displays@[i], effective@[i]@),
{
    let index = index_display_rules(rules);
    let mut out: Vec<DisplayRuntimeCfg> = Vec::new();
    let mut i: usize = 0;
    while i < displays.len()
        invariant
            i <= displays@.len(),
            effective@.len() == displays@.len(),
            forall|d: Seq<char>|
                match first_rule(rules@, d) {
                    Some(i) => (#[trigger] index.first@.contains_key(d)) && index.first@[d] == i,
                    None => !index.first@.contains_key(d),
                },
            out@.len() == i,
            forall|j: int|
                0 <= j < i ==> display_runtime_of(
                    #[trigger] out@[j],
                    displays@[j],
                    settings_of(rules@, displays@[j].name@, startup_holdoff, manual).timings,
                    effective@[j]@,
                ),
            forall|j: int| 0 <= j < i ==> can_blank(#[trigger] displays@[j], effective@[j]@),
        decreases displays@.len() - i,
    {
        let settings = display_settings(
            rules,
            &index,
            displays[i].name.as_str(),
            startup_holdoff,
            manual,
        );
        match assemble_display(&displays[i], settings.timings, &effective[i]) {
            Ok(d) => {
                out.push(d);
            },
            Err(e) => {
                assert(first_unable(displays@, effective@, i as int));
                assert(!can_blank(displays@[i as int], effective@[i as int]@));
                return Err(e);
            },
        }
        i = i + 1;
    }
    assert(built_names(out@) =~= display_names(displays@));
    Ok(out)
}

// ── the engine's configuration ───────────────────────────────────────────

/// A rule as the engine runs it.
#[derive(PartialEq, Eq, Debug)]
pub struct RuleRuntimeCfg {
    pub rule: String,
    pub zone: String,
    pub displays: Vec<String>,
}

/// The model of a rule as the engine runs it.
#[verifier::ext_equal]
pub struct RuleRuntimeModel {
    pub rule: Seq<char>,
    pub zone: Seq<char>,
    pub displays: Seq<Seq<char>>,
}

impl View for RuleRuntimeCfg {
    type V = RuleRuntimeModel;

    open spec fn view(&self) -> RuleRuntimeModel {
        RuleRuntimeModel {
            rule: self.rule@,
            zone: self.zone@,
            displays: text::texts(self.displays@),
        }
    }
}

/// A sensor as the engine runs it.
#[derive(PartialEq, Eq, Debug)]
pub struct SensorRuntimeCfg {
    pub sensor: String,
    pub kind: u32,
    pub hold_time: Nanos,
    pub stale_timeout: Nanos,
}

/// The engine's configuration.
pub struct RulesEngineConfig {
    pub rules: Vec<RuleRuntimeCfg>,
    pub displays: Vec<DisplayRuntimeCfg>,
    pub sensors: Vec<SensorRuntimeCfg>,
    pub doctor_wake_settle: Nanos,
}

/// The names of the displays that were built.
pub open spec fn built_names(displays: Seq<DisplayRuntimeCfg>) -> Seq<Seq<char>> {
    displays.map_values(|d: DisplayRuntimeCfg| d.display@)
}

/// Whether a display is among some.
pub open spec fn among(names: Seq<Seq<char>>) -> spec_fn(Seq<char>) -> bool {
    |d: Seq<char>| names.contains(d)
}

/// A rule as the engine runs it: with those of its displays that were built.
pub open spec fn rule_runtime(built: Seq<Seq<char>>) -> spec_fn(RuleConfig) -> RuleRuntimeModel {
    |r: RuleConfig|
        RuleRuntimeModel {
            rule: r.id@,
            zone: r.zone@,
            displays: text::texts(r.displays@).filter(among(built)),
        }
}

/// How long a sensor may be silent.
pub open spec fn stale_after(s: SensorConfig, default_stale: Nanos) -> Nanos {
    match s.stale_timeout {
        Some(t) => t,
        None => default_stale,
    }
}

/// Whether a sensor is run as it is configured.
pub open spec fn sensor_runtime_of(
    r: SensorRuntimeCfg,
    s: SensorConfig,
    default_stale: Nanos,
) -> bool {
    r.sensor@ == s.id@ && r.kind == s.kind && r.hold_time == s.hold_time && r.stale_timeout
        == stale_after(s, default_stale)
}

/// Whether a display was built.
pub fn is_built(displays: &Vec<DisplayRuntimeCfg>, name: &str) -> (res: bool)
    ensures
        res == built_names(displays@).contains(name@),
{
    let ghost names = built_names(displays@);
    let mut i: usize = 0;
    while i < displays.len()
        invariant
            i <= displays@.len(),
            names == built_names(displays@),
            forall|j: int| 0 <= j < i ==> names[j] != name@,
        decreases displays@.len() - i,
    {
        assert(names[i as int] == displays@[i as int].display@);
        if same_text(displays[i].display.as_str(), name) {
            return true;
        }
        i = i + 1;
    }
    false
}

fn built_displays(names: &Vec<String>, displays: &Vec<DisplayRuntimeCfg>) -> (out: Vec<String>)
    ensures
        text::texts(out@) == text::texts(names@).filter(among(built_names(displays@))),
{
    let mut out: Vec<String> = Vec::new();
    let ghost listed = text::texts(names@);
    let ghost p = among(built_names(displays@));
    let mut i: usize = 0;
    proof {
        seqs::lemma_take_none(listed, p);
        assert(text::texts(out@) =~= Seq::<Seq<char>>::empty());
    }
    while i < names.len()
        invariant
            i <= names@.len(),
            listed == text::texts(names@),
            p == among(built_names(displays@)),
            text::texts(out@) == listed.take(i as int).filter(p),
        decreases names@.len() - i,
    {
        let ghost out0 = out@;
        proof {
            assert(listed[i as int] == names@[i as int]@);
            seqs::lemma_filter_step(listed, i as int, p);
        }
        if is_built(displays, names[i].as_str()) {
            out.push(names[i].clone());
            assert(text::texts(out@) =~= text::texts(out0).push(names@[i as int]@));
        }
        i = i + 1;
    }
    proof {
        seqs::lemma_take_all(listed);
    }
    out
}

/// The engine's configuration, once every display has been assembled.
pub fn engine_config(
    rules: &Vec<RuleConfig>,
    sensors: &Vec<SensorConfig>,
    displays: Vec<DisplayRuntimeCfg>,
    default_stale: Nanos,
    doctor_wake_settle: Nanos,
) -> (res: RulesEngineConfig)
    ensures
        res.rules@.map_values(|r: RuleRuntimeCfg| r@) == rules@.map_values(
            rule_runtime(built_names(displays@)),
        ),
        res.displays@ == displays@,
        res.sensors@.len() == sensors@.len(),
        forall|i: int|
            0 <= i < sensors@.len() ==> sensor_runtime_of(
                #[trigger] res.sensors@[i],
                sensors@[i],
                default_stale,
            ),
        res.doctor_wake_settle == doctor_wake_settle,
{
    let mut runtime: Vec<RuleRuntimeCfg> = Vec::new();
    let ghost f = rule_runtime(built_names(displays@));
    let mut i: usize = 0;
    while i < rules.len()
        invariant
            i <= rules@.len(),
            f == rule_runtime(built_names(displays@)),
            runtime@.len() == i,
            forall|j: int| 0 <= j < i ==> (#[trigger] runtime@[j])@ == f(rules@[j]),
        decreases rules@.len() - i,
    {
        let r = &rules[i];
        runtime.push(
            RuleRuntimeCfg {
                rule: r.id.clone(),
                zone: r.zone.clone(),
                displays: built_displays(&r.displays, &displays),
            },
        );
        i = i + 1;
    }
    let mut sensing: Vec<SensorRuntimeCfg> = Vec::new();
    let mut k: usize = 0;
    while k < sensors.len()
        invariant
            k <= sensors@.len(),
            sensing@.len() == k,
            forall|j: int|
                0 <= j < k ==> sensor_runtime_of(
                    #[trigger] sensing@[j],
                    sensors@[j],
                    default_stale,
                ),
        decreases sensors@.len() - k,
    {
        let s = &sensors[k];
        let stale_timeout: Nanos = match s.stale_timeout {
            Some(t) => t,
            None => default_stale,
        };
        sensing.push(
            SensorRuntimeCfg {
                sensor: s.id.clone(),
                kind: s.kind,
                hold_time: s.hold_time,
                stale_timeout,
            },
        );
        k = k + 1;
    }
    assert(runtime@.map_values(|r: RuleRuntimeCfg| r@) =~= rules@.map_values(f));
    RulesEngineConfig { rules: runtime, displays, sensors: sensing, doctor_wake_settle }
}

/// What an assembly takes from the rest of the configuration.
#[derive(Clone, Copy, PartialEq, Eq, Debug, Structural)]
pub struct AssemblySettings {
    pub startup_holdoff: Nanos,
    /// The settings of a display that no rule drives.
    pub manual: DisplaySettings,
    pub default_stale: Nanos,
    pub doctor_wake_settle: Nanos,
}

/// The engine's configuration. Every configured display, whether a rule drives it
/// or not, has exactly one entry; one display that cannot blank fails the whole
/// assembly.
pub fn assemble_static(
    displays: &Vec<DisplayConfig>,
    rules: &Vec<RuleConfig>,
    sensors: &Vec<SensorConfig>,
    effective: &Vec<Vec<BlankMode>>,
    settings: AssemblySettings,
) -> (res: Result<RulesEngineConfig, ModeUnsupported>)
    requires
        effective@.len() == displays@.len(),
    ensures
        match res {
            Ok(engine) => {
                &&& engine.displays@.len() == displays@.len()
                &&& forall|i: int|
                    0 <= i < displays@.len() ==> display_runtime_of(
                        #[trigger] engine.displays@[i],
                        displays@[i],
                        settings_of(
                            rules@,
                            displays@[i].name@,
                            settings.startup_holdoff,
                            settings.manual,
                        ).timings,
                        effective@[i]@,
                    )
                &&& engine.rules@.map_values(|r: RuleRuntimeCfg| r@) == rules@.map_values(
                    rule_runtime(display_names(displays@)),
                )
                &&& engine.sensors@.len() == sensors@.len()
                &&& forall|i: int|
                    0 <= i < sensors@.len() ==> sensor_runtime_of(
                        #[trigger] engine.sensors@[i],
                        sensors@[i],
                        settings.default_stale,
                    )
                &&& engine.doctor_wake_settle == settings.doctor_wake_settle
            },
            Err(e) => exists|i: int| #[trigger]
                first_unable(displays@, effective@, i) && unsupported_of(
                    e,
                    displays@[i],
                    effective@[i]@,
                ),
        },
        res is Ok <==> forall|i: int|
            0 <= i < displays@.len() ==> can_blank(#[trigger] displays@[i], effective@[i]@),
{
    match assemble_displays(
        displays,
        rules,
        settings.startup_holdoff,
        settings.manual,
        effective,
    ) {
        Ok(built) => Ok(
            engine_config(
                rules,
                sensors,
                built,
                settings.default_stale,
                settings.doctor_wake_settle,
            ),
        ),
        Err(e) => Err(e),
    }
}

// ── shared displays ──────────────────────────────────────────────────────

/// The name of a display that is shared.
pub open spec fn shared_name() -> spec_fn(DisplayConfig) -> Option<Seq<char>> {
    |d: DisplayConfig|
        if d.scope == DisplayScope::Shared {
            Some(d.name@)
        } else {
            None
        }
}

/// The shared displays, in the order of the configuration.
pub fn shared_displays(displays: &Vec<DisplayConfig>) -> (out: Vec<String>)
    ensures
        text::texts(out@) == displays@.filter_map(shared_name()),
{
    let mut out: Vec<String> = Vec::new();
    let ghost f = shared_name();
    let mut i: usize = 0;
    proof {
        assert(displays@.take(0) =~= Seq::<DisplayConfig>::empty());
        assert(text::texts(out@) =~= displays@.take(0).filter_map(f));
    }
    while i < displays.len()
        invariant
            i <= displays@.len(),
            f == shared_name(),
            text::texts(out@) == displays@.take(i as int).filter_map(f),
        decreases displays@.len() - i,
    {
        let ghost out0 = out@;
        proof {
            seqs::lemma_filter_map_step(displays@, i as int, f);
        }
        let d = &displays[i];
        if d.scope == DisplayScope::Shared {
            out.push(d.name.clone());
            assert(text::texts(out@) =~= text::texts(out0).push(d.name@));
        }
        i = i + 1;
    }
    proof {
        seqs::lemma_take_all(displays@);
    }
    out
}

/// Whether a generation polls the other instances: this instance coordinates
/// and some display is shared.
pub fn should_spawn_coordination_poller(displays: &Vec<DisplayConfig>, coordinated: bool) -> (res:
    bool)
    ensures
        res == (coordinated && displays@.filter_map(shared_name()).len() > 0),
{
    let shared = shared_displays(displays);
    assert(text::texts(shared@).len() == shared@.len());
    coordinated && shared.len() > 0
}

// ── inhibitors ───────────────────────────────────────────────────────────

/// A rule that is inhibited by user activity.
#[derive(PartialEq, Eq, Debug)]
pub struct ActivityRule {
    pub rule: String,
    pub idle_threshold: Nanos,
}

/// The name and idle threshold of a rule that is inhibited by user activity.
pub open spec fn activity_of() -> spec_fn(RuleConfig) -> Option<(Seq<char>, Nanos)> {
    |r: RuleConfig|
        if text::texts(r.inhibitors@).contains(INHIBITOR_USER_ACTIVITY@) {
            Some((r.id@, r.activity_idle_threshold))
        } else {
            None
        }
}

/// The least poll interval among the rules that are inhibited by user activity.
pub open spec fn least_poll(rules: Seq<RuleConfig>) -> Option<Nanos>
    decreases rules.len(),
{
    if rules.len() == 0 {
        None
    } else {
        let before = least_poll(rules.drop_last());
        let poll = rules.last().activity_poll_interval;
        if activity_of()(rules.last()) is None {
            before
        } else {
            match before {
                Some(p) if p < poll => before,
                _ => Some(poll),
            }
        }
    }
}

/// The rules that are inhibited by user activity, and the least of their poll
/// intervals.
pub fn activity_rules(rules: &Vec<RuleConfig>) -> (res: (Vec<ActivityRule>, Option<Nanos>))
    ensures
        res.0@.map_values(|a: ActivityRule| (a.rule@, a.idle_threshold)) == rules@.filter_map(
            activity_of(),
        ),
        res.1 == least_poll(rules@),
{
    let mut out: Vec<ActivityRule> = Vec::new();
    let mut least: Option<Nanos> = None;
    let ghost f = activity_of();
    let ghost g = |a: ActivityRule| (a.rule@, a.idle_threshold);
    let mut i: usize = 0;
    proof {
        assert(rules@.take(0) =~= Seq::<RuleConfig>::empty());
        assert(out@.map_values(g) =~= rules@.take(0).filter_map(f));
    }
    while i < rules.len()
        invariant
            i <= rules@.len(),
            f == activity_of(),
            g == (|a: ActivityRule| (a.rule@, a.idle_threshold)),
            out@.map_values(g) == rules@.take(i as int).filter_map(f),
            least == least_poll(rules@.take(i as int)),
        decreases rules@.len() - i,
    {
        let ghost out0 = out@;
        proof {
            seqs::lemma_filter_map_step(rules@, i as int, f);
            let longer = rules@.take(i + 1);
            assert(longer.drop_last() =~= rules@.take(i as int));
            assert(longer.last() == rules@[i as int]);
        }
        let rc = &rules[i];
        if holds_text(&rc.inhibitors, INHIBITOR_USER_ACTIVITY) {
            let added = ActivityRule {
                rule: rc.id.clone(),
                idle_threshold: rc.activity_idle_threshold,
            };
            let ghost made = added;
            out.push(added);
            assert(out@.map_values(g) =~= out0.map_values(g).push(g(made)));
            let poll: Nanos = rc.activity_poll_interval;
            least = match least {
                Some(p) => if p < poll {
                    Some(p)
                } else {
                    Some(poll)
                },
                None => Some(poll),
            };
        }
        i = i + 1;
    }
    proof {
        seqs::lemma_take_all(rules@);
    }
    (out, least)
}

/// The least poll interval is that of a rule that is inhibited by user activity,
/// none of them has a smaller one, and there is none exactly when no rule is so
/// inhibited.
pub proof fn law_least_poll(rules: Seq<RuleConfig>)
    ensures
        match least_poll(rules) {
            Some(p) => (exists|i: int|
                0 <= i < rules.len() && activity_of()(#[trigger] rules[i]) is Some
                    && rules[i].activity_poll_interval == p) && (forall|i: int|
                0 <= i < rules.len() && activity_of()(#[trigger] rules[i]) is Some ==> p
                    <= rules[i].activity_poll_interval),
            None => forall|i: int|
                0 <= i < rules.len() ==> activity_of()(#[trigger] rules[i]) is None,
        },
    decreases rules.len(),
{
    if rules.len() > 0 {
        let front = rules.drop_last();
        law_least_poll(front);
        assert(forall|i: int| 0 <= i < front.len() ==> #[trigger] rules[i] == front[i]);
        let k = rules.len() - 1;
        assert(rules[k] == rules.last());
        match least_poll(front) {
            Some(p) => {
                let i = choose|i: int|
                    0 <= i < front.len() && activity_of()(#[trigger] front[i]) is Some
                        && front[i].activity_poll_interval == p;
                assert(activity_of()(rules[i]) is Some);
            },
            None => {},
        }
    }
}

/// The kind an inhibitor literal has where it is one of audio.
pub open spec fn audio_kind() -> spec_fn(Seq<char>) -> Option<InhibitorKind> {
    |s: Seq<char>|
        match audio_policy::kind_named(s) {
            Some(InhibitorKind::AudioPlayback) => Some(InhibitorKind::AudioPlayback),
            Some(InhibitorKind::Call) => Some(InhibitorKind::Call),
            _ => None,
        }
}

/// The audio kinds that a rule declares, in its order.
pub open spec fn audio_kinds(r: RuleConfig) -> Seq<InhibitorKind> {
    text::texts(r.inhibitors@).filter_map(audio_kind())
}

/// A rule with its audio kinds, where it has any.
pub open spec fn audio_of() -> spec_fn(RuleConfig) -> Option<(Seq<char>, Seq<InhibitorKind>)> {
    |r: RuleConfig|
        if audio_kinds(r).len() == 0 {
            None
        } else {
            Some((r.id@, audio_kinds(r)))
        }
}

fn kinds_of(inhibitors: &Vec<String>) -> (out: Vec<InhibitorKind>)
    ensures
        out@ == text::texts(inhibitors@).filter_map(audio_kind()),
{
    let mut out: Vec<InhibitorKind> = Vec::new();
    let ghost f = audio_kind();
    let ghost listed = text::texts(inhibitors@);
    let mut i: usize = 0;
    proof {
        assert(listed.take(0) =~= Seq::<Seq<char>>::empty());
        assert(out@ =~= listed.take(0).filter_map(f));
    }
    while i < inhibitors.len()
        invariant
            i <= inhibitors@.len(),
            f == audio_kind(),
            listed == text::texts(inhibitors@),
            out@ == listed.take(i as int).filter_map(f),
        decreases inhibitors@.len() - i,
    {
        proof {
            assert(listed[i as int] == inhibitors@[i as int]@);
            seqs::lemma_filter_map_step(listed, i as int, f);
        }
        match InhibitorKind::from_config(inhibitors[i].as_str()) {
            Some(InhibitorKind::AudioPlayback) => {
                out.push(InhibitorKind::AudioPlayback);
            },
            Some(InhibitorKind::Call) => {
                out.push(InhibitorKind::Call);
            },
            _ => {},
        }
        i = i + 1;
    }
    proof {
        seqs::lemma_take_all(listed);
    }
    out
}

/// The rules that declare an audio inhibitor, with the kinds that they declare.
pub fn audio_rules(rules: &Vec<RuleConfig>) -> (out: Vec<AudioRule>)
    ensures
        out@.map_values(|a: AudioRule| (a.rule@, a.kinds@)) == rules@.filter_map(audio_of()),
{
    let mut out: Vec<AudioRule> = Vec::new();
    let ghost f = audio_of();
    let ghost g = |a: AudioRule| (a.rule@, a.kinds@);
    let mut i: usize = 0;
    proof {
        assert(rules@.take(0) =~= Seq::<RuleConfig>::empty());
        assert(out@.map_values(g) =~= rules@.take(0).filter_map(f));
    }
    while i < rules.len()
        invariant
            i <= rules@.len(),
            f == audio_of(),
            g == (|a: AudioRule| (a.rule@, a.kinds@)),
            out@.map_values(g) == rules@.take(i as int).filter_map(f),
        decreases rules@.len() - i,
    {
        let ghost out0 = out@;
        proof {
            seqs::lemma_filter_map_step(rules@, i as int, f);
        }
        let rc = &rules[i];
        let kinds = kinds_of(&rc.inhibitors);
        if kinds.len() > 0 {
            let added = AudioRule { rule: rc.id.clone(), kinds };
            let ghost made = added;
            out.push(added);
            assert(out@.map_values(g) =~= out0.map_values(g).push(g(made)));
        }
        i = i + 1;
    }
    proof {
        seqs::lemma_take_all(rules@);
    }
    out
}

/// Every kind that an audio rule declares is one of audio.
pub proof fn law_audio_rules_hold_audio_kinds(inhibitors: Seq<Seq<char>>)
    ensures
        forall|i: int|
            0 <= i < inhibitors.filter_map(audio_kind()).len() ==> {
                let k = #[trigger] inhibitors.filter_map(audio_kind())[i];
                k == InhibitorKind::AudioPlayback || k == InhibitorKind::Call
            },
    decreases inhibitors.len(),
{
    let f = audio_kind();
    reveal(Seq::filter_map);
    if inhibitors.len() > 0 {
        law_audio_rules_hold_audio_kinds(inhibitors.drop_last());
    }
}

// ── overlays ─────────────────────────────────────────────────────────────

/// What a screensaver shows, and how.
#[derive(PartialEq, Eq, Debug)]
pub struct ScreensaverSettings {
    /// Where the playlist is made from.
    pub source: Vec<String>,
    /// For how long an image is shown.
    pub image_duration: Nanos,
    pub audio: bool,
    pub scale_mode: ScaleMode,
    pub transition: TransitionMode,
    pub transition_duration: Nanos,
}

/// The model of what a screensaver shows, and how.
#[verifier::ext_equal]
pub struct ScreensaverModel {
    pub source: Seq<Seq<char>>,
    pub image_duration: Nanos,
    pub audio: bool,
    pub scale_mode: ScaleMode,
    pub transition: TransitionMode,
    pub transition_duration: Nanos,
}

impl View for ScreensaverSettings {
    type V = ScreensaverModel;

    open spec fn view(&self) -> ScreensaverModel {
        ScreensaverModel {
            source: text::texts(self.source@),
            image_duration: self.image_duration,
            audio: self.audio,
            scale_mode: self.scale_mode,
            transition: self.transition,
            transition_duration: self.transition_duration,
        }
    }
}

/// The model of settings that may be missing.
pub open spec fn opt_screensaver(s: Option<ScreensaverSettings>) -> Option<ScreensaverModel> {
    match s {
        Some(s) => Some(s@),
        None => None,
    }
}

/// How far and how often a screensaver is shifted.
#[derive(Clone, Copy, PartialEq, Eq, Debug, Structural)]
pub struct ShiftSettings {
    pub shift_px: u32,
    pub shift_interval: Nanos,
}

/// An overlay to make for a display.
#[derive(PartialEq, Eq, Debug)]
pub struct RenderSink {
    pub display: String,
    pub output: String,
    pub screensaver: Option<ScreensaverSettings>,
    pub shift: Option<ShiftSettings>,
}

/// The model of an overlay.
#[verifier::ext_equal]
pub struct SinkModel {
    pub display: Seq<char>,
    pub output: Seq<char>,
    pub screensaver: Option<ScreensaverModel>,
    pub shift: Option<ShiftSettings>,
}

impl View for RenderSink {
    type V = SinkModel;

    open spec fn view(&self) -> SinkModel {
        SinkModel {
            display: self.display@,
            output: self.output@,
            screensaver: opt_screensaver(self.screensaver),
            shift: self.shift,
        }
    }
}

/// Whether a ladder draws an overlay at some stage.
pub open spec fn draws(ladder: Seq<LadderStage>) -> bool {
    exists|i: int| 0 <= i < ladder.len() && config::is_render((#[trigger] ladder[i]).kind)
}

/// Whether a ladder reaches the screensaver.
pub open spec fn reaches_screensaver(ladder: Seq<LadderStage>) -> bool {
    exists|i: int|
        0 <= i < ladder.len() && (#[trigger] ladder[i]).kind == StageKind::RenderScreensaver
}

/// A configured choice, or the default where it is absent or names nothing.
pub open spec fn resolved<T>(c: Choice<T>, default: T) -> T {
    match c {
        Choice::Known(t) => t,
        _ => default,
    }
}

/// What a display's screensaver shows, and how: only where the ladder reaches it
/// and there is a screensaver table. `image_duration` is the renderer's own.
pub open spec fn screensaver_of(d: DisplayConfig, image_duration: Nanos) -> Option<
    ScreensaverModel,
> {
    match d.screensaver {
        Some(ss) if reaches_screensaver(d.ladder@) => Some(
            ScreensaverModel {
                source: text::texts(ss.source@),
                image_duration,
                audio: ss.audio,
                scale_mode: resolved(ss.scale_mode, ScaleMode::Fill),
                transition: resolved(ss.transition, TransitionMode::Crossfade),
                transition_duration: match ss.transition_duration {
                    Some(t) => t,
                    None => DEFAULT_TRANSITION_DURATION,
                },
            },
        ),
        _ => None,
    }
}

/// How a display's screensaver is shifted. A black overlay is never shifted.
pub open spec fn shift_of(d: DisplayConfig) -> Option<ShiftSettings> {
    match d.screensaver {
        Some(ss) if reaches_screensaver(d.ladder@) => Some(
            ShiftSettings { shift_px: ss.shift_px, shift_interval: ss.shift_interval },
        ),
        _ => None,
    }
}

/// The overlay to make for a display: none where its ladder draws nothing or it
/// has no output.
pub open spec fn sink_of(image_duration: Nanos) -> spec_fn(DisplayConfig) -> Option<SinkModel> {
    |d: DisplayConfig|
        match d.output {
            Some(output) if draws(d.ladder@) => Some(
                SinkModel {
                    display: d.name@,
                    output: output@,
                    screensaver: screensaver_of(d, image_duration),
                    shift: shift_of(d),
                },
            ),
            _ => None,
        }
}

/// The name of a display whose ladder draws but which has no output.
pub open spec fn outputless() -> spec_fn(DisplayConfig) -> Option<Seq<char>> {
    |d: DisplayConfig|
        if d.output is None && draws(d.ladder@) {
            Some(d.name@)
        } else {
            None
        }
}

/// The overlays of a configuration.
pub struct RenderSinks {
    pub sinks: Vec<RenderSink>,
    /// Displays that would draw but have no output.
    pub missing_output: Vec<String>,
}

fn ladder_draws(ladder: &Vec<LadderStage>) -> (res: bool)
    ensures
        res == draws(ladder@),
{
    let mut i: usize = 0;
    while i < ladder.len()
        invariant
            i <= ladder@.len(),
            forall|j: int| 0 <= j < i ==> !config::is_render((#[trigger] ladder@[j]).kind),
        decreases ladder@.len() - i,
    {
        match ladder[i].kind {
            StageKind::Controller(_) => {},
            _ => {
                assert(config::is_render(ladder@[i as int].kind));
                return true;
            },
        }
        i = i + 1;
    }
    false
}

fn ladder_reaches_screensaver(ladder: &Vec<LadderStage>) -> (res: bool)
    ensures
        res == reaches_screensaver(ladder@),
{
    let mut i: usize = 0;
    while i < ladder.len()
        invariant
            i <= ladder@.len(),
            forall|j: int|
                0 <= j < i ==> (#[trigger] ladder@[j]).kind != StageKind::RenderScreensaver,
        decreases ladder@.len() - i,
    {
        if ladder[i].kind == StageKind::RenderScreensaver {
            assert(ladder@[i as int].kind == StageKind::RenderScreensaver);
            return true;
        }
        i = i + 1;
    }
    false
}

/// What a display's screensaver shows, how, and how it is shifted.
pub fn screensaver_settings(d: &DisplayConfig, image_duration: Nanos) -> (res: (
    Option<ScreensaverSettings>,
    Option<ShiftSettings>,
))
    ensures
        opt_screensaver(res.0) == screensaver_of(*d, image_duration),
        res.1 == shift_of(*d),
{
    if !ladder_reaches_screensaver(&d.ladder) {
        return (None, None);
    }
    match &d.screensaver {
        Some(ss) => {
            let scale_mode = match ss.scale_mode {
                Choice::Known(m) => m,
                _ => ScaleMode::Fill,
            };
            let transition = match ss.transition {
                Choice::Known(m) => m,
                _ => TransitionMode::Crossfade,
            };
            let transition_duration: Nanos = match ss.transition_duration {
                Some(t) => t,
                None => DEFAULT_TRANSITION_DURATION,
            };
            (
                Some(
                    ScreensaverSettings {
                        source: copy_texts(&ss.source),
                        image_duration,
                        audio: ss.audio,
                        scale_mode,
                        transition,
                        transition_duration,
                    },
                ),
                Some(ShiftSettings { shift_px: ss.shift_px, shift_interval: ss.shift_interval }),
            )
        },
        None => (None, None),
    }
}

/// The overlays to make, in the order of the displays, and the displays that
/// would draw but have no output.
pub fn build_render_sinks(displays: &Vec<DisplayConfig>, image_duration: Nanos) -> (res:
    RenderSinks)
    ensures
        res.sinks@.map_values(|s: RenderSink| s@) == displays@.filter_map(
            sink_of(image_duration),
        ),
        text::texts(res.missing_output@) == displays@.filter_map(outputless()),
{
    let mut sinks: Vec<RenderSink> = Vec::new();
    let mut missing: Vec<String> = Vec::new();
    let ghost f = sink_of(image_duration);
    let ghost g = |s: RenderSink| s@;
    let ghost h = outputless();
    let mut i: usize = 0;
    proof {
        assert(displays@.take(0) =~= Seq::<DisplayConfig>::empty());
        assert(sinks@.map_values(g) =~= displays@.take(0).filter_map(f));
        assert(text::texts(missing@) =~= displays@.take(0).filter_map(h));
    }
    while i < displays.len()
        invariant
            i <= displays@.len(),
            f == sink_of(image_duration),
            g == (|s: RenderSink| s@),
            h == outputless(),
            sinks@.map_values(g) == displays@.take(i as int).filter_map(f),
            text::texts(missing@) == displays@.take(i as int).filter_map(h),
        decreases displays@.len() - i,
    {
        let ghost sinks0 = sinks@;
        let ghost missing0 = missing@;
        proof {
            seqs::lemma_filter_map_step(displays@, i as int, f);
            seqs::lemma_filter_map_step(displays@, i as int, h);
        }
        let d = &displays[i];
        if ladder_draws(&d.ladder) {
            match &d.output {
                Some(output) => {
                    let (screensaver, shift) = screensaver_settings(d, image_duration);
                    let added = RenderSink {
                        display: d.name.clone(),
                        output: output.clone(),
                        screensaver,
                        shift,
                    };
                    let ghost made = added;
                    sinks.push(added);
                    assert(sinks@.map_values(g) =~= sinks0.map_values(g).push(g(made)));
                },
                None => {
                    missing.push(d.name.clone());
                    assert(text::texts(missing@) =~= text::texts(missing0).push(d.name@));
                },
            }
        }
        i = i + 1;
    }
    proof {
        seqs::lemma_take_all(displays@);
    }
    RenderSinks { sinks, missing_output: missing }
}

/// A display is shifted exactly when its screensaver is shown, and neither
/// happens on a ladder that only draws black.
pub proof fn law_shift_only_with_screensaver(d: DisplayConfig, image_duration: Nanos)
    ensures
        shift_of(d) is Some <==> screensaver_of(d, image_duration) is Some,
        !reaches_screensaver(d.ladder@) ==> shift_of(d) is None && screensaver_of(
            d,
            image_duration,
        ) is None,
{
}

// ── laws ─────────────────────────────────────────────────────────────────

/// Whether a rule lists a display.
pub open spec fn lists(r: RuleConfig, d: Seq<char>) -> bool {
    exists|k: int| 0 <= k < r.displays@.len() && (#[trigger] r.displays@[k])@ == d
}

proof fn lemma_lists(r: RuleConfig, d: Seq<char>)
    ensures
        lists(r, d) == drives(r, d),
{
    let t = text::texts(r.displays@);
    if lists(r, d) {
        let k = choose|k: int| 0 <= k < r.displays@.len() && (#[trigger] r.displays@[k])@ == d;
        assert(t[k] == d);
    }
    if drives(r, d) {
        let k = choose|k: int| 0 <= k < t.len() && t[k] == d;
        assert(r.displays@[k]@ == d);
    }
}

/// A display that rules list runs with every time and retry of the first such
/// rule, and with the startup holdoff.
pub proof fn law_display_follows_its_first_rule(
    rules: Seq<RuleConfig>,
    i: int,
    d: Seq<char>,
    startup_holdoff: Nanos,
    manual: DisplaySettings,
)
    requires
        0 <= i < rules.len(),
        lists(rules[i], d),
        forall|j: int| 0 <= j < i ==> !lists(#[trigger] rules[j], d),
    ensures
        ({
            let s = settings_of(rules, d, startup_holdoff, manual);
            &&& s.timings.grace_period == rules[i].grace_period
            &&& s.timings.min_blank_time == rules[i].min_blank_time
            &&& s.timings.min_wake_time == rules[i].min_wake_time
            &&& s.timings.wake_retry_interval == rules[i].wake_retry_interval
            &&& s.timings.startup_holdoff == startup_holdoff
            &&& s.retry.wake_retries == rules[i].wake_retries
            &&& s.retry.wake_retry_backoff == rules[i].wake_retry_backoff
        }),
{
    lemma_first_listing(rules, i, d);
}

proof fn lemma_first_listing(rules: Seq<RuleConfig>, i: int, d: Seq<char>)
    requires
        0 <= i < rules.len(),
        lists(rules[i], d),
        forall|j: int| 0 <= j < i ==> !lists(#[trigger] rules[j], d),
    ensures
        first_rule(rules, d) == Some(i),
{
    law_first_rule_wins(rules, d);
    lemma_lists(rules[i], d);
    match first_rule(rules, d) {
        Some(k) => {
            lemma_lists(rules[k], d);
            if k < i {
                assert(!lists(rules[k], d));
            }
            if i < k {
                assert(!drives(rules[i], d));
            }
        },
        None => {
            assert(!drives(rules[i], d));
        },
    }
}

/// A display that no rule lists runs with the settings of a manual one.
pub proof fn law_unruled_display_is_manual(
    rules: Seq<RuleConfig>,
    d: Seq<char>,
    startup_holdoff: Nanos,
    manual: DisplaySettings,
)
    requires
        forall|j: int| 0 <= j < rules.len() ==> !lists(#[trigger] rules[j], d),
    ensures
        settings_of(rules, d, startup_holdoff, manual) == manual,
        first_rule(rules, d) is None,
{
    law_first_rule_wins(rules, d);
    match first_rule(rules, d) {
        Some(i) => {
            lemma_lists(rules[i], d);
            assert(!lists(rules[i], d));
        },
        None => {},
    }
}

/// Two rules differ in retries or timings exactly if they give a display
/// different settings.
pub proof fn law_rules_differ_where_their_settings_do(
    a: RuleConfig,
    b: RuleConfig,
    d: Seq<char>,
    startup_holdoff: Nanos,
    manual: DisplaySettings,
)
    requires
        lists(a, d),
        lists(b, d),
    ensures
        timing_differs(a, b) <==> settings_of(seq![a], d, startup_holdoff, manual) != settings_of(
            seq![b],
            d,
            startup_holdoff,
            manual,
        ),
{
    law_display_follows_its_first_rule(seq![a], 0, d, startup_holdoff, manual);
    law_display_follows_its_first_rule(seq![b], 0, d, startup_holdoff, manual);
}

/// A conflict is reported exactly for a display and a rule that lists it with
/// other retries or timings than the first rule that does.
pub proof fn law_conflicts_are_with_the_first_rule(
    rules: Seq<RuleConfig>,
    n: int,
    d: Seq<char>,
    id: Seq<char>,
)
    requires
        0 <= n <= rules.len(),
    ensures
        conflicts(rules, n).contains((d, id)) <==> exists|j: int, i: int|
            #![trigger rules[j], rules[i]]
            0 <= i <= j < n && rules[j].id@ == id && lists(rules[j], d) && first_rule(rules, d)
                == Some(i) && timing_differs(rules[i], rules[j]),
    decreases n,
{
    if n > 0 {
        let f = mention_conflict(rules, n - 1);
        let names = text::texts(rules[n - 1].displays@);
        let added = names.filter_map(f);
        let before = conflicts(rules, n - 1);
        law_conflicts_are_with_the_first_rule(rules, n - 1, d, id);
        seqs::lemma_filter_map_members(names, f, (d, id));
        lemma_lists(rules[n - 1], d);
        lemma_first_rule_of_prefix(rules, n, d);
        law_first_rule_wins(rules, d);
        assert(conflicts(rules, n).contains((d, id)) <==> before.contains((d, id))
            || added.contains((d, id))) by {
            let all = before + added;
            if before.contains((d, id)) {
                let k = choose|k: int| 0 <= k < before.len() && before[k] == (d, id);
                assert(all[k] == (d, id));
            }
            if added.contains((d, id)) {
                let k = choose|k: int| 0 <= k < added.len() && added[k] == (d, id);
                assert(all[before.len() + k] == (d, id));
            }
            if all.contains((d, id)) {
                let k = choose|k: int| 0 <= k < all.len() && all[k] == (d, id);
                if k < before.len() {
                    assert(before[k] == (d, id));
                } else {
                    assert(added[k - before.len()] == (d, id));
                }
            }
        }
        if added.contains((d, id)) {
            let k = choose|k: int| 0 <= k < names.len() && f(#[trigger] names[k]) == Some((d, id));
            assert(names[k] == d);
            assert(names.contains(d));
            let i = first_rule(rules.take(n), d)->0;
            assert(timing_differs(rules[i], rules[n - 1]));
            assert(0 <= i <= n - 1);
        }
        if exists|j: int, i: int|
            #![trigger rules[j], rules[i]]
            0 <= i <= j < n && rules[j].id@ == id && lists(rules[j], d) && first_rule(rules, d)
                == Some(i) && timing_differs(rules[i], rules[j]) {
            let (j, i) = choose|j: int, i: int|
                #![trigger rules[j], rules[i]]
                0 <= i <= j < n && rules[j].id@ == id && lists(rules[j], d) && first_rule(rules, d)
                    == Some(i) && timing_differs(rules[i], rules[j]);
            if j == n - 1 {
                assert(names.contains(d));
                let k = choose|k: int| 0 <= k < names.len() && names[k] == d;
                assert(f(names[k]) == Some((d, id)));
            }
        }
    }
}

proof fn lemma_first_rule_of_prefix(rules: Seq<RuleConfig>, n: int, d: Seq<char>)
    requires
        0 <= n <= rules.len(),
    ensures
        first_rule(rules.take(n), d) == (match first_rule(rules, d) {
            Some(i) if i < n => Some(i),
            _ => None,
        }),
{
    let front = rules.take(n);
    law_first_rule_wins(rules, d);
    law_first_rule_wins(front, d);
    match first_rule(front, d) {
        Some(i) => {
            assert(front[i] == rules[i]);
            match first_rule(rules, d) {
                Some(k) => {
                    if k < i {
                        assert(front[k] == rules[k]);
                    }
                    if i < k {
                        assert(!drives(rules[i], d));
                    }
                },
                None => {
                    assert(!drives(rules[i], d));
                },
            }
        },
        None => {
            match first_rule(rules, d) {
                Some(k) => {
                    if k < n {
                        assert(front[k] == rules[k]);
                    }
                },
                None => {},
            }
        },
    }
}

/// A display blanks with a mode that its controllers have: its own wherever they
/// have that, else its degraded one; it cannot blank only if they have neither.
pub proof fn law_own_mode_is_preferred(
    primary: BlankMode,
    degraded: Option<BlankMode>,
    effective: Seq<BlankMode>,
)
    ensures
        chosen_mode(primary, degraded, effective) matches Some(m) ==> effective.contains(m) && (m
            == primary || degraded == Some(m)),
        chosen_mode(primary, degraded, effective) == Some(primary) <==> effective.contains(primary),
        !effective.contains(primary) && degraded is Some && effective.contains(degraded->0)
            ==> chosen_mode(primary, degraded, effective) == degraded,
        chosen_mode(primary, degraded, effective) is None <==> !effective.contains(primary) && (
        degraded is None || !effective.contains(degraded->0)),
{
}

/// An assembled display has the name and the ladder of its configuration, a mode
/// that its controllers have, and the times of the first rule that lists it.
pub proof fn law_assembled_display_is_the_configured_one(
    r: DisplayRuntimeCfg,
    dc: DisplayConfig,
    rules: Seq<RuleConfig>,
    i: int,
    startup_holdoff: Nanos,
    manual: DisplaySettings,
    effective: Seq<BlankMode>,
)
    requires
        0 <= i < rules.len(),
        lists(rules[i], dc.name@),
        forall|j: int| 0 <= j < i ==> !lists(#[trigger] rules[j], dc.name@),
        display_runtime_of(
            r,
            dc,
            settings_of(rules, dc.name@, startup_holdoff, manual).timings,
            effective,
        ),
    ensures
        r.display@ == dc.name@,
        r.ladder@ == dc.ladder@,
        effective.contains(r.blank_mode),
        r.blank_mode == dc.primary_blank_mode || dc.degraded_mode == Some(r.blank_mode),
        effective.contains(dc.primary_blank_mode) ==> r.blank_mode == dc.primary_blank_mode,
        r.timings.grace_period == rules[i].grace_period,
        r.timings.min_blank_time == rules[i].min_blank_time,
        r.timings.min_wake_time == rules[i].min_wake_time,
        r.timings.wake_retry_interval == rules[i].wake_retry_interval,
        r.timings.startup_holdoff == startup_holdoff,
{
    law_display_follows_its_first_rule(rules, i, dc.name@, startup_holdoff, manual);
}

/// An assembly fails at the first display that has neither mode, and the error is
/// about that display.
pub proof fn law_error_is_about_the_first_display_that_cannot_blank(
    displays: Seq<DisplayConfig>,
    effective: Seq<Vec<BlankMode>>,
    i: int,
    e: ModeUnsupported,
)
    requires
        first_unable(displays, effective, i),
        unsupported_of(e, displays[i], effective[i]@),
    ensures
        0 <= i < displays.len(),
        !effective[i]@.contains(displays[i].primary_blank_mode),
        displays[i].degraded_mode is None || !effective[i]@.contains(displays[i].degraded_mode->0),
        forall|j: int|
            0 <= j < i ==> effective[j]@.contains((#[trigger] displays[j]).primary_blank_mode) || (
            displays[j].degraded_mode is Some && effective[j]@.contains(
                displays[j].degraded_mode->0,
            )),
        e.display@ == displays[i].name@,
        e.wanted == displays[i].primary_blank_mode,
        e.degraded == displays[i].degraded_mode,
        e.effective@ == effective[i]@,
{
    assert forall|j: int| 0 <= j < i implies effective[j]@.contains(
        (#[trigger] displays[j]).primary_blank_mode,
    ) || (displays[j].degraded_mode is Some && effective[j]@.contains(
        displays[j].degraded_mode->0,
    )) by {
        assert(can_blank(displays[j], effective[j]@));
    }
}

/// A rule runs under its name, in its zone, with exactly those of its displays
/// that there are; where all are there, with all of them in its order.
pub proof fn law_rule_runs_with_its_displays(r: RuleConfig, built: Seq<Seq<char>>, d: Seq<char>)
    ensures
        ({
            let m = rule_runtime(built)(r);
            &&& m.rule == r.id@
            &&& m.zone == r.zone@
            &&& m.displays.contains(d) <==> lists(r, d) && built.contains(d)
            &&& (forall|k: int|
                0 <= k < r.displays@.len() ==> built.contains((#[trigger] r.displays@[k])@))
                ==> m.displays == text::texts(r.displays@)
        }),
{
    let names = text::texts(r.displays@);
    let p = among(built);
    lemma_lists(r, d);
    let kept = names.filter(p);
    if kept.contains(d) {
        seqs::lemma_filter_members(names, p);
        let k = choose|k: int| 0 <= k < kept.len() && kept[k] == d;
        assert(p(kept[k]));
        let j = choose|j: int| 0 <= j < names.len() && names[j] == kept[k];
        assert(names.contains(d));
    }
    if lists(r, d) && built.contains(d) {
        let k = choose|k: int| 0 <= k < names.len() && names[k] == d;
        seqs::lemma_filter_keeps(names, p, k);
    }
    if forall|k: int|
        0 <= k < r.displays@.len() ==> built.contains((#[trigger] r.displays@[k])@) {
        assert forall|k: int| 0 <= k < names.len() implies p(#[trigger] names[k]) by {
            assert(names[k] == r.displays@[k]@);
        }
        seqs::lemma_filter_keeps_all(names, p);
    }
}

/// A sensor runs as it is configured; one that sets no timeout of its own has the
/// common one.
pub proof fn law_sensor_runs_as_configured(
    r: SensorRuntimeCfg,
    s: SensorConfig,
    default_stale: Nanos,
)
    requires
        sensor_runtime_of(r, s, default_stale),
    ensures
        r.sensor@ == s.id@,
        r.kind == s.kind,
        r.hold_time == s.hold_time,
        s.stale_timeout matches Some(t) ==> r.stale_timeout == t,
        s.stale_timeout is None ==> r.stale_timeout == default_stale,
{
}

/// The shared displays are exactly those that are configured so.
pub proof fn law_shared_displays_are_those_configured_so(displays: Seq<DisplayConfig>, d: Seq<char>)
    ensures
        displays.filter_map(shared_name()).contains(d) <==> exists|i: int|
            0 <= i < displays.len() && (#[trigger] displays[i]).scope == DisplayScope::Shared
                && displays[i].name@ == d,
{
    seqs::lemma_filter_map_members(displays, shared_name(), d);
    if displays.filter_map(shared_name()).contains(d) {
        let i = choose|i: int|
            0 <= i < displays.len() && shared_name()(#[trigger] displays[i]) == Some(d);
        assert(displays[i].scope == DisplayScope::Shared);
    }
    if exists|i: int|
        0 <= i < displays.len() && (#[trigger] displays[i]).scope == DisplayScope::Shared
            && displays[i].name@ == d {
        let i = choose|i: int|
            0 <= i < displays.len() && (#[trigger] displays[i]).scope == DisplayScope::Shared
                && displays[i].name@ == d;
        assert(shared_name()(displays[i]) == Some(d));
    }
}

/// Whether a rule names an inhibitor.
pub open spec fn inhibited_by(r: RuleConfig, name: Seq<char>) -> bool {
    exists|k: int| 0 <= k < r.inhibitors@.len() && (#[trigger] r.inhibitors@[k])@ == name
}

proof fn lemma_inhibited_by(r: RuleConfig, name: Seq<char>)
    ensures
        inhibited_by(r, name) == text::texts(r.inhibitors@).contains(name),
{
    let t = text::texts(r.inhibitors@);
    if inhibited_by(r, name) {
        let k = choose|k: int|
            0 <= k < r.inhibitors@.len() && (#[trigger] r.inhibitors@[k])@ == name;
        assert(t[k] == name);
    }
    if t.contains(name) {
        let k = choose|k: int| 0 <= k < t.len() && t[k] == name;
        assert(r.inhibitors@[k]@ == name);
    }
}

/// A rule is inhibited by user activity exactly if it says so, and then with its
/// own threshold.
pub proof fn law_activity_inhibits_where_a_rule_says_so(r: RuleConfig)
    ensures
        inhibited_by(r, "user-activity"@) ==> activity_of()(r) == Some(
            (r.id@, r.activity_idle_threshold),
        ),
        !inhibited_by(r, "user-activity"@) ==> activity_of()(r) is None,
{
    lemma_inhibited_by(r, "user-activity"@);
}

/// A rule has an audio kind exactly if it names it, and is an audio rule, under
/// its own name, exactly if it has one.
pub proof fn law_audio_inhibits_where_a_rule_says_so(r: RuleConfig)
    ensures
        audio_kinds(r).contains(InhibitorKind::AudioPlayback) <==> inhibited_by(
            r,
            "audio-playback"@,
        ),
        audio_kinds(r).contains(InhibitorKind::Call) <==> inhibited_by(r, "call"@),
        !audio_kinds(r).contains(InhibitorKind::UserActivity),
        audio_of()(r) is Some <==> inhibited_by(r, "audio-playback"@) || inhibited_by(r, "call"@),
        audio_of()(r) matches Some(a) ==> a.0 == r.id@ && a.1 == audio_kinds(r),
{
    let t = text::texts(r.inhibitors@);
    let f = audio_kind();
    audio_policy::law_kinds_have_one_name_each("call"@);
    lemma_inhibited_by(r, "audio-playback"@);
    lemma_inhibited_by(r, "call"@);
    seqs::lemma_filter_map_members(t, f, InhibitorKind::AudioPlayback);
    seqs::lemma_filter_map_members(t, f, InhibitorKind::Call);
    seqs::lemma_filter_map_members(t, f, InhibitorKind::UserActivity);
    if inhibited_by(r, "audio-playback"@) {
        let k = choose|k: int| 0 <= k < t.len() && t[k] == "audio-playback"@;
        assert(f(t[k]) == Some(InhibitorKind::AudioPlayback));
    }
    if inhibited_by(r, "call"@) {
        let k = choose|k: int| 0 <= k < t.len() && t[k] == "call"@;
        assert(f(t[k]) == Some(InhibitorKind::Call));
    }
    if audio_kinds(r).contains(InhibitorKind::AudioPlayback) {
        let k = choose|k: int|
            0 <= k < t.len() && f(#[trigger] t[k]) == Some(InhibitorKind::AudioPlayback);
        audio_policy::law_kinds_have_one_name_each(t[k]);
        assert(t.contains(t[k]));
    }
    if audio_kinds(r).contains(InhibitorKind::Call) {
        let k = choose|k: int| 0 <= k < t.len() && f(#[trigger] t[k]) == Some(InhibitorKind::Call);
        audio_policy::law_kinds_have_one_name_each(t[k]);
        assert(t.contains(t[k]));
    }
    if audio_kinds(r).len() > 0 {
        let b = audio_kinds(r)[0];
        assert(audio_kinds(r).contains(b));
        law_audio_rules_hold_audio_kinds(t);
    }
}

/// Whether a ladder has a stage of a kind.
pub open spec fn has_stage(d: DisplayConfig, kind: StageKind) -> bool {
    exists|i: int| 0 <= i < d.ladder@.len() && (#[trigger] d.ladder@[i]).kind == kind
}

/// An overlay is made for a display exactly if it has an output and its ladder
/// draws black or a screensaver; a display that draws without an output is named
/// instead, and one that draws nothing is in neither list.
pub proof fn law_overlays_are_made_where_something_is_drawn(
    d: DisplayConfig,
    image_duration: Nanos,
)
    ensures
        ({
            let drawn = has_stage(d, StageKind::RenderBlack) || has_stage(
                d,
                StageKind::RenderScreensaver,
            );
            &&& sink_of(image_duration)(d) is Some <==> d.output is Some && drawn
            &&& outputless()(d) is Some <==> d.output is None && drawn
            &&& sink_of(image_duration)(d) matches Some(m) ==> m.display == d.name@ && m.output
                == d.output->0@
            &&& outputless()(d) matches Some(name) ==> name == d.name@
        }),
{
    if draws(d.ladder@) {
        let i = choose|i: int|
            0 <= i < d.ladder@.len() && config::is_render((#[trigger] d.ladder@[i]).kind);
        assert(d.ladder@[i].kind == StageKind::RenderBlack || d.ladder@[i].kind
            == StageKind::RenderScreensaver);
    }
    if has_stage(d, StageKind::RenderBlack) {
        let i = choose|i: int|
            0 <= i < d.ladder@.len() && (#[trigger] d.ladder@[i]).kind == StageKind::RenderBlack;
        assert(config::is_render(d.ladder@[i].kind));
    }
    if has_stage(d, StageKind::RenderScreensaver) {
        let i = choose|i: int|
            0 <= i < d.ladder@.len() && (#[trigger] d.ladder@[i]).kind
                == StageKind::RenderScreensaver;
        assert(config::is_render(d.ladder@[i].kind));
    }
}

/// An overlay shows the configured screensaver exactly if the ladder has a stage
/// for it: the table's own sources, sound and shift, its choices where they name
/// something, and else to fill the screen and to fade over one second.
pub proof fn law_overlay_shows_the_configured_screensaver(
    d: DisplayConfig,
    image_duration: Nanos,
)
    requires
        sink_of(image_duration)(d) is Some,
    ensures
        ({
            let m = sink_of(image_duration)(d)->0;
            let shown = d.screensaver is Some && has_stage(d, StageKind::RenderScreensaver);
            &&& m.screensaver is Some <==> shown
            &&& m.shift is Some <==> shown
            &&& shown ==> {
                let ss = d.screensaver->0;
                let v = m.screensaver->0;
                &&& v.source == text::texts(ss.source@)
                &&& v.audio == ss.audio
                &&& v.image_duration == image_duration
                &&& ss.scale_mode matches Choice::Known(k) ==> v.scale_mode == k
                &&& ss.scale_mode !is Known ==> v.scale_mode == ScaleMode::Fill
                &&& ss.transition matches Choice::Known(k) ==> v.transition == k
                &&& ss.transition !is Known ==> v.transition == TransitionMode::Crossfade
                &&& ss.transition_duration matches Some(t) ==> v.transition_duration == t
                &&& ss.transition_duration is None ==> v.transition_duration == 1_000_000_000
                &&& m.shift->0.shift_px == ss.shift_px
                &&& m.shift->0.shift_interval == ss.shift_interval
            }
        }),
{
}

/// What is reported of a display that cannot be blanked names the display, the
/// mode that was wanted, the one to fall back on, and those that there are.
pub proof fn law_unsupported_mode_is_reported(e: ModeUnsupported, modes: Seq<BlankMode>, m: BlankMode)
    ensures
        mode_names(Seq::empty()).len() == 0,
        mode_names(seq![m]) == config::mode_name(m),
        modes.len() > 0 ==> mode_names(modes.push(m)) == mode_names(modes) + ", "@
            + config::mode_name(m),
        e.degraded is None ==> mode_unsupported_text(e) == "E_MODE_UNSUPPORTED: display '"@
            + e.display@ + "' cannot blank: wanted "@ + config::mode_name(e.wanted) + " (degraded "@
            + "None"@ + "), effective modes ["@ + mode_names(e.effective@) + "]"@,
        e.degraded matches Some(d) ==> mode_unsupported_text(e)
            == "E_MODE_UNSUPPORTED: display '"@ + e.display@ + "' cannot blank: wanted "@
            + config::mode_name(e.wanted) + " (degraded "@ + ("Some("@ + config::mode_name(d)
            + ")"@) + "), effective modes ["@ + mode_names(e.effective@) + "]"@,
{
    assert(modes.push(m).drop_last() =~= modes);
}

/// Rules and overlays are seen with all that they hold, and lists of names and of
/// conflicts one for one.
pub proof fn law_assembled_parts_are_seen_whole(
    r: RuleRuntimeCfg,
    s: RenderSink,
    displays: Seq<DisplayConfig>,
    conflicts: Seq<(String, String)>,
    i: int,
)
    ensures
        r@.rule == r.rule@ && r@.zone == r.zone@,
        r@.displays == text::texts(r.displays@),
        s@.display == s.display@ && s@.output == s.output@ && s@.shift == s.shift,
        s.screensaver is Some <==> s@.screensaver is Some,
        s.screensaver matches Some(v) ==> s@.screensaver == Some(v@),
        display_names(displays).len() == displays.len(),
        0 <= i < displays.len() ==> display_names(displays)[i] == displays[i].name@,
        conflict_models(conflicts).len() == conflicts.len(),
        0 <= i < conflicts.len() ==> conflict_models(conflicts)[i] == (
            conflicts[i].0@,
            conflicts[i].1@,
        ),
{
}

} // verus!
