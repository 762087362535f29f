//! The audio and call inhibitor: classification of `pw-dump` output, and the
//! decisions of the poll loop around it.

use serde_json::Value;
use vstd::prelude::*;
use vstd::string::StringSliceAdditionalSpecFns;

use crate::audio_policy;
use crate::audio_policy::{AudioPolicy, AudioTransition, InhibitorKind, ProbeOutcome};
use crate::clock;
use crate::clock::Nanos;
use crate::seqs;
use crate::text;
use crate::text::{holds_text, same_text, split_words};

verus! {

/// Most bytes of a dump that are looked at.
pub const MAX_INPUT_LEN: usize = 4194304;

/// Unreaped probe processes at which probing stops.
pub const REAP_CAP: usize = 8;

/// How long probing stays stopped: sixty seconds.
pub const BREAKER_RETRY_INTERVAL: u128 = 60_000_000_000;

/// The audio section of the config.
pub struct AudioConfig {
    pub pw_dump_command: String,
    pub poll_interval: Nanos,
    pub min_active: Nanos,
    /// Roles that make a stream a call.
    pub call_roles: Vec<String>,
    /// Whether an open microphone is a call.
    pub capture_is_call: bool,
    /// The roles that count as playback, where it is narrowed down.
    pub playback_roles: Option<Vec<String>>,
}

/// Which inhibitors a dump calls for.
#[derive(Clone, Copy, PartialEq, Eq, Debug, Structural)]
pub struct KindStates {
    pub playback: bool,
    pub call: bool,
}

/// Why a dump cannot be classified at all.
#[derive(Clone, Copy, PartialEq, Eq, Debug, Structural)]
pub enum ClassifyError {
    /// The dump is not a JSON array.
    Json,
    /// The dump is longer than [`MAX_INPUT_LEN`].
    TooLarge,
}

impl Default for KindStates {
    fn default() -> (res: Self)
        ensures
            res == (KindStates { playback: false, call: false }),
    {
        KindStates { playback: false, call: false }
    }
}

// ── JSON ─────────────────────────────────────────────────────────────────

/// A parsed JSON value of `serde_json`.
#[verifier::external_type_specification]
#[verifier::external_body]
pub struct ExValue(serde_json::Value);

/// The value that a text denotes, if it is JSON.
pub uninterp spec fn json_parsed(text: Seq<char>) -> Option<Value>;

/// The member of an object under a key; nothing for any other value.
pub uninterp spec fn json_member(v: Value, key: Seq<char>) -> Option<Value>;

/// The text of a string value; nothing for any other value.
pub uninterp spec fn json_text(v: Value) -> Option<Seq<char>>;

/// The items of an array value; nothing for any other value.
pub uninterp spec fn json_items(v: Value) -> Option<Seq<Value>>;

/// `serde_json::from_str` into a `Value`: the value of a JSON text, nothing where
/// the text is not JSON. Which value that is, is left to the parser.
#[verifier::external_body]
fn parse_json(text: &str) -> (res: Option<Value>)
    ensures
        res == json_parsed(text@),
{
    serde_json::from_str(text).ok()
}

/// `Value::get` with a text key: the member of an object under that key, nothing
/// for a missing key or for a value that is no object.
#[verifier::external_body]
fn get_member<'a>(v: &'a Value, key: &str) -> (res: Option<&'a Value>)
    ensures
        match res {
            Some(m) => json_member(*v, key@) == Some(*m),
            None => json_member(*v, key@) is None,
        },
{
    v.get(key)
}

/// `Value::as_str`: the text of a string value, nothing for any other value.
pub assume_specification[ serde_json::Value::as_str ](v: &Value) -> (res: Option<&str>)
    ensures
        match res {
            Some(s) => json_text(*v) == Some(s@),
            None => json_text(*v) is None,
        },
;

/// `Value::as_array`: the items of an array value, nothing for any other value.
pub assume_specification[ serde_json::Value::as_array ](v: &Value) -> (res: Option<&Vec<Value>>)
    ensures
        match res {
            Some(items) => json_items(*v) == Some(items@),
            None => json_items(*v) is None,
        },
;

/// The text of the member of an object under a key.
pub open spec fn member_text(v: Value, key: Seq<char>) -> Option<Seq<char>> {
    match json_member(v, key) {
        Some(m) => json_text(m),
        None => None,
    }
}

fn get_text(v: &Value, key: &str) -> (res: Option<String>)
    ensures
        text::opt_text(res) == member_text(*v, key@),
{
    match get_member(v, key) {
        Some(m) => match m.as_str() {
            Some(s) => Some(s.to_owned()),
            None => None,
        },
        None => None,
    }
}

// ── nodes ────────────────────────────────────────────────────────────────

/// What the classifier reads of one entry of a dump.
pub struct PwNode {
    /// The entry's `type`.
    pub node_type: Option<String>,
    /// The `media.class` among its properties.
    pub media_class: Option<String>,
    /// The `media.role` among its properties.
    pub media_role: Option<String>,
    /// The state it reports.
    pub state: Option<String>,
}

/// The mathematical content of a [`PwNode`].
pub struct NodeModel {
    pub node_type: Option<Seq<char>>,
    pub media_class: Option<Seq<char>>,
    pub media_role: Option<Seq<char>>,
    pub state: Option<Seq<char>>,
}

impl View for PwNode {
    type V = NodeModel;

    open spec fn view(&self) -> NodeModel {
        NodeModel {
            node_type: text::opt_text(self.node_type),
            media_class: text::opt_text(self.media_class),
            media_role: text::opt_text(self.media_role),
            state: text::opt_text(self.state),
        }
    }
}

/// What the classifier reads of a JSON value. Properties are members of the
/// member `props` of the member `info`.
pub open spec fn node_of(v: Value) -> NodeModel {
    let info = json_member(v, "info"@);
    let props = match info {
        Some(i) => json_member(i, "props"@),
        None => None,
    };
    NodeModel {
        node_type: member_text(v, "type"@),
        media_class: match props {
            Some(p) => member_text(p, "media.class"@),
            None => None,
        },
        media_role: match props {
            Some(p) => member_text(p, "media.role"@),
            None => None,
        },
        state: match info {
            Some(i) => member_text(i, "state"@),
            None => None,
        },
    }
}

/// Read out of a JSON value what the classifier needs.
pub fn read_node(v: &Value) -> (node: PwNode)
    ensures
        node@ == node_of(*v),
{
    let node_type = get_text(v, "type");
    match get_member(v, "info") {
        Some(info) => {
            let state = get_text(info, "state");
            match get_member(info, "props") {
                Some(props) => PwNode {
                    node_type,
                    media_class: get_text(props, "media.class"),
                    media_role: get_text(props, "media.role"),
                    state,
                },
                None => PwNode { node_type, media_class: None, media_role: None, state },
            }
        },
        None => PwNode { node_type, media_class: None, media_role: None, state: None },
    }
}

/// The direction of an audio stream.
#[derive(Clone, Copy, PartialEq, Eq, Debug, Structural)]
pub enum StreamDirection {
    Input,
    Output,
}

/// The direction of the audio stream that a node is; nothing for a node that is
/// none.
pub open spec fn stream_direction(n: NodeModel) -> Option<StreamDirection> {
    if n.node_type != Some("PipeWire:Interface:Node"@) {
        None
    } else if n.media_class == Some("Stream/Input/Audio"@) {
        Some(StreamDirection::Input)
    } else if n.media_class == Some("Stream/Output/Audio"@) {
        Some(StreamDirection::Output)
    } else {
        None
    }
}

/// Whether a stream runs. Only two states are known not to; a state that is
/// missing or unknown counts as running.
pub open spec fn stream_runs(n: NodeModel) -> bool {
    n.state != Some("idle"@) && n.state != Some("suspended"@)
}

/// A stream's role, empty where it has none.
pub open spec fn stream_role(n: NodeModel) -> Seq<char> {
    match n.media_role {
        Some(r) => r,
        None => Seq::empty(),
    }
}

/// Whether a node is a running call.
pub open spec fn node_is_call(n: NodeModel, cfg: AudioConfig) -> bool {
    &&& stream_direction(n) is Some
    &&& stream_runs(n)
    &&& text::texts(cfg.call_roles@).contains(stream_role(n)) || (stream_direction(n) == Some(
        StreamDirection::Input,
    ) && cfg.capture_is_call)
}

/// Whether a node is running playback.
pub open spec fn node_is_playback(n: NodeModel, cfg: AudioConfig) -> bool {
    &&& stream_direction(n) == Some(StreamDirection::Output)
    &&& stream_runs(n)
    &&& !text::texts(cfg.call_roles@).contains(stream_role(n))
    &&& (cfg.playback_roles matches Some(allowed) ==> text::texts(allowed@).contains(
        stream_role(n),
    ))
}

/// Classify one node.
pub fn classify_stream(node: &PwNode, cfg: &AudioConfig) -> (res: KindStates)
    ensures
        res.playback == node_is_playback(node@, *cfg),
        res.call == node_is_call(node@, *cfg),
{
    let mut states = KindStates::default();
    let is_node = match &node.node_type {
        Some(t) => same_text(t.as_str(), "PipeWire:Interface:Node"),
        None => false,
    };
    if !is_node {
        return states;
    }
    let (is_input, is_output) = match &node.media_class {
        Some(c) => (
            same_text(c.as_str(), "Stream/Input/Audio"),
            same_text(c.as_str(), "Stream/Output/Audio"),
        ),
        None => (false, false),
    };
    if !is_input && !is_output {
        return states;
    }
    let stopped = match &node.state {
        Some(s) => same_text(s.as_str(), "idle") || same_text(s.as_str(), "suspended"),
        None => false,
    };
    if stopped {
        return states;
    }
    let role: String = match &node.media_role {
        Some(r) => r.clone(),
        None => String::new(),
    };
    assert(role@ =~= stream_role(node@));
    proof {
        reveal_strlit("Stream/Input/Audio");
        reveal_strlit("Stream/Output/Audio");
        assert("Stream/Input/Audio"@.len() != "Stream/Output/Audio"@.len());
    }
    if holds_text(&cfg.call_roles, role.as_str()) {
        states.call = true;
        return states;
    }
    if is_input {
        if cfg.capture_is_call {
            states.call = true;
        }
        return states;
    }
    match &cfg.playback_roles {
        Some(allowed) => {
            if holds_text(allowed, role.as_str()) {
                states.playback = true;
            }
        },
        None => {
            states.playback = true;
        },
    }
    states
}

/// Fold one entry of a dump into the states.
pub fn classify_node(node: &Value, cfg: &AudioConfig, states: &mut KindStates)
    ensures
        final(states).playback == (old(states).playback || node_is_playback(node_of(*node), *cfg)),
        final(states).call == (old(states).call || node_is_call(node_of(*node), *cfg)),
{
    let read = read_node(node);
    let one = classify_stream(&read, cfg);
    if one.playback {
        states.playback = true;
    }
    if one.call {
        states.call = true;
    }
}

/// Whether some entry is running playback.
pub open spec fn any_playback(nodes: Seq<Value>, cfg: AudioConfig) -> bool {
    exists|i: int| 0 <= i < nodes.len() && node_is_playback(node_of(#[trigger] nodes[i]), cfg)
}

/// Whether some entry is a running call.
pub open spec fn any_call(nodes: Seq<Value>, cfg: AudioConfig) -> bool {
    exists|i: int| 0 <= i < nodes.len() && node_is_call(node_of(#[trigger] nodes[i]), cfg)
}

/// What a dump is classified as.
pub open spec fn classification(json: Seq<char>, bytes: nat, cfg: AudioConfig) -> Result<
    KindStates,
    ClassifyError,
> {
    if bytes > MAX_INPUT_LEN {
        Err(ClassifyError::TooLarge)
    } else {
        match json_parsed(json) {
            Some(root) => match json_items(root) {
                Some(nodes) => Ok(
                    KindStates { playback: any_playback(nodes, cfg), call: any_call(nodes, cfg) },
                ),
                None => Err(ClassifyError::Json),
            },
            None => Err(ClassifyError::Json),
        }
    }
}

/// Classify the entries of a dump.
pub fn classify_nodes(nodes: &Vec<Value>, cfg: &AudioConfig) -> (states: KindStates)
    ensures
        states.playback == any_playback(nodes@, *cfg),
        states.call == any_call(nodes@, *cfg),
{
    let mut states = KindStates::default();
    let mut i: usize = 0;
    while i < nodes.len()
        invariant
            i <= nodes@.len(),
            states.playback == (exists|j: int|
                0 <= j < i && node_is_playback(node_of(#[trigger] nodes@[j]), *cfg)),
            states.call == (exists|j: int|
                0 <= j < i && node_is_call(node_of(#[trigger] nodes@[j]), *cfg)),
        decreases nodes@.len() - i,
    {
        let ghost before = states;
        classify_node(&nodes[i], cfg, &mut states);
        proof {
            let n = nodes@[i as int];
            if before.playback {
                let j = choose|j: int|
                    0 <= j < i && node_is_playback(node_of(#[trigger] nodes@[j]), *cfg);
                assert(0 <= j < i + 1 && node_is_playback(node_of(nodes@[j]), *cfg));
            }
            if before.call {
                let j = choose|j: int|
                    0 <= j < i && node_is_call(node_of(#[trigger] nodes@[j]), *cfg);
                assert(0 <= j < i + 1 && node_is_call(node_of(nodes@[j]), *cfg));
            }
        }
        i = i + 1;
    }
    states
}

/// Classify a `pw-dump` dump. Only an oversized dump and one that is not a JSON
/// array are errors; odd entries are not.
pub fn classify(json: &str, cfg: &AudioConfig) -> (res: Result<KindStates, ClassifyError>)
    ensures
        res == classification(json@, text::byte_len(json@), *cfg),
{
    if json.len() > MAX_INPUT_LEN {
        return Err(ClassifyError::TooLarge);
    }
    match parse_json(json) {
        Some(root) => match root.as_array() {
            Some(nodes) => Ok(classify_nodes(nodes, cfg)),
            None => Err(ClassifyError::Json),
        },
        None => Err(ClassifyError::Json),
    }
}

// ── one probe ────────────────────────────────────────────────────────────

/// A program to run and its arguments.
pub struct ProbeCommand {
    pub program: String,
    pub args: Vec<String>,
}

/// The first word of the configured command is the program, the others are its
/// arguments; there is nothing to run where it has no word.
pub fn probe_command(command: &str) -> (res: Option<ProbeCommand>)
    ensures
        match res {
            Some(c) => text::words(command@) == seq![c.program@] + text::texts(c.args@),
            None => text::words(command@).len() == 0,
        },
{
    let mut words = split_words(command);
    let ghost all = words@;
    if words.len() == 0 {
        assert(text::texts(all).len() == 0);
        return None;
    }
    let program = words.remove(0);
    assert(text::texts(all) =~= seq![program@] + text::texts(words@));
    Some(ProbeCommand { program, args: words })
}

/// Whether so much output has been read that reading stops.
pub fn output_too_large(read: usize) -> (res: bool)
    ensures
        res == (read > MAX_INPUT_LEN),
{
    read > MAX_INPUT_LEN
}

/// How one probe process ended.
pub enum TickBody {
    /// There was nothing to run, or it could not be run.
    NotSpawned,
    /// It was still running after a poll interval.
    Overran,
    /// It wrote too much.
    Oversized,
    /// Its end could not be awaited.
    WaitErr,
    /// It exited.
    Exited { success: bool, output: String },
}

/// Why a probe failed.
#[derive(Clone, Copy, PartialEq, Eq, Debug, Structural)]
pub enum FailureKind {
    SpawnFailed,
    TimedOut,
    NonZeroExit,
    TooLarge,
}

/// The outcome of one probe.
pub enum TickOutcome {
    Success(String),
    Failure(FailureKind),
}

/// The outcome of one probe, and whether the process is still to be killed and
/// reaped.
pub struct TickEnd {
    pub outcome: TickOutcome,
    pub kill_child: bool,
}

/// Conclude one probe.
pub fn run_tick(body: TickBody) -> (end: TickEnd)
    ensures
        end.kill_child == (body is Overran || body is Oversized),
        end.outcome == (match body {
            TickBody::NotSpawned => TickOutcome::Failure(FailureKind::SpawnFailed),
            TickBody::Overran => TickOutcome::Failure(FailureKind::TimedOut),
            TickBody::Oversized => TickOutcome::Failure(FailureKind::TooLarge),
            TickBody::WaitErr => TickOutcome::Failure(FailureKind::TimedOut),
            TickBody::Exited { success, output } => if success {
                TickOutcome::Success(output)
            } else {
                TickOutcome::Failure(FailureKind::NonZeroExit)
            },
        }),
{
    match body {
        TickBody::NotSpawned => TickEnd {
            outcome: TickOutcome::Failure(FailureKind::SpawnFailed),
            kill_child: false,
        },
        TickBody::Overran => TickEnd {
            outcome: TickOutcome::Failure(FailureKind::TimedOut),
            kill_child: true,
        },
        TickBody::Oversized => TickEnd {
            outcome: TickOutcome::Failure(FailureKind::TooLarge),
            kill_child: true,
        },
        TickBody::WaitErr => TickEnd {
            outcome: TickOutcome::Failure(FailureKind::TimedOut),
            kill_child: false,
        },
        TickBody::Exited { success, output } => {
            if success {
                TickEnd { outcome: TickOutcome::Success(output), kill_child: false }
            } else {
                TickEnd {
                    outcome: TickOutcome::Failure(FailureKind::NonZeroExit),
                    kill_child: false,
                }
            }
        },
    }
}

// ── publication ──────────────────────────────────────────────────────────

/// A rule that declares audio inhibitors.
pub struct AudioRule {
    pub rule: String,
    pub kinds: Vec<InhibitorKind>,
}

/// An inhibitor edge for one rule.
pub struct Update {
    pub rule: String,
    pub kind: InhibitorKind,
    pub inhibited: bool,
}

/// The mathematical content of an [`Update`].
pub struct UpdateModel {
    pub rule: Seq<char>,
    pub kind: InhibitorKind,
    pub inhibited: bool,
}

impl View for Update {
    type V = UpdateModel;

    open spec fn view(&self) -> UpdateModel {
        UpdateModel { rule: self.rule@, kind: self.kind, inhibited: self.inhibited }
    }
}

/// The rule and inhibitor that an update is about.
pub open spec fn update_key(u: UpdateModel) -> (Seq<char>, InhibitorKind) {
    (u.rule, u.kind)
}

/// What has last been delivered per rule and inhibitor.
pub struct LastSent {
    entries: Vec<Update>,
}

/// The deliveries that a list of updates stands for.
spec fn deliveries(entries: Seq<Update>) -> Seq<((Seq<char>, InhibitorKind), bool)> {
    entries.map_values(|u: Update| (update_key(u@), u.inhibited))
}

impl View for LastSent {
    type V = Map<(Seq<char>, InhibitorKind), bool>;

    closed spec fn view(&self) -> Map<(Seq<char>, InhibitorKind), bool> {
        seqs::assoc(deliveries(self.entries@))
    }
}

impl LastSent {
    /// No rule and inhibitor occurs twice.
    pub closed spec fn well_formed(&self) -> bool {
        seqs::keys_distinct(deliveries(self.entries@))
    }

    /// Nothing has been delivered yet.
    pub fn new() -> (res: Self)
        ensures
            res.well_formed(),
            res@ == Map::<(Seq<char>, InhibitorKind), bool>::empty(),
    {
        LastSent { entries: Vec::new() }
    }

    /// Where the entry about a rule and inhibitor stands.
    fn find(&self, rule: &str, kind: InhibitorKind) -> (res: Option<usize>)
        ensures
            match res {
                Some(i) => i < self.entries@.len() && update_key(self.entries@[i as int]@) == (
                    rule@,
                    kind,
                ),
                None => forall|i: int|
                    0 <= i < self.entries@.len() ==> update_key(#[trigger] self.entries@[i]@) != (
                        rule@,
                        kind,
                    ),
            },
    {
        let mut i: usize = 0;
        while i < self.entries.len()
            invariant
                i <= self.entries@.len(),
                forall|j: int|
                    0 <= j < i ==> update_key(#[trigger] self.entries@[j]@) != (rule@, kind),
            decreases self.entries@.len() - i,
        {
            if self.entries[i].kind == kind && same_text(self.entries[i].rule.as_str(), rule) {
                return Some(i);
            }
            i = i + 1;
        }
        None
    }

    /// What was last delivered for a rule and inhibitor.
    pub fn last(&self, rule: &str, kind: InhibitorKind) -> (res: Option<bool>)
        requires
            self.well_formed(),
        ensures
            res == (if self@.contains_key((rule@, kind)) {
                Some(self@[(rule@, kind)])
            } else {
                None
            }),
    {
        let ghost pairs = deliveries(self.entries@);
        proof {
            seqs::lemma_assoc(pairs);
        }
        match self.find(rule, kind) {
            Some(i) => {
                assert(pairs[i as int].0 == (rule@, kind));
                Some(self.entries[i].inhibited)
            },
            None => {
                proof {
                    if seqs::assoc(pairs).contains_key((rule@, kind)) {
                        let i = choose|i: int|
                            0 <= i < pairs.len() && (#[trigger] pairs[i]).0 == (rule@, kind);
                        assert(update_key(self.entries@[i]@) == (rule@, kind));
                    }
                }
                None
            },
        }
    }

    /// Note a delivery.
    pub fn record(&mut self, update: Update)
        requires
            old(self).well_formed(),
        ensures
            final(self).well_formed(),
            final(self)@ == old(self)@.insert(update_key(update@), update.inhibited),
    {
        let ghost before = deliveries(self.entries@);
        let ghost pair = (update_key(update@), update.inhibited);
        match self.find(update.rule.as_str(), update.kind) {
            Some(i) => {
                self.entries.set(i, update);
                proof {
                    assert(before[i as int].0 == pair.0);
                    assert(deliveries(self.entries@) =~= before.update(i as int, pair));
                    seqs::lemma_assoc_update(before, i as int, pair.1);
                }
            },
            None => {
                proof {
                    assert forall|i: int| 0 <= i < before.len() implies (#[trigger] before[i]).0
                        != pair.0 by {
                        assert(update_key(self.entries@[i]@) == before[i].0);
                    }
                    seqs::lemma_assoc_push(before, pair.0, pair.1);
                }
                self.entries.push(update);
                assert(deliveries(self.entries@) =~= before.push(pair));
            },
        }
    }
}

/// The update to deliver for a rule and inhibitor, if it is news.
pub fn publish(last_sent: &LastSent, rule: &str, kind: InhibitorKind, inhibited: bool) -> (res:
    Option<Update>)
    requires
        last_sent.well_formed(),
    ensures
        match res {
            Some(u) => u@ == (UpdateModel { rule: rule@, kind, inhibited }) && !known(
                last_sent@,
                u@,
            ),
            None => known(last_sent@, UpdateModel { rule: rule@, kind, inhibited }),
        },
{
    match last_sent.last(rule, kind) {
        Some(b) => {
            if b == inhibited {
                return None;
            }
        },
        None => {},
    }
    Some(Update { rule: rule.to_owned(), kind, inhibited })
}

/// Whether an update repeats what was last delivered.
pub open spec fn known(sent: Map<(Seq<char>, InhibitorKind), bool>, u: UpdateModel) -> bool {
    sent.contains_key(update_key(u)) && sent[update_key(u)] == u.inhibited
}

/// The inhibitor and value that an edge publishes; nothing for the breaker.
pub open spec fn edge_value(t: AudioTransition) -> Option<(InhibitorKind, bool)> {
    match t {
        AudioTransition::Assert(k) => Some((k, true)),
        AudioTransition::Deassert(k) => Some((k, false)),
        _ => None,
    }
}

/// The update that an edge of `kind` means for one rule, if it declares it.
pub open spec fn rule_update(kind: InhibitorKind, inhibited: bool) -> spec_fn(AudioRule) -> Option<
    UpdateModel,
> {
    |r: AudioRule|
        if r.kinds@.contains(kind) {
            Some(UpdateModel { rule: r.rule@, kind, inhibited })
        } else {
            None
        }
}

/// The updates that a list of edges means: edge by edge, rule by rule.
pub open spec fn updates_for(rules: Seq<AudioRule>, edges: Seq<AudioTransition>) -> Seq<UpdateModel>
    decreases edges.len(),
{
    if edges.len() == 0 {
        Seq::empty()
    } else {
        updates_for(rules, edges.drop_last()) + match edge_value(edges.last()) {
            Some((kind, inhibited)) => rules.filter_map(rule_update(kind, inhibited)),
            None => Seq::empty(),
        }
    }
}

/// The contents of a list of updates.
pub open spec fn update_models(v: Seq<Update>) -> Seq<UpdateModel> {
    v.map_values(|u: Update| u@)
}

fn declares(rule: &AudioRule, kind: InhibitorKind) -> (res: bool)
    ensures
        res == rule.kinds@.contains(kind),
{
    let mut i: usize = 0;
    while i < rule.kinds.len()
        invariant
            i <= rule.kinds@.len(),
            forall|j: int| 0 <= j < i ==> rule.kinds@[j] != kind,
        decreases rule.kinds@.len() - i,
    {
        if rule.kinds[i] == kind {
            return true;
        }
        i = i + 1;
    }
    false
}

fn push_edge_updates(
    out: &mut Vec<Update>,
    rules: &Vec<AudioRule>,
    kind: InhibitorKind,
    inhibited: bool,
)
    ensures
        update_models(final(out)@) == update_models(old(out)@) + rules@.filter_map(
            rule_update(kind, inhibited),
        ),
{
    let ghost f = rule_update(kind, inhibited);
    let ghost start = update_models(out@);
    let mut i: usize = 0;
    assert(rules@.take(0) =~= Seq::<AudioRule>::empty());
    assert(start + Seq::<UpdateModel>::empty() =~= start);
    while i < rules.len()
        invariant
            i <= rules@.len(),
            f == rule_update(kind, inhibited),
            update_models(out@) == start + rules@.take(i as int).filter_map(f),
        decreases rules@.len() - i,
    {
        let ghost before = out@;
        proof {
            seqs::lemma_filter_map_step(rules@, i as int, f);
        }
        if declares(&rules[i], kind) {
            out.push(Update { rule: rules[i].rule.clone(), kind, inhibited });
            assert(update_models(out@) =~= update_models(before).push(out@.last()@));
            assert(update_models(out@) =~= start + rules@.take(i + 1).filter_map(f));
        }
        i = i + 1;
    }
    proof {
        seqs::lemma_take_all(rules@);
    }
}

/// The updates that the policy's edges mean for the rules, in publishing order.
pub fn publish_transitions(rules: &Vec<AudioRule>, transitions: &Vec<AudioTransition>) -> (out: Vec<
    Update,
>)
    ensures
        update_models(out@) == updates_for(rules@, transitions@),
{
    let mut out: Vec<Update> = Vec::new();
    let mut i: usize = 0;
    assert(transitions@.take(0) =~= Seq::<AudioTransition>::empty());
    assert(update_models(out@) =~= Seq::<UpdateModel>::empty());
    while i < transitions.len()
        invariant
            i <= transitions@.len(),
            update_models(out@) == updates_for(rules@, transitions@.take(i as int)),
        decreases transitions@.len() - i,
    {
        proof {
            let longer = transitions@.take(i + 1);
            assert(longer.drop_last() =~= transitions@.take(i as int));
            assert(longer.last() == transitions@[i as int]);
            let shorter = updates_for(rules@, transitions@.take(i as int));
            assert(shorter + Seq::<UpdateModel>::empty() =~= shorter);
        }
        match transitions[i] {
            AudioTransition::Assert(kind) => {
                push_edge_updates(&mut out, rules, kind, true);
            },
            AudioTransition::Deassert(kind) => {
                push_edge_updates(&mut out, rules, kind, false);
            },
            _ => {},
        }
        i = i + 1;
    }
    assert(transitions@.take(i as int) =~= transitions@);
    out
}

// ── the poll loop ────────────────────────────────────────────────────────

/// The poll loop's state between probes.
#[derive(Clone, Copy, PartialEq, Eq, Debug, Structural)]
pub struct AudioLoop {
    pub policy: AudioPolicy,
    pub warned_unreachable: bool,
    pub warned_parse_failed: bool,
}

/// What the poll loop does after a probe or in place of one.
pub struct LoopStep {
    /// The edges to publish.
    pub transitions: Vec<AudioTransition>,
    /// How long to sleep before the next round.
    pub sleep: Nanos,
    pub log_disabled: bool,
    pub log_parse_failed: bool,
    pub log_overrun: bool,
    pub log_unreachable: bool,
}

/// What a probe's outcome means to the policy.
pub open spec fn probe_outcome(outcome: TickOutcome, cfg: AudioConfig) -> ProbeOutcome {
    match outcome {
        TickOutcome::Success(json) => match classification(
            json@,
            text::byte_len(json@),
            cfg,
        ) {
            Ok(s) => ProbeOutcome::Classified { playback: s.playback, call: s.call },
            Err(_) => ProbeOutcome::Failure,
        },
        TickOutcome::Failure(_) => ProbeOutcome::Failure,
    }
}

impl AudioLoop {
    /// The loop of a fresh generation.
    pub fn new(min_active: Nanos) -> (res: Self)
        ensures
            res.policy == (AudioPolicy {
                min_active,
                breaker_cooldown: BREAKER_RETRY_INTERVAL,
                playback: audio_policy::silent(),
                call: audio_policy::silent(),
                consecutive_failures: 0,
                startup_grace: true,
                breaker_open: false,
                cooldown_until: None,
            }),
            !res.warned_unreachable,
            !res.warned_parse_failed,
    {
        AudioLoop {
            policy: AudioPolicy::new(min_active, BREAKER_RETRY_INTERVAL),
            warned_unreachable: false,
            warned_parse_failed: false,
        }
    }

    /// Whether so many probe processes are left that no further one is run.
    pub fn at_reap_cap(unreaped: usize) -> (res: bool)
        ensures
            res == (unreaped >= REAP_CAP),
    {
        unreaped >= REAP_CAP
    }

    /// A round without a probe, at the reap cap: sleep through the cooldown.
    pub fn on_reap_cap(&mut self, now: Nanos) -> (step: LoopStep)
        ensures
            final(self).policy == audio_policy::policy_after(
                old(self).policy,
                now,
                ProbeOutcome::ReapCapReached,
            ),
            final(self).warned_unreachable == old(self).warned_unreachable,
            final(self).warned_parse_failed == old(self).warned_parse_failed,
            step.transitions@ == audio_policy::edges(
                old(self).policy,
                now,
                ProbeOutcome::ReapCapReached,
            ),
            step.sleep == clock::elapsed(now, clock::later(now, old(self).policy.breaker_cooldown)),
            step.log_disabled == !old(self).policy.breaker_open,
            !step.log_parse_failed && !step.log_overrun && !step.log_unreachable,
    {
        let was_open = self.policy.breaker_open;
        let transitions = self.policy.step(now, ProbeOutcome::ReapCapReached);
        let sleep: Nanos = match self.policy.cooldown_remaining(now) {
            Some(d) => d,
            None => BREAKER_RETRY_INTERVAL,
        };
        LoopStep {
            transitions,
            sleep,
            log_disabled: !was_open,
            log_parse_failed: false,
            log_overrun: false,
            log_unreachable: false,
        }
    }

    /// A round with a probe. Each kind of trouble is logged once until a probe
    /// succeeds; an overrun is logged every time.
    pub fn on_tick(&mut self, now: Nanos, outcome: &TickOutcome, cfg: &AudioConfig) -> (step:
        LoopStep)
        ensures
            ({
                let seen = probe_outcome(*outcome, *cfg);
                let parse_failed = outcome is Success && seen is Failure;
                let unreachable = outcome is Failure;
                &&& final(self).policy == audio_policy::policy_after(old(self).policy, now, seen)
                &&& step.transitions@ == audio_policy::edges(old(self).policy, now, seen)
                &&& step.sleep == cfg.poll_interval
                &&& !step.log_disabled
                &&& step.log_parse_failed == (parse_failed && !old(self).warned_parse_failed)
                &&& step.log_unreachable == (unreachable && !old(self).warned_unreachable)
                &&& step.log_overrun == (*outcome == TickOutcome::Failure(FailureKind::TimedOut))
                &&& final(self).warned_parse_failed == (parse_failed || (unreachable && old(
                    self,
                ).warned_parse_failed))
                &&& final(self).warned_unreachable == (unreachable || (parse_failed && old(
                    self,
                ).warned_unreachable))
            }),
    {
        let mut log_parse_failed = false;
        let mut log_overrun = false;
        let mut log_unreachable = false;
        let seen = match outcome {
            TickOutcome::Success(json) => match classify(json.as_str(), cfg) {
                Ok(states) => {
                    self.warned_unreachable = false;
                    self.warned_parse_failed = false;
                    ProbeOutcome::Classified { playback: states.playback, call: states.call }
                },
                Err(_) => {
                    if !self.warned_parse_failed {
                        log_parse_failed = true;
                        self.warned_parse_failed = true;
                    }
                    ProbeOutcome::Failure
                },
            },
            TickOutcome::Failure(kind) => {
                if *kind == FailureKind::TimedOut {
                    log_overrun = true;
                }
                if !self.warned_unreachable {
                    log_unreachable = true;
                    self.warned_unreachable = true;
                }
                ProbeOutcome::Failure
            },
        };
        let transitions = self.policy.step(now, seen);
        LoopStep {
            transitions,
            sleep: cfg.poll_interval,
            log_disabled: false,
            log_parse_failed,
            log_overrun,
            log_unreachable,
        }
    }
}

// ── laws ─────────────────────────────────────────────────────────────────

/// An oversized dump is refused whatever it holds, and a text that is not JSON
/// is refused whatever the config.
pub proof fn law_classify_errors(json: Seq<char>, bytes: nat, cfg: AudioConfig)
    ensures
        classification(json, bytes, cfg) == Err::<KindStates, ClassifyError>(
            ClassifyError::TooLarge,
        ) <==> bytes > MAX_INPUT_LEN,
        bytes <= MAX_INPUT_LEN && json_parsed(json) is None ==> classification(json, bytes, cfg)
            == Err::<KindStates, ClassifyError>(ClassifyError::Json),
{
}

/// No node is both a call and playback.
pub proof fn law_call_excludes_playback(n: NodeModel, cfg: AudioConfig)
    ensures
        !(node_is_call(n, cfg) && node_is_playback(n, cfg)),
{
}

/// An entry that is no running audio stream changes nothing.
pub proof fn law_other_entries_are_ignored(
    nodes: Seq<Value>,
    extra: Value,
    cfg: AudioConfig,
)
    requires
        stream_direction(node_of(extra)) is None || !stream_runs(node_of(extra)),
    ensures
        any_playback(nodes.push(extra), cfg) == any_playback(nodes, cfg),
        any_call(nodes.push(extra), cfg) == any_call(nodes, cfg),
{
    let longer = nodes.push(extra);
    if any_playback(nodes, cfg) {
        let i = choose|i: int|
            0 <= i < nodes.len() && node_is_playback(node_of(#[trigger] nodes[i]), cfg);
        assert(longer[i] == nodes[i]);
    }
    if any_playback(longer, cfg) {
        let i = choose|i: int|
            0 <= i < longer.len() && node_is_playback(node_of(#[trigger] longer[i]), cfg);
        assert(longer[i] == nodes[i]);
    }
    if any_call(nodes, cfg) {
        let i = choose|i: int|
            0 <= i < nodes.len() && node_is_call(node_of(#[trigger] nodes[i]), cfg);
        assert(longer[i] == nodes[i]);
    }
    if any_call(longer, cfg) {
        let i = choose|i: int|
            0 <= i < longer.len() && node_is_call(node_of(#[trigger] longer[i]), cfg);
        assert(longer[i] == nodes[i]);
    }
}

/// A delivered update is not delivered again until its value changes, and the
/// deliveries about other rules and inhibitors stand.
pub proof fn law_delivery_is_not_repeated(
    sent: Map<(Seq<char>, InhibitorKind), bool>,
    u: UpdateModel,
    other: UpdateModel,
)
    ensures
        ({
            let after = sent.insert(update_key(u), u.inhibited);
            &&& known(after, u)
            &&& !known(after, UpdateModel { inhibited: !u.inhibited, ..u })
            &&& update_key(other) != update_key(u) ==> known(after, other) == known(sent, other)
        }),
{
}

/// Whether a value has this text as its member of that key.
pub open spec fn says(v: Value, key: Seq<char>, text: Seq<char>) -> bool {
    json_member(v, key) matches Some(m) && json_text(m) == Some(text)
}

/// The role of a stream's node: nothing where none is said.
pub open spec fn plays_as(props: Value, role: Seq<char>) -> bool {
    match json_member(props, "media.role"@) {
        Some(m) => match json_text(m) {
            Some(r) => role == r,
            None => role.len() == 0,
        },
        None => role.len() == 0,
    }
}

/// An output stream that runs is playback if its role is allowed and not one of
/// calls, and a call if its role is one of calls; and so says the classification
/// of any dump that it stands in.
pub proof fn law_running_output_is_classified(
    json: Seq<char>,
    bytes: nat,
    cfg: AudioConfig,
    root: Value,
    nodes: Seq<Value>,
    k: int,
    info: Value,
    props: Value,
    role: Seq<char>,
)
    requires
        bytes <= 4_194_304,
        json_parsed(json) == Some(root),
        json_items(root) == Some(nodes),
        0 <= k < nodes.len(),
        says(nodes[k], "type"@, "PipeWire:Interface:Node"@),
        json_member(nodes[k], "info"@) == Some(info),
        json_member(info, "props"@) == Some(props),
        says(props, "media.class"@, "Stream/Output/Audio"@),
        !says(info, "state"@, "idle"@),
        !says(info, "state"@, "suspended"@),
        plays_as(props, role),
    ensures
        classification(json, bytes, cfg) is Ok,
        (exists|i: int| 0 <= i < cfg.call_roles@.len() && (#[trigger] cfg.call_roles@[i])@ == role)
            ==> classification(json, bytes, cfg)->Ok_0.call,
        (forall|i: int| 0 <= i < cfg.call_roles@.len() ==> (#[trigger] cfg.call_roles@[i])@ != role)
            && cfg.playback_roles is None ==> classification(json, bytes, cfg)->Ok_0.playback,
        cfg.playback_roles matches Some(allowed) ==> (forall|i: int|
            0 <= i < cfg.call_roles@.len() ==> (#[trigger] cfg.call_roles@[i])@ != role) && (
        exists|i: int| 0 <= i < allowed@.len() && (#[trigger] allowed@[i])@ == role)
            ==> classification(json, bytes, cfg)->Ok_0.playback,
{
    reveal_strlit("Stream/Input/Audio");
    reveal_strlit("Stream/Output/Audio");
    assert("Stream/Input/Audio"@.len() != "Stream/Output/Audio"@.len());
    let n = node_of(nodes[k]);
    assert(stream_role(n) =~= role);
    lemma_roles(cfg.call_roles@, role);
    if let Some(allowed) = cfg.playback_roles {
        lemma_roles(allowed@, role);
    }
}

proof fn lemma_roles(roles: Seq<String>, role: Seq<char>)
    ensures
        text::texts(roles).contains(role) <==> exists|i: int|
            0 <= i < roles.len() && (#[trigger] roles[i])@ == role,
{
    let t = text::texts(roles);
    if t.contains(role) {
        let i = choose|i: int| 0 <= i < t.len() && t[i] == role;
        assert(roles[i]@ == role);
    }
    if exists|i: int| 0 <= i < roles.len() && (#[trigger] roles[i])@ == role {
        let i = choose|i: int| 0 <= i < roles.len() && (#[trigger] roles[i])@ == role;
        assert(t[i] == role);
    }
}

/// An input stream that runs is a call if its role is one of calls, or if every
/// capture counts as one; and so says the classification of any dump that it
/// stands in.
pub proof fn law_running_input_is_a_call(
    json: Seq<char>,
    bytes: nat,
    cfg: AudioConfig,
    root: Value,
    nodes: Seq<Value>,
    k: int,
    info: Value,
    props: Value,
    role: Seq<char>,
)
    requires
        bytes <= 4_194_304,
        json_parsed(json) == Some(root),
        json_items(root) == Some(nodes),
        0 <= k < nodes.len(),
        says(nodes[k], "type"@, "PipeWire:Interface:Node"@),
        json_member(nodes[k], "info"@) == Some(info),
        json_member(info, "props"@) == Some(props),
        says(props, "media.class"@, "Stream/Input/Audio"@),
        !says(info, "state"@, "idle"@),
        !says(info, "state"@, "suspended"@),
        plays_as(props, role),
        cfg.capture_is_call || exists|i: int|
            0 <= i < cfg.call_roles@.len() && (#[trigger] cfg.call_roles@[i])@ == role,
    ensures
        classification(json, bytes, cfg) is Ok,
        classification(json, bytes, cfg)->Ok_0.call,
{
    let n = node_of(nodes[k]);
    assert(stream_role(n) =~= role);
    lemma_roles(cfg.call_roles@, role);
}

/// Nothing is classified as playing or calling for want of a node that does: each
/// comes from an audio stream of the dump that runs, playback from an output.
pub proof fn law_classification_has_its_node(
    json: Seq<char>,
    bytes: nat,
    cfg: AudioConfig,
    nodes: Seq<Value>,
)
    requires
        classification(json, bytes, cfg) is Ok,
        json_items(json_parsed(json)->0) == Some(nodes),
    ensures
        classification(json, bytes, cfg)->Ok_0.playback ==> exists|k: int|
            0 <= k < nodes.len() && runs_as(#[trigger] nodes[k], "Stream/Output/Audio"@),
        classification(json, bytes, cfg)->Ok_0.call ==> exists|k: int|
            0 <= k < nodes.len() && (runs_as(#[trigger] nodes[k], "Stream/Output/Audio"@)
                || runs_as(nodes[k], "Stream/Input/Audio"@)),
        classification(json, bytes, cfg)->Ok_0.call && cfg.call_roles@.len() == 0
            ==> cfg.capture_is_call && exists|k: int|
            0 <= k < nodes.len() && runs_as(#[trigger] nodes[k], "Stream/Input/Audio"@),
{
    let res = classification(json, bytes, cfg)->Ok_0;
    if res.playback {
        let k = choose|k: int|
            0 <= k < nodes.len() && node_is_playback(node_of(#[trigger] nodes[k]), cfg);
        assert(runs_as(nodes[k], "Stream/Output/Audio"@));
    }
    if res.call {
        let k = choose|k: int|
            0 <= k < nodes.len() && node_is_call(node_of(#[trigger] nodes[k]), cfg);
        assert(runs_as(nodes[k], "Stream/Output/Audio"@) || runs_as(
            nodes[k],
            "Stream/Input/Audio"@,
        ));
        lemma_roles(cfg.call_roles@, stream_role(node_of(nodes[k])));
    }
}

/// Whether a value is a node of this media class that runs.
pub open spec fn runs_as(v: Value, class: Seq<char>) -> bool {
    &&& says(v, "type"@, "PipeWire:Interface:Node"@)
    &&& json_member(v, "info"@) matches Some(info)
    &&& !says(info, "state"@, "idle"@) && !says(info, "state"@, "suspended"@)
    &&& json_member(info, "props"@) matches Some(props)
    &&& says(props, "media.class"@, class)
}

/// What is playback and what is a call, of what is known of a node.
pub proof fn law_streams_are_told_apart(n: NodeModel, cfg: AudioConfig)
    ensures
        ({
            let role = match n.media_role {
                Some(r) => r,
                None => Seq::<char>::empty(),
            };
            let node = n.node_type == Some("PipeWire:Interface:Node"@);
            let runs = n.state != Some("idle"@) && n.state != Some("suspended"@);
            let output = n.media_class == Some("Stream/Output/Audio"@);
            let input = n.media_class == Some("Stream/Input/Audio"@);
            let calls = exists|i: int|
                0 <= i < cfg.call_roles@.len() && (#[trigger] cfg.call_roles@[i])@ == role;
            &&& node_is_call(n, cfg) <==> node && runs && ((output && calls) || (input && (calls
                || cfg.capture_is_call)))
            &&& cfg.playback_roles is None ==> (node_is_playback(n, cfg) <==> node && runs
                && output && !calls)
            &&& cfg.playback_roles matches Some(allowed) ==> (node_is_playback(n, cfg) <==> node
                && runs && output && !calls && exists|i: int|
                0 <= i < allowed@.len() && (#[trigger] allowed@[i])@ == role)
        }),
{
    reveal_strlit("Stream/Input/Audio");
    reveal_strlit("Stream/Output/Audio");
    assert("Stream/Input/Audio"@.len() != "Stream/Output/Audio"@.len());
    lemma_roles(cfg.call_roles@, stream_role(n));
    if let Some(allowed) = cfg.playback_roles {
        lemma_roles(allowed@, stream_role(n));
    }
}

/// A dump is classified exactly if it is not over four mebibytes and is a JSON
/// array.
pub proof fn law_dump_is_a_short_array(json: Seq<char>, bytes: nat, cfg: AudioConfig)
    ensures
        classification(json, bytes, cfg) is Ok <==> bytes <= 4_194_304 && json_parsed(json) is Some
            && json_items(json_parsed(json)->0) is Some,
        bytes > 4_194_304 ==> classification(json, bytes, cfg) == Err::<KindStates, ClassifyError>(
            ClassifyError::TooLarge,
        ),
        bytes <= 4_194_304 && classification(json, bytes, cfg) is Err ==> classification(
            json,
            bytes,
            cfg,
        ) == Err::<KindStates, ClassifyError>(ClassifyError::Json),
{
}

/// An edge of a kind updates every rule that has the kind, and no other, to what
/// the edge says; what the breaker does updates nobody. Updates come in the order
/// of the edges.
pub proof fn law_edges_update_the_rules_that_ask(
    rules: Seq<AudioRule>,
    edges: Seq<AudioTransition>,
    edge: AudioTransition,
    kind: InhibitorKind,
    u: UpdateModel,
)
    ensures
        updates_for(rules, Seq::empty()).len() == 0,
        ({
            let n = updates_for(rules, edges).len() as int;
            let all = updates_for(rules, edges.push(edge));
            let new = all.skip(n);
            &&& n <= all.len()
            &&& all.take(n) == updates_for(rules, edges)
            &&& edge == AudioTransition::Assert(kind) ==> (new.contains(u) <==> u.kind == kind
                && u.inhibited && exists|i: int|
                0 <= i < rules.len() && (#[trigger] rules[i]).rule@ == u.rule
                    && rules[i].kinds@.contains(kind))
            &&& edge == AudioTransition::Deassert(kind) ==> (new.contains(u) <==> u.kind == kind
                && !u.inhibited && exists|i: int|
                0 <= i < rules.len() && (#[trigger] rules[i]).rule@ == u.rule
                    && rules[i].kinds@.contains(kind))
            &&& !(edge is Assert || edge is Deassert) ==> new.len() == 0
        }),
{
    let before = updates_for(rules, edges);
    let n = before.len() as int;
    let all = updates_for(rules, edges.push(edge));
    assert(edges.push(edge).drop_last() =~= edges);
    assert(edges.push(edge).last() == edge);
    assert(all.take(n) =~= before);
    if let Some((k, inhibited)) = edge_value(edge) {
        let made = rules.filter_map(rule_update(k, inhibited));
        assert(all.skip(n) =~= made);
        seqs::lemma_filter_map_members(rules, rule_update(k, inhibited), u);
        if made.contains(u) {
            let i = choose|i: int|
                0 <= i < rules.len() && rule_update(k, inhibited)(#[trigger] rules[i]) == Some(u);
            assert(rules[i].rule@ == u.rule && rules[i].kinds@.contains(k));
        }
        if u.kind == k && u.inhibited == inhibited && exists|i: int|
            0 <= i < rules.len() && (#[trigger] rules[i]).rule@ == u.rule
                && rules[i].kinds@.contains(k) {
            let i = choose|i: int|
                0 <= i < rules.len() && (#[trigger] rules[i]).rule@ == u.rule
                    && rules[i].kinds@.contains(k);
            assert(rule_update(k, inhibited)(rules[i]) == Some(u));
        }
    } else {
        assert(all.skip(n) =~= Seq::<UpdateModel>::empty());
    }
}

/// An update is known exactly if the last one of its rule and kind said the same.
pub proof fn law_known_updates_were_sent_last(
    sent: Map<(Seq<char>, InhibitorKind), bool>,
    u: UpdateModel,
)
    ensures
        known(sent, u) <==> sent.contains_key((u.rule, u.kind)) && sent[(u.rule, u.kind)]
            == u.inhibited,
{
}

/// A probe counts as its dump is classified, and as failed where the dump cannot
/// be or where there is none.
pub proof fn law_probe_counts_as_its_dump(outcome: TickOutcome, cfg: AudioConfig)
    ensures
        outcome is Failure ==> probe_outcome(outcome, cfg) == ProbeOutcome::Failure,
        outcome matches TickOutcome::Success(json) ==> {
            let c = classification(json@, text::byte_len(json@), cfg);
            &&& c is Err ==> probe_outcome(outcome, cfg) == ProbeOutcome::Failure
            &&& c is Ok ==> probe_outcome(outcome, cfg) == (ProbeOutcome::Classified {
                playback: c->Ok_0.playback,
                call: c->Ok_0.call,
            })
        },
{
}

/// A child that overran or said too much is killed and counts as failed; of those
/// that ended only one that succeeded is listened to.
pub proof fn law_only_a_child_that_succeeds_is_heard(body: TickBody, end: TickEnd)
    requires
        call_ensures(run_tick, (body,), end),
    ensures
        end.kill_child <==> body is Overran || body is Oversized,
        end.outcome is Success <==> (body matches TickBody::Exited { success, .. } && success),
        body matches TickBody::Exited { success, output } ==> success ==> end.outcome
            == TickOutcome::Success(output),
        body is Overran || body is WaitErr ==> end.outcome == TickOutcome::Failure(
            FailureKind::TimedOut,
        ),
        body is NotSpawned ==> end.outcome == TickOutcome::Failure(FailureKind::SpawnFailed),
        body is Oversized ==> end.outcome == TickOutcome::Failure(FailureKind::TooLarge),
{
}

/// Output is too large past four mebibytes, and eight children that were not
/// reaped are as many as there may be.
pub proof fn law_probe_limits(read: usize, large: bool, unreaped: usize, full: bool)
    requires
        call_ensures(output_too_large, (read,), large),
        call_ensures(AudioLoop::at_reap_cap, (unreaped,), full),
    ensures
        large <==> read > 4_194_304,
        full <==> unreaped >= 8,
{
}

/// Nodes and updates are seen with all that they hold.
pub proof fn law_nodes_are_seen_whole(n: PwNode, u: Update)
    ensures
        n.node_type is Some <==> n@.node_type is Some,
        n.node_type matches Some(t) ==> n@.node_type == Some(t@),
        n.media_class is Some <==> n@.media_class is Some,
        n.media_class matches Some(t) ==> n@.media_class == Some(t@),
        n.media_role is Some <==> n@.media_role is Some,
        n.media_role matches Some(t) ==> n@.media_role == Some(t@),
        n.state is Some <==> n@.state is Some,
        n.state matches Some(t) ==> n@.state == Some(t@),
        u@ == (UpdateModel { rule: u.rule@, kind: u.kind, inhibited: u.inhibited }),
{
}

/// A list of updates is seen one for one.
pub proof fn law_updates_are_seen_one_for_one(v: Seq<Update>, i: int)
    ensures
        update_models(v).len() == v.len(),
        0 <= i < v.len() ==> update_models(v)[i] == v[i]@,
{
}

} // verus!
