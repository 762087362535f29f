//! The configuration as far as assembling a generation depends on it.

use vstd::prelude::*;

use crate::clock::Nanos;

verus! {

/// How a display is blanked.
#[derive(Clone, Copy, PartialEq, Eq, Debug, Structural)]
pub enum BlankMode {
    PowerOff,
    ScreenOffAudioOn,
    BrightnessZero,
}

/// The name of a blank mode.
pub open spec fn mode_name(m: BlankMode) -> Seq<char> {
    match m {
        BlankMode::PowerOff => "PowerOff"@,
        BlankMode::ScreenOffAudioOn => "ScreenOffAudioOn"@,
        BlankMode::BrightnessZero => "BrightnessZero"@,
    }
}

impl BlankMode {
    /// The name of the mode.
    pub fn name(&self) -> (res: &'static str)
        ensures
            res@ == mode_name(*self),
    {
        match *self {
            BlankMode::PowerOff => "PowerOff",
            BlankMode::ScreenOffAudioOn => "ScreenOffAudioOn",
            BlankMode::BrightnessZero => "BrightnessZero",
        }
    }
}

/// What a stage of a display's ladder does.
#[derive(Clone, Copy, PartialEq, Eq, Debug, Structural)]
pub enum StageKind {
    Controller(BlankMode),
    RenderBlack,
    RenderScreensaver,
}

/// Whether a stage draws an overlay.
pub open spec fn is_render(k: StageKind) -> bool {
    k == StageKind::RenderBlack || k == StageKind::RenderScreensaver
}

/// One stage of a display's ladder.
#[derive(Clone, Copy, PartialEq, Eq, Debug, Structural)]
pub struct LadderStage {
    pub kind: StageKind,
    pub dwell: Option<Nanos>,
}

/// How an image is fitted to a display.
#[derive(Clone, Copy, PartialEq, Eq, Debug, Structural)]
pub enum ScaleMode {
    Fill,
    Fit,
    Stretch,
}

/// How one image follows another.
#[derive(Clone, Copy, PartialEq, Eq, Debug, Structural)]
pub enum TransitionMode {
    Cut,
    Crossfade,
}

/// What a configured choice was read as.
#[derive(Clone, Copy, PartialEq, Eq, Debug, Structural)]
pub enum Choice<T> {
    /// The key is not there.
    Absent,
    /// The key holds a text that names nothing.
    Unknown,
    Known(T),
}

/// A display's screensaver table.
#[derive(PartialEq, Eq, Debug)]
pub struct ScreensaverConfig {
    /// The files and directories that are shown.
    pub source: Vec<String>,
    pub audio: bool,
    pub scale_mode: Choice<ScaleMode>,
    pub transition: Choice<TransitionMode>,
    pub transition_duration: Option<Nanos>,
    pub shift_px: u32,
    pub shift_interval: Nanos,
}

/// Whether a display belongs to this instance alone.
#[derive(Clone, Copy, PartialEq, Eq, Debug, Structural)]
pub enum DisplayScope {
    Private,
    Shared,
}

/// A display.
#[derive(PartialEq, Eq, Debug)]
pub struct DisplayConfig {
    pub name: String,
    pub scope: DisplayScope,
    /// The mode that the first controller stage asks for.
    pub primary_blank_mode: BlankMode,
    pub degraded_mode: Option<BlankMode>,
    pub ladder: Vec<LadderStage>,
    pub screensaver: Option<ScreensaverConfig>,
    /// The connector that overlays are drawn on.
    pub output: Option<String>,
}

/// A rule.
#[derive(PartialEq, Eq, Debug)]
pub struct RuleConfig {
    pub id: String,
    pub zone: String,
    pub displays: Vec<String>,
    pub grace_period: Nanos,
    pub min_blank_time: Nanos,
    pub min_wake_time: Nanos,
    pub inhibitors: Vec<String>,
    pub activity_idle_threshold: Nanos,
    pub activity_poll_interval: Nanos,
    pub wake_retries: u32,
    pub wake_retry_backoff: Nanos,
    pub wake_retry_interval: Nanos,
}

/// A sensor. `kind` is the tag under which the sensor registry knows its type.
#[derive(PartialEq, Eq, Debug)]
pub struct SensorConfig {
    pub id: String,
    pub kind: u32,
    pub hold_time: Nanos,
    pub stale_timeout: Option<Nanos>,
}

/// Every blank mode goes by its own name, and the stages that draw are those that
/// draw black or a screensaver.
pub proof fn law_modes_and_stages_are_told_apart(m: BlankMode)
    ensures
        mode_name(BlankMode::PowerOff) == "PowerOff"@,
        mode_name(BlankMode::ScreenOffAudioOn) == "ScreenOffAudioOn"@,
        mode_name(BlankMode::BrightnessZero) == "BrightnessZero"@,
        is_render(StageKind::RenderBlack),
        is_render(StageKind::RenderScreensaver),
        !is_render(StageKind::Controller(m)),
{
}

} // verus!
