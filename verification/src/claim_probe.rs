//! What a display's controller chain can do for claims: the writability probe
//! and the direct fallback.

use vstd::prelude::*;

use crate::claim_runtime::{InputWritability, CLAIM_EVENTS, MAGIC_STANDBY};
use crate::text;
use crate::text::{contains_text, same_text};

verus! {

/// What a controller chain answers that cannot write inputs.
pub const WRITE_UNSUPPORTED: &'static str = "unsupported input-source write";

/// What follows the probe's read.
#[derive(Clone, Copy, PartialEq, Eq, Debug, Structural)]
pub enum WritabilityProbe {
    /// Write the code that was read back to the panel.
    WriteBack(u8),
    Done(InputWritability),
}

/// Go on from the probe's read of the current input. A read that was skipped or
/// failed, or that no controller serves, says nothing of writability.
pub fn sink_input_writable(read: &Result<Option<u8>, String>) -> (res: WritabilityProbe)
    ensures
        res == (match *read {
            Ok(Some(code)) => WritabilityProbe::WriteBack(code),
            _ => WritabilityProbe::Done(InputWritability::Unknown),
        }),
{
    match read {
        Ok(Some(code)) => WritabilityProbe::WriteBack(*code),
        _ => WritabilityProbe::Done(InputWritability::Unknown),
    }
}

/// Conclude from the probe's write. Only a chain that says so is incapable; any
/// other error may pass.
pub fn input_written_back(write: &Result<(), String>) -> (res: InputWritability)
    ensures
        res == (match *write {
            Ok(_) => InputWritability::Capable,
            Err(e) => if text::has_text(e@, WRITE_UNSUPPORTED@) {
                InputWritability::Incapable
            } else {
                InputWritability::Unknown
            },
        }),
{
    match write {
        Ok(_) => InputWritability::Capable,
        Err(e) => {
            if contains_text(e.as_str(), WRITE_UNSUPPORTED) {
                InputWritability::Incapable
            } else {
                InputWritability::Unknown
            }
        },
    }
}

/// Whether a display may be claimed, as far as can be told without asking the
/// panel: it has an identity that peers know it by.
pub fn sink_claim_capable(claim_identity: &Option<String>) -> (res: bool)
    ensures
        res == (*claim_identity is Some),
{
    claim_identity.is_some()
}

/// How a direct fallback ends.
#[derive(Clone, Copy, PartialEq, Eq, Debug, Structural)]
pub enum FallbackOutcome {
    /// The panel's input cannot be read.
    IdentityUnavailable,
    /// The panel is on this instance's input already.
    AlreadyOnTarget,
    /// The panel is in standby; somebody has to wake it first.
    Standby,
    /// The write failed.
    WriteFailed,
    /// The input was written.
    Wrote,
}

/// The line that the event log gets.
pub open spec fn fallback_text(o: FallbackOutcome) -> Seq<char> {
    match o {
        FallbackOutcome::IdentityUnavailable => "claim_failed:identity_unavailable"@,
        FallbackOutcome::AlreadyOnTarget => "claim_completed"@,
        FallbackOutcome::Standby => "claim_failed:standby"@,
        FallbackOutcome::WriteFailed => "claim_failed:write"@,
        FallbackOutcome::Wrote => "claim_fallback_direct:wrote"@,
    }
}

impl FallbackOutcome {
    /// The line that the event log gets.
    pub fn event(&self) -> (res: &'static str)
        ensures
            res@ == fallback_text(*self),
    {
        match *self {
            FallbackOutcome::IdentityUnavailable => "claim_failed:identity_unavailable",
            FallbackOutcome::AlreadyOnTarget => "claim_completed",
            FallbackOutcome::Standby => "claim_failed:standby",
            FallbackOutcome::WriteFailed => "claim_failed:write",
            FallbackOutcome::Wrote => "claim_fallback_direct:wrote",
        }
    }
}

/// What follows the fallback's read.
#[derive(Clone, Copy, PartialEq, Eq, Debug, Structural)]
pub enum FallbackStep {
    /// Write this code.
    Write(u8),
    Done(FallbackOutcome),
}

/// Go on from the fallback's read of the current input, `None` where there is
/// none to be had. A panel in standby is never written to.
pub fn run_direct_fallback(observed: Option<u8>, target: u8) -> (res: FallbackStep)
    ensures
        res == (match observed {
            None => FallbackStep::Done(FallbackOutcome::IdentityUnavailable),
            Some(code) => if code == target {
                FallbackStep::Done(FallbackOutcome::AlreadyOnTarget)
            } else if code == MAGIC_STANDBY {
                FallbackStep::Done(FallbackOutcome::Standby)
            } else {
                FallbackStep::Write(target)
            },
        }),
{
    match observed {
        None => FallbackStep::Done(FallbackOutcome::IdentityUnavailable),
        Some(code) => {
            if code == target {
                FallbackStep::Done(FallbackOutcome::AlreadyOnTarget)
            } else if code == MAGIC_STANDBY {
                FallbackStep::Done(FallbackOutcome::Standby)
            } else {
                FallbackStep::Write(target)
            }
        },
    }
}

/// Conclude from the fallback's write.
pub fn fallback_written(ok: bool) -> (res: FallbackOutcome)
    ensures
        res == (if ok {
            FallbackOutcome::Wrote
        } else {
            FallbackOutcome::WriteFailed
        }),
{
    if ok {
        FallbackOutcome::Wrote
    } else {
        FallbackOutcome::WriteFailed
    }
}

/// Whether a recorded event is one of the claim lifecycle.
pub fn is_lifecycle_event(name: &str) -> (res: bool)
    ensures
        res == (exists|i: int| 0 <= i < 13 && (#[trigger] CLAIM_EVENTS[i])@ == name@),
{
    let mut i: usize = 0;
    while i < 13
        invariant
            i <= 13,
            forall|k: int| 0 <= k < i ==> (#[trigger] CLAIM_EVENTS[k])@ != name@,
        decreases 13 - i,
    {
        if same_text(CLAIM_EVENTS[i], name) {
            assert(CLAIM_EVENTS[i as int]@ == name@);
            return true;
        }
        i = i + 1;
    }
    false
}

/// A panel that reports standby is written to by no fallback, whatever the
/// target.
pub proof fn law_standby_is_never_written(observed: Option<u8>, target: u8, res: FallbackStep)
    requires
        call_ensures(run_direct_fallback, (observed, target), res),
        observed == Some(MAGIC_STANDBY),
    ensures
        !(res is Write),
{
}

/// A fallback leaves alone a panel that cannot be read, is on the target already or
/// is in standby, and says which; to any other it writes the target.
pub proof fn law_fallback_writes_the_target(observed: Option<u8>, target: u8, res: FallbackStep)
    requires
        call_ensures(run_direct_fallback, (observed, target), res),
    ensures
        res matches FallbackStep::Write(code) ==> code == target,
        res is Write <==> observed is Some && observed != Some(target) && observed != Some(0u8),
        observed is None ==> res == FallbackStep::Done(FallbackOutcome::IdentityUnavailable),
        observed == Some(target) ==> res == FallbackStep::Done(FallbackOutcome::AlreadyOnTarget),
        observed == Some(0u8) && target != 0 ==> res == FallbackStep::Done(
            FallbackOutcome::Standby,
        ),
{
}

/// A fallback that writes ends as its write does.
pub proof fn law_fallback_ends_as_its_write(ok: bool, res: FallbackOutcome)
    requires
        call_ensures(fallback_written, (ok,), res),
    ensures
        ok ==> res == FallbackOutcome::Wrote,
        !ok ==> res == FallbackOutcome::WriteFailed,
{
}

/// The probe writes back what it read, so that the panel stays on its input, and
/// holds a chain for incapable only where it says so itself.
pub proof fn law_probe_writes_back_what_it_read(
    read: Result<Option<u8>, String>,
    next: WritabilityProbe,
    write: Result<(), String>,
    end: InputWritability,
)
    requires
        call_ensures(sink_input_writable, (&read,), next),
        call_ensures(input_written_back, (&write,), end),
    ensures
        next matches WritabilityProbe::WriteBack(code) ==> read == Ok::<Option<u8>, String>(
            Some(code),
        ),
        read matches Ok(Some(code)) ==> next == WritabilityProbe::WriteBack(code),
        read is Err || read == Ok::<Option<u8>, String>(None) ==> next == WritabilityProbe::Done(
            InputWritability::Unknown,
        ),
        write is Ok <==> end == InputWritability::Capable,
        end == InputWritability::Incapable <==> (write matches Err(e) && text::has_text(
            e@,
            "unsupported input-source write"@,
        )),
{
}

/// Every end of a fallback has its own line in the event log.
pub proof fn law_fallback_lines()
    ensures
        fallback_text(FallbackOutcome::IdentityUnavailable) == "claim_failed:identity_unavailable"@,
        fallback_text(FallbackOutcome::AlreadyOnTarget) == "claim_completed"@,
        fallback_text(FallbackOutcome::Standby) == "claim_failed:standby"@,
        fallback_text(FallbackOutcome::WriteFailed) == "claim_failed:write"@,
        fallback_text(FallbackOutcome::Wrote) == "claim_fallback_direct:wrote"@,
{
}

} // verus!
