//! The intake task's decision rule: what reading one item from the external
//! feed obliges the engine to do.

use vstd::prelude::*;

verus! {

/// What the intake task observed on the feed.
#[derive(Clone, Copy, Debug, PartialEq, Eq, Structural)]
pub enum IntakeEvent {
    /// A line arrived and decoded into a raw notification.
    Decoded,
    /// A line arrived but could not be decoded: a protocol violation.
    Malformed,
    /// The read itself failed; the feed may still yield more lines.
    ReadError,
    /// The feed is exhausted.
    EndOfInput,
}

/// What the intake task must do next.
#[derive(Clone, Copy, Debug, PartialEq, Eq, Structural)]
pub enum IntakeAction {
    /// Record the arrival time and append the notification to the buffer.
    AppendAndMark,
    /// Stop the whole engine, non-gracefully: a malformed feed is an
    /// unrecoverable breach of the upstream contract.
    AbortProtocolViolation,
    /// Report the read failure and keep reading.
    LogAndContinue,
    /// Stop the intake task cleanly.
    StopCleanly,
}

/// The intake state machine: each observation maps to exactly one action; in
/// particular, a malformed line always aborts the engine and never reaches
/// the buffer.
pub fn intake_step(ev: IntakeEvent) -> (r: IntakeAction)
    ensures
        r == match ev {
            IntakeEvent::Decoded => IntakeAction::AppendAndMark,
            IntakeEvent::Malformed => IntakeAction::AbortProtocolViolation,
            IntakeEvent::ReadError => IntakeAction::LogAndContinue,
            IntakeEvent::EndOfInput => IntakeAction::StopCleanly,
        },
{
    match ev {
        IntakeEvent::Decoded => IntakeAction::AppendAndMark,
        IntakeEvent::Malformed => IntakeAction::AbortProtocolViolation,
        IntakeEvent::ReadError => IntakeAction::LogAndContinue,
        IntakeEvent::EndOfInput => IntakeAction::StopCleanly,
    }
}

} // verus!
