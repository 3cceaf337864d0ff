//! What can go wrong during an export, and what the export does about it.

use vstd::prelude::*;

verus! {

/// The failures of an export.
#[derive(Clone, Copy, Debug, PartialEq, Eq, Structural)]
pub enum ExportError {
    /// The payload of one item could not be generated or compressed.
    PerItemFailure,
    /// The container encoder or the raw sink failed to write.
    WriteFailure,
    /// Sole ownership of the encoder could not be reclaimed after the join.
    FinalizationRaceFailure,
    /// The item source could not produce its list.
    SourceFailure,
}

/// How an export goes on after a failure.
#[derive(Clone, Copy, Debug, PartialEq, Eq, Structural)]
pub enum Reaction {
    /// Leave the item out and go on with the others.
    SkipItem,
    /// Stop writing: the stream ends truncated.
    AbortStream,
    /// Leave the container without its directory rather than wait.
    SkipFinalization,
    /// Export an empty collection.
    EmptyExport,
}

/// The reaction that belongs to each failure.
pub open spec fn reaction_of(error: ExportError) -> Reaction {
    match error {
        ExportError::PerItemFailure => Reaction::SkipItem,
        ExportError::WriteFailure => Reaction::AbortStream,
        ExportError::FinalizationRaceFailure => Reaction::SkipFinalization,
        ExportError::SourceFailure => Reaction::EmptyExport,
    }
}

/// Decides how the export goes on after `error`. No failure is retried and
/// none reaches the client as anything but a shorter body.
pub fn reaction(error: ExportError) -> (how: Reaction)
    ensures
        how == reaction_of(error),
{
    match error {
        ExportError::PerItemFailure => Reaction::SkipItem,
        ExportError::WriteFailure => Reaction::AbortStream,
        ExportError::FinalizationRaceFailure => Reaction::SkipFinalization,
        ExportError::SourceFailure => Reaction::EmptyExport,
    }
}

} // verus!
