use vstd::prelude::*;

verus! {

/// What can go wrong while a watcher is built or runs.
#[derive(Clone, Copy, Debug, PartialEq, Eq, Structural)]
pub enum WatcherError {
    /// The windowing session could not be established (fatal, at construction).
    SessionUnavailable,
    /// The window-management session ended; no further events will arrive.
    ProtocolTerminated,
    /// An event or report named a window that the registry does not hold.
    UnknownWindowReference,
    /// No window has been seen focused yet.
    NoActiveWindow,
    /// The focused window's id no longer has a record.
    DanglingWindowReference,
    /// The report collaborator failed to deliver a heartbeat.
    ReportFailure,
    /// The idle-time counter cannot be read (fatal, at construction).
    IdleCounterUnsupported,
}

} // verus!
