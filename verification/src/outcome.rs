use vstd::prelude::*;

verus! {

/// How the launched command's branch finished.
#[derive(PartialEq, Eq, Structural, Debug, Clone, Copy)]
pub enum CommandResult {
    /// The command terminated normally and produced an exit code.
    Exited { code: i32 },
    /// The command terminated without an obtainable exit code (for example,
    /// killed by a signal).
    NoExitCode,
    /// The command could not be spawned or awaited at all.
    LaunchFailed,
}

/// The reported outcome of a whole run, decided after both concurrent
/// branches (command execution and preloading) have completed. Releasing the
/// pinned regions is the caller's duty on every one of these outcomes.
#[derive(PartialEq, Eq, Structural, Debug, Clone, Copy)]
pub enum RunReport {
    /// Exit with the launched command's own exit code, propagated verbatim.
    /// `preload_failed` records whether background preloading failed
    /// independently; it never changes the reported code.
    Exit { code: i32, preload_failed: bool },
    /// The command terminated abnormally, so no exit code can be propagated.
    UnknownExitStatus,
    /// The command could not be launched.
    LaunchError,
}

/// Decide what a finished run reports. The command branch is evaluated
/// first and its outcome is authoritative: a command that produced an exit
/// code has that code propagated even when preloading failed independently
/// (the preload failure is then only noted, never allowed to turn a
/// completed launch into a failed run). This is the one fixed precedence
/// this library provides.
pub fn resolve_outcome(cmd: CommandResult, preload_failed: bool) -> (r: RunReport)
    ensures
        cmd matches CommandResult::Exited { code } ==> r == (RunReport::Exit {
            code,
            preload_failed,
        }),
        cmd is NoExitCode ==> r == RunReport::UnknownExitStatus,
        cmd is LaunchFailed ==> r == RunReport::LaunchError,
{
    match cmd {
        CommandResult::Exited { code } => RunReport::Exit { code, preload_failed },
        CommandResult::NoExitCode => RunReport::UnknownExitStatus,
        CommandResult::LaunchFailed => RunReport::LaunchError,
    }
}

} // verus!
