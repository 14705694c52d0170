use vstd::prelude::*;

verus! {

/// Why the game process could not be started.
#[derive(Clone, Copy, Debug, PartialEq, Eq, Structural)]
pub enum SpawnError {
    /// A game process is already running.
    AlreadyRunning,
    /// The game executable could not be started.
    StartFailed,
    /// The started process gave no standard input.
    NoStdin,
    /// The started process gave no standard output.
    NoStdout,
}

/// What to do on a request to start the game.
#[derive(Clone, Copy, Debug, PartialEq, Eq, Structural)]
pub enum SpawnStep {
    /// Refuse the request with this error.
    Refuse(SpawnError),
    /// Launch the game executable in editor mode with piped input and output.
    Launch,
}

/// The answer to a request to start the game: refused while a process is
/// running, otherwise launch.
pub fn plan_spawn(running: bool) -> (r: SpawnStep)
    ensures
        r == (if running {
            SpawnStep::Refuse(SpawnError::AlreadyRunning)
        } else {
            SpawnStep::Launch
        }),
{
    if running {
        SpawnStep::Refuse(SpawnError::AlreadyRunning)
    } else {
        SpawnStep::Launch
    }
}

/// The outcome of a launch: the process counts as attached only when it
/// started and handed over both its standard input and output; otherwise the
/// first missing piece is the error.
pub fn finish_spawn(started: bool, has_stdin: bool, has_stdout: bool) -> (r: Result<(), SpawnError>)
    ensures
        r == (if !started {
            Err(SpawnError::StartFailed)
        } else if !has_stdin {
            Err(SpawnError::NoStdin)
        } else if !has_stdout {
            Err(SpawnError::NoStdout)
        } else {
            Ok::<(), SpawnError>(())
        }),
{
    if !started {
        Err(SpawnError::StartFailed)
    } else if !has_stdin {
        Err(SpawnError::NoStdin)
    } else if !has_stdout {
        Err(SpawnError::NoStdout)
    } else {
        Ok(())
    }
}

/// What the stdio transport does when a game process has started.
#[derive(Clone, Copy, Debug, PartialEq, Eq, Structural)]
pub enum TransportAction {
    /// A multiplexer is registered already: warn and keep it.
    AlreadyRegistered,
    /// Take the process's input and output, start a multiplexer over them,
    /// register it and announce that the transport is ready.
    Register,
    /// Standard input was taken by someone else: warn.
    StdinTaken,
    /// Standard output was taken by someone else: warn.
    StdoutTaken,
    /// Both were taken: warn.
    BothTaken,
}

/// The stdio transport's decision on a started game process: keep an
/// existing multiplexer, otherwise register one when both streams are still
/// available, otherwise report which are gone.
pub fn on_process_started(multiplexer_registered: bool, has_stdin: bool, has_stdout: bool) -> (r: TransportAction)
    ensures
        r == (if multiplexer_registered {
            TransportAction::AlreadyRegistered
        } else if has_stdin && has_stdout {
            TransportAction::Register
        } else if !has_stdin && has_stdout {
            TransportAction::StdinTaken
        } else if has_stdin && !has_stdout {
            TransportAction::StdoutTaken
        } else {
            TransportAction::BothTaken
        }),
{
    if multiplexer_registered {
        TransportAction::AlreadyRegistered
    } else {
        match (has_stdin, has_stdout) {
            (true, true) => TransportAction::Register,
            (false, true) => TransportAction::StdinTaken,
            (true, false) => TransportAction::StdoutTaken,
            (false, false) => TransportAction::BothTaken,
        }
    }
}

} // verus!
