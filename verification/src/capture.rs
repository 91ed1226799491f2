//! Capture-side decisions.
//!
//! One capture task runs per output stream of the child. The task's I/O —
//! reading the stream, pushing into the queue, sleeping — is driven outside;
//! what happens after each outcome is decided here: a complete line is
//! delivered, a not-yet-available stream and a full queue are retried after a
//! fixed delay, undecodable output is dropped, and a closed stream or a gone
//! consumer ends the task cleanly.

use vstd::prelude::*;

verus! {

/// Fixed delay, in milliseconds, before a capture task retries after a
/// transient condition.
pub const RETRY_MILLIS: u64 = 16;

/// What a capture task just observed.
pub enum CaptureEvent {
    /// A complete line was read from the stream.
    LineRead(String),
    /// The stream is not available yet.
    StreamUnavailable,
    /// A chunk of output was not valid text.
    DecodeError,
    /// The stream closed: the child has exited.
    StreamClosed,
    /// The queue refused the line because it is at capacity.
    SinkFull,
    /// The queue refused the line because the consumer side is gone.
    SinkClosed,
}

/// What a capture task does next.
#[derive(Debug)]
pub enum CaptureAction {
    /// Push this line into the queue.
    Deliver(String),
    /// Wait `RETRY_MILLIS` and try again.
    RetryAfterDelay,
    /// Forget the unreadable output and keep capturing.
    DropLine,
    /// End this capture task cleanly.
    Finish,
}

/// Whether the capture task keeps running after an event.
#[derive(Clone, Copy, Debug, PartialEq, Eq, Structural)]
pub enum CaptureStatus {
    Running,
    Stopped,
}

/// The decision table of a capture task: a read line is delivered; transient
/// conditions — a stream not yet available, a full queue — are retried;
/// undecodable output is dropped; a closed stream or a gone consumer stops
/// the task, and nothing else does.
pub open spec fn capture_decision(ev: CaptureEvent) -> (CaptureStatus, CaptureAction) {
    match ev {
        CaptureEvent::LineRead(line) => (CaptureStatus::Running, CaptureAction::Deliver(line)),
        CaptureEvent::StreamUnavailable => (
            CaptureStatus::Running,
            CaptureAction::RetryAfterDelay,
        ),
        CaptureEvent::DecodeError => (CaptureStatus::Running, CaptureAction::DropLine),
        CaptureEvent::StreamClosed => (CaptureStatus::Stopped, CaptureAction::Finish),
        CaptureEvent::SinkFull => (CaptureStatus::Running, CaptureAction::RetryAfterDelay),
        CaptureEvent::SinkClosed => (CaptureStatus::Stopped, CaptureAction::Finish),
    }
}

/// Decide what a capture task does after one event.
pub fn capture_step(ev: CaptureEvent) -> (r: (CaptureStatus, CaptureAction))
    ensures
        r == capture_decision(ev),
{
    match ev {
        CaptureEvent::LineRead(line) => (CaptureStatus::Running, CaptureAction::Deliver(line)),
        CaptureEvent::StreamUnavailable => (
            CaptureStatus::Running,
            CaptureAction::RetryAfterDelay,
        ),
        CaptureEvent::DecodeError => (CaptureStatus::Running, CaptureAction::DropLine),
        CaptureEvent::StreamClosed => (CaptureStatus::Stopped, CaptureAction::Finish),
        CaptureEvent::SinkFull => (CaptureStatus::Running, CaptureAction::RetryAfterDelay),
        CaptureEvent::SinkClosed => (CaptureStatus::Stopped, CaptureAction::Finish),
    }
}

/// The launch parameters of the child process, as the command line supplies
/// them: the program name first, then the executable to run, its working
/// directory, and the arguments handed to it.
pub struct LaunchConfig {
    pub executable: String,
    pub working_dir: String,
    pub args: Vec<String>,
}

/// The command line is too short to name an executable and a working
/// directory: a fatal configuration error, reported before anything is
/// spawned.
#[derive(Clone, Copy, Debug, PartialEq, Eq, Structural)]
pub struct NotEnoughArguments;

impl LaunchConfig {
    /// Read the launch parameters from the command line: the executable and
    /// the working directory are required, everything after them goes to the
    /// child unchanged.
    pub fn from_args(argv: Vec<String>) -> (r: Result<LaunchConfig, NotEnoughArguments>)
        ensures
            r is Ok <==> argv.deep_view().len() >= 3,
            r matches Ok(c) ==> c.executable@ == argv.deep_view()[1] && c.working_dir@
                == argv.deep_view()[2] && c.args.deep_view() == argv.deep_view().subrange(
                3,
                argv.deep_view().len() as int,
            ),
    {
        if argv.len() < 3 {
            return Err(NotEnoughArguments);
        }
        let executable = argv[1].clone();
        let working_dir = argv[2].clone();
        let n = argv.len();
        let mut args: Vec<String> = Vec::new();
        let mut i: usize = 3;
        proof {
            assert(args.deep_view() =~= argv.deep_view().subrange(3, 3));
        }
        while i < n
            invariant
                3 <= i <= n,
                n == argv.deep_view().len(),
                args.deep_view() == argv.deep_view().subrange(3, i as int),
            decreases n - i,
        {
            let ghost prev: Seq<Seq<char>> = args.deep_view();
            args.push(argv[i].clone());
            proof {
                assert(args.deep_view() =~= prev.push(argv.deep_view()[i as int]));
                assert(args.deep_view() =~= argv.deep_view().subrange(3, i + 1));
            }
            i = i + 1;
        }
        Ok(LaunchConfig { executable, working_dir, args })
    }
}

} // verus!
