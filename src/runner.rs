use vstd::prelude::*;
use vstd::string::StringExecFns;

verus! {

/// A package-manager operation on one package. A downgrade is a pinned install.
#[derive(Clone, Debug)]
pub enum PackageOperation {
    Install { package: String, version: Option<String> },
    Uninstall { package: String },
    Upgrade { package: String },
    Downgrade { package: String, version: String },
}

/// The two output streams of the child process.
#[derive(Clone, Copy, Debug, PartialEq, Eq, Structural)]
pub enum Stream {
    Stdout,
    Stderr,
}

/// How an operation failed.
#[derive(Clone, Copy, Debug, PartialEq, Eq, Structural)]
pub enum OperationError {
    /// The process ended with a status other than success; `code` is none
    /// when it was ended by a signal.
    ProcessFailure { code: Option<i32> },
}

/// What the runner is told while an operation goes on.
#[derive(Clone, Debug)]
pub enum RunnerEvent {
    /// One line read from a stream.
    Line(Stream, String),
    /// A stream reached its end and its reader is done.
    Closed(Stream),
    /// The process exited, with its exit code when it has one.
    Exited(Option<i32>),
}

/// What the runner asks for in answer to an event.
#[derive(Debug)]
pub enum RunnerAction {
    /// Emit this log line to the caller.
    Emit(String),
    /// Nothing to do yet.
    Wait,
    /// The operation is over, with this result.
    Report(Result<String, OperationError>),
}

/// `package==version`.
pub open spec fn pinned(package: Seq<char>, version: Seq<char>) -> Seq<char> {
    package + "=="@ + version
}

/// The arguments given to the interpreter for an operation.
pub open spec fn operation_args(op: PackageOperation) -> Seq<Seq<char>> {
    match op {
        PackageOperation::Install { package, version } => match version {
            Some(v) => seq!["-m"@, "pip"@, "install"@, pinned(package@, v@)],
            None => seq!["-m"@, "pip"@, "install"@, package@],
        },
        PackageOperation::Uninstall { package } => seq!["-m"@, "pip"@, "uninstall"@, "-y"@, package@],
        PackageOperation::Upgrade { package } => seq!["-m"@, "pip"@, "install"@, "--upgrade"@, package@],
        PackageOperation::Downgrade { package, version } => seq![
            "-m"@,
            "pip"@,
            "install"@,
            pinned(package@, version@),
        ],
    }
}

fn pinned_exec(package: &String, version: &String) -> (r: String)
    ensures
        r@ == pinned(package@, version@),
{
    let mut s = package.clone();
    s.append("==");
    s.append(version.as_str());
    s
}

/// The arguments that run the package manager as a module for `op`.
pub fn pip_arguments(op: &PackageOperation) -> (r: Vec<String>)
    ensures
        r@.map_values(|s: String| s@) == operation_args(*op),
{
    let r = match op {
        PackageOperation::Install { package, version } => {
            let target = match version {
                Some(v) => pinned_exec(package, v),
                None => package.clone(),
            };
            vec!["-m".to_owned(), "pip".to_owned(), "install".to_owned(), target]
        },
        PackageOperation::Uninstall { package } => vec![
            "-m".to_owned(),
            "pip".to_owned(),
            "uninstall".to_owned(),
            "-y".to_owned(),
            package.clone(),
        ],
        PackageOperation::Upgrade { package } => vec![
            "-m".to_owned(),
            "pip".to_owned(),
            "install".to_owned(),
            "--upgrade".to_owned(),
            package.clone(),
        ],
        PackageOperation::Downgrade { package, version } => vec![
            "-m".to_owned(),
            "pip".to_owned(),
            "install".to_owned(),
            pinned_exec(package, version),
        ],
    };
    assert(r@.map_values(|s: String| s@) =~= operation_args(*op));
    r
}

/// A log line as emitted: error-stream lines carry a tag.
pub open spec fn tagged(stream: Stream, line: Seq<char>) -> Seq<char> {
    match stream {
        Stream::Stdout => line,
        Stream::Stderr => "[ERROR] "@ + line,
    }
}

/// The log line emitted for `line` read from `stream`.
pub fn log_line(stream: Stream, line: &str) -> (r: String)
    ensures
        r@ == tagged(stream, line@),
{
    match stream {
        Stream::Stdout => line.to_owned(),
        Stream::Stderr => {
            let mut s = "[ERROR] ".to_owned();
            s.append(line);
            s
        },
    }
}

/// The result of an operation whose process exited with `code`.
pub open spec fn outcome(code: Option<i32>) -> Result<Seq<char>, OperationError> {
    if code == Some(0i32) {
        Ok("Command completed successfully"@)
    } else {
        Err(OperationError::ProcessFailure { code })
    }
}

pub open spec fn result_view(r: Result<String, OperationError>) -> Result<Seq<char>, OperationError> {
    match r {
        Ok(s) => Ok(s@),
        Err(e) => Err(e),
    }
}

/// Success exactly when the exit code is zero; any other ending is a failure
/// that carries the code.
pub fn operation_result(code: Option<i32>) -> (r: Result<String, OperationError>)
    ensures
        result_view(r) == outcome(code),
{
    match code {
        Some(c) => if c == 0 {
            Ok("Command completed successfully".to_owned())
        } else {
            Err(OperationError::ProcessFailure { code })
        },
        None => Err(OperationError::ProcessFailure { code }),
    }
}

/// An operation succeeds exactly when its process exits with status zero;
/// any other ending is a failure that carries the status.
pub proof fn law_exit_status_decides(code: Option<i32>)
    ensures
        outcome(code) is Ok <==> code == Some(0i32),
        code != Some(0i32) ==> outcome(code) == Err::<Seq<char>, OperationError>(
            OperationError::ProcessFailure { code },
        ),
{
}

/// The supervision of one running operation: it passes log lines on while
/// the streams are drained and reports once, after the process has exited and
/// both streams are closed.
pub struct OperationRunner {
    pub stdout_open: bool,
    pub stderr_open: bool,
    pub exit: Option<Option<i32>>,
    pub reported: bool,
}

impl OperationRunner {
    /// Whether everything the operation will produce has arrived.
    pub open spec fn finished(&self) -> bool {
        !self.stdout_open && !self.stderr_open && self.exit is Some
    }

    /// The runner's invariant: a report comes only once all has arrived.
    pub open spec fn wf(&self) -> bool {
        self.reported ==> self.finished()
    }

    /// Whether lines from `s` are still being read.
    pub open spec fn is_open(&self, s: Stream) -> bool {
        match s {
            Stream::Stdout => self.stdout_open,
            Stream::Stderr => self.stderr_open,
        }
    }

    /// A runner for a process that was just spawned.
    pub fn new() -> (r: OperationRunner)
        ensures
            r.wf(),
            r.stdout_open && r.stderr_open && r.exit is None && !r.reported,
    {
        OperationRunner { stdout_open: true, stderr_open: true, exit: None, reported: false }
    }

    fn close(&mut self, s: Stream)
        ensures
            final(self).exit == old(self).exit,
            final(self).reported == old(self).reported,
            !final(self).is_open(s),
            forall|t: Stream| t != s ==> final(self).is_open(t) == old(self).is_open(t),
    {
        match s {
            Stream::Stdout => self.stdout_open = false,
            Stream::Stderr => self.stderr_open = false,
        }
    }

    fn finish_if_done(&mut self) -> (r: RunnerAction)
        requires
            !old(self).reported,
        ensures
            final(self).stdout_open == old(self).stdout_open,
            final(self).stderr_open == old(self).stderr_open,
            final(self).exit == old(self).exit,
            final(self).reported == old(self).finished(),
            old(self).finished() ==> (r matches RunnerAction::Report(res) && result_view(res)
                == outcome(old(self).exit->0)),
            !old(self).finished() ==> r is Wait,
    {
        if !self.stdout_open && !self.stderr_open {
            match self.exit {
                Some(code) => {
                    self.reported = true;
                    return RunnerAction::Report(operation_result(code));
                },
                None => {},
            }
        }
        RunnerAction::Wait
    }

    /// Takes one event and says what to do. A line from an open stream is
    /// emitted, tagged by its stream; the result is reported exactly once,
    /// as soon as the process has exited and both streams are closed, and
    /// nothing is emitted after it.
    pub fn step(&mut self, ev: RunnerEvent) -> (r: RunnerAction)
        requires
            old(self).wf(),
        ensures
            final(self).wf(),
            old(self).reported ==> r is Wait && *final(self) == *old(self),
            r matches RunnerAction::Report(res) ==> {
                &&& !old(self).reported
                &&& final(self).reported
                &&& final(self).finished()
                &&& result_view(res) == outcome(final(self).exit->0)
            },
            !old(self).reported ==> match ev {
                RunnerEvent::Line(s, text) => {
                    &&& *final(self) == *old(self)
                    &&& old(self).is_open(s) ==> (r matches RunnerAction::Emit(l) && l@ == tagged(
                        s,
                        text@,
                    ))
                    &&& !old(self).is_open(s) ==> r is Wait
                },
                RunnerEvent::Closed(s) => {
                    &&& !final(self).is_open(s)
                    &&& forall|t: Stream| t != s ==> final(self).is_open(t) == old(self).is_open(t)
                    &&& final(self).exit == old(self).exit
                    &&& final(self).reported == final(self).finished()
                    &&& !final(self).finished() ==> r is Wait
                },
                RunnerEvent::Exited(code) => {
                    &&& final(self).stdout_open == old(self).stdout_open
                    &&& final(self).stderr_open == old(self).stderr_open
                    &&& final(self).exit == Some(
                        match old(self).exit {
                            Some(c) => c,
                            None => code,
                        },
                    )
                    &&& final(self).reported == final(self).finished()
                    &&& !final(self).finished() ==> r is Wait
                },
            },
    {
        if self.reported {
            return RunnerAction::Wait;
        }
        match ev {
            RunnerEvent::Line(s, text) => {
                let open = match s {
                    Stream::Stdout => self.stdout_open,
                    Stream::Stderr => self.stderr_open,
                };
                if open {
                    RunnerAction::Emit(log_line(s, text.as_str()))
                } else {
                    RunnerAction::Wait
                }
            },
            RunnerEvent::Closed(s) => {
                self.close(s);
                self.finish_if_done()
            },
            RunnerEvent::Exited(code) => {
                if self.exit.is_none() {
                    self.exit = Some(code);
                }
                self.finish_if_done()
            },
        }
    }
}

} // verus!
