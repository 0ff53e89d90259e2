use vstd::prelude::*;
use vstd::utf8::*;

verus! {

/// The outcome of one executed command.
pub struct Result {
    /// The process's exit code; `None` where a signal ended it.
    pub exit_code: Option<i32>,
    /// Whether the process exited normally with code zero.
    pub success: bool,
    pub stdout: String,
    pub stderr: String,
}

/// The mathematical value of a [`Result`].
pub ghost struct ResultModel {
    pub exit_code: Option<i32>,
    pub success: bool,
    pub stdout: Seq<char>,
    pub stderr: Seq<char>,
}

impl View for Result {
    type V = ResultModel;

    open spec fn view(&self) -> ResultModel {
        ResultModel {
            exit_code: self.exit_code,
            success: self.success,
            stdout: self.stdout@,
            stderr: self.stderr@,
        }
    }
}

impl ResultModel {
    /// Success is claimed only for a normal exit with code zero.
    pub open spec fn wf(self) -> bool {
        self.success ==> self.exit_code == Some(0i32)
    }
}

impl Result {
    pub open spec fn wf(&self) -> bool {
        self@.wf()
    }

    /// The result of a process that exited with `exit_code` and wrote the
    /// given text.
    pub fn from_exit(exit_code: Option<i32>, stdout: String, stderr: String) -> (r: Result)
        ensures
            r.exit_code == exit_code,
            r.success == (exit_code == Some(0i32)),
            r.stdout@ == stdout@,
            r.stderr@ == stderr@,
            r.wf(),
    {
        let success = match exit_code {
            Some(c) => c == 0,
            None => false,
        };
        Result { exit_code, success, stdout, stderr }
    }
}

/// A fault of the execution environment itself: the command never ran, or
/// what it wrote cannot be read as text. Distinct from a command that ran
/// and failed, which is a [`Result`] with `success == false`.
#[derive(Clone, Copy, Debug, PartialEq, Eq, Structural)]
pub enum ExecError {
    /// The process could not be started.
    SpawnFailure,
    /// The process's output was not valid UTF-8.
    DecodeFailure,
}

/// What running a command came to: a result, or a fault of the environment.
pub type Outcome = std::result::Result<Result, ExecError>;

/// The mathematical value of an [`Outcome`].
pub open spec fn outcome_view(o: Outcome) -> std::result::Result<ResultModel, ExecError> {
    match o {
        Ok(r) => Ok(r@),
        Err(e) => Err(e),
    }
}

/// Relies on `String::from_utf8`: it accepts exactly the valid UTF-8 byte
/// sequences and decodes them.
#[verifier::external_body]
fn decode_text(bytes: Vec<u8>) -> (r: Option<String>)
    ensures
        r.is_some() == valid_utf8(bytes@),
        r.is_some() ==> r.unwrap()@ == decode_utf8(bytes@),
{
    String::from_utf8(bytes).ok()
}

/// Turns what a finished process left (its exit code and the raw bytes of
/// its two output streams) into an [`Outcome`]: a [`Result`] when both
/// streams are valid UTF-8, `DecodeFailure` otherwise.
pub fn outcome_from_output(exit_code: Option<i32>, stdout: Vec<u8>, stderr: Vec<u8>) -> (r: Outcome)
    ensures
        r is Ok <==> (valid_utf8(stdout@) && valid_utf8(stderr@)),
        r is Err ==> r == Err::<Result, ExecError>(ExecError::DecodeFailure),
        r matches Ok(res) ==> res.exit_code == exit_code && res.success == (exit_code == Some(0i32))
            && res.stdout@ == decode_utf8(stdout@) && res.stderr@ == decode_utf8(stderr@),
{
    let out = decode_text(stdout);
    let err = decode_text(stderr);
    match (out, err) {
        (Some(o), Some(e)) => Ok(Result::from_exit(exit_code, o, e)),
        _ => Err(ExecError::DecodeFailure),
    }
}

/// Running a command on a remote host directly is not offered: remote
/// commands are `ssh` command lines run through a chain (see
/// [`crate::configure::ssh_command`]). This does nothing.
pub fn run_ssh_cmd(host: &str, command_str: &str) {
}

} // verus!
