//! Classification of what an external process left behind.

use vstd::prelude::*;
use vstd::utf8::{decode_utf8, valid_utf8};

verus! {

/// The step of an execution at which a failure came up outside the program's
/// own exit status.
#[derive(Clone, Copy, Debug, PartialEq, Eq, Structural)]
pub enum Stage {
    CreateTempfile,
    WriteTempfile,
    Spawn,
    ParseStdout,
    ParseStderr,
}

/// Text that introduces the description of a failure at `stage`.
pub open spec fn stage_prefix(stage: Stage) -> Seq<char> {
    match stage {
        Stage::CreateTempfile => "Error creating tempfile: "@,
        Stage::WriteTempfile => "Error writing to tempfile: "@,
        Stage::Spawn => "Error executing command: "@,
        Stage::ParseStdout => "Error parsing stdout: "@,
        Stage::ParseStderr => "Error parsing stderr: "@,
    }
}

/// A process finished successfully exactly when it exited with code zero.
pub open spec fn exited_ok(exit_code: Option<i32>) -> bool {
    exit_code == Some(0i32)
}

/// Outcome of a process whose kept stream decoded to text: its stdout when it
/// exited with code zero, else its stderr as the failure message.
pub open spec fn exit_outcome(exit_code: Option<i32>, stdout: Seq<char>, stderr: Seq<char>) -> Result<
    Seq<char>,
    Seq<char>,
> {
    if exited_ok(exit_code) {
        Ok(stdout)
    } else {
        Err(stderr)
    }
}

/// The stream that classification keeps: stdout after a successful exit, else
/// stderr.
pub open spec fn kept_stream(exit_code: Option<i32>, stdout: Seq<u8>, stderr: Seq<u8>) -> Seq<u8> {
    if exited_ok(exit_code) {
        stdout
    } else {
        stderr
    }
}

/// Relies on `String::from_utf8`: it succeeds exactly on valid UTF-8 and then
/// holds the characters that the bytes encode; the error's text describes the
/// first invalid sequence.
#[verifier::external_body]
fn decode_text(bytes: Vec<u8>) -> (r: Result<String, String>)
    ensures
        r is Ok <==> valid_utf8(bytes@),
        r is Ok ==> r->Ok_0@ == decode_utf8(bytes@),
{
    String::from_utf8(bytes).map_err(|e| e.to_string())
}

/// Message describing a failure at `stage`, followed by `detail`.
pub fn failure_message(stage: Stage, detail: &str) -> (r: String)
    ensures
        r@ == stage_prefix(stage) + detail@,
{
    let prefix = match stage {
        Stage::CreateTempfile => "Error creating tempfile: ",
        Stage::WriteTempfile => "Error writing to tempfile: ",
        Stage::Spawn => "Error executing command: ",
        Stage::ParseStdout => "Error parsing stdout: ",
        Stage::ParseStderr => "Error parsing stderr: ",
    };
    String::from_str(prefix).concat(detail)
}

/// Outcome of a process that could not be started.
pub fn spawn_failure(detail: &str) -> (r: Result<String, String>)
    ensures
        r is Err,
        r->Err_0@ == stage_prefix(Stage::Spawn) + detail@,
{
    Err(failure_message(Stage::Spawn, detail))
}

/// Classifies a finished process. Exit code zero gives its stdout, and a
/// non-zero exit (or none, when a signal ended it) gives its stderr as the
/// failure message; the other stream is discarded. A kept stream that is not
/// valid UTF-8 gives a decoding failure instead.
pub fn classify(exit_code: Option<i32>, stdout: Vec<u8>, stderr: Vec<u8>) -> (r: Result<
    String,
    String,
>)
    ensures
        valid_utf8(kept_stream(exit_code, stdout@, stderr@)) ==> (match r {
            Ok(s) => Ok(s@),
            Err(s) => Err(s@),
        }) == exit_outcome(exit_code, decode_utf8(stdout@), decode_utf8(stderr@)),
        exited_ok(exit_code) && !valid_utf8(stdout@) ==> r is Err && exists|d: Seq<char>|
            r->Err_0@ == stage_prefix(Stage::ParseStdout) + d,
        !exited_ok(exit_code) && !valid_utf8(stderr@) ==> r is Err && exists|d: Seq<char>|
            r->Err_0@ == stage_prefix(Stage::ParseStderr) + d,
{
    let success = match exit_code {
        Some(c) => c == 0,
        None => false,
    };
    if success {
        match decode_text(stdout) {
            Ok(text) => Ok(text),
            Err(e) => Err(failure_message(Stage::ParseStdout, e.as_str())),
        }
    } else {
        match decode_text(stderr) {
            Ok(text) => Err(text),
            Err(e) => Err(failure_message(Stage::ParseStderr, e.as_str())),
        }
    }
}

} // verus!
