//! The request-facing side: which execution a request starts, and the reply it
//! gets.

use vstd::prelude::*;
use crate::artifact::{fresh_name, is_token};
use crate::process::{exit_outcome, exited_ok};
use crate::registry::{lemma_registered_wf, lookup, registered};
use crate::strategy::{outcome_view, start, Action, Execution, OutcomeView};

verus! {

/// A submission: the code to run.
pub struct CompileRequest {
    pub code: String,
}

/// The language tag of a submission.
pub struct Language {
    pub language: String,
}

/// The reply's JSON content: the submitted code echoed back, and the run's
/// output or failure description.
pub struct CompileResponse {
    pub output_code: String,
    pub output_run: String,
}

/// The body of a reply.
pub enum Body {
    Json(CompileResponse),
    Text(String),
}

/// An HTTP reply: status code and body.
pub struct Reply {
    pub status: u16,
    pub body: Body,
}

pub enum BodyView {
    Json { output_code: Seq<char>, output_run: Seq<char> },
    Text(Seq<char>),
}

pub struct ReplyView {
    pub status: u16,
    pub body: BodyView,
}

impl View for Reply {
    type V = ReplyView;

    open spec fn view(&self) -> ReplyView {
        ReplyView {
            status: self.status,
            body: match &self.body {
                Body::Json(r) => BodyView::Json {
                    output_code: r.output_code@,
                    output_run: r.output_run@,
                },
                Body::Text(t) => BodyView::Text(t@),
            },
        }
    }
}

pub const STATUS_OK: u16 = 200;

pub const STATUS_BAD_REQUEST: u16 = 400;

/// The echo of the submitted code in every reply.
pub open spec fn echo_of(code: Seq<char>) -> Seq<char> {
    "Received code: "@ + code
}

/// The reply to a run of `code` that succeeded (or not) with `message`.
pub open spec fn reply_of(success: bool, code: Seq<char>, message: Seq<char>) -> ReplyView {
    ReplyView {
        status: if success {
            STATUS_OK
        } else {
            STATUS_BAD_REQUEST
        },
        body: BodyView::Json { output_code: echo_of(code), output_run: message },
    }
}

/// The reply to a run of `code` that ended with `outcome`.
pub open spec fn outcome_reply(code: Seq<char>, outcome: OutcomeView) -> ReplyView {
    match outcome {
        Ok(out) => reply_of(true, code, out),
        Err(m) => reply_of(false, code, m),
    }
}

/// The reply to a request for a language that is not registered.
pub open spec fn unsupported_reply() -> ReplyView {
    ReplyView { status: STATUS_BAD_REQUEST, body: BodyView::Text("language not supported"@) }
}

/// Classification: a run whose last process exited with code zero gets a success
/// reply carrying that process's stdout; any other exit gets a client-error reply
/// whose run output is the process's stderr.
pub proof fn lemma_classification(
    code: Seq<char>,
    exit_code: Option<i32>,
    stdout: Seq<char>,
    stderr: Seq<char>,
)
    ensures
        exited_ok(exit_code) ==> outcome_reply(code, exit_outcome(exit_code, stdout, stderr))
            == reply_of(true, code, stdout),
        !exited_ok(exit_code) ==> outcome_reply(code, exit_outcome(exit_code, stdout, stderr))
            == reply_of(false, code, stderr),
        outcome_reply(code, exit_outcome(exit_code, stdout, stderr)).status == (if exited_ok(
            exit_code,
        ) {
            STATUS_OK
        } else {
            STATUS_BAD_REQUEST
        }),
{
}

/// The reply to a run of `code` that succeeded (or not) with `message`.
pub fn create_http_response(success: bool, code: &str, message: String) -> (r: Reply)
    ensures
        r@ == reply_of(success, code@, message@),
{
    let response = CompileResponse {
        output_code: String::from_str("Received code: ").concat(code),
        output_run: message,
    };
    let status = if success {
        STATUS_OK
    } else {
        STATUS_BAD_REQUEST
    };
    Reply { status, body: Body::Json(response) }
}

/// The reply to a run of `code` that ended with `outcome`: success with the
/// output, or a client error with the failure description.
pub fn respond(code: &str, outcome: Result<String, String>) -> (r: Reply)
    ensures
        r@ == outcome_reply(code@, outcome_view(outcome)),
{
    match outcome {
        Ok(out) => create_http_response(true, code, out),
        Err(m) => create_http_response(false, code, m),
    }
}

/// The reply to a request for a language that is not registered.
pub fn unsupported() -> (r: Reply)
    ensures
        r@ == unsupported_reply(),
{
    Reply { status: STATUS_BAD_REQUEST, body: Body::Text(String::from_str("language not supported")) }
}

/// Starts the execution of `code` in `language`, with artifact name
/// `exec_name`; an unregistered language gets its reply at once and no action.
pub fn begin(language: &Language, code: &str, exec_name: &str) -> (r: Result<
    (Execution, Action),
    Reply,
>)
    ensures
        registered(language.language@) is None ==> r is Err && r->Err_0@ == unsupported_reply(),
        registered(language.language@) matches Some((s, ext)) ==> r is Ok && (
        r->Ok_0.0@,
        r->Ok_0.1@,
        ) == start(s, code@, exec_name@, ext),
{
    match lookup(language.language.as_str()) {
        None => Err(unsupported()),
        Some(reg) => {
            proof {
                lemma_registered_wf(language.language@);
            }
            Ok(reg.execution.execute(code, exec_name, reg.extension.as_str()))
        },
    }
}

/// Starts the execution of a request, under a freshly drawn artifact name.
pub fn run_code(req: &CompileRequest, language: &Language) -> (r: Result<(Execution, Action), Reply>)
    ensures
        registered(language.language@) is None ==> r is Err && r->Err_0@ == unsupported_reply(),
        registered(language.language@) matches Some((s, ext)) ==> r is Ok && exists|
            name: Seq<char>,
        |
            is_token(name) && (r->Ok_0.0@, r->Ok_0.1@) == start(s, req.code@, name, ext),
{
    let name = fresh_name();
    begin(language, req.code.as_str(), name.as_str())
}

} // verus!
