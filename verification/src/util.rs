//! Steps of the flat boot scripts, and the variables of U-Boot
//!
//! Currently only works for U-Boot devices.

use vstd::prelude::*;
use vstd::string::*;
use vstd::utf8::*;

use crate::bytes::{utf8_fault_of, utf8_text};
use crate::error::{concat2, concat4, IoError};
use crate::system::{
    bytes_of, done_of, outcome, output_of, IoErrorView, Request, RequestView, Session, Stop, Transcript,
};
use crate::text::{list1, list2, same, split, split_of};

verus! {

pub const FW_PRINTENV: &'static str = "/usr/bin/fw_printenv";

pub const FW_SETENV: &'static str = "/usr/bin/fw_setenv";

/// Why a step failed.
#[derive(Debug)]
pub enum StepError<S = String> {
    Io(IoError<S>),
    /// An operation failed, and what it was for.
    Context { context: S, cause: IoError<S> },
    Message(S),
    /// A tool wrote what is no text, and why it is none.
    InvalidUtf8(S),
}

/// The failure of a step by view.
pub type StepErrorView = StepError<Seq<char>>;

/// How a step ended, by view.
pub type StepFlow<T> = Result<T, Stop<StepErrorView>>;

impl View for StepError {
    type V = StepErrorView;

    open spec fn view(&self) -> StepErrorView {
        match *self {
            StepError::Io(e) => StepError::Io(e@),
            StepError::Context { context, cause } => StepError::Context { context: context@, cause: cause@ },
            StepError::Message(m) => StepError::Message(m@),
            StepError::InvalidUtf8(fault) => StepError::InvalidUtf8(fault@),
        }
    }
}

impl StepError<Seq<char>> {
    pub open spec fn text(self) -> Seq<char> {
        match self {
            StepError::Io(e) => e.text(),
            StepError::Context { context, .. } => context,
            StepError::Message(m) => m,
            StepError::InvalidUtf8(fault) => fault,
        }
    }
}

impl StepError {
    pub fn to_string(&self) -> (s: String)
        ensures
            s@ == self@.text(),
    {
        match self {
            StepError::Io(e) => e.to_string(),
            StepError::Context { context, .. } => context.clone(),
            StepError::Message(m) => m.clone(),
            StepError::InvalidUtf8(fault) => fault.clone(),
        }
    }
}

/// One step of a script: an operation, and what it is for.
#[derive(Debug)]
pub struct Step {
    pub request: Request,
    pub context: Option<String>,
}

/// A step by view.
pub struct StepView {
    pub request: RequestView,
    pub context: Option<Seq<char>>,
}

impl View for Step {
    type V = StepView;

    open spec fn view(&self) -> StepView {
        StepView { request: self.request@, context: self.context.deep_view() }
    }
}

/// A script by view.
pub open spec fn script_view(steps: Seq<Step>) -> Seq<StepView> {
    steps.map_values(|s: Step| s@)
}

/// The failure of an operation that is for `context`.
pub open spec fn failure_of(context: Option<Seq<char>>, e: IoErrorView) -> StepErrorView {
    match context {
        Some(context) => StepError::Context { context, cause: e },
        None => StepError::Io(e),
    }
}

/// Performs the steps in order, up to the first that fails.
pub open spec fn script_ran(t: Transcript, steps: Seq<StepView>) -> (Transcript, StepFlow<()>)
    decreases steps.len(),
{
    if steps.len() == 0 {
        (t, Ok(()))
    } else {
        let t1 = t.ask(steps[0].request);
        match t.next() {
            None => (t1, Err(Stop::Pending)),
            Some(reply) => match done_of(reply) {
                Err(e) => (t1, Err(Stop::Failed(failure_of(steps[0].context, e)))),
                Ok(_) => script_ran(t1, steps.drop_first()),
            },
        }
    }
}

/// Performs the steps in order, up to the first that fails.
pub fn run_script(steps: Vec<Step>, sys: &mut Session) -> (r: Result<(), Stop<StepError>>)
    ensures
        (final(sys)@, outcome(r)) == script_ran(old(sys)@, script_view(steps@)),
{
    let ghost whole = script_ran(sys@, script_view(steps@));
    let mut left = steps;
    while left.len() > 0
        invariant
            script_ran(sys@, script_view(left@)) == whole,
            whole == script_ran(old(sys)@, script_view(steps@)),
        decreases left.len(),
    {
        let ghost before = left@;
        let Step { request, context } = left.remove(0);
        assert(script_view(left@) =~= script_view(before).drop_first());
        assert(script_view(before)[0] == before[0]@);
        match sys.perform(request) {
            None => {
                return Err(Stop::Pending);
            },
            Some(Err(cause)) => {
                return Err(
                    Stop::Failed(
                        match context {
                            Some(context) => StepError::Context { context, cause },
                            None => StepError::Io(cause),
                        },
                    ),
                );
            },
            Some(Ok(())) => {},
        }
    }
    Ok(())
}

/// A step with the given context.
pub fn step_for(request: Request, context: &str) -> (r: Step)
    ensures
        r@ == (StepView { request: request@, context: Some(context@) }),
{
    Step { request, context: Some(context.to_owned()) }
}

/// The request that creates a directory, which is also what it is for.
pub open spec fn dir_step(path: Seq<char>) -> StepView {
    StepView { request: Request::CreateDir(path), context: Some(path) }
}

pub fn step_dir(path: &str) -> (r: Step)
    ensures
        r@ == dir_step(path@),
{
    step_for(Request::CreateDir(path.to_owned()), path)
}

/// The exit code of a tool.
pub open spec fn tool_code(t: Transcript, program: Seq<char>, args: Seq<Seq<char>>) -> (
    Transcript,
    StepFlow<Option<i32>>,
) {
    (
        t.ask(Request::Run { program, args }),
        match t.next() {
            None => Err(Stop::Pending),
            Some(reply) => match output_of(reply) {
                Err(e) => Err(Stop::Failed(StepError::Io(e))),
                Ok(out) => Ok(out.code),
            },
        },
    )
}

/// Runs a tool to its end.
pub fn run_tool(program: &str, args: Vec<String>, sys: &mut Session) -> (r: Result<Option<i32>, Stop<StepError>>)
    ensures
        (final(sys)@, outcome(r)) == tool_code(old(sys)@, program@, args.deep_view()),
{
    match sys.run(Request::Run { program: program.to_owned(), args }) {
        None => Err(Stop::Pending),
        Some(Err(e)) => Err(Stop::Failed(StepError::Io(e))),
        Some(Ok(out)) => Ok(out.code),
    }
}

/// The value in what `fw_printenv` wrote; a line without a value counts as no value.
pub open spec fn printed_value(key: Seq<char>, stdout: Seq<u8>) -> Result<Option<Seq<char>>, StepErrorView> {
    if !valid_utf8(stdout) {
        Err(StepError::InvalidUtf8(utf8_fault_of(stdout)))
    } else {
        let parts = split_of(decode_utf8(stdout), '=');
        if parts.len() <= 1 {
            Err(StepError::Message("failed to parse value from "@ + key))
        } else if parts[1] == "\n"@ {
            Ok(None)
        } else {
            Ok(Some(parts[1]))
        }
    }
}

/// The value in what `fw_printenv` wrote. The value ends before a second equals sign, and a
/// line break at its end stays.
pub fn parse_printed(key: &str, stdout: Vec<u8>) -> (r: Result<Option<String>, StepError>)
    ensures
        match r {
            Ok(v) => printed_value(key@, stdout@) == Ok::<Option<Seq<char>>, StepErrorView>(v.deep_view()),
            Err(e) => printed_value(key@, stdout@) == Err::<Option<Seq<char>>, StepErrorView>(e@),
        },
{
    let text = match utf8_text(stdout) {
        Err(fault) => {
            return Err(StepError::InvalidUtf8(fault));
        },
        Ok(text) => text,
    };
    let parts = split(text.as_str(), '=');
    let ghost all = split_of(text@, '=');
    assert(parts.deep_view() == all);
    if parts.len() <= 1 {
        return Err(StepError::Message(concat2("failed to parse value from ", key)));
    }
    assert(all[1] == parts@[1]@);
    if same(parts[1].as_str(), "\n") {
        return Ok(None);
    }
    Ok(Some(parts[1].clone()))
}

/// Reads a variable.
pub open spec fn uboot_read(t: Transcript, key: Seq<char>) -> (Transcript, StepFlow<Option<Seq<char>>>) {
    (
        t.ask(Request::Pipe { program: FW_PRINTENV@, args: seq![key], input: Seq::empty() }),
        match t.next() {
            None => Err(Stop::Pending),
            Some(reply) => match bytes_of(reply) {
                Err(_) => Err(Stop::Failed(StepError::Message("fw_printenv error"@))),
                Ok((code, stdout)) => if code == Some(0i32) {
                    match printed_value(key, stdout) {
                        Ok(v) => Ok(v),
                        Err(e) => Err(Stop::Failed(e)),
                    }
                } else {
                    Err(Stop::Failed(StepError::Message("failed to get "@ + key)))
                },
            },
        },
    )
}

pub fn get_uboot_env(key: &str, sys: &mut Session) -> (r: Result<Option<String>, Stop<StepError>>)
    ensures
        final(sys)@ == uboot_read(old(sys)@, key@).0,
        match r {
            Ok(v) => uboot_read(old(sys)@, key@).1 == StepFlow::Ok(v.deep_view()),
            Err(e) => uboot_read(old(sys)@, key@).1 == StepFlow::<Option<Seq<char>>>::Err(e@),
        },
{
    let none: Vec<u8> = Vec::new();
    match sys.pipe(Request::Pipe { program: String::from_str(FW_PRINTENV), args: list1(key), input: none }) {
        None => Err(Stop::Pending),
        Some(Err(_)) => Err(Stop::Failed(StepError::Message(String::from_str("fw_printenv error")))),
        Some(Ok((code, stdout))) => match code {
            Some(0) => match parse_printed(key, stdout) {
                Ok(v) => Ok(v),
                Err(e) => Err(Stop::Failed(e)),
            },
            _ => Err(Stop::Failed(StepError::Message(concat2("failed to get ", key)))),
        },
    }
}

/// Writes a variable.
pub open spec fn uboot_written(t: Transcript, key: Seq<char>, value: Seq<char>) -> (Transcript, StepFlow<()>) {
    match tool_code(t, FW_SETENV@, seq![key, value]) {
        (t1, Err(e)) => (t1, Err(e)),
        (t1, Ok(code)) => (
            t1,
            if code == Some(0i32) {
                Ok(())
            } else {
                Err(Stop::Failed(StepError::Message("fw_setenv "@ + key + "="@ + (value + " failed"@))))
            },
        ),
    }
}

pub fn set_uboot_env(key: &str, value: &str, sys: &mut Session) -> (r: Result<(), Stop<StepError>>)
    ensures
        (final(sys)@, outcome(r)) == uboot_written(old(sys)@, key@, value@),
{
    match run_tool(FW_SETENV, list2(key, value), sys) {
        Err(e) => Err(e),
        Ok(Some(0)) => Ok(()),
        Ok(_) => Err(
            Stop::Failed(
                StepError::Message(concat4("fw_setenv ", key, "=", concat2(value, " failed").as_str())),
            ),
        ),
    }
}

} // verus!
