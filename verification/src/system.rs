//! Conversations with the running system
//!
//! The boot procedures mount filesystems, run tools and write files. None of that
//! happens here. A procedure asks a [`Session`] for one operation after another and
//! goes on with the answers; where the session has no answer yet, the procedure
//! stops with [`Stop::Pending`] and the operation it needs is outstanding.
//!
//! The caller performs the outstanding operation, adds the answer to those it has,
//! and runs the procedure again from its start. A procedure is a function of its
//! arguments and of the answers alone, so the second run asks the same questions
//! and gets one step further. No operation is performed twice. [`crate::replay`] proves it.

use vstd::prelude::*;
use vstd::string::*;

use crate::bytes::{lossy_of, lossy_text};
use crate::error::{IoError, IoErrorKind};

verus! {

/// One flag of mount(2).
#[derive(Debug, Clone, Copy, PartialEq, Eq, Structural)]
pub enum MountFlag {
    RdOnly,
    NoSuid,
    NoDev,
    NoExec,
    NoAtime,
    NoDirAtime,
    StrictAtime,
    Bind,
    Move,
    Rec,
    Private,
}

/// A set of flags of mount(2).
#[derive(Debug, Clone, Copy, PartialEq, Eq, Structural)]
pub struct MountFlags {
    pub rd_only: bool,
    pub no_suid: bool,
    pub no_dev: bool,
    pub no_exec: bool,
    pub no_atime: bool,
    pub no_dir_atime: bool,
    pub strict_atime: bool,
    pub bind: bool,
    pub relocate: bool,
    pub rec: bool,
    pub private: bool,
}

impl MountFlags {
    pub open spec fn has(self, flag: MountFlag) -> bool {
        match flag {
            MountFlag::RdOnly => self.rd_only,
            MountFlag::NoSuid => self.no_suid,
            MountFlag::NoDev => self.no_dev,
            MountFlag::NoExec => self.no_exec,
            MountFlag::NoAtime => self.no_atime,
            MountFlag::NoDirAtime => self.no_dir_atime,
            MountFlag::StrictAtime => self.strict_atime,
            MountFlag::Bind => self.bind,
            MountFlag::Move => self.relocate,
            MountFlag::Rec => self.rec,
            MountFlag::Private => self.private,
        }
    }

    /// No flag.
    pub open spec fn none() -> Self {
        MountFlags {
            rd_only: false,
            no_suid: false,
            no_dev: false,
            no_exec: false,
            no_atime: false,
            no_dir_atime: false,
            strict_atime: false,
            bind: false,
            relocate: false,
            rec: false,
            private: false,
        }
    }

    /// The set with `flag` added.
    pub open spec fn plus(self, flag: MountFlag) -> Self {
        match flag {
            MountFlag::RdOnly => MountFlags { rd_only: true, ..self },
            MountFlag::NoSuid => MountFlags { no_suid: true, ..self },
            MountFlag::NoDev => MountFlags { no_dev: true, ..self },
            MountFlag::NoExec => MountFlags { no_exec: true, ..self },
            MountFlag::NoAtime => MountFlags { no_atime: true, ..self },
            MountFlag::NoDirAtime => MountFlags { no_dir_atime: true, ..self },
            MountFlag::StrictAtime => MountFlags { strict_atime: true, ..self },
            MountFlag::Bind => MountFlags { bind: true, ..self },
            MountFlag::Move => MountFlags { relocate: true, ..self },
            MountFlag::Rec => MountFlags { rec: true, ..self },
            MountFlag::Private => MountFlags { private: true, ..self },
        }
    }

    pub fn empty() -> (r: Self)
        ensures
            r == MountFlags::none(),
    {
        MountFlags {
            rd_only: false,
            no_suid: false,
            no_dev: false,
            no_exec: false,
            no_atime: false,
            no_dir_atime: false,
            strict_atime: false,
            bind: false,
            relocate: false,
            rec: false,
            private: false,
        }
    }

    pub fn with(self, flag: MountFlag) -> (r: Self)
        ensures
            r == self.plus(flag),
    {
        let mut r = self;
        match flag {
            MountFlag::RdOnly => r.rd_only = true,
            MountFlag::NoSuid => r.no_suid = true,
            MountFlag::NoDev => r.no_dev = true,
            MountFlag::NoExec => r.no_exec = true,
            MountFlag::NoAtime => r.no_atime = true,
            MountFlag::NoDirAtime => r.no_dir_atime = true,
            MountFlag::StrictAtime => r.strict_atime = true,
            MountFlag::Bind => r.bind = true,
            MountFlag::Move => r.relocate = true,
            MountFlag::Rec => r.rec = true,
            MountFlag::Private => r.private = true,
        }
        r
    }

    pub fn contains(self, flag: MountFlag) -> (r: bool)
        ensures
            r == self.has(flag),
    {
        match flag {
            MountFlag::RdOnly => self.rd_only,
            MountFlag::NoSuid => self.no_suid,
            MountFlag::NoDev => self.no_dev,
            MountFlag::NoExec => self.no_exec,
            MountFlag::NoAtime => self.no_atime,
            MountFlag::NoDirAtime => self.no_dir_atime,
            MountFlag::StrictAtime => self.strict_atime,
            MountFlag::Bind => self.bind,
            MountFlag::Move => self.relocate,
            MountFlag::Rec => self.rec,
            MountFlag::Private => self.private,
        }
    }

    pub fn is_empty(self) -> (r: bool)
        ensures
            r == (self == MountFlags::none()),
    {
        self == MountFlags::empty()
    }
}

/// One operation on the running system. Paths and texts are of type `S`, lists of
/// them of type `L`, raw bytes of type `B`.
#[derive(Debug)]
pub enum Request<S = String, L = Vec<String>, B = Vec<u8>> {
    /// Whether there is something at the path, symbolic links followed.
    Exists(S),
    /// The same question, which fails where it cannot be answered.
    TryExists(S),
    /// Whether there is a directory at the path, symbolic links followed.
    IsDir(S),
    /// Whether there is a regular file at the path, symbolic links followed.
    IsFile(S),
    /// Whether the path itself is a symbolic link.
    IsSymlink(S),
    /// Whether there is a regular file with an executable bit at the path.
    IsExecutable(S),
    /// The content of a text file.
    ReadText(S),
    /// What a symbolic link points to.
    ReadLink(S),
    /// The names in a directory.
    ListDir(S),
    /// Create a directory with all its parents.
    CreateDir(S),
    /// Write a file.
    WriteText { path: S, text: S },
    /// Write a file and make it durable, its directory entry too.
    WriteDurable { path: S, dir: S, text: S },
    RemoveFile(S),
    Symlink { target: S, link: S },
    SetOwner { path: S, uid: u32, gid: u32 },
    SetMode { path: S, mode: u32 },
    /// Run a program to its end and collect what it printed.
    Run { program: S, args: L },
    /// Run a program to its end on the given standard input.
    Pipe { program: S, args: L, input: B },
    /// mount(2)
    Mount { source: Option<S>, target: S, fstype: Option<S>, flags: MountFlags, data: Option<S> },
    /// umount(2)
    Unmount(S),
    ChangeDir(S),
    ChangeRoot(S),
    /// Replace the process by a program. An answer means that it failed.
    Exec(S),
    /// Replace the process by a program with arguments. An answer means that it failed.
    ExecWith { program: S, args: L },
    /// sync(2)
    Sync,
    /// Milliseconds on a monotonic clock.
    Clock,
    /// Do nothing for some milliseconds.
    Sleep(u64),
    /// Write a warning to the log.
    Warn(S),
}

/// What became of a program that ran to its end.
#[derive(Debug, Clone)]
pub struct CommandOutput<S = String> {
    /// The exit code; `None` if a signal killed the program.
    pub code: Option<i32>,
    /// The exit status in words.
    pub status: S,
    pub stdout: S,
    pub stderr: S,
}

/// The answer to a request.
#[derive(Debug, Clone)]
pub enum Reply<S = String, L = Vec<String>, B = Vec<u8>> {
    /// The operation succeeded.
    Done,
    Flag(bool),
    Text(S),
    /// The names in a directory; `failed` is the error that ended the listing.
    Names { names: L, failed: Option<IoError<S>> },
    Output(CommandOutput<S>),
    /// What a program wrote to its standard output.
    Bytes { code: Option<i32>, stdout: B },
    Millis(u64),
    Failed(IoError<S>),
}

/// A request by view.
pub type RequestView = Request<Seq<char>, Seq<Seq<char>>, Seq<u8>>;

/// A reply by view.
pub type ReplyView = Reply<Seq<char>, Seq<Seq<char>>, Seq<u8>>;

/// An error of the system by view.
pub type IoErrorView = IoError<Seq<char>>;

/// The output of a command by view.
pub type OutputView = CommandOutput<Seq<char>>;

impl View for CommandOutput {
    type V = OutputView;

    open spec fn view(&self) -> OutputView {
        CommandOutput { code: self.code, status: self.status@, stdout: self.stdout@, stderr: self.stderr@ }
    }
}

impl View for Request {
    type V = RequestView;

    open spec fn view(&self) -> RequestView {
        match *self {
            Request::Exists(p) => Request::Exists(p@),
            Request::TryExists(p) => Request::TryExists(p@),
            Request::IsDir(p) => Request::IsDir(p@),
            Request::IsFile(p) => Request::IsFile(p@),
            Request::IsSymlink(p) => Request::IsSymlink(p@),
            Request::IsExecutable(p) => Request::IsExecutable(p@),
            Request::ReadText(p) => Request::ReadText(p@),
            Request::ReadLink(p) => Request::ReadLink(p@),
            Request::ListDir(p) => Request::ListDir(p@),
            Request::CreateDir(p) => Request::CreateDir(p@),
            Request::WriteText { path, text } => Request::WriteText { path: path@, text: text@ },
            Request::WriteDurable { path, dir, text } => Request::WriteDurable {
                path: path@,
                dir: dir@,
                text: text@,
            },
            Request::RemoveFile(p) => Request::RemoveFile(p@),
            Request::Symlink { target, link } => Request::Symlink { target: target@, link: link@ },
            Request::SetOwner { path, uid, gid } => Request::SetOwner { path: path@, uid, gid },
            Request::SetMode { path, mode } => Request::SetMode { path: path@, mode },
            Request::Run { program, args } => Request::Run { program: program@, args: args.deep_view() },
            Request::Pipe { program, args, input } => Request::Pipe {
                program: program@,
                args: args.deep_view(),
                input: input@,
            },
            Request::Mount { source, target, fstype, flags, data } => Request::Mount {
                source: source.deep_view(),
                target: target@,
                fstype: fstype.deep_view(),
                flags,
                data: data.deep_view(),
            },
            Request::Unmount(p) => Request::Unmount(p@),
            Request::ChangeDir(p) => Request::ChangeDir(p@),
            Request::ChangeRoot(p) => Request::ChangeRoot(p@),
            Request::Exec(p) => Request::Exec(p@),
            Request::ExecWith { program, args } => Request::ExecWith { program: program@, args: args.deep_view() },
            Request::Sync => Request::Sync,
            Request::Clock => Request::Clock,
            Request::Sleep(ms) => Request::Sleep(ms),
            Request::Warn(message) => Request::Warn(message@),
        }
    }
}

impl View for Reply {
    type V = ReplyView;

    open spec fn view(&self) -> ReplyView {
        match *self {
            Reply::Done => Reply::Done,
            Reply::Flag(b) => Reply::Flag(b),
            Reply::Text(s) => Reply::Text(s@),
            Reply::Names { names, failed } => Reply::Names {
                names: names.deep_view(),
                failed: match failed {
                    Some(e) => Some(e@),
                    None => None,
                },
            },
            Reply::Output(o) => Reply::Output(o@),
            Reply::Bytes { code, stdout } => Reply::Bytes { code, stdout: stdout@ },
            Reply::Millis(n) => Reply::Millis(n),
            Reply::Failed(e) => Reply::Failed(e@),
        }
    }
}

/// Why a procedure stopped before its end.
#[derive(Debug)]
pub enum Stop<E> {
    /// The session has no answer yet to the last request.
    Pending,
    /// The procedure failed.
    Failed(E),
}

impl<E: View> View for Stop<E> {
    type V = Stop<E::V>;

    open spec fn view(&self) -> Stop<E::V> {
        match *self {
            Stop::Pending => Stop::Pending,
            Stop::Failed(e) => Stop::Failed(e@),
        }
    }
}

/// How a procedure ended, by view.
pub open spec fn outcome<T: View, E: View>(r: Result<T, Stop<E>>) -> Result<T::V, Stop<E::V>> {
    match r {
        Ok(t) => Ok(t@),
        Err(s) => Err(s@),
    }
}

/// An optional value by view.
pub open spec fn opt_view<T: View>(o: Option<T>) -> Option<T::V> {
    match o {
        Some(t) => Some(t@),
        None => None,
    }
}

/// What was asked so far, and the answers that are left.
pub struct Transcript {
    pub asked: Seq<RequestView>,
    pub rest: Seq<ReplyView>,
}

impl Transcript {
    /// The transcript after `request`.
    pub open spec fn ask(self, request: RequestView) -> Transcript {
        Transcript {
            asked: self.asked.push(request),
            rest: if self.rest.len() > 0 {
                self.rest.drop_first()
            } else {
                self.rest
            },
        }
    }

    /// The answer to the next request.
    pub open spec fn next(self) -> Option<ReplyView> {
        if self.rest.len() > 0 {
            Some(self.rest[0])
        } else {
            None
        }
    }
}

/// What an answer says about an operation that returns nothing.
pub open spec fn done_of(reply: ReplyView) -> Result<(), IoErrorView> {
    match reply {
        Reply::Failed(e) => Err(e),
        _ => Ok(()),
    }
}

/// Writes a warning to the log. `None` means that an answer is missing; a failure does not
/// matter.
pub open spec fn warned(t: Transcript, message: Seq<char>) -> (Transcript, Option<()>) {
    (
        t.ask(Request::Warn(message)),
        match t.next() {
            None => None,
            Some(_) => Some(()),
        },
    )
}

/// What an answer says about a question.
pub open spec fn flag_of(reply: ReplyView) -> bool {
    reply == ReplyView::Flag(true)
}

/// What an answer says about a question that can fail.
pub open spec fn tried_of(reply: ReplyView) -> Result<bool, IoErrorView> {
    match reply {
        Reply::Flag(b) => Ok(b),
        Reply::Failed(e) => Err(e),
        _ => Err(unexpected_answer()),
    }
}

/// The error of an answer that does not fit its request.
pub open spec fn unexpected_answer() -> IoErrorView {
    IoError { kind: IoErrorKind::InvalidData, message: "unexpected answer"@ }
}

pub open spec fn text_of(reply: ReplyView) -> Result<Seq<char>, IoErrorView> {
    match reply {
        Reply::Text(s) => Ok(s),
        Reply::Failed(e) => Err(e),
        _ => Err(unexpected_answer()),
    }
}

pub open spec fn names_of(reply: ReplyView) -> Result<(Seq<Seq<char>>, Option<IoErrorView>), IoErrorView> {
    match reply {
        Reply::Names { names, failed } => Ok((names, failed)),
        Reply::Failed(e) => Err(e),
        _ => Err(unexpected_answer()),
    }
}

pub open spec fn output_of(reply: ReplyView) -> Result<OutputView, IoErrorView> {
    match reply {
        Reply::Output(o) => Ok(o),
        Reply::Failed(e) => Err(e),
        _ => Err(unexpected_answer()),
    }
}

/// The exit code of a program and what it wrote.
pub open spec fn bytes_of(reply: ReplyView) -> Result<(Option<i32>, Seq<u8>), IoErrorView> {
    match reply {
        Reply::Bytes { code, stdout } => Ok((code, stdout)),
        Reply::Failed(e) => Err(e),
        _ => Err(unexpected_answer()),
    }
}

/// The clock; an answer that is none reads as the end of time.
pub open spec fn millis_of(reply: ReplyView) -> u64 {
    match reply {
        Reply::Millis(n) => n,
        _ => u64::MAX,
    }
}

impl OutputView {
    /// The program exited with code 0.
    pub open spec fn succeeded(self) -> bool {
        self.code == Some(0i32)
    }
}

impl CommandOutput {
    /// What became of a program, from the bytes that it wrote. What is not valid UTF-8 is
    /// replaced.
    pub fn captured(code: Option<i32>, status: String, stdout: &Vec<u8>, stderr: &Vec<u8>) -> (r: Self)
        ensures
            r@ == (CommandOutput {
                code,
                status: status@,
                stdout: lossy_of(stdout@),
                stderr: lossy_of(stderr@),
            }),
    {
        CommandOutput { code, status, stdout: lossy_text(stdout), stderr: lossy_text(stderr) }
    }

    pub fn success(&self) -> (r: bool)
        ensures
            r == self@.succeeded(),
    {
        match self.code {
            Some(c) => c == 0,
            None => false,
        }
    }
}

fn unexpected() -> (e: IoError)
    ensures
        e@ == unexpected_answer(),
{
    IoError { kind: IoErrorKind::InvalidData, message: String::from_str("unexpected answer") }
}

/// A conversation with the system: what was asked, and the answers that are left.
pub struct Session {
    asked: Vec<Request>,
    rest: Vec<Reply>,
}

/// The views of a list of values.
pub open spec fn views<T: View>(s: Seq<T>) -> Seq<T::V> {
    s.map_values(|t: T| t@)
}

impl View for Session {
    type V = Transcript;

    closed spec fn view(&self) -> Transcript {
        Transcript { asked: views(self.asked@), rest: views(self.rest@) }
    }
}

impl Session {
    /// A session that has the given answers, the first of them for the first request.
    pub fn new(replies: Vec<Reply>) -> (s: Session)
        ensures
            s@ == (Transcript { asked: Seq::empty(), rest: views(replies@) }),
    {
        let s = Session { asked: Vec::new(), rest: replies };
        assert(s@.asked =~= Seq::<RequestView>::empty());
        s
    }

    /// The requests so far.
    pub fn asked(&self) -> (r: &Vec<Request>)
        ensures
            views(r@) == self@.asked,
    {
        &self.asked
    }

    /// Asks for one operation.
    pub fn ask(&mut self, request: Request) -> (r: Option<Reply>)
        ensures
            final(self)@ == old(self)@.ask(request@),
            match r {
                Some(reply) => old(self)@.next() == Some(reply@),
                None => old(self)@.next() is None,
            },
    {
        let ghost before = self@;
        let ghost replies = self.rest@;
        self.asked.push(request);
        assert(views(self.asked@) =~= before.asked.push(request@));
        if self.rest.len() > 0 {
            let reply = self.rest.remove(0);
            assert(self@.rest =~= before.rest.drop_first());
            Some(reply)
        } else {
            assert(self@.rest =~= before.rest);
            None
        }
    }

    /// Asks for an operation that returns nothing.
    pub fn perform(&mut self, request: Request) -> (r: Option<Result<(), IoError>>)
        ensures
            final(self)@ == old(self)@.ask(request@),
            match r {
                Some(d) => old(self)@.next() is Some && crate::error::result_view(d) == done_of(
                    old(self)@.next()->0,
                ),
                None => old(self)@.next() is None,
            },
    {
        match self.ask(request) {
            None => None,
            Some(Reply::Failed(e)) => Some(Err(e)),
            Some(_) => Some(Ok(())),
        }
    }

    /// Writes a warning to the log. Returns `None` if an answer is missing; a failure does not
    /// matter.
    pub fn warn(&mut self, message: &str) -> (r: Option<()>)
        ensures
            (final(self)@, r) == warned(old(self)@, message@),
    {
        match self.ask(Request::Warn(message.to_owned())) {
            None => None,
            Some(_) => Some(()),
        }
    }

    /// Asks a question.
    pub fn query(&mut self, request: Request) -> (r: Option<bool>)
        ensures
            final(self)@ == old(self)@.ask(request@),
            match r {
                Some(b) => old(self)@.next() is Some && b == flag_of(old(self)@.next()->0),
                None => old(self)@.next() is None,
            },
    {
        match self.ask(request) {
            None => None,
            Some(Reply::Flag(b)) => Some(b),
            Some(_) => Some(false),
        }
    }

    /// Asks a question that can fail.
    pub fn try_query(&mut self, request: Request) -> (r: Option<Result<bool, IoError>>)
        ensures
            final(self)@ == old(self)@.ask(request@),
            match r {
                Some(b) => old(self)@.next() is Some && crate::error::result_view(b) == tried_of(
                    old(self)@.next()->0,
                ),
                None => old(self)@.next() is None,
            },
    {
        match self.ask(request) {
            None => None,
            Some(Reply::Flag(b)) => Some(Ok(b)),
            Some(Reply::Failed(e)) => Some(Err(e)),
            Some(_) => Some(Err(unexpected())),
        }
    }

    /// Asks for a text.
    pub fn fetch(&mut self, request: Request) -> (r: Option<Result<String, IoError>>)
        ensures
            final(self)@ == old(self)@.ask(request@),
            match r {
                Some(Ok(s)) => old(self)@.next() is Some && text_of(old(self)@.next()->0) == Ok::<
                    Seq<char>,
                    IoErrorView,
                >(s@),
                Some(Err(e)) => old(self)@.next() is Some && text_of(old(self)@.next()->0) == Err::<
                    Seq<char>,
                    IoErrorView,
                >(e@),
                None => old(self)@.next() is None,
            },
    {
        match self.ask(request) {
            None => None,
            Some(Reply::Text(s)) => Some(Ok(s)),
            Some(Reply::Failed(e)) => Some(Err(e)),
            Some(_) => Some(Err(unexpected())),
        }
    }

    /// Asks for the names in a directory.
    pub fn list(&mut self, request: Request) -> (r: Option<Result<(Vec<String>, Option<IoError>), IoError>>)
        ensures
            final(self)@ == old(self)@.ask(request@),
            match r {
                Some(Ok(p)) => old(self)@.next() is Some && names_of(old(self)@.next()->0) == Ok::<
                    (Seq<Seq<char>>, Option<IoErrorView>),
                    IoErrorView,
                >(
                    (
                        p.0.deep_view(),
                        match p.1 {
                            Some(e) => Some(e@),
                            None => None,
                        },
                    ),
                ),
                Some(Err(e)) => old(self)@.next() is Some && names_of(old(self)@.next()->0) == Err::<
                    (Seq<Seq<char>>, Option<IoErrorView>),
                    IoErrorView,
                >(e@),
                None => old(self)@.next() is None,
            },
    {
        match self.ask(request) {
            None => None,
            Some(Reply::Names { names, failed }) => Some(Ok((names, failed))),
            Some(Reply::Failed(e)) => Some(Err(e)),
            Some(_) => Some(Err(unexpected())),
        }
    }

    /// Runs a program to its end.
    pub fn run(&mut self, request: Request) -> (r: Option<Result<CommandOutput, IoError>>)
        ensures
            final(self)@ == old(self)@.ask(request@),
            match r {
                Some(Ok(o)) => old(self)@.next() is Some && output_of(old(self)@.next()->0) == Ok::<
                    OutputView,
                    IoErrorView,
                >(o@),
                Some(Err(e)) => old(self)@.next() is Some && output_of(old(self)@.next()->0) == Err::<
                    OutputView,
                    IoErrorView,
                >(e@),
                None => old(self)@.next() is None,
            },
    {
        match self.ask(request) {
            None => None,
            Some(Reply::Output(o)) => Some(Ok(o)),
            Some(Reply::Failed(e)) => Some(Err(e)),
            Some(_) => Some(Err(unexpected())),
        }
    }

    /// Runs a program on some input.
    pub fn pipe(&mut self, request: Request) -> (r: Option<Result<(Option<i32>, Vec<u8>), IoError>>)
        ensures
            final(self)@ == old(self)@.ask(request@),
            match r {
                Some(Ok(p)) => old(self)@.next() is Some && bytes_of(old(self)@.next()->0) == Ok::<
                    (Option<i32>, Seq<u8>),
                    IoErrorView,
                >((p.0, p.1@)),
                Some(Err(e)) => old(self)@.next() is Some && bytes_of(old(self)@.next()->0) == Err::<
                    (Option<i32>, Seq<u8>),
                    IoErrorView,
                >(e@),
                None => old(self)@.next() is None,
            },
    {
        match self.ask(request) {
            None => None,
            Some(Reply::Bytes { code, stdout }) => Some(Ok((code, stdout))),
            Some(Reply::Failed(e)) => Some(Err(e)),
            Some(_) => Some(Err(unexpected())),
        }
    }

    /// Reads the clock.
    pub fn clock(&mut self) -> (r: Option<u64>)
        ensures
            final(self)@ == old(self)@.ask(RequestView::Clock),
            match r {
                Some(n) => old(self)@.next() is Some && n == millis_of(old(self)@.next()->0),
                None => old(self)@.next() is None,
            },
    {
        match self.ask(Request::Clock) {
            None => None,
            Some(Reply::Millis(n)) => Some(n),
            Some(_) => Some(u64::MAX),
        }
    }
}

} // verus!
