//! The command evaluator: walks a parsed command tree and realizes it
//! as builtin invocations and process spawns wired through pipes and
//! redirections, registering background jobs with the job-control
//! context.
//!
//! The evaluator itself performs no operating-system call. Every
//! outside effect — spawning, waiting, making a pipe, opening a
//! redirect target, closing a descriptor — is issued as a request to a
//! caller-supplied effect handler and recorded in a trace, so the
//! evaluator's decisions are verified for every possible outcome and a
//! caller can observe exactly what was requested. `perform_effect`
//! carries out every request a handler cannot decide for itself except
//! spawning, which needs the host's fork.

use vstd::prelude::*;

use nix::fcntl::OFlag;

use crate::ast::{Assign, Command, Redirect, RedirectMode};
use crate::env::{Runtime, RuntimeModel};
use crate::process::{make_pipe, close_fd, ExitStatus, Os, Pgid};
use crate::subst::{envsubst, expand_wordlist, subst_spec};

verus! {

/// Captured result of one builtin invocation.
pub struct CmdOutput {
    pub stdout: String,
    pub stderr: String,
    pub status: i32,
}

impl CmdOutput {
    /// An output with the given text and status.
    pub fn new(stdout: String, stderr: String, status: i32) -> (r: CmdOutput)
        ensures
            r.stdout@ == stdout@,
            r.stderr@ == stderr@,
            r.status == status,
    {
        CmdOutput { stdout, stderr, status }
    }

    /// An empty, successful output.
    pub fn empty() -> (r: CmdOutput)
        ensures
            r.stdout@ == Seq::<char>::empty(),
            r.stderr@ == Seq::<char>::empty(),
            r.status == 0,
    {
        CmdOutput { stdout: String::new(), stderr: String::new(), status: 0 }
    }

    /// An empty output with a failure status.
    pub fn error() -> (r: CmdOutput)
        ensures
            r.status == 1,
    {
        CmdOutput { stdout: String::new(), stderr: String::new(), status: 1 }
    }
}

/// A builtin command: runs in-process, with direct access to the
/// runtime, and is never forked. Implementations come from the host.
pub trait BuiltinCmd {
    fn run(&self, rt: &mut Runtime, args: &Vec<String>) -> CmdOutput;
}

/// The registered builtin commands, by name; a later registration of
/// the same name overrides the earlier one.
pub struct Builtins {
    entries: Vec<(String, Box<dyn BuiltinCmd>)>,
}

impl Builtins {
    /// The registered names, latest first.
    pub closed spec fn names(self) -> Seq<Seq<char>> {
        self.entries@.map_values(|e: (String, Box<dyn BuiltinCmd>)| e.0@)
    }

    /// Whether a name is registered.
    pub open spec fn has(self, name: Seq<char>) -> bool {
        exists|k: int| 0 <= k < self.names().len() && self.names()[k] == name
    }

    /// A registry with no builtins.
    pub fn new() -> (r: Builtins)
        ensures
            r.names() == Seq::<Seq<char>>::empty(),
    {
        let r = Builtins { entries: Vec::new() };
        proof {
            assert(r.names() =~= Seq::<Seq<char>>::empty());
        }
        r
    }

    /// Register a builtin under a name, overriding an earlier one.
    pub fn insert(&mut self, name: String, builtin: Box<dyn BuiltinCmd>)
        ensures
            final(self).names() == old(self).names().push(name@),
    {
        let ghost n = name@;
        let pair = (name, builtin);
        let ghost p = pair;
        self.entries.push(pair);
        proof {
            assert(self.entries@ == old(self).entries@.push(p));
            assert(p.0@ == n);
            assert forall|k: int| 0 <= k < self.entries@.len() implies #[trigger] self.names()[k]
                == old(self).names().push(n)[k] by {
                assert(self.names()[k] == self.entries@[k].0@);
                if k < self.entries@.len() - 1 {
                    assert(self.entries@[k] == old(self).entries@[k]);
                    assert(old(self).names()[k] == old(self).entries@[k].0@);
                }
            }
            assert(self.names() =~= old(self).names().push(n));
        }
    }

    /// Find the builtin registered under `name`, if any.
    pub fn get(&self, name: &String) -> (r: Option<&Box<dyn BuiltinCmd>>)
        ensures
            r.is_some() <==> self.has(name@),
    {
        let mut i: usize = self.entries.len();
        while i > 0
            invariant
                i <= self.entries@.len(),
                forall|k: int| i <= k < self.entries@.len() ==> (#[trigger] self.entries@[k]).0@
                    != name@,
            decreases i,
        {
            i = i - 1;
            if self.entries[i].0.eq(name) {
                proof {
                    assert(self.names()[i as int] == name@);
                }
                return Option::Some(&self.entries[i].1);
            }
        }
        proof {
            assert forall|k: int| 0 <= k < self.names().len() implies self.names()[k] != name@
                by {
                assert(self.names()[k] == self.entries@[k].0@);
            }
        }
        Option::None
    }
}

/// Errors the evaluator reports; each aborts only the command node
/// being built.
#[derive(Debug, PartialEq, Eq, Structural, Clone, Copy)]
pub enum Error {
    /// A redirect target could not be opened, with the errno value.
    Redirect(i32),
    /// A descriptor-duplication redirect, which is not supported.
    UnsupportedRedirect,
    /// A spawn (or pipe or descriptor) request failed, with errno.
    Spawn(i32),
    /// A wait request failed, with errno.
    Wait(i32),
    /// A function was defined under a reserved word.
    FunctionNameReserved,
    /// The effect handler answered a request with the wrong reply kind.
    Effect,
    /// Function calls nested deeper than the evaluation budget.
    TooDeep,
}

/// How a redirect target file is opened.
#[derive(Debug, PartialEq, Eq, Structural, Clone, Copy)]
pub enum OpenKind {
    /// Read-only; the file must exist.
    ReadOnly,
    /// Write-only, creating the file, which must not yet exist.
    WriteExclusive,
    /// Read and append to an existing file.
    ReadAppend,
    /// Write-append, creating the file, which must not yet exist.
    WriteAppendExclusive,
    /// Read and write, creating the file, which must not yet exist.
    ReadWriteExclusive,
}

/// A request to start one external process.
pub struct SpawnRequest {
    /// The program and its arguments, substituted.
    pub argv: Vec<String>,
    /// Per-invocation environment bindings.
    pub assigns: Vec<Assign>,
    pub stdin: i32,
    pub stdout: i32,
    /// The process group to join.
    pub pgid: Pgid,
    /// Where the process runs.
    pub working_dir: String,
}

/// One request to the effect handler.
pub enum EffRequest {
    /// Fork and exec an external process.
    Spawn(SpawnRequest),
    /// Wait until the process has exited; reply with its status.
    Wait(i32),
    /// Make a pipe; reply with its read and write descriptors.
    Pipe,
    /// Open a redirect target; reply with the descriptor.
    Open(String, OpenKind),
    /// Close a descriptor owned by the shell.
    Close(i32),
}

/// The handler's answer to one request.
#[derive(Debug, PartialEq, Eq, Structural, Clone, Copy)]
pub enum EffReply {
    /// The process id of a spawned process.
    Spawned(i32),
    /// The exit status a wait observed.
    WaitDone(i32),
    /// Read and write ends of a fresh pipe.
    PipeMade(i32, i32),
    /// The descriptor of an opened file.
    Opened(i32),
    /// A close was carried out.
    Closed,
    /// The request failed, with an errno value.
    Failed(i32),
}

/// The log of requests made and replies received, in order. Every
/// request the evaluator issues is recorded here, so "no process was
/// spawned" is the checkable statement "no spawn request was added".
pub struct Trace {
    pub events: Vec<(EffRequest, EffReply)>,
}

impl Trace {
    /// An empty log.
    pub fn new() -> (r: Trace)
        ensures
            r.events@ == Seq::<(EffRequest, EffReply)>::empty(),
    {
        Trace { events: Vec::new() }
    }
}

/// Carry one request out with the real operating system: pipes, closes
/// and redirect opens. Waits and spawns need the host (they depend on
/// its children), so they are answered with a failure here; a host
/// handler intercepts them and hands everything else to this function.
pub fn perform_effect(req: &EffRequest) -> (r: EffReply)
    ensures
        req matches EffRequest::Pipe ==> (r matches EffReply::PipeMade(_, _) || r
            matches EffReply::Failed(_)),
        req matches EffRequest::Open(_, _) ==> (r matches EffReply::Opened(_) || r
            matches EffReply::Failed(_)),
        req matches EffRequest::Close(_) ==> (r matches EffReply::Closed || r
            matches EffReply::Failed(_)),
{
    match req {
        EffRequest::Pipe => match make_pipe() {
            Result::Ok((rd, wr)) => EffReply::PipeMade(rd, wr),
            Result::Err(e) => EffReply::Failed(e),
        },
        EffRequest::Open(path, kind) => match open_redirect(path, *kind) {
            Result::Ok(fd) => EffReply::Opened(fd),
            Result::Err(e) => EffReply::Failed(e),
        },
        EffRequest::Close(fd) => match close_fd(*fd) {
            Result::Ok(()) => EffReply::Closed,
            Result::Err(e) => EffReply::Failed(e),
        },
        // 38 is ENOSYS: the host must answer these two itself.
        EffRequest::Spawn(_) => EffReply::Failed(38),
        EffRequest::Wait(_) => EffReply::Failed(38),
    }
}

/// Relies on nix::fcntl::open: opens the path with the flags each kind
/// calls for — exclusive create for the writing kinds, as `noclobber`
/// demands — and mode 0644 for files it creates.
#[verifier::external_body]
fn open_redirect(path: &String, kind: OpenKind) -> (r: Result<i32, i32>)
{
    let flags = match kind {
        OpenKind::ReadOnly => OFlag::O_RDONLY,
        OpenKind::WriteExclusive => OFlag::O_WRONLY | OFlag::O_CREAT | OFlag::O_EXCL,
        OpenKind::ReadAppend => OFlag::O_RDWR | OFlag::O_APPEND,
        OpenKind::WriteAppendExclusive => OFlag::O_WRONLY | OFlag::O_APPEND | OFlag::O_CREAT | OFlag::O_EXCL,
        OpenKind::ReadWriteExclusive => OFlag::O_RDWR | OFlag::O_CREAT | OFlag::O_EXCL,
    };
    let mode = nix::sys::stat::Mode::from_bits_truncate(0o644);
    match nix::fcntl::open(path.as_str(), flags, mode) {
        Ok(fd) => Ok(fd),
        Err(e) => Err(e as i32),
    }
}

/// How a redirect mode opens its target, if it is supported.
pub open spec fn open_kind_of(mode: RedirectMode) -> Option<OpenKind> {
    match mode {
        RedirectMode::Read => Option::Some(OpenKind::ReadOnly),
        RedirectMode::Write => Option::Some(OpenKind::WriteExclusive),
        RedirectMode::ReadAppend => Option::Some(OpenKind::ReadAppend),
        RedirectMode::WriteAppend => Option::Some(OpenKind::WriteAppendExclusive),
        RedirectMode::ReadWrite => Option::Some(OpenKind::ReadWriteExclusive),
        RedirectMode::ReadDup => Option::None,
        RedirectMode::WriteDup => Option::None,
    }
}

/// Ask the handler one request and record the exchange.
fn issue<E: Fn(&Trace, &EffRequest) -> EffReply>(
    trace: &mut Trace,
    eff: &E,
    req: EffRequest,
) -> (r: EffReply)
    requires
        forall|t: &Trace, rq: &EffRequest| call_requires(*eff, (t, rq)),
    ensures
        final(trace).events@ == old(trace).events@.push((req, r)),
{
    let reply = eff(trace, &req);
    trace.events.push((req, reply));
    reply
}

/// Resolve the redirects of a simple command left-to-right over the
/// inherited descriptor pair; later redirects of the same stream
/// override earlier ones. A descriptor-duplication redirect is refused
/// outright; a target that cannot be opened aborts with the errno. No
/// spawn happens here: only open requests are issued, and none with an
/// empty redirect list.
pub fn resolve_redirects<E: Fn(&Trace, &EffRequest) -> EffReply>(
    trace: &mut Trace,
    eff: &E,
    redirects: &Vec<Redirect>,
    stdin0: i32,
    stdout0: i32,
) -> (r: Result<(i32, i32), Error>)
    requires
        forall|t: &Trace, rq: &EffRequest| call_requires(*eff, (t, rq)),
    ensures
        redirects@.len() == 0 ==> final(trace).events@ == old(trace).events@ && r == Ok::<
            (i32, i32),
            Error,
        >((stdin0, stdout0)),
        old(trace).events@.len() <= final(trace).events@.len(),
        final(trace).events@.len() - old(trace).events@.len() <= redirects@.len(),
        forall|k: int|
            0 <= k < old(trace).events@.len() ==> final(trace).events@[k]
                == old(trace).events@[k],
        forall|j: int|
            0 <= j < final(trace).events@.len() - old(trace).events@.len() ==> ((
            #[trigger] final(trace).events@[old(trace).events@.len() + j]).0
                matches EffRequest::Open(p, kind) && p@ == redirects@[j].file@ && open_kind_of(
                redirects@[j].mode,
            ) == Option::Some(kind)),
        forall|j: int|
            0 <= j < final(trace).events@.len() - old(trace).events@.len() - 1 ==> ((
            #[trigger] final(trace).events@[old(trace).events@.len() + j]).1
                matches EffReply::Opened(_)),
        r.is_ok() ==> final(trace).events@.len() - old(trace).events@.len() == redirects@.len()
            && (forall|j: int|
            0 <= j < redirects@.len() ==> ((#[trigger] final(trace).events@[old(
                trace,
            ).events@.len() + j]).1 matches EffReply::Opened(_))),
        (r == Err::<(i32, i32), Error>(Error::UnsupportedRedirect)) <==> ({
            let n = final(trace).events@.len() - old(trace).events@.len();
            n < redirects@.len() && open_kind_of(redirects@[n].mode) is None && (forall|j: int|
                0 <= j < n ==> ((#[trigger] final(trace).events@[old(trace).events@.len() + j]).1
                    matches EffReply::Opened(_)))
        }),
        r matches Err(e) ==> (e matches Error::Redirect(code) ==> final(trace).events@.len()
            > old(trace).events@.len()
            && final(trace).events@.last().1 == EffReply::Failed(code)),
        (final(trace).events@.len() > old(trace).events@.len()
            && (final(trace).events@.last().1 matches EffReply::Failed(_)))
            ==> (r matches Err(Error::Redirect(_))),
{
    let mut cur_stdin = stdin0;
    let mut cur_stdout = stdout0;
    let mut i: usize = 0;
    while i < redirects.len()
        invariant
            forall|t: &Trace, rq: &EffRequest| call_requires(*eff, (t, rq)),
            i <= redirects@.len(),
            i == 0 ==> trace.events@ == old(trace).events@ && cur_stdin == stdin0 && cur_stdout
                == stdout0,
            trace.events@.len() == old(trace).events@.len() + i,
            forall|k: int|
                0 <= k < old(trace).events@.len() ==> trace.events@[k] == old(trace).events@[k],
            forall|j: int|
                0 <= j < i ==> ((#[trigger] trace.events@[old(trace).events@.len() + j]).0
                    matches EffRequest::Open(p, kind) && p@ == redirects@[j].file@ && open_kind_of(
                    redirects@[j].mode,
                ) == Option::Some(kind)),
            forall|j: int|
                0 <= j < i ==> ((#[trigger] trace.events@[old(trace).events@.len() + j]).1
                    matches EffReply::Opened(_)),
        decreases redirects@.len() - i,
    {
        let kind = match redirects[i].mode {
            RedirectMode::Read => OpenKind::ReadOnly,
            RedirectMode::Write => OpenKind::WriteExclusive,
            RedirectMode::ReadAppend => OpenKind::ReadAppend,
            RedirectMode::WriteAppend => OpenKind::WriteAppendExclusive,
            RedirectMode::ReadWrite => OpenKind::ReadWriteExclusive,
            RedirectMode::ReadDup => {
                proof {
                    if i > 0 {
                        assert(trace.events@.last() == trace.events@[old(trace).events@.len() + (
                        i - 1)]);
                    }
                }
                return Result::Err(Error::UnsupportedRedirect);
            },
            RedirectMode::WriteDup => {
                proof {
                    if i > 0 {
                        assert(trace.events@.last() == trace.events@[old(trace).events@.len() + (
                        i - 1)]);
                    }
                }
                return Result::Err(Error::UnsupportedRedirect);
            },
        };
        let path = redirects[i].file.clone();
        match issue(trace, eff, EffRequest::Open(path, kind)) {
            EffReply::Opened(fd) => {
                match redirects[i].mode {
                    RedirectMode::Read => {
                        cur_stdin = fd;
                    },
                    RedirectMode::ReadAppend => {
                        cur_stdin = fd;
                    },
                    RedirectMode::Write => {
                        cur_stdout = fd;
                    },
                    RedirectMode::WriteAppend => {
                        cur_stdout = fd;
                    },
                    _ => {
                        cur_stdin = fd;
                        cur_stdout = fd;
                    },
                }
            },
            EffReply::Failed(e) => {
                return Result::Err(Error::Redirect(e));
            },
            _ => {
                return Result::Err(Error::Effect);
            },
        }
        i += 1;
    }
    proof {
        if i > 0 {
            assert(trace.events@.last() == trace.events@[old(trace).events@.len() + (i - 1)]);
        }
    }
    Result::Ok((cur_stdin, cur_stdout))
}

/// Collect the exit status of an evaluation result: a finished status
/// is handed back as it is; a running process is waited for through
/// the handler. Nothing is waited for a finished result, and no spawn
/// request is ever issued here.
pub fn wait_status<E: Fn(&Trace, &EffRequest) -> EffReply>(
    trace: &mut Trace,
    eff: &E,
    res: ExitStatus,
) -> (r: Result<i32, Error>)
    requires
        forall|t: &Trace, rq: &EffRequest| call_requires(*eff, (t, rq)),
    ensures
        res matches ExitStatus::Exited(c) ==> r == Ok::<i32, Error>(c) && final(trace).events@
            == old(trace).events@,
        res matches ExitStatus::Running(pid) ==> (exists|rep: EffReply|
            #![trigger old(trace).events@.push((EffRequest::Wait(pid), rep))]
            final(trace).events@ == old(trace).events@.push((EffRequest::Wait(pid), rep)) && (
            match rep {
                EffReply::WaitDone(st) => r == Ok::<i32, Error>(st),
                EffReply::Failed(e) => r == Err::<i32, Error>(Error::Wait(e)),
                _ => r == Err::<i32, Error>(Error::Effect),
            })),
        old(trace).events@.len() <= final(trace).events@.len(),
        forall|k: int|
            0 <= k < old(trace).events@.len() ==> final(trace).events@[k]
                == old(trace).events@[k],
        forall|k: int|
            old(trace).events@.len() <= k < final(trace).events@.len()
                ==> ((#[trigger] final(trace).events@[k]).0 matches EffRequest::Wait(_)),
{
    match res {
        ExitStatus::Exited(c) => Result::Ok(c),
        ExitStatus::Running(pid) => {
            let reply = issue(trace, eff, EffRequest::Wait(pid));
            match reply {
                EffReply::WaitDone(st) => Result::Ok(st),
                EffReply::Failed(e) => Result::Err(Error::Wait(e)),
                _ => Result::Err(Error::Effect),
            }
        },
    }
}

/// Whether the right side of `&&` (with `is_and`) or `||` (without)
/// runs, given the left side's exit status.
pub open spec fn combinator_continues(is_and: bool, left_status: i32) -> bool {
    if is_and {
        left_status == 0
    } else {
        left_status != 0
    }
}

/// Reserved words that cannot name a function.
pub open spec fn is_reserved_name(s: Seq<char>) -> bool {
    s == "if"@ || s == "then"@ || s == "else"@ || s == "elif"@ || s == "fi"@ || s == "do"@ || s
        == "done"@ || s == "case"@ || s == "esac"@ || s == "while"@ || s == "until"@ || s == "for"@
        || s == "in"@
}

/// Where a simple command's name resolves: builtins take precedence
/// over defined functions, and functions over external programs.
pub enum Dispatch {
    /// The name is a registered builtin.
    Builtin,
    /// The name is a defined function; here is a copy of its body.
    Function(Command),
    /// The name is neither: an external program.
    External,
}

/// Resolve a substituted command name, in the fixed precedence order:
/// a registered builtin first, then a defined function (whose stored
/// body is handed back), else an external program.
pub fn dispatch_simple(builtins: &Builtins, rt: &Runtime, name: &String) -> (r: Dispatch)
    ensures
        builtins.has(name@) ==> (r matches Dispatch::Builtin),
        !builtins.has(name@) && rt@.functions.contains_key(name@) ==> (r
            matches Dispatch::Function(body) && crate::ast::cmd_view(body)
            == rt@.functions[name@]),
        !builtins.has(name@) && !rt@.functions.contains_key(name@) ==> (r
            matches Dispatch::External),
{
    if builtins.get(name).is_some() {
        return Dispatch::Builtin;
    }
    match rt.get_function(name) {
        Option::Some(body) => Dispatch::Function(body),
        Option::None => Dispatch::External,
    }
}

/// Whether a guarded loop goes on after its guard reported `status`:
/// a `while` (without `negate`) continues on success, an `until` (with
/// `negate`) continues on failure.
pub fn guard_continues(negate: bool, status: i32) -> (r: bool)
    ensures
        r == (if negate {
            status != 0
        } else {
            status == 0
        }),
{
    if negate {
        status != 0
    } else {
        status == 0
    }
}

/// Whether a case arm's pattern list contains the word.
pub open spec fn arm_matches(arm: crate::ast::CaseArm, w: Seq<char>) -> bool {
    exists|k: int| 0 <= k < arm.pattern@.len() && (#[trigger] arm.pattern@[k])@ == w
}

/// The first case arm whose pattern list contains the word, if any;
/// the arms before it do not match, so nothing falls through to it.
pub fn find_case_arm(arms: &Vec<crate::ast::CaseArm>, word: &String) -> (r: Option<usize>)
    ensures
        match r {
            Option::Some(i) => i < arms@.len() && arm_matches(arms@[i as int], word@) && (forall|
                j: int,
            | 0 <= j < i ==> !arm_matches(#[trigger] arms@[j], word@)),
            Option::None => forall|j: int|
                0 <= j < arms@.len() ==> !arm_matches(#[trigger] arms@[j], word@),
        },
{
    let mut i: usize = 0;
    while i < arms.len()
        invariant
            i <= arms@.len(),
            forall|j: int| 0 <= j < i ==> !arm_matches(#[trigger] arms@[j], word@),
        decreases arms@.len() - i,
    {
        let mut k: usize = 0;
        while k < arms[i].pattern.len()
            invariant
                i < arms@.len(),
                k <= arms@[i as int].pattern@.len(),
                forall|j: int| 0 <= j < i ==> !arm_matches(#[trigger] arms@[j], word@),
                forall|m: int| 0 <= m < k ==> (#[trigger] arms@[i as int].pattern@[m])@ != word@,
            decreases arms@[i as int].pattern@.len() - k,
        {
            if arms[i].pattern[k].eq(word) {
                return Option::Some(i);
            }
            k += 1;
        }
        proof {
            assert(!arm_matches(arms@[i as int], word@));
        }
        i += 1;
    }
    Option::None
}

/// Track a just-started asynchronous command: a running process with a
/// real (positive) pid is registered as a background job in its own
/// group, with itself as the only member, under the lowest free id; an
/// immediate result, a handler-invented nonpositive pid, or a full
/// table leaves the job table alone. Nothing is ever waited for here.
pub fn register_background(os: &mut Os, res: ExitStatus)
    requires
        old(os).wf(),
    ensures
        final(os).wf(),
        final(os).spec_pgid() == old(os).spec_pgid(),
        final(os).term_owner_spec() == old(os).term_owner_spec(),
        final(os).states() == old(os).states(),
        res matches ExitStatus::Running(pid) ==> (if pid > 0 && old(os).jobs_seq().len()
            < usize::MAX {
            final(os).jobs_seq().len() == old(os).jobs_seq().len() + 1
                && final(os).jobs_seq().drop_last() == old(os).jobs_seq()
                && final(os).jobs_seq().last().pgid == pid
                && final(os).jobs_seq().last().processes@ == seq![pid]
                && final(os).jobs_seq().last().jobid.0 >= 1
                && old(os).id_free(final(os).jobs_seq().last().jobid.0)
        } else {
            final(os).jobs_seq() == old(os).jobs_seq()
        }),
        res matches ExitStatus::Exited(_) ==> final(os).jobs_seq() == old(os).jobs_seq(),
{
    if let ExitStatus::Running(pid) = res {
        if pid > 0 {
            let mut members: Vec<i32> = Vec::new();
            members.push(pid);
            proof {
                assert(members@ =~= seq![pid]);
            }
            match os.create_job(pid, members) {
                Result::Ok(_) => {},
                Result::Err(_) => {},
            }
        }
    }
}

/// Release the descriptors that redirect resolution opened: those of
/// the resolved pair that differ from the inherited pair. With no
/// redirects resolved, nothing is requested.
fn close_resolved<E: Fn(&Trace, &EffRequest) -> EffReply>(
    trace: &mut Trace,
    eff: &E,
    cur_stdin: i32,
    cur_stdout: i32,
    stdin: i32,
    stdout: i32,
) -> (r: ())
    requires
        forall|t: &Trace, rq: &EffRequest| call_requires(*eff, (t, rq)),
    ensures
        cur_stdin == stdin && cur_stdout == stdout ==> final(trace).events@ == old(
            trace,
        ).events@,
        old(trace).events@.len() <= final(trace).events@.len(),
        forall|k: int|
            0 <= k < old(trace).events@.len() ==> final(trace).events@[k]
                == old(trace).events@[k],
{
    if cur_stdin != stdin {
        let _ = issue(trace, eff, EffRequest::Close(cur_stdin));
    }
    if cur_stdout != stdout && cur_stdout != cur_stdin {
        let _ = issue(trace, eff, EffRequest::Close(cur_stdout));
    }
}

/// Evaluate the right side of `&&` or `||` given the left side's exit
/// status, or short-circuit.
///
/// Law: when the combinator short-circuits — `&&` with a nonzero left
/// status, `||` with a zero one — the right command is never evaluated:
/// no request of any kind is issued (in particular nothing is spawned),
/// the runtime is untouched, and the left status is the result.
pub fn eval_and_or_rhs<E: Fn(&Trace, &EffRequest) -> EffReply>(
    builtins: &Builtins,
    rt: &mut Runtime,
    os: &mut Os,
    trace: &mut Trace,
    is_and: bool,
    left_status: i32,
    b: &Command,
    stdin: i32,
    stdout: i32,
    depth: u64,
    eff: &E,
) -> (r: Result<ExitStatus, Error>)
    requires
        old(os).wf(),
        forall|t: &Trace, rq: &EffRequest| call_requires(*eff, (t, rq)),
    ensures
        final(os).wf(),
        final(os).spec_pgid() == old(os).spec_pgid(),
        final(os).term_owner_spec() == old(os).term_owner_spec(),
        !combinator_continues(is_and, left_status) ==> r == Ok::<ExitStatus, Error>(
            ExitStatus::Exited(left_status),
        ) && final(trace).events@ == old(trace).events@ && final(rt)@ == old(rt)@
            && final(os).jobs_seq() == old(os).jobs_seq()
            && final(os).states() == old(os).states(),
        old(trace).events@.len() <= final(trace).events@.len(),
        forall|k: int|
            0 <= k < old(trace).events@.len() ==> final(trace).events@[k]
                == old(trace).events@[k],
    decreases depth, *b, 1int,
{
    let goes_on = if is_and {
        left_status == 0
    } else {
        left_status != 0
    };
    if goes_on {
        eval_command(builtins, rt, os, trace, b, stdin, stdout, Option::None, depth, eff)
    } else {
        Result::Ok(ExitStatus::Exited(left_status))
    }
}

/// Evaluate one command tree node against the runtime, wiring its
/// processes to the given stdin and stdout descriptors; `pgid` is the
/// process group handed down from a pipeline's left sibling, and
/// `depth` bounds how deeply function calls may nest.
///
/// The per-node behavior:
/// - `Simple`: resolve redirects left-to-right, substitute every word,
///   then dispatch — a registered builtin runs in-process (never
///   forked, nothing spawned, no request issued when there are no
///   redirects); else a defined function's body is evaluated in-place;
///   else an external process is spawned, joining `pgid` or starting
///   its own group.
/// - `Pipeline(a, b)`: a pipe connects `a`'s stdout to `b`'s stdin;
///   the parent closes the write end right after `a` is wired, and `b`
///   joins `a`'s process group.
/// - `And`/`Or`: the left side's status is collected synchronously and
///   decides, through `eval_and_or_rhs`, whether the right side runs.
/// - `Not`: the inner command's status is passed through unchanged;
///   status inversion is deliberately left open.
/// - `SeqList`: the first command is awaited only when a rest follows;
///   a trailing command's running result is handed to the caller.
/// - `AsyncList`: the first command is never awaited; its process is
///   registered as a background job with the job-control context.
/// - `Subshell`: the inner command is evaluated against a copy of the
///   runtime, so no mutation escapes.
/// - `If`/`While`/`Until`: guards are evaluated to completion in order
///   and decide which bodies run.
/// - `For`: the wordlist is split at spaces and the variable is bound
///   to each word in turn around one evaluation of the body; the last
///   binding stays.
/// - `Case`: the word is substituted and the first arm whose pattern
///   list contains it runs, without falling through.
/// - `Fn`: a reserved word is refused; otherwise the body is installed
///   in the runtime's function table.
/// - `Empty`: immediate success.
pub fn eval_command<E: Fn(&Trace, &EffRequest) -> EffReply>(
    builtins: &Builtins,
    rt: &mut Runtime,
    os: &mut Os,
    trace: &mut Trace,
    cmd: &Command,
    stdin: i32,
    stdout: i32,
    pgid: Option<i32>,
    depth: u64,
    eff: &E,
) -> (r: Result<ExitStatus, Error>)
    requires
        old(os).wf(),
        forall|t: &Trace, rq: &EffRequest| call_requires(*eff, (t, rq)),
    ensures
        final(os).wf(),
        final(os).spec_pgid() == old(os).spec_pgid(),
        final(os).term_owner_spec() == old(os).term_owner_spec(),
        old(trace).events@.len() <= final(trace).events@.len(),
        forall|k: int|
            0 <= k < old(trace).events@.len() ==> final(trace).events@[k]
                == old(trace).events@[k],
        *cmd matches Command::Empty ==> r == Ok::<ExitStatus, Error>(ExitStatus::Exited(0))
            && final(rt)@ == old(rt)@ && final(trace).events@ == old(trace).events@,
        (*cmd matches Command::Simple { assigns: _, redirects: _, args } && args@.len() == 0)
            ==> r == Ok::<ExitStatus, Error>(ExitStatus::Exited(0)) && final(rt)@ == old(rt)@
            && final(trace).events@ == old(trace).events@,
        (*cmd matches Command::Simple { assigns: _, redirects, args } && redirects@.len() == 0
            && args@.len() > 0 && builtins.has(subst_spec(old(rt)@, args@[0]@)))
            ==> final(trace).events@ == old(trace).events@ && (r matches Ok(st) && (st
            matches ExitStatus::Exited(_))),
        *cmd matches Command::Simple { assigns, redirects, args } ==> ((redirects@.len() == 0
            && args@.len() > 0 && !builtins.has(subst_spec(old(rt)@, args@[0]@)) && !old(
            rt,
        )@.functions.contains_key(subst_spec(old(rt)@, args@[0]@))) ==> (exists|
            req: SpawnRequest,
            rep: EffReply,
        |
            #![trigger old(trace).events@.push((EffRequest::Spawn(req), rep))]
            final(trace).events@ == old(trace).events@.push(
                (EffRequest::Spawn(req), rep),
            ) && req.argv@.len() == args@.len() && (forall|k: int|
                0 <= k < args@.len() ==> (#[trigger] req.argv@[k])@ == subst_spec(
                    old(rt)@,
                    args@[k]@,
                )) && req.stdin == stdin && req.stdout == stdout
                && crate::ast::assigns_view(req.assigns@) == crate::ast::assigns_view(assigns@)
                && req.working_dir@ == old(rt)@.working_dir && (match pgid {
                Option::Some(p) => req.pgid == Pgid::Pgid(p),
                Option::None => req.pgid == Pgid::Current,
            }) && (match rep {
                EffReply::Spawned(pid) => r == Ok::<ExitStatus, Error>(ExitStatus::Running(pid)),
                EffReply::Failed(e) => r == Err::<ExitStatus, Error>(Error::Spawn(e)),
                _ => r == Err::<ExitStatus, Error>(Error::Effect),
            }))),
        (*cmd matches Command::Simple { assigns: _, redirects, args } && args@.len() > 0
            && redirects@.len() > 0 && open_kind_of(redirects@[0].mode) is None) ==> r == Err::<
            ExitStatus,
            Error,
        >(Error::UnsupportedRedirect) && final(trace).events@ == old(trace).events@
            && final(rt)@ == old(rt)@,
        *cmd matches Command::Pipeline(_, _) ==> final(trace).events@.len()
            > old(trace).events@.len()
            && ((final(trace).events@[old(trace).events@.len() as int]).0
            matches EffRequest::Pipe)
            && ((final(trace).events@[old(trace).events@.len() as int]).1
            matches EffReply::PipeMade(rd, wr) ==> (exists|j: int|
            old(trace).events@.len() < j < final(trace).events@.len()
                && (#[trigger] final(trace).events@[j]).0 == EffRequest::Close(wr))),
        *cmd matches Command::Subshell(_) ==> final(rt)@ == old(rt)@,
        *cmd matches Command::Fn { fname, body } ==> (if is_reserved_name(fname@) {
            r == Err::<ExitStatus, Error>(Error::FunctionNameReserved) && final(rt)@ == old(rt)@
                && final(trace).events@ == old(trace).events@
        } else {
            r == Ok::<ExitStatus, Error>(ExitStatus::Exited(0)) && final(rt)@ == (RuntimeModel {
                functions: old(rt)@.functions.insert(fname@, crate::ast::cmd_view(*body)),
                ..old(rt)@
            }) && final(trace).events@ == old(trace).events@
        }),
    decreases depth, *cmd, 0int,
{
    match cmd {
        Command::Simple { assigns, redirects, args } => {
            if args.len() == 0 {
                return Result::Ok(ExitStatus::Exited(0));
            }
            let fds = match resolve_redirects(trace, eff, redirects, stdin, stdout) {
                Result::Ok(fds) => fds,
                Result::Err(e) => {
                    proof {
                        if redirects@.len() > 0 && open_kind_of(redirects@[0].mode) is None {
                            let n = trace.events@.len() - old(trace).events@.len();
                            if n > 0 {
                                let j: int = 0;
                                assert((trace.events@[old(trace).events@.len() + j]).0
                                    matches EffRequest::Open(_, _));
                                assert(false);
                            }
                            assert(trace.events@ =~= old(trace).events@);
                        }
                    }
                    return Result::Err(e);
                },
            };
            let (cur_stdin, cur_stdout) = fds;
            proof {
                if redirects@.len() > 0 {
                    let j: int = 0;
                    assert((trace.events@[old(trace).events@.len() + j]).0
                        matches EffRequest::Open(_, _));
                }
            }
            let mut subst_args: Vec<String> = Vec::new();
            let mut i: usize = 0;
            while i < args.len()
                invariant
                    i <= args@.len(),
                    subst_args@.len() == i as int,
                    redirects@.len() > 0 ==> !(open_kind_of(redirects@[0].mode) is None),
                    forall|k: int|
                        0 <= k < i ==> (#[trigger] subst_args@[k])@ == subst_spec(
                            rt@,
                            args@[k]@,
                        ),
                decreases args@.len() - i,
            {
                let expanded = envsubst(rt, &args[i]);
                subst_args.push(expanded);
                i += 1;
            }
            let cmd_name = &subst_args[0];
            match dispatch_simple(builtins, rt, cmd_name) {
                Dispatch::Builtin => {
                    let builtin = match builtins.get(cmd_name) {
                        Option::Some(b) => b,
                        Option::None => {
                            // Unreachable: the dispatch saw the name.
                            proof {
                                assert(false);
                            }
                            return Result::Err(Error::Effect);
                        },
                    };
                    let out = builtin.run(rt, &subst_args);
                    // A builtin uses none of the opened redirect
                    // targets; release them.
                    close_resolved(trace, eff, cur_stdin, cur_stdout, stdin, stdout);
                    return Result::Ok(ExitStatus::Exited(out.status));
                },
                Dispatch::Function(body) => {
                    if depth == 0 {
                        return Result::Err(Error::TooDeep);
                    }
                    // The function body runs on the inherited pair;
                    // release the opened redirect targets.
                    close_resolved(trace, eff, cur_stdin, cur_stdout, stdin, stdout);
                    return eval_command(
                        builtins,
                        rt,
                        os,
                        trace,
                        &body,
                        stdin,
                        stdout,
                        Option::None,
                        depth - 1,
                        eff,
                    );
                },
                Dispatch::External => {},
            }
            let request = SpawnRequest {
                argv: subst_args,
                assigns: crate::ast::clone_assigns(assigns),
                stdin: cur_stdin,
                stdout: cur_stdout,
                pgid: match pgid {
                    Option::Some(p) => Pgid::Pgid(p),
                    Option::None => Pgid::Current,
                },
                working_dir: rt.working_dir.clone(),
            };
            let ghost greq = request;
            let ghost pre_events = trace.events@;
            let reply = issue(trace, eff, EffRequest::Spawn(request));
            proof {
                assert(trace.events@ == pre_events.push((EffRequest::Spawn(greq), reply)));
            }
            // The child holds its own copies now; release the opened
            // redirect targets in the parent.
            close_resolved(trace, eff, cur_stdin, cur_stdout, stdin, stdout);
            match reply {
                EffReply::Spawned(pid) => Result::Ok(ExitStatus::Running(pid)),
                EffReply::Failed(e) => Result::Err(Error::Spawn(e)),
                _ => Result::Err(Error::Effect),
            }
        },
        Command::Pipeline(a, b) => {
            let ghost pipe_idx = trace.events@.len() as int;
            let ends = match issue(trace, eff, EffRequest::Pipe) {
                EffReply::PipeMade(rd, wr) => (rd, wr),
                EffReply::Failed(e) => {
                    return Result::Err(Error::Spawn(e));
                },
                _ => {
                    return Result::Err(Error::Effect);
                },
            };
            let (rd, wr) = ends;
            proof {
                assert(trace.events@[pipe_idx] == (EffRequest::Pipe, EffReply::PipeMade(rd, wr)));
            }
            let a_res = match eval_command(
                builtins,
                rt,
                os,
                trace,
                a,
                stdin,
                wr,
                Option::None,
                depth,
                eff,
            ) {
                Result::Ok(res) => res,
                Result::Err(e) => {
                    let ghost cw = trace.events@.len() as int;
                    let _ = issue(trace, eff, EffRequest::Close(wr));
                    proof {
                        assert((trace.events@[cw]).0 == EffRequest::Close(wr));
                    }
                    let _ = issue(trace, eff, EffRequest::Close(rd));
                    proof {
                        assert((trace.events@[pipe_idx]).1 == EffReply::PipeMade(rd, wr));
                        assert((trace.events@[cw]).0 == EffRequest::Close(wr));
                    }
                    return Result::Err(e);
                },
            };
            let ghost cw = trace.events@.len() as int;
            let _ = issue(trace, eff, EffRequest::Close(wr));
            proof {
                assert((trace.events@[cw]).0 == EffRequest::Close(wr));
            }
            let next_pgid = match a_res {
                ExitStatus::Running(pid) => Option::Some(pid),
                ExitStatus::Exited(_) => Option::None,
            };
            let b_res = eval_command(
                builtins,
                rt,
                os,
                trace,
                b,
                rd,
                stdout,
                next_pgid,
                depth,
                eff,
            );
            let _ = issue(trace, eff, EffRequest::Close(rd));
            proof {
                assert((trace.events@[pipe_idx]).1 == EffReply::PipeMade(rd, wr));
                assert((trace.events@[cw]).0 == EffRequest::Close(wr));
            }
            b_res
        },
        Command::And(a, b) => {
            let a_res = eval_command(
                builtins,
                rt,
                os,
                trace,
                a,
                stdin,
                stdout,
                Option::None,
                depth,
                eff,
            )?;
            let st = wait_status(trace, eff, a_res)?;
            rt.exit_status = st;
            eval_and_or_rhs(builtins, rt, os, trace, true, st, b, stdin, stdout, depth, eff)
        },
        Command::Or(a, b) => {
            let a_res = eval_command(
                builtins,
                rt,
                os,
                trace,
                a,
                stdin,
                stdout,
                Option::None,
                depth,
                eff,
            )?;
            let st = wait_status(trace, eff, a_res)?;
            rt.exit_status = st;
            eval_and_or_rhs(builtins, rt, os, trace, false, st, b, stdin, stdout, depth, eff)
        },
        Command::Not(inner) => {
            // Status inversion is deliberately not applied here.
            eval_command(builtins, rt, os, trace, inner, stdin, stdout, Option::None, depth, eff)
        },
        Command::SeqList(a, b) => {
            let a_res = eval_command(
                builtins,
                rt,
                os,
                trace,
                a,
                stdin,
                stdout,
                Option::None,
                depth,
                eff,
            )?;
            match b {
                Option::None => Result::Ok(a_res),
                Option::Some(bc) => {
                    let st = wait_status(trace, eff, a_res)?;
                    rt.exit_status = st;
                    eval_command(
                        builtins,
                        rt,
                        os,
                        trace,
                        bc,
                        stdin,
                        stdout,
                        Option::None,
                        depth,
                        eff,
                    )
                },
            }
        },
        Command::AsyncList(a, b) => {
            let a_res = eval_command(
                builtins,
                rt,
                os,
                trace,
                a,
                stdin,
                stdout,
                Option::None,
                depth,
                eff,
            )?;
            register_background(os, a_res);
            match b {
                Option::None => Result::Ok(ExitStatus::Exited(0)),
                Option::Some(bc) => eval_command(
                    builtins,
                    rt,
                    os,
                    trace,
                    bc,
                    stdin,
                    stdout,
                    Option::None,
                    depth,
                    eff,
                ),
            }
        },
        Command::Subshell(inner) => {
            let mut sub_rt = rt.clone_runtime();
            eval_command(
                builtins,
                &mut sub_rt,
                os,
                trace,
                inner,
                stdin,
                stdout,
                Option::None,
                depth,
                eff,
            )
        },
        Command::If { conds, else_part } => {
            let mut i: usize = 0;
            while i < conds.len()
                invariant
                    os.wf(),
                    os.spec_pgid() == old(os).spec_pgid(),
                    os.term_owner_spec() == old(os).term_owner_spec(),
                    old(trace).events@.len() <= trace.events@.len(),
                    forall|k: int|
                        0 <= k < old(trace).events@.len() ==> trace.events@[k] == old(
                            trace,
                        ).events@[k],
                    forall|t: &Trace, rq: &EffRequest| call_requires(*eff, (t, rq)),
                    i <= conds@.len(),
                    *cmd matches Command::If { conds: cc, else_part: _ } && cc == *conds,
                decreases conds@.len() - i,
            {
                proof {
                    broadcast use vstd::std_specs::vec::axiom_vec_index_decreases;

                    assert(decreases_to!(*cmd => *conds));
                    assert(decreases_to!(*conds => conds@[i as int]));
                    assert(decreases_to!(*cmd => *conds@[i as int].cond));
                    assert(decreases_to!(*cmd => *conds@[i as int].body));
                }
                let cond_res = eval_command(
                    builtins,
                    rt,
                    os,
                    trace,
                    &conds[i].cond,
                    stdin,
                    stdout,
                    Option::None,
                    depth,
                    eff,
                )?;
                let st = wait_status(trace, eff, cond_res)?;
                rt.exit_status = st;
                if guard_continues(false, st) {
                    return eval_command(
                        builtins,
                        rt,
                        os,
                        trace,
                        &conds[i].body,
                        stdin,
                        stdout,
                        Option::None,
                        depth,
                        eff,
                    );
                }
                i += 1;
            }
            match else_part {
                Option::Some(e) => eval_command(
                    builtins,
                    rt,
                    os,
                    trace,
                    e,
                    stdin,
                    stdout,
                    Option::None,
                    depth,
                    eff,
                ),
                Option::None => Result::Ok(ExitStatus::Exited(0)),
            }
        },
        Command::While { cond, body } | Command::Until { cond, body } => {
            let negate: bool = match cmd {
                Command::Until { cond: _, body: _ } => true,
                _ => false,
            };
            let mut fuel: u64 = u64::MAX;
            loop
                invariant
                    os.wf(),
                    os.spec_pgid() == old(os).spec_pgid(),
                    os.term_owner_spec() == old(os).term_owner_spec(),
                    old(trace).events@.len() <= trace.events@.len(),
                    forall|k: int|
                        0 <= k < old(trace).events@.len() ==> trace.events@[k] == old(
                            trace,
                        ).events@[k],
                    forall|t: &Trace, rq: &EffRequest| call_requires(*eff, (t, rq)),
                    (*cmd matches Command::While { cond: c1, body: b1 } && c1 == *cond && b1
                        == *body) || (*cmd matches Command::Until { cond: c1, body: b1 } && c1
                        == *cond && b1 == *body),
                decreases fuel,
            {
                let cond_res = eval_command(
                    builtins,
                    rt,
                    os,
                    trace,
                    cond,
                    stdin,
                    stdout,
                    Option::None,
                    depth,
                    eff,
                )?;
                let st = wait_status(trace, eff, cond_res)?;
                rt.exit_status = st;
                let goes_on = guard_continues(negate, st);
                if !goes_on {
                    break;
                }
                let body_res = eval_command(
                    builtins,
                    rt,
                    os,
                    trace,
                    body,
                    stdin,
                    stdout,
                    Option::None,
                    depth,
                    eff,
                )?;
                let bst = wait_status(trace, eff, body_res)?;
                rt.exit_status = bst;
                if fuel == 0 {
                    return Result::Err(Error::TooDeep);
                }
                fuel = fuel - 1;
            }
            Result::Ok(ExitStatus::Exited(0))
        },
        Command::For { name, wordlist, body } => {
            let words = expand_wordlist(wordlist);
            let mut i: usize = 0;
            while i < words.len()
                invariant
                    os.wf(),
                    os.spec_pgid() == old(os).spec_pgid(),
                    os.term_owner_spec() == old(os).term_owner_spec(),
                    old(trace).events@.len() <= trace.events@.len(),
                    forall|k: int|
                        0 <= k < old(trace).events@.len() ==> trace.events@[k] == old(
                            trace,
                        ).events@[k],
                    forall|t: &Trace, rq: &EffRequest| call_requires(*eff, (t, rq)),
                    i <= words@.len(),
                    *cmd matches Command::For { name: n1, wordlist: _, body: b1 } && n1 == *name
                        && b1 == *body,
                decreases words@.len() - i,
            {
                rt.env.set(name, &words[i]);
                let body_res = eval_command(
                    builtins,
                    rt,
                    os,
                    trace,
                    body,
                    stdin,
                    stdout,
                    Option::None,
                    depth,
                    eff,
                )?;
                let st = wait_status(trace, eff, body_res)?;
                rt.exit_status = st;
                i += 1;
            }
            Result::Ok(ExitStatus::Exited(0))
        },
        Command::Case { word, arms } => {
            let subst_word = envsubst(rt, word);
            match find_case_arm(arms, &subst_word) {
                Option::Some(i) => {
                    proof {
                        broadcast use vstd::std_specs::vec::axiom_vec_index_decreases;

                        assert(decreases_to!(*cmd => *arms));
                        assert(decreases_to!(*arms => arms@[i as int]));
                        assert(decreases_to!(*cmd => *arms@[i as int].body));
                    }
                    let body_res = eval_command(
                        builtins,
                        rt,
                        os,
                        trace,
                        &arms[i].body,
                        stdin,
                        stdout,
                        Option::None,
                        depth,
                        eff,
                    )?;
                    let st = wait_status(trace, eff, body_res)?;
                    rt.exit_status = st;
                    Result::Ok(ExitStatus::Exited(0))
                },
                Option::None => Result::Ok(ExitStatus::Exited(0)),
            }
        },
        Command::Fn { fname, body } => {
            if is_reserved_word(fname) {
                Result::Err(Error::FunctionNameReserved)
            } else {
                let body_copy = crate::ast::clone_command(body);
                rt.define_function(fname, body_copy);
                Result::Ok(ExitStatus::Exited(0))
            }
        },
        Command::Empty => Result::Ok(ExitStatus::Exited(0)),
    }
}

/// Whether a word is reserved.
pub fn is_reserved_word(s: &String) -> (r: bool)
    ensures
        r == is_reserved_name(s@),
{
    s.eq(&String::from_str("if")) || s.eq(&String::from_str("then")) || s.eq(
        &String::from_str("else"),
    ) || s.eq(&String::from_str("elif")) || s.eq(&String::from_str("fi")) || s.eq(
        &String::from_str("do"),
    ) || s.eq(&String::from_str("done")) || s.eq(&String::from_str("case")) || s.eq(
        &String::from_str("esac"),
    ) || s.eq(&String::from_str("while")) || s.eq(&String::from_str("until")) || s.eq(
        &String::from_str("for"),
    ) || s.eq(&String::from_str("in"))
}

} // verus!
