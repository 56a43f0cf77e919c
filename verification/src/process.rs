//! Job control: processes, jobs, the table of process exit states and
//! the context (`Os`) that owns the shell's process group, the saved
//! terminal mode and terminal foreground ownership.
//!
//! Every operating-system call is made through a small trusted wrapper
//! around one `nix` function; the decisions around the calls are
//! verified. Waiting is done with blocking wait-any calls.

use vstd::prelude::*;

use nix::sys::wait::{waitpid, WaitPidFlag, WaitStatus};
use nix::unistd::Pid;

verus! {

/// A single OS process: its id and the argument vector it ran.
pub struct Process {
    /// Process id.
    pub pid: i32,
    /// List of args passed to the process.
    pub argv: Vec<String>,
}

/// Unique identifier of a tracked job.
#[derive(Debug, PartialEq, Eq, Structural, Hash, Clone, Copy)]
pub struct JobId(pub usize);

/// A job corresponds to a pipeline of processes.
pub struct Job {
    pub jobid: JobId,
    /// Process group id.
    pub pgid: i32,
    /// All of the processes in this job.
    pub processes: Vec<i32>,
}

/// Execution context for a process: the stdio triple and the flags the
/// launcher needs.
pub struct Context {
    pub stdin: i32,
    pub stdout: i32,
    pub stderr: i32,
    /// Is the current job running in the foreground.
    pub is_foreground: bool,
    /// Is the shell in interactive mode.
    pub is_interactive: bool,
}

/// What the shell knows of one process.
#[derive(Debug, PartialEq, Eq, Structural, Clone, Copy)]
pub enum ProcessState {
    Running,
    Exited(i32),
}

/// What evaluating a command produced: a finished status, or a spawned
/// process to wait on.
#[derive(Debug, PartialEq, Eq, Structural, Clone, Copy)]
pub enum ExitStatus {
    Exited(i32),
    Running(i32),
}

/// Which process group a spawned process joins.
pub enum Pgid {
    /// Use the process's own pid as a new group.
    Current,
    /// Join a specific existing group.
    Pgid(i32),
}

/// The group a child joins: its own pid when it starts a group, else
/// the group handed down from its pipeline sibling.
pub fn resolve_pgid(pgid: &Pgid, own_pid: i32) -> (r: i32)
    ensures
        r == (match *pgid {
            Pgid::Current => own_pid,
            Pgid::Pgid(p) => p,
        }),
{
    match pgid {
        Pgid::Current => own_pid,
        Pgid::Pgid(p) => *p,
    }
}

/// The duplications a child installs on its standard descriptors,
/// in order, skipping any descriptor already in its target slot.
pub fn plan_child_dups(ctx: &Context) -> (r: Vec<(i32, i32)>)
    ensures
        r@ == dup_plan(*ctx),
{
    let mut r: Vec<(i32, i32)> = Vec::new();
    if ctx.stdin != 0 {
        r.push((ctx.stdin, 0));
    }
    if ctx.stdout != 1 {
        r.push((ctx.stdout, 1));
    }
    if ctx.stderr != 2 {
        r.push((ctx.stderr, 2));
    }
    proof {
        assert(r@ =~= dup_plan(*ctx));
    }
    r
}

/// The descriptor substitutions a context calls for.
pub open spec fn dup_plan(ctx: Context) -> Seq<(i32, i32)> {
    let a: Seq<(i32, i32)> = if ctx.stdin != 0 {
        seq![(ctx.stdin, 0)]
    } else {
        Seq::empty()
    };
    let b: Seq<(i32, i32)> = if ctx.stdout != 1 {
        seq![(ctx.stdout, 1)]
    } else {
        Seq::empty()
    };
    let c: Seq<(i32, i32)> = if ctx.stderr != 2 {
        seq![(ctx.stderr, 2)]
    } else {
        Seq::empty()
    };
    a + b + c
}

/// Errors of the job-control layer.
#[derive(Debug, PartialEq, Eq, Structural, Clone, Copy)]
pub enum OsError {
    /// A job id that is not tracked: a programming error of the caller.
    JobNotFound,
    /// The controlling terminal is not a terminal: the shell cannot
    /// run its own job control.
    NotATty,
    /// The polling budget ran out before the job finished.
    WaitBudget,
    /// The job table cannot hold another entry.
    TableFull,
    /// An operating-system call failed, with its errno value.
    Sys(i32),
}

/// Terminal mode settings of the controlling terminal.
#[verifier::external_type_specification]
#[verifier::external_body]
pub struct ExTermios(nix::sys::termios::Termios);

/// What one wait call reported.
pub enum WaitEvent {
    /// A child exited with a code.
    Exited(i32, i32),
    /// A child was killed by a signal.
    Signaled(i32, i32),
    /// A child changed state some other way (stopped, continued).
    Other(i32),
    /// No child has changed state.
    StillAlive,
}

/// A signal the shell sends to a process group.
pub enum SigKind {
    /// Continue a stopped job.
    Cont,
    /// Ask to be stopped until scheduled into the foreground.
    TtyIn,
}

/// Relies on nix::sys::wait::waitpid with pid None: reports a state
/// change of some child of this process; with `blocking` false it
/// returns at once when none has changed state. Which child and which
/// event come back depend on the machine, so nothing more is promised.
#[verifier::external_body]
fn waitpid_any(blocking: bool) -> (r: Result<WaitEvent, i32>)
{
    let base = WaitPidFlag::WUNTRACED;
    let flags = if blocking { base } else { base | WaitPidFlag::WNOHANG };
    match waitpid(Option::<Pid>::None, Option::Some(flags)) {
        Ok(WaitStatus::Exited(pid, code)) => Ok(WaitEvent::Exited(pid.as_raw(), code)),
        Ok(WaitStatus::Signaled(pid, sig, _)) => Ok(WaitEvent::Signaled(pid.as_raw(), sig as i32)),
        Ok(WaitStatus::StillAlive) => Ok(WaitEvent::StillAlive),
        Ok(other) => Ok(WaitEvent::Other(other.pid().map(Pid::as_raw).unwrap_or(0))),
        Err(e) => Err(e as i32),
    }
}

/// Relies on nix::sys::signal::kill on a negative pid: delivers the
/// signal to every member of the process group. Only a positive group
/// id names a group this way (zero would mean the caller's own group,
/// and the smallest negative number cannot be negated).
#[verifier::external_body]
fn kill_group(pgid: i32, sig: SigKind) -> (r: Result<(), i32>)
    requires
        pgid > 0,
{
    let signal = match sig {
        SigKind::Cont => nix::sys::signal::Signal::SIGCONT,
        SigKind::TtyIn => nix::sys::signal::Signal::SIGTTIN,
    };
    match nix::sys::signal::kill(nix::unistd::Pid::from_raw(-pgid), signal) {
        Ok(()) => Ok(()),
        Err(e) => Err(e as i32),
    }
}

/// Relies on nix::unistd::getpid: the calling process's id, a positive
/// number.
#[verifier::external_body]
fn getpid_raw() -> (r: i32)
    ensures
        r > 0,
{
    nix::unistd::getpid().as_raw()
}

/// Relies on nix::unistd::getpgrp: the calling process's group id, a
/// positive number.
#[verifier::external_body]
fn getpgrp_raw() -> (r: i32)
    ensures
        r > 0,
{
    nix::unistd::getpgrp().as_raw()
}

/// Relies on nix::unistd::setpgid: moves the process into the group.
#[verifier::external_body]
fn setpgid_raw(pid: i32, pgid: i32) -> (r: Result<(), i32>)
{
    match nix::unistd::setpgid(nix::unistd::Pid::from_raw(pid), nix::unistd::Pid::from_raw(pgid)) {
        Ok(()) => Ok(()),
        Err(e) => Err(e as i32),
    }
}

/// Relies on nix::unistd::tcgetpgrp: the process group that owns the
/// terminal open on the descriptor.
#[verifier::external_body]
fn tcgetpgrp_raw(fd: i32) -> (r: Result<i32, i32>)
{
    match nix::unistd::tcgetpgrp(fd) {
        Ok(pid) => Ok(pid.as_raw()),
        Err(e) => Err(e as i32),
    }
}

/// Relies on nix::unistd::isatty: whether the descriptor is a terminal.
#[verifier::external_body]
fn isatty_raw(fd: i32) -> (r: Result<bool, i32>)
{
    match nix::unistd::isatty(fd) {
        Ok(b) => Ok(b),
        Err(e) => Err(e as i32),
    }
}

/// Relies on nix::sys::termios::tcgetattr: the terminal's current mode
/// settings.
#[verifier::external_body]
fn tcgetattr_raw(fd: i32) -> (r: Result<nix::sys::termios::Termios, i32>)
{
    match nix::sys::termios::tcgetattr(fd) {
        Ok(t) => Ok(t),
        Err(e) => Err(e as i32),
    }
}

/// Relies on nix::sys::termios::tcsetattr with TCSADRAIN: restores the
/// given mode settings once pending output has drained.
#[verifier::external_body]
fn tcsetattr_raw(fd: i32, tmods: &nix::sys::termios::Termios) -> (r: Result<(), i32>)
{
    match nix::sys::termios::tcsetattr(fd, nix::sys::termios::SetArg::TCSADRAIN, tmods) {
        Ok(()) => Ok(()),
        Err(e) => Err(e as i32),
    }
}

/// Relies on nix::unistd::pipe: a fresh connected pair of descriptors,
/// read end first.
#[verifier::external_body]
pub(crate) fn make_pipe() -> (r: Result<(i32, i32), i32>)
{
    match nix::unistd::pipe() {
        Ok((rd, wr)) => Ok((rd, wr)),
        Err(e) => Err(e as i32),
    }
}

/// Relies on nix::unistd::close: releases the descriptor.
#[verifier::external_body]
pub(crate) fn close_fd(fd: i32) -> (r: Result<(), i32>)
{
    match nix::unistd::close(fd) {
        Ok(()) => Ok(()),
        Err(e) => Err(e as i32),
    }
}

/// Relies on nix::unistd::dup2: installs `oldfd` onto slot `newfd`.
#[verifier::external_body]
pub(crate) fn dup_fd(oldfd: i32, newfd: i32) -> (r: Result<(), i32>)
{
    match nix::unistd::dup2(oldfd, newfd) {
        Ok(_) => Ok(()),
        Err(e) => Err(e as i32),
    }
}

/// Relies on nix::unistd::tcsetpgrp: on success the process group owns
/// the terminal open on the descriptor. Only `Os::claim_terminal` calls
/// this, so the context's model of terminal ownership stays in step.
#[verifier::external_body]
fn tcsetpgrp_raw(fd: i32, pgid: i32) -> (r: Result<(), i32>)
{
    match nix::unistd::tcsetpgrp(fd, nix::unistd::Pid::from_raw(pgid)) {
        Ok(()) => Ok(()),
        Err(e) => Err(e as i32),
    }
}

/// No job in the list uses this id.
pub open spec fn seq_id_free(jobs: Seq<Job>, id: usize) -> bool {
    forall|k: int| 0 <= k < jobs.len() ==> (#[trigger] jobs[k]).jobid.0 != id
}

/// The map the process-state list denotes; later entries override.
pub open spec fn pstate_map(s: Seq<(i32, ProcessState)>) -> Map<i32, ProcessState>
    decreases s.len(),
{
    if s.len() == 0 {
        Map::empty()
    } else {
        pstate_map(s.drop_last()).insert(s.last().0, s.last().1)
    }
}

/// Context holding the state of processes and jobs: the shell's own
/// process group, the terminal mode saved at startup, the job table and
/// the per-process exit states. The ghost field tracks which process
/// group the context last handed the terminal to.
pub struct Os {
    pgid: i32,
    tmods: Option<nix::sys::termios::Termios>,
    jobs: Vec<Job>,
    proc_state: Vec<(i32, ProcessState)>,
    term_owner: Ghost<int>,
}

impl Os {
    /// The tracked jobs, in creation order.
    pub closed spec fn jobs_seq(self) -> Seq<Job> {
        self.jobs@
    }

    /// What the context knows of each process.
    pub closed spec fn states(self) -> Map<i32, ProcessState> {
        pstate_map(self.proc_state@)
    }

    /// The shell's own process group id.
    pub closed spec fn spec_pgid(self) -> i32 {
        self.pgid
    }

    /// The process group the context last handed the terminal to.
    pub closed spec fn term_owner_spec(self) -> int {
        self.term_owner@
    }

    /// No tracked job uses this id.
    pub open spec fn id_free(self, id: usize) -> bool {
        seq_id_free(self.jobs_seq(), id)
    }

    /// Job ids are unique while their jobs are live, and every job
    /// names a real (positive) process group.
    pub open spec fn wf(self) -> bool {
        (forall|k1: int, k2: int|
            0 <= k1 < k2 < self.jobs_seq().len() ==> (#[trigger] self.jobs_seq()[k1]).jobid.0 != (
            #[trigger] self.jobs_seq()[k2]).jobid.0) && (forall|k: int|
            0 <= k < self.jobs_seq().len() ==> (#[trigger] self.jobs_seq()[k]).pgid > 0)
    }

    /// The context has seen this process exit.
    pub open spec fn pid_exited(self, pid: i32) -> bool {
        self.states().contains_key(pid) && self.states()[pid] matches ProcessState::Exited(_)
    }

    /// Every member of the list has exited.
    pub open spec fn members_exited(self, processes: Seq<i32>) -> bool {
        forall|k: int| 0 <= k < processes.len() ==> self.pid_exited(#[trigger] processes[k])
    }

    /// A context detached from any terminal, for a shell that does not
    /// own one: empty tables and the given process group.
    pub fn new(pgid: i32) -> (r: Os)
        ensures
            r.wf(),
            r.jobs_seq() == Seq::<Job>::empty(),
            r.states() == Map::<i32, ProcessState>::empty(),
            r.spec_pgid() == pgid,
            r.term_owner_spec() == pgid as int,
    {
        Os {
            pgid,
            tmods: Option::None,
            jobs: Vec::new(),
            proc_state: Vec::new(),
            term_owner: Ghost(pgid as int),
        }
    }

    /// The shell's own process group id.
    pub fn shell_pgid(&self) -> (r: i32)
        ensures
            r == self.spec_pgid(),
    {
        self.pgid
    }

    /// Initialize job control for an interactive shell: check the
    /// controlling terminal, wait to be scheduled into the foreground,
    /// take a fresh process group, claim the terminal and save its
    /// mode. The host must have set the shell's signal dispositions
    /// (ignoring the job-control signals) before calling this.
    pub fn init_shell() -> (r: Result<Os, OsError>)
        ensures
            r matches Ok(os) ==> os.wf() && os.jobs_seq() == Seq::<Job>::empty() && os.states()
                == Map::<i32, ProcessState>::empty() && os.term_owner_spec() == os.spec_pgid()
                as int && os.spec_pgid() > 0,
    {
        let shell_term = 0i32;
        match isatty_raw(shell_term) {
            Result::Ok(true) => {},
            Result::Ok(false) => {
                return Result::Err(OsError::NotATty);
            },
            Result::Err(e) => {
                return Result::Err(OsError::Sys(e));
            },
        }
        let mut budget: u64 = 1000000;
        loop
            invariant
                true,
            decreases budget,
        {
            let fg = match tcgetpgrp_raw(shell_term) {
                Result::Ok(p) => p,
                Result::Err(e) => {
                    return Result::Err(OsError::Sys(e));
                },
            };
            let own = getpgrp_raw();
            if fg == own {
                break;
            }
            if let Result::Err(e) = kill_group(own, SigKind::TtyIn) {
                return Result::Err(OsError::Sys(e));
            }
            if budget == 0 {
                return Result::Err(OsError::WaitBudget);
            }
            budget = budget - 1;
        }
        let pid = getpid_raw();
        if let Result::Err(e) = setpgid_raw(pid, pid) {
            return Result::Err(OsError::Sys(e));
        }
        let mut os = Os {
            pgid: pid,
            tmods: Option::None,
            jobs: Vec::new(),
            proc_state: Vec::new(),
            term_owner: Ghost(0int),
        };
        if let Result::Err(e) = os.claim_terminal(pid) {
            return Result::Err(e);
        }
        match tcgetattr_raw(shell_term) {
            Result::Ok(t) => {
                os.tmods = Option::Some(t);
            },
            Result::Err(e) => {
                return Result::Err(OsError::Sys(e));
            },
        }
        Result::Ok(os)
    }

    /// Hand the terminal to the given process group, keeping the
    /// context's model of ownership in step with the call.
    fn claim_terminal(&mut self, pgid: i32) -> (r: Result<(), OsError>)
        ensures
            r.is_ok() ==> final(self).term_owner@ == pgid as int,
            r.is_err() ==> final(self).term_owner@ == old(self).term_owner@,
            r matches Err(x) ==> (x matches OsError::Sys(_)),
            final(self).pgid == old(self).pgid,
            final(self).jobs == old(self).jobs,
            final(self).proc_state == old(self).proc_state,
            final(self).tmods == old(self).tmods,
            final(self).jobs_seq() == old(self).jobs_seq(),
            final(self).states() == old(self).states(),
            final(self).spec_pgid() == old(self).spec_pgid(),
    {
        match tcsetpgrp_raw(0, pgid) {
            Result::Ok(()) => {
                self.term_owner = Ghost(pgid as int);
                Result::Ok(())
            },
            Result::Err(e) => Result::Err(OsError::Sys(e)),
        }
    }

    /// Register a new job under the lowest free id; the job table
    /// would have to fill the whole address space for this to fail.
    /// The group id must name a real group: a positive number.
    pub fn create_job(&mut self, pgid: i32, processes: Vec<i32>) -> (r: Result<
        JobId,
        OsError,
    >)
        requires
            old(self).wf(),
            pgid > 0,
        ensures
            r.is_ok() <==> old(self).jobs_seq().len() < usize::MAX,
            r.is_err() ==> final(self).jobs_seq() == old(self).jobs_seq(),
            r matches Ok(id) ==> id.0 >= 1 && old(self).id_free(id.0) && (forall|j: usize|
                1 <= j < id.0 ==> !old(self).id_free(j)) && final(self).jobs_seq().len() == old(
                self,
            ).jobs_seq().len() + 1 && final(self).jobs_seq().drop_last() == old(self).jobs_seq()
                && final(self).jobs_seq().last().jobid == id && final(self).jobs_seq().last().pgid
                == pgid && final(self).jobs_seq().last().processes@ == processes@,
            final(self).wf(),
            final(self).states() == old(self).states(),
            final(self).spec_pgid() == old(self).spec_pgid(),
            final(self).term_owner_spec() == old(self).term_owner_spec(),
    {
        if self.jobs.len() == usize::MAX {
            return Result::Err(OsError::TableFull);
        }
        let jobid = self.find_free_job_id();
        let new_job = Job { jobid, pgid, processes };
        self.jobs.push(new_job);
        proof {
            assert(self.jobs@.drop_last() =~= old(self).jobs@);
        }
        Result::Ok(jobid)
    }

    /// Whether some tracked job carries this id.
    fn contains_job_id(&self, id: usize) -> (r: bool)
        ensures
            r == !self.id_free(id),
    {
        let mut k: usize = 0;
        while k < self.jobs.len()
            invariant
                k <= self.jobs@.len(),
                forall|m: int| 0 <= m < k ==> (#[trigger] self.jobs@[m]).jobid.0 != id,
            decreases self.jobs@.len() - k,
        {
            if self.jobs[k].jobid.0 == id {
                return true;
            }
            k += 1;
        }
        false
    }

    /// The lowest id not in use, starting from 1.
    fn find_free_job_id(&self) -> (id: JobId)
        requires
            self.jobs_seq().len() < usize::MAX,
        ensures
            id.0 >= 1,
            self.id_free(id.0),
            forall|j: usize| 1 <= j < id.0 ==> !self.id_free(j),
    {
        let mut id: usize = 1;
        while self.contains_job_id(id)
            invariant
                1 <= id <= self.jobs@.len() + 1,
                self.jobs_seq().len() < usize::MAX,
                forall|j: usize| 1 <= j < id ==> !self.id_free(j),
            decreases self.jobs@.len() + 1 - id,
        {
            proof {
                assert forall|j: usize| 1 <= j <= id implies !seq_id_free(self.jobs@, j) by {
                    if j < id {
                        assert(!self.id_free(j));
                    } else {
                        assert(!self.id_free(id));
                    }
                }
                lemma_taken_ids_bound(self.jobs@, id);
            }
            id = id + 1;
        }
        JobId(id)
    }

    /// Record what a wait reported of one process.
    fn set_process_state(&mut self, pid: i32, state: ProcessState)
        ensures
            final(self).states() == old(self).states().insert(pid, state),
            final(self).jobs_seq() == old(self).jobs_seq(),
            final(self).spec_pgid() == old(self).spec_pgid(),
            final(self).term_owner_spec() == old(self).term_owner_spec(),
            final(self).pgid == old(self).pgid,
            final(self).jobs == old(self).jobs,
            final(self).tmods == old(self).tmods,
    {
        self.proc_state.push((pid, state));
        proof {
            assert(self.proc_state@.drop_last() =~= old(self).proc_state@);
        }
    }

    /// The recorded state of a process, if the context has one.
    pub fn get_process_state(&self, pid: i32) -> (r: Option<ProcessState>)
        ensures
            match r {
                Option::Some(st) => self.states().contains_key(pid) && st == self.states()[pid],
                Option::None => !self.states().contains_key(pid),
            },
    {
        let mut i: usize = self.proc_state.len();
        while i > 0
            invariant
                i <= self.proc_state@.len(),
                forall|k: int|
                    i <= k < self.proc_state@.len() ==> (#[trigger] self.proc_state@[k]).0 != pid,
            decreases i,
        {
            i = i - 1;
            if self.proc_state[i].0 == pid {
                proof {
                    lemma_pstate_suffix_lookup(self.proc_state@, i as int, pid);
                }
                return Option::Some(self.proc_state[i].1);
            }
        }
        proof {
            lemma_pstate_contains(self.proc_state@, pid);
        }
        Option::None
    }

    /// What one wait event records: a normal exit keeps its code, a
    /// signal death becomes 128 plus the signal number (255 for a
    /// number outside the signal range), anything else records nothing.
    pub open spec fn event_code(ev: WaitEvent) -> Option<(i32, i32)> {
        match ev {
            WaitEvent::Exited(pid, code) => Option::Some((pid, code)),
            WaitEvent::Signaled(pid, sig) => Option::Some(
                (pid, if 0 < sig && sig < 127 {
                    (128 + sig) as i32
                } else {
                    255
                }),
            ),
            WaitEvent::Other(_) => Option::None,
            WaitEvent::StillAlive => Option::None,
        }
    }

    /// Record what one wait event says of a process: exactly the exit
    /// state `event_code` assigns, and nothing for the other events.
    pub fn record_wait_event(&mut self, ev: WaitEvent) -> (r: Option<i32>)
        ensures
            final(self).jobs_seq() == old(self).jobs_seq(),
            final(self).spec_pgid() == old(self).spec_pgid(),
            final(self).term_owner_spec() == old(self).term_owner_spec(),
            match Os::event_code(ev) {
                Option::Some((pid, code)) => r == Option::Some(pid) && final(self).states() == old(
                    self,
                ).states().insert(pid, ProcessState::Exited(code)),
                Option::None => r is None && final(self).states() == old(self).states(),
            },
    {
        match ev {
            WaitEvent::Exited(pid, code) => {
                self.set_process_state(pid, ProcessState::Exited(code));
                Option::Some(pid)
            },
            WaitEvent::Signaled(pid, sig) => {
                let code: i32 = if 0 < sig && sig < 127 {
                    128 + sig
                } else {
                    255
                };
                self.set_process_state(pid, ProcessState::Exited(code));
                Option::Some(pid)
            },
            WaitEvent::Other(_) => Option::None,
            WaitEvent::StillAlive => Option::None,
        }
    }

    /// One wait step: ask the system for a child that changed state and
    /// record, through `record_wait_event`, exactly what was reported.
    /// With `blocking` it does not return until some child changed
    /// state. Which child and which event come back depend on the
    /// machine; whatever came back, recorded states only gain exits.
    pub fn wait_for_any_process(&mut self, blocking: bool) -> (r: Result<Option<i32>, OsError>)
        ensures
            final(self).jobs_seq() == old(self).jobs_seq(),
            final(self).spec_pgid() == old(self).spec_pgid(),
            final(self).term_owner_spec() == old(self).term_owner_spec(),
            r matches Err(x) ==> (x matches OsError::Sys(_)),
            match r {
                Result::Ok(Option::Some(pid)) => final(self).states().contains_key(pid) && (
                final(self).states()[pid] matches ProcessState::Exited(_)) && final(self).states()
                    == old(self).states().insert(pid, final(self).states()[pid]),
                Result::Ok(Option::None) => final(self).states() == old(self).states(),
                Result::Err(_) => final(self).states() == old(self).states(),
            },
    {
        match waitpid_any(blocking) {
            Result::Ok(ev) => Result::Ok(self.record_wait_event(ev)),
            Result::Err(e) => Result::Err(OsError::Sys(e)),
        }
    }
}

impl Job {
    /// A job has completed when all of its processes have exited.
    pub fn exited(&self, os: &Os) -> (r: bool)
        ensures
            r == os.members_exited(self.processes@),
    {
        let mut k: usize = 0;
        while k < self.processes.len()
            invariant
                k <= self.processes@.len(),
                forall|m: int| 0 <= m < k ==> os.pid_exited(#[trigger] self.processes@[m]),
            decreases self.processes@.len() - k,
        {
            match os.get_process_state(self.processes[k]) {
                Option::Some(ProcessState::Exited(_)) => {},
                _ => {
                    return false;
                },
            }
            k += 1;
        }
        true
    }

    /// The recorded state of the job's last process, if any.
    pub fn last_process_state(&self, os: &Os) -> (r: Option<ProcessState>)
        ensures
            match r {
                Option::Some(st) => self.processes@.len() > 0 && os.states().contains_key(
                    self.processes@.last(),
                ) && st == os.states()[self.processes@.last()],
                Option::None => self.processes@.len() == 0 || !os.states().contains_key(
                    self.processes@.last(),
                ),
            },
    {
        if self.processes.len() == 0 {
            return Option::None;
        }
        os.get_process_state(self.processes[self.processes.len() - 1])
    }
}

impl Os {
    /// The position of the job with this id, if it is tracked.
    fn find_job_index(&self, jobid: JobId) -> (r: Option<usize>)
        ensures
            match r {
                Option::Some(i) => i < self.jobs_seq().len() && self.jobs_seq()[i as int].jobid
                    == jobid,
                Option::None => self.id_free(jobid.0),
            },
    {
        let mut k: usize = 0;
        while k < self.jobs.len()
            invariant
                k <= self.jobs@.len(),
                forall|m: int| 0 <= m < k ==> (#[trigger] self.jobs@[m]).jobid.0 != jobid.0,
            decreases self.jobs@.len() - k,
        {
            if self.jobs[k].jobid.0 == jobid.0 {
                return Option::Some(k);
            }
            k += 1;
        }
        Option::None
    }

    /// Drop a job from the table.
    fn remove_job(&mut self, jobid: JobId)
        requires
            old(self).wf(),
        ensures
            final(self).wf(),
            final(self).id_free(jobid.0),
            final(self).states() == old(self).states(),
            final(self).spec_pgid() == old(self).spec_pgid(),
            final(self).term_owner_spec() == old(self).term_owner_spec(),
            forall|k: int|
                0 <= k < old(self).jobs_seq().len() && (#[trigger] old(self).jobs_seq()[k]).jobid
                    != jobid ==> exists|m: int|
                    0 <= m < final(self).jobs_seq().len() && final(self).jobs_seq()[m] == old(
                        self,
                    ).jobs_seq()[k],
    {
        match self.find_job_index(jobid) {
            Option::Some(i) => {
                let ghost pre = self.jobs@;
                self.jobs.remove(i);
                proof {
                    assert forall|k: int|
                        0 <= k < pre.len() && (#[trigger] pre[k]).jobid != jobid implies exists|
                        m: int,
                    |
                        0 <= m < self.jobs@.len() && self.jobs@[m] == pre[k] by {
                        if k < i {
                            assert(self.jobs@[k] == pre[k]);
                        } else if k > i {
                            assert(self.jobs@[k - 1] == pre[k]);
                        }
                    }
                    assert forall|k: int|
                        0 <= k < self.jobs@.len() implies (#[trigger] self.jobs@[k]).jobid.0
                        != jobid.0 by {
                        if k < i {
                            assert(self.jobs@[k] == pre[k]);
                        } else {
                            assert(self.jobs@[k] == pre[k + 1]);
                        }
                    }
                }
            },
            Option::None => {},
        }
    }

    /// Wait until every member of the job has exited, recording exits
    /// as they are reported, then drop the job and hand back the state
    /// of its last process (success for a job with no members). The id
    /// of a job that is not tracked is refused, and nothing else is; a
    /// job whose members are all recorded as exited already is owed
    /// success, since nothing outside decides then. Every other tracked
    /// job survives untouched, and recorded exits are never forgotten.
    pub fn wait_for_job(&mut self, jobid: JobId) -> (r: Result<ProcessState, OsError>)
        requires
            old(self).wf(),
        ensures
            final(self).wf(),
            final(self).spec_pgid() == old(self).spec_pgid(),
            final(self).term_owner_spec() == old(self).term_owner_spec(),
            (r == Result::<ProcessState, OsError>::Err(OsError::JobNotFound)) <==> old(
                self,
            ).id_free(jobid.0),
            r matches Ok(st) ==> final(self).id_free(jobid.0) && (st matches ProcessState::Exited(
                _,
            )),
            forall|k: int|
                0 <= k < old(self).jobs_seq().len() && (#[trigger] old(self).jobs_seq()[k]).jobid
                    == jobid && old(self).members_exited(old(self).jobs_seq()[k].processes@)
                    ==> r.is_ok(),
            r matches Ok(st) ==> (forall|k: int|
                0 <= k < old(self).jobs_seq().len() && (#[trigger] old(self).jobs_seq()[k]).jobid
                    == jobid ==> final(self).members_exited(old(self).jobs_seq()[k].processes@)
                    && (if old(self).jobs_seq()[k].processes@.len() == 0 {
                    st == ProcessState::Exited(0)
                } else {
                    final(self).states().contains_key(old(self).jobs_seq()[k].processes@.last())
                        && st == final(self).states()[old(self).jobs_seq()[k].processes@.last()]
                })),
            forall|k: int|
                0 <= k < old(self).jobs_seq().len() && (#[trigger] old(self).jobs_seq()[k]).jobid
                    != jobid ==> exists|m: int|
                    0 <= m < final(self).jobs_seq().len() && final(self).jobs_seq()[m] == old(
                        self,
                    ).jobs_seq()[k],
            forall|pid: i32| old(self).pid_exited(pid) ==> final(self).pid_exited(pid),
    {
        let idx0 = match self.find_job_index(jobid) {
            Option::Some(i) => i,
            Option::None => {
                return Result::Err(OsError::JobNotFound);
            },
        };
        let ghost the_job = self.jobs_seq()[idx0 as int];
        let mut budget: u64 = u64::MAX;
        loop
            invariant
                self.wf(),
                !self.id_free(jobid.0),
                !old(self).id_free(jobid.0),
                self.jobs_seq() == old(self).jobs_seq(),
                0 <= idx0 < old(self).jobs_seq().len(),
                the_job == old(self).jobs_seq()[idx0 as int],
                the_job.jobid == jobid,
                self.spec_pgid() == old(self).spec_pgid(),
                self.term_owner_spec() == old(self).term_owner_spec(),
                forall|pid: i32| old(self).pid_exited(pid) ==> self.pid_exited(pid),
            decreases budget,
        {
            let idx = match self.find_job_index(jobid) {
                Option::Some(i) => i,
                Option::None => {
                    // Unreachable: the job was found at entry and the
                    // waits below never drop a job.
                    proof {
                        assert(false);
                    }
                    return Result::Err(OsError::WaitBudget);
                },
            };
            proof {
                // Unique ids: the index found is the job found at entry.
                if idx as int != idx0 as int {
                    assert(self.jobs_seq()[idx as int].jobid.0
                        == self.jobs_seq()[idx0 as int].jobid.0);
                    assert(false);
                }
            }
            let done = self.jobs[idx].exited(self);
            if done {
                let st = match self.jobs[idx].last_process_state(self) {
                    Option::Some(ProcessState::Exited(c)) => ProcessState::Exited(c),
                    Option::Some(ProcessState::Running) => {
                        proof {
                            let procs = self.jobs_seq()[idx as int].processes@;
                            assert(self.pid_exited(procs.last()));
                        }
                        ProcessState::Exited(0)
                    },
                    Option::None => ProcessState::Exited(0),
                };
                let ghost pre_remove = *self;
                self.remove_job(jobid);
                proof {
                    assert(self.states() == pre_remove.states());
                    assert forall|k: int|
                        0 <= k < old(self).jobs_seq().len() && (#[trigger] old(
                            self,
                        ).jobs_seq()[k]).jobid == jobid implies self.members_exited(
                        old(self).jobs_seq()[k].processes@,
                    ) by {
                        if k != idx0 as int {
                            assert(old(self).jobs_seq()[k].jobid.0
                                == old(self).jobs_seq()[idx0 as int].jobid.0);
                        }
                    }
                }
                return Result::Ok(st);
            }
            match self.wait_for_any_process(true) {
                Result::Ok(_) => {},
                Result::Err(e) => {
                    return Result::Err(e);
                },
            }
            if budget == 0 {
                return Result::Err(OsError::WaitBudget);
            }
            budget = budget - 1;
        }
    }

    /// Restore the terminal mode captured at startup, if one was.
    fn restore_mode(&self) -> (r: Result<(), OsError>)
        ensures
            r matches Err(x) ==> (x matches OsError::Sys(_)),
    {
        match &self.tmods {
            Option::Some(t) => match tcsetattr_raw(0, t) {
                Result::Ok(()) => Result::Ok(()),
                Result::Err(e) => Result::Err(OsError::Sys(e)),
            },
            Option::None => Result::Ok(()),
        }
    }

    /// Place the job into the foreground: hand it the terminal, send a
    /// continue signal if asked, block until every member has exited,
    /// then reclaim the terminal for the shell's own group and restore
    /// the saved terminal mode — the reclaim is attempted on the error
    /// paths too. On success the shell's own group owns the terminal
    /// again, whatever way the job ended.
    pub fn run_in_foreground(&mut self, jobid: JobId, cont: bool) -> (r: Result<
        ProcessState,
        OsError,
    >)
        requires
            old(self).wf(),
        ensures
            final(self).wf(),
            final(self).spec_pgid() == old(self).spec_pgid(),
            r.is_ok() ==> final(self).term_owner_spec() == final(self).spec_pgid() as int,
            r matches Ok(st) ==> final(self).id_free(jobid.0) && (st matches ProcessState::Exited(
                _,
            )),
            (r == Result::<ProcessState, OsError>::Err(OsError::JobNotFound)) <==> old(
                self,
            ).id_free(jobid.0),
            r matches Ok(st) ==> (forall|k: int|
                0 <= k < old(self).jobs_seq().len() && (#[trigger] old(self).jobs_seq()[k]).jobid
                    == jobid ==> final(self).members_exited(old(self).jobs_seq()[k].processes@)
                    && (if old(self).jobs_seq()[k].processes@.len() == 0 {
                    st == ProcessState::Exited(0)
                } else {
                    final(self).states().contains_key(old(self).jobs_seq()[k].processes@.last())
                        && st == final(self).states()[old(self).jobs_seq()[k].processes@.last()]
                })),
            forall|k: int|
                0 <= k < old(self).jobs_seq().len() && (#[trigger] old(self).jobs_seq()[k]).jobid
                    != jobid ==> exists|m: int|
                    0 <= m < final(self).jobs_seq().len() && final(self).jobs_seq()[m] == old(
                        self,
                    ).jobs_seq()[k],
    {
        let job_pgid = match self.find_job_index(jobid) {
            Option::Some(i) => self.jobs[i].pgid,
            Option::None => {
                return Result::Err(OsError::JobNotFound);
            },
        };
        if let Result::Err(e) = self.claim_terminal(job_pgid) {
            return Result::Err(e);
        }
        if cont {
            if let Result::Err(e) = kill_group(job_pgid, SigKind::Cont) {
                let own = self.pgid;
                let _ = self.claim_terminal(own);
                let _ = self.restore_mode();
                return Result::Err(OsError::Sys(e));
            }
        }
        match self.wait_for_job(jobid) {
            Result::Ok(st) => {
                let own = self.pgid;
                if let Result::Err(e) = self.claim_terminal(own) {
                    return Result::Err(e);
                }
                if let Result::Err(e) = self.restore_mode() {
                    return Result::Err(e);
                }
                Result::Ok(st)
            },
            Result::Err(e) => {
                let own = self.pgid;
                let _ = self.claim_terminal(own);
                let _ = self.restore_mode();
                Result::Err(e)
            },
        }
    }

    /// Sweep for finished children without blocking, record their
    /// exits, drop every job whose members have all exited, and hand
    /// the dropped jobs back with the state of their last process, for
    /// hook dispatch. The REPL driver calls this once per turn, so a
    /// background job's completion can lag by one turn. Every job
    /// handed back was tracked and no longer is; every job kept is not
    /// yet finished; every job either stays tracked or is handed back.
    pub fn poll_background(&mut self) -> (r: Vec<(JobId, ProcessState)>)
        requires
            old(self).wf(),
        ensures
            final(self).wf(),
            final(self).spec_pgid() == old(self).spec_pgid(),
            final(self).term_owner_spec() == old(self).term_owner_spec(),
            forall|k: int|
                0 <= k < final(self).jobs_seq().len() ==> !final(self).members_exited(
                    (#[trigger] final(self).jobs_seq()[k]).processes@,
                ),
            forall|k: int|
                0 <= k < r@.len() ==> !old(self).id_free((#[trigger] r@[k]).0.0)
                    && final(self).id_free(r@[k].0.0),
            forall|k: int|
                0 <= k < r@.len() ==> exists|j: int|
                    0 <= j < old(self).jobs_seq().len() && old(self).jobs_seq()[j].jobid == (
                    #[trigger] r@[k]).0 && final(self).members_exited(
                        old(self).jobs_seq()[j].processes@,
                    ) && (if old(self).jobs_seq()[j].processes@.len() == 0 {
                        r@[k].1 == ProcessState::Exited(0)
                    } else {
                        final(self).states().contains_key(
                            old(self).jobs_seq()[j].processes@.last(),
                        ) && r@[k].1 == final(self).states()[old(
                            self,
                        ).jobs_seq()[j].processes@.last()]
                    }),
            forall|k: int|
                0 <= k < old(self).jobs_seq().len() ==> !final(self).id_free(
                    (#[trigger] old(self).jobs_seq()[k]).jobid.0,
                ) || (exists|m: int| 0 <= m < r@.len() && r@[m].0 == old(self).jobs_seq()[k].jobid),
    {
        let mut budget: u64 = u64::MAX;
        loop
            invariant
                self.wf(),
                self.jobs_seq() == old(self).jobs_seq(),
                self.spec_pgid() == old(self).spec_pgid(),
                self.term_owner_spec() == old(self).term_owner_spec(),
            decreases budget,
        {
            match self.wait_for_any_process(false) {
                Result::Ok(Option::Some(_)) => {},
                Result::Ok(Option::None) => {
                    break;
                },
                Result::Err(_) => {
                    break;
                },
            }
            if budget == 0 {
                break;
            }
            budget = budget - 1;
        }
        let ghost orig = self.jobs@;
        let ghost mid = *self;
        let mut kept: Vec<Job> = Vec::new();
        let mut done: Vec<(JobId, ProcessState)> = Vec::new();
        let ghost mut p: int = 0;
        while self.jobs.len() > 0
            invariant
                0 <= p <= orig.len(),
                p == orig.len() - self.jobs@.len(),
                self.jobs@ == orig.skip(p),
                orig == mid.jobs_seq(),
                mid.wf(),
                self.proc_state == mid.proc_state,
                self.pgid == mid.pgid,
                self.term_owner == mid.term_owner,
                self.tmods == mid.tmods,
                forall|k: int|
                    0 <= k < kept@.len() ==> !self.members_exited(
                        (#[trigger] kept@[k]).processes@,
                    ),
                forall|k: int|
                    0 <= k < done@.len() ==> exists|j: int|
                        0 <= j < p && orig[j].jobid == (#[trigger] done@[k]).0
                            && self.members_exited(orig[j].processes@)
                            && (if orig[j].processes@.len() == 0 {
                            done@[k].1 == ProcessState::Exited(0)
                        } else {
                            self.states().contains_key(orig[j].processes@.last()) && done@[k].1
                                == self.states()[orig[j].processes@.last()]
                        }),
                forall|k: int|
                    0 <= k < kept@.len() ==> exists|j: int|
                        0 <= j < p && orig[j].jobid == (#[trigger] kept@[k]).jobid,
                forall|k1: int, k2: int|
                    0 <= k1 < k2 < kept@.len() ==> (#[trigger] kept@[k1]).jobid.0 != (
                    #[trigger] kept@[k2]).jobid.0,
                forall|k: int| 0 <= k < kept@.len() ==> (#[trigger] kept@[k]).pgid > 0,
                forall|k: int, m: int|
                    0 <= k < done@.len() && 0 <= m < kept@.len() ==> (#[trigger] done@[k]).0.0 != (
                    #[trigger] kept@[m]).jobid.0,
                forall|j: int|
                    0 <= j < p ==> (exists|k: int|
                        0 <= k < kept@.len() && kept@[k].jobid == (#[trigger] orig[j]).jobid) || (
                    exists|k: int| 0 <= k < done@.len() && done@[k].0 == orig[j].jobid),
            decreases self.jobs@.len(),
        {
            proof {
                assert(self.jobs@[0] == orig.skip(p)[0]);
                assert(orig.skip(p)[0] == orig[p]);
            }
            let ghost kept0 = kept@;
            let ghost done0 = done@;
            let job = self.jobs.remove(0);
            proof {
                assert(self.jobs@ =~= orig.skip(p + 1));
            }
            let ghost this_id = job.jobid;
            let finished = job.exited(self);
            if finished {
                let st = match job.last_process_state(self) {
                    Option::Some(ProcessState::Exited(c)) => ProcessState::Exited(c),
                    Option::Some(ProcessState::Running) => {
                        proof {
                            assert(self.pid_exited(orig[p].processes@.last()));
                        }
                        ProcessState::Exited(0)
                    },
                    Option::None => ProcessState::Exited(0),
                };
                done.push((job.jobid, st));
                proof {
                    assert(done@.last().0 == orig[p].jobid);
                    assert forall|k: int, m: int|
                        0 <= k < done@.len() && 0 <= m < kept@.len() implies (#[trigger] done@[k]).0.0
                        != (#[trigger] kept@[m]).jobid.0 by {
                        if k == done@.len() - 1 {
                            let j = choose|j: int| 0 <= j < p && orig[j].jobid == kept@[m].jobid;
                            assert(orig[j].jobid.0 != orig[p].jobid.0);
                        }
                    }
                }
            } else {
                kept.push(job);
                proof {
                    assert(kept@.last().jobid == orig[p].jobid);
                    assert forall|k1: int, k2: int|
                        0 <= k1 < k2 < kept@.len() implies (#[trigger] kept@[k1]).jobid.0 != (
                        #[trigger] kept@[k2]).jobid.0 by {
                        if k2 == kept@.len() - 1 {
                            let j = choose|j: int| 0 <= j < p && orig[j].jobid == kept@[k1].jobid;
                            assert(orig[j].jobid.0 != orig[p].jobid.0);
                        }
                    }
                    assert forall|k: int, m: int|
                        0 <= k < done@.len() && 0 <= m < kept@.len() implies (#[trigger] done@[k]).0.0
                        != (#[trigger] kept@[m]).jobid.0 by {
                        if m == kept@.len() - 1 {
                            let j = choose|j: int| 0 <= j < p && orig[j].jobid == done@[k].0;
                            assert(orig[j].jobid.0 != orig[p].jobid.0);
                        }
                    }
                }
            }
            proof {
                assert forall|j: int| 0 <= j < p + 1 implies (exists|k: int|
                    0 <= k < kept@.len() && kept@[k].jobid == (#[trigger] orig[j]).jobid) || (
                exists|k: int| 0 <= k < done@.len() && done@[k].0 == orig[j].jobid) by {
                    if j < p {
                        if exists|k: int|
                            0 <= k < kept0.len() && kept0[k].jobid == (#[trigger] orig[j]).jobid {
                            let k0 = choose|k: int|
                                0 <= k < kept0.len() && kept0[k].jobid == orig[j].jobid;
                            assert(kept@[k0].jobid == orig[j].jobid);
                        } else {
                            let k0 = choose|k: int|
                                0 <= k < done0.len() && done0[k].0 == orig[j].jobid;
                            assert(done@[k0].0 == orig[j].jobid);
                        }
                    } else {
                        if finished {
                            assert(done@[done@.len() - 1].0 == orig[j].jobid);
                        } else {
                            assert(kept@[kept@.len() - 1].jobid == orig[j].jobid);
                        }
                    }
                }
                p = p + 1;
            }
        }
        self.jobs = kept;
        proof {
            assert(p == orig.len());
            assert forall|k: int|
                0 <= k < self.jobs_seq().len() implies !self.members_exited(
                    (#[trigger] self.jobs_seq()[k]).processes@,
                ) by {}
        }
        done
    }

    /// Leave the job in the background, sending its group a continue
    /// signal if asked; nothing is waited for and terminal ownership is
    /// untouched. Without the signal there is nothing to do.
    pub fn run_in_background(&self, jobid: JobId, cont: bool) -> (r: Result<(), OsError>)
        requires
            self.wf(),
        ensures
            !cont ==> r.is_ok(),
            cont ==> ((r == Result::<(), OsError>::Err(OsError::JobNotFound)) <==> self.id_free(
                jobid.0,
            )),
    {
        if cont {
            match self.find_job_index(jobid) {
                Option::Some(i) => match kill_group(self.jobs[i].pgid, SigKind::Cont) {
                    Result::Ok(()) => Result::Ok(()),
                    Result::Err(e) => Result::Err(OsError::Sys(e)),
                },
                Option::None => Result::Err(OsError::JobNotFound),
            }
        } else {
            Result::Ok(())
        }
    }
}

/// If ids 1..=id are all in use, the table has at least id entries.
proof fn lemma_taken_ids_bound(jobs: Seq<Job>, id: usize)
    requires
        1 <= id,
        forall|j: usize| 1 <= j <= id ==> !(#[trigger] seq_id_free(jobs, j)),
    ensures
        id <= jobs.len(),
{
    broadcast use vstd::seq_lib::group_seq_properties;

    let ids = jobs.map_values(|jb: Job| jb.jobid.0 as int);
    let range = vstd::set_lib::set_int_range(1, id as int + 1);
    vstd::set_lib::lemma_int_range(1, id as int + 1);
    assert forall|j: int| range.contains(j) implies ids.to_set().contains(j) by {
        assert(!seq_id_free(jobs, j as usize));
        let k = choose|k: int| 0 <= k < jobs.len() && (#[trigger] jobs[k]).jobid.0 == j as usize;
        assert(ids[k] == j);
        assert(ids.contains(j));
    }
    ids.lemma_cardinality_of_set();
    vstd::set_lib::lemma_len_subset(range, ids.to_set());
}

/// A pid is recorded iff some entry carries it.
proof fn lemma_pstate_contains(s: Seq<(i32, ProcessState)>, pid: i32)
    ensures
        pstate_map(s).contains_key(pid) <==> exists|k: int| 0 <= k < s.len() && (#[trigger] s[k]).0
            == pid,
    decreases s.len(),
{
    if s.len() > 0 {
        lemma_pstate_contains(s.drop_last(), pid);
        assert(forall|k: int| 0 <= k < s.len() - 1 ==> #[trigger] s.drop_last()[k] == s[k]);
        assert(s.last() == s[s.len() - 1]);
        if pstate_map(s.drop_last()).contains_key(pid) {
            let k = choose|k: int| 0 <= k < s.drop_last().len() && (#[trigger] s.drop_last()[k]).0
                == pid;
            assert(s[k].0 == pid);
        }
        if exists|k: int| 0 <= k < s.len() && (#[trigger] s[k]).0 == pid {
            let k = choose|k: int| 0 <= k < s.len() && (#[trigger] s[k]).0 == pid;
            if k < s.len() - 1 {
                assert(s.drop_last()[k].0 == pid);
            } else {
                assert(s.last().0 == pid);
            }
        }
    }
}

/// If every entry from position `i` on misses `pid` except entry `i`
/// itself, the state map's value for `pid` is entry `i`'s.
proof fn lemma_pstate_suffix_lookup(s: Seq<(i32, ProcessState)>, i: int, pid: i32)
    requires
        0 <= i < s.len(),
        s[i].0 == pid,
        forall|k: int| i < k < s.len() ==> (#[trigger] s[k]).0 != pid,
    ensures
        pstate_map(s).contains_key(pid),
        pstate_map(s)[pid] == s[i].1,
    decreases s.len(),
{
    if i == s.len() - 1 {
    } else {
        lemma_pstate_suffix_lookup(s.drop_last(), i, pid);
    }
}

} // verus!
