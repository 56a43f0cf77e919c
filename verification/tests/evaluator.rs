//! The command evaluator, driven by a scripted effect handler: every
//! operating-system interaction is answered by the test and recorded
//! in the trace, so the tests can check exactly what was requested.

use shrs::ast::{CaseArm, Command, Condition, Redirect, RedirectMode};
use shrs::env::Runtime;
use shrs::eval::{
    dispatch_simple, eval_command, find_case_arm, guard_continues, BuiltinCmd, Builtins,
    CmdOutput, Dispatch, EffReply, EffRequest, Error, Trace,
};
use shrs::process::{ExitStatus, Os, Pgid};

fn new_rt() -> Runtime {
    Runtime::new("/".to_string(), "shrs".to_string())
}

fn simple(words: &[&str]) -> Command {
    Command::Simple {
        assigns: vec![],
        redirects: vec![],
        args: words.iter().map(|w| w.to_string()).collect(),
    }
}

/// Replies: spawned pids count up from 1000; `false` exits 1, all else 0.
fn scripted(trace: &Trace, rq: &EffRequest) -> EffReply {
    match rq {
        EffRequest::Spawn(_) => {
            let spawned = trace
                .events
                .iter()
                .filter(|e| matches!(e.0, EffRequest::Spawn(_)))
                .count();
            EffReply::Spawned(1000 + spawned as i32)
        }
        EffRequest::Wait(pid) => {
            // Find what was spawned under this pid and report `false` as failing.
            for (req, reply) in trace.events.iter() {
                if let (EffRequest::Spawn(s), EffReply::Spawned(p)) = (req, reply) {
                    if p == pid && s.argv[0] == "false" {
                        return EffReply::WaitDone(1);
                    }
                }
            }
            EffReply::WaitDone(0)
        }
        EffRequest::Pipe => {
            let pipes = trace
                .events
                .iter()
                .filter(|e| matches!(e.0, EffRequest::Pipe))
                .count();
            EffReply::PipeMade(100 + 2 * pipes as i32, 101 + 2 * pipes as i32)
        }
        EffRequest::Open(_, _) => EffReply::Opened(50),
        EffRequest::Close(_) => EffReply::Closed,
    }
}

fn spawned_argvs(trace: &Trace) -> Vec<Vec<String>> {
    trace
        .events
        .iter()
        .filter_map(|e| match &e.0 {
            EffRequest::Spawn(s) => Some(s.argv.clone()),
            _ => None,
        })
        .collect()
}

fn run(cmd: &Command, rt: &mut Runtime) -> (Result<ExitStatus, Error>, Trace) {
    let builtins = Builtins::new();
    let mut os = Os::new(1);
    let mut trace = Trace::new();
    let r = eval_command(&builtins, rt, &mut os, &mut trace, cmd, 0, 1, None, 64, &scripted);
    (r, trace)
}

struct CountingBuiltin;

impl BuiltinCmd for CountingBuiltin {
    fn run(&self, rt: &mut Runtime, _args: &Vec<String>) -> CmdOutput {
        rt.exit_status = 42;
        CmdOutput::new(String::new(), String::new(), 7)
    }
}

#[test]
fn builtin_never_forks() {
    let mut builtins = Builtins::new();
    builtins.insert("marker".to_string(), Box::new(CountingBuiltin));
    let mut rt = new_rt();
    let mut os = Os::new(1);
    let mut trace = Trace::new();
    let cmd = simple(&["marker"]);
    let r = eval_command(&builtins, &mut rt, &mut os, &mut trace, &cmd, 0, 1, None, 64, &scripted);
    assert_eq!(r, Ok(ExitStatus::Exited(7)));
    assert!(trace.events.is_empty());
    assert_eq!(rt.exit_status, 42);
}

#[test]
fn and_short_circuits_on_failure() {
    // false && echo hi: echo is never spawned, status is false's.
    let cmd = Command::And(
        Box::new(simple(&["false"])),
        Box::new(simple(&["echo", "hi"])),
    );
    let mut rt = new_rt();
    let (r, trace) = run(&cmd, &mut rt);
    assert_eq!(r, Ok(ExitStatus::Exited(1)));
    let argvs = spawned_argvs(&trace);
    assert_eq!(argvs.len(), 1);
    assert_eq!(argvs[0][0], "false");
    assert_eq!(rt.exit_status, 1);
}

#[test]
fn or_short_circuits_on_success() {
    // true || echo hi: echo is never spawned.
    let cmd = Command::Or(
        Box::new(simple(&["true"])),
        Box::new(simple(&["echo", "hi"])),
    );
    let mut rt = new_rt();
    let (r, trace) = run(&cmd, &mut rt);
    assert_eq!(r, Ok(ExitStatus::Exited(0)));
    let argvs = spawned_argvs(&trace);
    assert_eq!(argvs.len(), 1);
    assert_eq!(argvs[0][0], "true");
}

#[test]
fn and_continues_on_success() {
    let cmd = Command::And(
        Box::new(simple(&["true"])),
        Box::new(simple(&["echo", "hi"])),
    );
    let mut rt = new_rt();
    let (_r, trace) = run(&cmd, &mut rt);
    let argvs = spawned_argvs(&trace);
    assert_eq!(argvs.len(), 2);
    assert_eq!(argvs[1], vec!["echo", "hi"]);
}

#[test]
fn for_loop_binds_and_runs_in_order() {
    // for x in 1 2 3; do echo $x; done
    let cmd = Command::For {
        name: "x".to_string(),
        wordlist: vec!["1".to_string(), "2".to_string(), "3".to_string()],
        body: Box::new(simple(&["echo", "$x"])),
    };
    let mut rt = new_rt();
    let (r, trace) = run(&cmd, &mut rt);
    assert_eq!(r, Ok(ExitStatus::Exited(0)));
    let argvs = spawned_argvs(&trace);
    assert_eq!(
        argvs,
        vec![vec!["echo", "1"], vec!["echo", "2"], vec!["echo", "3"]]
    );
    // The binding is left in the environment after the loop.
    assert_eq!(rt.env.get(&"x".to_string()), Some(&"3".to_string()));
}

#[test]
fn subshell_mutations_do_not_escape() {
    let inner = Command::Fn {
        fname: "greet".to_string(),
        body: Box::new(simple(&["echo", "hi"])),
    };
    let cmd = Command::Subshell(Box::new(inner));
    let mut rt = new_rt();
    let (r, _trace) = run(&cmd, &mut rt);
    assert_eq!(r, Ok(ExitStatus::Exited(0)));
    assert!(rt.get_function(&"greet".to_string()).is_none());

    let set_var = Command::For {
        name: "inside".to_string(),
        wordlist: vec!["1".to_string()],
        body: Box::new(Command::Empty),
    };
    let cmd = Command::Subshell(Box::new(set_var));
    let (r, _trace) = run(&cmd, &mut rt);
    assert_eq!(r, Ok(ExitStatus::Exited(0)));
    assert!(rt.env.get(&"inside".to_string()).is_none());
}

#[test]
fn pipeline_wires_the_pipe() {
    // printf 'b\na\nc\n' | sort
    let cmd = Command::Pipeline(
        Box::new(simple(&["printf", "b\na\nc\n"])),
        Box::new(simple(&["sort"])),
    );
    let mut rt = new_rt();
    let (r, trace) = run(&cmd, &mut rt);
    // The second stage is the pipeline's result, still running.
    assert_eq!(r, Ok(ExitStatus::Running(1001)));
    // The pipe was made, the left side writes into it, the right side
    // reads from it and joins the left side's process group, and the
    // parent closed the write end before spawning the right side.
    let mut saw_pipe = false;
    let mut closed_write_at = None;
    let mut spawned_sort_at = None;
    for (i, (req, _)) in trace.events.iter().enumerate() {
        match req {
            EffRequest::Pipe => saw_pipe = true,
            EffRequest::Close(fd) if *fd == 101 => {
                if closed_write_at.is_none() {
                    closed_write_at = Some(i);
                }
            }
            EffRequest::Spawn(s) if s.argv[0] == "printf" => {
                assert_eq!(s.stdout, 101);
                assert_eq!(s.stdin, 0);
            }
            EffRequest::Spawn(s) if s.argv[0] == "sort" => {
                assert_eq!(s.stdin, 100);
                assert_eq!(s.stdout, 1);
                assert!(matches!(s.pgid, Pgid::Pgid(1000)));
                spawned_sort_at = Some(i);
            }
            _ => {}
        }
    }
    assert!(saw_pipe);
    assert!(closed_write_at.unwrap() < spawned_sort_at.unwrap());
}

#[test]
fn if_runs_first_succeeding_branch() {
    let cmd = Command::If {
        conds: vec![
            Condition {
                cond: Box::new(simple(&["false"])),
                body: Box::new(simple(&["echo", "first"])),
            },
            Condition {
                cond: Box::new(simple(&["true"])),
                body: Box::new(simple(&["echo", "second"])),
            },
        ],
        else_part: Some(Box::new(simple(&["echo", "else"]))),
    };
    let mut rt = new_rt();
    let (_r, trace) = run(&cmd, &mut rt);
    let argvs = spawned_argvs(&trace);
    assert_eq!(argvs.len(), 3);
    assert_eq!(argvs[0][0], "false");
    assert_eq!(argvs[1][0], "true");
    assert_eq!(argvs[2], vec!["echo", "second"]);
}

#[test]
fn case_runs_first_matching_arm_only() {
    let cmd = Command::Case {
        word: "b".to_string(),
        arms: vec![
            CaseArm {
                pattern: vec!["a".to_string()],
                body: Box::new(simple(&["echo", "wrong"])),
            },
            CaseArm {
                pattern: vec!["b".to_string(), "c".to_string()],
                body: Box::new(simple(&["echo", "right"])),
            },
            CaseArm {
                pattern: vec!["b".to_string()],
                body: Box::new(simple(&["echo", "later"])),
            },
        ],
    };
    let mut rt = new_rt();
    let (r, trace) = run(&cmd, &mut rt);
    assert_eq!(r, Ok(ExitStatus::Exited(0)));
    let argvs = spawned_argvs(&trace);
    assert_eq!(argvs, vec![vec!["echo", "right"]]);
}

#[test]
fn function_definition_and_call() {
    let def = Command::Fn {
        fname: "greet".to_string(),
        body: Box::new(simple(&["echo", "hello"])),
    };
    let mut rt = new_rt();
    let (r, trace) = run(&def, &mut rt);
    assert_eq!(r, Ok(ExitStatus::Exited(0)));
    assert!(trace.events.is_empty());
    let call = simple(&["greet"]);
    let (r, trace) = run(&call, &mut rt);
    assert!(matches!(r, Ok(ExitStatus::Running(_))));
    assert_eq!(spawned_argvs(&trace), vec![vec!["echo", "hello"]]);
}

#[test]
fn reserved_function_name_is_refused() {
    let def = Command::Fn {
        fname: "while".to_string(),
        body: Box::new(Command::Empty),
    };
    let mut rt = new_rt();
    let (r, trace) = run(&def, &mut rt);
    assert_eq!(r, Err(Error::FunctionNameReserved));
    assert!(trace.events.is_empty());
    assert!(rt.get_function(&"while".to_string()).is_none());
}

#[test]
fn empty_command_succeeds_without_effects() {
    let mut rt = new_rt();
    let (r, trace) = run(&Command::Empty, &mut rt);
    assert_eq!(r, Ok(ExitStatus::Exited(0)));
    assert!(trace.events.is_empty());
    let (r, trace) = run(&simple(&[]), &mut rt);
    assert_eq!(r, Ok(ExitStatus::Exited(0)));
    assert!(trace.events.is_empty());
}

#[test]
fn dup_redirects_are_refused() {
    let cmd = Command::Simple {
        assigns: vec![],
        redirects: vec![Redirect {
            n: None,
            file: "out.txt".to_string(),
            mode: RedirectMode::ReadDup,
        }],
        args: vec!["cat".to_string()],
    };
    let mut rt = new_rt();
    let (r, _trace) = run(&cmd, &mut rt);
    assert_eq!(r, Err(Error::UnsupportedRedirect));
}

#[test]
fn failed_redirect_open_aborts_without_spawn() {
    let cmd = Command::Simple {
        assigns: vec![],
        redirects: vec![Redirect {
            n: None,
            file: "missing.txt".to_string(),
            mode: RedirectMode::Read,
        }],
        args: vec!["cat".to_string()],
    };
    let failing = |_t: &Trace, rq: &EffRequest| -> EffReply {
        match rq {
            EffRequest::Open(_, _) => EffReply::Failed(2),
            _ => EffReply::Failed(99),
        }
    };
    let builtins = Builtins::new();
    let mut rt = new_rt();
    let mut os = Os::new(1);
    let mut trace = Trace::new();
    let r = eval_command(&builtins, &mut rt, &mut os, &mut trace, &cmd, 0, 1, None, 64, &failing);
    assert_eq!(r, Err(Error::Redirect(2)));
    assert!(spawned_argvs(&trace).is_empty());
}

#[test]
fn redirect_fds_reach_the_spawn() {
    let cmd = Command::Simple {
        assigns: vec![],
        redirects: vec![Redirect {
            n: None,
            file: "in.txt".to_string(),
            mode: RedirectMode::Read,
        }],
        args: vec!["cat".to_string()],
    };
    let mut rt = new_rt();
    let (r, trace) = run(&cmd, &mut rt);
    assert!(matches!(r, Ok(ExitStatus::Running(_))));
    let mut seen = false;
    let mut closed_after = false;
    for (req, _) in trace.events.iter() {
        match req {
            EffRequest::Spawn(s) => {
                assert_eq!(s.stdin, 50);
                assert_eq!(s.stdout, 1);
                seen = true;
            }
            // The parent releases the opened target once the child
            // holds its own copy.
            EffRequest::Close(50) if seen => closed_after = true,
            _ => {}
        }
    }
    assert!(seen);
    assert!(closed_after);
}

#[test]
fn while_until_loops_follow_guard() {
    // The guard `false` fails at once: the body never runs.
    let w = Command::While {
        cond: Box::new(simple(&["false"])),
        body: Box::new(simple(&["echo", "never"])),
    };
    let mut rt = new_rt();
    let (r, trace) = run(&w, &mut rt);
    assert_eq!(r, Ok(ExitStatus::Exited(0)));
    assert_eq!(spawned_argvs(&trace), vec![vec!["false"]]);

    // An `until` guard that succeeds at once also skips the body.
    let u = Command::Until {
        cond: Box::new(simple(&["true"])),
        body: Box::new(simple(&["echo", "never"])),
    };
    let (r, trace) = run(&u, &mut rt);
    assert_eq!(r, Ok(ExitStatus::Exited(0)));
    assert_eq!(spawned_argvs(&trace), vec![vec!["true"]]);
}

#[test]
fn seq_list_waits_between_commands() {
    let cmd = Command::SeqList(
        Box::new(simple(&["first"])),
        Some(Box::new(simple(&["second"]))),
    );
    let mut rt = new_rt();
    let (r, trace) = run(&cmd, &mut rt);
    assert_eq!(r, Ok(ExitStatus::Running(1001)));
    let kinds: Vec<&'static str> = trace
        .events
        .iter()
        .map(|e| match e.0 {
            EffRequest::Spawn(_) => "spawn",
            EffRequest::Wait(_) => "wait",
            _ => "other",
        })
        .collect();
    assert_eq!(kinds, vec!["spawn", "wait", "spawn"]);
}

#[test]
fn async_list_registers_background_job() {
    let cmd = Command::AsyncList(Box::new(simple(&["sleep", "5"])), None);
    let builtins = Builtins::new();
    let mut rt = new_rt();
    let mut os = Os::new(1);
    let mut trace = Trace::new();
    let r = eval_command(&builtins, &mut rt, &mut os, &mut trace, &cmd, 0, 1, None, 64, &scripted);
    // The caller gets immediate success; no wait was issued.
    assert_eq!(r, Ok(ExitStatus::Exited(0)));
    assert!(trace.events.iter().all(|e| !matches!(e.0, EffRequest::Wait(_))));
    // The job is tracked: its id (the lowest free one) is 1.
    assert!(matches!(
        os.run_in_background(shrs::process::JobId(1), false),
        Ok(())
    ));
}

#[test]
fn wait_failure_is_reported() {
    let cmd = Command::And(Box::new(simple(&["a"])), Box::new(simple(&["b"])));
    let failing = |_t: &Trace, rq: &EffRequest| -> EffReply {
        match rq {
            EffRequest::Spawn(_) => EffReply::Spawned(1),
            EffRequest::Wait(_) => EffReply::Failed(10),
            _ => EffReply::Failed(99),
        }
    };
    let builtins = Builtins::new();
    let mut rt = new_rt();
    let mut os = Os::new(1);
    let mut trace = Trace::new();
    let r = eval_command(&builtins, &mut rt, &mut os, &mut trace, &cmd, 0, 1, None, 64, &failing);
    assert_eq!(r, Err(Error::Wait(10)));
}

#[test]
fn spawn_failure_is_reported() {
    let failing = |_t: &Trace, rq: &EffRequest| -> EffReply {
        match rq {
            EffRequest::Spawn(_) => EffReply::Failed(13),
            _ => EffReply::Failed(99),
        }
    };
    let builtins = Builtins::new();
    let mut rt = new_rt();
    let mut os = Os::new(1);
    let mut trace = Trace::new();
    let cmd = simple(&["prog"]);
    let r = eval_command(&builtins, &mut rt, &mut os, &mut trace, &cmd, 0, 1, None, 64, &failing);
    assert_eq!(r, Err(Error::Spawn(13)));
}

#[test]
fn assigns_ride_along_with_the_spawn() {
    let cmd = Command::Simple {
        assigns: vec![shrs::ast::Assign {
            var: "K".to_string(),
            val: "V".to_string(),
        }],
        redirects: vec![],
        args: vec!["env".to_string()],
    };
    let mut rt = new_rt();
    let (_r, trace) = run(&cmd, &mut rt);
    let mut seen = false;
    for (req, _) in trace.events.iter() {
        if let EffRequest::Spawn(s) = req {
            assert_eq!(s.assigns.len(), 1);
            assert_eq!(s.assigns[0].var, "K");
            assert_eq!(s.assigns[0].val, "V");
            seen = true;
        }
    }
    assert!(seen);
    // The assignment never touches the runtime itself.
    assert!(rt.env.get(&"K".to_string()).is_none());
}

#[test]
fn cmd_output_constructors() {
    let o = CmdOutput::new("out".to_string(), "err".to_string(), 3);
    assert_eq!(o.stdout, "out");
    assert_eq!(o.stderr, "err");
    assert_eq!(o.status, 3);
    assert_eq!(CmdOutput::empty().status, 0);
    assert_eq!(CmdOutput::error().status, 1);
}

#[test]
fn runaway_function_recursion_is_cut_off() {
    // f() { f; }; f  — the call budget ends the recursion.
    let def = Command::Fn {
        fname: "f".to_string(),
        body: Box::new(simple(&["f"])),
    };
    let mut rt = new_rt();
    let (r, _trace) = run(&def, &mut rt);
    assert_eq!(r, Ok(ExitStatus::Exited(0)));
    let (r, _trace) = run(&simple(&["f"]), &mut rt);
    assert_eq!(r, Err(Error::TooDeep));
}

#[test]
fn dispatch_prefers_builtins_then_functions() {
    let mut builtins = Builtins::new();
    builtins.insert("marker".to_string(), Box::new(CountingBuiltin));
    let mut rt = new_rt();
    // Define a function under the same name and under its own name.
    let def = Command::Fn {
        fname: "marker".to_string(),
        body: Box::new(Command::Empty),
    };
    let (r, _t) = run(&def, &mut rt);
    assert!(r.is_ok());
    let def = Command::Fn {
        fname: "greet".to_string(),
        body: Box::new(Command::Empty),
    };
    let (r, _t) = run(&def, &mut rt);
    assert!(r.is_ok());
    assert!(matches!(
        dispatch_simple(&builtins, &rt, &"marker".to_string()),
        Dispatch::Builtin
    ));
    assert!(matches!(
        dispatch_simple(&builtins, &rt, &"greet".to_string()),
        Dispatch::Function(_)
    ));
    assert!(matches!(
        dispatch_simple(&builtins, &rt, &"ls".to_string()),
        Dispatch::External
    ));
}

#[test]
fn guard_decision_for_while_and_until() {
    assert!(guard_continues(false, 0));
    assert!(!guard_continues(false, 2));
    assert!(guard_continues(true, 2));
    assert!(!guard_continues(true, 0));
}

#[test]
fn first_matching_case_arm_wins() {
    let arms = vec![
        CaseArm { pattern: vec!["a".to_string()], body: Box::new(Command::Empty) },
        CaseArm {
            pattern: vec!["b".to_string(), "c".to_string()],
            body: Box::new(Command::Empty),
        },
        CaseArm { pattern: vec!["c".to_string()], body: Box::new(Command::Empty) },
    ];
    assert_eq!(find_case_arm(&arms, &"c".to_string()), Some(1));
    assert_eq!(find_case_arm(&arms, &"a".to_string()), Some(0));
    assert_eq!(find_case_arm(&arms, &"z".to_string()), None);
}
