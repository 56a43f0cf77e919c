//! Job-control bookkeeping that needs no live processes: job ids and
//! the process-state table.

use shrs::process::{ExitStatus, Job, JobId, Os, Pgid, Process, ProcessState, resolve_pgid};

#[test]
fn job_ids_reuse_lowest_free() {
    let mut os = Os::new(10);
    // Jobs with no members count as completed at once.
    let a = os.create_job(101, vec![]).unwrap();
    let b = os.create_job(102, vec![]).unwrap();
    let c = os.create_job(103, vec![]).unwrap();
    assert_eq!(a, JobId(1));
    assert_eq!(b, JobId(2));
    assert_eq!(c, JobId(3));
    // Completing B frees its id.
    let st = os.wait_for_job(b).unwrap();
    assert_eq!(st, ProcessState::Exited(0));
    // D gets the id B held: the lowest free one.
    let d = os.create_job(104, vec![]).unwrap();
    assert_eq!(d, JobId(2));
}

#[test]
fn waiting_for_unknown_job_is_refused() {
    let mut os = Os::new(10);
    assert_eq!(os.wait_for_job(JobId(9)), Err(shrs::process::OsError::JobNotFound));
}

#[test]
fn process_states_start_empty() {
    let os = Os::new(10);
    assert!(os.get_process_state(1234).is_none());
}

#[test]
fn background_without_signal_is_a_no_op() {
    let os = Os::new(10);
    assert_eq!(os.run_in_background(JobId(1), false), Ok(()));
}

#[test]
fn shell_pgid_is_kept() {
    let os = Os::new(77);
    assert_eq!(os.shell_pgid(), 77);
}

#[test]
fn empty_job_is_exited() {
    let os = Os::new(10);
    let job = Job { jobid: JobId(1), pgid: 5, processes: vec![] };
    assert!(job.exited(&os));
    assert!(job.last_process_state(&os).is_none());
}

#[test]
fn job_with_unseen_member_is_not_exited() {
    let os = Os::new(10);
    let job = Job { jobid: JobId(1), pgid: 5, processes: vec![4321] };
    assert!(!job.exited(&os));
}

#[test]
fn pgid_policy_resolution() {
    assert_eq!(resolve_pgid(&Pgid::Current, 55), 55);
    assert_eq!(resolve_pgid(&Pgid::Pgid(7), 55), 7);
}

#[test]
fn process_record_carries_argv() {
    let p = Process { pid: 3, argv: vec!["ls".to_string()] };
    assert_eq!(p.pid, 3);
    assert_eq!(p.argv, vec!["ls"]);
}

#[test]
fn exit_status_variants() {
    assert_ne!(ExitStatus::Exited(0), ExitStatus::Running(0));
}

#[test]
fn polling_reaps_finished_jobs_only() {
    let mut os = Os::new(10);
    let a = os.create_job(101, vec![]).unwrap();
    let b = os.create_job(102, vec![999_999]).unwrap();
    let reaped = os.poll_background();
    assert_eq!(reaped, vec![(a, ProcessState::Exited(0))]);
    // The unfinished job stays tracked: its id is not handed out again.
    let c = os.create_job(103, vec![]).unwrap();
    assert_eq!(c, JobId(1));
    let d = os.create_job(104, vec![]).unwrap();
    assert_ne!(d, b);
    assert_eq!(d, JobId(3));
}
