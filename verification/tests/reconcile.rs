use config_backup::cycle::{after_cycle, next_phase, Phase, CYCLE_SLEEP_SECS};
use config_backup::reconcile::{
    event_fits_check, failure_message, has_origin, op_args, reconcile_step, Action, Event,
    ExitStatus, GitOp, Step, SyncMode,
};

fn ok() -> Event {
    Event::Exited(ExitStatus { success: true, code: Some(0) })
}

fn failed(code: Option<i32>) -> Event {
    Event::Exited(ExitStatus { success: false, code })
}

fn args(list: &[&str]) -> Vec<String> {
    let mut v: Vec<String> = Vec::new();
    for t in list {
        v.push(String::from(*t));
    }
    v
}

#[test]
fn finds_origin_among_remotes() {
    assert!(has_origin("origin\n"));
    assert!(has_origin("  origin  \n"));
    assert!(has_origin("upstream\norigin\nfork\n"));
    assert!(has_origin("origin"));
}

#[test]
fn missing_origin_is_not_found() {
    assert!(!has_origin(""));
    assert!(!has_origin("\n\n"));
    assert!(!has_origin("upstream\nfork\n"));
    assert!(!has_origin("preorigin\n"));
    assert!(!has_origin("origin2\n"));
}

#[test]
fn argument_lists_are_fixed() {
    let m = SyncMode::ForcePush;
    let url = "git@github.com:user/backup-config.git";
    let msg = "Backup am 2024-03-07 09:05:08";
    assert_eq!(op_args(m, GitOp::Init, url, msg), args(&["init", "--initial-branch=main"]));
    assert_eq!(op_args(m, GitOp::CheckoutMain, url, msg), args(&["checkout", "-B", "main"]));
    assert_eq!(op_args(m, GitOp::ListRemotes, url, msg), args(&["remote"]));
    assert_eq!(op_args(m, GitOp::AddOrigin, url, msg), args(&["remote", "add", "origin", url]));
    assert_eq!(
        op_args(m, GitOp::SetOriginUrl, url, msg),
        args(&["remote", "set-url", "origin", url])
    );
    assert_eq!(op_args(m, GitOp::StageAll, url, msg), args(&["add", "."]));
    assert_eq!(op_args(m, GitOp::Commit, url, msg), args(&["commit", "-m", msg]));
    assert_eq!(
        op_args(m, GitOp::PullRebase, url, msg),
        args(&["pull", "--rebase", "origin", "main"])
    );
    assert_eq!(op_args(m, GitOp::Push, url, msg), args(&["push", "--force", "origin", "main"]));
    assert_eq!(
        op_args(SyncMode::RebaseThenPush, GitOp::Push, url, msg),
        args(&["push", "-u", "origin", "main"])
    );
}

#[test]
fn force_push_happy_path() {
    let m = SyncMode::ForcePush;
    let (st, act) = reconcile_step(m, Step::Probe, &Event::GitDir(false));
    assert_eq!(act, Action::Run(GitOp::Init));
    let (st, act) = reconcile_step(m, st, &ok());
    assert_eq!(act, Action::Run(GitOp::CheckoutMain));
    let (st, act) = reconcile_step(m, st, &ok());
    assert_eq!(act, Action::Run(GitOp::ListRemotes));
    let (st, act) = reconcile_step(m, st, &Event::RemoteList(String::from("")));
    assert_eq!(act, Action::Run(GitOp::AddOrigin));
    let (st, act) = reconcile_step(m, st, &ok());
    assert_eq!(act, Action::Run(GitOp::StageAll));
    let (st, act) = reconcile_step(m, st, &ok());
    assert_eq!(act, Action::Run(GitOp::Commit));
    let (st, act) = reconcile_step(m, st, &ok());
    assert_eq!(act, Action::Run(GitOp::Push));
    let (st, act) = reconcile_step(m, st, &ok());
    assert_eq!(st, Step::Done);
    assert_eq!(act, Action::Finish);
}

#[test]
fn existing_repo_with_origin_updates_the_url() {
    let m = SyncMode::ForcePush;
    let (st, act) = reconcile_step(m, Step::Probe, &Event::GitDir(true));
    assert_eq!(act, Action::Run(GitOp::CheckoutMain));
    let (st, act) = reconcile_step(m, st, &ok());
    assert_eq!(act, Action::Run(GitOp::ListRemotes));
    let (_, act) = reconcile_step(m, st, &Event::RemoteList(String::from("origin\n")));
    assert_eq!(act, Action::Run(GitOp::SetOriginUrl));
}

#[test]
fn nothing_to_commit_proceeds_to_push() {
    // A commit exiting with code 1 only reports an empty staging area; the
    // cycle proceeds to the push step.
    let m = SyncMode::ForcePush;
    let (st, act) = reconcile_step(m, Step::Running(GitOp::Commit), &failed(Some(1)));
    assert_eq!(st, Step::Running(GitOp::Push));
    assert_eq!(act, Action::Run(GitOp::Push));
}

#[test]
fn commit_failure_with_other_code_aborts() {
    let m = SyncMode::ForcePush;
    let (st, act) = reconcile_step(m, Step::Running(GitOp::Commit), &failed(Some(128)));
    assert_eq!(st, Step::Failed(GitOp::Commit));
    assert_eq!(act, Action::Abort(GitOp::Commit));
}

#[test]
fn failed_push_aborts_and_names_the_push() {
    let m = SyncMode::ForcePush;
    let (st, act) = reconcile_step(m, Step::Running(GitOp::Push), &failed(Some(128)));
    assert_eq!(st, Step::Failed(GitOp::Push));
    assert_eq!(act, Action::Abort(GitOp::Push));
    assert_eq!(failure_message(GitOp::Push), "Git push ist fehlgeschlagen");
    // The scheduler logs the failure and still proceeds to the sleep phase.
    assert_eq!(after_cycle(false, true), Phase::Sleeping);
}

#[test]
fn rebase_variant_tolerates_a_failed_rebase() {
    let m = SyncMode::RebaseThenPush;
    let (st, act) = reconcile_step(m, Step::Probe, &Event::GitDir(true));
    assert_eq!(act, Action::Run(GitOp::ListRemotes));
    let (st, act) = reconcile_step(m, st, &Event::RemoteList(String::from("origin\n")));
    assert_eq!(act, Action::Run(GitOp::SetOriginUrl));
    let (st, act) = reconcile_step(m, st, &ok());
    assert_eq!(act, Action::Run(GitOp::StageAll));
    let (st, act) = reconcile_step(m, st, &ok());
    assert_eq!(act, Action::Run(GitOp::Commit));
    let (st, act) = reconcile_step(m, st, &ok());
    assert_eq!(act, Action::Run(GitOp::PullRebase));
    // The rebase fails: a warning only, the push still follows.
    let (st, act) = reconcile_step(m, st, &failed(Some(1)));
    assert_eq!(act, Action::Run(GitOp::Push));
    let (st, act) = reconcile_step(m, st, &ok());
    assert_eq!(st, Step::Done);
    assert_eq!(act, Action::Finish);
}

#[test]
fn failure_messages_name_each_operation() {
    assert_eq!(failure_message(GitOp::Init), "Git init ist fehlgeschlagen");
    assert_eq!(failure_message(GitOp::CheckoutMain), "Git checkout -B main ist fehlgeschlagen");
    assert_eq!(
        failure_message(GitOp::AddOrigin),
        "Git remote add origin ist fehlgeschlagen"
    );
    assert_eq!(failure_message(GitOp::Commit), "Git commit ist fehlgeschlagen");
}

#[test]
fn events_fit_their_steps() {
    assert!(event_fits_check(Step::Probe, &Event::GitDir(true)));
    assert!(!event_fits_check(Step::Probe, &ok()));
    assert!(event_fits_check(Step::Running(GitOp::ListRemotes), &Event::RemoteList(String::new())));
    assert!(!event_fits_check(Step::Running(GitOp::ListRemotes), &ok()));
    assert!(event_fits_check(Step::Running(GitOp::Commit), &ok()));
    assert!(!event_fits_check(Step::Running(GitOp::Commit), &Event::GitDir(true)));
}

#[test]
fn phases_alternate_and_sleep_is_five_hours() {
    assert_eq!(next_phase(Phase::Running), Phase::Sleeping);
    assert_eq!(next_phase(Phase::Sleeping), Phase::Running);
    assert_eq!(after_cycle(true, true), Phase::Sleeping);
    assert_eq!(after_cycle(false, false), Phase::Sleeping);
    assert_eq!(CYCLE_SLEEP_SECS, 60 * 60 * 5);
}
