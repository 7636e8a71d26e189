//! The repository reconciler as a state machine: the decisions between the
//! version-control subprocess calls. The caller performs one requested
//! action, reports what happened, and asks for the next step; every decision
//! — which operation comes next, which exit codes are tolerated, when the
//! cycle is fatally aborted — is taken here.

use vstd::prelude::*;
use vstd::string::*;
use crate::text::{str_eq, trim_spec, trim_str};

verus! {

/// Which synchronization strategy the reconciler runs.
#[derive(Clone, Copy, PartialEq, Eq, Structural, Debug)]
pub enum SyncMode {
    /// Integrate the remote history by a rebase, then push with an upstream
    /// link; a failed rebase is only a warning.
    RebaseThenPush,
    /// Force the local branch onto "main" and overwrite the remote
    /// unconditionally.
    ForcePush,
}

/// One version-control operation the reconciler can request.
#[derive(Clone, Copy, PartialEq, Eq, Structural, Debug)]
pub enum GitOp {
    /// Initialize a repository with default branch "main".
    Init,
    /// Force the local branch to "main", creating or resetting it.
    CheckoutMain,
    /// List the configured remotes, capturing the output.
    ListRemotes,
    /// Add a remote named "origin" with the configured URL.
    AddOrigin,
    /// Point the existing remote "origin" at the configured URL.
    SetOriginUrl,
    /// Stage every change in the working copy.
    StageAll,
    /// Commit the staged changes with a timestamped message.
    Commit,
    /// Fetch the remote "main" and reapply local commits on top.
    PullRebase,
    /// Push the local "main" to "origin".
    Push,
}

/// The exit of one subprocess: whether it succeeded, and its exit code when
/// the process exited with one.
#[derive(Clone, Copy, PartialEq, Eq, Debug)]
pub struct ExitStatus {
    pub success: bool,
    pub code: Option<i32>,
}

/// What the caller reports back after performing an action.
pub enum Event {
    /// Whether the version-control metadata directory exists.
    GitDir(bool),
    /// The exit of the operation just run.
    Exited(ExitStatus),
    /// The captured output of listing the remotes.
    RemoteList(String),
}

/// Where the reconciliation stands.
#[derive(Clone, Copy, PartialEq, Eq, Structural, Debug)]
pub enum Step {
    /// Awaiting the answer whether the metadata directory exists.
    Probe,
    /// Awaiting the outcome of the given operation.
    Running(GitOp),
    /// The reconciliation finished successfully.
    Done,
    /// The given operation failed fatally; the cycle is aborted.
    Failed(GitOp),
}

/// What the reconciler asks the caller to do next.
#[derive(Clone, Copy, PartialEq, Eq, Structural, Debug)]
pub enum Action {
    /// Check whether the metadata directory exists and report it.
    CheckGitDir,
    /// Run the operation and report its outcome.
    Run(GitOp),
    /// The reconciliation succeeded; nothing is left to do.
    Finish,
    /// Abort the cycle, reporting the operation that failed.
    Abort(GitOp),
}

/// The first operation once a repository is known to exist.
pub open spec fn first_op(mode: SyncMode) -> GitOp {
    match mode {
        SyncMode::RebaseThenPush => GitOp::ListRemotes,
        SyncMode::ForcePush => GitOp::CheckoutMain,
    }
}

/// The operation that follows a successful commit.
pub open spec fn after_commit(mode: SyncMode) -> GitOp {
    match mode {
        SyncMode::RebaseThenPush => GitOp::PullRebase,
        SyncMode::ForcePush => GitOp::Push,
    }
}

/// An outcome the reconciler tolerates: a success; a commit that exited with
/// code 1, which only reports that there was nothing to commit; or the
/// rebase, whose failure is a warning, never fatal.
pub open spec fn tolerated(op: GitOp, status: ExitStatus) -> bool {
    ||| status.success
    ||| (op is Commit && status.code == Some(1i32))
    ||| op is PullRebase
}

/// The operation that follows `op` when its outcome is tolerated, or `None`
/// when the reconciliation is complete. The successor of listing the remotes
/// is decided by the captured output instead, never here.
pub open spec fn successor(mode: SyncMode, op: GitOp) -> Option<GitOp> {
    match op {
        GitOp::Init => Some(first_op(mode)),
        GitOp::CheckoutMain => Some(GitOp::ListRemotes),
        GitOp::ListRemotes => Some(GitOp::StageAll),
        GitOp::AddOrigin => Some(GitOp::StageAll),
        GitOp::SetOriginUrl => Some(GitOp::StageAll),
        GitOp::StageAll => Some(GitOp::Commit),
        GitOp::Commit => Some(after_commit(mode)),
        GitOp::PullRebase => Some(GitOp::Push),
        GitOp::Push => None,
    }
}

/// The event a step awaits: the probe awaits the directory answer, listing
/// the remotes awaits its captured output, every other operation awaits an
/// exit status. The finished and failed steps are absorbing.
pub open spec fn event_fits(st: Step, ev: Event) -> bool {
    match st {
        Step::Probe => ev is GitDir,
        Step::Running(op) => if op is ListRemotes {
            ev is RemoteList
        } else {
            ev is Exited
        },
        Step::Done => true,
        Step::Failed(_) => true,
    }
}

/// Executable test for [`event_fits`], so a caller can guard a step before
/// taking it.
pub fn event_fits_check(st: Step, ev: &Event) -> (r: bool)
    ensures
        r == event_fits(st, *ev),
{
    match st {
        Step::Probe => matches!(ev, Event::GitDir(_)),
        Step::Running(op) => {
            if matches!(op, GitOp::ListRemotes) {
                matches!(ev, Event::RemoteList(_))
            } else {
                matches!(ev, Event::Exited(_))
            }
        },
        Step::Done => true,
        Step::Failed(_) => true,
    }
}

/// The transition relation of the reconciler.
pub open spec fn next_spec(mode: SyncMode, st: Step, ev: Event) -> (Step, Action) {
    match (st, ev) {
        (Step::Probe, Event::GitDir(exists)) => {
            if exists {
                (Step::Running(first_op(mode)), Action::Run(first_op(mode)))
            } else {
                (Step::Running(GitOp::Init), Action::Run(GitOp::Init))
            }
        },
        (Step::Running(op), Event::RemoteList(out)) => {
            if has_origin_spec(out@) {
                (Step::Running(GitOp::SetOriginUrl), Action::Run(GitOp::SetOriginUrl))
            } else {
                (Step::Running(GitOp::AddOrigin), Action::Run(GitOp::AddOrigin))
            }
        },
        (Step::Running(op), Event::Exited(status)) => {
            if tolerated(op, status) {
                match successor(mode, op) {
                    Some(n) => (Step::Running(n), Action::Run(n)),
                    None => (Step::Done, Action::Finish),
                }
            } else {
                (Step::Failed(op), Action::Abort(op))
            }
        },
        (Step::Done, _) => (Step::Done, Action::Finish),
        (Step::Failed(op), _) => (Step::Failed(op), Action::Abort(op)),
        _ => (st, Action::CheckGitDir),
    }
}

/// One step of the reconciler: consume the reported event, return the new
/// step and the next action.
pub fn reconcile_step(mode: SyncMode, st: Step, ev: &Event) -> (r: (Step, Action))
    requires
        event_fits(st, *ev),
    ensures
        r == next_spec(mode, st, *ev),
{
    match st {
        Step::Probe => {
            match ev {
                Event::GitDir(exists) => {
                    if *exists {
                        let op = match mode {
                            SyncMode::RebaseThenPush => GitOp::ListRemotes,
                            SyncMode::ForcePush => GitOp::CheckoutMain,
                        };
                        (Step::Running(op), Action::Run(op))
                    } else {
                        (Step::Running(GitOp::Init), Action::Run(GitOp::Init))
                    }
                },
                _ => {
                    // Excluded by `event_fits`: this step awaits a different
                    // event.
                    proof {
                        assert(false);
                    }
                    (st, Action::CheckGitDir)
                },
            }
        },
        Step::Running(op) => {
            match ev {
                Event::RemoteList(out) => {
                    if has_origin(out.as_str()) {
                        (Step::Running(GitOp::SetOriginUrl), Action::Run(GitOp::SetOriginUrl))
                    } else {
                        (Step::Running(GitOp::AddOrigin), Action::Run(GitOp::AddOrigin))
                    }
                },
                Event::Exited(status) => {
                    let ok = status.success || (matches!(op, GitOp::Commit) && match status.code {
                        Some(c) => c == 1,
                        None => false,
                    }) || matches!(op, GitOp::PullRebase);
                    if ok {
                        let succ = match op {
                            GitOp::Init => Some(
                                match mode {
                                    SyncMode::RebaseThenPush => GitOp::ListRemotes,
                                    SyncMode::ForcePush => GitOp::CheckoutMain,
                                },
                            ),
                            GitOp::CheckoutMain => Some(GitOp::ListRemotes),
                            GitOp::ListRemotes => Some(GitOp::StageAll),
                            GitOp::AddOrigin => Some(GitOp::StageAll),
                            GitOp::SetOriginUrl => Some(GitOp::StageAll),
                            GitOp::StageAll => Some(GitOp::Commit),
                            GitOp::Commit => Some(
                                match mode {
                                    SyncMode::RebaseThenPush => GitOp::PullRebase,
                                    SyncMode::ForcePush => GitOp::Push,
                                },
                            ),
                            GitOp::PullRebase => Some(GitOp::Push),
                            GitOp::Push => None,
                        };
                        match succ {
                            Some(n) => (Step::Running(n), Action::Run(n)),
                            None => (Step::Done, Action::Finish),
                        }
                    } else {
                        (Step::Failed(op), Action::Abort(op))
                    }
                },
                _ => {
                    // Excluded by `event_fits`: this step awaits a different
                    // event.
                    proof {
                        assert(false);
                    }
                    (st, Action::CheckGitDir)
                },
            }
        },
        Step::Done => (Step::Done, Action::Finish),
        Step::Failed(op) => (Step::Failed(op), Action::Abort(op)),
    }
}

/// A maximal newline-free segment of the output: it ends at a newline or at
/// the end, begins at the start or right after a newline, and contains none.
pub open spec fn is_line(s: Seq<char>, i: int, j: int) -> bool {
    &&& 0 <= i <= j <= s.len()
    &&& (i == 0 || s[i - 1] == '\n')
    &&& (j == s.len() || s[j] == '\n')
    &&& (forall|k: int| i <= k < j ==> s[k] != '\n')
}

/// Some line of the captured remote listing, stripped of surrounding
/// whitespace, reads exactly "origin".
pub open spec fn has_origin_spec(s: Seq<char>) -> bool {
    exists|i: int, j: int| is_line(s, i, j) && trim_spec(s.subrange(i, j)) == "origin"@
}

/// The position of the first newline at or after `from`, or the length when
/// none follows.
pub open spec fn first_nl(s: Seq<char>, from: int) -> int
    decreases s.len() - from,
{
    if from >= s.len() {
        s.len() as int
    } else if s[from] == '\n' {
        from
    } else {
        first_nl(s, from + 1)
    }
}

proof fn lemma_first_nl_props(s: Seq<char>, from: int)
    requires
        0 <= from <= s.len(),
    ensures
        from <= first_nl(s, from) <= s.len(),
        forall|k: int| from <= k < first_nl(s, from) ==> s[k] != '\n',
        first_nl(s, from) < s.len() ==> s[first_nl(s, from)] == '\n',
    decreases s.len() - from,
{
    if from < s.len() && s[from] != '\n' {
        lemma_first_nl_props(s, from + 1);
    }
}

/// Find the first newline at or after `from`.
fn find_nl(s: &str, from: usize) -> (r: usize)
    requires
        from <= s@.len(),
    ensures
        r == first_nl(s@, from as int),
        from <= r <= s@.len(),
{
    let len = s.unicode_len();
    let mut i: usize = from;
    while i < len
        invariant
            from <= i <= len,
            len == s@.len(),
            first_nl(s@, from as int) == first_nl(s@, i as int),
        decreases len - i,
    {
        if s.get_char(i) == '\n' {
            proof {
                lemma_first_nl_props(s@, i as int);
            }
            return i;
        }
        i += 1;
    }
    i
}

/// Scan the captured remote listing for a line that, trimmed of ASCII
/// whitespace, reads "origin".
pub fn has_origin(out: &str) -> (r: bool)
    ensures
        r == has_origin_spec(out@),
{
    let len = out.unicode_len();
    let mut from: usize = 0;
    loop
        invariant
            from <= len,
            len == out@.len(),
            from == 0 || out@[from as int - 1] == '\n',
            forall|i: int, j: int|
                is_line(out@, i, j) && i < from ==> trim_spec(out@.subrange(i, j)) != "origin"@,
        decreases len - from,
    {
        let nl = find_nl(out, from);
        proof {
            lemma_first_nl_props(out@, from as int);
        }
        let line = out.substring_char(from, nl);
        let t = trim_str(line);
        if str_eq(t, "origin") {
            proof {
                assert(is_line(out@, from as int, nl as int));
            }
            return true;
        }
        proof {
            // The only line beginning at `from` ends at the first newline;
            // no line begins strictly inside the scanned segment.
            assert forall|i: int, j: int|
                is_line(out@, i, j) && i < nl + 1 implies trim_spec(out@.subrange(i, j))
                != "origin"@ by {
                if from <= i {
                    assert(i == from);
                    if j < nl {
                        assert(out@[j] == '\n');
                        assert(false);
                    }
                    if j > nl {
                        assert(nl < len);
                        assert(out@[nl as int] == '\n');
                        assert(false);
                    }
                }
            }
        }
        if nl < len {
            from = nl + 1;
        } else {
            proof {
                assert forall|i: int, j: int| is_line(out@, i, j) implies trim_spec(
                    out@.subrange(i, j),
                ) != "origin"@ by {
                    assert(i < nl + 1);
                }
            }
            return false;
        }
    }
}

/// The fixed argument list of one operation, with the configured remote URL
/// in the remote operations and the message in the commit.
pub open spec fn op_args_spec(mode: SyncMode, op: GitOp, url: Seq<char>, msg: Seq<char>) -> Seq<
    Seq<char>,
> {
    match op {
        GitOp::Init => seq!["init"@, "--initial-branch=main"@],
        GitOp::CheckoutMain => seq!["checkout"@, "-B"@, "main"@],
        GitOp::ListRemotes => seq!["remote"@],
        GitOp::AddOrigin => seq!["remote"@, "add"@, "origin"@, url],
        GitOp::SetOriginUrl => seq!["remote"@, "set-url"@, "origin"@, url],
        GitOp::StageAll => seq!["add"@, "."@],
        GitOp::Commit => seq!["commit"@, "-m"@, msg],
        GitOp::PullRebase => seq!["pull"@, "--rebase"@, "origin"@, "main"@],
        GitOp::Push => match mode {
            SyncMode::RebaseThenPush => seq!["push"@, "-u"@, "origin"@, "main"@],
            SyncMode::ForcePush => seq!["push"@, "--force"@, "origin"@, "main"@],
        },
    }
}

/// Append one argument.
fn push_arg(args: &mut Vec<String>, s: &str)
    ensures
        final(args).deep_view() == old(args).deep_view().push(s@),
{
    let ghost prevv = args@;
    let ghost prevd = args.deep_view();
    args.push(String::from_str(s));
    proof {
        assert forall|k: int| 0 <= k < args@.len() implies #[trigger] args.deep_view()[k]
            == prevd.push(s@)[k] by {
            if k < prevv.len() {
                assert(args@[k] == prevv[k]);
            }
        }
        assert(args.deep_view() =~= prevd.push(s@));
    }
}

/// Build the argument list handed to the version-control tool for one
/// operation.
pub fn op_args(mode: SyncMode, op: GitOp, url: &str, msg: &str) -> (args: Vec<String>)
    ensures
        args.deep_view() == op_args_spec(mode, op, url@, msg@),
{
    let mut args: Vec<String> = Vec::new();
    proof {
        assert(args.deep_view() =~= Seq::<Seq<char>>::empty());
    }
    match op {
        GitOp::Init => {
            push_arg(&mut args, "init");
            push_arg(&mut args, "--initial-branch=main");
        },
        GitOp::CheckoutMain => {
            push_arg(&mut args, "checkout");
            push_arg(&mut args, "-B");
            push_arg(&mut args, "main");
        },
        GitOp::ListRemotes => {
            push_arg(&mut args, "remote");
        },
        GitOp::AddOrigin => {
            push_arg(&mut args, "remote");
            push_arg(&mut args, "add");
            push_arg(&mut args, "origin");
            push_arg(&mut args, url);
        },
        GitOp::SetOriginUrl => {
            push_arg(&mut args, "remote");
            push_arg(&mut args, "set-url");
            push_arg(&mut args, "origin");
            push_arg(&mut args, url);
        },
        GitOp::StageAll => {
            push_arg(&mut args, "add");
            push_arg(&mut args, ".");
        },
        GitOp::Commit => {
            push_arg(&mut args, "commit");
            push_arg(&mut args, "-m");
            push_arg(&mut args, msg);
        },
        GitOp::PullRebase => {
            push_arg(&mut args, "pull");
            push_arg(&mut args, "--rebase");
            push_arg(&mut args, "origin");
            push_arg(&mut args, "main");
        },
        GitOp::Push => {
            push_arg(&mut args, "push");
            match mode {
                SyncMode::RebaseThenPush => push_arg(&mut args, "-u"),
                SyncMode::ForcePush => push_arg(&mut args, "--force"),
            }
            push_arg(&mut args, "origin");
            push_arg(&mut args, "main");
        },
    }
    proof {
        assert(args.deep_view() =~= op_args_spec(mode, op, url@, msg@));
    }
    args
}

/// The human-readable report of one operation's fatal failure.
pub open spec fn failure_message_spec(op: GitOp) -> Seq<char> {
    match op {
        GitOp::Init => "Git init ist fehlgeschlagen"@,
        GitOp::CheckoutMain => "Git checkout -B main ist fehlgeschlagen"@,
        GitOp::ListRemotes => "Git remote ist fehlgeschlagen"@,
        GitOp::AddOrigin => "Git remote add origin ist fehlgeschlagen"@,
        GitOp::SetOriginUrl => "Git remote set-url origin ist fehlgeschlagen"@,
        GitOp::StageAll => "Git add ist fehlgeschlagen"@,
        GitOp::Commit => "Git commit ist fehlgeschlagen"@,
        GitOp::PullRebase => "Git pull --rebase ist fehlgeschlagen"@,
        GitOp::Push => "Git push ist fehlgeschlagen"@,
    }
}

/// The message reported when an operation fails fatally, naming the
/// operation.
pub fn failure_message(op: GitOp) -> (r: String)
    ensures
        r@ == failure_message_spec(op),
{
    match op {
        GitOp::Init => String::from_str("Git init ist fehlgeschlagen"),
        GitOp::CheckoutMain => String::from_str("Git checkout -B main ist fehlgeschlagen"),
        GitOp::ListRemotes => String::from_str("Git remote ist fehlgeschlagen"),
        GitOp::AddOrigin => String::from_str("Git remote add origin ist fehlgeschlagen"),
        GitOp::SetOriginUrl => String::from_str("Git remote set-url origin ist fehlgeschlagen"),
        GitOp::StageAll => String::from_str("Git add ist fehlgeschlagen"),
        GitOp::Commit => String::from_str("Git commit ist fehlgeschlagen"),
        GitOp::PullRebase => String::from_str("Git pull --rebase ist fehlgeschlagen"),
        GitOp::Push => String::from_str("Git push ist fehlgeschlagen"),
    }
}

/// A commit that exits with the "nothing to commit" code is no failure: the
/// reconciler proceeds, toward the rebase or directly toward the push.
pub proof fn lemma_nothing_to_commit_proceeds(mode: SyncMode, status: ExitStatus)
    requires
        status.code == Some(1i32),
    ensures
        next_spec(mode, Step::Running(GitOp::Commit), Event::Exited(status)) == (
            Step::Running(after_commit(mode)),
            Action::Run(after_commit(mode)),
        ),
{
}

/// A push whose subprocess fails is fatal: the reconciler aborts the cycle
/// and names the push as the failed operation.
pub proof fn lemma_failed_push_aborts(mode: SyncMode, status: ExitStatus)
    requires
        !status.success,
    ensures
        next_spec(mode, Step::Running(GitOp::Push), Event::Exited(status)) == (
            Step::Failed(GitOp::Push),
            Action::Abort(GitOp::Push),
        ),
{
}

/// Whenever the reconciler aborts, the reported operation is exactly the one
/// whose outcome was not tolerated.
pub proof fn lemma_abort_names_failed_op(mode: SyncMode, op: GitOp, status: ExitStatus)
    requires
        next_spec(mode, Step::Running(op), Event::Exited(status)).1 is Abort,
    ensures
        next_spec(mode, Step::Running(op), Event::Exited(status)) == (
            Step::Failed(op),
            Action::Abort(op),
        ),
        !tolerated(op, status),
{
}

} // verus!
