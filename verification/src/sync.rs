//! Bringing the bare clone of a repository up to date with its remote.

use crate::effects;
use crate::effects::{
    CommandOutput, CommandOutputView, Effect, EffectView, Reply, ReplyView, Step, StepView,
};
use crate::error;
use crate::error::{SwarmError, SwarmErrorView};
use crate::paths;
use crate::repos;
use crate::repos::{Repository, RepositoryStore, RepositoryStoreView, RepositoryView};
use crate::text;
use vstd::prelude::*;

verus! {

/// What a sync waits for: the repository's directory, a look at the bare clone,
/// whether it is a bare repository, its removal, another look, its making,
/// whether it has a remote, the adding of the remote, the fetch from it, the fetch
/// from all remotes, and the update of the remote's head. Adding and fetching tell
/// whether the clone was there before.
#[derive(Debug, Clone, Copy, PartialEq, Eq, Structural)]
pub enum SyncPhase {
    MakingDir,
    Probing,
    Inspecting,
    Discarding,
    Reprobing,
    Initializing,
    CheckingRemote,
    AddingRemote { existed: bool },
    Fetching { existed: bool },
    FetchingAll,
    SettingHead,
}

/// A sync under way.
#[derive(Debug)]
pub struct Sync {
    pub repo_dir: String,
    pub bare_repo_path: String,
    pub remote_url: String,
    pub phase: SyncPhase,
}

/// What a `Sync` holds.
#[verifier::ext_equal]
pub struct SyncView {
    pub repo_dir: Seq<char>,
    pub bare_repo_path: Seq<char>,
    pub remote_url: Seq<char>,
    pub phase: SyncPhase,
}

impl View for Sync {
    type V = SyncView;

    open spec fn view(&self) -> SyncView {
        SyncView {
            repo_dir: self.repo_dir@,
            bare_repo_path: self.bare_repo_path@,
            remote_url: self.remote_url@,
            phase: self.phase,
        }
    }
}

impl DeepView for Sync {
    type V = SyncView;

    open spec fn deep_view(&self) -> SyncView {
        self@
    }
}

impl Clone for Sync {
    fn clone(&self) -> (r: Self)
        ensures
            r@ == self@,
    {
        Sync {
            repo_dir: self.repo_dir.clone(),
            bare_repo_path: self.bare_repo_path.clone(),
            remote_url: self.remote_url.clone(),
            phase: self.phase,
        }
    }
}

/// The sync in another phase.
pub open spec fn in_phase(s: SyncView, phase: SyncPhase) -> SyncView {
    SyncView { phase, ..s }
}

/// Asks git about the bare clone.
pub open spec fn inspect(s: SyncView, args: Seq<Seq<char>>) -> EffectView {
    EffectView::RunGit { cwd: None, args: seq![effects::git_dir(s.bare_repo_path)] + args }
}

/// Has git change the bare clone.
pub open spec fn change(s: SyncView, args: Seq<Seq<char>>) -> EffectView {
    EffectView::RunGit {
        cwd: Some(s.repo_dir),
        args: seq![effects::git_dir(s.bare_repo_path)] + args,
    }
}

/// Makes the bare clone.
pub open spec fn init_command(s: SyncView) -> EffectView {
    EffectView::RunGit {
        cwd: Some(s.repo_dir),
        args: seq!["init"@, "--bare"@, s.bare_repo_path],
    }
}

/// Points the bare clone at its remote.
pub open spec fn add_remote_command(s: SyncView) -> EffectView {
    change(s, seq!["remote"@, "add"@, "origin"@, s.remote_url])
}

/// Fetches every branch of the remote and drops those that are gone.
pub open spec fn fetch_command(s: SyncView) -> EffectView {
    change(s, seq!["fetch"@, "origin"@, "--prune"@, "+refs/heads/*:refs/remotes/origin/*"@])
}

/// Fetches from every remote that the clone has and drops what is gone.
pub open spec fn fetch_all_command(s: SyncView) -> EffectView {
    change(s, seq!["fetch"@, "--all"@, "--prune"@])
}

/// Follows the remote's default branch.
pub open spec fn set_head_command(s: SyncView) -> EffectView {
    change(s, seq!["remote"@, "set-head"@, "origin"@, "--auto"@])
}

/// Whether git says that it looked at a bare repository.
pub open spec fn says_bare(output: CommandOutputView) -> bool {
    output.success && text::trimmed(text::lossy_text(output.stdout)) == "true"@
}

/// The step that a command leads to: the next one where it succeeded, the end
/// of the sync where it failed.
pub open spec fn if_succeeded(
    output: CommandOutputView,
    effect: EffectView,
    s: SyncView,
) -> StepView<SyncView, ()> {
    match effects::git_outcome(output) {
        Ok(_) => StepView::Run(effect, s),
        Err(e) => StepView::Finish(Err(e)),
    }
}

/// The state in which the sync of a repository begins.
pub open spec fn sync_state(repos_dir: Seq<char>, repo: RepositoryView) -> SyncView {
    SyncView {
        repo_dir: repos::repository_dir(repos_dir, repo),
        bare_repo_path: paths::joined_path(repos::repository_dir(repos_dir, repo), "source.git"@),
        remote_url: repos::fetch_url(repo),
        phase: SyncPhase::MakingDir,
    }
}

/// The first step of a sync.
pub open spec fn sync_start(s: SyncView) -> StepView<SyncView, ()> {
    StepView::Run(EffectView::CreateDir(s.repo_dir), in_phase(s, SyncPhase::MakingDir))
}

/// The step that follows a reply. What stands in the bare clone's place and is
/// no bare repository is removed; a missing clone is made and pointed at the
/// remote; then the remote is fetched, in a clone that was there before every other
/// remote too, and the remote's head is followed.
pub open spec fn sync_next(s: SyncView, reply: ReplyView) -> StepView<SyncView, ()> {
    match (s.phase, reply) {
        (_, ReplyView::Failed(e)) => StepView::Finish(Err(e)),
        (SyncPhase::MakingDir, ReplyView::Done) => StepView::Run(
            EffectView::PathExists(s.bare_repo_path),
            in_phase(s, SyncPhase::Probing),
        ),
        (SyncPhase::Probing, ReplyView::Exists(true)) => StepView::Run(
            inspect(s, seq!["rev-parse"@, "--is-bare-repository"@]),
            in_phase(s, SyncPhase::Inspecting),
        ),
        (SyncPhase::Probing, ReplyView::Exists(false)) => StepView::Run(
            EffectView::PathExists(s.bare_repo_path),
            in_phase(s, SyncPhase::Reprobing),
        ),
        (SyncPhase::Inspecting, ReplyView::Output(output)) => if says_bare(output) {
            StepView::Run(
                EffectView::PathExists(s.bare_repo_path),
                in_phase(s, SyncPhase::Reprobing),
            )
        } else {
            StepView::Run(
                EffectView::RemoveDir(s.bare_repo_path),
                in_phase(s, SyncPhase::Discarding),
            )
        },
        (SyncPhase::Discarding, ReplyView::Done) => StepView::Run(
            EffectView::PathExists(s.bare_repo_path),
            in_phase(s, SyncPhase::Reprobing),
        ),
        (SyncPhase::Reprobing, ReplyView::Exists(false)) => StepView::Run(
            init_command(s),
            in_phase(s, SyncPhase::Initializing),
        ),
        (SyncPhase::Reprobing, ReplyView::Exists(true)) => StepView::Run(
            inspect(s, seq!["remote"@, "get-url"@, "origin"@]),
            in_phase(s, SyncPhase::CheckingRemote),
        ),
        (SyncPhase::Initializing, ReplyView::Output(output)) => if_succeeded(
            output,
            add_remote_command(s),
            in_phase(s, SyncPhase::AddingRemote { existed: false }),
        ),
        (SyncPhase::CheckingRemote, ReplyView::Output(output)) => if output.success {
            StepView::Run(fetch_command(s), in_phase(s, SyncPhase::Fetching { existed: true }))
        } else {
            StepView::Run(
                add_remote_command(s),
                in_phase(s, SyncPhase::AddingRemote { existed: true }),
            )
        },
        (SyncPhase::AddingRemote { existed }, ReplyView::Output(output)) => if_succeeded(
            output,
            fetch_command(s),
            in_phase(s, SyncPhase::Fetching { existed }),
        ),
        (SyncPhase::Fetching { existed: true }, ReplyView::Output(output)) => if_succeeded(
            output,
            fetch_all_command(s),
            in_phase(s, SyncPhase::FetchingAll),
        ),
        (SyncPhase::Fetching { existed: false }, ReplyView::Output(output)) => if_succeeded(
            output,
            set_head_command(s),
            in_phase(s, SyncPhase::SettingHead),
        ),
        (SyncPhase::FetchingAll, ReplyView::Output(output)) => if_succeeded(
            output,
            set_head_command(s),
            in_phase(s, SyncPhase::SettingHead),
        ),
        (SyncPhase::SettingHead, ReplyView::Output(output)) => match effects::git_outcome(output) {
            Ok(_) => StepView::Finish(Ok(())),
            Err(e) => StepView::Finish(Err(e)),
        },
        _ => StepView::Mismatch,
    }
}

/// Whether git says that it looked at a bare repository, from the text that it
/// wrote.
pub fn is_bare_answer(success: bool, stdout: &str) -> (r: bool)
    ensures
        r == (success && text::trimmed(stdout@) == "true"@),
{
    success && text::same(text::trim(stdout), "true")
}

fn git_is_bare_repository(output: &CommandOutput) -> (r: bool)
    ensures
        r == says_bare(output@),
{
    let stdout = text::decode_lossy(&output.stdout);
    is_bare_answer(output.success, stdout.as_str())
}

impl Sync {
    fn enter(&self, phase: SyncPhase) -> (r: Sync)
        ensures
            r@ == in_phase(self@, phase),
    {
        Sync {
            repo_dir: self.repo_dir.clone(),
            bare_repo_path: self.bare_repo_path.clone(),
            remote_url: self.remote_url.clone(),
            phase,
        }
    }

    fn inspect(&self, args: Vec<String>) -> (r: Effect)
        ensures
            r@ == inspect(self@, args.deep_view()),
    {
        let mut all: Vec<String> = vec![effects::git_dir_arg(self.bare_repo_path.as_str())];
        let ghost tail = args.deep_view();
        let mut args = args;
        all.append(&mut args);
        let r = Effect::RunGit { cwd: None, args: all };
        proof {
            assert(all.deep_view() =~= seq![effects::git_dir(self@.bare_repo_path)] + tail);
        }
        r
    }

    fn change(&self, args: Vec<String>) -> (r: Effect)
        ensures
            r@ == change(self@, args.deep_view()),
    {
        let mut all: Vec<String> = vec![effects::git_dir_arg(self.bare_repo_path.as_str())];
        let ghost tail = args.deep_view();
        let mut args = args;
        all.append(&mut args);
        proof {
            assert(all.deep_view() =~= seq![effects::git_dir(self@.bare_repo_path)] + tail);
        }
        Effect::RunGit { cwd: Some(self.repo_dir.clone()), args: all }
    }

    fn init(&self) -> (r: Effect)
        ensures
            r@ == init_command(self@),
    {
        let args = vec!["init".to_owned(), "--bare".to_owned(), self.bare_repo_path.clone()];
        proof {
            assert(args.deep_view() =~= seq!["init"@, "--bare"@, self@.bare_repo_path]);
        }
        Effect::RunGit { cwd: Some(self.repo_dir.clone()), args }
    }

    fn add_remote(&self) -> (r: Effect)
        ensures
            r@ == add_remote_command(self@),
    {
        let args = vec![
            "remote".to_owned(),
            "add".to_owned(),
            "origin".to_owned(),
            self.remote_url.clone(),
        ];
        proof {
            assert(args.deep_view() =~= seq!["remote"@, "add"@, "origin"@, self@.remote_url]);
        }
        self.change(args)
    }

    fn fetch(&self) -> (r: Effect)
        ensures
            r@ == fetch_command(self@),
    {
        let args = vec![
            "fetch".to_owned(),
            "origin".to_owned(),
            "--prune".to_owned(),
            "+refs/heads/*:refs/remotes/origin/*".to_owned(),
        ];
        proof {
            assert(args.deep_view()
                =~= seq!["fetch"@, "origin"@, "--prune"@, "+refs/heads/*:refs/remotes/origin/*"@]);
        }
        self.change(args)
    }

    fn fetch_all(&self) -> (r: Effect)
        ensures
            r@ == fetch_all_command(self@),
    {
        let args = vec!["fetch".to_owned(), "--all".to_owned(), "--prune".to_owned()];
        proof {
            assert(args.deep_view() =~= seq!["fetch"@, "--all"@, "--prune"@]);
        }
        self.change(args)
    }

    fn set_head(&self) -> (r: Effect)
        ensures
            r@ == set_head_command(self@),
    {
        let args = vec![
            "remote".to_owned(),
            "set-head".to_owned(),
            "origin".to_owned(),
            "--auto".to_owned(),
        ];
        proof {
            assert(args.deep_view() =~= seq!["remote"@, "set-head"@, "origin"@, "--auto"@]);
        }
        self.change(args)
    }

    fn after(&self, output: &CommandOutput, effect: Effect, phase: SyncPhase) -> (r: Step<Sync, ()>)
        ensures
            r@ == if_succeeded(output@, effect@, in_phase(self@, phase)),
    {
        match effects::git_result(output) {
            Ok(_) => Step::Run(effect, self.enter(phase)),
            Err(e) => Step::Finish(Err(e)),
        }
    }

    /// The step that follows a reply.
    pub fn resume(&self, reply: Reply) -> (r: Step<Sync, ()>)
        ensures
            r@ == sync_next(self@, reply@),
    {
        match (self.phase, reply) {
            (_, Reply::Failed(e)) => Step::Finish(Err(e)),
            (SyncPhase::MakingDir, Reply::Done) => Step::Run(
                Effect::PathExists(self.bare_repo_path.clone()),
                self.enter(SyncPhase::Probing),
            ),
            (SyncPhase::Probing, Reply::Exists(exists)) => if exists {
                let args = vec!["rev-parse".to_owned(), "--is-bare-repository".to_owned()];
                proof {
                    assert(args.deep_view() =~= seq!["rev-parse"@, "--is-bare-repository"@]);
                }
                Step::Run(self.inspect(args), self.enter(SyncPhase::Inspecting))
            } else {
                Step::Run(
                    Effect::PathExists(self.bare_repo_path.clone()),
                    self.enter(SyncPhase::Reprobing),
                )
            },
            (SyncPhase::Inspecting, Reply::Output(output)) => if git_is_bare_repository(&output) {
                Step::Run(
                    Effect::PathExists(self.bare_repo_path.clone()),
                    self.enter(SyncPhase::Reprobing),
                )
            } else {
                Step::Run(
                    Effect::RemoveDir(self.bare_repo_path.clone()),
                    self.enter(SyncPhase::Discarding),
                )
            },
            (SyncPhase::Discarding, Reply::Done) => Step::Run(
                Effect::PathExists(self.bare_repo_path.clone()),
                self.enter(SyncPhase::Reprobing),
            ),
            (SyncPhase::Reprobing, Reply::Exists(exists)) => if exists {
                let args = vec!["remote".to_owned(), "get-url".to_owned(), "origin".to_owned()];
                proof {
                    assert(args.deep_view() =~= seq!["remote"@, "get-url"@, "origin"@]);
                }
                Step::Run(self.inspect(args), self.enter(SyncPhase::CheckingRemote))
            } else {
                Step::Run(self.init(), self.enter(SyncPhase::Initializing))
            },
            (SyncPhase::Initializing, Reply::Output(output)) => self.after(
                &output,
                self.add_remote(),
                SyncPhase::AddingRemote { existed: false },
            ),
            (SyncPhase::CheckingRemote, Reply::Output(output)) => if output.success {
                Step::Run(self.fetch(), self.enter(SyncPhase::Fetching { existed: true }))
            } else {
                Step::Run(self.add_remote(), self.enter(SyncPhase::AddingRemote { existed: true }))
            },
            (SyncPhase::AddingRemote { existed }, Reply::Output(output)) => self.after(
                &output,
                self.fetch(),
                SyncPhase::Fetching { existed },
            ),
            (SyncPhase::Fetching { existed }, Reply::Output(output)) => if existed {
                self.after(&output, self.fetch_all(), SyncPhase::FetchingAll)
            } else {
                self.after(&output, self.set_head(), SyncPhase::SettingHead)
            },
            (SyncPhase::FetchingAll, Reply::Output(output)) => self.after(
                &output,
                self.set_head(),
                SyncPhase::SettingHead,
            ),
            (SyncPhase::SettingHead, Reply::Output(output)) => match effects::git_result(&output) {
                Ok(_) => Step::Finish(Ok(())),
                Err(e) => Step::Finish(Err(e)),
            },
            _ => Step::Mismatch,
        }
    }
}

impl RepositoryStore {
    /// Begins the sync of a repository that is known.
    pub fn sync(&self, repository: &str) -> (r: Result<(Repository, Step<Sync, ()>), SwarmError>)
        ensures
            match repos::required(self@.rows, repository@) {
                Ok(repo) => r matches Ok(p) && p.0@ == repo && p.1@ == sync_start(
                    sync_state(self@.paths.repos_dir, repo),
                ),
                Err(e) => r matches Err(x) && x@ == e,
            },
    {
        match self.require_repository(repository) {
            Ok(repo) => {
                let step = self.sync_repo(&repo);
                Ok((repo, step))
            },
            Err(e) => Err(e),
        }
    }

    /// Begins the sync of a repository.
    pub fn sync_repo(&self, repo: &Repository) -> (r: Step<Sync, ()>)
        ensures
            r@ == sync_start(sync_state(self@.paths.repos_dir, repo@)),
    {
        let repo_dir = self.repo_dir(repo);
        let state = Sync {
            repo_dir: repo_dir.clone(),
            bare_repo_path: self.bare_repo_path(repo),
            remote_url: repo.remote_url(),
            phase: SyncPhase::MakingDir,
        };
        Step::Run(Effect::CreateDir(repo_dir), state)
    }
}

/// How a sync goes on.
pub open spec fn sync_rule() -> spec_fn(SyncView, ReplyView) -> StepView<SyncView, ()> {
    |s: SyncView, reply: ReplyView| sync_next(s, reply)
}

/// Where there is no bare clone yet, a sync makes one, points it at the remote,
/// fetches and follows the remote's head, in this order and nothing else.
pub proof fn law_first_sync(
    s: SyncView,
    init: ReplyView,
    add: ReplyView,
    fetch: ReplyView,
    set_head: ReplyView,
)
    requires
        effects::succeeded(init),
        effects::succeeded(add),
        effects::succeeded(fetch),
        effects::succeeded(set_head),
    ensures
        ({
            let replies = seq![
                ReplyView::Done,
                ReplyView::Exists(false),
                ReplyView::Exists(false),
                init,
                add,
                fetch,
                set_head,
            ];
            &&& effects::asked(sync_start(s), sync_rule(), replies) == seq![
                EffectView::CreateDir(s.repo_dir),
                EffectView::PathExists(s.bare_repo_path),
                EffectView::PathExists(s.bare_repo_path),
                init_command(s),
                add_remote_command(s),
                fetch_command(s),
                set_head_command(s),
            ]
            &&& effects::reached(sync_start(s), sync_rule(), replies) == StepView::<SyncView, ()>::Finish(Ok(()))
        }),
{
    reveal_with_fuel(effects::asked, 9);
    reveal_with_fuel(effects::reached, 9);
    let replies = seq![
        ReplyView::Done,
        ReplyView::Exists(false),
        ReplyView::Exists(false),
        init,
        add,
        fetch,
        set_head,
    ];
    assert(replies.skip(1).skip(1).skip(1).skip(1).skip(1).skip(1).skip(1).len() == 0);
    assert(effects::asked(sync_start(s), sync_rule(), replies) =~= seq![
        EffectView::CreateDir(s.repo_dir),
        EffectView::PathExists(s.bare_repo_path),
        EffectView::PathExists(s.bare_repo_path),
        init_command(s),
        add_remote_command(s),
        fetch_command(s),
        set_head_command(s),
    ]);
}

/// Where there is a bare clone with a remote, a sync only fetches, from that remote
/// and from all others, drops what is gone there, and follows the remote's head.
pub proof fn law_later_sync(
    s: SyncView,
    bare: CommandOutputView,
    remote: ReplyView,
    fetch: ReplyView,
    fetch_all: ReplyView,
    set_head: ReplyView,
)
    requires
        says_bare(bare),
        effects::succeeded(remote),
        effects::succeeded(fetch),
        effects::succeeded(fetch_all),
        effects::succeeded(set_head),
    ensures
        ({
            let replies = seq![
                ReplyView::Done,
                ReplyView::Exists(true),
                ReplyView::Output(bare),
                ReplyView::Exists(true),
                remote,
                fetch,
                fetch_all,
                set_head,
            ];
            &&& effects::asked(sync_start(s), sync_rule(), replies) == seq![
                EffectView::CreateDir(s.repo_dir),
                EffectView::PathExists(s.bare_repo_path),
                inspect(s, seq!["rev-parse"@, "--is-bare-repository"@]),
                EffectView::PathExists(s.bare_repo_path),
                inspect(s, seq!["remote"@, "get-url"@, "origin"@]),
                fetch_command(s),
                fetch_all_command(s),
                set_head_command(s),
            ]
            &&& effects::reached(sync_start(s), sync_rule(), replies) == StepView::<SyncView, ()>::Finish(Ok(()))
        }),
{
    reveal_with_fuel(effects::asked, 10);
    reveal_with_fuel(effects::reached, 10);
    let replies = seq![
        ReplyView::Done,
        ReplyView::Exists(true),
        ReplyView::Output(bare),
        ReplyView::Exists(true),
        remote,
        fetch,
        fetch_all,
        set_head,
    ];
    assert(replies.skip(1).skip(1).skip(1).skip(1).skip(1).skip(1).skip(1).skip(1).len() == 0);
    assert(effects::asked(sync_start(s), sync_rule(), replies) =~= seq![
        EffectView::CreateDir(s.repo_dir),
        EffectView::PathExists(s.bare_repo_path),
        inspect(s, seq!["rev-parse"@, "--is-bare-repository"@]),
        EffectView::PathExists(s.bare_repo_path),
        inspect(s, seq!["remote"@, "get-url"@, "origin"@]),
        fetch_command(s),
        fetch_all_command(s),
        set_head_command(s),
    ]);
}

/// Where there is a bare clone that lacks the remote, a sync adds it and goes on as it
/// does with the remote there.
pub proof fn law_sync_adds_a_missing_remote(
    s: SyncView,
    bare: CommandOutputView,
    remote: CommandOutputView,
    add: ReplyView,
    fetch: ReplyView,
    fetch_all: ReplyView,
    set_head: ReplyView,
)
    requires
        says_bare(bare),
        !remote.success,
        effects::succeeded(add),
        effects::succeeded(fetch),
        effects::succeeded(fetch_all),
        effects::succeeded(set_head),
    ensures
        ({
            let replies = seq![
                ReplyView::Done,
                ReplyView::Exists(true),
                ReplyView::Output(bare),
                ReplyView::Exists(true),
                ReplyView::Output(remote),
                add,
                fetch,
                fetch_all,
                set_head,
            ];
            &&& effects::asked(sync_start(s), sync_rule(), replies) == seq![
                EffectView::CreateDir(s.repo_dir),
                EffectView::PathExists(s.bare_repo_path),
                inspect(s, seq!["rev-parse"@, "--is-bare-repository"@]),
                EffectView::PathExists(s.bare_repo_path),
                inspect(s, seq!["remote"@, "get-url"@, "origin"@]),
                add_remote_command(s),
                fetch_command(s),
                fetch_all_command(s),
                set_head_command(s),
            ]
            &&& effects::reached(sync_start(s), sync_rule(), replies) == StepView::<SyncView, ()>::Finish(Ok(()))
        }),
{
    reveal_with_fuel(effects::asked, 11);
    reveal_with_fuel(effects::reached, 11);
    let replies = seq![
        ReplyView::Done,
        ReplyView::Exists(true),
        ReplyView::Output(bare),
        ReplyView::Exists(true),
        ReplyView::Output(remote),
        add,
        fetch,
        fetch_all,
        set_head,
    ];
    assert(replies.skip(1).skip(1).skip(1).skip(1).skip(1).skip(1).skip(1).skip(1).skip(1).len() == 0);
    assert(effects::asked(sync_start(s), sync_rule(), replies) =~= seq![
        EffectView::CreateDir(s.repo_dir),
        EffectView::PathExists(s.bare_repo_path),
        inspect(s, seq!["rev-parse"@, "--is-bare-repository"@]),
        EffectView::PathExists(s.bare_repo_path),
        inspect(s, seq!["remote"@, "get-url"@, "origin"@]),
        add_remote_command(s),
        fetch_command(s),
        fetch_all_command(s),
        set_head_command(s),
    ]);
}

/// A sync removes nothing but what stands in the bare clone's place and is no
/// bare repository.
pub proof fn law_sync_removes_only_what_is_not_bare(s: SyncView, reply: ReplyView)
    ensures
        sync_next(s, reply) matches StepView::Run(effect, _) ==> (
        effect matches EffectView::RemoveDir(path) ==> path == s.bare_repo_path && s.phase
            == SyncPhase::Inspecting && (reply matches ReplyView::Output(output) && !says_bare(
            output,
        ))),
{
}

/// A sync succeeds only once the remote's head was followed, which it asks for only
/// once every fetch succeeded: that from the remote, and in a clone that was there
/// before also that from all remotes.
pub proof fn law_sync_success_needs_fetch(s: SyncView, reply: ReplyView)
    ensures
        sync_next(s, reply) == StepView::<SyncView, ()>::Finish(Ok(())) ==> s.phase
            == SyncPhase::SettingHead && effects::succeeded(reply),
        sync_next(s, reply) matches StepView::Run(effect, next) ==> {
            &&& next.phase == SyncPhase::SettingHead ==> {
                &&& s.phase == SyncPhase::FetchingAll || s.phase == (SyncPhase::Fetching {
                    existed: false,
                })
                &&& effects::succeeded(reply)
                &&& effect == set_head_command(s)
            }
            &&& next.phase == SyncPhase::FetchingAll ==> {
                &&& s.phase == (SyncPhase::Fetching { existed: true })
                &&& effects::succeeded(reply)
                &&& effect == fetch_all_command(s)
            }
            &&& next.phase is Fetching ==> effect == fetch_command(s)
        },
{
}

/// Whether the clone was there before is kept until the remote is fetched: it was
/// where its remote was asked for, and was not where it was made.
pub proof fn law_sync_knows_what_was_there(s: SyncView, reply: ReplyView)
    ensures
        sync_next(s, reply) matches StepView::Run(_, next) ==> {
            &&& next.phase matches SyncPhase::AddingRemote { existed } ==> (if existed {
                s.phase == SyncPhase::CheckingRemote
            } else {
                s.phase == SyncPhase::Initializing
            })
            &&& next.phase matches SyncPhase::Fetching { existed } ==> s.phase
                == (SyncPhase::AddingRemote { existed }) || (existed && s.phase
                == SyncPhase::CheckingRemote)
            &&& next.phase == SyncPhase::CheckingRemote ==> s.phase == SyncPhase::Reprobing
                && reply == ReplyView::Exists(true)
            &&& next.phase == SyncPhase::Initializing ==> s.phase == SyncPhase::Reprobing
                && reply == ReplyView::Exists(false)
        },
{
}

/// A failure ends a sync with that failure.
pub proof fn law_sync_reports_failure(s: SyncView, e: SwarmErrorView)
    ensures
        sync_next(s, ReplyView::Failed(e)) == StepView::<SyncView, ()>::Finish(Err(e)),
{
}

/// The git commands of a sync, written out. Those that ask run where the caller stands, the
/// others in the repository's directory; all but the making of the clone are pointed at it.
pub proof fn law_sync_commands_written_out(s: SyncView)
    ensures
        ({
            let bare = "--git-dir="@ + s.bare_repo_path;
            &&& inspect(s, seq!["rev-parse"@, "--is-bare-repository"@]) == (EffectView::RunGit {
                cwd: None,
                args: seq![bare, "rev-parse"@, "--is-bare-repository"@],
            })
            &&& inspect(s, seq!["remote"@, "get-url"@, "origin"@]) == (EffectView::RunGit {
                cwd: None,
                args: seq![bare, "remote"@, "get-url"@, "origin"@],
            })
            &&& init_command(s) == (EffectView::RunGit {
                cwd: Some(s.repo_dir),
                args: seq!["init"@, "--bare"@, s.bare_repo_path],
            })
            &&& add_remote_command(s) == (EffectView::RunGit {
                cwd: Some(s.repo_dir),
                args: seq![bare, "remote"@, "add"@, "origin"@, s.remote_url],
            })
            &&& fetch_command(s) == (EffectView::RunGit {
                cwd: Some(s.repo_dir),
                args: seq![
                    bare,
                    "fetch"@,
                    "origin"@,
                    "--prune"@,
                    "+refs/heads/*:refs/remotes/origin/*"@,
                ],
            })
            &&& fetch_all_command(s) == (EffectView::RunGit {
                cwd: Some(s.repo_dir),
                args: seq![bare, "fetch"@, "--all"@, "--prune"@],
            })
            &&& set_head_command(s) == (EffectView::RunGit {
                cwd: Some(s.repo_dir),
                args: seq![bare, "remote"@, "set-head"@, "origin"@, "--auto"@],
            })
        }),
{
    let bare = effects::git_dir(s.bare_repo_path);
    assert(seq![bare] + seq!["rev-parse"@, "--is-bare-repository"@] =~= seq![
        bare,
        "rev-parse"@,
        "--is-bare-repository"@,
    ]);
    assert(seq![bare] + seq!["remote"@, "get-url"@, "origin"@] =~= seq![
        bare,
        "remote"@,
        "get-url"@,
        "origin"@,
    ]);
    assert(seq![bare] + seq!["remote"@, "add"@, "origin"@, s.remote_url] =~= seq![
        bare,
        "remote"@,
        "add"@,
        "origin"@,
        s.remote_url,
    ]);
    assert(seq![bare] + seq![
        "fetch"@,
        "origin"@,
        "--prune"@,
        "+refs/heads/*:refs/remotes/origin/*"@,
    ] =~= seq![bare, "fetch"@, "origin"@, "--prune"@, "+refs/heads/*:refs/remotes/origin/*"@]);
    assert(seq![bare] + seq!["fetch"@, "--all"@, "--prune"@] =~= seq![
        bare,
        "fetch"@,
        "--all"@,
        "--prune"@,
    ]);
    assert(seq![bare] + seq!["remote"@, "set-head"@, "origin"@, "--auto"@] =~= seq![
        bare,
        "remote"@,
        "set-head"@,
        "origin"@,
        "--auto"@,
    ]);
}

/// A sync works in the repository's own directory, on the bare clone there, and fetches from
/// the repository's remote.
pub proof fn law_sync_works_on_its_repository(repos_dir: Seq<char>, repo: RepositoryView)
    ensures
        ({
            let s = sync_state(repos_dir, repo);
            let dir = paths::joined_path(
                paths::joined_path(paths::joined_path(repos_dir, repo.host), repo.owner),
                repo.name,
            );
            &&& s.repo_dir == dir
            &&& s.bare_repo_path == paths::joined_path(dir, "source.git"@)
            &&& s.remote_url == repos::fetch_url(repo)
            &&& sync_start(s) matches StepView::Run(effect, _)
            &&& effect == EffectView::CreateDir(dir)
        }),
{
}

/// What stands in the bare clone's place is kept exactly where git says `true` of it, with
/// white space around it or without; everything else there is removed and the clone is made
/// anew.
pub proof fn law_sync_replaces_what_is_not_bare(s: SyncView, output: CommandOutputView)
    requires
        s.phase == SyncPhase::Inspecting,
    ensures
        sync_next(s, ReplyView::Output(output)) == StepView::<SyncView, ()>::Run(
            if output.success && text::trimmed(text::lossy_text(output.stdout)) == "true"@ {
                EffectView::PathExists(s.bare_repo_path)
            } else {
                EffectView::RemoveDir(s.bare_repo_path)
            },
            SyncView {
                phase: if output.success && text::trimmed(text::lossy_text(output.stdout))
                    == "true"@ {
                    SyncPhase::Reprobing
                } else {
                    SyncPhase::Discarding
                },
                ..s
            },
        ),
        sync_next(
            SyncView { phase: SyncPhase::Discarding, ..s },
            ReplyView::Done,
        ) == StepView::<SyncView, ()>::Run(
            EffectView::PathExists(s.bare_repo_path),
            SyncView { phase: SyncPhase::Reprobing, ..s },
        ),
{
}

/// A git command that fails ends a sync with what git says of it, wherever the sync stands;
/// but a clone that lacks the remote gets it.
pub proof fn law_sync_ends_with_a_failed_command(s: SyncView, output: CommandOutputView)
    requires
        !output.success,
        s.phase == SyncPhase::Initializing || s.phase is AddingRemote || s.phase is Fetching
            || s.phase == SyncPhase::FetchingAll || s.phase == SyncPhase::SettingHead,
    ensures
        ({
            let stderr = text::lossy_text(output.stderr);
            let stdout = text::lossy_text(output.stdout);
            &&& sync_next(s, ReplyView::Output(output)) matches StepView::Finish(
                Err(SwarmErrorView::Git(message)),
            )
            &&& !text::blank(stderr) ==> message == text::trimmed(stderr)
            &&& text::blank(stderr) && !text::blank(stdout) ==> message == text::trimmed(stdout)
            &&& text::blank(stderr) && text::blank(stdout) ==> message == "exit status "@
                + output.status
        }),
{
    effects::law_git_outcomes(
        output.status,
        text::lossy_text(output.stdout),
        text::lossy_text(output.stderr),
    );
}

} // verus!
