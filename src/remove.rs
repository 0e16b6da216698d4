use vstd::prelude::*;
use crate::error::{strings_view, UnmergedRepo, WsError};
use crate::identity::{is_identity, parse_identity, spells_identity};
use crate::text::{join_path, joined};
use crate::workspace::{repos_wf, Metadata};

verus! {

/// Where a removal stands. Active repositories are fetched, then (unless forced)
/// checked for an unmerged workspace branch; past that gate every worktree is
/// removed, the workspace branch is deleted from each active mirror that still has
/// it, and the workspace directory goes last.
#[derive(Clone, Copy, Debug, PartialEq, Eq, Structural)]
pub enum RemovePhase {
    Fetch(usize),
    GateExists(usize),
    GateDefault(usize),
    GateMerged(usize),
    DropWorktree(usize),
    CheckBranch(usize),
    DropBranch(usize),
    DropDir,
    Unmerged,
    Failed,
    Done,
}

/// The answer to the last operation.
#[derive(Clone, Debug)]
pub enum Reply {
    /// The operation succeeded.
    Done,
    /// A yes/no answer.
    Answer(bool),
    /// The mirror's default branch.
    Branch(String),
    /// The operation failed, with this message.
    Failed(String),
}

/// The next operation of a removal. Indexes below the number of active
/// repositories name `active[i]`; `RemoveWorktree(k)` names `active[k]`, or
/// `context[k - active.len()]` past them.
#[derive(Clone, Debug)]
pub enum RemoveOp {
    /// Fetch the mirror of `active[i]` (a failure is only a warning).
    Fetch(usize),
    /// Does the workspace branch exist in the mirror of `active[i]`?
    BranchExists(usize),
    /// Which is the default branch of the mirror of `active[i]`?
    DefaultBranch(usize),
    /// Is the workspace branch merged into this default branch in the mirror of `active[i]`?
    IsMerged(usize, String),
    /// Remove worktree `k` (a failure is only a warning).
    RemoveWorktree(usize),
    /// Delete the workspace branch from the mirror of `active[i]` (a failure is only a warning).
    DeleteBranch(usize),
    /// Delete the workspace directory tree.
    RemoveDir,
    /// The removal failed with this error.
    Fail(WsError),
    /// The removal is complete.
    Finish,
}

pub enum ReplyV {
    Done,
    Answer(bool),
    Branch(Seq<char>),
    Failed(Seq<char>),
}

pub enum OpV {
    Fetch(nat),
    BranchExists(nat),
    DefaultBranch(nat),
    IsMerged(nat, Seq<char>),
    RemoveWorktree(nat),
    DeleteBranch(nat),
    RemoveDir,
    FailUnmerged(Seq<char>, Seq<char>, Seq<(Seq<char>, bool)>),
    FailRemove(Seq<char>),
    Finish,
}

impl View for Reply {
    type V = ReplyV;

    open spec fn view(&self) -> ReplyV {
        match self {
            Reply::Done => ReplyV::Done,
            Reply::Answer(b) => ReplyV::Answer(*b),
            Reply::Branch(b) => ReplyV::Branch(b@),
            Reply::Failed(m) => ReplyV::Failed(m@),
        }
    }
}

pub open spec fn unmerged_view(v: Seq<UnmergedRepo>) -> Seq<(Seq<char>, bool)> {
    v.map_values(|u: UnmergedRepo| (u.identity@, u.fetch_failed))
}

impl View for RemoveOp {
    type V = OpV;

    open spec fn view(&self) -> OpV {
        match self {
            RemoveOp::Fetch(i) => OpV::Fetch(*i as nat),
            RemoveOp::BranchExists(i) => OpV::BranchExists(*i as nat),
            RemoveOp::DefaultBranch(i) => OpV::DefaultBranch(*i as nat),
            RemoveOp::IsMerged(i, d) => OpV::IsMerged(*i as nat, d@),
            RemoveOp::RemoveWorktree(k) => OpV::RemoveWorktree(*k as nat),
            RemoveOp::DeleteBranch(i) => OpV::DeleteBranch(*i as nat),
            RemoveOp::RemoveDir => OpV::RemoveDir,
            RemoveOp::Fail(e) => match e {
                WsError::UnmergedBranches { workspace, branch, repos } => OpV::FailUnmerged(
                    workspace@,
                    branch@,
                    unmerged_view(repos@),
                ),
                WsError::RemoveFailed { message } => OpV::FailRemove(message@),
                _ => OpV::FailRemove(seq![]),
            },
            RemoveOp::Finish => OpV::Finish,
        }
    }
}

/// The state of a removal, as far as its decisions go.
pub struct RemoveState {
    pub phase: RemovePhase,
    pub name: Seq<char>,
    pub branch: Seq<char>,
    pub force: bool,
    pub active_ids: Seq<Seq<char>>,
    pub nc: nat,
    pub fetch_failed: Seq<bool>,
    pub unmerged: Seq<(Seq<char>, bool)>,
    pub default_branch: Seq<char>,
    pub error: Seq<char>,
}

impl RemoveState {
    pub open spec fn na(self) -> nat {
        self.active_ids.len()
    }

    /// Skips the loops that have nothing (left) to do.
    pub open spec fn settle(self, p: RemovePhase) -> RemovePhase {
        let after_fetch = match p {
            RemovePhase::Fetch(i) => if i >= self.na() {
                if self.force {
                    RemovePhase::DropWorktree(0)
                } else {
                    RemovePhase::GateExists(0)
                }
            } else {
                p
            },
            _ => p,
        };
        let after_gate = match after_fetch {
            RemovePhase::GateExists(i) => if i >= self.na() {
                if self.unmerged.len() > 0 {
                    RemovePhase::Unmerged
                } else {
                    RemovePhase::DropWorktree(0)
                }
            } else {
                after_fetch
            },
            _ => after_fetch,
        };
        let after_worktrees = match after_gate {
            RemovePhase::DropWorktree(k) => if k >= self.na() + self.nc {
                RemovePhase::CheckBranch(0)
            } else {
                after_gate
            },
            _ => after_gate,
        };
        match after_worktrees {
            RemovePhase::CheckBranch(i) => if i >= self.na() {
                RemovePhase::DropDir
            } else {
                after_worktrees
            },
            _ => after_worktrees,
        }
    }

    pub open spec fn with_phase(self, p: RemovePhase) -> RemoveState {
        RemoveState { phase: self.settle(p), ..self }
    }

    /// The removal of a workspace with these active repositories and `nc` pinned ones.
    pub open spec fn initial(
        name: Seq<char>,
        branch: Seq<char>,
        force: bool,
        active_ids: Seq<Seq<char>>,
        nc: nat,
    ) -> RemoveState {
        let s = RemoveState {
            phase: RemovePhase::Fetch(0),
            name,
            branch,
            force,
            active_ids,
            nc,
            fetch_failed: seq![],
            unmerged: seq![],
            default_branch: seq![],
            error: seq![],
        };
        s.with_phase(RemovePhase::Fetch(0))
    }

    /// The state after the reply `r` to the current operation.
    pub open spec fn step(self, r: ReplyV) -> RemoveState {
        match self.phase {
            RemovePhase::Fetch(i) => {
                let s = RemoveState { fetch_failed: self.fetch_failed.push(!(r is Done)), ..self };
                s.with_phase(RemovePhase::Fetch((i + 1) as usize))
            },
            RemovePhase::GateExists(i) => if r == ReplyV::Answer(true) {
                RemoveState { phase: RemovePhase::GateDefault(i), ..self }
            } else {
                self.with_phase(RemovePhase::GateExists((i + 1) as usize))
            },
            RemovePhase::GateDefault(i) => match r {
                ReplyV::Branch(d) => RemoveState {
                    phase: RemovePhase::GateMerged(i),
                    default_branch: d,
                    ..self
                },
                _ => self.with_phase(RemovePhase::GateExists((i + 1) as usize)),
            },
            RemovePhase::GateMerged(i) => if r == ReplyV::Answer(true) {
                self.with_phase(RemovePhase::GateExists((i + 1) as usize))
            } else {
                let s = RemoveState {
                    unmerged: self.unmerged.push((self.active_ids[i as int], self.fetch_failed[i as int])),
                    ..self
                };
                s.with_phase(RemovePhase::GateExists((i + 1) as usize))
            },
            RemovePhase::DropWorktree(k) => self.with_phase(RemovePhase::DropWorktree((k + 1) as usize)),
            RemovePhase::CheckBranch(i) => if r == ReplyV::Answer(true) {
                RemoveState { phase: RemovePhase::DropBranch(i), ..self }
            } else {
                self.with_phase(RemovePhase::CheckBranch((i + 1) as usize))
            },
            RemovePhase::DropBranch(i) => self.with_phase(RemovePhase::CheckBranch((i + 1) as usize)),
            RemovePhase::DropDir => match r {
                ReplyV::Done => RemoveState { phase: RemovePhase::Done, ..self },
                ReplyV::Failed(m) => RemoveState { phase: RemovePhase::Failed, error: m, ..self },
                _ => RemoveState { phase: RemovePhase::Failed, error: seq![], ..self },
            },
            _ => self,
        }
    }

    /// The operation asked for in this state.
    pub open spec fn op(self) -> OpV {
        match self.phase {
            RemovePhase::Fetch(i) => OpV::Fetch(i as nat),
            RemovePhase::GateExists(i) => OpV::BranchExists(i as nat),
            RemovePhase::GateDefault(i) => OpV::DefaultBranch(i as nat),
            RemovePhase::GateMerged(i) => OpV::IsMerged(i as nat, self.default_branch),
            RemovePhase::DropWorktree(k) => OpV::RemoveWorktree(k as nat),
            RemovePhase::CheckBranch(i) => OpV::BranchExists(i as nat),
            RemovePhase::DropBranch(i) => OpV::DeleteBranch(i as nat),
            RemovePhase::DropDir => OpV::RemoveDir,
            RemovePhase::Unmerged => OpV::FailUnmerged(self.name, self.branch, self.unmerged),
            RemovePhase::Failed => OpV::FailRemove(self.error),
            RemovePhase::Done => OpV::Finish,
        }
    }

    pub open spec fn wf(self) -> bool {
        &&& self.na() + self.nc < usize::MAX
        &&& match self.phase {
            RemovePhase::Fetch(i) => i < self.na() && self.fetch_failed.len() == i,
            RemovePhase::GateExists(i) => i < self.na() && self.fetch_failed.len() == self.na(),
            RemovePhase::GateDefault(i) => i < self.na() && self.fetch_failed.len() == self.na(),
            RemovePhase::GateMerged(i) => i < self.na() && self.fetch_failed.len() == self.na(),
            RemovePhase::DropWorktree(k) => k < self.na() + self.nc,
            RemovePhase::CheckBranch(i) => i < self.na(),
            RemovePhase::DropBranch(i) => i < self.na(),
            _ => true,
        }
    }
}


/// Every state a removal reaches from a well-formed one is well formed.
pub proof fn lemma_step_wf(s: RemoveState, r: ReplyV)
    requires
        s.wf(),
    ensures
        s.step(r).wf(),
{
}

/// A removal starts well formed.
pub proof fn lemma_initial_wf(name: Seq<char>, branch: Seq<char>, force: bool, active_ids: Seq<Seq<char>>, nc: nat)
    requires
        active_ids.len() + nc < usize::MAX,
    ensures
        RemoveState::initial(name, branch, force, active_ids, nc).wf(),
{
}

/// Without force, a workspace whose one active repository has its branch unmerged
/// is refused after the checks: no worktree, branch or directory is touched, and
/// the refusal names that repository.
pub proof fn lemma_unmerged_blocks_removal(
    name: Seq<char>,
    branch: Seq<char>,
    id: Seq<char>,
    fetch_reply: ReplyV,
    default_branch: Seq<char>,
    merged_reply: ReplyV,
    later: ReplyV,
)
    requires
        merged_reply != ReplyV::Answer(true),
    ensures
        ({
            let s0 = RemoveState::initial(name, branch, false, seq![id], 0);
            let s1 = s0.step(fetch_reply);
            let s2 = s1.step(ReplyV::Answer(true));
            let s3 = s2.step(ReplyV::Branch(default_branch));
            let s4 = s3.step(merged_reply);
            &&& s0.op() == OpV::Fetch(0)
            &&& s1.op() == OpV::BranchExists(0)
            &&& s2.op() == OpV::DefaultBranch(0)
            &&& s3.op() == OpV::IsMerged(0, default_branch)
            &&& s4.op() == OpV::FailUnmerged(name, branch, seq![(id, !(fetch_reply is Done))])
            &&& s4.step(later) == s4
        }),
{
    let s0 = RemoveState::initial(name, branch, false, seq![id], 0);
    let s1 = s0.step(fetch_reply);
    let s2 = s1.step(ReplyV::Answer(true));
    let s3 = s2.step(ReplyV::Branch(default_branch));
    let s4 = s3.step(merged_reply);
    assert(s4.unmerged =~= seq![(id, !(fetch_reply is Done))]);
}

/// With force, the same workspace is removed without any check: its worktree
/// goes, then the workspace branch, then the workspace directory.
pub proof fn lemma_force_removes(
    name: Seq<char>,
    branch: Seq<char>,
    id: Seq<char>,
    fetch_reply: ReplyV,
    worktree_reply: ReplyV,
    delete_reply: ReplyV,
)
    ensures
        ({
            let s0 = RemoveState::initial(name, branch, true, seq![id], 0);
            let s1 = s0.step(fetch_reply);
            let s2 = s1.step(worktree_reply);
            let s3 = s2.step(ReplyV::Answer(true));
            let s4 = s3.step(delete_reply);
            let s5 = s4.step(ReplyV::Done);
            &&& s0.op() == OpV::Fetch(0)
            &&& s1.op() == OpV::RemoveWorktree(0)
            &&& s2.op() == OpV::BranchExists(0)
            &&& s3.op() == OpV::DeleteBranch(0)
            &&& s4.op() == OpV::RemoveDir
            &&& s5.op() == OpV::Finish
        }),
{
}


/// The identities of the repositories that parse and are active (or, with
/// `active` false, pinned), in order.
pub open spec fn bound_ids(repos: Seq<(Seq<char>, Option<Seq<char>>)>, active: bool) -> Seq<Seq<char>>
    decreases repos.len(),
{
    if repos.len() == 0 {
        seq![]
    } else {
        let prev = bound_ids(repos.drop_last(), active);
        let e = repos.last();
        if is_identity(e.0) && (e.1 is None) == active {
            prev.push(e.0)
        } else {
            prev
        }
    }
}

/// The identities of the repositories that do not parse, in order.
pub open spec fn unparsed_ids(repos: Seq<(Seq<char>, Option<Seq<char>>)>) -> Seq<Seq<char>>
    decreases repos.len(),
{
    if repos.len() == 0 {
        seq![]
    } else {
        let prev = unparsed_ids(repos.drop_last());
        if is_identity(repos.last().0) {
            prev
        } else {
            prev.push(repos.last().0)
        }
    }
}

/// One repository of a workspace being removed, with its paths.
#[derive(Clone, Debug)]
pub struct Target {
    pub identity: String,
    pub mirror: String,
    pub worktree: String,
    pub short_name: String,
}

/// `t` describes the repository `id` of the workspace in `ws_dir`.
pub open spec fn target_for(t: Target, id: Seq<char>, mirrors_root: Seq<char>, ws_dir: Seq<char>) -> bool {
    &&& t.identity@ == id
    &&& t.mirror@ == joined(mirrors_root, id + ".git"@)
    &&& exists|h: Seq<char>, o: Seq<char>, r: Seq<char>|
        spells_identity(id, h, o, r) && t.worktree@ == joined(ws_dir, r) && t.short_name@ == r
}

pub open spec fn target_ids(v: Seq<Target>) -> Seq<Seq<char>> {
    v.map_values(|t: Target| t.identity@)
}

/// A workspace removal in progress; the caller performs each operation it asks
/// for and reports back with `on_reply`.
#[derive(Clone, Debug)]
pub struct RemoveTxn {
    pub name: String,
    pub branch: String,
    pub ws_dir: String,
    pub mirrors_root: String,
    pub force: bool,
    pub active: Vec<Target>,
    pub context: Vec<Target>,
    /// Identities of the metadata that do not parse; their worktrees are left alone.
    pub skipped: Vec<String>,
    pub fetch_failed: Vec<bool>,
    pub unmerged: Vec<UnmergedRepo>,
    pub default_branch: String,
    pub error: String,
    pub phase: RemovePhase,
}

impl View for RemoveTxn {
    type V = RemoveState;

    open spec fn view(&self) -> RemoveState {
        RemoveState {
            phase: self.phase,
            name: self.name@,
            branch: self.branch@,
            force: self.force,
            active_ids: target_ids(self.active@),
            nc: self.context.len() as nat,
            fetch_failed: self.fetch_failed@,
            unmerged: unmerged_view(self.unmerged@),
            default_branch: self.default_branch@,
            error: self.error@,
        }
    }
}

impl RemoveTxn {
    pub open spec fn targets_wf(&self) -> bool {
        &&& forall|i: int| 0 <= i < self.active.len() ==> target_for(
            #[trigger] self.active@[i],
            self.active@[i].identity@,
            self.mirrors_root@,
            self.ws_dir@,
        )
        &&& forall|i: int| 0 <= i < self.context.len() ==> target_for(
            #[trigger] self.context@[i],
            self.context@[i].identity@,
            self.mirrors_root@,
            self.ws_dir@,
        )
    }

    pub open spec fn wf(&self) -> bool {
        self@.wf() && self.targets_wf()
    }

    /// The targets and settings are those of `other`.
    pub open spec fn same_targets(&self, other: &RemoveTxn) -> bool {
        &&& self.name == other.name
        &&& self.branch == other.branch
        &&& self.ws_dir == other.ws_dir
        &&& self.mirrors_root == other.mirrors_root
        &&& self.force == other.force
        &&& self.active == other.active
        &&& self.context == other.context
        &&& self.skipped == other.skipped
    }

    fn settle(&self, p: RemovePhase) -> (q: RemovePhase)
        ensures
            q == self@.settle(p),
    {
        let na = self.active.len();
        let nc = self.context.len();
        let after_fetch = match p {
            RemovePhase::Fetch(i) => if i >= na {
                if self.force {
                    RemovePhase::DropWorktree(0)
                } else {
                    RemovePhase::GateExists(0)
                }
            } else {
                p
            },
            _ => p,
        };
        let after_gate = match after_fetch {
            RemovePhase::GateExists(i) => if i >= na {
                if self.unmerged.len() > 0 {
                    RemovePhase::Unmerged
                } else {
                    RemovePhase::DropWorktree(0)
                }
            } else {
                after_fetch
            },
            _ => after_fetch,
        };
        let after_worktrees = match after_gate {
            RemovePhase::DropWorktree(k) => if k as u128 >= na as u128 + nc as u128 {
                RemovePhase::CheckBranch(0)
            } else {
                after_gate
            },
            _ => after_gate,
        };
        match after_worktrees {
            RemovePhase::CheckBranch(i) => if i >= na {
                RemovePhase::DropDir
            } else {
                after_worktrees
            },
            _ => after_worktrees,
        }
    }

    fn copy_unmerged(&self) -> (r: Vec<UnmergedRepo>)
        ensures
            unmerged_view(r@) == unmerged_view(self.unmerged@),
    {
        let mut r: Vec<UnmergedRepo> = Vec::new();
        let mut i: usize = 0;
        while i < self.unmerged.len()
            invariant
                i <= self.unmerged.len(),
                unmerged_view(r@) == unmerged_view(self.unmerged@).subrange(0, i as int),
            decreases self.unmerged.len() - i,
        {
            let u = UnmergedRepo {
                identity: self.unmerged[i].identity.clone(),
                fetch_failed: self.unmerged[i].fetch_failed,
            };
            let ghost before = r@;
            r.push(u);
            assert(unmerged_view(r@) =~= unmerged_view(before).push((u.identity@, u.fetch_failed)));
            assert(unmerged_view(self.unmerged@).subrange(0, i as int + 1) =~= unmerged_view(
                self.unmerged@,
            ).subrange(0, i as int).push((u.identity@, u.fetch_failed)));
            i += 1;
        }
        assert(unmerged_view(self.unmerged@).subrange(0, i as int) =~= unmerged_view(self.unmerged@));
        r
    }

    /// The operation the removal asks for now.
    pub fn op(&self) -> (r: RemoveOp)
        ensures
            r@ == self@.op(),
    {
        match self.phase {
            RemovePhase::Fetch(i) => RemoveOp::Fetch(i),
            RemovePhase::GateExists(i) => RemoveOp::BranchExists(i),
            RemovePhase::GateDefault(i) => RemoveOp::DefaultBranch(i),
            RemovePhase::GateMerged(i) => RemoveOp::IsMerged(i, self.default_branch.clone()),
            RemovePhase::DropWorktree(k) => RemoveOp::RemoveWorktree(k),
            RemovePhase::CheckBranch(i) => RemoveOp::BranchExists(i),
            RemovePhase::DropBranch(i) => RemoveOp::DeleteBranch(i),
            RemovePhase::DropDir => RemoveOp::RemoveDir,
            RemovePhase::Unmerged => RemoveOp::Fail(
                WsError::UnmergedBranches {
                    workspace: self.name.clone(),
                    branch: self.branch.clone(),
                    repos: self.copy_unmerged(),
                },
            ),
            RemovePhase::Failed => RemoveOp::Fail(WsError::RemoveFailed { message: self.error.clone() }),
            RemovePhase::Done => RemoveOp::Finish,
        }
    }

    /// Reports the outcome of the last operation and returns the next one.
    pub fn on_reply(&mut self, reply: Reply) -> (r: RemoveOp)
        requires
            old(self).wf(),
        ensures
            final(self).wf(),
            final(self).same_targets(old(self)),
            final(self)@ == old(self)@.step(reply@),
            r@ == final(self)@.op(),
    {
        let ghost s = self@;
        proof {
            lemma_step_wf(s, reply@);
        }
        match self.phase {
            RemovePhase::Fetch(i) => {
                let failed = match reply {
                    Reply::Done => false,
                    _ => true,
                };
                self.fetch_failed.push(failed);
                let p = self.settle(RemovePhase::Fetch(i + 1));
                self.phase = p;
            },
            RemovePhase::GateExists(i) => {
                let yes = match reply {
                    Reply::Answer(b) => b,
                    _ => false,
                };
                if yes {
                    self.phase = RemovePhase::GateDefault(i);
                } else {
                    self.phase = self.settle(RemovePhase::GateExists(i + 1));
                }
            },
            RemovePhase::GateDefault(i) => match reply {
                Reply::Branch(d) => {
                    self.default_branch = d;
                    self.phase = RemovePhase::GateMerged(i);
                },
                _ => {
                    self.phase = self.settle(RemovePhase::GateExists(i + 1));
                },
            },
            RemovePhase::GateMerged(i) => {
                let yes = match reply {
                    Reply::Answer(b) => b,
                    _ => false,
                };
                if !yes {
                    let u = UnmergedRepo {
                        identity: self.active[i].identity.clone(),
                        fetch_failed: self.fetch_failed[i],
                    };
                    let ghost before = self.unmerged@;
                    self.unmerged.push(u);
                    assert(unmerged_view(self.unmerged@) =~= unmerged_view(before).push(
                        (u.identity@, u.fetch_failed),
                    ));
                }
                self.phase = self.settle(RemovePhase::GateExists(i + 1));
            },
            RemovePhase::DropWorktree(k) => {
                self.phase = self.settle(RemovePhase::DropWorktree(k + 1));
            },
            RemovePhase::CheckBranch(i) => {
                let yes = match reply {
                    Reply::Answer(b) => b,
                    _ => false,
                };
                if yes {
                    self.phase = RemovePhase::DropBranch(i);
                } else {
                    self.phase = self.settle(RemovePhase::CheckBranch(i + 1));
                }
            },
            RemovePhase::DropBranch(i) => {
                self.phase = self.settle(RemovePhase::CheckBranch(i + 1));
            },
            RemovePhase::DropDir => match reply {
                Reply::Done => {
                    self.phase = RemovePhase::Done;
                },
                Reply::Failed(m) => {
                    self.error = m;
                    self.phase = RemovePhase::Failed;
                },
                _ => {
                    self.error = String::new();
                    self.phase = RemovePhase::Failed;
                },
            },
            _ => {},
        }
        assert(self@ =~= s.step(reply@));
        self.op()
    }

    /// The repository of worktree `k`: `active[k]`, or a pinned one past them.
    pub fn worktree_of(&self, k: usize) -> (t: &Target)
        requires
            k < self.active.len() + self.context.len(),
        ensures
            k < self.active.len() ==> *t == self.active@[k as int],
            k >= self.active.len() ==> *t == self.context@[k - self.active.len()],
    {
        if k < self.active.len() {
            &self.active[k]
        } else {
            &self.context[k - self.active.len()]
        }
    }
}

/// Starts removing the workspace described by `meta`, which lives in `ws_dir`.
/// Repositories whose identity does not parse are skipped; the others are
/// split into active and pinned ones, in the metadata's order.
pub fn remove(meta: &Metadata, ws_dir: &str, mirrors_root: &str, force: bool) -> (r: RemoveTxn)
    requires
        meta.repos.len() + 1 < usize::MAX,
    ensures
        r.wf(),
        r.ws_dir@ == ws_dir@,
        r.mirrors_root@ == mirrors_root@,
        target_ids(r.active@) == bound_ids(meta.repos_view(), true),
        target_ids(r.context@) == bound_ids(meta.repos_view(), false),
        strings_view(r.skipped@) == unparsed_ids(meta.repos_view()),
        r@ == RemoveState::initial(
            meta.name@,
            meta.branch@,
            force,
            bound_ids(meta.repos_view(), true),
            bound_ids(meta.repos_view(), false).len(),
        ),
{
    let mut active: Vec<Target> = Vec::new();
    let mut context: Vec<Target> = Vec::new();
    let mut skipped: Vec<String> = Vec::new();
    let ghost rv = meta.repos_view();
    let mut i: usize = 0;
    while i < meta.repos.len()
        invariant
            i <= meta.repos.len(),
            rv == meta.repos_view(),
            active.len() + context.len() <= i,
            target_ids(active@) == bound_ids(rv.subrange(0, i as int), true),
            target_ids(context@) == bound_ids(rv.subrange(0, i as int), false),
            strings_view(skipped@) == unparsed_ids(rv.subrange(0, i as int)),
            forall|k: int| 0 <= k < active.len() ==> target_for(
                #[trigger] active@[k],
                active@[k].identity@,
                mirrors_root@,
                ws_dir@,
            ),
            forall|k: int| 0 <= k < context.len() ==> target_for(
                #[trigger] context@[k],
                context@[k].identity@,
                mirrors_root@,
                ws_dir@,
            ),
        decreases meta.repos.len() - i,
    {
        let entry = &meta.repos[i];
        proof {
            assert(rv.subrange(0, i as int + 1).drop_last() =~= rv.subrange(0, i as int));
            assert(rv.subrange(0, i as int + 1).last() == entry@);
        }
        match parse_identity(entry.identity.as_str()) {
            Ok(id) => {
                let t = Target {
                    identity: entry.identity.clone(),
                    mirror: crate::mirror::dir(mirrors_root, &id),
                    worktree: join_path(ws_dir, id.repo.as_str()),
                    short_name: id.repo.clone(),
                };
                proof {
                    assert(spells_identity(entry.identity@, id.host@, id.owner@, id.repo@));
                    assert(target_for(t, t.identity@, mirrors_root@, ws_dir@));
                }
                if entry.pin.is_active() {
                    let ghost before = active@;
                    active.push(t);
                    assert(target_ids(active@) =~= target_ids(before).push(t.identity@));
                } else {
                    let ghost before = context@;
                    context.push(t);
                    assert(target_ids(context@) =~= target_ids(before).push(t.identity@));
                }
            },
            Err(_) => {
                let ghost before = skipped@;
                skipped.push(entry.identity.clone());
                assert(strings_view(skipped@) =~= strings_view(before).push(entry.identity@));
            },
        }
        i += 1;
    }
    assert(rv.subrange(0, i as int) =~= rv);
    let mut t = RemoveTxn {
        name: meta.name.clone(),
        branch: meta.branch.clone(),
        ws_dir: String::from_str(ws_dir),
        mirrors_root: String::from_str(mirrors_root),
        force,
        active,
        context,
        skipped,
        fetch_failed: Vec::new(),
        unmerged: Vec::new(),
        default_branch: String::new(),
        error: String::new(),
        phase: RemovePhase::Fetch(0),
    };
    assert(unmerged_view(t.unmerged@) =~= seq![]);
    t.phase = t.settle(RemovePhase::Fetch(0));
    t
}


/// Each identity listed as active is the identity of an active repository.
proof fn lemma_active_ids_unpinned(repos: Seq<(Seq<char>, Option<Seq<char>>)>, i: int)
    requires
        0 <= i < bound_ids(repos, true).len(),
    ensures
        exists|k: int| 0 <= k < repos.len() && repos[k].0 == bound_ids(repos, true)[i] && repos[k].1 is None,
    decreases repos.len(),
{
    let prev = bound_ids(repos.drop_last(), true);
    if i < prev.len() {
        lemma_active_ids_unpinned(repos.drop_last(), i);
        let k = choose|k: int|
            0 <= k < repos.drop_last().len() && repos.drop_last()[k].0 == prev[i] && repos.drop_last()[k].1 is None;
        assert(repos[k] == repos.drop_last()[k]);
    } else {
        let k = repos.len() - 1;
        assert(repos[k] == repos.last());
    }
}

/// Branch deletion only ever targets the mirror of an active repository of the
/// workspace, forced or not: the refs of pinned repositories are never deleted,
/// they only lose their worktree.
pub proof fn lemma_pinned_refs_kept(s: RemoveState, repos: Seq<(Seq<char>, Option<Seq<char>>)>)
    requires
        s.wf(),
        repos_wf(repos),
        s.active_ids == bound_ids(repos, true),
    ensures
        s.op() matches OpV::DeleteBranch(i) ==> i < s.na() && forall|k: int|
            0 <= k < repos.len() && repos[k].0 == s.active_ids[i as int] ==> repos[k].1 is None,
{
    if let OpV::DeleteBranch(i) = s.op() {
        lemma_active_ids_unpinned(repos, i as int);
        let k0 = choose|k: int| 0 <= k < repos.len() && repos[k].0 == bound_ids(repos, true)[i as int] && repos[k].1 is None;
        assert forall|k: int| 0 <= k < repos.len() && repos[k].0 == s.active_ids[i as int] implies repos[k].1 is None by {
            if k != k0 {
                assert(repos[k].0 != repos[k0].0);
            }
        }
    }
}


/// The state after a sequence of replies.
pub open spec fn run_from(s: RemoveState, replies: Seq<ReplyV>) -> RemoveState
    decreases replies.len(),
{
    if replies.len() == 0 {
        s
    } else {
        run_from(s, replies.drop_last()).step(replies.last())
    }
}

proof fn lemma_run_keeps(s: RemoveState, replies: Seq<ReplyV>)
    requires
        s.wf(),
    ensures
        run_from(s, replies).wf(),
        run_from(s, replies).active_ids == s.active_ids,
    decreases replies.len(),
{
    if replies.len() > 0 {
        lemma_run_keeps(s, replies.drop_last());
        lemma_step_wf(run_from(s, replies.drop_last()), replies.last());
    }
}

/// Whatever the replies, forced or not, a removal never deletes a branch from
/// the mirror of a pinned repository: every branch deletion it asks for targets
/// an active repository of the workspace.
pub proof fn lemma_pinned_refs_kept_in_every_run(
    name: Seq<char>,
    branch: Seq<char>,
    force: bool,
    repos: Seq<(Seq<char>, Option<Seq<char>>)>,
    replies: Seq<ReplyV>,
)
    requires
        repos_wf(repos),
        bound_ids(repos, true).len() + bound_ids(repos, false).len() < usize::MAX,
    ensures
        ({
            let s = run_from(
                RemoveState::initial(name, branch, force, bound_ids(repos, true), bound_ids(repos, false).len()),
                replies,
            );
            s.op() matches OpV::DeleteBranch(i) ==> i < s.na() && forall|k: int|
                0 <= k < repos.len() && repos[k].0 == s.active_ids[i as int] ==> repos[k].1 is None
        }),
{
    let s0 = RemoveState::initial(name, branch, force, bound_ids(repos, true), bound_ids(repos, false).len());
    lemma_initial_wf(name, branch, force, bound_ids(repos, true), bound_ids(repos, false).len());
    lemma_run_keeps(s0, replies);
    lemma_pinned_refs_kept(run_from(s0, replies), repos);
}

} // verus!
