use vstd::prelude::*;
use crate::workspace::{pin_wf, RepoRef};

verus! {

/// How a worktree gets attached to its mirror.
#[derive(Clone, Debug)]
pub enum AttachPlan {
    /// Create the local branch `branch` at `start` and check it out.
    NewBranch { branch: String, start: String },
    /// Check out a local branch that already exists.
    ExistingLocal(String),
    /// Check out a remote-tracking ref such as `origin/main`.
    ExistingRemote(String),
    /// Check out a tag or commit with a detached head.
    Detached(String),
}

/// A question about the mirror that the attach decision needs answered.
#[derive(Clone, Debug)]
pub enum Probe {
    /// Does this local branch exist?
    LocalBranch(String),
    /// Does the remote-tracking ref of the pinned name exist?
    RemoteRef(String),
    /// Which branch is the mirror's default?
    DefaultBranch,
    /// Does the remote-tracking start point exist?
    StartRef(String),
}

/// Either a question to answer first, or the attach to perform.
#[derive(Clone, Debug)]
pub enum AttachStep {
    Ask(Probe),
    Attach(AttachPlan),
}

/// What has been learned of the mirror so far.
#[derive(Clone, Debug)]
pub struct AttachFacts {
    pub local: Option<bool>,
    pub remote: Option<bool>,
    pub default_branch: Option<String>,
    pub start_remote: Option<bool>,
}

pub enum PlanV {
    NewBranch(Seq<char>, Seq<char>),
    ExistingLocal(Seq<char>),
    ExistingRemote(Seq<char>),
    Detached(Seq<char>),
}

pub enum ProbeV {
    LocalBranch(Seq<char>),
    RemoteRef(Seq<char>),
    DefaultBranch,
    StartRef(Seq<char>),
}

pub enum StepV {
    Ask(ProbeV),
    Attach(PlanV),
}

pub struct FactsV {
    pub local: Option<bool>,
    pub remote: Option<bool>,
    pub default_branch: Option<Seq<char>>,
    pub start_remote: Option<bool>,
}

impl View for AttachPlan {
    type V = PlanV;

    open spec fn view(&self) -> PlanV {
        match self {
            AttachPlan::NewBranch { branch, start } => PlanV::NewBranch(branch@, start@),
            AttachPlan::ExistingLocal(b) => PlanV::ExistingLocal(b@),
            AttachPlan::ExistingRemote(b) => PlanV::ExistingRemote(b@),
            AttachPlan::Detached(b) => PlanV::Detached(b@),
        }
    }
}

impl View for Probe {
    type V = ProbeV;

    open spec fn view(&self) -> ProbeV {
        match self {
            Probe::LocalBranch(b) => ProbeV::LocalBranch(b@),
            Probe::RemoteRef(b) => ProbeV::RemoteRef(b@),
            Probe::DefaultBranch => ProbeV::DefaultBranch,
            Probe::StartRef(b) => ProbeV::StartRef(b@),
        }
    }
}

impl View for AttachStep {
    type V = StepV;

    open spec fn view(&self) -> StepV {
        match self {
            AttachStep::Ask(p) => StepV::Ask(p@),
            AttachStep::Attach(p) => StepV::Attach(p@),
        }
    }
}

impl View for AttachFacts {
    type V = FactsV;

    open spec fn view(&self) -> FactsV {
        FactsV {
            local: self.local,
            remote: self.remote,
            default_branch: match self.default_branch {
                Some(d) => Some(d@),
                None => None,
            },
            start_remote: self.start_remote,
        }
    }
}

/// The remote-tracking ref that a pinned name would have in the mirror.
pub open spec fn remote_tracking(r: Seq<char>) -> Seq<char> {
    "refs/remotes/origin/"@ + r
}

/// The short name of the `origin` counterpart of a branch.
pub open spec fn origin_of(r: Seq<char>) -> Seq<char> {
    "origin/"@ + r
}

/// The attach decision. A pinned repository checks out its pin as a local branch,
/// else as a remote-tracking ref, else detached. An active one checks out the
/// workspace branch when it exists, else creates it from `origin/<default>` when
/// that exists, else from the local default branch.
pub open spec fn attach_step_spec(pin: Option<Seq<char>>, branch: Seq<char>, f: FactsV) -> StepV {
    match pin {
        Some(p) => match f.local {
            None => StepV::Ask(ProbeV::LocalBranch(p)),
            Some(true) => StepV::Attach(PlanV::ExistingLocal(p)),
            Some(false) => match f.remote {
                None => StepV::Ask(ProbeV::RemoteRef(remote_tracking(p))),
                Some(true) => StepV::Attach(PlanV::ExistingRemote(origin_of(p))),
                Some(false) => StepV::Attach(PlanV::Detached(p)),
            },
        },
        None => match f.local {
            None => StepV::Ask(ProbeV::LocalBranch(branch)),
            Some(true) => StepV::Attach(PlanV::ExistingLocal(branch)),
            Some(false) => match f.default_branch {
                None => StepV::Ask(ProbeV::DefaultBranch),
                Some(d) => match f.start_remote {
                    None => StepV::Ask(ProbeV::StartRef(origin_of(d))),
                    Some(true) => StepV::Attach(PlanV::NewBranch(branch, origin_of(d))),
                    Some(false) => StepV::Attach(PlanV::NewBranch(branch, d)),
                },
            },
        },
    }
}

impl AttachFacts {
    /// Nothing known yet.
    pub fn new() -> (f: AttachFacts)
        ensures
            f.local is None,
            f.remote is None,
            f.default_branch is None,
            f.start_remote is None,
    {
        AttachFacts { local: None, remote: None, default_branch: None, start_remote: None }
    }
}

fn prefixed(prefix: &str, s: &str) -> (r: String)
    ensures
        r@ == prefix@ + s@,
{
    let mut r = String::from_str(prefix);
    r.append(s);
    r
}

/// The next step of attaching a worktree for a repository bound by `pin`, in a
/// workspace whose branch is `branch`, given what is known of the mirror.
pub fn next_attach_step(pin: &RepoRef, branch: &str, facts: &AttachFacts) -> (r: AttachStep)
    requires
        pin_wf(pin@),
    ensures
        r@ == attach_step_spec(pin@, branch@, facts@),
{
    match pin {
        RepoRef::Context(p) => match facts.local {
            None => AttachStep::Ask(Probe::LocalBranch(p.clone())),
            Some(true) => AttachStep::Attach(AttachPlan::ExistingLocal(p.clone())),
            Some(false) => match facts.remote {
                None => AttachStep::Ask(Probe::RemoteRef(prefixed("refs/remotes/origin/", p.as_str()))),
                Some(true) => AttachStep::Attach(AttachPlan::ExistingRemote(prefixed("origin/", p.as_str()))),
                Some(false) => AttachStep::Attach(AttachPlan::Detached(p.clone())),
            },
        },
        RepoRef::Active => match facts.local {
            None => AttachStep::Ask(Probe::LocalBranch(String::from_str(branch))),
            Some(true) => AttachStep::Attach(AttachPlan::ExistingLocal(String::from_str(branch))),
            Some(false) => match &facts.default_branch {
                None => AttachStep::Ask(Probe::DefaultBranch),
                Some(d) => match facts.start_remote {
                    None => AttachStep::Ask(Probe::StartRef(prefixed("origin/", d.as_str()))),
                    Some(true) => AttachStep::Attach(
                        AttachPlan::NewBranch {
                            branch: String::from_str(branch),
                            start: prefixed("origin/", d.as_str()),
                        },
                    ),
                    Some(false) => AttachStep::Attach(
                        AttachPlan::NewBranch { branch: String::from_str(branch), start: d.clone() },
                    ),
                },
            },
        },
    }
}

/// An active repository whose workspace branch is not yet in the mirror starts its
/// new branch from `origin/<default>` when that ref exists, and from the local
/// default branch otherwise.
pub proof fn lemma_attach_start_point(branch: Seq<char>, default_branch: Seq<char>, f: FactsV)
    requires
        f.local == Some(false),
        f.default_branch == Some(default_branch),
        f.start_remote is Some,
    ensures
        f.start_remote == Some(true) ==> attach_step_spec(None, branch, f) == StepV::Attach(
            PlanV::NewBranch(branch, "origin/"@ + default_branch),
        ),
        f.start_remote == Some(false) ==> attach_step_spec(None, branch, f) == StepV::Attach(
            PlanV::NewBranch(branch, default_branch),
        ),
{
}

} // verus!
