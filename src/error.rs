use vstd::prelude::*;
use crate::text::{decimal, decimal_text};

verus! {

/// Why a workspace name was refused.
#[derive(Clone, Copy, Debug, PartialEq, Eq, Structural)]
pub enum NameProblem {
    Empty,
    Separator,
    Reserved,
}

/// A repository whose workspace branch is not merged into its default branch.
#[derive(Clone, Debug)]
pub struct UnmergedRepo {
    pub identity: String,
    /// The fetch before the check failed, so the verdict rests on local data.
    pub fetch_failed: bool,
}

/// Errors of the workspace library.
#[derive(Clone, Debug)]
pub enum WsError {
    InvalidName { name: String, problem: NameProblem },
    IdentityParse { identity: String },
    NoHome,
    AlreadyExists { name: String },
    AttachFailed { identity: String, message: String },
    MetadataWrite { message: String },
    RemoveFailed { message: String },
    NotInWorkspace,
    PendingChanges { workspace: String, dirty: Vec<String> },
    UnmergedBranches { workspace: String, branch: String, repos: Vec<UnmergedRepo> },
    UnorderedRepos { identity: String },
    ColumnMismatch { got: usize, expected: usize },
}


/// `"<s>"`, the way names are quoted in messages.
pub open spec fn quoted(s: Seq<char>) -> Seq<char> {
    "\""@ + s + "\""@
}

/// The listed lines of an unmerged-branches refusal.
pub open spec fn unmerged_list(repos: Seq<(Seq<char>, bool)>) -> Seq<char>
    decreases repos.len(),
{
    if repos.len() == 0 {
        seq![]
    } else {
        let last = repos.last();
        unmerged_list(repos.drop_last()) + "\n  - "@ + last.0 + if last.1 {
            " (fetch failed, local data may be stale)"@
        } else {
            seq![]
        }
    }
}

/// The listed lines of a pending-changes refusal.
pub open spec fn name_list(names: Seq<Seq<char>>) -> Seq<char>
    decreases names.len(),
{
    if names.len() == 0 {
        seq![]
    } else {
        name_list(names.drop_last()) + "\n  - "@ + names.last()
    }
}

pub open spec fn strings_view(v: Seq<String>) -> Seq<Seq<char>> {
    v.map_values(|s: String| s@)
}

pub open spec fn unmerged_pairs(v: Seq<UnmergedRepo>) -> Seq<(Seq<char>, bool)> {
    v.map_values(|u: UnmergedRepo| (u.identity@, u.fetch_failed))
}

/// The text shown to the user for an error.
pub open spec fn error_text(e: WsError) -> Seq<char> {
    match e {
        WsError::InvalidName { name, problem } => match problem {
            NameProblem::Empty => "workspace name cannot be empty"@,
            NameProblem::Separator => "workspace name "@ + quoted(name@) + " cannot contain path separators"@,
            NameProblem::Reserved => "workspace name "@ + quoted(name@) + " is not allowed"@,
        },
        WsError::IdentityParse { identity } => "invalid repository identity "@ + quoted(identity@)
            + " (expected host/owner/repo)"@,
        WsError::NoHome => "cannot determine home directory"@,
        WsError::AlreadyExists { name } => "workspace "@ + quoted(name@) + " already exists"@,
        WsError::AttachFailed { identity, message } => "adding worktree for "@ + identity@ + ": "@
            + message@,
        WsError::MetadataWrite { message } => "writing workspace metadata: "@ + message@,
        WsError::RemoveFailed { message } => "removing workspace directory: "@ + message@,
        WsError::NotInWorkspace => "not in a workspace (no .ws.yaml found)"@,
        WsError::PendingChanges { workspace, dirty } => "workspace "@ + quoted(workspace@)
            + " has pending changes:"@ + name_list(strings_view(dirty@))
            + "\n\nUse --force to remove anyway"@,
        WsError::UnmergedBranches { workspace, branch, repos } => {
            let list = unmerged_pairs(repos@);
            "workspace "@ + quoted(workspace@) + " has unmerged branches ("@ + branch@ + "):"@
                + unmerged_list(list) + "\n\nUse --force to remove anyway"@ + if exists|i: int|
                0 <= i < list.len() && list[i].1 {
                "\n\nNote: some fetches failed; the branch may already be merged remotely"@
            } else {
                seq![]
            }
        },
        WsError::UnorderedRepos { identity } => "repository "@ + identity@
            + " is out of order or listed twice in the workspace metadata"@,
        WsError::ColumnMismatch { got, expected } => "row has "@ + decimal_text(got as nat)
            + " columns, expected "@ + decimal_text(expected as nat),
    }
}

fn push_quoted(s: &mut String, name: &str)
    ensures
        final(s)@ == old(s)@ + quoted(name@),
{
    s.append("\"");
    s.append(name);
    s.append("\"");
}

impl WsError {
    /// The message shown to the user.
    pub fn message(&self) -> (r: String)
        ensures
            r@ == error_text(*self),
    {
        match self {
            WsError::InvalidName { name, problem } => match problem {
                NameProblem::Empty => String::from_str("workspace name cannot be empty"),
                NameProblem::Separator => {
                    let mut s = String::from_str("workspace name ");
                    push_quoted(&mut s, name.as_str());
                    s.append(" cannot contain path separators");
                    s
                },
                NameProblem::Reserved => {
                    let mut s = String::from_str("workspace name ");
                    push_quoted(&mut s, name.as_str());
                    s.append(" is not allowed");
                    s
                },
            },
            WsError::IdentityParse { identity } => {
                let mut s = String::from_str("invalid repository identity ");
                push_quoted(&mut s, identity.as_str());
                s.append(" (expected host/owner/repo)");
                s
            },
            WsError::NoHome => String::from_str("cannot determine home directory"),
            WsError::AlreadyExists { name } => {
                let mut s = String::from_str("workspace ");
                push_quoted(&mut s, name.as_str());
                s.append(" already exists");
                s
            },
            WsError::AttachFailed { identity, message } => {
                let mut s = String::from_str("adding worktree for ");
                s.append(identity.as_str());
                s.append(": ");
                s.append(message.as_str());
                s
            },
            WsError::MetadataWrite { message } => {
                let mut s = String::from_str("writing workspace metadata: ");
                s.append(message.as_str());
                s
            },
            WsError::RemoveFailed { message } => {
                let mut s = String::from_str("removing workspace directory: ");
                s.append(message.as_str());
                s
            },
            WsError::NotInWorkspace => String::from_str("not in a workspace (no .ws.yaml found)"),
            WsError::PendingChanges { workspace, dirty } => {
                let mut s = String::from_str("workspace ");
                push_quoted(&mut s, workspace.as_str());
                s.append(" has pending changes:");
                let mut i: usize = 0;
                let ghost head = s@;
                while i < dirty.len()
                    invariant
                        i <= dirty.len(),
                        s@ == head + name_list(strings_view(dirty@).subrange(0, i as int)),
                    decreases dirty.len() - i,
                {
                    let ghost pre = strings_view(dirty@).subrange(0, i as int + 1);
                    assert(pre.drop_last() =~= strings_view(dirty@).subrange(0, i as int));
                    s.append("\n  - ");
                    s.append(dirty[i].as_str());
                    assert(s@ =~= head + name_list(pre));
                    i += 1;
                }
                assert(strings_view(dirty@).subrange(0, i as int) =~= strings_view(dirty@));
                s.append("\n\nUse --force to remove anyway");
                s
            },
            WsError::UnmergedBranches { workspace, branch, repos } => {
                let ghost list = unmerged_pairs(repos@);
                let mut s = String::from_str("workspace ");
                push_quoted(&mut s, workspace.as_str());
                s.append(" has unmerged branches (");
                s.append(branch.as_str());
                s.append("):");
                let ghost head = s@;
                let mut any_failed = false;
                let mut i: usize = 0;
                while i < repos.len()
                    invariant
                        i <= repos.len(),
                        list == unmerged_pairs(repos@),
                        s@ == head + unmerged_list(list.subrange(0, i as int)),
                        any_failed == exists|k: int| 0 <= k < i && list[k].1,
                    decreases repos.len() - i,
                {
                    let ghost pre = list.subrange(0, i as int + 1);
                    assert(pre.drop_last() =~= list.subrange(0, i as int));
                    assert(pre.last() == (repos@[i as int].identity@, repos@[i as int].fetch_failed));
                    s.append("\n  - ");
                    s.append(repos[i].identity.as_str());
                    if repos[i].fetch_failed {
                        s.append(" (fetch failed, local data may be stale)");
                        any_failed = true;
                    }
                    assert(s@ =~= head + unmerged_list(pre));
                    i += 1;
                }
                assert(list.subrange(0, i as int) =~= list);
                s.append("\n\nUse --force to remove anyway");
                if any_failed {
                    s.append("\n\nNote: some fetches failed; the branch may already be merged remotely");
                }
                s
            },
            WsError::UnorderedRepos { identity } => {
                let mut s = String::from_str("repository ");
                s.append(identity.as_str());
                s.append(" is out of order or listed twice in the workspace metadata");
                s
            },
            WsError::ColumnMismatch { got, expected } => {
                let mut s = String::from_str("row has ");
                let g = decimal(*got as u64);
                s.append(g.as_str());
                s.append(" columns, expected ");
                let e = decimal(*expected as u64);
                s.append(e.as_str());
                s
            },
        }
    }
}

} // verus!
