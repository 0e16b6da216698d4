use vstd::prelude::*;
use crate::error::{strings_view, WsError};
use crate::identity::{is_identity, parse_identity, spells_identity};
use crate::remove::{target_for, target_ids, Target};
use crate::text::{join_path, names_sorted, sort_names};
use crate::workspace::Metadata;

verus! {

/// The identities of `repos` that parse, in order.
pub open spec fn parsed_ids(repos: Seq<(Seq<char>, Option<Seq<char>>)>) -> Seq<Seq<char>>
    decreases repos.len(),
{
    if repos.len() == 0 {
        seq![]
    } else {
        let prev = parsed_ids(repos.drop_last());
        if is_identity(repos.last().0) {
            prev.push(repos.last().0)
        } else {
            prev
        }
    }
}

/// Every repository of the workspace whose identity parses, with its paths.
pub fn repo_targets(meta: &Metadata, ws_dir: &str, mirrors_root: &str) -> (r: Vec<Target>)
    ensures
        target_ids(r@) == parsed_ids(meta.repos_view()),
        forall|i: int| 0 <= i < r.len() ==> target_for(#[trigger] r@[i], r@[i].identity@, mirrors_root@, ws_dir@),
{
    let ghost rv = meta.repos_view();
    let mut r: Vec<Target> = Vec::new();
    let mut i: usize = 0;
    while i < meta.repos.len()
        invariant
            i <= meta.repos.len(),
            rv == meta.repos_view(),
            target_ids(r@) == parsed_ids(rv.subrange(0, i as int)),
            forall|k: int| 0 <= k < r.len() ==> target_for(#[trigger] r@[k], r@[k].identity@, mirrors_root@, ws_dir@),
        decreases meta.repos.len() - i,
    {
        let entry = &meta.repos[i];
        proof {
            assert(rv.subrange(0, i as int + 1).drop_last() =~= rv.subrange(0, i as int));
            assert(rv.subrange(0, i as int + 1).last() == entry@);
        }
        if let Ok(id) = parse_identity(entry.identity.as_str()) {
            let t = Target {
                identity: entry.identity.clone(),
                mirror: crate::mirror::dir(mirrors_root, &id),
                worktree: join_path(ws_dir, id.repo.as_str()),
                short_name: id.repo.clone(),
            };
            proof {
                assert(spells_identity(entry.identity@, id.host@, id.owner@, id.repo@));
            }
            let ghost before = r@;
            r.push(t);
            assert(target_ids(r@) =~= target_ids(before).push(t.identity@));
        }
        i += 1;
    }
    assert(rv.subrange(0, i as int) =~= rv);
    r
}

/// What a worktree holds beyond its upstream: files changed and commits ahead.
#[derive(Clone, Debug)]
pub struct RepoActivity {
    pub short_name: String,
    pub changed: u64,
    pub ahead: u64,
}

pub open spec fn activity_view(v: Seq<RepoActivity>) -> Seq<(Seq<char>, nat, nat)> {
    v.map_values(|a: RepoActivity| (a.short_name@, a.changed as nat, a.ahead as nat))
}

/// The short names of the repositories with changed files or commits ahead, in order.
pub open spec fn dirty_names(acts: Seq<(Seq<char>, nat, nat)>) -> Seq<Seq<char>>
    decreases acts.len(),
{
    if acts.len() == 0 {
        seq![]
    } else {
        let prev = dirty_names(acts.drop_last());
        let a = acts.last();
        if a.1 > 0 || a.2 > 0 {
            prev.push(a.0)
        } else {
            prev
        }
    }
}

/// The repositories of a workspace that hold work not yet upstream.
pub fn has_pending_changes(activity: &Vec<RepoActivity>) -> (r: Vec<String>)
    ensures
        strings_view(r@) == dirty_names(activity_view(activity@)),
{
    let ghost av = activity_view(activity@);
    let mut r: Vec<String> = Vec::new();
    let mut i: usize = 0;
    while i < activity.len()
        invariant
            i <= activity.len(),
            av == activity_view(activity@),
            strings_view(r@) == dirty_names(av.subrange(0, i as int)),
        decreases activity.len() - i,
    {
        let a = &activity[i];
        proof {
            assert(av.subrange(0, i as int + 1).drop_last() =~= av.subrange(0, i as int));
            assert(av.subrange(0, i as int + 1).last() == (a.short_name@, a.changed as nat, a.ahead as nat));
        }
        if a.changed > 0 || a.ahead > 0 {
            let ghost before = r@;
            r.push(a.short_name.clone());
            assert(strings_view(r@) =~= strings_view(before).push(a.short_name@));
        }
        i += 1;
    }
    assert(av.subrange(0, i as int) =~= av);
    r
}

/// Removal is refused, unless forced, while any repository holds pending work;
/// the refusal lists the dirty repositories in ascending order.
pub fn pending_changes_gate(name: &str, force: bool, dirty: Vec<String>) -> (r: Result<(), WsError>)
    ensures
        r is Ok <==> (force || dirty.len() == 0),
        r matches Err(WsError::PendingChanges { workspace, dirty: d }) ==> workspace@ == name@
            && names_sorted(strings_view(d@)) && strings_view(d@).to_multiset() == strings_view(
            dirty@,
        ).to_multiset(),
        r matches Err(e) ==> e is PendingChanges,
{
    if force || dirty.len() == 0 {
        Ok(())
    } else {
        let sorted = sort_names(dirty);
        Err(WsError::PendingChanges { workspace: String::from_str(name), dirty: sorted })
    }
}

/// The workspace containing a directory: the first of its ancestors (itself
/// first) that holds a metadata file.
pub fn detect(ancestors: &Vec<String>, has_metadata: &Vec<bool>) -> (r: Result<String, WsError>)
    requires
        ancestors.len() == has_metadata.len(),
    ensures
        match r {
            Ok(d) => exists|i: int|
                0 <= i < ancestors.len() && has_metadata@[i] && d@ == ancestors@[i]@ && forall|k: int|
                    0 <= k < i ==> !has_metadata@[k],
            Err(e) => e is NotInWorkspace && forall|k: int| 0 <= k < has_metadata.len() ==> !has_metadata@[k],
        },
{
    let mut i: usize = 0;
    while i < ancestors.len()
        invariant
            i <= ancestors.len(),
            ancestors.len() == has_metadata.len(),
            forall|k: int| 0 <= k < i ==> !has_metadata@[k],
        decreases ancestors.len() - i,
    {
        if has_metadata[i] {
            return Ok(ancestors[i].clone());
        }
        i += 1;
    }
    Err(WsError::NotInWorkspace)
}

} // verus!
