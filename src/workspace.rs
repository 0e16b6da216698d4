use vstd::prelude::*;
use crate::error::{NameProblem, WsError};
use crate::text::{lemma_lex_irreflexive, lemma_lex_trans, lex_lt, str_lt};

verus! {

/// What, if anything, is wrong with a workspace name.
pub open spec fn name_problem(s: Seq<char>) -> Option<NameProblem> {
    if s.len() == 0 {
        Some(NameProblem::Empty)
    } else if exists|i: int| 0 <= i < s.len() && (s[i] == '/' || s[i] == '\\') {
        Some(NameProblem::Separator)
    } else if s == seq!['.'] || s == seq!['.', '.'] {
        Some(NameProblem::Reserved)
    } else {
        None
    }
}

/// Checks that `name` can name a workspace directory.
pub fn validate_name(name: &str) -> (r: Result<(), WsError>)
    ensures
        match r {
            Ok(()) => name_problem(name@) is None,
            Err(WsError::InvalidName { name: n, problem }) => n@ == name@ && name_problem(name@)
                == Some(problem),
            Err(_) => false,
        },
{
    let n = name.unicode_len();
    if n == 0 {
        return Err(WsError::InvalidName { name: String::from_str(name), problem: NameProblem::Empty });
    }
    let mut i: usize = 0;
    while i < n
        invariant
            n == name@.len(),
            i <= n,
            forall|k: int| 0 <= k < i ==> name@[k] != '/' && name@[k] != '\\',
        decreases n - i,
    {
        let c = name.get_char(i);
        if c == '/' || c == '\\' {
            return Err(
                WsError::InvalidName { name: String::from_str(name), problem: NameProblem::Separator },
            );
        }
        i += 1;
    }
    if (n == 1 && name.get_char(0) == '.') || (n == 2 && name.get_char(0) == '.' && name.get_char(1)
        == '.') {
        assert(name@ == seq!['.'] || name@ == seq!['.', '.']);
        return Err(
            WsError::InvalidName { name: String::from_str(name), problem: NameProblem::Reserved },
        );
    }
    assert(!(name@ == seq!['.'] || name@ == seq!['.', '.'])) by {
        if name@ == seq!['.'] {
            assert(name@[0] == '.');
        }
        if name@ == seq!['.', '.'] {
            assert(name@[0] == '.' && name@[1] == '.');
        }
    }
    Ok(())
}

} // verus!

verus! {

/// How a repository takes part in a workspace: `Active` repositories follow the
/// workspace branch, `Context` ones stay pinned to a branch, tag or commit.
#[derive(Clone, Debug)]
pub enum RepoRef {
    Active,
    Context(String),
}

impl View for RepoRef {
    type V = Option<Seq<char>>;

    open spec fn view(&self) -> Option<Seq<char>> {
        match self {
            RepoRef::Active => None,
            RepoRef::Context(r) => Some(r@),
        }
    }
}

/// A pin is never the empty string.
pub open spec fn pin_wf(p: Option<Seq<char>>) -> bool {
    match p {
        Some(r) => r.len() > 0,
        None => true,
    }
}

/// The pin a request string stands for: empty means `Active`.
pub open spec fn pin_of_request(r: Seq<char>) -> Option<Seq<char>> {
    if r.len() == 0 {
        None
    } else {
        Some(r)
    }
}

/// The pin that a stored entry stands for: absent, or present with an empty ref,
/// is `Active`.
pub open spec fn pin_of_stored(st: Option<Seq<char>>) -> Option<Seq<char>> {
    match st {
        Some(r) => pin_of_request(r),
        None => None,
    }
}

/// The stored form of a pin: absent for `Active`, the ref itself for `Context`.
pub open spec fn stored_of_pin(p: Option<Seq<char>>) -> Option<Seq<char>> {
    p
}

/// The ref record kept for a pinned repository in the metadata file.
#[derive(Clone, Debug)]
pub struct WorkspaceRepoRef {
    pub ref_name: String,
}

pub open spec fn stored_view(e: Option<WorkspaceRepoRef>) -> Option<Seq<char>> {
    match e {
        Some(w) => Some(w.ref_name@),
        None => None,
    }
}

impl RepoRef {
    pub open spec fn wf(&self) -> bool {
        pin_wf(self@)
    }

    /// The binding requested by `r`: empty for `Active`, else `Context(r)`.
    pub fn from_request(r: &str) -> (p: RepoRef)
        ensures
            p@ == pin_of_request(r@),
            p.wf(),
    {
        if r.unicode_len() == 0 {
            RepoRef::Active
        } else {
            RepoRef::Context(String::from_str(r))
        }
    }

    /// The stored record of this binding.
    pub fn to_stored(&self) -> (e: Option<WorkspaceRepoRef>)
        ensures
            stored_view(e) == stored_of_pin(self@),
    {
        match self {
            RepoRef::Active => None,
            RepoRef::Context(r) => Some(WorkspaceRepoRef { ref_name: r.clone() }),
        }
    }

    /// The binding a stored record stands for.
    pub fn from_stored(e: &Option<WorkspaceRepoRef>) -> (p: RepoRef)
        ensures
            p@ == pin_of_stored(stored_view(*e)),
            p.wf(),
    {
        match e {
            Some(w) => RepoRef::from_request(w.ref_name.as_str()),
            None => RepoRef::Active,
        }
    }

    /// A copy of this binding.
    pub fn duplicate(&self) -> (p: RepoRef)
        ensures
            p@ == self@,
    {
        match self {
            RepoRef::Active => RepoRef::Active,
            RepoRef::Context(r) => RepoRef::Context(r.clone()),
        }
    }

    pub fn is_active(&self) -> (b: bool)
        ensures
            b == (self@ is None),
    {
        match self {
            RepoRef::Active => true,
            RepoRef::Context(_) => false,
        }
    }
}

/// A point in time, in whole seconds since the Unix epoch and nanoseconds.
#[derive(Clone, Copy, Debug)]
pub struct Timestamp {
    pub secs: i64,
    pub nanos: u32,
}

/// One repository of a workspace.
#[derive(Clone, Debug)]
pub struct WorkspaceRepo {
    pub identity: String,
    pub pin: RepoRef,
}

impl View for WorkspaceRepo {
    type V = (Seq<char>, Option<Seq<char>>);

    open spec fn view(&self) -> (Seq<char>, Option<Seq<char>>) {
        (self.identity@, self.pin@)
    }
}

/// Whether `id` is among the identities of `repos`.
pub open spec fn has_identity(repos: Seq<(Seq<char>, Option<Seq<char>>)>, id: Seq<char>) -> bool {
    exists|i: int| 0 <= i < repos.len() && repos[i].0 == id
}

/// Identities are distinct and every pin is well formed.
pub open spec fn repos_wf(repos: Seq<(Seq<char>, Option<Seq<char>>)>) -> bool {
    &&& forall|i: int, j: int| 0 <= i < j < repos.len() ==> repos[i].0 != repos[j].0
    &&& forall|i: int| 0 <= i < repos.len() ==> pin_wf(#[trigger] repos[i].1)
}

/// The persisted descriptor of one workspace.
#[derive(Clone, Debug)]
pub struct Metadata {
    pub name: String,
    pub branch: String,
    /// The repositories, in ascending identity order.
    pub repos: Vec<WorkspaceRepo>,
    pub created: Timestamp,
}

impl Metadata {
    pub open spec fn repos_view(&self) -> Seq<(Seq<char>, Option<Seq<char>>)> {
        self.repos@.map_values(|e: WorkspaceRepo| e@)
    }

    /// Identities are distinct and ascending, pins well formed.
    pub open spec fn wf(&self) -> bool {
        repos_wf(self.repos_view()) && keys_sorted(self.repos_view())
    }

    /// The repositories as the metadata file holds them.
    pub open spec fn stored_view(&self) -> Seq<(Seq<char>, Option<Seq<char>>)> {
        stored_form(self.repos_view())
    }

    /// The repositories in their stored form: no record for an active one, the
    /// pinned ref for a pinned one.
    pub fn stored_repos(&self) -> (r: Vec<(String, Option<WorkspaceRepoRef>)>)
        ensures
            stored_pairs(r@) == self.stored_view(),
    {
        let mut r: Vec<(String, Option<WorkspaceRepoRef>)> = Vec::new();
        let mut i: usize = 0;
        while i < self.repos.len()
            invariant
                i <= self.repos.len(),
                stored_pairs(r@) == self.stored_view().subrange(0, i as int),
            decreases self.repos.len() - i,
        {
            let p = (self.repos[i].identity.clone(), self.repos[i].pin.to_stored());
            let ghost before = r@;
            r.push(p);
            proof {
                assert(stored_pairs(r@) =~= stored_pairs(before).push((p.0@, stored_view(p.1))));
                assert(self.stored_view().subrange(0, i as int + 1) =~= self.stored_view().subrange(
                    0,
                    i as int,
                ).push(self.stored_view()[i as int]));
            }
            i += 1;
        }
        assert(self.stored_view().subrange(0, i as int) =~= self.stored_view());
        r
    }

    /// Reads metadata back from its stored form. A record with an empty ref stands
    /// for an active repository; the identities must come in strictly ascending
    /// order, as the stored mapping keeps them.
    pub fn from_stored(
        name: String,
        branch: String,
        stored: &Vec<(String, Option<WorkspaceRepoRef>)>,
        created: Timestamp,
    ) -> (r: Result<Metadata, WsError>)
        ensures
            match r {
                Ok(m) => {
                    &&& m.wf()
                    &&& m.name == name
                    &&& m.branch == branch
                    &&& m.created == created
                    &&& m.repos_view() == read_form(stored_pairs(stored@))
                },
                Err(WsError::UnorderedRepos { identity }) => !keys_sorted(stored_pairs(stored@))
                    && exists|i: int| 0 <= i < stored.len() && stored@[i].0@ == identity@,
                Err(_) => false,
            },
            r is Ok <==> keys_sorted(stored_pairs(stored@)),
    {
        let ghost sp = stored_pairs(stored@);
        let mut repos: Vec<WorkspaceRepo> = Vec::new();
        let mut i: usize = 0;
        while i < stored.len()
            invariant
                i <= stored.len(),
                sp == stored_pairs(stored@),
                repos.len() == i,
                entry_views(repos@) == read_form(sp.subrange(0, i as int)),
                keys_sorted(sp.subrange(0, i as int)),
            decreases stored.len() - i,
        {
            let id = &stored[i].0;
            assert(sp[i as int].0 == stored@[i as int].0@);
            if i > 0 {
                assert(sp[i - 1].0 == stored@[i - 1].0@);
                if !str_lt(stored[i - 1].0.as_str(), id.as_str()) {
                    proof {
                        assert(!keys_sorted(sp));
                    }
                    return Err(WsError::UnorderedRepos { identity: id.clone() });
                }
            }
            let e = WorkspaceRepo { identity: id.clone(), pin: RepoRef::from_stored(&stored[i].1) };
            let ghost before = repos@;
            repos.push(e);
            proof {
                assert(entry_views(repos@) =~= entry_views(before).push(e@));
                assert(sp.subrange(0, i as int + 1) =~= sp.subrange(0, i as int).push(sp[i as int]));
                assert(read_form(sp.subrange(0, i as int + 1)) =~= read_form(sp.subrange(0, i as int)).push(
                    e@,
                ));
                let q = sp.subrange(0, i as int + 1);
                let p = sp.subrange(0, i as int);
                assert forall|x: int, y: int| 0 <= x < y < q.len() implies lex_lt(q[x].0, q[y].0) by {
                    if y < i {
                        assert(q[x] == p[x] && q[y] == p[y]);
                    } else if x < i - 1 {
                        assert(q[x] == p[x] && p[i - 1] == q[i - 1]);
                        assert(lex_lt(p[x].0, p[i - 1].0));
                        lemma_lex_trans(q[x].0, q[i - 1].0, q[y].0);
                    }
                }
            }
            i += 1;
        }
        assert(sp.subrange(0, i as int) =~= sp);
        let m = Metadata { name, branch, repos, created };
        proof {
            let v = m.repos_view();
            assert(v =~= read_form(sp));
            assert forall|x: int| 0 <= x < v.len() implies pin_wf(#[trigger] v[x].1) by {
                assert(v[x] == m.repos@[x]@);
            }
            lemma_sorted_distinct(v);
        }
        Ok(m)
    }
}

pub open spec fn entry_views(v: Seq<WorkspaceRepo>) -> Seq<(Seq<char>, Option<Seq<char>>)> {
    v.map_values(|e: WorkspaceRepo| e@)
}

pub open spec fn stored_pairs(v: Seq<(String, Option<WorkspaceRepoRef>)>) -> Seq<(Seq<char>, Option<Seq<char>>)> {
    v.map_values(|p: (String, Option<WorkspaceRepoRef>)| (p.0@, stored_view(p.1)))
}

/// Each repository as stored.
pub open spec fn stored_form(repos: Seq<(Seq<char>, Option<Seq<char>>)>) -> Seq<(Seq<char>, Option<Seq<char>>)> {
    repos.map_values(|e: (Seq<char>, Option<Seq<char>>)| (e.0, stored_of_pin(e.1)))
}

/// Each stored repository as read back.
pub open spec fn read_form(stored: Seq<(Seq<char>, Option<Seq<char>>)>) -> Seq<(Seq<char>, Option<Seq<char>>)> {
    stored.map_values(|e: (Seq<char>, Option<Seq<char>>)| (e.0, pin_of_stored(e.1)))
}

/// The identities are in strictly ascending order.
pub open spec fn keys_sorted(s: Seq<(Seq<char>, Option<Seq<char>>)>) -> bool {
    forall|i: int, j: int| 0 <= i < j < s.len() ==> lex_lt(s[i].0, s[j].0)
}

pub proof fn lemma_sorted_distinct(s: Seq<(Seq<char>, Option<Seq<char>>)>)
    requires
        keys_sorted(s),
    ensures
        keys_distinct(s),
{
    assert forall|i: int, j: int| 0 <= i < j < s.len() implies s[i].0 != s[j].0 by {
        lemma_lex_irreflexive(s[i].0);
    }
}

pub open spec fn keys_distinct(s: Seq<(Seq<char>, Option<Seq<char>>)>) -> bool {
    forall|i: int, j: int| 0 <= i < j < s.len() ==> s[i].0 != s[j].0
}

/// Storing a workspace's repositories and reading them back gives the same
/// repositories: an active one is stored with no ref record and read back active,
/// a pinned one is stored with its ref and read back pinned to it.
pub proof fn lemma_metadata_round_trip(repos: Seq<(Seq<char>, Option<Seq<char>>)>)
    requires
        repos_wf(repos),
    ensures
        read_form(stored_form(repos)) == repos,
        keys_distinct(stored_form(repos)),
        forall|i: int| 0 <= i < repos.len() ==> (#[trigger] stored_form(repos)[i].1 is None <==> repos[i].1 is None),
{
    let s = stored_form(repos);
    assert forall|i: int| 0 <= i < repos.len() implies read_form(s)[i] == repos[i] by {
        assert(pin_wf(repos[i].1));
    }
    assert(read_form(s) =~= repos);
}

} // verus!

verus! {

/// The directory of the workspace `name` below `workspaces_root`.
pub fn dir(workspaces_root: &str, name: &str) -> (r: String)
    ensures
        r@ == crate::text::joined(workspaces_root@, name@),
{
    crate::text::join_path(workspaces_root, name)
}

} // verus!
