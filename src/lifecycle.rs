use vstd::prelude::*;
use crate::error::{strings_view, WsError};
use crate::identity::{is_identity, parse_identity, spells_identity};
use crate::text::{join_path, joined, lemma_lex_total, lemma_lex_trans, lex_lt, str_lt};
use crate::workspace::{
    entry_views, has_identity, keys_sorted, name_problem, pin_wf, pin_of_request, repos_wf, validate_name, Metadata, WorkspaceRepo,
    RepoRef, Timestamp,
};

verus! {

/// The requests of `refs` that join a workspace already holding `base`, in order:
/// an identity already held, or requested earlier, is skipped.
pub open spec fn admitted(
    refs: Seq<(Seq<char>, Seq<char>)>,
    base: Seq<(Seq<char>, Option<Seq<char>>)>,
) -> Seq<(Seq<char>, Option<Seq<char>>)>
    decreases refs.len(),
{
    if refs.len() == 0 {
        seq![]
    } else {
        let prev = admitted(refs.drop_last(), base);
        let id = refs.last().0;
        if has_identity(base + prev, id) {
            prev
        } else {
            prev.push((id, pin_of_request(refs.last().1)))
        }
    }
}

/// The requested identities of `refs` that are skipped, in order: those already
/// held by `base`, and those requested earlier.
pub open spec fn turned_away(
    refs: Seq<(Seq<char>, Seq<char>)>,
    base: Seq<(Seq<char>, Option<Seq<char>>)>,
) -> Seq<Seq<char>>
    decreases refs.len(),
{
    if refs.len() == 0 {
        seq![]
    } else {
        let prev = turned_away(refs.drop_last(), base);
        let id = refs.last().0;
        if has_identity(base + admitted(refs.drop_last(), base), id) {
            prev.push(id)
        } else {
            prev
        }
    }
}

pub open spec fn refs_view(refs: Seq<(String, String)>) -> Seq<(Seq<char>, Seq<char>)> {
    refs.map_values(|p: (String, String)| (p.0@, p.1@))
}

/// The workspace branch: the name, under `<prefix>/` when a non-empty prefix is set.
pub open spec fn branch_for(name: Seq<char>, prefix: Option<Seq<char>>) -> Seq<char> {
    match prefix {
        Some(p) if p.len() > 0 => p + seq!['/'] + name,
        _ => name,
    }
}

/// One worktree to attach.
#[derive(Clone, Debug)]
pub struct AttachRequest {
    pub identity: String,
    /// The bare mirror the worktree is attached against.
    pub mirror: String,
    /// Where the worktree is checked out: the repository's short name below the
    /// workspace directory.
    pub worktree: String,
    /// The workspace branch.
    pub branch: String,
    pub pin: RepoRef,
}

/// What the caller must do next for a create or add-repos transaction.
#[derive(Clone, Debug)]
pub enum TxnAction {
    /// Attach this worktree, then report the outcome with `on_attached`.
    Attach(AttachRequest),
    /// Write the transaction's `meta` into the workspace directory, then report
    /// with `on_committed`.
    Commit,
    /// Delete the whole workspace directory (best effort), then fail with the error.
    RollBack(WsError),
    /// Fail with the error, leaving everything on disk as it is.
    Abort(WsError),
    /// The transaction succeeded.
    Finished,
}

#[derive(Clone, Copy, Debug, PartialEq, Eq, Structural)]
pub enum TxnPhase {
    Ready,
    Attaching,
    Committing,
    Done,
}

/// A create (all or nothing) or add-repos (keeps what was attached) transaction.
#[derive(Clone, Debug)]
pub struct WorkspaceTxn {
    pub ws_dir: String,
    pub mirrors_root: String,
    /// The metadata to commit: the repositories attached so far.
    pub meta: Metadata,
    /// The repositories to attach, in order.
    pub pending: Vec<WorkspaceRepo>,
    /// Requested identities that were already present, or requested twice.
    pub skipped: Vec<String>,
    /// How many of `pending` are attached.
    pub next: usize,
    /// A failure deletes the workspace directory (create) or leaves it (add-repos).
    pub all_or_nothing: bool,
    pub phase: TxnPhase,
}

impl WorkspaceTxn {
    pub open spec fn pending_view(&self) -> Seq<(Seq<char>, Option<Seq<char>>)> {
        entry_views(self.pending@)
    }

    pub open spec fn wf(&self) -> bool {
        &&& self.next <= self.pending.len()
        &&& repos_wf(
            self.meta.repos_view() + self.pending_view().subrange(self.next as int, self.pending.len() as int),
        )
        &&& keys_sorted(self.meta.repos_view())
        &&& self.phase == TxnPhase::Attaching ==> self.next < self.pending.len()
    }

    /// The action a failure with error `e` leads to: a rollback for create, a plain
    /// abort for add-repos.
    pub open spec fn failure_action(&self, a: TxnAction, e: spec_fn(WsError) -> bool) -> bool {
        if self.all_or_nothing {
            a matches TxnAction::RollBack(x) && e(x)
        } else {
            a matches TxnAction::Abort(x) && e(x)
        }
    }

    /// `q` attaches the next pending repository.
    pub open spec fn request_for(&self, q: AttachRequest) -> bool {
        let e = self.pending_view()[self.next as int];
        &&& q.identity@ == e.0
        &&& q.pin@ == e.1
        &&& q.branch@ == self.meta.branch@
        &&& q.mirror@ == joined(self.mirrors_root@, e.0 + ".git"@)
        &&& exists|h: Seq<char>, o: Seq<char>, r: Seq<char>|
            spells_identity(e.0, h, o, r) && q.worktree@ == joined(self.ws_dir@, r)
    }

    /// The action after the attached prefix grew: attach the next repository, fail
    /// on an identity that does not parse, or commit once all are attached.
    pub open spec fn after_advance(&self, a: TxnAction) -> bool {
        if self.next < self.pending.len() {
            let id = self.pending_view()[self.next as int].0;
            if is_identity(id) {
                self.phase == TxnPhase::Attaching && (a matches TxnAction::Attach(q) && self.request_for(q))
            } else {
                self.phase == TxnPhase::Done && self.failure_action(
                    a,
                    |x: WsError| x matches WsError::IdentityParse { identity } && identity@ == id,
                )
            }
        } else {
            self.phase == TxnPhase::Committing && a is Commit
        }
    }

    /// Everything but the phase and the attached count is as in `other`.
    pub open spec fn same_plan(&self, other: &WorkspaceTxn) -> bool {
        &&& self.ws_dir == other.ws_dir
        &&& self.mirrors_root == other.mirrors_root
        &&& self.pending == other.pending
        &&& self.all_or_nothing == other.all_or_nothing
        &&& self.meta.name == other.meta.name
        &&& self.meta.branch == other.meta.branch
        &&& self.meta.created == other.meta.created
    }

    fn fail(&mut self, e: WsError) -> (a: TxnAction)
        ensures
            final(self).phase == TxnPhase::Done,
            final(self).same_plan(old(self)),
            final(self).meta == old(self).meta,
            final(self).next == old(self).next,
            old(self).failure_action(a, |x: WsError| x == e),
    {
        self.phase = TxnPhase::Done;
        if self.all_or_nothing {
            TxnAction::RollBack(e)
        } else {
            TxnAction::Abort(e)
        }
    }

    fn advance(&mut self) -> (a: TxnAction)
        requires
            old(self).next <= old(self).pending.len(),
        ensures
            final(self).same_plan(old(self)),
            final(self).meta == old(self).meta,
            final(self).next == old(self).next,
            final(self).after_advance(a),
    {
        if self.next < self.pending.len() {
            let entry = &self.pending[self.next];
            match parse_identity(entry.identity.as_str()) {
                Ok(id) => {
                    let mirror = crate::mirror::dir(self.mirrors_root.as_str(), &id);
                    let worktree = join_path(self.ws_dir.as_str(), id.repo.as_str());
                    let q = AttachRequest {
                        identity: entry.identity.clone(),
                        mirror,
                        worktree,
                        branch: self.meta.branch.clone(),
                        pin: entry.pin.duplicate(),
                    };
                    self.phase = TxnPhase::Attaching;
                    proof {
                        assert(self.pending_view()[self.next as int] == entry@);
                        assert(spells_identity(entry.identity@, id.host@, id.owner@, id.repo@));
                    }
                    TxnAction::Attach(q)
                },
                Err(e) => {
                    proof {
                        assert(self.pending_view()[self.next as int] == entry@);
                    }
                    self.fail(e)
                },
            }
        } else {
            self.phase = TxnPhase::Committing;
            TxnAction::Commit
        }
    }

    /// The first action of the transaction.
    pub fn start(&mut self) -> (a: TxnAction)
        requires
            old(self).wf(),
            old(self).phase == TxnPhase::Ready,
        ensures
            final(self).wf(),
            final(self).same_plan(old(self)),
            final(self).meta == old(self).meta,
            final(self).next == old(self).next,
            final(self).after_advance(a),
    {
        self.advance()
    }

    /// Reports how attaching the requested worktree went. On failure the whole
    /// transaction fails: create rolls back, add-repos keeps what it attached and
    /// commits no metadata.
    pub fn on_attached(&mut self, outcome: Result<(), String>) -> (a: TxnAction)
        requires
            old(self).wf(),
            old(self).phase == TxnPhase::Attaching,
        ensures
            final(self).wf(),
            final(self).same_plan(old(self)),
            old(self).all_or_nothing && outcome is Err ==> a is RollBack,
            a is Commit ==> final(self).next == final(self).pending.len(),
            match outcome {
                Ok(()) => {
                    &&& final(self).next == old(self).next + 1
                    &&& exists|k: int|
                        0 <= k <= old(self).meta.repos.len() && final(self).meta.repos_view() == old(
                            self,
                        ).meta.repos_view().insert(k, old(self).pending_view()[old(self).next as int])
                    &&& final(self).after_advance(a)
                },
                Err(m) => {
                    &&& final(self).phase == TxnPhase::Done
                    &&& final(self).meta == old(self).meta
                    &&& old(self).failure_action(
                        a,
                        |x: WsError|
                            x matches WsError::AttachFailed { identity, message } && identity@
                                == old(self).pending_view()[old(self).next as int].0 && message@ == m@,
                    )
                },
            },
    {
        let ghost old_meta = self.meta.repos_view();
        let ghost rest = self.pending_view().subrange(self.next as int, self.pending.len() as int);
        match outcome {
            Ok(()) => {
                let entry = WorkspaceRepo {
                    identity: self.pending[self.next].identity.clone(),
                    pin: self.pending[self.next].pin.duplicate(),
                };
                proof {
                    assert(entry@ == self.pending_view()[self.next as int]);
                }
                let mut k: usize = 0;
                while k < self.meta.repos.len() && str_lt(
                    self.meta.repos[k].identity.as_str(),
                    entry.identity.as_str(),
                )
                    invariant
                        k <= self.meta.repos.len(),
                        old_meta == self.meta.repos_view(),
                        forall|j: int| 0 <= j < k ==> lex_lt(old_meta[j].0, entry@.0),
                    decreases self.meta.repos.len() - k,
                {
                    k += 1;
                }
                proof {
                    assert(rest[0] == entry@);
                    assert(seq![entry@] + rest.drop_first() =~= rest);
                    lemma_insert_keeps_sorted(old_meta, entry@, rest.drop_first(), k as int);
                }
                self.meta.repos.insert(k, entry);
                self.next = self.next + 1;
                proof {
                    assert(self.meta.repos_view() =~= old_meta.insert(k as int, entry@));
                    assert(self.pending_view().subrange(self.next as int, self.pending.len() as int)
                        =~= rest.drop_first());
                }
                self.advance()
            },
            Err(m) => {
                let e = WsError::AttachFailed { identity: self.pending[self.next].identity.clone(), message: m };
                proof {
                    assert(self.pending_view()[self.next as int] == self.pending@[self.next as int]@);
                }
                self.fail(e)
            },
        }
    }

    /// Reports how writing the metadata went; this write is the commit point.
    pub fn on_committed(&mut self, outcome: Result<(), String>) -> (a: TxnAction)
        requires
            old(self).wf(),
            old(self).phase == TxnPhase::Committing,
        ensures
            final(self).wf(),
            final(self).same_plan(old(self)),
            final(self).meta == old(self).meta,
            final(self).next == old(self).next,
            final(self).phase == TxnPhase::Done,
            match outcome {
                Ok(()) => a is Finished,
                Err(m) => old(self).failure_action(
                    a,
                    |x: WsError| x matches WsError::MetadataWrite { message } && message@ == m@,
                ),
            },
    {
        match outcome {
            Ok(()) => {
                self.phase = TxnPhase::Done;
                TxnAction::Finished
            },
            Err(m) => self.fail(WsError::MetadataWrite { message: m }),
        }
    }
}

fn holds_identity(entries: &Vec<WorkspaceRepo>, id: &String) -> (b: bool)
    ensures
        b == has_identity(entry_views(entries@), id@),
{
    let mut i: usize = 0;
    while i < entries.len()
        invariant
            i <= entries.len(),
            forall|k: int| 0 <= k < i ==> entries@[k].identity@ != id@,
        decreases entries.len() - i,
    {
        if entries[i].identity == *id {
            assert(entry_views(entries@)[i as int].0 == id@);
            return true;
        }
        i += 1;
    }
    proof {
        if has_identity(entry_views(entries@), id@) {
            let k = choose|k: int|
                0 <= k < entry_views(entries@).len() && entry_views(entries@)[k].0 == id@;
            assert(entries@[k].identity@ == id@);
        }
    }
    false
}

proof fn lemma_has_identity_concat(
    a: Seq<(Seq<char>, Option<Seq<char>>)>,
    b: Seq<(Seq<char>, Option<Seq<char>>)>,
    id: Seq<char>,
)
    ensures
        has_identity(a + b, id) == (has_identity(a, id) || has_identity(b, id)),
{
    if has_identity(a + b, id) {
        let k = choose|k: int| 0 <= k < (a + b).len() && (a + b)[k].0 == id;
        if k < a.len() {
            assert(a[k] == (a + b)[k]);
        } else {
            assert(b[k - a.len()] == (a + b)[k]);
        }
    }
    if has_identity(a, id) {
        let k = choose|k: int| 0 <= k < a.len() && a[k].0 == id;
        assert((a + b)[k] == a[k]);
    }
    if has_identity(b, id) {
        let k = choose|k: int| 0 <= k < b.len() && b[k].0 == id;
        assert((a + b)[k + a.len()] == b[k]);
    }
}

/// Splits the requests into those to attach and those skipped.
fn split_requests(base: &Vec<WorkspaceRepo>, refs: &Vec<(String, String)>) -> (r: (Vec<WorkspaceRepo>, Vec<String>))
    requires
        repos_wf(entry_views(base@)),
    ensures
        entry_views(r.0@) == admitted(refs_view(refs@), entry_views(base@)),
        strings_view(r.1@) == turned_away(refs_view(refs@), entry_views(base@)),
        repos_wf(entry_views(base@) + entry_views(r.0@)),
{
    let mut pending: Vec<WorkspaceRepo> = Vec::new();
    let mut skipped: Vec<String> = Vec::new();
    let mut i: usize = 0;
    while i < refs.len()
        invariant
            i <= refs.len(),
            entry_views(pending@) == admitted(refs_view(refs@).subrange(0, i as int), entry_views(base@)),
            strings_view(skipped@) == turned_away(refs_view(refs@).subrange(0, i as int), entry_views(base@)),
            repos_wf(entry_views(base@) + entry_views(pending@)),
        decreases refs.len() - i,
    {
        let ghost bv = entry_views(base@);
        let ghost pv = entry_views(pending@);
        let ghost pre = refs_view(refs@).subrange(0, i as int + 1);
        assert(pre.drop_last() =~= refs_view(refs@).subrange(0, i as int));
        assert(pre.last() == (refs@[i as int].0@, refs@[i as int].1@));
        let id = &refs[i].0;
        let held = holds_identity(base, id);
        let seen = holds_identity(&pending, id);
        proof {
            lemma_has_identity_concat(bv, pv, id@);
        }
        if held || seen {
            let ghost before = skipped@;
            skipped.push(id.clone());
            assert(strings_view(skipped@) =~= strings_view(before).push(id@));
        } else {
            let entry = WorkspaceRepo { identity: id.clone(), pin: RepoRef::from_request(refs[i].1.as_str()) };
            pending.push(entry);
            proof {
                let nv = entry_views(pending@);
                assert(nv =~= pv.push((id@, pin_of_request(refs@[i as int].1@))));
                let all = bv + nv;
                assert(all =~= (bv + pv).push((id@, pin_of_request(refs@[i as int].1@))));
                assert forall|x: int, y: int| 0 <= x < y < all.len() implies all[x].0 != all[y].0 by {
                    if y == all.len() - 1 {
                        assert(all[x] == (bv + pv)[x]);
                    } else {
                        assert(all[x] == (bv + pv)[x]);
                        assert(all[y] == (bv + pv)[y]);
                    }
                }
                assert forall|x: int| 0 <= x < all.len() implies crate::workspace::pin_wf(#[trigger] all[x].1) by {
                    if x < all.len() - 1 {
                        assert(all[x] == (bv + pv)[x]);
                    }
                }
            }
        }
        i += 1;
    }
    assert(refs_view(refs@).subrange(0, refs.len() as int) =~= refs_view(refs@));
    (pending, skipped)
}

/// The branch of a workspace named `name`, under an optional prefix.
pub fn workspace_branch(name: &str, prefix: Option<&str>) -> (r: String)
    ensures
        r@ == branch_for(name@, crate::config::opt_view(prefix)),
{
    match prefix {
        Some(p) => {
            if p.unicode_len() > 0 {
                proof {
                    reveal_strlit("/");
                }
                let mut s = String::from_str(p);
                s.append("/");
                s.append(name);
                s
            } else {
                String::from_str(name)
            }
        },
        None => String::from_str(name),
    }
}

/// Starts creating the workspace `name` in `ws_dir`. Fails when the name is not
/// valid, or when the directory already exists (`dir_exists`); otherwise every
/// requested repository (an empty ref meaning active) is to be attached, and any
/// failure deletes the workspace directory again.
pub fn create(
    name: &str,
    ws_dir: &str,
    dir_exists: bool,
    mirrors_root: &str,
    branch_prefix: Option<&str>,
    refs: &Vec<(String, String)>,
    created: Timestamp,
) -> (r: Result<WorkspaceTxn, WsError>)
    ensures
        name_problem(name@) is Some ==> r matches Err(WsError::InvalidName { .. }),
        name_problem(name@) is None && dir_exists ==> (r matches Err(WsError::AlreadyExists { name: n })
            && n@ == name@),
        name_problem(name@) is None && !dir_exists <==> r is Ok,
        r matches Ok(t) ==> {
            &&& t.wf()
            &&& t.phase == TxnPhase::Ready
            &&& t.all_or_nothing
            &&& t.next == 0
            &&& t.ws_dir@ == ws_dir@
            &&& t.mirrors_root@ == mirrors_root@
            &&& t.meta.name@ == name@
            &&& t.meta.branch@ == branch_for(name@, crate::config::opt_view(branch_prefix))
            &&& t.meta.repos.len() == 0
            &&& t.meta.created == created
            &&& t.pending_view() == admitted(refs_view(refs@), seq![])
            &&& strings_view(t.skipped@) == turned_away(refs_view(refs@), seq![])
        },
{
    match validate_name(name) {
        Ok(()) => {},
        Err(e) => {
            return Err(e);
        },
    }
    if dir_exists {
        return Err(WsError::AlreadyExists { name: String::from_str(name) });
    }
    let base: Vec<WorkspaceRepo> = Vec::new();
    assert(entry_views(base@) =~= seq![]);
    let (pending, skipped) = split_requests(&base, refs);
    let meta = Metadata {
        name: String::from_str(name),
        branch: workspace_branch(name, branch_prefix),
        repos: base,
        created,
    };
    let t = WorkspaceTxn {
        ws_dir: String::from_str(ws_dir),
        mirrors_root: String::from_str(mirrors_root),
        meta,
        pending,
        skipped,
        next: 0,
        all_or_nothing: true,
        phase: TxnPhase::Ready,
    };
    assert(t.meta.repos_view() =~= entry_views(base@));
    assert(t.pending_view().subrange(0, t.pending.len() as int) =~= t.pending_view());
    Ok(t)
}

/// Starts adding repositories to the workspace described by `meta`, in `ws_dir`.
/// Identities the workspace already holds are skipped; a failure stops the
/// remaining additions but keeps the ones made.
pub fn add_repos(meta: Metadata, ws_dir: &str, mirrors_root: &str, refs: &Vec<(String, String)>) -> (t: WorkspaceTxn)
    requires
        meta.wf(),
    ensures
        t.wf(),
        t.phase == TxnPhase::Ready,
        !t.all_or_nothing,
        t.next == 0,
        t.ws_dir@ == ws_dir@,
        t.mirrors_root@ == mirrors_root@,
        t.meta == meta,
        t.pending_view() == admitted(refs_view(refs@), meta.repos_view()),
        strings_view(t.skipped@) == turned_away(refs_view(refs@), meta.repos_view()),
{
    let (pending, skipped) = split_requests(&meta.repos, refs);
    let t = WorkspaceTxn {
        ws_dir: String::from_str(ws_dir),
        mirrors_root: String::from_str(mirrors_root),
        meta,
        pending,
        skipped,
        next: 0,
        all_or_nothing: false,
        phase: TxnPhase::Ready,
    };
    assert(t.pending_view().subrange(0, t.pending.len() as int) =~= t.pending_view());
    t
}

/// Requests that are all already held let nothing in: adding them attaches no
/// worktree and leaves the workspace's repositories as they were.
pub proof fn lemma_add_present_is_noop(
    refs: Seq<(Seq<char>, Seq<char>)>,
    base: Seq<(Seq<char>, Option<Seq<char>>)>,
)
    requires
        forall|i: int| 0 <= i < refs.len() ==> has_identity(base, #[trigger] refs[i].0),
    ensures
        admitted(refs, base) == Seq::<(Seq<char>, Option<Seq<char>>)>::empty(),
    decreases refs.len(),
{
    if refs.len() > 0 {
        let d = refs.drop_last();
        assert forall|i: int| 0 <= i < d.len() implies has_identity(base, #[trigger] d[i].0) by {
            assert(d[i] == refs[i]);
        }
        lemma_add_present_is_noop(d, base);
        assert(base + admitted(d, base) =~= base);
        assert(has_identity(base, refs[refs.len() - 1].0));
    }
}


/// Moving the first of the pending repositories into the attached ones, at the
/// place its identity sorts to, keeps identities distinct and ascending.
proof fn lemma_insert_keeps_sorted(
    m: Seq<(Seq<char>, Option<Seq<char>>)>,
    e: (Seq<char>, Option<Seq<char>>),
    r: Seq<(Seq<char>, Option<Seq<char>>)>,
    k: int,
)
    requires
        repos_wf(m + (seq![e] + r)),
        keys_sorted(m),
        0 <= k <= m.len(),
        forall|j: int| 0 <= j < k ==> lex_lt(m[j].0, e.0),
        k < m.len() ==> !lex_lt(m[k].0, e.0),
    ensures
        keys_sorted(m.insert(k, e)),
        repos_wf(m.insert(k, e) + r),
{
    let old = m + (seq![e] + r);
    let new = m.insert(k, e) + r;
    assert(old[m.len() as int] == e);
    if k < m.len() {
        assert(old[k] == m[k]);
        lemma_lex_total(e.0, m[k].0);
    }
    let ins = m.insert(k, e);
    assert forall|a: int, b: int| 0 <= a < b < ins.len() implies lex_lt(ins[a].0, ins[b].0) by {
        if b == k {
        } else if a == k {
            if b - 1 > k {
                lemma_lex_trans(e.0, m[k].0, m[b - 1].0);
            }
        } else if a < k && b > k {
            assert(ins[b] == m[b - 1]);
        } else if a > k {
            assert(ins[a] == m[a - 1] && ins[b] == m[b - 1]);
        }
    }
    assert forall|a: int| 0 <= a < new.len() implies #[trigger] new[a] == old[
        if a < k {
            a
        } else if a == k {
            m.len() as int
        } else if a <= m.len() {
            a - 1
        } else {
            a
        }
    ] by {
        if a > m.len() {
            assert(new[a] == r[a - m.len() - 1]);
            assert(old[a] == r[a - m.len() - 1]);
        }
    }
    assert forall|a: int, b: int| 0 <= a < b < new.len() implies new[a].0 != new[b].0 by {
        let fa = if a < k { a } else if a == k { m.len() as int } else if a <= m.len() { a - 1 } else { a };
        let fb = if b < k { b } else if b == k { m.len() as int } else if b <= m.len() { b - 1 } else { b };
        assert(new[a] == old[fa]);
        assert(new[b] == old[fb]);
        assert(fa != fb);
        if fa > fb {
            assert(old[fb].0 != old[fa].0);
        }
    }
    assert forall|a: int| 0 <= a < new.len() implies pin_wf(#[trigger] new[a].1) by {
        let fa = if a < k { a } else if a == k { m.len() as int } else if a <= m.len() { a - 1 } else { a };
        assert(new[a] == old[fa]);
    }
}

} // verus!
