use vstd::prelude::*;
use crate::error::WsError;

verus! {

/// No `/` anywhere in `s`.
pub open spec fn no_slash(s: Seq<char>) -> bool {
    forall|i: int| 0 <= i < s.len() ==> s[i] != '/'
}

/// One non-empty component of an identity.
pub open spec fn is_segment(s: Seq<char>) -> bool {
    s.len() > 0 && no_slash(s)
}

/// `s` is spelled `host/owner/repo` with the three given components.
pub open spec fn spells_identity(s: Seq<char>, host: Seq<char>, owner: Seq<char>, repo: Seq<char>) -> bool {
    is_segment(host) && is_segment(owner) && is_segment(repo) && s == host + seq!['/'] + owner
        + seq!['/'] + repo
}

/// `s` is a canonical `host/owner/repo` identity.
pub open spec fn is_identity(s: Seq<char>) -> bool {
    exists|h: Seq<char>, o: Seq<char>, r: Seq<char>| spells_identity(s, h, o, r)
}

/// The address of one remote repository, `host/owner/repo`.
#[derive(Clone, Debug)]
pub struct Identity {
    pub host: String,
    pub owner: String,
    pub repo: String,
}

impl Identity {
    pub open spec fn text(&self) -> Seq<char> {
        self.host@ + seq!['/'] + self.owner@ + seq!['/'] + self.repo@
    }

    /// Where the bare mirror of this repository lives, relative to the mirrors root.
    pub open spec fn mirror_rel(&self) -> Seq<char> {
        self.text() + ".git"@
    }

    /// The canonical string `host/owner/repo`.
    pub fn identity(&self) -> (r: String)
        ensures
            r@ == self.text(),
    {
        proof {
            reveal_strlit("/");
        }
        let mut s = self.host.clone();
        s.append("/");
        s.append(self.owner.as_str());
        s.append("/");
        s.append(self.repo.as_str());
        s
    }

    /// `host/owner/repo.git`, the mirror's path below the mirrors root.
    pub fn mirror_path(&self) -> (r: String)
        ensures
            r@ == self.mirror_rel(),
    {
        let mut s = self.identity();
        s.append(".git");
        s
    }
}

proof fn lemma_identity_slashes(s: Seq<char>, h: Seq<char>, o: Seq<char>, r: Seq<char>)
    requires
        spells_identity(s, h, o, r),
    ensures
        forall|k: int|
            0 <= k < s.len() ==> (#[trigger] s[k] == '/' <==> (k == h.len() || k == h.len() + 1
                + o.len())),
        s.len() == h.len() + o.len() + r.len() + 2,
{
    assert forall|k: int| 0 <= k < s.len() implies (#[trigger] s[k] == '/' <==> (k == h.len() || k
        == h.len() + 1 + o.len())) by {
        if k < h.len() {
            assert(s[k] == h[k]);
        } else if k == h.len() {
        } else if k < h.len() + 1 + o.len() {
            assert(s[k] == o[k - h.len() - 1]);
        } else if k == h.len() + 1 + o.len() {
        } else {
            assert(s[k] == r[k - h.len() - o.len() - 2]);
        }
    }
}

/// Reads a canonical `host/owner/repo` string.
pub fn parse_identity(s: &str) -> (r: Result<Identity, WsError>)
    ensures
        match r {
            Ok(id) => spells_identity(s@, id.host@, id.owner@, id.repo@),
            Err(WsError::IdentityParse { identity }) => identity@ == s@ && !is_identity(s@),
            Err(_) => false,
        },
{
    let n = s.unicode_len();
    let mut count: usize = 0;
    let mut first_slash: usize = 0;
    let mut second_slash: usize = 0;
    let mut i: usize = 0;
    while i < n
        invariant
            n == s@.len(),
            i <= n,
            count <= 2,
            count >= 1 ==> first_slash < i && s@[first_slash as int] == '/',
            count >= 2 ==> first_slash < second_slash < i && s@[second_slash as int] == '/',
            forall|k: int|
                0 <= k < i && #[trigger] s@[k] == '/' ==> (count >= 1 && k == first_slash) || (count >= 2
                    && k == second_slash),
        decreases n - i,
    {
        if s.get_char(i) == '/' {
            if count == 2 {
                proof {
                    assert(s@[i as int] == '/');
                    if is_identity(s@) {
                        let (h, o, rr) = choose|h: Seq<char>, o: Seq<char>, rr: Seq<char>|
                            spells_identity(s@, h, o, rr);
                        lemma_identity_slashes(s@, h, o, rr);
                        assert(s@[first_slash as int] == '/');
                        assert(s@[second_slash as int] == '/');
                    }
                }
                return Err(WsError::IdentityParse { identity: String::from_str(s) });
            }
            if count == 0 {
                first_slash = i;
            } else {
                second_slash = i;
            }
            count += 1;
        }
        i += 1;
    }
    if count == 2 && first_slash > 0 && second_slash > first_slash + 1 && second_slash + 1 < n {
        let host = String::from_str(s.substring_char(0, first_slash));
        let owner = String::from_str(s.substring_char(first_slash + 1, second_slash));
        let repo = String::from_str(s.substring_char(second_slash + 1, n));
        assert(s@ =~= host@ + seq!['/'] + owner@ + seq!['/'] + repo@);
        assert(no_slash(host@)) by {
            assert forall|k: int| 0 <= k < host@.len() implies host@[k] != '/' by {
                assert(host@[k] == s@[k]);
            }
        }
        assert(no_slash(owner@)) by {
            assert forall|k: int| 0 <= k < owner@.len() implies owner@[k] != '/' by {
                assert(owner@[k] == s@[k + first_slash + 1]);
            }
        }
        assert(no_slash(repo@)) by {
            assert forall|k: int| 0 <= k < repo@.len() implies repo@[k] != '/' by {
                assert(repo@[k] == s@[k + second_slash + 1]);
            }
        }
        return Ok(Identity { host, owner, repo });
    }
    proof {
        if is_identity(s@) {
            let (h, o, rr) = choose|h: Seq<char>, o: Seq<char>, rr: Seq<char>|
                spells_identity(s@, h, o, rr);
            lemma_identity_slashes(s@, h, o, rr);
            let a = h.len() as int;
            let b = (h.len() + 1 + o.len()) as int;
            assert(s@[a] == '/');
            assert(s@[b] == '/');
        }
    }
    Err(WsError::IdentityParse { identity: String::from_str(s) })
}


/// A repository argument `name@ref` split at its first `@`; without one the ref
/// is empty.
pub fn split_repo_ref(arg: &str) -> (r: (String, String))
    ensures
        match crate::agentmd::find_spec(arg@, "@"@) {
            Some(i) => r.0@ == arg@.subrange(0, i) && r.1@ == arg@.subrange(i + 1, arg@.len() as int),
            None => r.0@ == arg@ && r.1@.len() == 0,
        },
{
    match crate::agentmd::find_first(arg, "@") {
        Some(i) => {
            proof {
                reveal_strlit("@");
            }
            let n = arg.unicode_len();
            (String::from_str(arg.substring_char(0, i)), String::from_str(arg.substring_char(i + 1, n)))
        },
        None => (String::from_str(arg), String::new()),
    }
}

} // verus!
