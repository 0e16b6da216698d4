use vstd::prelude::*;
use crate::error::strings_view;
use crate::identity::{is_identity, parse_identity, spells_identity};
use crate::text::{decimal, decimal_text, joined};

verus! {

/// A mirror to fetch.
#[derive(Clone, Debug)]
pub struct FetchTarget {
    pub identity: String,
    pub mirror: String,
    pub short_name: String,
}

pub open spec fn fetch_ids(v: Seq<FetchTarget>) -> Seq<Seq<char>> {
    v.map_values(|t: FetchTarget| t.identity@)
}

/// `t` is the mirror of its identity below `mirrors_root`.
pub open spec fn fetch_target_for(t: FetchTarget, mirrors_root: Seq<char>) -> bool {
    &&& t.mirror@ == joined(mirrors_root, t.identity@ + ".git"@)
    &&& exists|h: Seq<char>, o: Seq<char>, n: Seq<char>|
        spells_identity(t.identity@, h, o, n) && t.short_name@ == n
}

/// The identities among `ids` that parse, in order.
pub open spec fn fetchable(ids: Seq<Seq<char>>) -> Seq<Seq<char>>
    decreases ids.len(),
{
    if ids.len() == 0 {
        seq![]
    } else {
        let prev = fetchable(ids.drop_last());
        if is_identity(ids.last()) {
            prev.push(ids.last())
        } else {
            prev
        }
    }
}

/// The identities among `ids` that do not parse, in order.
pub open spec fn unfetchable(ids: Seq<Seq<char>>) -> Seq<Seq<char>>
    decreases ids.len(),
{
    if ids.len() == 0 {
        seq![]
    } else {
        let prev = unfetchable(ids.drop_last());
        if is_identity(ids.last()) {
            prev
        } else {
            prev.push(ids.last())
        }
    }
}

/// The mirrors to fetch for these identities; identities that do not parse are
/// set aside to be reported.
pub fn fetch_plan(ids: &Vec<String>, mirrors_root: &str) -> (r: (Vec<FetchTarget>, Vec<String>))
    ensures
        fetch_ids(r.0@) == fetchable(strings_view(ids@)),
        forall|i: int| 0 <= i < r.0.len() ==> fetch_target_for(#[trigger] r.0@[i], mirrors_root@),
        strings_view(r.1@) == unfetchable(strings_view(ids@)),
{
    let ghost v = strings_view(ids@);
    let mut targets: Vec<FetchTarget> = Vec::new();
    let mut bad: Vec<String> = Vec::new();
    let mut i: usize = 0;
    while i < ids.len()
        invariant
            i <= ids.len(),
            v == strings_view(ids@),
            fetch_ids(targets@) == fetchable(v.subrange(0, i as int)),
            forall|k: int| 0 <= k < targets.len() ==> fetch_target_for(#[trigger] targets@[k], mirrors_root@),
            strings_view(bad@) == unfetchable(v.subrange(0, i as int)),
        decreases ids.len() - i,
    {
        proof {
            assert(v.subrange(0, i as int + 1).drop_last() =~= v.subrange(0, i as int));
            assert(v.subrange(0, i as int + 1).last() == ids@[i as int]@);
        }
        match parse_identity(ids[i].as_str()) {
            Ok(id) => {
                let t = FetchTarget {
                    identity: ids[i].clone(),
                    mirror: crate::mirror::dir(mirrors_root, &id),
                    short_name: id.repo.clone(),
                };
                proof {
                    assert(spells_identity(ids@[i as int]@, id.host@, id.owner@, id.repo@));
                    assert(t.identity@ == id.text());
                    assert(spells_identity(t.identity@, id.host@, id.owner@, t.short_name@));
                    assert(fetch_target_for(t, mirrors_root@));
                }
                let ghost before = targets@;
                targets.push(t);
                assert(fetch_ids(targets@) =~= fetch_ids(before).push(t.identity@));
            },
            Err(_) => {
                let ghost before = bad@;
                bad.push(ids[i].clone());
                assert(strings_view(bad@) =~= strings_view(before).push(ids@[i as int]@));
            },
        }
        i += 1;
    }
    assert(v.subrange(0, i as int) =~= v);
    (targets, bad)
}

/// The progress headline: one repository is named, several are counted.
pub open spec fn banner_text(names: Seq<Seq<char>>) -> Seq<char> {
    if names.len() == 1 {
        "Fetching "@ + names[0] + "..."@
    } else {
        "Fetching "@ + decimal_text(names.len()) + " repos..."@
    }
}

/// The headline printed before fetching the repositories with these short names.
pub fn fetch_banner(names: &Vec<String>) -> (r: String)
    ensures
        r@ == banner_text(strings_view(names@)),
{
    let mut s = String::from_str("Fetching ");
    if names.len() == 1 {
        s.append(names[0].as_str());
        s.append("...");
    } else {
        let n = decimal(names.len() as u64);
        s.append(n.as_str());
        s.append(" repos...");
    }
    s
}

/// The progress line of one finished fetch.
pub open spec fn progress_text(name: Seq<char>, error: Option<Seq<char>>) -> Seq<char> {
    match error {
        None => "  ok    "@ + name,
        Some(e) => "  FAIL  "@ + name + " ("@ + e + ")"@,
    }
}

/// The progress line of one finished fetch, failed with `error` or not.
pub fn progress_line(name: &str, error: Option<&str>) -> (r: String)
    ensures
        r@ == progress_text(name@, crate::config::opt_view(error)),
{
    match error {
        None => {
            let mut s = String::from_str("  ok    ");
            s.append(name);
            s
        },
        Some(e) => {
            let mut s = String::from_str("  FAIL  ");
            s.append(name);
            s.append(" (");
            s.append(e);
            s.append(")");
            s
        },
    }
}

} // verus!
