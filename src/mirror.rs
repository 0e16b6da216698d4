use vstd::prelude::*;
use crate::identity::Identity;
use crate::text::{join_path, joined};

verus! {

/// The bare mirror of `id` below `mirrors_root`: `<root>/<host>/<owner>/<repo>.git`.
pub fn dir(mirrors_root: &str, id: &Identity) -> (r: String)
    ensures
        r@ == joined(mirrors_root@, id.mirror_rel()),
{
    let rel = id.mirror_path();
    join_path(mirrors_root, rel.as_str())
}

} // verus!
