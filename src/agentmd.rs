use vstd::prelude::*;

verus! {

/// Opens the generated section of a workspace's agent notes.
pub const MARKER_BEGIN: &'static str = "<!-- wsp:begin -->";

/// Closes the generated section of a workspace's agent notes.
pub const MARKER_END: &'static str = "<!-- wsp:end -->";

/// `pat` occurs in `s` at `i`.
pub open spec fn occurs_at(s: Seq<char>, pat: Seq<char>, i: int) -> bool {
    0 <= i && i + pat.len() <= s.len() && s.subrange(i, i + pat.len()) == pat
}

/// `i` is the first place where `pat` occurs in `s`.
pub open spec fn first_occurrence(s: Seq<char>, pat: Seq<char>, i: int) -> bool {
    occurs_at(s, pat, i) && forall|j: int| 0 <= j < i ==> !occurs_at(s, pat, j)
}

/// Where `pat` first occurs in `s`, if anywhere.
pub open spec fn find_spec(s: Seq<char>, pat: Seq<char>) -> Option<int> {
    if exists|i: int| occurs_at(s, pat, i) {
        Some(choose|i: int| first_occurrence(s, pat, i))
    } else {
        None
    }
}

/// The notes with their generated section replaced by `section`: when the begin
/// marker comes before the end marker, everything from the begin marker through
/// the end marker (and one newline after it) gives way to `section`; otherwise
/// `section` is appended after a blank line.
pub open spec fn replaced_section(existing: Seq<char>, section: Seq<char>) -> Seq<char> {
    let b = find_spec(existing, "<!-- wsp:begin -->"@);
    let e = find_spec(existing, "<!-- wsp:end -->"@);
    if b is Some && e is Some && b->Some_0 < e->Some_0 {
        let end = e->Some_0 + "<!-- wsp:end -->"@.len();
        let rest = if end < existing.len() && existing[end] == '\n' {
            end + 1
        } else {
            end
        };
        existing.subrange(0, b->Some_0) + section + existing.subrange(rest, existing.len() as int)
    } else if existing.len() == 0 {
        section
    } else if existing.last() == '\n' {
        existing + "\n"@ + section
    } else {
        existing + "\n"@ + "\n"@ + section
    }
}

fn occurs_here(s: &str, pat: &str, i: usize) -> (b: bool)
    requires
        i + pat@.len() <= s@.len(),
        s@.len() <= usize::MAX,
    ensures
        b == occurs_at(s@, pat@, i as int),
{
    let m = pat.unicode_len();
    let mut k: usize = 0;
    while k < m
        invariant
            m == pat@.len(),
            i + m <= s@.len(),
            s@.len() <= usize::MAX,
            k <= m,
            forall|j: int| 0 <= j < k ==> s@[i + j] == pat@[j],
        decreases m - k,
    {
        if s.get_char(i + k) != pat.get_char(k) {
            assert(s@.subrange(i as int, i + m)[k as int] != pat@[k as int]);
            return false;
        }
        k += 1;
    }
    assert(s@.subrange(i as int, i + m) =~= pat@);
    true
}

/// The first place where `pat` occurs in `s`, in characters.
pub fn find_first(s: &str, pat: &str) -> (r: Option<usize>)
    ensures
        match r {
            Some(i) => find_spec(s@, pat@) == Some(i as int) && first_occurrence(s@, pat@, i as int),
            None => find_spec(s@, pat@) is None,
        },
{
    let n = s.unicode_len();
    let m = pat.unicode_len();
    if m > n {
        assert(!exists|i: int| occurs_at(s@, pat@, i));
        return None;
    }
    if m == 0 {
        proof {
            assert(s@.subrange(0, 0) =~= pat@);
            assert(first_occurrence(s@, pat@, 0));
            let c = choose|c: int| first_occurrence(s@, pat@, c);
            assert(c == 0) by {
                if c > 0 {
                    assert(!occurs_at(s@, pat@, 0));
                }
            }
        }
        return Some(0);
    }
    let mut i: usize = 0;
    while i <= n - m
        invariant
            n == s@.len(),
            m == pat@.len(),
            1 <= m <= n,
            i <= n - m + 1,
            forall|j: int| 0 <= j < i ==> !occurs_at(s@, pat@, j),
        decreases n - m + 1 - i,
    {
        if occurs_here(s, pat, i) {
            proof {
                assert(first_occurrence(s@, pat@, i as int));
                let c = choose|c: int| first_occurrence(s@, pat@, c);
                assert(c == i) by {
                    if c < i {
                        assert(!occurs_at(s@, pat@, c));
                    }
                    if c > i {
                        assert(!occurs_at(s@, pat@, i as int));
                    }
                }
            }
            return Some(i);
        }
        i += 1;
    }
    None
}

/// Replaces the generated section of existing notes, or appends it when the
/// markers are missing or out of order.
pub fn replace_marked_section(existing: &str, new_section: &str) -> (r: String)
    ensures
        r@ == replaced_section(existing@, new_section@),
{
    assert(MARKER_BEGIN@ == "<!-- wsp:begin -->"@);
    assert(MARKER_END@ == "<!-- wsp:end -->"@);
    let b = find_first(existing, MARKER_BEGIN);
    let e = find_first(existing, MARKER_END);
    let n = existing.unicode_len();
    match (b, e) {
        (Some(bi), Some(ei)) => {
            if bi < ei {
                let end = ei + MARKER_END.unicode_len();
                let rest = if end < n && existing.get_char(end) == '\n' {
                    end + 1
                } else {
                    end
                };
                let mut s = String::from_str(existing.substring_char(0, bi));
                s.append(new_section);
                s.append(existing.substring_char(rest, n));
                return s;
            }
        },
        _ => {},
    }
    let mut s = String::from_str(existing);
    if n > 0 {
        if existing.get_char(n - 1) != '\n' {
            s.append("\n");
        }
        s.append("\n");
    }
    s.append(new_section);
    s
}

} // verus!
