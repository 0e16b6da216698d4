use vstd::prelude::*;

verus! {

/// What a worktree's branch is compared against.
#[derive(Clone, Debug)]
pub enum UpstreamRef {
    /// The branch has an upstream it tracks.
    Tracking,
    /// No upstream, but the remote's default branch is known.
    DefaultBranch(String),
    /// Nothing to compare against.
    Head,
}

/// The commit range of the work not yet upstream, if there is anything to compare with.
pub fn resolve_log_range(upstream: &UpstreamRef) -> (r: Option<String>)
    ensures
        match upstream {
            UpstreamRef::Tracking => r matches Some(s) && s@ == "@{upstream}..HEAD"@,
            UpstreamRef::DefaultBranch(b) => r matches Some(s) && s@ == "origin/"@ + b@ + "..HEAD"@,
            UpstreamRef::Head => r is None,
        },
{
    match upstream {
        UpstreamRef::Tracking => Some(String::from_str("@{upstream}..HEAD")),
        UpstreamRef::DefaultBranch(b) => {
            let mut s = String::from_str("origin/");
            s.append(b.as_str());
            s.append("..HEAD");
            Some(s)
        },
        UpstreamRef::Head => None,
    }
}


/// `c` is an ASCII decimal digit.
pub open spec fn is_digit(c: char) -> bool {
    '0' <= c && c <= '9'
}

/// The value of a string of decimal digits.
pub open spec fn digits_value(s: Seq<char>) -> int
    decreases s.len(),
{
    if s.len() == 0 {
        0
    } else {
        digits_value(s.drop_last()) * 10 + (s.last() as u32 - '0' as u32)
    }
}

/// The digits after an optional sign.
pub open spec fn unsigned_part(s: Seq<char>) -> Seq<char> {
    if s.len() > 0 && (s[0] == '-' || s[0] == '+') {
        s.drop_first()
    } else {
        s
    }
}

/// The `i64` that `s` spells in decimal, with an optional sign; `None` when it
/// spells none.
#[verifier::opaque]
pub open spec fn i64_value(s: Seq<char>) -> Option<int> {
    let body = unsigned_part(s);
    let v = if s.len() > 0 && s[0] == '-' {
        -digits_value(body)
    } else {
        digits_value(body)
    };
    if body.len() > 0 && (forall|i: int| 0 <= i < body.len() ==> is_digit(#[trigger] body[i])) && i64::MIN
        <= v <= i64::MAX {
        Some(v)
    } else {
        None
    }
}

proof fn lemma_digits_step(s: Seq<char>, i: int)
    requires
        0 <= i < s.len(),
        is_digit(s[i]),
    ensures
        digits_value(s.subrange(0, i + 1)) == digits_value(s.subrange(0, i)) * 10 + (s[i] as u32 - '0' as u32),
{
    assert(s.subrange(0, i + 1).drop_last() =~= s.subrange(0, i));
}

proof fn lemma_digits_nonneg(s: Seq<char>)
    requires
        forall|i: int| 0 <= i < s.len() ==> is_digit(#[trigger] s[i]),
    ensures
        digits_value(s) >= 0,
    decreases s.len(),
{
    if s.len() > 0 {
        let d = s.drop_last();
        assert forall|i: int| 0 <= i < d.len() implies is_digit(#[trigger] d[i]) by {
            assert(d[i] == s[i]);
        }
        lemma_digits_nonneg(d);
    }
}

/// Reads a decimal `i64`, as `str::parse` does.
pub fn parse_i64(s: &str) -> (r: Option<i64>)
    ensures
        match r {
            Some(x) => i64_value(s@) == Some(x as int),
            None => i64_value(s@) is None,
        },
{
    proof {
        reveal(i64_value);
    }
    let n = s.unicode_len();
    let mut start: usize = 0;
    let mut neg = false;
    if n > 0 {
        let c = s.get_char(0);
        if c == '-' || c == '+' {
            start = 1;
            neg = c == '-';
        }
    }
    let ghost body = unsigned_part(s@);
    assert(body =~= s@.subrange(start as int, n as int));
    if start >= n {
        return None;
    }
    let limit: u128 = 9223372036854775808;
    let mut acc: u128 = 0;
    let mut big = false;
    let mut i: usize = start;
    while i < n
        invariant
            n == s@.len(),
            start <= i <= n,
            body == s@.subrange(start as int, n as int),
            body == unsigned_part(s@),
            neg == (s@.len() > 0 && s@[0] == '-'),
            forall|k: int| 0 <= k < i - start ==> is_digit(#[trigger] body[k]),
            !big ==> acc as int == digits_value(body.subrange(0, i - start)) && acc <= limit,
            big ==> digits_value(body.subrange(0, i - start)) > limit,
            limit == 9223372036854775808,
        decreases n - i,
    {
        let c = s.get_char(i);
        if !('0' <= c && c <= '9') {
            proof {
                assert(body[i - start] == c);
                assert(!is_digit(body[i - start]));
                assert(!(forall|k: int| 0 <= k < body.len() ==> is_digit(#[trigger] body[k])));
                assert(body == unsigned_part(s@));
                reveal(i64_value);
                assert(i64_value(s@) is None);
            }
            return None;
        }
        proof {
            assert(body[i - start] == c);
            lemma_digits_step(body, i - start);
            assert(body.subrange(0, i - start + 1).subrange(0, i - start) =~= body.subrange(0, i - start));
            let pre = body.subrange(0, i - start);
            assert forall|k: int| 0 <= k < pre.len() implies is_digit(#[trigger] pre[k]) by {
                assert(pre[k] == body[k]);
            }
            lemma_digits_nonneg(pre);
        }
        if !big {
            acc = acc * 10 + (c as u32 - '0' as u32) as u128;
            if acc > limit {
                big = true;
            }
        }
        i += 1;
    }
    assert(body.subrange(0, n - start) =~= body);
    proof {
        reveal(i64_value);
        assert forall|k: int| 0 <= k < body.len() implies is_digit(#[trigger] body[k]) by {}
    }
    if big {
        return None;
    }
    if neg {
        if acc > limit {
            return None;
        }
        if acc == limit {
            return Some(i64::MIN);
        }
        Some(-(acc as i64))
    } else {
        if acc >= limit {
            return None;
        }
        Some(acc as i64)
    }
}


/// The pieces of `s` between newlines: one more than there are newlines.
pub open spec fn segments(s: Seq<char>) -> Seq<Seq<char>>
    decreases s.len(),
{
    if s.len() == 0 {
        seq![seq![]]
    } else {
        let prev = segments(s.drop_last());
        if s.last() == '\n' {
            prev.push(seq![])
        } else {
            prev.update(prev.len() - 1, prev.last().push(s.last()))
        }
    }
}

/// A line without the carriage return of a `\r\n` ending.
pub open spec fn strip_cr(l: Seq<char>) -> Seq<char> {
    if l.len() > 0 && l.last() == '\r' {
        l.drop_last()
    } else {
        l
    }
}

/// The lines of `s`, as `str::lines` gives them: a final newline ends the last
/// line rather than starting an empty one.
pub open spec fn lines_of(s: Seq<char>) -> Seq<Seq<char>> {
    let seg = segments(s);
    let ended = seg.drop_last().map_values(|l: Seq<char>| strip_cr(l));
    if seg.last().len() == 0 {
        ended
    } else {
        ended.push(seg.last())
    }
}

/// Where `c` first occurs in `s` at or after `from`.
#[verifier::opaque]
pub open spec fn find_char_spec(s: Seq<char>, from: int, c: char) -> Option<int> {
    if exists|i: int| from <= i < s.len() && s[i] == c {
        Some(choose|i: int| from <= i < s.len() && s[i] == c && forall|j: int| from <= j < i ==> s[j] != c)
    } else {
        None
    }
}

/// The commit a line `hash NUL timestamp NUL subject` describes; a timestamp that
/// does not read as a number counts as 0, a line with fewer than two NULs as
/// nothing.
pub open spec fn commit_of(l: Seq<char>) -> Option<(Seq<char>, int, Seq<char>)> {
    match find_char_spec(l, 0, '\0') {
        None => None,
        Some(a) => match find_char_spec(l, a + 1, '\0') {
            None => None,
            Some(b) => Some(
                (
                    l.subrange(0, a),
                    match i64_value(l.subrange(a + 1, b)) {
                        Some(v) => v,
                        None => 0,
                    },
                    l.subrange(b + 1, l.len() as int),
                ),
            ),
        },
    }
}

/// The commits of the lines, in order.
pub open spec fn commits_of(lines: Seq<Seq<char>>) -> Seq<(Seq<char>, int, Seq<char>)>
    decreases lines.len(),
{
    if lines.len() == 0 {
        seq![]
    } else {
        let prev = commits_of(lines.drop_last());
        match commit_of(lines.last()) {
            Some(c) => prev.push(c),
            None => prev,
        }
    }
}

/// One commit of a log listing.
#[derive(Clone, Debug)]
pub struct LogCommit {
    pub hash: String,
    pub timestamp: i64,
    pub subject: String,
}

pub open spec fn commits_view(v: Seq<LogCommit>) -> Seq<(Seq<char>, int, Seq<char>)> {
    v.map_values(|c: LogCommit| (c.hash@, c.timestamp as int, c.subject@))
}

fn find_char(s: &str, n: usize, from: usize, c: char) -> (r: Option<usize>)
    requires
        n == s@.len(),
        from <= n,
    ensures
        match r {
            Some(i) => find_char_spec(s@, from as int, c) == Some(i as int) && from <= i < n,
            None => find_char_spec(s@, from as int, c) is None,
        },
{
    proof {
        reveal(find_char_spec);
    }
    let mut i = from;
    while i < n
        invariant
            n == s@.len(),
            from <= i <= n,
            forall|j: int| from <= j < i ==> s@[j] != c,
        decreases n - i,
    {
        if s.get_char(i) == c {
            proof {
                reveal(find_char_spec);
                let k = choose|k: int| from <= k < s@.len() && s@[k] == c && forall|j: int| from <= j < k ==> s@[j] != c;
                assert(k == i) by {
                    if k < i {
                        assert(s@[k] != c);
                    }
                    if k > i {
                        assert(s@[i as int] != c);
                    }
                }
            }
            return Some(i);
        }
        i += 1;
    }
    proof {
        reveal(find_char_spec);
    }
    None
}

/// Parses one line of the listing.
pub fn parse_commit_line(line: &str) -> (r: Option<LogCommit>)
    ensures
        match commit_of(line@) {
            Some(c) => r matches Some(x) && (x.hash@, x.timestamp as int, x.subject@) == c,
            None => r is None,
        },
{
    let n = line.unicode_len();
    let ghost l = line@;
    match find_char(line, n, 0, '\0') {
        None => None,
        Some(a) => match find_char(line, n, a + 1, '\0') {
            None => None,
            Some(b) => {
                assert(find_char_spec(l, 0, '\0') == Some(a as int));
                assert(find_char_spec(l, a + 1, '\0') == Some(b as int));
                let ts = parse_i64(line.substring_char(a + 1, b));
                let timestamp = match ts {
                    Some(v) => v,
                    None => 0,
                };
                Some(
                    LogCommit {
                        hash: String::from_str(line.substring_char(0, a)),
                        timestamp,
                        subject: String::from_str(line.substring_char(b + 1, n)),
                    },
                )
            },
        },
    }
}


/// The commits of a `git log --format=%H%x00%ct%x00%s` listing, in order.
pub fn parse_commit_log(output: &str) -> (r: Vec<LogCommit>)
    ensures
        commits_view(r@) == commits_of(lines_of(output@)),
{
    let n = output.unicode_len();
    let ghost s = output@;
    let ghost mut raw: Seq<Seq<char>> = seq![];
    let mut out: Vec<LogCommit> = Vec::new();
    let mut cur: usize = 0;
    let mut i: usize = 0;
    assert(s.subrange(0, 0) =~= seq![]);
    assert(segments(s.subrange(0, 0)) =~= raw.push(s.subrange(0, 0)));
    assert(raw.map_values(|l: Seq<char>| strip_cr(l)) =~= seq![]);
    while i < n
        invariant
            n == s.len(),
            s == output@,
            cur <= i <= n,
            segments(s.subrange(0, i as int)) == raw.push(s.subrange(cur as int, i as int)),
            commits_view(out@) == commits_of(raw.map_values(|l: Seq<char>| strip_cr(l))),
        decreases n - i,
    {
        let c = output.get_char(i);
        let ghost seg = s.subrange(cur as int, i as int);
        assert(s.subrange(0, i as int + 1).drop_last() =~= s.subrange(0, i as int));
        assert(s.subrange(0, i as int + 1).last() == c);
        if c == '\n' {
            let end = if i > cur && output.get_char(i - 1) == '\r' {
                i - 1
            } else {
                i
            };
            let line = output.substring_char(cur, end);
            assert(line@ == strip_cr(seg)) by {
                if i > cur && s[i - 1] == '\r' {
                    assert(seg.drop_last() =~= s.subrange(cur as int, i - 1));
                } else {
                    assert(seg =~= s.subrange(cur as int, i as int));
                }
            }
            let ghost old_lines = raw.map_values(|l: Seq<char>| strip_cr(l));
            let ghost old_out = out@;
            match parse_commit_line(line) {
                Some(x) => {
                    out.push(x);
                    assert(commits_view(out@) =~= commits_view(old_out).push(
                        (x.hash@, x.timestamp as int, x.subject@),
                    ));
                },
                None => {},
            }
            proof {
                let new_lines = raw.push(seg).map_values(|l: Seq<char>| strip_cr(l));
                assert(new_lines =~= old_lines.push(strip_cr(seg)));
                assert(new_lines.drop_last() =~= old_lines);
                raw = raw.push(seg);
                assert(s.subrange(i as int + 1, i as int + 1) =~= seq![]);
                assert(segments(s.subrange(0, i as int + 1)) =~= raw.push(s.subrange(i as int + 1, i as int + 1)));
            }
            cur = i + 1;
        } else {
            proof {
                let prev = segments(s.subrange(0, i as int));
                assert(prev.len() - 1 == raw.len());
                assert(prev.last() == seg);
                assert(s.subrange(cur as int, i as int + 1) =~= seg.push(c));
                assert(segments(s.subrange(0, i as int + 1)) =~= raw.push(s.subrange(cur as int, i as int + 1)));
            }
        }
        i += 1;
    }
    assert(s.subrange(0, n as int) =~= s);
    let ghost lines = raw.map_values(|l: Seq<char>| strip_cr(l));
    assert(segments(s).drop_last() =~= raw);
    if cur < n {
        let line = output.substring_char(cur, n);
        let ghost old_out = out@;
        match parse_commit_line(line) {
            Some(x) => {
                out.push(x);
                assert(commits_view(out@) =~= commits_view(old_out).push(
                    (x.hash@, x.timestamp as int, x.subject@),
                ));
            },
            None => {},
        }
        assert(lines.push(line@).drop_last() =~= lines);
    }
    out
}

} // verus!
