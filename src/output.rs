use vstd::prelude::*;
use crate::error::WsError;
use crate::text::{decimal, decimal_text};

verus! {

/// The upper-case form of a header.
pub uninterp spec fn upper_of(s: Seq<char>) -> Seq<char>;

/// The bytes that tab-separated text becomes once its columns are aligned
/// (minimum width 0, two spaces of padding).
pub uninterp spec fn tab_aligned(text: Seq<char>) -> Seq<u8>;

/// Relies on `str::to_uppercase`: the result depends on the characters alone.
#[verifier::external_body]
fn uppercase(s: &str) -> (r: String)
    ensures
        r@ == upper_of(s@),
{
    s.to_uppercase()
}

/// Relies on `tabwriter::TabWriter` writing into a `Vec<u8>` with `minwidth(0)`
/// and `padding(2)`: the aligned output depends on the text alone, and since its
/// `write` and `flush` write only to the `Vec`, which never fails, it always
/// comes back.
#[verifier::external_body]
fn align_columns(text: &str) -> (r: Vec<u8>)
    ensures
        r@ == tab_aligned(text@),
{
    let mut tw = tabwriter::TabWriter::new(Vec::new()).minwidth(0).padding(2);
    match std::io::Write::write_all(&mut tw, text.as_bytes()) {
        Ok(()) => {},
        Err(_) => return Vec::new(),
    }
    match tw.into_inner() {
        Ok(b) => b,
        Err(_) => Vec::new(),
    }
}

pub open spec fn cells_view(v: Seq<String>) -> Seq<Seq<char>> {
    v.map_values(|s: String| s@)
}

/// Cells separated by tabs.
pub open spec fn tab_joined(cells: Seq<Seq<char>>) -> Seq<char>
    decreases cells.len(),
{
    if cells.len() == 0 {
        seq![]
    } else if cells.len() == 1 {
        cells[0]
    } else {
        tab_joined(cells.drop_last()) + "\t"@ + cells.last()
    }
}

/// One line per row, cells separated by tabs.
pub open spec fn tab_lines(rows: Seq<Seq<Seq<char>>>) -> Seq<char>
    decreases rows.len(),
{
    if rows.len() == 0 {
        seq![]
    } else {
        tab_lines(rows.drop_last()) + tab_joined(rows.last()) + "\n"@
    }
}

/// The tab-separated text of a table: the upper-cased headers, then the rows.
pub open spec fn table_text(headers: Seq<Seq<char>>, rows: Seq<Seq<Seq<char>>>) -> Seq<char> {
    tab_lines(seq![headers.map_values(|h: Seq<char>| upper_of(h))] + rows)
}

/// A table of text cells with a fixed header row.
pub struct Table {
    headers: Vec<String>,
    rows: Vec<Vec<String>>,
}

impl Table {
    pub closed spec fn headers_view(&self) -> Seq<Seq<char>> {
        cells_view(self.headers@)
    }

    pub closed spec fn rows_view(&self) -> Seq<Seq<Seq<char>>> {
        self.rows@.map_values(|r: Vec<String>| cells_view(r@))
    }

    /// Every row has one cell per header.
    pub open spec fn wf(&self) -> bool {
        forall|i: int| 0 <= i < self.rows_view().len() ==> (#[trigger] self.rows_view()[i]).len()
            == self.headers_view().len()
    }

    /// An empty table with these headers.
    pub fn new(headers: Vec<String>) -> (t: Table)
        ensures
            t.headers_view() == cells_view(headers@),
            t.rows_view().len() == 0,
            t.wf(),
    {
        let t = Table { headers, rows: Vec::new() };
        assert(t.rows_view() =~= seq![]);
        t
    }

    /// Appends a row; a row whose width is not the number of headers is refused.
    pub fn add_row(&mut self, columns: Vec<String>) -> (r: Result<(), WsError>)
        requires
            old(self).wf(),
        ensures
            final(self).wf(),
            final(self).headers_view() == old(self).headers_view(),
            columns.len() == old(self).headers_view().len() ==> r is Ok && final(self).rows_view()
                == old(self).rows_view().push(cells_view(columns@)),
            columns.len() != old(self).headers_view().len() ==> final(self).rows_view() == old(
                self,
            ).rows_view() && (r matches Err(WsError::ColumnMismatch { got, expected }) && got
                == columns.len() && expected == old(self).headers_view().len()),
    {
        if columns.len() != self.headers.len() {
            return Err(WsError::ColumnMismatch { got: columns.len(), expected: self.headers.len() });
        }
        let ghost before = self.rows_view();
        let ghost cv = cells_view(columns@);
        self.rows.push(columns);
        assert(self.rows_view() =~= before.push(cv));
        Ok(())
    }

    /// The aligned table: nothing for a table without headers.
    pub fn render(&self) -> (r: Result<Vec<u8>, WsError>)
        requires
            self.wf(),
        ensures
            self.headers_view().len() == 0 ==> (r matches Ok(b) && b@.len() == 0),
            self.headers_view().len() > 0 ==> (r matches Ok(b) && b@ == tab_aligned(
                table_text(self.headers_view(), self.rows_view()),
            )),
    {
        if self.headers.len() == 0 {
            return Ok(Vec::new());
        }
        let mut upper: Vec<String> = Vec::new();
        let mut i: usize = 0;
        while i < self.headers.len()
            invariant
                i <= self.headers.len(),
                cells_view(upper@) == self.headers_view().subrange(0, i as int).map_values(
                    |h: Seq<char>| upper_of(h),
                ),
            decreases self.headers.len() - i,
        {
            let u = uppercase(self.headers[i].as_str());
            let ghost before = upper@;
            upper.push(u);
            assert(cells_view(upper@) =~= self.headers_view().subrange(0, i as int + 1).map_values(
                |h: Seq<char>| upper_of(h),
            )) by {
                assert(cells_view(upper@) =~= cells_view(before).push(u@));
            }
            i += 1;
        }
        assert(self.headers_view().subrange(0, i as int) =~= self.headers_view());
        assert(cells_view(upper@) == self.headers_view().map_values(|h: Seq<char>| upper_of(h)));
        let mut text = tab_line(&upper);
        let ghost all = seq![self.headers_view().map_values(|h: Seq<char>| upper_of(h))] + self.rows_view();
        assert(all.subrange(0, 1).drop_last() =~= seq![]);
        assert(all.subrange(0, 1).last() == cells_view(upper@));
        assert(tab_lines(all.subrange(0, 1)) == tab_lines(all.subrange(0, 1).drop_last()) + tab_joined(
            cells_view(upper@),
        ) + "\n"@);
        assert(tab_lines(all.subrange(0, 1).drop_last()) =~= seq![]);
        let mut k: usize = 0;
        while k < self.rows.len()
            invariant
                k <= self.rows.len(),
                all == seq![self.headers_view().map_values(|h: Seq<char>| upper_of(h))] + self.rows_view(),
                text@ == tab_lines(all.subrange(0, k as int + 1)),
            decreases self.rows.len() - k,
        {
            let line = tab_line(&self.rows[k]);
            text.append(line.as_str());
            assert(all.subrange(0, k as int + 2).drop_last() =~= all.subrange(0, k as int + 1));
            assert(all.subrange(0, k as int + 2).last() == cells_view(self.rows@[k as int]@));
            k += 1;
        }
        assert(all.subrange(0, k as int + 1) =~= all);
        Ok(align_columns(text.as_str()))
    }
}

/// The cells joined by tabs, ending in a newline.
fn tab_line(cells: &Vec<String>) -> (r: String)
    ensures
        r@ == tab_joined(cells_view(cells@)) + "\n"@,
{
    let mut s = String::new();
    let mut i: usize = 0;
    while i < cells.len()
        invariant
            i <= cells.len(),
            s@ == tab_joined(cells_view(cells@).subrange(0, i as int)),
        decreases cells.len() - i,
    {
        let ghost pre = cells_view(cells@).subrange(0, i as int + 1);
        assert(pre.drop_last() =~= cells_view(cells@).subrange(0, i as int));
        assert(pre.last() == cells@[i as int]@);
        if i > 0 {
            let ghost s0 = s@;
            assert(s0 == tab_joined(pre.drop_last()));
            s.append("\t");
            assert(s@ =~= s0 + "\t"@);
            s.append(cells[i].as_str());
            assert(tab_joined(pre) == tab_joined(pre.drop_last()) + "\t"@ + pre.last());
            assert(s@ =~= tab_joined(pre));
        } else {
            s.append(cells[i].as_str());
            assert(pre.len() == 1);
            assert(tab_joined(pre) == pre[0]);
            assert(s@ =~= tab_joined(pre));
        }
        i += 1;
    }
    assert(cells_view(cells@).subrange(0, i as int) =~= cells_view(cells@));
    s.append("\n");
    s
}

/// A repository's status: `clean`, or how many commits ahead and how many
/// files modified, leaving out a count that is zero.
pub open spec fn repo_status_text(ahead: nat, modified: nat) -> Seq<char> {
    if ahead == 0 && modified == 0 {
        "clean"@
    } else if modified == 0 {
        decimal_text(ahead) + " ahead"@
    } else if ahead == 0 {
        decimal_text(modified) + " modified"@
    } else {
        decimal_text(ahead) + " ahead"@ + ", "@ + decimal_text(modified) + " modified"@
    }
}

/// The status text of a repository.
pub fn format_repo_status(ahead: u32, modified: u32) -> (r: String)
    ensures
        r@ == repo_status_text(ahead as nat, modified as nat),
{
    if ahead == 0 && modified == 0 {
        return String::from_str("clean");
    }
    let mut s = String::new();
    if ahead > 0 {
        s = decimal(ahead as u64);
        s.append(" ahead");
    }
    if modified > 0 {
        if ahead > 0 {
            s.append(", ");
        }
        let m = decimal(modified as u64);
        s.append(m.as_str());
        s.append(" modified");
    }
    s
}

/// An error line for the user.
pub fn format_error(message: &str) -> (r: String)
    ensures
        r@ == "ERROR: "@ + message@,
{
    let mut s = String::from_str("ERROR: ");
    s.append(message);
    s
}

} // verus!
