use vstd::prelude::*;
use crate::content::Core;

verus! {

/// The rows of a table, each as the sequence of its cells.
pub open spec fn rows_view(rows: Seq<Vec<Core>>) -> Seq<Seq<Core>> {
    rows.map_values(|row: Vec<Core>| row@)
}

/// The length of the longest row, or zero when there is none.
pub open spec fn max_row_len(rows: Seq<Seq<Core>>) -> nat
    decreases rows.len(),
{
    if rows.len() == 0 {
        0
    } else {
        let m = max_row_len(rows.drop_last());
        let l = rows.last().len();
        if l > m { l } else { m }
    }
}

/// The number of columns that the layout declares: the longest row's length,
/// and one for a table without cells.
pub open spec fn column_count(rows: Seq<Seq<Core>>) -> nat {
    if max_row_len(rows) == 0 { 1 } else { max_row_len(rows) }
}

/// The line that opens a table of `columns` centred columns.
pub open spec fn table_begin_markup(columns: nat) -> Seq<char> {
    "\\begin{tabular}{"@ + Seq::new(columns, |i: int| 'c') + "}\n"@
}

/// What stands between two cells of a row.
pub open spec fn cell_separator() -> Seq<char> {
    "& "@
}

/// What ends a row.
pub open spec fn row_end() -> Seq<char> {
    "\\\\\n"@
}

/// The line that closes a table.
pub open spec fn table_end_markup() -> Seq<char> {
    "\\end{tabular}\n"@
}

/// Contents that a table can be made from: a flat sequence of cells is one
/// row, a sequence of sequences is one row each.
pub trait IntoTab: Sized {
    /// The rows that the contents stand for.
    spec fn tab_rows(&self) -> Seq<Seq<Core>>;

    /// The rows, ready to be held by a table.
    fn into_tab(self) -> (r: Vec<Vec<Core>>)
        ensures
            rows_view(r@) == self.tab_rows(),
    ;
}

impl IntoTab for Vec<Core> {
    open spec fn tab_rows(&self) -> Seq<Seq<Core>> {
        seq![self@]
    }

    fn into_tab(self) -> (r: Vec<Vec<Core>>) {
        let ghost cells = self@;
        let mut rows: Vec<Vec<Core>> = Vec::new();
        rows.push(self);
        assert(rows_view(rows@) =~= seq![cells]);
        rows
    }
}

impl IntoTab for Vec<Vec<Core>> {
    open spec fn tab_rows(&self) -> Seq<Seq<Core>> {
        rows_view(self@)
    }

    fn into_tab(self) -> (r: Vec<Vec<Core>>) {
        self
    }
}

/// A grid of content, rows of possibly different lengths.
pub struct Tabular {
    pub rows: Vec<Vec<Core>>,
}

impl Tabular {
    /// A table holding the rows of `content`.
    pub fn new<T: IntoTab>(content: T) -> (r: Tabular)
        ensures
            rows_view(r.rows@) == content.tab_rows(),
    {
        Tabular { rows: content.into_tab() }
    }

    /// The number of columns declared for the table.
    pub fn columns(&self) -> (r: usize)
        ensures
            r as nat == column_count(rows_view(self.rows@)),
    {
        let mut m: usize = 0;
        let mut i: usize = 0;
        while i < self.rows.len()
            invariant
                i <= self.rows@.len(),
                m as nat == max_row_len(rows_view(self.rows@.subrange(0, i as int))),
            decreases self.rows@.len() - i,
        {
            let ghost before = rows_view(self.rows@.subrange(0, i as int));
            let ghost after = rows_view(self.rows@.subrange(0, i + 1));
            assert(after.drop_last() =~= before);
            assert(after.last() == self.rows@[i as int]@);
            if self.rows[i].len() > m {
                m = self.rows[i].len();
            }
            i = i + 1;
        }
        assert(self.rows@.subrange(0, i as int) =~= self.rows@);
        if m == 0 { 1 } else { m }
    }

    /// Appends the line that opens a table of `columns` columns to `out`.
    pub fn write_begin(columns: usize, out: &mut String)
        ensures
            final(out)@ == old(out)@ + table_begin_markup(columns as nat),
    {
        let ghost base = out@;
        out.append("\\begin{tabular}{");
        let ghost front = out@;
        let mut i: usize = 0;
        while i < columns
            invariant
                i <= columns,
                out@ =~= front + Seq::new(i as nat, |j: int| 'c'),
            decreases columns - i,
        {
            out.push('c');
            i = i + 1;
        }
        out.append("}\n");
        assert(out@ =~= base + table_begin_markup(columns as nat));
    }
}

proof fn lemma_max_row_len(rows: Seq<Seq<Core>>)
    ensures
        forall|i: int| 0 <= i < rows.len() ==> #[trigger] rows[i].len() <= max_row_len(rows),
        max_row_len(rows) > 0 ==> exists|i: int| 0 <= i < rows.len() && #[trigger] rows[i].len() == max_row_len(rows),
    decreases rows.len(),
{
    if rows.len() > 0 {
        let front = rows.drop_last();
        lemma_max_row_len(front);
        assert forall|i: int| 0 <= i < rows.len() implies #[trigger] rows[i].len() <= max_row_len(rows) by {
            if i < rows.len() - 1 {
                assert(rows[i] == front[i]);
            }
        }
        if max_row_len(rows) > 0 {
            if rows.last().len() > max_row_len(front) {
                assert(rows[rows.len() - 1].len() == max_row_len(rows));
            } else {
                let j = choose|j: int| 0 <= j < front.len() && #[trigger] front[j].len() == max_row_len(front);
                assert(rows[j] == front[j]);
            }
        }
    }
}

/// The declared column count is the length of the longest row: no row is
/// longer, and some row is that long; a table without cells declares one.
pub proof fn lemma_column_count_is_longest_row(rows: Seq<Seq<Core>>)
    ensures
        forall|i: int| 0 <= i < rows.len() ==> #[trigger] rows[i].len() <= column_count(rows),
        max_row_len(rows) > 0 ==> exists|i: int| 0 <= i < rows.len() && #[trigger] rows[i].len() == column_count(rows),
        max_row_len(rows) == 0 ==> column_count(rows) == 1,
{
    lemma_max_row_len(rows);
}

/// A flat sequence of cells stands for the same rows as a table of one row
/// holding those cells.
pub proof fn lemma_flat_is_one_row(cells: Vec<Core>, grid: Vec<Vec<Core>>)
    requires
        grid@ == seq![cells],
    ensures
        cells.tab_rows() == grid.tab_rows(),
{
    assert(rows_view(grid@) =~= seq![cells@]);
}

} // verus!
