//! The in-memory table: an ordered collection of named columns of equal
//! length, with pairwise distinct names. A cell carries the 64-bit pattern of
//! the source's numeric value; this library never interprets the pattern, it
//! only selects and rearranges cells.

use vstd::prelude::*;

verus! {

/// One named column of numeric cells.
pub struct Column {
    pub name: String,
    pub cells: Vec<u64>,
}

/// The mathematical model of a table: each column as its name and its cells,
/// in column order.
pub ghost struct TableModel {
    pub cols: Seq<(Seq<char>, Seq<u64>)>,
}

/// An ordered collection of named columns, all of the same length, with
/// pairwise distinct names.
pub struct Table {
    pub cols: Vec<Column>,
}

impl View for Table {
    type V = TableModel;

    open spec fn view(&self) -> TableModel {
        TableModel { cols: Seq::new(self.cols@.len(), |c: int| (self.cols@[c].name@, self.cols@[c].cells@)) }
    }
}

impl TableModel {
    /// The number of columns.
    pub open spec fn width(self) -> nat {
        self.cols.len()
    }

    /// The number of rows: the length shared by all columns (zero for a table
    /// of no columns).
    pub open spec fn rows(self) -> nat {
        if self.cols.len() == 0 {
            0
        } else {
            self.cols[0].1.len()
        }
    }

    /// The name of column `c`.
    pub open spec fn name(self, c: int) -> Seq<char> {
        self.cols[c].0
    }

    /// The cell of column `c` at row `r`.
    pub open spec fn cell(self, c: int, r: int) -> u64 {
        self.cols[c].1[r]
    }

    /// Well-formedness: every column has the table's row count, and no two
    /// columns share a name.
    pub open spec fn wf(self) -> bool {
        &&& forall|c: int| 0 <= c < self.cols.len() ==> (#[trigger] self.cols[c].1.len()) == self.rows()
        &&& forall|c: int, d: int|
            0 <= c < self.cols.len() && 0 <= d < self.cols.len() && c != d
                ==> (#[trigger] self.cols[c].0) != (#[trigger] self.cols[d].0)
    }

    /// Whether some column bears the name `n`.
    pub open spec fn has_col(self, n: Seq<char>) -> bool {
        exists|c: int| 0 <= c < self.cols.len() && (#[trigger] self.cols[c].0) == n
    }

    /// The index of the column named `n` (meaningful when `has_col(n)`; for a
    /// well-formed table it is unique).
    pub open spec fn col_index(self, n: Seq<char>) -> int {
        choose|c: int| 0 <= c < self.cols.len() && (#[trigger] self.cols[c].0) == n
    }
}

impl Table {
    /// Build a table from columns, validating the table invariant: `Some`
    /// exactly when all columns have equal length and the names are pairwise
    /// distinct.
    #[verifier::loop_isolation(false)]
    pub fn new(cols: Vec<Column>) -> (r: Option<Table>)
        ensures
            match r {
                Some(t) => t@.wf() && t == (Table { cols }),
                None => !(Table { cols })@.wf(),
            },
    {
        let t = Table { cols };
        let n = t.cols.len();
        let mut c: usize = 1;
        while c < n
            invariant
                n == t@.cols.len(),
                1 <= c || n == 0,
                c <= n || n == 0,
                forall|i: int| 0 <= i < c && i < n ==> (#[trigger] t@.cols[i].1.len()) == t@.rows(),
            decreases n - c,
        {
            if t.cols[c].cells.len() != t.cols[0].cells.len() {
                assert(t@.cols[c as int].1.len() != t@.rows());
                return None;
            }
            c += 1;
        }
        let mut a: usize = 0;
        while a < n
            invariant
                n == t@.cols.len(),
                a <= n,
                forall|i: int| 0 <= i < n ==> (#[trigger] t@.cols[i].1.len()) == t@.rows(),
                forall|i: int, j: int| 0 <= i < a && i < j < n ==> (#[trigger] t@.cols[i].0) != (#[trigger] t@.cols[j].0),
            decreases n - a,
        {
            let mut b: usize = a + 1;
            while b < n
                invariant
                    n == t@.cols.len(),
                    a < b,
                    a < n,
                    forall|i: int, j: int| 0 <= i < a && i < j < n ==> (#[trigger] t@.cols[i].0) != (#[trigger] t@.cols[j].0),
                    forall|j: int| a < j < b ==> (#[trigger] t@.cols[a as int].0) != (#[trigger] t@.cols[j].0),
                decreases n - b,
            {
                if t.cols[a].name == t.cols[b].name {
                    assert(t@.cols[a as int].0 == t@.cols[b as int].0);
                    return None;
                }
                b += 1;
            }
            a += 1;
        }
        assert(t@.wf()) by {
            assert forall|i: int, j: int|
                0 <= i < t@.cols.len() && 0 <= j < t@.cols.len() && i != j
                    implies (#[trigger] t@.cols[i].0) != (#[trigger] t@.cols[j].0) by {
                if i < j {
                    assert(t@.cols[i].0 != t@.cols[j].0);
                } else {
                    assert(t@.cols[j].0 != t@.cols[i].0);
                }
            }
        }
        Some(t)
    }

    /// The number of rows.
    pub fn rows(&self) -> (r: usize)
        requires
            self@.wf(),
        ensures
            r == self@.rows(),
    {
        if self.cols.len() == 0 {
            0
        } else {
            self.cols[0].cells.len()
        }
    }

    /// The number of columns.
    pub fn width(&self) -> (r: usize)
        ensures
            r == self@.width(),
    {
        self.cols.len()
    }

    /// The name of column `c`.
    pub fn name_at(&self, c: usize) -> (r: &String)
        requires
            c < self@.width(),
        ensures
            r@ == self@.name(c as int),
    {
        &self.cols[c].name
    }

    /// The cell of column `c` at row `r`.
    pub fn cell_at(&self, c: usize, r: usize) -> (v: u64)
        requires
            self@.wf(),
            c < self@.width(),
            r < self@.rows(),
        ensures
            v == self@.cell(c as int, r as int),
    {
        proof {
            assert(self@.cols[c as int].1 == self.cols@[c as int].cells@);
        }
        self.cols[c].cells[r]
    }
}

} // verus!
