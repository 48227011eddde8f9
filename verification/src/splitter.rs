//! Feature/label splitter: partitions a table into a row-major numeric
//! feature matrix and a label vector by removing the designated label column.
//! The input table is not changed; both outputs keep its row count and order.

use vstd::prelude::*;
use crate::error::PipelineError;
use crate::table::{Table, TableModel};

verus! {

/// The label vector of a split at label column `li`: that column's cells, one
/// per row, in row order.
pub open spec fn split_labels(t: TableModel, li: int) -> Seq<u64> {
    t.cols[li].1
}

/// The feature matrix of a split at label column `li`: one sequence per row,
/// holding the cells of every other column in their original relative order.
pub open spec fn split_features(t: TableModel, li: int) -> Seq<Seq<u64>> {
    Seq::new(
        t.rows(),
        |p: int| Seq::new(
            (t.width() - 1) as nat,
            |c: int| t.cell(if c < li { c } else { c + 1 }, p),
        ),
    )
}

/// A feature matrix and label vector of equal row count; every feature row
/// has `width` entries.
pub struct SplitData {
    pub features: Vec<Vec<u64>>,
    pub labels: Vec<u64>,
    pub width: usize,
}

impl SplitData {
    /// Well-formedness: one label per feature row, and rows of equal width.
    pub open spec fn wf(self) -> bool {
        &&& self.labels@.len() == self.features@.len()
        &&& forall|p: int| 0 <= p < self.features@.len() ==> (#[trigger] self.features@[p]@.len()) == self.width
    }
}

/// Partition a table into its feature matrix and label vector at the column
/// named `label`. Succeeds if and only if such a column exists; a table
/// without it is rejected with the schema error. Both outputs have exactly
/// the table's row count, and the feature matrix keeps every remaining
/// column, in order.
#[verifier::loop_isolation(false)]
pub fn split(table: &Table, label: &str) -> (r: Result<SplitData, PipelineError>)
    requires
        table@.wf(),
    ensures
        r is Ok <==> table@.has_col(label@),
        match r {
            Ok(d) => {
                &&& d.wf()
                &&& d.width as int == table@.width() - 1
                &&& d.labels@.len() == table@.rows()
                &&& d.features@.len() == table@.rows()
                &&& d.labels@ == split_labels(table@, table@.col_index(label@))
                &&& d.features.deep_view() == split_features(table@, table@.col_index(label@))
            },
            Err(e) => e == PipelineError::Schema,
        },
{
    let ncols = table.width();
    let lbl = String::from_str(label);
    let mut li: usize = ncols;
    let mut c: usize = 0;
    while c < ncols
        invariant
            c <= ncols,
            li <= ncols,
            li == ncols ==> forall|i: int| 0 <= i < c ==> (#[trigger] table@.cols[i].0) != label@,
            li < ncols ==> table@.cols[li as int].0 == label@,
        decreases ncols - c,
    {
        if li == ncols {
            let name = table.name_at(c);
            if *name == lbl {
                li = c;
            }
        }
        c += 1;
    }
    if li == ncols {
        proof {
            assert(!table@.has_col(label@));
        }
        return Err(PipelineError::Schema);
    }
    proof {
        assert(table@.has_col(label@));
        let ci = table@.col_index(label@);
        assert(0 <= ci < table@.width() && table@.cols[ci].0 == label@);
        assert(ci == li as int);
    }
    let rows = table.rows();
    let mut labels: Vec<u64> = Vec::new();
    let mut p: usize = 0;
    while p < rows
        invariant
            p <= rows,
            labels@.len() == p,
            forall|q: int| 0 <= q < p ==> (#[trigger] labels@[q]) == table@.cell(li as int, q),
        decreases rows - p,
    {
        let v = table.cell_at(li, p);
        labels.push(v);
        p += 1;
    }
    proof {
        assert(labels@ =~= split_labels(table@, li as int));
    }
    let width = ncols - 1;
    let mut features: Vec<Vec<u64>> = Vec::new();
    let mut p2: usize = 0;
    while p2 < rows
        invariant
            p2 <= rows,
            features@.len() == p2,
            forall|q: int| 0 <= q < p2 ==> (#[trigger] features@[q]@) == split_features(table@, li as int)[q],
        decreases rows - p2,
    {
        let mut row: Vec<u64> = Vec::new();
        let mut c1: usize = 0;
        while c1 < li
            invariant
                c1 <= li,
                p2 < rows,
                row@.len() == c1,
                forall|i: int| 0 <= i < c1 ==> (#[trigger] row@[i]) == table@.cell(i, p2 as int),
            decreases li - c1,
        {
            let v = table.cell_at(c1, p2);
            row.push(v);
            c1 += 1;
        }
        let mut c2: usize = li + 1;
        while c2 < ncols
            invariant
                li < c2 <= ncols,
                p2 < rows,
                row@.len() == c2 - 1,
                forall|i: int| 0 <= i < li ==> (#[trigger] row@[i]) == table@.cell(i, p2 as int),
                forall|i: int| li <= i < c2 - 1 ==> (#[trigger] row@[i]) == table@.cell(i + 1, p2 as int),
            decreases ncols - c2,
        {
            let v = table.cell_at(c2, p2);
            row.push(v);
            c2 += 1;
        }
        proof {
            assert(row@ =~= split_features(table@, li as int)[p2 as int]);
        }
        features.push(row);
        p2 += 1;
    }
    let d = SplitData { features, labels, width };
    proof {
        assert(d.features.deep_view() =~~= split_features(table@, li as int));
        assert(d.wf());
    }
    Ok(d)
}

} // verus!
