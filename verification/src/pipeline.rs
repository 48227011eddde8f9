//! Classification pipeline orchestration: one single-shot run samples the
//! loaded table with the fixed fraction and seed, splits off the label
//! column, hands the training data to the external classification model, and
//! decodes the model's one prediction back to a species name. The model
//! itself is an external collaborator reached through its fit/predict
//! contract; everything the run decides — which rows train, how the table is
//! partitioned, whether shapes agree, and what the prediction means — is
//! settled here.

use vstd::prelude::*;
use crate::error::PipelineError;
use crate::sampler::{sample, sample_size, sampled_model};
use crate::splitter::{split, split_features, split_labels, SplitData};
use crate::table::{Table, TableModel};

verus! {

/// Numerator of the fixed training fraction: the sample keeps 4/5 of the rows.
pub const SAMPLE_NUM: usize = 4;

/// Denominator of the fixed training fraction.
pub const SAMPLE_DEN: usize = 5;

/// The fixed sampling seed: the same loaded table always yields the same
/// training subset.
pub const SAMPLE_SEED: u64 = 1337;

/// The name of the designated label column.
pub open spec fn label_column() -> Seq<char> {
    "Species"@
}

/// The training table of a run: the loaded table sampled with the fixed
/// fraction and seed.
pub open spec fn training_table(t: TableModel) -> TableModel {
    sampled_model(t, SAMPLE_NUM as int, SAMPLE_DEN as int, SAMPLE_SEED as int)
}

/// Take a loaded table to the training data of this run: sample
/// `floor(rows * 4 / 5)` rows with seed 1337, then split off the `Species`
/// column. A sampled table without that column is rejected with the schema
/// error; a sample of no rows cannot be fitted and is rejected with the
/// training error; any other table yields exactly the split of the sampled
/// table.
pub fn prepare(table: &Table) -> (r: Result<SplitData, PipelineError>)
    requires
        table@.wf(),
        table@.rows() * SAMPLE_NUM <= usize::MAX,
    ensures
        ({
            let st = training_table(table@);
            match r {
                Ok(d) => {
                    &&& st.has_col(label_column())
                    &&& st.rows() > 0
                    &&& d.wf()
                    &&& d.width as int == st.width() - 1
                    &&& d.labels@.len() == sample_size(table@.rows() as int, SAMPLE_NUM as int, SAMPLE_DEN as int)
                    &&& d.features@.len() == d.labels@.len()
                    &&& d.labels@ == split_labels(st, st.col_index(label_column()))
                    &&& d.features.deep_view() == split_features(st, st.col_index(label_column()))
                },
                Err(PipelineError::Schema) => !st.has_col(label_column()),
                Err(PipelineError::Training) => st.has_col(label_column()) && st.rows() == 0,
                Err(PipelineError::Shape) => false,
            }
        }),
{
    let sampled = sample(table, SAMPLE_NUM, SAMPLE_DEN, SAMPLE_SEED);
    match split(&sampled, "Species") {
        Err(e) => Err(e),
        Ok(d) => {
            if d.labels.len() == 0 {
                Err(PipelineError::Training)
            } else {
                Ok(d)
            }
        },
    }
}

/// Validate the new observation's shape against the trained feature width:
/// accepted exactly when the observation has one value per trained feature
/// column, rejected with the shape error otherwise.
pub fn check_observation(d: &SplitData, obs: &Vec<u64>) -> (r: Result<(), PipelineError>)
    ensures
        r is Ok <==> obs@.len() == d.width,
        match r {
            Ok(()) => obs@.len() == d.width,
            Err(e) => e == PipelineError::Shape && obs@.len() != d.width,
        },
{
    if obs.len() == d.width {
        Ok(())
    } else {
        Err(PipelineError::Shape)
    }
}

} // verus!
