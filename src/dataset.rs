//! The container that augmenters read and rewrite.
use vstd::prelude::*;

verus! {

/// Labelled univariate time series: `labels[i]` names `features[i]`.
pub struct Dataset<T> {
    pub features: Vec<Vec<T>>,
    pub labels: Vec<String>,
}

/// The mathematical content of a dataset: its samples and its labels.
pub struct DatasetView<T> {
    pub samples: Seq<Seq<T>>,
    pub labels: Seq<String>,
}

impl<T> DatasetView<T> {
    /// As many labels as samples.
    pub open spec fn wf(&self) -> bool {
        self.samples.len() == self.labels.len()
    }
}

impl<T> View for Dataset<T> {
    type V = DatasetView<T>;

    open spec fn view(&self) -> DatasetView<T> {
        DatasetView { samples: self.features@.map_values(|v: Vec<T>| v@), labels: self.labels@ }
    }
}

} // verus!
