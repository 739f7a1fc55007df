//! Augmentation of labelled univariate time series.
//!
//! The library holds the parts of augmentation that decide *which* values go
//! where: the dataset, the augmenter contract, the pipeline that composes
//! augmenters, and the transforms whose work is selection, reordering or
//! reshaping of a series. Samples are generic over their element type, so the
//! same code serves any `Copy` value.
pub mod augmenters;
pub mod dataset;
pub mod error;
pub mod probability;
pub mod quality_benchmarking;
mod random;

pub use dataset::{Dataset, DatasetView};
pub use error::{AugmentError, Operation};
pub use probability::Probability;
