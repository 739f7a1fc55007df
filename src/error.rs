use vstd::prelude::*;

verus! {

/// The call that an augmenter refused.
#[derive(Clone, Copy, Debug, PartialEq, Eq, Structural)]
pub enum Operation {
    AugmentOne,
    SetProbability,
}

/// Failures that an augmentation call reports to its caller.
#[derive(Debug)]
pub enum AugmentError {
    /// The augmenter named does not offer this operation.
    Unsupported { augmenter: String, operation: Operation },
    /// The augmenter named needs a whole batch and cannot be chained per sample.
    IncompatibleInPipeline { augmenter: String },
    /// The augmenter named was handed a series it cannot take (too short).
    SeriesTooShort { augmenter: String },
    /// The augmenter named was configured with parameters it cannot work with.
    InvalidParameters { augmenter: String },
    /// A probability whose denominator is 0 or whose numerator exceeds it.
    InvalidProbability,
}

} // verus!
