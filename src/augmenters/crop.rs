use vstd::prelude::*;
use crate::dataset::{Dataset, DatasetView};
use crate::error::{AugmentError, Operation};
use crate::probability::Probability;
use crate::random::random_index;
use vstd::slice::slice_to_vec;
use super::base::{Augmenter, name_of, copy_range, gated_batch_spec, one_view};

verus! {

/// The window of `x` of `size` values that starts at `start`, or all of `x`
/// when it holds no more than `size` values.
pub open spec fn crop_window<T>(x: Seq<T>, size: nat, start: int) -> Seq<T> {
    if x.len() <= size {
        x
    } else {
        x.subrange(start, start + size)
    }
}

/// `y` is a window of `min(size, len(x))` consecutive values of `x`.
pub open spec fn is_crop_of<T>(x: Seq<T>, size: nat, y: Seq<T>) -> bool {
    &&& y.len() == if x.len() <= size { x.len() } else { size }
    &&& exists|start: int|
        0 <= start && (x.len() <= size || start + size <= x.len()) && y == #[trigger] crop_window(
            x,
            size,
            start,
        )
}

/// Crops each series to a random window of `size` consecutive values (window
/// slicing). Every sample of a batch is cropped, so that all come out with
/// the same length.
pub struct Crop {
    pub name: String,
    pub size: usize,
}

impl Crop {
    pub fn new(size: usize) -> (r: Self)
        ensures
            r.name@ == "Crop"@,
            r.size == size,
    {
        Crop { name: name_of("Crop"), size }
    }

    /// The window of `x` that starts at `start`; all of `x` when it is no
    /// longer than the window.
    pub fn crop_at<T: Copy>(&self, x: &[T], start: usize) -> (r: Vec<T>)
        requires
            x@.len() <= self.size || start + self.size <= x@.len(),
        ensures
            r@ == crop_window(x@, self.size as nat, start as int),
    {
        if self.size >= x.len() {
            slice_to_vec(x)
        } else {
            copy_range(x, start, start + self.size)
        }
    }

    /// A window of `x` at a random start.
    pub fn get_slice<T: Copy>(&self, x: &[T]) -> (r: Vec<T>)
        ensures
            is_crop_of(x@, self.size as nat, r@),
    {
        let n = x.len();
        let start: usize = if self.size >= n || self.size == 0 {
            0
        } else {
            random_index(0, n - self.size + 1)
        };
        let r = self.crop_at(x, start);
        assert(r@ == crop_window(x@, self.size as nat, start as int));
        r
    }
}

impl<T: Copy> Augmenter<T> for Crop {
    open spec fn name_spec(&self) -> Seq<char> {
        self.name@
    }

    open spec fn per_sample_spec(&self) -> bool {
        true
    }

    open spec fn probability_spec(&self) -> Probability {
        Probability::certain()
    }

    open spec fn probability_settable(&self) -> bool {
        false
    }

    open spec fn one_spec(&self, x: Seq<T>, r: Result<Seq<T>, AugmentError>) -> bool {
        r matches Ok(y) && is_crop_of(x, self.size as nat, y)
    }

    open spec fn batch_spec(
        &self,
        old: DatasetView<T>,
        new: DatasetView<T>,
        per_sample: bool,
        r: Result<(), AugmentError>,
    ) -> bool {
        gated_batch_spec(
            |x: Seq<T>, o: Result<Seq<T>, AugmentError>| self.one_spec(x, o),
            Probability::certain(),
            old,
            new,
            r,
        )
    }

    fn get_name(&self) -> (r: String) {
        self.name.clone()
    }

    fn supports_per_sample(&self) -> (r: bool) {
        true
    }

    fn get_probability(&self) -> (r: Probability) {
        Probability::always()
    }

    /// Refused: a crop applies to every sample of a batch.
    fn set_probability(&mut self, p: Probability) -> (r: Result<(), AugmentError>) {
        Err(AugmentError::Unsupported { augmenter: self.name.clone(), operation: Operation::SetProbability })
    }

    fn augment_one(&self, x: &[T]) -> (r: Result<Vec<T>, AugmentError>) {
        Ok(self.get_slice(x))
    }

    fn augment_batch(&self, data: &mut Dataset<T>, per_sample: bool) -> (r: Result<(), AugmentError>) {
        self.gated_batch(data)
    }
}

} // verus!
