use vstd::prelude::*;
use crate::dataset::{Dataset, DatasetView};
use crate::error::AugmentError;
use crate::probability::Probability;
use super::base::{Augmenter, name_of, gated_batch_spec, one_view};

verus! {

/// `x` resampled to `size` values without interpolation: value `i` is
/// `x[floor(i * len(x) / size)]`.
pub open spec fn resized<T>(x: Seq<T>, size: nat) -> Seq<T> {
    Seq::new(size, |i: int| x[(i * x.len()) / (size as int)])
}

/// Changes the temporal resolution of each series to `size` values by
/// picking values at evenly spaced positions (no interpolation).
pub struct Resize {
    pub name: String,
    pub size: usize,
    pub p: Probability,
}

impl Resize {
    pub fn new(size: usize) -> (r: Self)
        ensures
            r.name@ == "Resize"@,
            r.size == size,
            r.p == Probability::certain(),
    {
        Resize { name: name_of("Resize"), size, p: Probability::always() }
    }

    /// `x` resampled to `size` values; `x` must hold a value unless `size` is 0.
    pub fn resample<T: Copy>(x: &[T], size: usize) -> (r: Vec<T>)
        requires
            x@.len() > 0 || size == 0,
        ensures
            r@ == resized(x@, size as nat),
    {
        let n = x.len();
        let mut r: Vec<T> = Vec::with_capacity(size);
        let mut i: usize = 0;
        while i < size
            invariant
                n == x@.len(),
                n > 0 || size == 0,
                i <= size,
                r@ =~= resized(x@, size as nat).subrange(0, i as int),
            decreases size - i,
        {
            proof {
                assert((i as int) * (n as int) < (size as int) * (n as int)) by (nonlinear_arith)
                    requires
                        i < size,
                        n > 0,
                ;
                assert(((i as int) * (n as int)) / (size as int) < n) by (nonlinear_arith)
                    requires
                        (i as int) * (n as int) < (size as int) * (n as int),
                        size > 0,
                        n > 0,
                ;
                assert((i as int) * (n as int) <= u128::MAX) by (nonlinear_arith)
                    requires
                        i <= usize::MAX,
                        n <= usize::MAX,
                ;
            }
            let j = ((i as u128) * (n as u128) / (size as u128)) as usize;
            r.push(x[j]);
            i += 1;
            assert(r@ =~= resized(x@, size as nat).subrange(0, i as int));
        }
        r
    }
}

impl<T: Copy> Augmenter<T> for Resize {
    open spec fn name_spec(&self) -> Seq<char> {
        self.name@
    }

    open spec fn per_sample_spec(&self) -> bool {
        true
    }

    open spec fn probability_spec(&self) -> Probability {
        self.p
    }

    open spec fn probability_settable(&self) -> bool {
        true
    }

    /// An empty series has no value to resample unless the target size is 0.
    open spec fn one_spec(&self, x: Seq<T>, r: Result<Seq<T>, AugmentError>) -> bool {
        if x.len() == 0 && self.size > 0 {
            r matches Err(AugmentError::SeriesTooShort { augmenter }) && augmenter@ == self.name@
        } else {
            r == Ok::<Seq<T>, AugmentError>(resized(x, self.size as nat))
        }
    }

    open spec fn batch_spec(
        &self,
        old: DatasetView<T>,
        new: DatasetView<T>,
        per_sample: bool,
        r: Result<(), AugmentError>,
    ) -> bool {
        gated_batch_spec(
            |x: Seq<T>, o: Result<Seq<T>, AugmentError>| self.one_spec(x, o),
            self.p,
            old,
            new,
            r,
        )
    }

    fn get_name(&self) -> (r: String) {
        self.name.clone()
    }

    fn supports_per_sample(&self) -> (r: bool) {
        true
    }

    fn get_probability(&self) -> (r: Probability) {
        self.p
    }

    fn set_probability(&mut self, p: Probability) -> (r: Result<(), AugmentError>) {
        self.p = p;
        Ok(())
    }

    fn augment_one(&self, x: &[T]) -> (r: Result<Vec<T>, AugmentError>) {
        if x.len() == 0 && self.size > 0 {
            Err(AugmentError::SeriesTooShort { augmenter: self.name.clone() })
        } else {
            Ok(Resize::resample(x, self.size))
        }
    }

    fn augment_batch(&self, data: &mut Dataset<T>, per_sample: bool) -> (r: Result<(), AugmentError>) {
        self.gated_batch(data)
    }
}

} // verus!
