use vstd::prelude::*;
use crate::dataset::{Dataset, DatasetView};
use crate::error::AugmentError;
use crate::probability::Probability;
use super::base::{Augmenter, name_of, gated_batch_spec, one_view};

verus! {

/// `y` is `x` with some values replaced by `fill`: each value is kept
/// (possible unless `rate` is 1) or replaced (possible unless `rate` is 0).
pub open spec fn is_drop_of<T>(x: Seq<T>, fill: T, rate: Probability, y: Seq<T>) -> bool {
    &&& y.len() == x.len()
    &&& forall|i: int|
        0 <= i < x.len() ==> #[trigger] y[i] == x[i] && !rate.is_certain() || y[i] == fill
            && !rate.is_never()
}

/// Drops values of each series: each one is replaced by `default` with chance
/// `percentage`.
pub struct Drop<T> {
    pub name: String,
    pub percentage: Probability,
    pub default: T,
    pub p: Probability,
}

impl<T: Copy + Default> Drop<T> {
    /// Creates a new drop augmenter; without a `default`, dropped values become
    /// the element type's default (zero for numbers).
    pub fn new(percentage: Probability, default: Option<T>) -> (r: Self)
        ensures
            r.name@ == "Drop"@,
            r.percentage == percentage,
            r.p == Probability::certain(),
            default matches Some(d) ==> r.default == d,
            default is None ==> call_ensures(T::default, (), r.default),
    {
        let default = match default {
            Some(d) => d,
            None => T::default(),
        };
        Drop { name: name_of("Drop"), percentage, default, p: Probability::always() }
    }
}

impl<T: Copy> Drop<T> {
    /// `x` with each value replaced by `default` with chance `percentage`.
    pub fn drop_values(&self, x: &[T]) -> (r: Vec<T>)
        ensures
            is_drop_of(x@, self.default, self.percentage, r@),
    {
        let n = x.len();
        let mut r: Vec<T> = Vec::with_capacity(n);
        let mut i: usize = 0;
        while i < n
            invariant
                n == x@.len(),
                i <= n,
                r@.len() == i,
                forall|k: int|
                    0 <= k < i ==> #[trigger] r@[k] == x@[k] && !self.percentage.is_certain()
                        || r@[k] == self.default && !self.percentage.is_never(),
            decreases n - i,
        {
            if self.percentage.draw() {
                r.push(self.default);
            } else {
                r.push(x[i]);
            }
            i += 1;
        }
        r
    }
}

impl<T: Copy + Sync> Augmenter<T> for Drop<T> {
    open spec fn name_spec(&self) -> Seq<char> {
        self.name@
    }

    open spec fn per_sample_spec(&self) -> bool {
        true
    }

    open spec fn probability_spec(&self) -> Probability {
        self.p
    }

    open spec fn probability_settable(&self) -> bool {
        true
    }

    open spec fn one_spec(&self, x: Seq<T>, r: Result<Seq<T>, AugmentError>) -> bool {
        r matches Ok(y) && is_drop_of(x, self.default, self.percentage, y)
    }

    open spec fn batch_spec(
        &self,
        old: DatasetView<T>,
        new: DatasetView<T>,
        per_sample: bool,
        r: Result<(), AugmentError>,
    ) -> bool {
        gated_batch_spec(
            |x: Seq<T>, o: Result<Seq<T>, AugmentError>| self.one_spec(x, o),
            self.p,
            old,
            new,
            r,
        )
    }

    fn get_name(&self) -> (r: String) {
        self.name.clone()
    }

    fn supports_per_sample(&self) -> (r: bool) {
        true
    }

    fn get_probability(&self) -> (r: Probability) {
        self.p
    }

    fn set_probability(&mut self, p: Probability) -> (r: Result<(), AugmentError>) {
        self.p = p;
        Ok(())
    }

    fn augment_one(&self, x: &[T]) -> (r: Result<Vec<T>, AugmentError>) {
        Ok(self.drop_values(x))
    }

    fn augment_batch(&self, data: &mut Dataset<T>, per_sample: bool) -> (r: Result<(), AugmentError>) {
        self.gated_batch(data)
    }
}

} // verus!
