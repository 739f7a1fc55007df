use vstd::prelude::*;
use crate::dataset::{Dataset, DatasetView};
use crate::error::AugmentError;
use crate::probability::Probability;
use super::base::{Augmenter, one_view};

verus! {

/// A transform of series supplied from outside the library, such as one that
/// computes on the values. It carries no contract: the library states
/// nothing of its results.
pub trait Transform<T: Copy>: Sync {
    /// The name under which errors report this transform.
    fn name(&self) -> String;

    /// Whether the transform can be chained per sample in a pipeline.
    fn supports_per_sample(&self) -> bool;

    /// Transforms one series.
    fn transform_one(&self, x: &[T]) -> Result<Vec<T>, AugmentError>;

    /// Whether the transform makes its own batch call (`transform_batch`)
    /// rather than the usual gated one.
    fn has_own_batch(&self) -> bool {
        false
    }

    /// Transforms a dataset, each sample with the chance `p`. A transform that
    /// does not make its own batch call implements it with `gated_transform`,
    /// which `Custom` then calls directly.
    fn transform_batch(&self, data: &mut Dataset<T>, p: Probability) -> Result<(), AugmentError>;
}

/// The usual gated batch call of a transform: each sample, when a draw with
/// the chance `p` succeeds, is replaced by the result of `transform_one`;
/// stops at the first failure. Labels and the number of samples are kept
/// whatever the transform returns, and with the chance 0 nothing changes.
pub fn gated_transform<T: Copy, A: Transform<T> + ?Sized>(
    t: &A,
    data: &mut Dataset<T>,
    p: Probability,
) -> (r: Result<(), AugmentError>)
    ensures
        final(data)@.labels == old(data)@.labels,
        final(data)@.samples.len() == old(data)@.samples.len(),
        p.is_never() ==> (r is Ok && final(data)@ == old(data)@),
{
    let ghost start = data@;
    let n = data.features.len();
    let mut i: usize = 0;
    while i < n
        invariant
            start == old(data)@,
            n == start.samples.len(),
            data.labels@ == start.labels,
            data.features@.len() == n,
            p.is_never() ==> data.features@ == old(data).features@,
        decreases n - i,
    {
        if p.draw() {
            let r = t.transform_one(data.features[i].as_slice());
            match r {
                Ok(v) => {
                    data.features.set(i, v);
                },
                Err(e) => {
                    assert(data@.samples.len() == data.features@.len());
                    return Err(e);
                },
            }
        }
        i += 1;
    }
    proof {
        assert(data@.samples.len() == data.features@.len());
        if p.is_never() {
            assert(data@.samples =~= start.samples);
            assert(data@ == start);
        }
    }
    Ok(())
}

/// An augmenter made of a `Transform`: the name, the per-sample flag and
/// whether it makes its own batch call are read once, when it is made; the
/// probability is held here.
pub struct Custom<A> {
    pub inner: A,
    pub name: String,
    pub per_sample: bool,
    pub own_batch: bool,
    pub p: Probability,
}

impl<A> Custom<A> {
    pub fn new<T: Copy>(inner: A) -> (r: Self)
        where
            A: Transform<T>,
        ensures
            r.inner == inner,
            r.p == Probability::certain(),
    {
        let name = inner.name();
        let per_sample = inner.supports_per_sample();
        let own_batch = inner.has_own_batch();
        Custom { inner, name, per_sample, own_batch, p: Probability::always() }
    }
}

impl<T: Copy, A: Transform<T>> Augmenter<T> for Custom<A> {
    open spec fn name_spec(&self) -> Seq<char> {
        self.name@
    }

    open spec fn per_sample_spec(&self) -> bool {
        self.per_sample
    }

    open spec fn probability_spec(&self) -> Probability {
        self.p
    }

    open spec fn probability_settable(&self) -> bool {
        true
    }

    /// Nothing is stated of the results of an outside transform.
    open spec fn one_spec(&self, x: Seq<T>, r: Result<Seq<T>, AugmentError>) -> bool {
        true
    }

    /// Of the usual gated call: labels and the number of samples are kept,
    /// and with the probability 0 nothing changes. Nothing is stated of a
    /// batch call that the transform makes itself.
    open spec fn batch_spec(
        &self,
        old: DatasetView<T>,
        new: DatasetView<T>,
        per_sample: bool,
        r: Result<(), AugmentError>,
    ) -> bool {
        !self.own_batch ==> {
            &&& new.labels == old.labels
            &&& new.samples.len() == old.samples.len()
            &&& self.p.is_never() ==> (r is Ok && new == old)
        }
    }

    fn get_name(&self) -> (r: String) {
        self.name.clone()
    }

    fn supports_per_sample(&self) -> (r: bool) {
        self.per_sample
    }

    fn get_probability(&self) -> (r: Probability) {
        self.p
    }

    fn set_probability(&mut self, p: Probability) -> (r: Result<(), AugmentError>) {
        self.p = p;
        Ok(())
    }

    fn augment_one(&self, x: &[T]) -> (r: Result<Vec<T>, AugmentError>) {
        self.inner.transform_one(x)
    }

    fn augment_batch(&self, data: &mut Dataset<T>, per_sample: bool) -> (r: Result<(), AugmentError>) {
        if self.own_batch {
            self.inner.transform_batch(data, self.p)
        } else {
            gated_transform(&self.inner, data, self.p)
        }
    }
}

} // verus!
