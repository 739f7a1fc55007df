use vstd::prelude::*;
use crate::dataset::{Dataset, DatasetView};
use crate::error::{AugmentError, Operation};
use crate::probability::Probability;
use vstd::slice::slice_to_vec;

verus! {

/// What `augment_one` hands back, with the series seen as a sequence.
pub open spec fn one_view<T>(r: Result<Vec<T>, AugmentError>) -> Result<Seq<T>, AugmentError> {
    match r {
        Ok(v) => Ok(v@),
        Err(e) => Err(e),
    }
}

/// The contract that every augmenter meets.
///
/// Each augmenter states its behaviour in the spec functions. Transforms
/// written outside the library implement `Transform` instead and join
/// pipelines through `Custom`.
///
/// `augment_one` transforms one series unconditionally; `augment_batch`
/// transforms a whole dataset, each sample with the augmenter's probability
/// unless the augmenter says otherwise.
pub trait Augmenter<T: Copy>: Sync {
    /// The name under which errors report this augmenter.
    spec fn name_spec(&self) -> Seq<char>;

    /// Whether the augmenter can be chained per sample in a pipeline.
    spec fn per_sample_spec(&self) -> bool;

    /// The chance with which a batch call transforms each sample.
    spec fn probability_spec(&self) -> Probability;

    /// Whether `set_probability` is offered; augmenters that must transform
    /// every sample refuse it.
    spec fn probability_settable(&self) -> bool;

    /// Whether `r` is a possible outcome of `augment_one` on the series `x`.
    spec fn one_spec(&self, x: Seq<T>, r: Result<Seq<T>, AugmentError>) -> bool;

    /// Whether the dataset `new`, with the result `r`, is a possible outcome of
    /// `augment_batch` on the dataset `old` in the mode `per_sample`.
    spec fn batch_spec(
        &self,
        old: DatasetView<T>,
        new: DatasetView<T>,
        per_sample: bool,
        r: Result<(), AugmentError>,
    ) -> bool;

    fn get_name(&self) -> (r: String)
        ensures
            r@ == self.name_spec(),
    ;

    fn supports_per_sample(&self) -> (r: bool)
        ensures
            r == self.per_sample_spec(),
    ;

    fn get_probability(&self) -> (r: Probability)
        ensures
            r == self.probability_spec(),
    ;

    /// Sets the chance with which a batch call transforms each sample; refused
    /// by augmenters that must transform every sample.
    fn set_probability(&mut self, p: Probability) -> (r: Result<(), AugmentError>)
        ensures
            old(self).probability_settable() ==> r is Ok,
            !old(self).probability_settable() ==> (r matches Err(
                AugmentError::Unsupported { augmenter, operation },
            ) && augmenter@ == old(self).name_spec() && operation == Operation::SetProbability),
            r is Ok ==> final(self).probability_spec() == p,
            r is Err ==> final(self).probability_spec() == old(self).probability_spec(),
            final(self).name_spec() == old(self).name_spec(),
            final(self).per_sample_spec() == old(self).per_sample_spec(),
            final(self).probability_settable() == old(self).probability_settable(),
            forall|x: Seq<T>, o: Result<Seq<T>, AugmentError>|
                #[trigger] final(self).one_spec(x, o) == old(self).one_spec(x, o),
    ;

    /// Transforms one series, whatever the probability.
    fn augment_one(&self, x: &[T]) -> (r: Result<Vec<T>, AugmentError>)
        ensures
            self.one_spec(x@, one_view(r)),
    ;

    /// Transforms a dataset in place.
    fn augment_batch(&self, data: &mut Dataset<T>, per_sample: bool) -> (r: Result<(), AugmentError>)
        ensures
            self.batch_spec(old(data)@, final(data)@, per_sample, r),
    ;

    /// The usual batch call: each sample, with the augmenter's probability,
    /// replaced by the result of `augment_one`; stops at the first failure.
    fn gated_batch(&self, data: &mut Dataset<T>) -> (r: Result<(), AugmentError>)
        ensures
            gated_batch_spec(
                |x: Seq<T>, o: Result<Seq<T>, AugmentError>| self.one_spec(x, o),
                self.probability_spec(),
                old(data)@,
                final(data)@,
                r,
            ),
    {
        let ghost start = data@;
        let p = self.get_probability();
        let n = data.features.len();
        let mut i: usize = 0;
        while i < n
            invariant
                p == self.probability_spec(),
                start == old(data)@,
                n == start.samples.len(),
                data.labels@ == start.labels,
                data.features@.len() == n,
                forall|k: int|
                    #![trigger data.features@[k]]
                    0 <= k < i ==> gated_spec(
                        |x: Seq<T>, o: Result<Seq<T>, AugmentError>| self.one_spec(x, o),
                        p,
                        start.samples[k],
                        data.features@[k]@,
                    ),
                forall|k: int| i <= k < n ==> #[trigger] data.features@[k]@ == start.samples[k],
            decreases n - i,
        {
            if p.draw() {
                let r = self.augment_one(data.features[i].as_slice());
                match r {
                    Ok(v) => {
                        data.features.set(i, v);
                    },
                    Err(e) => {
                        proof {
                            let one = |x: Seq<T>, o: Result<Seq<T>, AugmentError>| self.one_spec(x, o);
                            assert(one(start.samples[i as int], Err(e)));
                            assert(data@.samples =~= data.features@.map_values(|v: Vec<T>| v@));
                        }
                        return Err(e);
                    },
                }
            }
            i += 1;
        }
        proof {
            assert forall|k: int|
                #![trigger data@.samples[k]]
                0 <= k < n implies gated_spec(
                |x: Seq<T>, o: Result<Seq<T>, AugmentError>| self.one_spec(x, o),
                p,
                start.samples[k],
                data@.samples[k],
            ) by {
                assert(data@.samples[k] == data.features@[k]@);
            }
        }
        Ok(())
    }
}

/// One gated step on one series: with the augmenter's probability, the result
/// of `augment_one`, else the series unchanged.
pub fn gated_sample<T: Copy, A: Augmenter<T> + ?Sized>(aug: &A, x: &[T]) -> (r: Result<Vec<T>, AugmentError>)
    ensures
        r matches Ok(y) ==> gated_spec(
            |x: Seq<T>, o: Result<Seq<T>, AugmentError>| aug.one_spec(x, o),
            aug.probability_spec(),
            x@,
            y@,
        ),
        r matches Err(e) ==> aug.one_spec(x@, Err(e)) && !aug.probability_spec().is_never(),
{
    let p = aug.get_probability();
    if p.draw() {
        aug.augment_one(x)
    } else {
        Ok(slice_to_vec(x))
    }
}

/// An owned copy of the name `s`.
pub fn name_of(s: &str) -> (r: String)
    ensures
        r@ == s@,
{
    let r = s.to_string();
    proof {
        vstd::string::to_string_from_display_ensures_for_str(s, r);
    }
    r
}

/// The values `x[lo..hi]`, copied.
pub fn copy_range<T: Copy>(x: &[T], lo: usize, hi: usize) -> (r: Vec<T>)
    requires
        lo <= hi <= x@.len(),
    ensures
        r@ == x@.subrange(lo as int, hi as int),
{
    let mut r: Vec<T> = Vec::with_capacity(hi - lo);
    let mut i: usize = lo;
    while i < hi
        invariant
            lo <= i <= hi <= x@.len(),
            r@ == x@.subrange(lo as int, i as int),
        decreases hi - i,
    {
        r.push(x[i]);
        i += 1;
        assert(r@ =~= x@.subrange(lo as int, i as int));
    }
    r
}

/// One gated step of an augmenter whose outcomes are `one` and whose
/// probability is `p`: `y` is `x` left as it was (possible unless `p` is 1)
/// or an outcome of the transform (possible unless `p` is 0).
pub open spec fn gated_spec<T>(
    one: spec_fn(Seq<T>, Result<Seq<T>, AugmentError>) -> bool,
    p: Probability,
    x: Seq<T>,
    y: Seq<T>,
) -> bool {
    ||| (y == x && !p.is_certain())
    ||| (one(x, Ok(y)) && !p.is_never())
}

/// The outcomes of the usual batch call of an augmenter whose outcomes are
/// `one` and whose probability is `p`: labels and the number of samples are
/// kept; on success each sample went through one gated step; a failure is the
/// failure of the transform on some sample.
pub open spec fn gated_batch_spec<T>(
    one: spec_fn(Seq<T>, Result<Seq<T>, AugmentError>) -> bool,
    p: Probability,
    old: DatasetView<T>,
    new: DatasetView<T>,
    r: Result<(), AugmentError>,
) -> bool {
    &&& new.labels == old.labels
    &&& new.samples.len() == old.samples.len()
    &&& match r {
        Ok(_) => forall|k: int|
            0 <= k < old.samples.len() ==> #[trigger] gated_spec(
                one,
                p,
                old.samples[k],
                new.samples[k],
            ),
        Err(e) => exists|k: int|
            0 <= k < old.samples.len() && #[trigger] one(old.samples[k], Err(e)) && !p.is_never(),
    }
}

} // verus!
