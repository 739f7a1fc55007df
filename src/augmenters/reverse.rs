use vstd::prelude::*;
use crate::dataset::{Dataset, DatasetView};
use crate::error::AugmentError;
use crate::probability::Probability;
use super::base::{Augmenter, name_of, gated_batch_spec, one_view};

verus! {

/// `x` read back to front.
pub open spec fn reversed<T>(x: Seq<T>) -> Seq<T> {
    Seq::new(x.len(), |i: int| x[x.len() - 1 - i])
}

/// Reverses each series: `[1, 2, 3]` becomes `[3, 2, 1]`.
pub struct Reverse {
    pub name: String,
    pub p: Probability,
}

impl Reverse {
    pub fn new() -> (r: Self)
        ensures
            r.name@ == "Reverse"@,
            r.p == Probability::certain(),
    {
        Reverse { name: name_of("Reverse"), p: Probability::always() }
    }

    /// `x` read back to front.
    pub fn reverse<T: Copy>(x: &[T]) -> (r: Vec<T>)
        ensures
            r@ == reversed(x@),
    {
        let n = x.len();
        let mut r: Vec<T> = Vec::with_capacity(n);
        let mut i: usize = 0;
        while i < n
            invariant
                n == x@.len(),
                i <= n,
                r@ =~= reversed(x@).subrange(0, i as int),
            decreases n - i,
        {
            r.push(x[n - 1 - i]);
            i += 1;
            assert(r@ =~= reversed(x@).subrange(0, i as int));
        }
        assert(reversed(x@).subrange(0, n as int) =~= reversed(x@));
        r
    }
}

/// Reversing a series twice gives it back.
pub proof fn lemma_reverse_involution<T>(x: Seq<T>)
    ensures
        reversed(reversed(x)) == x,
{
    assert(reversed(reversed(x)) =~= x);
}

/// Reversing keeps the length.
pub proof fn lemma_reverse_len<T>(x: Seq<T>)
    ensures
        reversed(x).len() == x.len(),
{
}

impl<T: Copy> Augmenter<T> for Reverse {
    open spec fn name_spec(&self) -> Seq<char> {
        self.name@
    }

    open spec fn per_sample_spec(&self) -> bool {
        true
    }

    open spec fn probability_spec(&self) -> Probability {
        self.p
    }

    open spec fn probability_settable(&self) -> bool {
        true
    }

    open spec fn one_spec(&self, x: Seq<T>, r: Result<Seq<T>, AugmentError>) -> bool {
        r == Ok::<Seq<T>, AugmentError>(reversed(x))
    }

    open spec fn batch_spec(
        &self,
        old: DatasetView<T>,
        new: DatasetView<T>,
        per_sample: bool,
        r: Result<(), AugmentError>,
    ) -> bool {
        gated_batch_spec(
            |x: Seq<T>, o: Result<Seq<T>, AugmentError>| self.one_spec(x, o),
            self.p,
            old,
            new,
            r,
        )
    }

    fn get_name(&self) -> (r: String) {
        self.name.clone()
    }

    fn supports_per_sample(&self) -> (r: bool) {
        true
    }

    fn get_probability(&self) -> (r: Probability) {
        self.p
    }

    fn set_probability(&mut self, p: Probability) -> (r: Result<(), AugmentError>) {
        self.p = p;
        Ok(())
    }

    fn augment_one(&self, x: &[T]) -> (r: Result<Vec<T>, AugmentError>) {
        Ok(Reverse::reverse(x))
    }

    fn augment_batch(&self, data: &mut Dataset<T>, per_sample: bool) -> (r: Result<(), AugmentError>) {
        self.gated_batch(data)
    }
}

} // verus!
