use vstd::prelude::*;
use crate::dataset::{Dataset, DatasetView};
use crate::error::{AugmentError, Operation};
use crate::probability::Probability;
use vstd::slice::slice_to_vec;
use super::base::{Augmenter, name_of, one_view};

verus! {

/// `s` written out `n` times in a row.
pub open spec fn repeated<A>(s: Seq<A>, n: nat) -> Seq<A>
    decreases n,
{
    if n == 0 {
        Seq::empty()
    } else {
        repeated(s, (n - 1) as nat) + s
    }
}

/// `repeated(s, n)` holds `len(s) * n` values, and its value `j` is `s[j % len(s)]`:
/// copy `j / len(s)` of row `j % len(s)`.
pub proof fn lemma_repeated<A>(s: Seq<A>, n: nat)
    ensures
        repeated(s, n).len() == s.len() * n,
        forall|j: int|
            0 <= j < repeated(s, n).len() ==> #[trigger] repeated(s, n)[j] == s[j % (s.len() as int)],
    decreases n,
{
    if n == 0 {
        assert(s.len() * n == 0) by (nonlinear_arith)
            requires
                n == 0,
        ;
    } else {
        lemma_repeated(s, (n - 1) as nat);
        let prev = repeated(s, (n - 1) as nat);
        assert(s.len() * n == s.len() * (n - 1) + s.len()) by (nonlinear_arith)
            requires
                n > 0,
        ;
        assert(repeated(s, n).len() == prev.len() + s.len());
        assert forall|j: int| 0 <= j < repeated(s, n).len() implies #[trigger] repeated(s, n)[j]
            == s[j % (s.len() as int)] by {
            if j >= prev.len() {
                let i = j - prev.len();
                vstd::arithmetic::div_mod::lemma_fundamental_div_mod_converse(
                    j,
                    s.len() as int,
                    (n - 1) as int,
                    i,
                );
            }
        }
    }
}

/// Repeating a dataset whose labels match its rows keeps them matched: the
/// result has `s * n` rows, and row `j` is row `j % s` of the input with
/// that row's label.
pub proof fn lemma_repeat_aligned<T>(old: DatasetView<T>, n: nat)
    requires
        old.wf(),
    ensures
        ({
            let new = DatasetView { samples: repeated(old.samples, n), labels: repeated(old.labels, n) };
            &&& new.wf()
            &&& new.samples.len() == old.samples.len() * n
            &&& forall|j: int|
                0 <= j < new.samples.len() ==> #[trigger] new.samples[j] == old.samples[j
                    % (old.samples.len() as int)] && new.labels[j] == old.labels[j % (
                old.samples.len() as int)]
        }),
{
    lemma_repeated(old.samples, n);
    lemma_repeated(old.labels, n);
}

/// Repeats every row of a dataset `n` times: the dataset of `s` rows becomes
/// `s * n` rows, the given ones followed by `n - 1` copies, each label
/// kept with its row. It works on whole datasets only.
pub struct Repeat {
    pub name: String,
    pub n: usize,
}

impl Repeat {
    pub fn new(times: usize) -> (r: Self)
        requires
            times > 0,
        ensures
            r.name@ == "Repeat"@,
            r.n == times,
    {
        Repeat { name: name_of("Repeat"), n: times }
    }
}

impl<T: Copy> Augmenter<T> for Repeat {
    open spec fn name_spec(&self) -> Seq<char> {
        self.name@
    }

    /// Repeating needs the whole dataset.
    open spec fn per_sample_spec(&self) -> bool {
        false
    }

    open spec fn probability_spec(&self) -> Probability {
        Probability::certain()
    }

    open spec fn probability_settable(&self) -> bool {
        false
    }

    open spec fn one_spec(&self, x: Seq<T>, r: Result<Seq<T>, AugmentError>) -> bool {
        r matches Err(AugmentError::Unsupported { augmenter, operation }) && augmenter@ == self.name@
            && operation == Operation::AugmentOne
    }

    open spec fn batch_spec(
        &self,
        old: DatasetView<T>,
        new: DatasetView<T>,
        per_sample: bool,
        r: Result<(), AugmentError>,
    ) -> bool {
        &&& r is Ok
        &&& new.samples == repeated(old.samples, self.n as nat)
        &&& new.labels == repeated(old.labels, self.n as nat)
    }

    fn get_name(&self) -> (r: String) {
        self.name.clone()
    }

    fn supports_per_sample(&self) -> (r: bool) {
        false
    }

    fn get_probability(&self) -> (r: Probability) {
        Probability::always()
    }

    /// Refused: every row is repeated.
    fn set_probability(&mut self, p: Probability) -> (r: Result<(), AugmentError>) {
        Err(AugmentError::Unsupported { augmenter: self.name.clone(), operation: Operation::SetProbability })
    }

    /// Refused: repeating works on a whole dataset.
    fn augment_one(&self, x: &[T]) -> (r: Result<Vec<T>, AugmentError>) {
        Err(AugmentError::Unsupported { augmenter: self.name.clone(), operation: Operation::AugmentOne })
    }

    fn augment_batch(&self, data: &mut Dataset<T>, per_sample: bool) -> (r: Result<(), AugmentError>) {
        let ghost old_samples = data@.samples;
        let ghost old_labels = data@.labels;
        if self.n == 0 {
            data.features = Vec::new();
            data.labels = Vec::new();
            assert(data@.samples =~= repeated(old_samples, 0));
            assert(data@.labels =~= repeated(old_labels, 0));
            return Ok(());
        }
        let s = data.features.len();
        let l = data.labels.len();
        assert(repeated(old_samples, 1) =~= old_samples) by {
            assert(repeated(old_samples, 0) =~= Seq::<Seq<T>>::empty());
        }
        assert(repeated(old_labels, 1) =~= old_labels) by {
            assert(repeated(old_labels, 0) =~= Seq::<String>::empty());
        }
        let mut rep: usize = 1;
        while rep < self.n
            invariant
                1 <= rep <= self.n,
                s == old_samples.len(),
                l == old_labels.len(),
                data@.samples =~= repeated(old_samples, rep as nat),
                data@.labels =~= repeated(old_labels, rep as nat),
            decreases self.n - rep,
        {
            proof {
                lemma_repeated_prefix(old_samples, rep as nat);
                lemma_repeated_prefix(old_labels, rep as nat);
            }
            let ghost base_samples = data@.samples;
            let ghost base_labels = data@.labels;
            let mut i: usize = 0;
            while i < s
                invariant
                    i <= s == old_samples.len(),
                    base_samples.len() >= s,
                    base_samples.subrange(0, s as int) == old_samples,
                    data@.samples =~= base_samples + old_samples.subrange(0, i as int),
                    data@.labels == base_labels,
                decreases s - i,
            {
                assert(data@.samples.len() == data.features@.len());
                assert(data.features@[i as int]@ == data@.samples[i as int]);
                assert(data@.samples[i as int] == base_samples.subrange(0, s as int)[i as int]);
                let row = slice_to_vec(data.features[i].as_slice());
                assert(row@ == old_samples[i as int]);
                let ghost before = data@.samples;
                data.features.push(row);
                assert(data@.samples =~= before.push(old_samples[i as int]));
                i += 1;
                assert(data@.samples =~= base_samples + old_samples.subrange(0, i as int));
            }
            let mut k: usize = 0;
            while k < l
                invariant
                    k <= l == old_labels.len(),
                    base_labels.len() >= l,
                    base_labels.subrange(0, l as int) == old_labels,
                    data@.labels =~= base_labels + old_labels.subrange(0, k as int),
                    data@.samples =~= base_samples + old_samples,
                decreases l - k,
            {
                assert(data.labels@[k as int] == base_labels.subrange(0, l as int)[k as int]);
                let label = data.labels[k].clone();
                data.labels.push(label);
                k += 1;
                assert(data@.labels =~= base_labels + old_labels.subrange(0, k as int));
            }
            assert(old_samples.subrange(0, s as int) =~= old_samples);
            assert(old_labels.subrange(0, l as int) =~= old_labels);
            rep += 1;
        }
        Ok(())
    }
}

/// For `n >= 1`, `repeated(s, n)` starts with `s`.
proof fn lemma_repeated_prefix<A>(s: Seq<A>, n: nat)
    requires
        n >= 1,
    ensures
        repeated(s, n).len() >= s.len(),
        repeated(s, n).subrange(0, s.len() as int) == s,
    decreases n,
{
    if n == 1 {
        assert(repeated(s, 0) =~= Seq::<A>::empty());
        assert(repeated(s, 1) =~= s);
        assert(repeated(s, n).subrange(0, s.len() as int) =~= s);
    } else {
        lemma_repeated_prefix(s, (n - 1) as nat);
        let prev = repeated(s, (n - 1) as nat);
        assert(repeated(s, n).subrange(0, s.len() as int) =~= prev.subrange(0, s.len() as int));
    }
}

} // verus!
