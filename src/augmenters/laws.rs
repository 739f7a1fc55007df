//! Laws over the outcomes of the augmenters' calls.
use vstd::prelude::*;
use crate::dataset::DatasetView;
use crate::error::AugmentError;
use super::base::Augmenter;
use super::crop::Crop;
use super::drop::Drop;
use super::frequency_mask::{FrequencyMask, lemma_mask_len};
use super::permutate::{Permutate, lemma_permutation_len};
use super::repeat::{Repeat, lemma_repeat_aligned};
use super::resize::Resize;
use super::reverse::{Reverse, lemma_reverse_involution};

verus! {

/// Reversing, masking, permutating and dropping keep the length of a series.
pub proof fn lemma_length_preserved<T: Copy + Default + Sync>(
    reverse: &Reverse,
    mask: &FrequencyMask,
    permutate: &Permutate,
    drop: &Drop<T>,
    x: Seq<T>,
    y: Seq<T>,
)
    requires
        x.len() <= usize::MAX,
    ensures
        <Reverse as Augmenter<T>>::one_spec(reverse, x, Ok(y)) ==> y.len() == x.len(),
        <FrequencyMask as Augmenter<T>>::one_spec(mask, x, Ok(y)) ==> y.len() == x.len(),
        <Permutate as Augmenter<T>>::one_spec(permutate, x, Ok(y)) ==> y.len() == x.len(),
        <Drop<T> as Augmenter<T>>::one_spec(drop, x, Ok(y)) ==> y.len() == x.len(),
{
    if <FrequencyMask as Augmenter<T>>::one_spec(mask, x, Ok(y)) {
        let z = choose|z: T|
            call_ensures(T::default, (), z) && #[trigger] super::frequency_mask::is_mask_of(
                x,
                mask.mask_width as int,
                z,
                y,
            );
        lemma_mask_len(x, mask.mask_width as int, z, y);
    }
    if <Permutate as Augmenter<T>>::one_spec(permutate, x, Ok(y)) {
        lemma_permutation_len(x, permutate.window_size as int, permutate.segment_size as int, y);
    }
}

/// `Crop::new(k)` gives `min(k, len(x))` values and `Resize::new(k)` exactly
/// `k` (for a series that is not empty).
pub proof fn lemma_shape_changes<T: Copy>(crop: &Crop, resize: &Resize, x: Seq<T>, y: Seq<T>)
    ensures
        <Crop as Augmenter<T>>::one_spec(crop, x, Ok(y)) ==> y.len() == if x.len() <= crop.size {
            x.len()
        } else {
            crop.size as nat
        },
        <Resize as Augmenter<T>>::one_spec(resize, x, Ok(y)) ==> y.len() == resize.size,
{
}

/// A batch call of `Repeat::new(n)` on a dataset of `s` labelled rows gives
/// `s * n` rows, row `j` being row `j % s` with its label.
pub proof fn lemma_repeat_batch<T: Copy>(
    repeat: &Repeat,
    old: DatasetView<T>,
    new: DatasetView<T>,
    per_sample: bool,
    r: Result<(), AugmentError>,
)
    requires
        old.wf(),
        <Repeat as Augmenter<T>>::batch_spec(repeat, old, new, per_sample, r),
    ensures
        r is Ok,
        new.wf(),
        new.samples.len() == old.samples.len() * repeat.n,
        forall|j: int|
            0 <= j < new.samples.len() ==> #[trigger] new.samples[j] == old.samples[j
                % (old.samples.len() as int)] && new.labels[j] == old.labels[j % (
            old.samples.len() as int)],
{
    lemma_repeat_aligned(old, repeat.n as nat);
}

/// Reversing the result of reversing gives the series back.
pub proof fn lemma_reverse_twice<T: Copy>(reverse: &Reverse, x: Seq<T>, y: Seq<T>, z: Seq<T>)
    requires
        <Reverse as Augmenter<T>>::one_spec(reverse, x, Ok(y)),
        <Reverse as Augmenter<T>>::one_spec(reverse, y, Ok(z)),
    ensures
        z == x,
{
    lemma_reverse_involution(x);
}

} // verus!
