use vstd::prelude::*;
use crate::dataset::{Dataset, DatasetView};
use crate::error::AugmentError;
use crate::probability::Probability;
use crate::random::random_index;
use vstd::slice::slice_to_vec;
use super::base::{Augmenter, name_of, gated_batch_spec, one_view};

verus! {

/// The spectrum `x`, interleaved as `[re0, im0, re1, im1, ...]`, with both
/// parts of the bins `start .. start + width` set to `fill`.
pub open spec fn masked<T>(x: Seq<T>, start: int, width: int, fill: T) -> Seq<T> {
    Seq::new(x.len(), |i: int| if 2 * start <= i < 2 * (start + width) { fill } else { x[i] })
}

/// The centres from which a mask of `width` bins is drawn on a spectrum of
/// `bins` bins: `[width / 2, bins - width / 2)`, empty when the mask cannot fit.
pub open spec fn mask_centres(bins: int, width: int) -> (int, int) {
    (width / 2, bins - width / 2)
}

/// `y` is the spectrum `x` with a block of `width` consecutive bins, centred
/// on a value of `mask_centres`, set to `fill`; or `x` itself when the block
/// cannot fit.
pub open spec fn is_mask_of<T>(x: Seq<T>, width: int, fill: T, y: Seq<T>) -> bool {
    let bins = x.len() / 2;
    let (lo, hi) = mask_centres(bins as int, width);
    if bins < width || hi <= lo {
        y == x
    } else {
        exists|c: int| lo <= c < hi && y == #[trigger] masked(x, c - lo, width, fill)
    }
}

/// Masking keeps the length of a spectrum.
pub proof fn lemma_mask_len<T>(x: Seq<T>, width: int, fill: T, y: Seq<T>)
    requires
        is_mask_of(x, width, fill, y),
    ensures
        y.len() == x.len(),
{
    let bins = x.len() / 2;
    let (lo, hi) = mask_centres(bins as int, width);
    if !(bins < width || hi <= lo) {
        let c = choose|c: int| lo <= c < hi && y == #[trigger] masked(x, c - lo, width, fill);
    }
}

/// `y` is a mask of `x` (see `is_mask_of`) whose bins are set to the default
/// value of `T` (zero for numbers).
pub open spec fn is_default_mask_of<T: Default>(x: Seq<T>, width: int, y: Seq<T>) -> bool {
    exists|z: T| call_ensures(T::default, (), z) && #[trigger] is_mask_of(x, width, z, y)
}

/// Masks a random block of `mask_width` consecutive frequency bins of each
/// spectrum, setting the real and imaginary part of each to zero (the
/// element type's default). Spectra are interleaved as `[re0, im0, re1, im1, ...]`.
pub struct FrequencyMask {
    pub name: String,
    pub mask_width: usize,
    pub p: Probability,
}

impl FrequencyMask {
    pub fn new(mask_width: usize) -> (r: Self)
        ensures
            r.name@ == "FrequencyMask"@,
            r.mask_width == mask_width,
            r.p == Probability::certain(),
    {
        FrequencyMask { name: name_of("FrequencyMask"), mask_width, p: Probability::always() }
    }

    /// `x` with the bins `start .. start + width` set to `fill`.
    pub fn mask_bins<T: Copy>(x: &[T], start: usize, width: usize, fill: T) -> (r: Vec<T>)
        requires
            2 * (start + width) <= x@.len(),
        ensures
            r@ == masked(x@, start as int, width as int, fill),
    {
        let mut r = slice_to_vec(x);
        let n = x.len();
        let end = start + width;
        let mut b: usize = start;
        while b < end
            invariant
                end == start + width,
                n == x@.len(),
                start <= b <= start + width,
                2 * (start + width) <= x@.len(),
                r@.len() == x@.len(),
                forall|i: int|
                    0 <= i < x@.len() ==> #[trigger] r@[i] == if 2 * start <= i < 2 * b {
                        fill
                    } else {
                        x@[i]
                    },
            decreases end - b,
        {
            r.set(2 * b, fill);
            r.set(2 * b + 1, fill);
            b += 1;
        }
        assert(r@ =~= masked(x@, start as int, width as int, fill));
        r
    }

    /// `x` with a random block of `mask_width` bins set to `fill`.
    pub fn mask_random<T: Copy>(&self, x: &[T], fill: T) -> (r: Vec<T>)
        ensures
            is_mask_of(x@, self.mask_width as int, fill, r@),
            r@.len() == x@.len(),
    {
        let bins = x.len() / 2;
        let w = self.mask_width;
        if bins < w || bins - w / 2 <= w / 2 {
            return slice_to_vec(x);
        }
        let c = random_index(w / 2, bins - w / 2);
        let r = FrequencyMask::mask_bins(x, c - w / 2, w, fill);
        assert(r@ == masked(x@, c - w / 2, w as int, fill));
        r
    }
}

impl<T: Copy + Default> Augmenter<T> for FrequencyMask {
    open spec fn name_spec(&self) -> Seq<char> {
        self.name@
    }

    open spec fn per_sample_spec(&self) -> bool {
        true
    }

    open spec fn probability_spec(&self) -> Probability {
        self.p
    }

    open spec fn probability_settable(&self) -> bool {
        true
    }

    open spec fn one_spec(&self, x: Seq<T>, r: Result<Seq<T>, AugmentError>) -> bool {
        r matches Ok(y) && is_default_mask_of(x, self.mask_width as int, y)
    }

    open spec fn batch_spec(
        &self,
        old: DatasetView<T>,
        new: DatasetView<T>,
        per_sample: bool,
        r: Result<(), AugmentError>,
    ) -> bool {
        gated_batch_spec(
            |x: Seq<T>, o: Result<Seq<T>, AugmentError>| self.one_spec(x, o),
            self.p,
            old,
            new,
            r,
        )
    }

    fn get_name(&self) -> (r: String) {
        self.name.clone()
    }

    fn supports_per_sample(&self) -> (r: bool) {
        true
    }

    fn get_probability(&self) -> (r: Probability) {
        self.p
    }

    fn set_probability(&mut self, p: Probability) -> (r: Result<(), AugmentError>) {
        self.p = p;
        Ok(())
    }

    fn augment_one(&self, x: &[T]) -> (r: Result<Vec<T>, AugmentError>) {
        let zero = T::default();
        assert(call_ensures(T::default, (), zero));
        let y = self.mask_random(x, zero);
        assert(is_mask_of(x@, self.mask_width as int, zero, y@));
        assert(is_default_mask_of(x@, self.mask_width as int, y@));
        Ok(y)
    }

    fn augment_batch(&self, data: &mut Dataset<T>, per_sample: bool) -> (r: Result<(), AugmentError>) {
        self.gated_batch(data)
    }
}

} // verus!
