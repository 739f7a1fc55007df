//! Where a time warp applies: the choice of the window of a series that is
//! resampled, and the copy of the resampled values back into that window.
//! The resampling itself (linear interpolation at warped times) is
//! arithmetic on the values and is done by the caller.
use vstd::prelude::*;
use crate::random::random_index;
use super::base::copy_range;

verus! {

/// The inclusive window `[start, end]` that a random time warp resamples in a
/// series of `len` values: the whole series when `window_size` is 0 or not
/// below `len`, else `window_size + 1` values from a random start.
pub fn warp_window(len: usize, window_size: usize) -> (r: (usize, usize))
    requires
        len > 0,
    ensures
        r.0 <= r.1 < len,
        window_size == 0 || window_size >= len ==> r == (0usize, (len - 1) as usize),
        0 < window_size < len ==> r.1 == r.0 + window_size,
{
    if window_size == 0 || window_size >= len {
        (0, len - 1)
    } else {
        let start = random_index(0, len - window_size);
        (start, start + window_size)
    }
}

/// The half-open window `[start, start + width)` that a windowed warp
/// resamples in a series of `len` values: a random start among those at which
/// `window_size` values fit, or the whole series when they do not.
pub fn fitting_window(len: usize, window_size: usize) -> (r: (usize, usize))
    ensures
        r.0 + r.1 <= len,
        window_size >= len ==> r == (0usize, len),
        window_size < len ==> r.1 == window_size,
{
    if window_size >= len {
        (0, len)
    } else if window_size == 0 {
        (0, 0)
    } else {
        let start = random_index(0, len - window_size + 1);
        (start, window_size)
    }
}

/// `series` with the values from `start` on replaced by `window`; the length
/// is kept.
pub fn splice<T: Copy>(series: &[T], start: usize, window: &[T]) -> (r: Vec<T>)
    requires
        start + window@.len() <= series@.len(),
    ensures
        r@ == series@.subrange(0, start as int) + window@ + series@.subrange(
            start + window@.len(),
            series@.len() as int,
        ),
        r@.len() == series@.len(),
{
    let n = series.len();
    let mut r = copy_range(series, 0, start);
    let mut i: usize = 0;
    while i < window.len()
        invariant
            i <= window@.len(),
            start + window@.len() <= series@.len(),
            r@ == series@.subrange(0, start as int) + window@.subrange(0, i as int),
        decreases window@.len() - i,
    {
        r.push(window[i]);
        i += 1;
        assert(r@ =~= series@.subrange(0, start as int) + window@.subrange(0, i as int));
    }
    let tail = copy_range(series, start + window.len(), n);
    let mut k: usize = 0;
    while k < tail.len()
        invariant
            k <= tail@.len(),
            r@ == series@.subrange(0, start as int) + window@ + tail@.subrange(0, k as int),
        decreases tail@.len() - k,
    {
        r.push(tail[k]);
        k += 1;
        assert(r@ =~= series@.subrange(0, start as int) + window@ + tail@.subrange(0, k as int));
    }
    assert(window@.subrange(0, window@.len() as int) =~= window@);
    assert(tail@.subrange(0, tail@.len() as int) =~= tail@);
    r
}

} // verus!
