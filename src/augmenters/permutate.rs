use vstd::prelude::*;
use crate::dataset::{Dataset, DatasetView};
use crate::error::AugmentError;
use crate::probability::Probability;
use crate::random::shuffle;
use super::base::{Augmenter, name_of, copy_range, gated_batch_spec, one_view};

verus! {

/// Chunk `b` of `x` cut in pieces of `size` values: `x[b * size ..]`, at most
/// `size` values of it.
pub open spec fn chunk<T>(x: Seq<T>, size: int, b: int) -> Seq<T> {
    let lo = b * size;
    x.subrange(lo, if lo + size <= x.len() { lo + size } else { x.len() as int })
}

/// `k` chunks of `size` values cover `len` values, and `k - 1` do not.
pub open spec fn chunk_count(k: int, size: int, len: int) -> bool {
    &&& 0 <= k
    &&& k * size >= len
    &&& k == 0 || (k - 1) * size < len
}

/// The chunks of `x` named by `order`, one after the other.
pub open spec fn gather_chunks<T>(x: Seq<T>, size: int, order: Seq<usize>) -> Seq<T>
    decreases order.len(),
{
    if order.len() == 0 {
        Seq::empty()
    } else {
        gather_chunks(x, size, order.drop_last()) + chunk(x, size, order.last() as int)
    }
}

/// `order` lists each of `0 .. k` once.
pub open spec fn is_order(order: Seq<usize>, k: int) -> bool {
    &&& order.len() == k
    &&& order.to_multiset() == Seq::new(k as nat, |i: int| i as usize).to_multiset()
}

/// The windows of `window` values of `x`, in turn, each with its segments of
/// `segment` values rearranged as `orders` says.
pub open spec fn permuted<T>(x: Seq<T>, window: int, segment: int, orders: Seq<Seq<usize>>) -> Seq<T>
    decreases orders.len(),
{
    if orders.len() == 0 {
        Seq::empty()
    } else {
        let a = orders.len() - 1;
        permuted(x, window, segment, orders.drop_last()) + gather_chunks(
            chunk(x, window, a),
            segment,
            orders.last(),
        )
    }
}

/// `y` is `x` cut in windows of `window` values, each cut in segments of
/// `segment` values that are put back in an order drawn for that window.
pub open spec fn is_permutation_of<T>(x: Seq<T>, window: int, segment: int, y: Seq<T>) -> bool {
    exists|orders: Seq<Seq<usize>>|
        #[trigger] permuted(x, window, segment, orders) == y && chunk_count(
            orders.len() as int,
            window,
            x.len() as int,
        ) && forall|a: int|
            0 <= a < orders.len() ==> is_order(
                #[trigger] orders[a],
                (orders[a].len()) as int,
            ) && chunk_count(orders[a].len() as int, segment, chunk(x, window, a).len() as int)
}

/// Cuts each series into windows of `window_size` values, cuts each window
/// into segments of `segment_size` values, and puts each window's segments
/// back in a random order.
pub struct Permutate {
    pub name: String,
    pub window_size: usize,
    pub segment_size: usize,
    pub p: Probability,
}

/// For `size > 0`, the number of chunks of `size` values that cover `len`.
fn count_chunks(len: usize, size: usize) -> (k: usize)
    requires
        size > 0,
    ensures
        chunk_count(k as int, size as int, len as int),
        k <= len,
{
    let q = len / size;
    let r = len % size;
    proof {
        vstd::arithmetic::div_mod::lemma_fundamental_div_mod(len as int, size as int);
        let qi = q as int;
        let ri = r as int;
        let si = size as int;
        let li = len as int;
        assert(qi * si + ri == li) by (nonlinear_arith)
            requires
                li == si * qi + ri,
        ;
        assert((qi + 1) * si == qi * si + si) by (nonlinear_arith);
        assert((qi - 1) * si == qi * si - si) by (nonlinear_arith);
        assert(qi <= qi * si) by (nonlinear_arith)
            requires
                si >= 1,
                qi >= 0,
        ;
    }
    if r == 0 {
        q
    } else {
        q + 1
    }
}

impl Permutate {
    /// Creates a new permutate augmenter.
    pub fn new(window_size: usize, segment_size: usize) -> (r: Self)
        ensures
            r.name@ == "Permutate"@,
            r.window_size == window_size,
            r.segment_size == segment_size,
            r.p == Probability::certain(),
    {
        Permutate { name: name_of("Permutate"), window_size, segment_size, p: Probability::always() }
    }

    /// The window `w` with its segments of `size` values put in a random order.
    fn permute_window<T: Copy>(w: &[T], size: usize) -> (r: (Vec<T>, Ghost<Seq<usize>>))
        requires
            size > 0,
        ensures
            r.0@ == gather_chunks(w@, size as int, r.1@),
            is_order(r.1@, r.1@.len() as int),
            chunk_count(r.1@.len() as int, size as int, w@.len() as int),
    {
        let wl = w.len();
        let k = count_chunks(wl, size);
        let mut ids: Vec<usize> = Vec::with_capacity(k);
        let mut i: usize = 0;
        while i < k
            invariant
                i <= k,
                ids@ =~= Seq::new(i as nat, |j: int| j as usize),
            decreases k - i,
        {
            ids.push(i);
            i += 1;
        }
        shuffle(&mut ids);
        let ghost range = Seq::new(k as nat, |j: int| j as usize);
        let mut out: Vec<T> = Vec::new();
        let mut t: usize = 0;
        while t < ids.len()
            invariant
                t <= ids@.len() == k,
                k <= wl == w@.len(),
                size > 0,
                range == Seq::new(k as nat, |j: int| j as usize),
                ids@.to_multiset() == range.to_multiset(),
                chunk_count(k as int, size as int, wl as int),
                out@ == gather_chunks(w@, size as int, ids@.subrange(0, t as int)),
            decreases ids@.len() - t,
        {
            let id = ids[t];
            proof {
                ids@.to_multiset_ensures();
                range.to_multiset_ensures();
                assert(ids@.contains(id));
                assert(ids@.to_multiset().count(id) > 0);
                assert(range.to_multiset().count(id) > 0);
                assert(range.contains(id));
                let j = choose|j: int| 0 <= j < range.len() && range[j] == id;
                assert(id < k);
                assert((id as int) * (size as int) <= ((k - 1) as int) * (size as int)) by (nonlinear_arith)
                    requires
                        id <= k - 1,
                        size > 0,
                ;
            }
            let lo = id * size;
            let hi = if size <= wl - lo {
                lo + size
            } else {
                wl
            };
            let piece = copy_range(w, lo, hi);
            append(&mut out, &piece);
            proof {
                let next = ids@.subrange(0, t + 1);
                assert(next.drop_last() =~= ids@.subrange(0, t as int));
                assert(next.last() == id);
                assert(piece@ == chunk(w@, size as int, id as int));
            }
            t += 1;
        }
        assert(ids@.subrange(0, k as int) =~= ids@);
        (out, Ghost(ids@))
    }
}

/// Appends `piece` to `out`.
fn append<T: Copy>(out: &mut Vec<T>, piece: &Vec<T>)
    ensures
        final(out)@ == old(out)@ + piece@,
{
    let mut i: usize = 0;
    while i < piece.len()
        invariant
            i <= piece@.len(),
            out@ == old(out)@ + piece@.subrange(0, i as int),
        decreases piece@.len() - i,
    {
        out.push(piece[i]);
        i += 1;
        assert(out@ =~= old(out)@ + piece@.subrange(0, i as int));
    }
    assert(piece@.subrange(0, piece@.len() as int) =~= piece@);
}

impl Permutate {
    /// The series cut in windows whose segments are each put in a random
    /// order; refused when a window or a segment would be empty.
    pub fn permute<T: Copy>(&self, x: &[T]) -> (r: Result<Vec<T>, AugmentError>)
        ensures
            self.window_size == 0 || self.segment_size == 0 ==> (r matches Err(
                AugmentError::InvalidParameters { augmenter },
            ) && augmenter@ == self.name@),
            self.window_size > 0 && self.segment_size > 0 ==> (r matches Ok(y) && is_permutation_of(
                x@,
                self.window_size as int,
                self.segment_size as int,
                y@,
            ) && y@.len() == x@.len()),
    {
        let ww = self.window_size;
        let ss = self.segment_size;
        if ww == 0 || ss == 0 {
            return Err(AugmentError::InvalidParameters { augmenter: self.name.clone() });
        }
        let n = x.len();
        let mut res: Vec<T> = Vec::new();
        let ghost mut orders: Seq<Seq<usize>> = Seq::empty();
        let ghost mut a: int = 0;
        let mut start: usize = 0;
        while start < n
            invariant
                ww > 0,
                ss > 0,
                ww == self.window_size,
                ss == self.segment_size,
                n == x@.len(),
                start <= n,
                a >= 0,
                orders.len() == a,
                start < n ==> start == a * ww,
                a * ww >= start,
                a == 0 || (a - 1) * ww < n,
                res@ == permuted(x@, ww as int, ss as int, orders),
                forall|b: int|
                    0 <= b < orders.len() ==> is_order(#[trigger] orders[b], (orders[b].len()) as int)
                        && chunk_count(orders[b].len() as int, ss as int, chunk(x@, ww as int, b).len() as int),
            decreases n - start,
        {
            let end = if ww <= n - start {
                start + ww
            } else {
                n
            };
            let w = copy_range(x, start, end);
            assert(w@ == chunk(x@, ww as int, a));
            let (piece, ord) = Permutate::permute_window(w.as_slice(), ss);
            append(&mut res, &piece);
            proof {
                let next = orders.push(ord@);
                assert(next.drop_last() =~= orders);
                assert(permuted(x@, ww as int, ss as int, next) == res@);
                assert forall|b: int|
                    0 <= b < next.len() implies is_order(#[trigger] next[b], (next[b].len()) as int)
                        && chunk_count(next[b].len() as int, ss as int, chunk(x@, ww as int, b).len() as int) by {
                    if b < orders.len() {
                        assert(next[b] == orders[b]);
                    }
                }
                assert((a + 1) * ww == a * ww + ww) by (nonlinear_arith);
                orders = next;
                a = a + 1;
            }
            start = end;
        }
        assert(chunk_count(orders.len() as int, ww as int, n as int));
        proof {
            lemma_permutation_len(x@, ww as int, ss as int, res@);
        }
        Ok(res)
    }
}

impl<T: Copy> Augmenter<T> for Permutate {
    open spec fn name_spec(&self) -> Seq<char> {
        self.name@
    }

    open spec fn per_sample_spec(&self) -> bool {
        true
    }

    open spec fn probability_spec(&self) -> Probability {
        self.p
    }

    open spec fn probability_settable(&self) -> bool {
        true
    }

    open spec fn one_spec(&self, x: Seq<T>, r: Result<Seq<T>, AugmentError>) -> bool {
        if self.window_size == 0 || self.segment_size == 0 {
            r matches Err(AugmentError::InvalidParameters { augmenter }) && augmenter@ == self.name@
        } else {
            r matches Ok(y) && is_permutation_of(x, self.window_size as int, self.segment_size as int, y)
        }
    }

    open spec fn batch_spec(
        &self,
        old: DatasetView<T>,
        new: DatasetView<T>,
        per_sample: bool,
        r: Result<(), AugmentError>,
    ) -> bool {
        gated_batch_spec(
            |x: Seq<T>, o: Result<Seq<T>, AugmentError>| self.one_spec(x, o),
            self.p,
            old,
            new,
            r,
        )
    }

    fn get_name(&self) -> (r: String) {
        self.name.clone()
    }

    fn supports_per_sample(&self) -> (r: bool) {
        true
    }

    fn get_probability(&self) -> (r: Probability) {
        self.p
    }

    fn set_probability(&mut self, p: Probability) -> (r: Result<(), AugmentError>) {
        self.p = p;
        Ok(())
    }

    fn augment_one(&self, x: &[T]) -> (r: Result<Vec<T>, AugmentError>) {
        self.permute(x)
    }

    fn augment_batch(&self, data: &mut Dataset<T>, per_sample: bool) -> (r: Result<(), AugmentError>) {
        self.gated_batch(data)
    }
}

/// Removing the chunk at position `i` of `order` shortens the gathered
/// values by that chunk's length.
proof fn lemma_gather_remove<T>(x: Seq<T>, size: int, order: Seq<usize>, i: int)
    requires
        0 <= i < order.len(),
    ensures
        gather_chunks(x, size, order).len() == gather_chunks(x, size, order.remove(i)).len() + chunk(
            x,
            size,
            order[i] as int,
        ).len(),
    decreases order.len(),
{
    if i == order.len() - 1 {
        assert(order.remove(i) =~= order.drop_last());
    } else {
        let rest = order.drop_last();
        lemma_gather_remove(x, size, rest, i);
        assert(order.remove(i).drop_last() =~= rest.remove(i));
        assert(order.remove(i).last() == order.last());
    }
}

/// Orders that list the same chunks gather the same number of values.
proof fn lemma_gather_len_permuted<T>(x: Seq<T>, size: int, a: Seq<usize>, b: Seq<usize>)
    requires
        a.to_multiset() == b.to_multiset(),
    ensures
        gather_chunks(x, size, a).len() == gather_chunks(x, size, b).len(),
    decreases a.len(),
{
    a.to_multiset_ensures();
    b.to_multiset_ensures();
    if a.len() == 0 {
        assert(b.len() == 0);
    } else {
        let v = a.last();
        let rest = a.drop_last();
        assert(a =~= rest.push(v));
        rest.to_multiset_ensures();
        assert(a.to_multiset().count(v) > 0);
        assert(b.contains(v));
        let i = choose|i: int| 0 <= i < b.len() && b[i] == v;
        b.to_multiset_ensures();
        assert(b.remove(i).to_multiset() =~= b.to_multiset().remove(v));
        assert(rest.to_multiset() =~= a.to_multiset().remove(v));
        lemma_gather_remove(x, size, b, i);
        lemma_gather_len_permuted(x, size, rest, b.remove(i));
    }
}

/// The first `j` chunks of `x`, in order, hold `min(j * size, len(x))` values
/// while they do not run past its end.
proof fn lemma_gather_prefix<T>(x: Seq<T>, size: int, j: nat)
    requires
        size > 0,
        x.len() <= usize::MAX,
        j == 0 || (j - 1) * size < x.len(),
    ensures
        gather_chunks(x, size, Seq::new(j, |i: int| i as usize)).len() == if j * size <= x.len() {
            j * size
        } else {
            x.len() as int
        },
    decreases j,
{
    let order = Seq::new(j, |i: int| i as usize);
    if j > 0 {
        let prev = Seq::new((j - 1) as nat, |i: int| i as usize);
        assert(order.drop_last() =~= prev);
        assert((j - 1) * size + size == j * size) by (nonlinear_arith);
        if j >= 2 {
            assert((j - 2) * size < (j - 1) * size) by (nonlinear_arith)
                requires
                    size > 0,
                    j >= 2,
            ;
        }
        lemma_gather_prefix(x, size, (j - 1) as nat);
        assert(j - 1 < x.len()) by (nonlinear_arith)
            requires
                (j - 1) * size < x.len(),
                size > 0,
                j >= 1,
        ;
        assert(order.last() as int == j - 1);
    }
}

/// Cutting `x` into chunks of `size` values and gathering them in any order
/// that lists each chunk once keeps every value count.
proof fn lemma_gather_order_len<T>(x: Seq<T>, size: int, order: Seq<usize>)
    requires
        size > 0,
        x.len() <= usize::MAX,
        is_order(order, order.len() as int),
        chunk_count(order.len() as int, size, x.len() as int),
    ensures
        gather_chunks(x, size, order).len() == x.len(),
{
    let k = order.len();
    lemma_gather_len_permuted(x, size, order, Seq::new(k, |i: int| i as usize));
    lemma_gather_prefix(x, size, k);
}

/// The windows of `x`, each with its segments rearranged, hold as many values
/// as the first windows of `x` do.
proof fn lemma_permuted_prefix<T>(x: Seq<T>, window: int, segment: int, orders: Seq<Seq<usize>>)
    requires
        window > 0,
        segment > 0,
        x.len() <= usize::MAX,
        orders.len() == 0 || (orders.len() - 1) * window < x.len(),
        forall|a: int|
            0 <= a < orders.len() ==> is_order(#[trigger] orders[a], (orders[a].len()) as int)
                && chunk_count(orders[a].len() as int, segment, chunk(x, window, a).len() as int),
    ensures
        permuted(x, window, segment, orders).len() == if orders.len() * window <= x.len() {
            orders.len() * window
        } else {
            x.len() as int
        },
    decreases orders.len(),
{
    let j = orders.len();
    if j > 0 {
        let a = j - 1;
        let prev = orders.drop_last();
        assert(a * window + window == j * window) by (nonlinear_arith)
            requires
                a == j - 1,
        ;
        if j >= 2 {
            assert((j - 2) * window < (j - 1) * window) by (nonlinear_arith)
                requires
                    window > 0,
                    j >= 2,
            ;
        }
        assert forall|b: int| 0 <= b < prev.len() implies is_order(
            #[trigger] prev[b],
            (prev[b].len()) as int,
        ) && chunk_count(prev[b].len() as int, segment, chunk(x, window, b).len() as int) by {
            assert(prev[b] == orders[b]);
        }
        lemma_permuted_prefix(x, window, segment, prev);
        assert(orders[a] == orders.last());
        lemma_gather_order_len(chunk(x, window, a), segment, orders.last());
    }
}

/// Permutating keeps the length of a series.
pub proof fn lemma_permutation_len<T>(x: Seq<T>, window: int, segment: int, y: Seq<T>)
    requires
        window > 0,
        segment > 0,
        x.len() <= usize::MAX,
        is_permutation_of(x, window, segment, y),
    ensures
        y.len() == x.len(),
{
    let orders = choose|orders: Seq<Seq<usize>>|
        #[trigger] permuted(x, window, segment, orders) == y && chunk_count(
            orders.len() as int,
            window,
            x.len() as int,
        ) && forall|a: int|
            0 <= a < orders.len() ==> is_order(
                #[trigger] orders[a],
                (orders[a].len()) as int,
            ) && chunk_count(orders[a].len() as int, segment, chunk(x, window, a).len() as int);
    lemma_permuted_prefix(x, window, segment, orders);
}

/// With one window covering the whole series, permutating gathers the
/// series' segments in an order that lists each of them once.
pub proof fn lemma_single_window<T>(x: Seq<T>, window: int, segment: int, y: Seq<T>)
    requires
        0 < x.len() <= window,
        segment > 0,
        is_permutation_of(x, window, segment, y),
    ensures
        exists|order: Seq<usize>|
            is_order(order, order.len() as int) && chunk_count(order.len() as int, segment, x.len() as int)
                && y == #[trigger] gather_chunks(x, segment, order),
{
    let orders = choose|orders: Seq<Seq<usize>>|
        #[trigger] permuted(x, window, segment, orders) == y && chunk_count(
            orders.len() as int,
            window,
            x.len() as int,
        ) && forall|a: int|
            0 <= a < orders.len() ==> is_order(
                #[trigger] orders[a],
                (orders[a].len()) as int,
            ) && chunk_count(orders[a].len() as int, segment, chunk(x, window, a).len() as int);
    let k = orders.len() as int;
    if k >= 2 {
        assert((k - 1) * window >= window) by (nonlinear_arith)
            requires
                k >= 2,
                window > 0,
        ;
    }
    if k == 0 {
        assert(k * window == 0);
    }
    assert(k == 1);
    assert(orders.drop_last().len() == 0);
    assert(chunk(x, window, 0) =~= x);
    assert(permuted(x, window, segment, orders.drop_last()) =~= Seq::<T>::empty());
    assert(y =~= gather_chunks(x, segment, orders[0]));
    assert(is_order(orders[0], orders[0].len() as int));
}

} // verus!
