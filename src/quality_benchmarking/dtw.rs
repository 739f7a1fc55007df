//! The alignment half of dynamic time warping: from the choices made on the
//! cost matrix to the warping path. The costs themselves are sums of absolute
//! differences of the series' values and are computed by the caller.
use vstd::prelude::*;
use crate::augmenters::{Reverse, name_of, reversed};
use crate::dataset::Dataset;
use crate::error::AugmentError;
use vstd::slice::slice_to_vec;
use crate::random::random_index;

verus! {

/// How the backtrack leaves a cell `(i, j)` of the cost matrix.
#[derive(Clone, Copy, Debug, PartialEq, Eq, Structural)]
pub enum Step {
    /// To `(i - 1, j - 1)`.
    Diagonal,
    /// To `(i - 1, j)`.
    Up,
    /// To `(i, j - 1)`.
    Left,
}

/// The tie-break rule: the diagonal predecessor when its cost is no larger
/// than both others, else the upper one when it is strictly cheaper than the
/// left one, else the left one.
pub open spec fn step_rule(diag_le_up: bool, diag_le_left: bool, up_lt_left: bool) -> Step {
    if diag_le_up && diag_le_left {
        Step::Diagonal
    } else if up_lt_left {
        Step::Up
    } else {
        Step::Left
    }
}

/// The step out of a cell whose predecessors compare as given.
pub fn choose_step(diag_le_up: bool, diag_le_left: bool, up_lt_left: bool) -> (r: Step)
    ensures
        r == step_rule(diag_le_up, diag_le_left, up_lt_left),
{
    if diag_le_up && diag_le_left {
        Step::Diagonal
    } else if up_lt_left {
        Step::Up
    } else {
        Step::Left
    }
}

/// The step out of the cell `(i, j)` (1-based, as in the cost matrix): along
/// the first row only left, along the first column only up, elsewhere the
/// step recorded in `moves`.
pub open spec fn step_at(moves: Seq<Seq<Step>>, i: int, j: int) -> Step {
    if i == 1 {
        Step::Left
    } else if j == 1 {
        Step::Up
    } else {
        moves[i][j]
    }
}

/// The pair of indices that the backtrack reaches from the pair `c`, that is
/// from the cell `(c.0 + 1, c.1 + 1)`.
pub open spec fn back(moves: Seq<Seq<Step>>, c: (int, int)) -> (int, int) {
    match step_at(moves, c.0 + 1, c.1 + 1) {
        Step::Diagonal => (c.0 - 1, c.1 - 1),
        Step::Up => (c.0 - 1, c.1),
        Step::Left => (c.0, c.1 - 1),
    }
}

pub open spec fn pair(c: (usize, usize)) -> (int, int) {
    (c.0 as int, c.1 as int)
}

/// `path` aligns a series of `n` values with one of `m` values: it starts at
/// `(0, 0)`, ends at `(n - 1, m - 1)`, and each pair comes from the next one
/// by the step that `moves` gives there.
pub open spec fn is_warping_path(path: Seq<(usize, usize)>, moves: Seq<Seq<Step>>, n: int, m: int) -> bool {
    &&& path.len() >= 1
    &&& pair(path[0]) == (0int, 0int)
    &&& pair(path.last()) == (n - 1, m - 1)
    &&& forall|k: int|
        0 <= k < path.len() - 1 ==> pair(#[trigger] path[k]) == back(moves, pair(path[k + 1]))
}

/// `moves` holds a step for each inner cell `(i, j)`, `2 <= i <= n`, `2 <= j <= m`.
pub open spec fn covers(moves: Seq<Seq<Step>>, n: int, m: int) -> bool {
    &&& moves.len() > n
    &&& forall|i: int| 2 <= i <= n ==> #[trigger] moves[i].len() > m
}

/// Whether the predecessor `b` of `a` lies one step back along a row, a
/// column or the diagonal.
pub open spec fn unit_step(b: (int, int), a: (int, int)) -> bool {
    ||| (b.0 == a.0 - 1 && b.1 == a.1 - 1)
    ||| (b.0 == a.0 - 1 && b.1 == a.1)
    ||| (b.0 == a.0 && b.1 == a.1 - 1)
}

/// The warping path for series of `n` and `m` values, traced back from
/// `(n - 1, m - 1)` by the steps that `moves` records; empty when either
/// series is.
pub fn backtrack(moves: &Vec<Vec<Step>>, n: usize, m: usize) -> (path: Vec<(usize, usize)>)
    requires
        n == 0 || m == 0 || covers(moves@.map_values(|r: Vec<Step>| r@), n as int, m as int),
    ensures
        n == 0 || m == 0 ==> path@.len() == 0,
        n > 0 && m > 0 ==> {
            &&& is_warping_path(path@, moves@.map_values(|r: Vec<Step>| r@), n as int, m as int)
            &&& if n >= m { path@.len() >= n } else { path@.len() >= m }
            &&& path@.len() <= n + m - 1
        },
{
    let ghost mv = moves@.map_values(|r: Vec<Step>| r@);
    if n == 0 || m == 0 {
        return Vec::new();
    }
    let mut rev: Vec<(usize, usize)> = Vec::new();
    let mut i: usize = n;
    let mut j: usize = m;
    rev.push((i - 1, j - 1));
    while i > 1 || j > 1
        invariant
            mv == moves@.map_values(|r: Vec<Step>| r@),
            covers(mv, n as int, m as int),
            1 <= i <= n,
            1 <= j <= m,
            rev@.len() >= 1,
            pair(rev@[0]) == (n - 1, m - 1),
            pair(rev@.last()) == (i - 1, j - 1),
            forall|k: int|
                0 <= k < rev@.len() - 1 ==> pair(#[trigger] rev@[k + 1]) == back(mv, pair(rev@[k])),
            rev@.len() - 1 >= n - i,
            rev@.len() - 1 >= m - j,
            rev@.len() - 1 <= (n - i) + (m - j),
        decreases i + j,
    {
        let ghost prev = rev@;
        let s = if i == 1 {
            Step::Left
        } else if j == 1 {
            Step::Up
        } else {
            assert(moves@[i as int]@ == mv[i as int]);
            moves[i][j]
        };
        assert(s == step_at(mv, i as int, j as int));
        match s {
            Step::Diagonal => {
                i -= 1;
                j -= 1;
            },
            Step::Up => {
                i -= 1;
            },
            Step::Left => {
                j -= 1;
            },
        }
        rev.push((i - 1, j - 1));
        assert(forall|k: int| 0 <= k < prev.len() ==> rev@[k] == prev[k]);
    }
    let path = Reverse::reverse(rev.as_slice());
    proof {
        let len = rev@.len() as int;
        assert(path@ == reversed(rev@));
        assert(path@[0] == rev@[len - 1]);
        assert(path@.last() == rev@[0]);
        assert forall|k: int| 0 <= k < path@.len() - 1 implies pair(#[trigger] path@[k]) == back(
            mv,
            pair(path@[k + 1]),
        ) by {
            let q = len - 2 - k;
            assert(pair(rev@[q + 1]) == back(mv, pair(rev@[q])));
            assert(path@[k] == rev@[q + 1]);
            assert(path@[k + 1] == rev@[q]);
        }
    }
    path
}

/// Each pair of a warping path comes from the next by one step back along a
/// row, a column or the diagonal, so both indices are monotone along it.
pub proof fn lemma_warping_path_steps(path: Seq<(usize, usize)>, moves: Seq<Seq<Step>>, n: int, m: int)
    requires
        is_warping_path(path, moves, n, m),
    ensures
        forall|k: int|
            0 <= k < path.len() - 1 ==> #[trigger] unit_step(pair(path[k]), pair(path[k + 1])),
{
    assert forall|k: int| 0 <= k < path.len() - 1 implies #[trigger] unit_step(
        pair(path[k]),
        pair(path[k + 1]),
    ) by {
        assert(pair(path[k]) == back(moves, pair(path[k + 1])));
    }
}

/// Along a warping path the index sum grows by at least one at each pair, so
/// it is at least the pair's position.
proof fn lemma_path_sum(path: Seq<(usize, usize)>, moves: Seq<Seq<Step>>, n: int, m: int, k: int)
    requires
        is_warping_path(path, moves, n, m),
        0 <= k < path.len(),
    ensures
        path[k].0 + path[k].1 >= k,
    decreases k,
{
    if k > 0 {
        lemma_path_sum(path, moves, n, m, k - 1);
        assert(pair(path[k - 1]) == back(moves, pair(path[k])));
    }
}

/// Every pair of a warping path lies within the last one.
proof fn lemma_path_bounds(path: Seq<(usize, usize)>, moves: Seq<Seq<Step>>, n: int, m: int, k: int)
    requires
        is_warping_path(path, moves, n, m),
        0 <= k < path.len(),
    ensures
        path[k].0 <= n - 1,
        path[k].1 <= m - 1,
    decreases path.len() - k,
{
    if k < path.len() - 1 {
        lemma_path_bounds(path, moves, n, m, k + 1);
        assert(pair(path[k]) == back(moves, pair(path[k + 1])));
    }
}

/// Two warping paths for the same steps agree from their ends on.
proof fn lemma_path_tails(
    p: Seq<(usize, usize)>,
    q: Seq<(usize, usize)>,
    moves: Seq<Seq<Step>>,
    n: int,
    m: int,
    t: int,
)
    requires
        is_warping_path(p, moves, n, m),
        is_warping_path(q, moves, n, m),
        0 <= t < p.len(),
        t < q.len(),
    ensures
        p[p.len() - 1 - t] == q[q.len() - 1 - t],
    decreases t,
{
    if t > 0 {
        lemma_path_tails(p, q, moves, n, m, t - 1);
        let i = p.len() - 1 - t;
        let j = q.len() - 1 - t;
        assert(pair(p[i]) == back(moves, pair(p[i + 1])));
        assert(pair(q[j]) == back(moves, pair(q[j + 1])));
    }
}

/// The steps determine the warping path: there is at most one.
pub proof fn lemma_path_unique(p: Seq<(usize, usize)>, q: Seq<(usize, usize)>, moves: Seq<Seq<Step>>, n: int, m: int)
    requires
        is_warping_path(p, moves, n, m),
        is_warping_path(q, moves, n, m),
    ensures
        p == q,
{
    if p.len() < q.len() {
        lemma_path_tails(p, q, moves, n, m, p.len() - 1);
        lemma_path_sum(q, moves, n, m, q.len() - p.len());
    } else if q.len() < p.len() {
        lemma_path_tails(p, q, moves, n, m, q.len() - 1);
        lemma_path_sum(p, moves, n, m, p.len() - q.len());
    } else {
        assert forall|k: int| 0 <= k < p.len() implies p[k] == q[k] by {
            lemma_path_tails(p, q, moves, n, m, p.len() - 1 - k);
        }
        assert(p =~= q);
    }
}

/// The step `s` seen with the two series exchanged.
pub open spec fn swapped(s: Step) -> Step {
    match s {
        Step::Diagonal => Step::Diagonal,
        Step::Up => Step::Left,
        Step::Left => Step::Up,
    }
}

/// `other` records, for the series taken in the other order, the steps of
/// `moves` with rows and columns exchanged.
pub open spec fn is_transpose(moves: Seq<Seq<Step>>, other: Seq<Seq<Step>>, n: int, m: int) -> bool {
    forall|i: int, j: int|
        2 <= i <= n && 2 <= j <= m ==> #[trigger] other[j][i] == swapped(#[trigger] moves[i][j])
}

/// `path` with the two indices of each pair exchanged.
pub open spec fn swap_pairs(path: Seq<(usize, usize)>) -> Seq<(usize, usize)> {
    path.map_values(|c: (usize, usize)| (c.1, c.0))
}

/// Exchanging the two series transposes the cost matrix; where the steps
/// chosen on it are transposed too (no tie between the upper and the left
/// predecessor), the warping path is the same with each pair's indices
/// exchanged.
pub proof fn lemma_path_symmetric(
    p: Seq<(usize, usize)>,
    q: Seq<(usize, usize)>,
    moves: Seq<Seq<Step>>,
    other: Seq<Seq<Step>>,
    n: int,
    m: int,
)
    requires
        is_transpose(moves, other, n, m),
        is_warping_path(p, moves, n, m),
        is_warping_path(q, other, m, n),
    ensures
        q == swap_pairs(p),
{
    let sp = swap_pairs(p);
    assert forall|k: int| 0 <= k < sp.len() - 1 implies pair(#[trigger] sp[k]) == back(
        other,
        pair(sp[k + 1]),
    ) by {
        lemma_path_sum(p, moves, n, m, k + 1);
        lemma_path_bounds(p, moves, n, m, k + 1);
        assert(pair(p[k]) == back(moves, pair(p[k + 1])));
        let i = p[k + 1].0 + 1;
        let j = p[k + 1].1 + 1;
        if i != 1 && j != 1 {
            assert(other[j as int][i as int] == swapped(moves[i as int][j as int]));
        }
    }
    assert(is_warping_path(sp, other, m, n));
    lemma_path_unique(q, sp, other, m, n);
}

/// Aligning a series with itself: its costs put the diagonal step on every
/// cell of the diagonal, and then the warping path is the identity
/// `(0, 0), (1, 1), ..., (n - 1, n - 1)`.
pub proof fn lemma_identity_path(p: Seq<(usize, usize)>, moves: Seq<Seq<Step>>, n: int)
    requires
        1 <= n <= usize::MAX,
        forall|i: int| 2 <= i <= n ==> #[trigger] moves[i][i] == Step::Diagonal,
        is_warping_path(p, moves, n, n),
    ensures
        p == Seq::new(n as nat, |k: int| (k as usize, k as usize)),
{
    let id = Seq::new(n as nat, |k: int| (k as usize, k as usize));
    assert forall|k: int| 0 <= k < id.len() - 1 implies pair(#[trigger] id[k]) == back(
        moves,
        pair(id[k + 1]),
    ) by {
        assert(moves[k + 2][k + 2] == Step::Diagonal);
    }
    assert(is_warping_path(id, moves, n, n));
    lemma_path_unique(p, id, moves, n, n);
}

/// Augments a dataset by appending, for each window of `window_size`
/// consecutive series, a copy of one series of the window warped onto
/// another by dynamic time warping.
pub struct DynamicTimeWarpAugmenter {
    pub name: String,
    pub window_size: usize,
}

/// The values of `source` that `path` aligns with position `b` of the other
/// series, in path order.
pub open spec fn bucket<T>(path: Seq<(usize, usize)>, source: Seq<T>, b: int) -> Seq<T>
    decreases path.len(),
{
    if path.len() == 0 {
        Seq::empty()
    } else {
        let rest = bucket(path.drop_last(), source, b);
        if path.last().1 as int == b {
            rest.push(source[path.last().0 as int])
        } else {
            rest
        }
    }
}

impl DynamicTimeWarpAugmenter {
    pub open spec fn window(&self) -> nat {
        self.window_size as nat
    }

    pub fn new(window_size: usize) -> (r: Self)
        ensures
            r.name@ == "DynamicTimeWarpAugmenter"@,
            r.window() == window_size,
    {
        DynamicTimeWarpAugmenter { name: name_of("DynamicTimeWarpAugmenter"), window_size }
    }

    /// The number of windows over a dataset of `count` series; refused when a
    /// window cannot hold two distinct series or is longer than the dataset.
    pub fn window_count(&self, count: usize) -> (r: Result<usize, AugmentError>)
        ensures
            r is Ok <==> 2 <= self.window() <= count,
            r matches Ok(k) ==> k == count - self.window() + 1,
            r matches Err(e) ==> e is InvalidParameters,
    {
        if self.window_size < 2 || self.window_size > count {
            Err(AugmentError::InvalidParameters { augmenter: self.name.clone() })
        } else {
            Ok(count - self.window_size + 1)
        }
    }

    /// Two distinct random indices of the window that starts at `start`.
    pub fn pick_pair(&self, start: usize) -> (r: (usize, usize))
        requires
            self.window() >= 2,
            start + self.window() <= usize::MAX,
        ensures
            start <= r.0 < start + self.window(),
            start <= r.1 < start + self.window(),
            r.0 != r.1,
    {
        let end = start + self.window_size;
        let i = random_index(start, end);
        let k = random_index(start, end - 1);
        let j = if k >= i {
            k + 1
        } else {
            k
        };
        (i, j)
    }

    /// For each position `b < len` of the target series, the values of
    /// `source` that `path` aligns with it.
    pub fn bucket_by_target<T: Copy>(path: &[(usize, usize)], source: &[T], len: usize) -> (r: Vec<
        Vec<T>,
    >)
        requires
            forall|k: int| 0 <= k < path@.len() ==> (#[trigger] path@[k]).0 < source@.len(),
            forall|k: int| 0 <= k < path@.len() ==> (#[trigger] path@[k]).1 < len,
        ensures
            r@.len() == len,
            forall|b: int| 0 <= b < len ==> (#[trigger] r@[b])@ == bucket(path@, source@, b),
    {
        let mut r: Vec<Vec<T>> = Vec::with_capacity(len);
        let mut b: usize = 0;
        while b < len
            invariant
                b <= len,
                r@.len() == b,
                forall|c: int| 0 <= c < b ==> (#[trigger] r@[c])@ == Seq::<T>::empty(),
            decreases len - b,
        {
            r.push(Vec::new());
            b += 1;
        }
        proof {
            assert forall|c: int| 0 <= c < len implies (#[trigger] r@[c])@ == bucket(
                path@.subrange(0, 0),
                source@,
                c,
            ) by {
                assert(path@.subrange(0, 0).len() == 0);
            }
        }
        let mut k: usize = 0;
        while k < path.len()
            invariant
                k <= path@.len(),
                r@.len() == len,
                forall|q: int| 0 <= q < path@.len() ==> (#[trigger] path@[q]).0 < source@.len(),
                forall|q: int| 0 <= q < path@.len() ==> (#[trigger] path@[q]).1 < len,
                forall|c: int|
                    0 <= c < len ==> (#[trigger] r@[c])@ == bucket(
                        path@.subrange(0, k as int),
                        source@,
                        c,
                    ),
            decreases path@.len() - k,
        {
            let (ai, bj) = path[k];
            let ghost before = r@;
            let mut cell = Vec::new();
            std::mem::swap(&mut cell, &mut r[bj]);
            cell.push(source[ai]);
            r.set(bj, cell);
            proof {
                let pre = path@.subrange(0, k as int);
                let next = path@.subrange(0, k + 1);
                assert(next.drop_last() =~= pre);
                assert(next.last() == path@[k as int]);
                assert forall|c: int| 0 <= c < len implies (#[trigger] r@[c])@ == bucket(
                    next,
                    source@,
                    c,
                ) by {
                    if c != bj {
                        assert(r@[c] == before[c]);
                    }
                }
            }
            k += 1;
        }
        proof {
            assert(path@.subrange(0, path@.len() as int) =~= path@);
        }
        r
    }

    /// Appends each warped series `rows[k]` with the label of the series
    /// `sources[k]` it was made from: one row per window.
    pub fn append_warped<T: Copy>(data: &mut Dataset<T>, rows: &Vec<Vec<T>>, sources: &Vec<usize>)
        requires
            rows@.len() == sources@.len(),
            forall|k: int| 0 <= k < sources@.len() ==> #[trigger] sources@[k] < old(data).labels@.len(),
        ensures
            final(data)@.samples == old(data)@.samples + rows@.map_values(|v: Vec<T>| v@),
            final(data)@.labels == old(data)@.labels + Seq::new(
                sources@.len(),
                |k: int| old(data)@.labels[sources@[k] as int],
            ),
    {
        let ghost start = data@;
        let mut k: usize = 0;
        while k < rows.len()
            invariant
                start == old(data)@,
                k <= rows@.len() == sources@.len(),
                forall|j: int| 0 <= j < sources@.len() ==> #[trigger] sources@[j] < start.labels.len(),
                data@.samples =~= start.samples + rows@.map_values(|v: Vec<T>| v@).subrange(0, k as int),
                data@.labels =~= start.labels + Seq::new(
                    sources@.len(),
                    |j: int| start.labels[sources@[j] as int],
                ).subrange(0, k as int),
            decreases rows@.len() - k,
        {
            let row = slice_to_vec(rows[k].as_slice());
            let s = sources[k];
            assert(data.labels@[s as int] == start.labels[s as int]);
            let label = data.labels[s].clone();
            let ghost before_samples = data@.samples;
            data.features.push(row);
            data.labels.push(label);
            assert(data@.samples =~= before_samples.push(rows@[k as int]@));
            k += 1;
            assert(data@.samples =~= start.samples + rows@.map_values(|v: Vec<T>| v@).subrange(0, k as int));
        }
        assert(rows@.map_values(|v: Vec<T>| v@).subrange(0, k as int) =~= rows@.map_values(|v: Vec<T>| v@));
    }
}

} // verus!
