use vstd::prelude::*;
use crate::dataset::{Dataset, DatasetView};
use crate::error::AugmentError;
use crate::probability::Probability;
use vstd::slice::slice_to_vec;
use super::base::{Augmenter, name_of, one_view};

verus! {

/// `ys` records a run of the first `n` augmenters of `augs` on `x`, each
/// applied unconditionally: `ys[0]` is `x` and `ys[k + 1]` is an outcome of
/// `augs[k]` on `ys[k]`.
pub open spec fn run_one<T: Copy>(
    augs: Seq<Box<dyn Augmenter<T>>>,
    n: int,
    x: Seq<T>,
    ys: Seq<Seq<T>>,
) -> bool {
    &&& 0 <= n <= augs.len()
    &&& ys.len() == n + 1
    &&& ys[0] == x
    &&& forall|k: int| 0 <= k < n ==> #[trigger] augs[k].one_spec(ys[k], Ok(ys[k + 1]))
}

/// Outcomes of applying `augs` in order to `x`, each unconditionally: a
/// failure ends the chain and is its result.
pub open spec fn chain_one<T: Copy>(
    augs: Seq<Box<dyn Augmenter<T>>>,
    x: Seq<T>,
    r: Result<Seq<T>, AugmentError>,
) -> bool {
    match r {
        Ok(y) => exists|ys: Seq<Seq<T>>|
            #[trigger] run_one(augs, augs.len() as int, x, ys) && ys.last() == y,
        Err(e) => exists|k: int, ys: Seq<Seq<T>>|
            #[trigger] run_one(augs, k, x, ys) && k < augs.len() && augs[k].one_spec(
                ys.last(),
                Err(e),
            ),
    }
}

/// Stage `k` of a gated chain: `y` is `x` left as it was (possible unless the
/// probability of `augs[k]` is 1) or an outcome of `augs[k]` (possible unless
/// that probability is 0).
pub open spec fn gated_step<T: Copy>(
    augs: Seq<Box<dyn Augmenter<T>>>,
    k: int,
    x: Seq<T>,
    y: Seq<T>,
) -> bool {
    ||| (y == x && !augs[k].probability_spec().is_certain())
    ||| (augs[k].one_spec(x, Ok(y)) && !augs[k].probability_spec().is_never())
}

/// `ys` records a run of the first `n` augmenters of `augs` on `x`, each
/// stage gated by its augmenter's probability.
pub open spec fn run_gated<T: Copy>(
    augs: Seq<Box<dyn Augmenter<T>>>,
    n: int,
    x: Seq<T>,
    ys: Seq<Seq<T>>,
) -> bool {
    &&& 0 <= n <= augs.len()
    &&& ys.len() == n + 1
    &&& ys[0] == x
    &&& forall|k: int| 0 <= k < n ==> #[trigger] gated_step(augs, k, ys[k], ys[k + 1])
}

/// Outcomes of threading `x` through `augs` in order, each stage gated by its
/// augmenter's probability: a failure ends the chain and is its result.
pub open spec fn chain_gated<T: Copy>(
    augs: Seq<Box<dyn Augmenter<T>>>,
    x: Seq<T>,
    r: Result<Seq<T>, AugmentError>,
) -> bool {
    match r {
        Ok(y) => exists|ys: Seq<Seq<T>>|
            #[trigger] run_gated(augs, augs.len() as int, x, ys) && ys.last() == y,
        Err(e) => exists|k: int, ys: Seq<Seq<T>>|
            #[trigger] run_gated(augs, k, x, ys) && k < augs.len() && augs[k].one_spec(
                ys.last(),
                Err(e),
            ) && !augs[k].probability_spec().is_never(),
    }
}

/// `ds` records a run of the batch calls of the first `n` augmenters of
/// `augs` on `old`: `ds[k + 1]` is an outcome of `augs[k]` on `ds[k]`.
pub open spec fn run_batch<T: Copy>(
    augs: Seq<Box<dyn Augmenter<T>>>,
    n: int,
    old: DatasetView<T>,
    ds: Seq<DatasetView<T>>,
) -> bool {
    &&& 0 <= n <= augs.len()
    &&& ds.len() == n + 1
    &&& ds[0] == old
    &&& forall|k: int| 0 <= k < n ==> #[trigger] augs[k].batch_spec(ds[k], ds[k + 1], false, Ok(()))
}

/// Outcomes of running each augmenter's own batch call over the whole
/// dataset, in order: a failure ends the run and leaves the dataset as the
/// failing call left it.
pub open spec fn chain_batch<T: Copy>(
    augs: Seq<Box<dyn Augmenter<T>>>,
    old: DatasetView<T>,
    new: DatasetView<T>,
    r: Result<(), AugmentError>,
) -> bool {
    match r {
        Ok(_) => exists|ds: Seq<DatasetView<T>>|
            #[trigger] run_batch(augs, augs.len() as int, old, ds) && ds.last() == new,
        Err(e) => exists|k: int, ds: Seq<DatasetView<T>>|
            #[trigger] run_batch(augs, k, old, ds) && k < augs.len() && augs[k].batch_spec(
                ds.last(),
                new,
                false,
                Err(e),
            ),
    }
}

/// The boxed augmenter `member` behaves as `aug`: same name, flags,
/// probability and outcomes.
pub open spec fn acts_as<T: Copy, A: Augmenter<T>>(member: Box<dyn Augmenter<T>>, aug: A) -> bool {
    &&& member.name_spec() == aug.name_spec()
    &&& member.per_sample_spec() == aug.per_sample_spec()
    &&& member.probability_spec() == aug.probability_spec()
    &&& member.probability_settable() == aug.probability_settable()
    &&& forall|x: Seq<T>, r: Result<Seq<T>, AugmentError>|
        #[trigger] member.one_spec(x, r) == aug.one_spec(x, r)
    &&& forall|old: DatasetView<T>, new: DatasetView<T>, ps: bool, r: Result<(), AugmentError>|
        #[trigger] member.batch_spec(old, new, ps, r) == aug.batch_spec(old, new, ps, r)
}

/// Whether every augmenter of `augs` can be chained per sample.
pub open spec fn all_per_sample<T: Copy>(augs: Seq<Box<dyn Augmenter<T>>>) -> bool {
    forall|k: int| 0 <= k < augs.len() ==> #[trigger] augs[k].per_sample_spec()
}

/// `k` is the first augmenter of `augs` that cannot be chained per sample.
pub open spec fn first_incompatible<T: Copy>(augs: Seq<Box<dyn Augmenter<T>>>, k: int) -> bool {
    &&& 0 <= k < augs.len()
    &&& !augs[k].per_sample_spec()
    &&& forall|j: int| 0 <= j < k ==> #[trigger] augs[j].per_sample_spec()
}

/// Outcomes of the per-sample mode: refused before any change when an
/// augmenter needs the whole batch; otherwise labels are kept and each sample
/// is threaded through the gated chain.
pub open spec fn per_sample_batch<T: Copy>(
    augs: Seq<Box<dyn Augmenter<T>>>,
    old: DatasetView<T>,
    new: DatasetView<T>,
    r: Result<(), AugmentError>,
) -> bool {
    if !all_per_sample(augs) {
        &&& new == old
        &&& exists|k: int|
            #[trigger] first_incompatible(augs, k) && (r matches Err(
                AugmentError::IncompatibleInPipeline { augmenter },
            ) && augmenter@ == augs[k].name_spec())
    } else {
        &&& new.labels == old.labels
        &&& new.samples.len() == old.samples.len()
        &&& match r {
            Ok(_) => forall|i: int|
                0 <= i < old.samples.len() ==> #[trigger] chain_gated(
                    augs,
                    old.samples[i],
                    Ok(new.samples[i]),
                ),
            Err(e) => exists|i: int|
                0 <= i < old.samples.len() && #[trigger] chain_gated(augs, old.samples[i], Err(e)),
        }
    }
}


/// An ordered list of augmenters that acts as one augmenter.
#[verifier::reject_recursive_types(T)]
pub struct AugmentationPipeline<T: Copy> {
    pub name: String,
    augmenters: Vec<Box<dyn Augmenter<T>>>,
    p: Probability,
}

impl<T: Copy> AugmentationPipeline<T> {
    /// The augmenters, in the order in which they run.
    pub closed spec fn members(&self) -> Seq<Box<dyn Augmenter<T>>> {
        self.augmenters@
    }

    /// Creates an empty pipeline.
    pub fn new() -> (r: Self)
        ensures
            r.name_spec() == "AugmentationPipeline"@,
            r.members() == Seq::<Box<dyn Augmenter<T>>>::empty(),
            r.probability_spec().is_certain(),
    {
        AugmentationPipeline {
            name: name_of("AugmentationPipeline"),
            augmenters: Vec::new(),
            p: Probability::always(),
        }
    }

    /// Appends a boxed augmenter at the end of the pipeline.
    pub fn push(&mut self, member: Box<dyn Augmenter<T>>)
        ensures
            final(self).members() == old(self).members().push(member),
            final(self).members().len() == old(self).members().len() + 1,
            forall|k: int|
                0 <= k < old(self).members().len() ==> #[trigger] final(self).members()[k] == old(
                    self,
                ).members()[k],
            final(self).name_spec() == old(self).name_spec(),
            final(self).probability_spec() == old(self).probability_spec(),
    {
        let ghost before = self.augmenters@;
        self.augmenters.push(member);
        proof {
            vstd::seq::axiom_seq_push_len(before, member);
            assert forall|k: int| 0 <= k < before.len() implies #[trigger] self.augmenters@[k] == before[k] by {
                vstd::seq::axiom_seq_push_index_different(before, member, k);
            }
            vstd::seq::axiom_seq_push_index_same(before, member, before.len() as int);
        }
    }

    /// Appends an augmenter at the end of the pipeline, boxed; callers that
    /// box a value of a known type themselves and call `push` learn that the
    /// new member acts as that value (`acts_as`).
    pub fn add<A: Augmenter<T> + 'static>(&mut self, augmenter: A)
        ensures
            final(self).members().len() == old(self).members().len() + 1,
            forall|k: int|
                0 <= k < old(self).members().len() ==> #[trigger] final(self).members()[k] == old(
                    self,
                ).members()[k],
            final(self).name_spec() == old(self).name_spec(),
            final(self).probability_spec() == old(self).probability_spec(),
    {
        self.push(Box::new(augmenter));
    }
}

/// `pipeline + augmenter` appends, as `add` does.
impl<T: Copy, A: Augmenter<T> + 'static> std::ops::Add<A> for AugmentationPipeline<T> {
    type Output = AugmentationPipeline<T>;

    fn add(self, rhs: A) -> (r: AugmentationPipeline<T>)
        ensures
            r.members().len() == self.members().len() + 1,
            forall|k: int|
                0 <= k < self.members().len() ==> #[trigger] r.members()[k] == self.members()[k],
            r.name_spec() == self.name_spec(),
            r.probability_spec() == self.probability_spec(),
    {
        let mut pipeline = self;
        AugmentationPipeline::add(&mut pipeline, rhs);
        pipeline
    }
}

impl<T: Copy, A: Augmenter<T> + 'static> vstd::std_specs::ops::AddSpecImpl<A> for AugmentationPipeline<T> {
    /// No spec function describes the result: `add`'s own `ensures` does.
    open spec fn obeys_add_spec() -> bool {
        false
    }

    open spec fn add_req(self, rhs: A) -> bool {
        true
    }

    open spec fn add_spec(self, rhs: A) -> AugmentationPipeline<T> {
        self
    }
}

impl<T: Copy> Augmenter<T> for AugmentationPipeline<T> {
    closed spec fn name_spec(&self) -> Seq<char> {
        self.name@
    }

    open spec fn per_sample_spec(&self) -> bool {
        true
    }

    closed spec fn probability_spec(&self) -> Probability {
        self.p
    }

    open spec fn probability_settable(&self) -> bool {
        true
    }

    open spec fn one_spec(&self, x: Seq<T>, r: Result<Seq<T>, AugmentError>) -> bool {
        chain_one(self.members(), x, r)
    }

    open spec fn batch_spec(
        &self,
        old: DatasetView<T>,
        new: DatasetView<T>,
        per_sample: bool,
        r: Result<(), AugmentError>,
    ) -> bool {
        if per_sample {
            per_sample_batch(self.members(), old, new, r)
        } else {
            chain_batch(self.members(), old, new, r)
        }
    }

    fn get_name(&self) -> (r: String) {
        self.name.clone()
    }

    fn supports_per_sample(&self) -> (r: bool) {
        true
    }

    fn get_probability(&self) -> (r: Probability) {
        self.p
    }

    fn set_probability(&mut self, p: Probability) -> (r: Result<(), AugmentError>) {
        self.p = p;
        Ok(())
    }

    fn augment_one(&self, x: &[T]) -> (r: Result<Vec<T>, AugmentError>) {
        let mut res = slice_to_vec(x);
        let ghost mut ys: Seq<Seq<T>> = seq![x@];
        let mut i: usize = 0;
        while i < self.augmenters.len()
            invariant
                i <= self.augmenters@.len(),
                run_one(self.augmenters@, i as int, x@, ys),
                ys.last() == res@,
            decreases self.augmenters@.len() - i,
        {
            let out = self.augmenters[i].augment_one(res.as_slice());
            match out {
                Ok(v) => {
                    proof {
                        let nys = ys.push(v@);
                        assert forall|k: int| 0 <= k < i + 1 implies #[trigger] self.augmenters@[k].one_spec(
                            nys[k],
                            Ok(nys[k + 1]),
                        ) by {
                            if k < i {
                                assert(nys[k] == ys[k] && nys[k + 1] == ys[k + 1]);
                            }
                        }
                        ys = nys;
                    }
                    res = v;
                },
                Err(e) => {
                    assert(run_one(self.augmenters@, i as int, x@, ys));
                    return Err(e);
                },
            }
            i += 1;
        }
        assert(run_one(self.augmenters@, self.augmenters@.len() as int, x@, ys));
        Ok(res)
    }

    fn augment_batch(&self, data: &mut Dataset<T>, per_sample: bool) -> (r: Result<(), AugmentError>) {
        if per_sample {
            self.check_per_sample()?;
            self.augment_samples(data)
        } else {
            self.augment_in_turn(data)
        }
    }
}

impl<T: Copy> AugmentationPipeline<T> {
    /// Refuses, naming the first offender, a pipeline that holds an augmenter
    /// which cannot be chained per sample.
    pub fn check_per_sample(&self) -> (r: Result<(), AugmentError>)
        ensures
            r is Ok <==> all_per_sample(self.members()),
            r is Err ==> exists|k: int|
                #[trigger] first_incompatible(self.members(), k) && (r matches Err(
                    AugmentError::IncompatibleInPipeline { augmenter },
                ) && augmenter@ == self.members()[k].name_spec()),
    {
        let mut k: usize = 0;
        while k < self.augmenters.len()
            invariant
                k <= self.augmenters@.len(),
                forall|j: int| 0 <= j < k ==> #[trigger] self.augmenters@[j].per_sample_spec(),
            decreases self.augmenters@.len() - k,
        {
            if !self.augmenters[k].supports_per_sample() {
                let augmenter = self.augmenters[k].get_name();
                proof {
                    assert(first_incompatible(self.members(), k as int));
                }
                return Err(AugmentError::IncompatibleInPipeline { augmenter });
            }
            k += 1;
        }
        Ok(())
    }

    /// Threads one series through every augmenter in order, each stage gated
    /// by its augmenter's probability; stops at the first failure.
    pub fn augment_sample(&self, x: &[T]) -> (r: Result<Vec<T>, AugmentError>)
        ensures
            chain_gated(self.members(), x@, one_view(r)),
    {
        let mut res = slice_to_vec(x);
        let ghost mut ys: Seq<Seq<T>> = seq![x@];
        let mut i: usize = 0;
        while i < self.augmenters.len()
            invariant
                i <= self.augmenters@.len(),
                run_gated(self.augmenters@, i as int, x@, ys),
                ys.last() == res@,
            decreases self.augmenters@.len() - i,
        {
            let p = self.augmenters[i].get_probability();
            let mut next = slice_to_vec(res.as_slice());
            if p.draw() {
                let out = self.augmenters[i].augment_one(res.as_slice());
                match out {
                    Ok(v) => {
                        next = v;
                    },
                    Err(e) => {
                        assert(run_gated(self.augmenters@, i as int, x@, ys));
                        return Err(e);
                    },
                }
            }
            proof {
                assert(gated_step(self.augmenters@, i as int, res@, next@));
                let nys = ys.push(next@);
                assert forall|k: int| 0 <= k < i + 1 implies #[trigger] gated_step(
                    self.augmenters@,
                    k,
                    nys[k],
                    nys[k + 1],
                ) by {
                    if k < i {
                        assert(nys[k] == ys[k] && nys[k + 1] == ys[k + 1]);
                    }
                }
                ys = nys;
            }
            res = next;
            i += 1;
        }
        assert(run_gated(self.augmenters@, self.augmenters@.len() as int, x@, ys));
        Ok(res)
    }

    /// The per-sample mode once the pipeline has been checked.
    fn augment_samples(&self, data: &mut Dataset<T>) -> (r: Result<(), AugmentError>)
        requires
            all_per_sample(self.members()),
        ensures
            per_sample_batch(self.members(), old(data)@, final(data)@, r),
    {
        let ghost start = data@;
        let n = data.features.len();
        let mut i: usize = 0;
        while i < n
            invariant
                all_per_sample(self.members()),
                start == old(data)@,
                n == start.samples.len(),
                data.labels@ == start.labels,
                data.features@.len() == n,
                forall|k: int|
                    0 <= k < i ==> #[trigger] chain_gated(
                        self.members(),
                        start.samples[k],
                        Ok(data.features@[k]@),
                    ),
                forall|k: int| i <= k < n ==> #[trigger] data.features@[k]@ == start.samples[k],
            decreases n - i,
        {
            let out = self.augment_sample(data.features[i].as_slice());
            match out {
                Ok(v) => {
                    data.features.set(i, v);
                },
                Err(e) => {
                    proof {
                        assert(chain_gated(self.members(), start.samples[i as int], Err(e)));
                        assert(data@.samples =~= data.features@.map_values(|v: Vec<T>| v@));
                    }
                    return Err(e);
                },
            }
            i += 1;
        }
        proof {
            assert forall|k: int| 0 <= k < n implies #[trigger] chain_gated(
                self.members(),
                start.samples[k],
                Ok(data@.samples[k]),
            ) by {
                assert(chain_gated(self.members(), start.samples[k], Ok(data.features@[k]@)));
            }
        }
        Ok(())
    }

    /// The batch-sequential mode: each augmenter's own batch call over the
    /// whole dataset, in order.
    fn augment_in_turn(&self, data: &mut Dataset<T>) -> (r: Result<(), AugmentError>)
        ensures
            chain_batch(self.members(), old(data)@, final(data)@, r),
    {
        let ghost mut ds: Seq<DatasetView<T>> = seq![data@];
        let mut i: usize = 0;
        while i < self.augmenters.len()
            invariant
                i <= self.augmenters@.len(),
                run_batch(self.augmenters@, i as int, old(data)@, ds),
                ds.last() == data@,
            decreases self.augmenters@.len() - i,
        {
            let ghost before = data@;
            let out = self.augmenters[i].augment_batch(data, false);
            match out {
                Ok(u) => {
                    assert(u == ());
                    assert(out == Ok::<(), AugmentError>(()));
                },
                Err(e) => {
                    assert(run_batch(self.augmenters@, i as int, old(data)@, ds));
                    return Err(e);
                },
            }
            assert(self.augmenters@[i as int].batch_spec(before, data@, false, Ok(())));
            proof {
                let nds = ds.push(data@);
                assert forall|k: int| 0 <= k < i + 1 implies #[trigger] self.augmenters@[k].batch_spec(
                    nds[k],
                    nds[k + 1],
                    false,
                    Ok(()),
                ) by {
                    if k < i {
                        assert(nds[k] == ds[k] && nds[k + 1] == ds[k + 1]);
                    }
                }
                ds = nds;
            }
            i += 1;
        }
        assert(run_batch(self.augmenters@, self.augmenters@.len() as int, old(data)@, ds));
        Ok(())
    }
}

/// In the batch-sequential mode a pipeline of two augmenters has exactly the
/// outcomes of the first augmenter's batch call followed by the second's.
pub proof fn lemma_two_stage_batch<T: Copy>(
    pipeline: &AugmentationPipeline<T>,
    old: DatasetView<T>,
    new: DatasetView<T>,
)
    requires
        pipeline.members().len() == 2,
    ensures
        pipeline.batch_spec(old, new, false, Ok(())) <==> exists|mid: DatasetView<T>|
            pipeline.members()[0].batch_spec(old, mid, false, Ok(()))
                && #[trigger] pipeline.members()[1].batch_spec(mid, new, false, Ok(())),
{
    let augs = pipeline.members();
    if pipeline.batch_spec(old, new, false, Ok(())) {
        let ds = choose|ds: Seq<DatasetView<T>>| #[trigger]
            run_batch(augs, augs.len() as int, old, ds) && ds.last() == new;
        let k0: int = 0;
        let k1: int = 1;
        assert(augs[k0].batch_spec(ds[k0], ds[k0 + 1], false, Ok(())));
        assert(augs[k1].batch_spec(ds[k1], ds[k1 + 1], false, Ok(())));
        assert(ds[k0 + 1] == ds[1] && ds[k1 + 1] == new);
    }
    assert forall|mid: DatasetView<T>|
        augs[0].batch_spec(old, mid, false, Ok(())) && #[trigger] augs[1].batch_spec(
            mid,
            new,
            false,
            Ok(()),
        ) implies pipeline.batch_spec(old, new, false, Ok(())) by {
        let ds = seq![old, mid, new];
        assert(run_batch(augs, 2, old, ds));
    }
}

/// A pipeline that holds an augmenter which cannot be chained per sample
/// fails in the per-sample mode, naming such an augmenter, and leaves the
/// dataset as it was.
pub proof fn lemma_per_sample_rejected<T: Copy>(
    pipeline: &AugmentationPipeline<T>,
    k: int,
    old: DatasetView<T>,
    new: DatasetView<T>,
    r: Result<(), AugmentError>,
)
    requires
        0 <= k < pipeline.members().len(),
        !pipeline.members()[k].per_sample_spec(),
        pipeline.batch_spec(old, new, true, r),
    ensures
        new == old,
        r matches Err(AugmentError::IncompatibleInPipeline { augmenter }) && exists|j: int|
            0 <= j < pipeline.members().len() && !pipeline.members()[j].per_sample_spec()
                && augmenter@ == #[trigger] pipeline.members()[j].name_spec(),
{
    assert(!all_per_sample(pipeline.members()));
}

} // verus!
