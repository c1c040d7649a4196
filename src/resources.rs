use std::collections::HashMap;
use std::marker::PhantomData;
use vstd::prelude::*;

use crate::progress::PROGRESS_ONE;

verus! {

broadcast use vstd::std_specs::hash::group_hash_axioms;

/// Loads one resource of type `ResourceType` from where `path` points.
pub trait ResourceFactory<ResourceType> {
    fn load_resource(path: &str) -> ResourceType;
}

/// A bundle of resources assembled from what a builder has loaded.
pub trait Resources<ResourceType, F: ResourceFactory<ResourceType>>: Sized {
    fn build(builder: &mut ResourceBuilder<Self, ResourceType, F>) -> Self;
}

/// Fraction of the resources loaded, in units of `PROGRESS_ONE`: all of
/// them once nothing is queued.
pub open spec fn loaded_fraction(queued: nat, total: nat) -> nat {
    if queued == 0 {
        PROGRESS_ONE as nat
    } else {
        (total - queued) as nat * PROGRESS_ONE as nat / total
    }
}

/// Loading one more resource never lowers the reported progress, which
/// stays within one whole.
pub proof fn lemma_loading_progress_rises(queued: nat, total: nat)
    requires
        0 < queued <= total,
    ensures
        loaded_fraction((queued - 1) as nat, total) >= loaded_fraction(queued, total),
        loaded_fraction(queued, total) <= PROGRESS_ONE,
        total <= PROGRESS_ONE ==> loaded_fraction((queued - 1) as nat, total) > loaded_fraction(
            queued,
            total,
        ),
{
    let one = PROGRESS_ONE as nat;
    let done = (total - queued) as nat;
    assert(done * one <= total * one) by (nonlinear_arith)
        requires done <= total;
    assert(done * one / total <= one) by (nonlinear_arith)
        requires done * one <= total * one, total > 0;
    if queued > 1 {
        let more = (done + 1) as nat;
        assert(more * one <= total * one) by (nonlinear_arith)
            requires more <= total;
        assert(done * one <= more * one) by (nonlinear_arith)
            requires done <= more;
        assert(done * one / total <= more * one / total) by (nonlinear_arith)
            requires done * one <= more * one, total > 0;
        assert((total - (queued - 1)) as nat == more);
        if total <= one {
            assert(more * one == done * one + one) by (nonlinear_arith)
                requires more == done + 1;
            assert(done * one / total < more * one / total) by (nonlinear_arith)
                requires more * one == done * one + one, 0 < total <= one;
        }
    } else {
        let x = done * one;
        assert(x < total * one) by (nonlinear_arith)
            requires done < total, one > 0, x == done * one;
        assert(x / total < one) by (nonlinear_arith)
            requires x < total * one, total > 0;
    }
}

/// Loads a queue of resources one per call, so that loading spreads over
/// frames, and hands out each loaded resource once.
pub struct ResourceBuilder<R, ResourceType, F> {
    queued_resources: Vec<(u64, &'static str)>,
    loaded_resources: HashMap<u64, ResourceType>,
    total_resources_to_load: usize,
    phantom_resource_r: PhantomData<R>,
    phantom_resource_f: PhantomData<F>,
    requested: Ghost<Seq<&'static str>>,
}

impl<R, ResourceType, F> ResourceBuilder<R, ResourceType, F> {
    pub closed spec fn wf(&self) -> bool {
        self.queued_resources@.len() <= self.total_resources_to_load
    }

    /// The identifiers and paths still to load, in order.
    pub closed spec fn pending(&self) -> Seq<(u64, &'static str)> {
        self.queued_resources@
    }

    /// The loaded resources not yet handed out.
    pub closed spec fn loaded(&self) -> Map<u64, ResourceType> {
        self.loaded_resources@
    }

    /// How many resources were queued at the start.
    pub closed spec fn total(&self) -> nat {
        self.total_resources_to_load as nat
    }

    /// The paths handed to the factory so far, in order.
    pub closed spec fn requested(&self) -> Seq<&'static str> {
        self.requested@
    }
}

impl<R: Resources<ResourceType, F>, ResourceType, F: ResourceFactory<ResourceType>> ResourceBuilder<
    R,
    ResourceType,
    F,
> {
    pub fn new(queued_resources: Vec<(u64, &'static str)>) -> (r: Self)
        ensures
            r.wf(),
            r.pending() == queued_resources@,
            r.loaded().is_empty(),
            r.total() == queued_resources@.len(),
            r.requested().len() == 0,
    {
        let total_resources_to_load = queued_resources.len();
        ResourceBuilder {
            queued_resources,
            loaded_resources: HashMap::new(),
            total_resources_to_load,
            phantom_resource_r: PhantomData,
            phantom_resource_f: PhantomData,
            requested: Ghost(Seq::empty()),
        }
    }

    /// Loads the first queued resource, if any, and reports whether the
    /// queue is now empty.
    pub fn load_next(&mut self) -> (r: bool)
        requires
            old(self).wf(),
        ensures
            final(self).wf(),
            r == (final(self).pending().len() == 0),
            final(self).total() == old(self).total(),
            old(self).pending().len() == 0 ==> {
                &&& final(self).pending() == old(self).pending()
                &&& final(self).loaded() == old(self).loaded()
                &&& final(self).requested() == old(self).requested()
            },
            old(self).pending().len() > 0 ==> {
                let (key, path) = old(self).pending()[0];
                &&& final(self).pending() == old(self).pending().drop_first()
                &&& final(self).loaded() == old(self).loaded().insert(key, final(self).loaded()[key])
                &&& final(self).requested() == old(self).requested().push(path)
            },
    {
        if self.queued_resources.len() == 0 {
            return true;
        }
        let (key, path) = self.queued_resources[0];
        let resource = F::load_resource(path);
        self.requested = Ghost(self.requested@.push(path));
        self.loaded_resources.insert(key, resource);
        let _ = self.queued_resources.remove(0);
        proof {
            assert(self.queued_resources@ =~= old(self).queued_resources@.drop_first());
        }
        self.queued_resources.len() == 0
    }

    /// How many resources are still queued.
    pub fn pending_count(&self) -> (r: usize)
        ensures
            r == self.pending().len(),
    {
        self.queued_resources.len()
    }

    /// How many resources were queued at the start.
    pub fn total_count(&self) -> (r: usize)
        ensures
            r == self.total(),
    {
        self.total_resources_to_load
    }

    /// Fraction of the queue loaded so far, in units of `PROGRESS_ONE`.
    pub fn progress(&self) -> (r: u32)
        requires
            self.wf(),
        ensures
            r == loaded_fraction(self.pending().len(), self.total()),
            r <= PROGRESS_ONE,
    {
        let queued = self.queued_resources.len();
        if queued == 0 {
            PROGRESS_ONE
        } else {
            let total = self.total_resources_to_load;
            let done = (total - queued) as u128;
            proof {
                let one = PROGRESS_ONE as nat;
                let d = done as nat;
                let t = total as nat;
                assert(d * one <= t * one) by (nonlinear_arith)
                    requires d <= t;
                assert(d * one / t <= one) by (nonlinear_arith)
                    requires d * one <= t * one, t > 0;
            }
            (done * PROGRESS_ONE as u128 / total as u128) as u32
        }
    }

    /// Whether a loaded resource is waiting under `key`.
    pub fn contains(&self, key: u64) -> (r: bool)
        ensures
            r == self.loaded().contains_key(key),
    {
        self.loaded_resources.contains_key(&key)
    }

    /// Hands out the resource loaded under `key`, which must be there.
    pub fn get_or_panic(&mut self, key: u64) -> (r: ResourceType)
        requires
            old(self).loaded().contains_key(key),
        ensures
            r == old(self).loaded()[key],
            final(self).loaded() == old(self).loaded().remove(key),
            final(self).pending() == old(self).pending(),
            final(self).total() == old(self).total(),
            old(self).wf() ==> final(self).wf(),
    {
        self.loaded_resources.remove(&key).unwrap()
    }

    /// Assembles the bundle from what has been loaded.
    pub fn build(&mut self) -> R {
        R::build(self)
    }
}

} // verus!
