//! Prefix-scoped sampling of keys for the read workload.
//!
//! The sampler is fed one listing page at a time. Each page is added to a
//! pool of candidates that is shuffled after every refill, so the order of
//! reads does not follow the backend's listing order. Keys are popped from
//! the pool; once the listing is exhausted and the pool is empty, keys are
//! drawn uniformly with replacement from every key seen so far, so a small
//! prefix can still serve a large requested read count.

use vstd::prelude::*;
use rand::seq::SliceRandom;
use rand::Rng;

verus! {

broadcast use vstd::seq_lib::group_to_multiset_ensures;

/// Relies on rand's `SliceRandom::shuffle` with the thread-local generator:
/// it permutes the slice in place by swaps, so the keys it holds are kept.
#[verifier::external_body]
fn shuffle_keys(keys: &mut Vec<String>)
    ensures
        final(keys)@.to_multiset() == old(keys)@.to_multiset(),
{
    keys.shuffle(&mut rand::thread_rng());
}

/// Relies on rand's `Rng::gen_range` with the thread-local generator: a value
/// of the half-open range `0..bound`, which must not be empty.
#[verifier::external_body]
fn random_index(bound: usize) -> (r: usize)
    requires
        bound > 0,
    ensures
        r < bound,
{
    rand::thread_rng().gen_range(0..bound)
}

/// What the sampler hands a worker that asks for the next key.
#[derive(Debug)]
pub enum SampleStep {
    /// A key to read.
    Key(String),
    /// The pool is empty and the listing has more pages: fetch the next one
    /// and pass it to [`ReadSampler::refill`].
    NeedPage,
    /// The listing is exhausted and held no key at all: the read workload
    /// has nothing to do.
    Empty,
}

/// Sampler over the keys listed under one prefix.
pub struct ReadSampler {
    pool: Vec<String>,
    observed: Vec<String>,
    listing_done: bool,
}

impl ReadSampler {
    /// Keys waiting to be handed out, popped from the end.
    pub closed spec fn pool(&self) -> Seq<String> {
        self.pool@
    }

    /// Every key that the listing has returned so far, in listing order.
    pub closed spec fn observed(&self) -> Seq<String> {
        self.observed@
    }

    /// Whether the last page of the listing has been passed in.
    pub closed spec fn listing_done(&self) -> bool {
        self.listing_done
    }

    /// Every key in the pool was observed in the listing.
    pub closed spec fn wf(&self) -> bool {
        forall|i: int| 0 <= i < self.pool@.len() ==> self.observed@.contains(#[trigger] self.pool@[i])
    }

    /// A sampler that has seen no page yet.
    pub fn new() -> (s: ReadSampler)
        ensures
            s.wf(),
            s.pool() == Seq::<String>::empty(),
            s.observed() == Seq::<String>::empty(),
            !s.listing_done(),
    {
        ReadSampler { pool: Vec::new(), observed: Vec::new(), listing_done: false }
    }

    /// Whether the last page of the listing has been passed in.
    pub fn is_listing_done(&self) -> (r: bool)
        ensures
            r == self.listing_done(),
    {
        self.listing_done
    }

    /// Number of keys observed so far.
    pub fn observed_count(&self) -> (r: usize)
        ensures
            r == self.observed().len(),
    {
        self.observed.len()
    }

    /// Adds one listing page to the pool and to the observed keys, then
    /// reshuffles the pool. `last_page` marks the end of the listing.
    pub fn refill(&mut self, page: Vec<String>, last_page: bool)
        requires
            old(self).wf(),
        ensures
            final(self).wf(),
            final(self).observed() == old(self).observed() + page@,
            final(self).pool().to_multiset() == (old(self).pool() + page@).to_multiset(),
            final(self).listing_done() == last_page,
    {
        let ghost old_pool = self.pool@;
        let ghost old_observed = self.observed@;
        let mut i: usize = 0;
        while i < page.len()
            invariant
                i <= page@.len(),
                self.pool@ == old_pool + page@.subrange(0, i as int),
                self.observed@ == old_observed + page@.subrange(0, i as int),
                forall|j: int| 0 <= j < self.pool@.len() ==> self.observed@.contains(#[trigger] self.pool@[j]),
            decreases page@.len() - i,
        {
            let key = page[i].clone();
            let ghost before_observed = self.observed@;
            self.pool.push(key.clone());
            self.observed.push(key);
            assert forall|j: int| 0 <= j < self.pool@.len() implies self.observed@.contains(#[trigger] self.pool@[j]) by {
                if j < self.pool@.len() - 1 {
                    let w = choose|w: int| 0 <= w < before_observed.len() && before_observed[w] == self.pool@[j];
                    assert(self.observed@[w] == self.pool@[j]);
                } else {
                    assert(self.observed@[self.observed@.len() - 1] == self.pool@[j]);
                }
            }
            assert(page@.subrange(0, i + 1) == page@.subrange(0, i as int).push(page@[i as int]));
            i = i + 1;
        }
        assert(page@.subrange(0, page@.len() as int) == page@);
        let ghost before_shuffle = self.pool@;
        shuffle_keys(&mut self.pool);
        assert forall|j: int| 0 <= j < self.pool@.len() implies self.observed@.contains(#[trigger] self.pool@[j]) by {
            let k = self.pool@[j];
            assert(self.pool@.contains(k));
            assert(self.pool@.to_multiset().count(k) > 0);
            assert(before_shuffle.contains(k));
        }
        self.listing_done = last_page;
    }

    /// The next key for a read. Keys come from the shuffled pool while it
    /// holds any; with an empty pool the next page is asked for until the
    /// listing is exhausted; after that keys are drawn with replacement from
    /// every observed key, or `Empty` is returned if there was none.
    pub fn next_key(&mut self) -> (step: SampleStep)
        requires
            old(self).wf(),
        ensures
            final(self).wf(),
            final(self).observed() == old(self).observed(),
            final(self).listing_done() == old(self).listing_done(),
            old(self).pool().len() > 0 ==> step == SampleStep::Key(old(self).pool().last())
                && final(self).pool() == old(self).pool().drop_last(),
            old(self).pool().len() == 0 ==> final(self).pool() == old(self).pool(),
            old(self).pool().len() == 0 && !old(self).listing_done() ==> step is NeedPage,
            old(self).pool().len() == 0 && old(self).listing_done() && old(self).observed().len() == 0
                ==> step is Empty,
            old(self).pool().len() == 0 && old(self).listing_done() && old(self).observed().len() > 0
                ==> step is Key,
            step is Key ==> old(self).observed().contains(step->Key_0),
    {
        match self.pool.pop() {
            Some(key) => {
                proof {
                    let n = old(self).pool@.len() - 1;
                    assert(old(self).pool@[n] == key);
                    assert(self.pool@ == old(self).pool@.drop_last());
                    assert forall|j: int| 0 <= j < self.pool@.len() implies self.observed@.contains(#[trigger] self.pool@[j]) by {
                        assert(self.pool@[j] == old(self).pool@[j]);
                    }
                }
                SampleStep::Key(key)
            },
            None => {
                if !self.listing_done {
                    SampleStep::NeedPage
                } else if self.observed.len() == 0 {
                    SampleStep::Empty
                } else {
                    let i = random_index(self.observed.len());
                    let key = self.observed[i].clone();
                    assert(self.observed@[i as int] == key);
                    SampleStep::Key(key)
                }
            },
        }
    }

    /// Draws `n` keys once the whole listing has been passed in. With at
    /// least one observed key exactly `n` keys come back, each of them an
    /// observed one (drawn with replacement once the pool runs dry); with
    /// none, nothing comes back and the caller attempts no read.
    pub fn take_keys(&mut self, n: usize) -> (keys: Vec<String>)
        requires
            old(self).wf(),
            old(self).listing_done(),
        ensures
            final(self).wf(),
            final(self).listing_done(),
            final(self).observed() == old(self).observed(),
            old(self).observed().len() > 0 ==> keys@.len() == n,
            old(self).observed().len() == 0 ==> keys@.len() == 0,
            forall|i: int| 0 <= i < keys@.len() ==> old(self).observed().contains(#[trigger] keys@[i]),
            forall|i: int|
                0 <= i < keys@.len() && i < old(self).pool().len() ==> #[trigger] keys@[i] == old(self).pool()[old(self).pool().len() - 1 - i],
    {
        let mut keys: Vec<String> = Vec::new();
        let mut i: usize = 0;
        while i < n
            invariant
                self.wf(),
                self.listing_done(),
                self.observed() == old(self).observed(),
                i <= n,
                keys@.len() == i,
                forall|j: int| 0 <= j < keys@.len() ==> old(self).observed().contains(#[trigger] keys@[j]),
                old(self).observed().len() == 0 ==> i == 0,
                i <= old(self).pool().len() ==> self.pool() == old(self).pool().subrange(0, old(self).pool().len() - i),
                i > old(self).pool().len() ==> self.pool().len() == 0,
                forall|j: int|
                    0 <= j < keys@.len() && j < old(self).pool().len() ==> #[trigger] keys@[j] == old(self).pool()[old(self).pool().len() - 1 - j],
            decreases n - i,
        {
            let ghost before = self.pool();
            let ghost len = old(self).pool().len();
            match self.next_key() {
                SampleStep::Key(key) => {
                    keys.push(key);
                    proof {
                        if i < len {
                            assert(before.len() == len - i);
                            assert(key == old(self).pool()[len - 1 - i]);
                            assert(self.pool() =~= old(self).pool().subrange(0, len - (i + 1)));
                        } else if i == len {
                            assert(before.len() == 0);
                        }
                    }
                },
                _ => {
                    proof {
                        if self.observed().len() > 0 {
                            assert(self.observed().contains(self.observed()[0]));
                        }
                    }
                    return keys;
                },
            }
            i = i + 1;
        }
        keys
    }
}

} // verus!
