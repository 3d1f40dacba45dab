//! The cleanup ledger: every key this run wrote, so that exactly those keys
//! can be deleted at shutdown.

use vstd::prelude::*;

verus! {

/// The ledger after one write completion: a successful write adds its key
/// unless the key is already there; a failed write changes nothing.
pub open spec fn ledger_step(ledger: Seq<Seq<char>>, key: Seq<char>, stored: bool) -> Seq<Seq<char>> {
    if stored && !ledger.contains(key) {
        ledger.push(key)
    } else {
        ledger
    }
}

/// The ledger after the write completions `keys[i]` / `stored[i]`, taken in
/// order, starting from an empty ledger.
pub open spec fn ledger_of(keys: Seq<Seq<char>>, stored: Seq<bool>) -> Seq<Seq<char>>
    decreases keys.len(),
{
    if keys.len() == 0 || stored.len() < keys.len() {
        Seq::empty()
    } else {
        ledger_step(
            ledger_of(keys.drop_last(), stored.subrange(0, keys.len() - 1)),
            keys.last(),
            stored[keys.len() - 1],
        )
    }
}

/// How many of the first `n` completions succeeded.
pub open spec fn count_stored(stored: Seq<bool>, n: int) -> nat
    decreases n,
{
    if n <= 0 {
        0
    } else {
        count_stored(stored, n - 1) + if stored[n - 1] { 1nat } else { 0nat }
    }
}

/// The count of successes among the first `n` completions depends on those
/// completions alone.
proof fn lemma_count_prefix(stored: Seq<bool>, m: int, n: int)
    requires
        0 <= n <= m <= stored.len(),
    ensures
        count_stored(stored.subrange(0, m), n) == count_stored(stored, n),
    decreases n,
{
    if n > 0 {
        lemma_count_prefix(stored, m, n - 1);
    }
}

/// With distinct keys, the ledger holds one entry per successful write (not
/// per attempted write), and it holds exactly the keys of the successful
/// writes.
pub proof fn lemma_ledger_matches_successes(keys: Seq<Seq<char>>, stored: Seq<bool>)
    requires
        keys.len() == stored.len(),
        keys.no_duplicates(),
    ensures
        ledger_of(keys, stored).len() == count_stored(stored, keys.len() as int),
        forall|i: int|
            0 <= i < keys.len() ==> (ledger_of(keys, stored).contains(keys[i]) <==> stored[i]),
        forall|x: Seq<char>| ledger_of(keys, stored).contains(x) ==> keys.contains(x),
    decreases keys.len(),
{
    let n = keys.len() as int;
    if n > 0 {
        let prev_keys = keys.drop_last();
        let prev_stored = stored.subrange(0, n - 1);
        lemma_ledger_matches_successes(prev_keys, prev_stored);
        lemma_count_prefix(stored, n - 1, n - 1);
        let prev = ledger_of(prev_keys, prev_stored);
        let last = keys[n - 1];
        assert(!prev_keys.contains(last)) by {
            if prev_keys.contains(last) {
                let j = choose|j: int| 0 <= j < prev_keys.len() && prev_keys[j] == last;
                assert(keys[j] == keys[n - 1]);
            }
        }
        assert(!prev.contains(last));
        let cur = ledger_of(keys, stored);
        assert(cur == ledger_step(prev, last, stored[n - 1]));
        assert forall|i: int| 0 <= i < keys.len() implies (cur.contains(keys[i]) <==> stored[i]) by {
            if i < n - 1 {
                assert(prev_keys[i] == keys[i]);
                assert(prev_stored[i] == stored[i]);
                assert(keys[i] != last);
                if stored[n - 1] {
                    assert(cur == prev.push(last));
                    if cur.contains(keys[i]) {
                        let j = choose|j: int| 0 <= j < cur.len() && cur[j] == keys[i];
                        if j < prev.len() {
                            assert(prev[j] == keys[i]);
                        }
                    }
                    if prev.contains(keys[i]) {
                        let j = choose|j: int| 0 <= j < prev.len() && prev[j] == keys[i];
                        assert(cur[j] == keys[i]);
                    }
                }
            } else if stored[n - 1] {
                assert(cur[cur.len() - 1] == last);
            }
        }
        assert forall|x: Seq<char>| cur.contains(x) implies keys.contains(x) by {
            if x == last {
                assert(keys[n - 1] == x);
            } else {
                if stored[n - 1] {
                    let j = choose|j: int| 0 <= j < cur.len() && cur[j] == x;
                    assert(prev[j] == x);
                }
                assert(prev.contains(x));
                assert(prev_keys.contains(x));
                let j = choose|j: int| 0 <= j < prev_keys.len() && prev_keys[j] == x;
                assert(keys[j] == x);
            }
        }
    }
}

/// Once every key of the ledger has been deleted, none of the keys that the
/// run wrote successfully is left in the bucket.
pub proof fn lemma_cleanup_leaves_no_written_key(
    keys: Seq<Seq<char>>,
    stored: Seq<bool>,
    bucket: Set<Seq<char>>,
)
    requires
        keys.len() == stored.len(),
        keys.no_duplicates(),
    ensures
        forall|i: int|
            0 <= i < keys.len() && stored[i] ==> !bucket.difference(
                ledger_of(keys, stored).to_set(),
            ).contains(#[trigger] keys[i]),
{
    lemma_ledger_matches_successes(keys, stored);
    assert forall|i: int| 0 <= i < keys.len() && stored[i] implies !bucket.difference(
        ledger_of(keys, stored).to_set(),
    ).contains(#[trigger] keys[i]) by {
        assert(ledger_of(keys, stored).contains(keys[i]));
        assert(ledger_of(keys, stored).to_set().contains(keys[i]));
    }
}

/// Keys of the run's successful writes, each once.
pub struct CleanupLedger {
    keys: Vec<String>,
}

impl CleanupLedger {
    /// The recorded keys, in the order they were recorded.
    pub closed spec fn keys(&self) -> Seq<Seq<char>> {
        self.keys@.map_values(|k: String| k@)
    }

    /// A ledger with nothing recorded.
    pub fn new() -> (l: CleanupLedger)
        ensures
            l.keys() == Seq::<Seq<char>>::empty(),
    {
        CleanupLedger { keys: Vec::new() }
    }

    /// Number of recorded keys.
    pub fn len(&self) -> (r: usize)
        ensures
            r == self.keys().len(),
    {
        self.keys.len()
    }

    /// Whether `key` is recorded.
    pub fn contains(&self, key: &String) -> (r: bool)
        ensures
            r == self.keys().contains(key@),
    {
        let mut i: usize = 0;
        while i < self.keys.len()
            invariant
                i <= self.keys@.len(),
                forall|j: int| 0 <= j < i ==> self.keys@[j]@ != key@,
            decreases self.keys@.len() - i,
        {
            if self.keys[i] == *key {
                assert(self.keys()[i as int] == key@);
                return true;
            }
            i = i + 1;
        }
        proof {
            if self.keys().contains(key@) {
                let j = choose|j: int| 0 <= j < self.keys().len() && self.keys()[j] == key@;
                assert(self.keys@[j]@ == key@);
            }
        }
        false
    }

    /// Records the completion of one write of `key`: the key is added when
    /// `stored` holds and it is not recorded yet.
    pub fn record_write(&mut self, key: String, stored: bool)
        ensures
            final(self).keys() == ledger_step(old(self).keys(), key@, stored),
            old(self).keys().no_duplicates() ==> final(self).keys().no_duplicates(),
    {
        if stored && !self.contains(&key) {
            self.keys.push(key);
            assert(self.keys() =~= old(self).keys().push(key@));
            proof {
                if old(self).keys().no_duplicates() {
                    let ks = self.keys();
                    assert forall|i: int, j: int| 0 <= i < ks.len() && 0 <= j < ks.len() && i != j
                        implies ks[i] != ks[j] by {
                        if i == ks.len() - 1 {
                            assert(old(self).keys()[j] == ks[j]);
                        } else if j == ks.len() - 1 {
                            assert(old(self).keys()[i] == ks[i]);
                        }
                    }
                }
            }
        }
    }

    /// Hands out every recorded key and leaves the ledger empty.
    pub fn drain(&mut self) -> (keys: Vec<String>)
        ensures
            keys@.map_values(|k: String| k@) == old(self).keys(),
            final(self).keys() == Seq::<Seq<char>>::empty(),
    {
        let mut keys: Vec<String> = Vec::new();
        keys.append(&mut self.keys);
        assert(keys@ == old(self).keys@);
        assert(self.keys() =~= Seq::<Seq<char>>::empty());
        keys
    }
}

/// Outcome of the cleanup phase: how many deletes were attempted, and the
/// keys whose delete failed.
pub struct CleanupReport {
    pub attempted: u64,
    pub failed: Vec<String>,
}

impl CleanupReport {
    /// A report of no delete.
    pub fn new() -> (r: CleanupReport)
        ensures
            r.attempted == 0,
            r.failed@.len() == 0,
    {
        CleanupReport { attempted: 0, failed: Vec::new() }
    }

    /// Records one delete attempt of `key`; a failed one keeps its key.
    pub fn record_delete(&mut self, key: String, deleted: bool)
        requires
            old(self).attempted < u64::MAX,
        ensures
            final(self).attempted == old(self).attempted + 1,
            deleted ==> final(self).failed@ == old(self).failed@,
            !deleted ==> final(self).failed@ == old(self).failed@.push(key),
    {
        self.attempted = self.attempted + 1;
        if !deleted {
            self.failed.push(key);
        }
    }

    /// Whether every attempted delete succeeded.
    pub fn all_deleted(&self) -> (r: bool)
        ensures
            r == (self.failed@.len() == 0),
    {
        self.failed.len() == 0
    }
}

} // verus!
