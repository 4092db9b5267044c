//! Claims on queue entries: what a queue tick has emitted and its source still
//! surfaces.
use vstd::prelude::*;

verus! {

/// A set of claimed keys.
pub struct ClaimSet {
    keys: Vec<i64>,
}

impl View for ClaimSet {
    type V = Set<i64>;

    closed spec fn view(&self) -> Set<i64> {
        self.keys@.to_set()
    }
}

/// Whether position `i` of the surfaced `keys` is to be emitted: its key is not
/// claimed, and did not occur before.
pub open spec fn fresh(claims: Set<i64>, keys: Seq<i64>, i: int) -> bool {
    !claims.contains(keys[i]) && !keys.take(i).contains(keys[i])
}

/// The positions of `keys` to be emitted, in order.
pub open spec fn fresh_positions(claims: Set<i64>, keys: Seq<i64>) -> Seq<int>
    decreases keys.len(),
{
    if keys.len() == 0 {
        Seq::empty()
    } else {
        let before = fresh_positions(claims, keys.drop_last());
        if fresh(claims, keys, keys.len() - 1) {
            before.push(keys.len() - 1)
        } else {
            before
        }
    }
}

impl ClaimSet {
    #[verifier::type_invariant]
    spec fn well_formed(self) -> bool {
        self.keys@.no_duplicates()
    }

    /// Nothing is claimed.
    pub fn new() -> (r: Self)
        ensures
            r@ == Set::<i64>::empty(),
    {
        let r = ClaimSet { keys: Vec::new() };
        assert(r@ =~= Set::<i64>::empty());
        r
    }

    /// How many keys are claimed.
    pub fn len(&self) -> (n: usize)
        ensures
            n == self@.len(),
            self@.finite(),
    {
        proof {
            use_type_invariant(self);
            self.keys@.unique_seq_to_set();
        }
        self.keys.len()
    }

    /// Whether `key` is claimed.
    pub fn contains(&self, key: i64) -> (b: bool)
        ensures
            b == self@.contains(key),
    {
        for i in 0..self.keys.len()
            invariant
                forall|j: int| 0 <= j < i ==> self.keys@[j] != key,
        {
            if self.keys[i] == key {
                return true;
            }
        }
        false
    }

    /// Claim `key`.
    pub fn insert(&mut self, key: i64)
        ensures
            final(self)@ == old(self)@.insert(key),
    {
        if self.contains(key) {
            assert(self@ =~= old(self)@.insert(key));
            return;
        }
        proof {
            use_type_invariant(&*self);
        }
        let mut keys: Vec<i64> = Vec::new();
        std::mem::swap(&mut keys, &mut self.keys);
        let ghost before = keys@;
        keys.push(key);
        assert(keys@.to_set() =~= before.to_set().insert(key)) by {
            assert(keys@[before.len() as int] == key);
            assert forall|k: i64| before.contains(k) implies keys@.contains(k) by {
                let i = choose|i: int| 0 <= i < before.len() && before[i] == k;
                assert(keys@[i] == k);
            }
        }
        self.keys = keys;
    }

    /// Drop the claims whose keys are not in `surfaced`.
    pub fn retain(&mut self, surfaced: &Vec<i64>)
        ensures
            final(self)@ == old(self)@.intersect(surfaced@.to_set()),
    {
        proof {
            use_type_invariant(&*self);
        }
        let mut kept: Vec<i64> = Vec::new();
        for i in 0..self.keys.len()
            invariant
                self.keys@.no_duplicates(),
                kept@.no_duplicates(),
                forall|k: i64|
                    kept@.contains(k) <==> self.keys@.take(i as int).contains(k)
                        && surfaced@.contains(k),
        {
            let key: i64 = self.keys[i];
            let mut found: bool = false;
            for j in 0..surfaced.len()
                invariant
                    found == exists|m: int| 0 <= m < j && surfaced@[m] == key,
            {
                if surfaced[j] == key {
                    found = true;
                }
            }
            let ghost before = kept@;
            let ghost seen = self.keys@.take(i as int);
            proof {
                assert(self.keys@.take(i + 1) =~= seen.push(key));
                assert(found == surfaced@.contains(key));
                assert(!seen.contains(key)) by {
                    if seen.contains(key) {
                        let m = choose|m: int| 0 <= m < seen.len() && seen[m] == key;
                        assert(self.keys@[m] == self.keys@[i as int]);
                    }
                }
                assert forall|k: i64| self.keys@.take(i + 1).contains(k) <==> (seen.contains(k) || k
                    == key) by {
                    if seen.contains(k) {
                        let m = choose|m: int| 0 <= m < seen.len() && seen[m] == k;
                        assert(self.keys@.take(i + 1)[m] == k);
                    }
                    if k == key {
                        assert(self.keys@.take(i + 1)[i as int] == k);
                    }
                }
            }
            if found {
                kept.push(key);
                assert forall|k: i64| kept@.contains(k) <==> (before.contains(k) || k == key) by {
                    if before.contains(k) {
                        let m = choose|m: int| 0 <= m < before.len() && before[m] == k;
                        assert(kept@[m] == k);
                    }
                    if k == key {
                        assert(kept@[before.len() as int] == k);
                    }
                }
            }
            assert forall|k: i64| kept@.contains(k) <==> self.keys@.take(i + 1).contains(k)
                && surfaced@.contains(k) by {
                assert(before.contains(k) <==> seen.contains(k) && surfaced@.contains(k));
            }
        }
        assert(self.keys@.take(self.keys@.len() as int) =~= self.keys@);
        assert(kept@.to_set() =~= old(self)@.intersect(surfaced@.to_set()));
        self.keys = kept;
    }
}

/// What is emitted: positions in order, each of a key that was not claimed, no
/// key twice.
pub proof fn fresh_positions_are_new(claims: Set<i64>, keys: Seq<i64>)
    ensures
        fresh_positions(claims, keys).len() <= keys.len(),
        forall|m: int|
            0 <= m < fresh_positions(claims, keys).len() ==> {
                let p = #[trigger] fresh_positions(claims, keys)[m];
                0 <= p < keys.len() && fresh(claims, keys, p)
            },
        forall|m: int, n: int|
            0 <= m < n < fresh_positions(claims, keys).len() ==> #[trigger] fresh_positions(
                claims,
                keys,
            )[m] < #[trigger] fresh_positions(claims, keys)[n],
    decreases keys.len(),
{
    if keys.len() > 0 {
        let init = keys.drop_last();
        fresh_positions_are_new(claims, init);
        let before = fresh_positions(claims, init);
        assert forall|m: int| 0 <= m < before.len() implies {
            let p = #[trigger] before[m];
            0 <= p < keys.len() && fresh(claims, keys, p)
        } by {
            let p = before[m];
            assert(init.take(p) =~= keys.take(p));
        }
    }
}

/// Which positions are emitted: exactly those whose key is not claimed and stands at no
/// earlier position.
pub proof fn first_unclaimed_positions_are_emitted(claims: Set<i64>, keys: Seq<i64>, i: int)
    requires
        0 <= i < keys.len(),
    ensures
        fresh_positions(claims, keys).contains(i) <==> !claims.contains(keys[i]) && forall|j: int|
            0 <= j < i ==> keys[j] != keys[i],
    decreases keys.len(),
{
    let init = keys.drop_last();
    let before = fresh_positions(claims, init);
    let all = fresh_positions(claims, keys);
    let last = keys.len() - 1;
    fresh_positions_are_new(claims, init);
    if i < last {
        first_unclaimed_positions_are_emitted(claims, init, i);
        assert forall|j: int| 0 <= j <= i implies init[j] == keys[j] by {}
        if forall|j: int| 0 <= j < i ==> keys[j] != keys[i] {
            assert forall|j: int| 0 <= j < i implies init[j] != init[i] by {
                assert(keys[j] != keys[i]);
            }
        }
        if forall|j: int| 0 <= j < i ==> init[j] != init[i] {
            assert forall|j: int| 0 <= j < i implies keys[j] != keys[i] by {
                assert(init[j] != init[i]);
            }
        }
        if before.contains(i) {
            let m = choose|m: int| 0 <= m < before.len() && before[m] == i;
            assert(all[m] == i);
        }
        if all.contains(i) {
            let m = choose|m: int| 0 <= m < all.len() && all[m] == i;
            assert(before[m] == i);
        }
    } else {
        assert(!before.contains(i)) by {
            if before.contains(i) {
                let m = choose|m: int| 0 <= m < before.len() && before[m] == i;
                assert(before[m] < init.len());
            }
        }
        if keys.take(i).contains(keys[i]) {
            let j = choose|j: int| 0 <= j < i && keys.take(i)[j] == keys[i];
            assert(keys[j] == keys[i]);
        } else {
            assert forall|j: int| 0 <= j < i implies keys[j] != keys[i] by {
                assert(keys.take(i)[j] == keys[j]);
            }
        }
        if fresh(claims, keys, last) {
            assert(all[all.len() - 1] == i);
        }
    }
}

/// Every surfaced key that was not claimed is emitted.
pub proof fn unclaimed_keys_are_emitted(claims: Set<i64>, keys: Seq<i64>, key: i64)
    requires
        keys.contains(key),
        !claims.contains(key),
    ensures
        exists|m: int|
            0 <= m < fresh_positions(claims, keys).len() && keys[#[trigger] fresh_positions(
                claims,
                keys,
            )[m]] == key,
    decreases keys.len(),
{
    let init = keys.drop_last();
    let all = fresh_positions(claims, keys);
    if init.contains(key) {
        unclaimed_keys_are_emitted(claims, init, key);
        let before = fresh_positions(claims, init);
        let m = choose|m: int|
            0 <= m < before.len() && init[#[trigger] before[m]] == key;
        fresh_positions_are_new(claims, init);
        assert(all[m] == before[m]);
        assert(keys[all[m]] == key);
    } else {
        let i = choose|i: int| 0 <= i < keys.len() && keys[i] == key;
        assert(i == keys.len() - 1) by {
            if i < keys.len() - 1 {
                assert(init[i] == key);
            }
        }
        assert(keys.take(i) =~= init);
        assert(fresh(claims, keys, i));
        assert(all[all.len() - 1] == i);
    }
}

/// Nothing is emitted when every surfaced key is claimed.
pub proof fn claimed_keys_are_not_emitted(claims: Set<i64>, keys: Seq<i64>)
    requires
        forall|i: int| 0 <= i < keys.len() ==> claims.contains(#[trigger] keys[i]),
    ensures
        fresh_positions(claims, keys).len() == 0,
    decreases keys.len(),
{
    if keys.len() > 0 {
        let init = keys.drop_last();
        assert forall|i: int| 0 <= i < init.len() implies claims.contains(#[trigger] init[i]) by {
            assert(init[i] == keys[i]);
        }
        claimed_keys_are_not_emitted(claims, init);
    }
}

} // verus!
