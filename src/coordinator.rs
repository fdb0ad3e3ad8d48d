use vstd::prelude::*;

verus! {

/// The part that one request plays in filling the cache for a key.
#[derive(Debug, Clone, Copy, PartialEq, Eq, Structural)]
pub enum Role {
    /// The image is cached already; nothing is fetched.
    Hit,
    /// No fetch for the key was outstanding: this request fetches and
    /// publishes, then resolves the key.
    Owner,
    /// A fetch for the key is outstanding: this request waits for its
    /// outcome and fetches nothing.
    Waiter,
}

/// The keys in flight after a request for `key` that found the cache in
/// state `hit`, and the part that request plays.
pub open spec fn begin_spec(s: Set<Seq<char>>, key: Seq<char>, hit: bool) -> (Set<Seq<char>>, Role) {
    if hit {
        (s, Role::Hit)
    } else if s.contains(key) {
        (s, Role::Waiter)
    } else {
        (s.insert(key), Role::Owner)
    }
}

/// The parts played by a burst of cache misses for `keys`, taken in
/// order, starting with the keys `s` in flight.
pub open spec fn burst_roles(s: Set<Seq<char>>, keys: Seq<Seq<char>>) -> Seq<Role>
    decreases keys.len(),
{
    if keys.len() == 0 {
        Seq::empty()
    } else {
        let (s1, r) = begin_spec(s, keys[0], false);
        seq![r] + burst_roles(s1, keys.drop_first())
    }
}

/// The keys in flight after a burst of cache misses for `keys`.
pub open spec fn burst_state(s: Set<Seq<char>>, keys: Seq<Seq<char>>) -> Set<Seq<char>>
    decreases keys.len(),
{
    if keys.len() == 0 {
        s
    } else {
        burst_state(begin_spec(s, keys[0], false).0, keys.drop_first())
    }
}

/// The record of outstanding origin fetches: one entry per key whose
/// fetch has begun and not yet resolved.
#[derive(Debug)]
pub struct InFlight {
    keys: Vec<String>,
}

impl InFlight {
    /// The keys whose fetch is outstanding.
    pub closed spec fn view(&self) -> Set<Seq<char>> {
        Set::new(|k: Seq<char>| exists|i: int| 0 <= i < self.keys@.len() && #[trigger] self.keys@[i]@ == k)
    }

    /// No fetch is outstanding.
    pub fn new() -> (r: InFlight)
        ensures
            r@ == Set::<Seq<char>>::empty(),
    {
        let r = InFlight { keys: Vec::new() };
        assert(r@ =~= Set::<Seq<char>>::empty());
        r
    }

    /// Whether a fetch for `key` is outstanding.
    pub fn contains(&self, key: &String) -> (r: bool)
        ensures
            r == self@.contains(key@),
    {
        let mut i: usize = 0;
        while i < self.keys.len()
            invariant
                i <= self.keys@.len(),
                forall|j: int| 0 <= j < i ==> #[trigger] self.keys@[j]@ != key@,
            decreases self.keys@.len() - i,
        {
            if self.keys[i] == *key {
                assert(self.keys@[i as int]@ == key@);
                return true;
            }
            i = i + 1;
        }
        false
    }

    /// Decides, in one step, the part of a request for `key` that found
    /// the cache in state `hit`, and records the key when that request
    /// becomes its owner.
    pub fn begin(&mut self, key: &String, hit: bool) -> (r: Role)
        ensures
            (final(self)@, r) == begin_spec(old(self)@, key@, hit),
    {
        if hit {
            return Role::Hit;
        }
        if self.contains(key) {
            return Role::Waiter;
        }
        self.keys.push(key.clone());
        proof {
            let n = old(self).keys@.len();
            assert(self.keys@[n as int]@ == key@);
            assert forall|k: Seq<char>| old(self)@.contains(k) implies #[trigger] self@.contains(k) by {
                let i = choose|i: int| 0 <= i < n && #[trigger] old(self).keys@[i]@ == k;
                assert(self.keys@[i]@ == k);
            }
            assert(self@ =~= old(self)@.insert(key@));
        }
        Role::Owner
    }

    /// Removes the record of the fetch for `key`, whatever its outcome, so
    /// that the next miss for `key` fetches again.
    pub fn resolve(&mut self, key: &String)
        ensures
            final(self)@ == old(self)@.remove(key@),
    {
        let mut kept: Vec<String> = Vec::new();
        let mut i: usize = 0;
        while i < self.keys.len()
            invariant
                i <= self.keys@.len(),
                forall|j: int| 0 <= j < kept@.len() ==> #[trigger] kept@[j]@ != key@,
                forall|j: int| 0 <= j < kept@.len() ==> exists|m: int| 0 <= m < i && #[trigger] self.keys@[m]@ == (#[trigger] kept@[j])@,
                forall|m: int| 0 <= m < i && #[trigger] self.keys@[m]@ != key@ ==> exists|j: int| 0 <= j < kept@.len() && #[trigger] kept@[j]@ == self.keys@[m]@,
            decreases self.keys@.len() - i,
        {
            let ghost prev = kept@;
            if self.keys[i] != *key {
                let k = self.keys[i].clone();
                kept.push(k);
                assert(kept@[kept@.len() - 1]@ == self.keys@[i as int]@);
            }
            proof {
                assert forall|m: int| 0 <= m < i + 1 && #[trigger] self.keys@[m]@ != key@ implies exists|j: int|
                    0 <= j < kept@.len() && #[trigger] kept@[j]@ == self.keys@[m]@ by {
                    if m < i {
                        let j = choose|j: int| 0 <= j < prev.len() && #[trigger] prev[j]@ == self.keys@[m]@;
                        assert(kept@[j] == prev[j]);
                    } else {
                        assert(kept@[kept@.len() - 1]@ == self.keys@[m]@);
                    }
                }
                assert forall|j: int| 0 <= j < kept@.len() implies exists|m: int| 0 <= m < i + 1 && #[trigger] self.keys@[m]@ == (#[trigger] kept@[j])@ by {
                    if j < prev.len() {
                        assert(kept@[j] == prev[j]);
                        let m = choose|m: int| 0 <= m < i && #[trigger] self.keys@[m]@ == (#[trigger] prev[j])@;
                        assert(self.keys@[m]@ == kept@[j]@);
                    } else {
                        assert(self.keys@[i as int]@ == kept@[j]@);
                    }
                }
            }
            i = i + 1;
        }
        let ghost before = self@;
        let ghost old_keys = self.keys@;
        self.keys = kept;
        proof {
            assert forall|k: Seq<char>| self@.contains(k) <==> before.remove(key@).contains(k) by {
                if self@.contains(k) {
                    let j = choose|j: int| 0 <= j < self.keys@.len() && #[trigger] self.keys@[j]@ == k;
                    let m = choose|m: int| 0 <= m < old_keys.len() && #[trigger] old_keys[m]@ == self.keys@[j]@;
                    assert(before.contains(k));
                }
                if before.remove(key@).contains(k) {
                    let m = choose|m: int| 0 <= m < old_keys.len() && #[trigger] old_keys[m]@ == k;
                    assert(old_keys[m]@ != key@);
                    let j = choose|j: int| 0 <= j < self.keys@.len() && #[trigger] self.keys@[j]@ == old_keys[m]@;
                    assert(self.keys@[j]@ == k);
                }
            }
            assert(self@ =~= before.remove(key@));
        }
    }
}

proof fn lemma_waiters_while_in_flight(s: Set<Seq<char>>, key: Seq<char>, keys: Seq<Seq<char>>)
    requires
        s.contains(key),
        forall|i: int| 0 <= i < keys.len() ==> keys[i] == key,
    ensures
        burst_roles(s, keys).len() == keys.len(),
        forall|i: int| 0 <= i < keys.len() ==> burst_roles(s, keys)[i] == Role::Waiter,
        burst_state(s, keys) == s,
    decreases keys.len(),
{
    if keys.len() > 0 {
        lemma_waiters_while_in_flight(s, key, keys.drop_first());
        assert forall|i: int| 0 <= i < keys.len() implies burst_roles(s, keys)[i] == Role::Waiter by {
            if i > 0 {
                assert(burst_roles(s, keys)[i] == burst_roles(s, keys.drop_first())[i - 1]);
            }
        }
    }
}

/// A burst of misses for one key that is not in flight fetches from the
/// origin exactly once: the first request owns the fetch, every later one
/// waits for it, and the key stays in flight until resolved.
pub proof fn lemma_one_fetch_per_key_burst(s: Set<Seq<char>>, key: Seq<char>, keys: Seq<Seq<char>>)
    requires
        !s.contains(key),
        keys.len() > 0,
        forall|i: int| 0 <= i < keys.len() ==> keys[i] == key,
    ensures
        burst_roles(s, keys).len() == keys.len(),
        burst_roles(s, keys)[0] == Role::Owner,
        forall|i: int| 0 < i < keys.len() ==> burst_roles(s, keys)[i] == Role::Waiter,
        burst_state(s, keys) == s.insert(key),
{
    let s1 = s.insert(key);
    lemma_waiters_while_in_flight(s1, key, keys.drop_first());
    assert forall|i: int| 0 < i < keys.len() implies burst_roles(s, keys)[i] == Role::Waiter by {
        assert(burst_roles(s, keys)[i] == burst_roles(s1, keys.drop_first())[i - 1]);
    }
}

/// A burst of misses for distinct keys, none of them in flight, fetches
/// each key once: every request owns the fetch of its key.
pub proof fn lemma_one_fetch_per_distinct_key(s: Set<Seq<char>>, keys: Seq<Seq<char>>)
    requires
        forall|i: int| 0 <= i < keys.len() ==> !s.contains(#[trigger] keys[i]),
        forall|i: int, j: int| 0 <= i < j < keys.len() ==> keys[i] != keys[j],
    ensures
        burst_roles(s, keys).len() == keys.len(),
        forall|i: int| 0 <= i < keys.len() ==> burst_roles(s, keys)[i] == Role::Owner,
        burst_state(s, keys) == s.union(keys.to_set()),
    decreases keys.len(),
{
    if keys.len() == 0 {
        assert(keys.to_set() =~= Set::<Seq<char>>::empty());
        assert(s.union(keys.to_set()) =~= s);
    } else {
        let s1 = s.insert(keys[0]);
        let tail = keys.drop_first();
        assert forall|i: int| 0 <= i < tail.len() implies !s1.contains(#[trigger] tail[i]) by {
            assert(tail[i] == keys[i + 1]);
        }
        assert forall|i: int, j: int| 0 <= i < j < tail.len() implies tail[i] != tail[j] by {
            assert(tail[i] == keys[i + 1] && tail[j] == keys[j + 1]);
        }
        lemma_one_fetch_per_distinct_key(s1, tail);
        assert forall|i: int| 0 <= i < keys.len() implies burst_roles(s, keys)[i] == Role::Owner by {
            if i > 0 {
                assert(burst_roles(s, keys)[i] == burst_roles(s1, tail)[i - 1]);
            }
        }
        assert forall|k: Seq<char>| keys.to_set().contains(k) <==> (k == keys[0] || tail.to_set().contains(k)) by {
            if keys.to_set().contains(k) {
                let i = choose|i: int| 0 <= i < keys.len() && keys[i] == k;
                if i > 0 {
                    assert(tail[i - 1] == k);
                }
            }
            if tail.to_set().contains(k) {
                let i = choose|i: int| 0 <= i < tail.len() && tail[i] == k;
                assert(keys[i + 1] == k);
            }
            if k == keys[0] {
                assert(keys.contains(k));
            }
        }
        assert(s.union(keys.to_set()) =~= s1.union(tail.to_set()));
    }
}

/// Whether `keys[i]` is the first request for its key in the burst.
pub open spec fn first_request(keys: Seq<Seq<char>>, i: int) -> bool {
    forall|j: int| 0 <= j < i ==> keys[j] != keys[i]
}

/// In any burst of misses, a request owns a fetch exactly when its key is
/// not in flight and no earlier request of the burst asked for it; every
/// other request waits. The burst leaves every key it asked for in flight.
pub proof fn lemma_owner_is_first_request(s: Set<Seq<char>>, keys: Seq<Seq<char>>)
    ensures
        burst_roles(s, keys).len() == keys.len(),
        forall|i: int| 0 <= i < keys.len() ==> (#[trigger] burst_roles(s, keys)[i] == Role::Owner
            <==> !s.contains(keys[i]) && first_request(keys, i)),
        forall|i: int| 0 <= i < keys.len() ==> #[trigger] burst_roles(s, keys)[i] != Role::Hit,
        burst_state(s, keys) == s.union(keys.to_set()),
    decreases keys.len(),
{
    if keys.len() == 0 {
        assert(s.union(keys.to_set()) =~= s);
    } else {
        let s1 = s.insert(keys[0]);
        let tail = keys.drop_first();
        assert(begin_spec(s, keys[0], false).0 == s1) by {
            if s.contains(keys[0]) {
                assert(s =~= s1);
            }
        }
        lemma_owner_is_first_request(s1, tail);
        let roles = burst_roles(s, keys);
        assert forall|i: int| 0 <= i < keys.len() implies (#[trigger] roles[i] == Role::Owner
            <==> !s.contains(keys[i]) && first_request(keys, i)) && roles[i] != Role::Hit by {
            if i > 0 {
                assert(roles[i] == burst_roles(s1, tail)[i - 1]);
                assert(tail[i - 1] == keys[i]);
                if first_request(keys, i) {
                    assert forall|j: int| 0 <= j < i - 1 implies #[trigger] tail[j] != tail[i - 1] by {
                        assert(tail[j] == keys[j + 1]);
                    }
                }
                if first_request(tail, i - 1) && keys[0] != keys[i] {
                    assert forall|j: int| 0 <= j < i implies keys[j] != keys[i] by {
                        if j > 0 {
                            assert(tail[j - 1] == keys[j]);
                        }
                    }
                }
                if !first_request(keys, i) {
                    let j = choose|j: int| 0 <= j < i && keys[j] == keys[i];
                    if j > 0 {
                        assert(tail[j - 1] == tail[i - 1]);
                    }
                }
            }
        }
        assert forall|k: Seq<char>| keys.to_set().contains(k) <==> (k == keys[0] || tail.to_set().contains(k)) by {
            if keys.to_set().contains(k) {
                let i = choose|i: int| 0 <= i < keys.len() && keys[i] == k;
                if i > 0 {
                    assert(tail[i - 1] == k);
                }
            }
            if tail.to_set().contains(k) {
                let i = choose|i: int| 0 <= i < tail.len() && tail[i] == k;
                assert(keys[i + 1] == k);
            }
            if k == keys[0] {
                assert(keys.contains(k));
            }
        }
        assert(s.union(keys.to_set()) =~= s1.union(tail.to_set()));
    }
}

/// A burst of misses with any number of requests for each key, none of
/// them in flight, fetches each key exactly once: each key asked for has
/// one owner, and no two owners share a key.
pub proof fn lemma_one_fetch_per_key(s: Set<Seq<char>>, keys: Seq<Seq<char>>)
    requires
        forall|i: int| 0 <= i < keys.len() ==> !s.contains(#[trigger] keys[i]),
    ensures
        burst_roles(s, keys).len() == keys.len(),
        forall|k: Seq<char>| #[trigger] keys.contains(k) ==> exists|i: int|
            0 <= i < keys.len() && keys[i] == k && #[trigger] burst_roles(s, keys)[i] == Role::Owner,
        forall|i: int, j: int| 0 <= i < keys.len() && 0 <= j < keys.len()
            && #[trigger] burst_roles(s, keys)[i] == Role::Owner
            && #[trigger] burst_roles(s, keys)[j] == Role::Owner && keys[i] == keys[j] ==> i == j,
{
    lemma_owner_is_first_request(s, keys);
    let roles = burst_roles(s, keys);
    assert forall|k: Seq<char>| #[trigger] keys.contains(k) implies exists|i: int|
        0 <= i < keys.len() && keys[i] == k && #[trigger] roles[i] == Role::Owner by {
        lemma_first_occurrence(keys, k);
        let i = choose|i: int| 0 <= i < keys.len() && keys[i] == k && first_request(keys, i);
        assert(!s.contains(keys[i]));
        assert(roles[i] == Role::Owner);
    }
    assert forall|i: int, j: int| 0 <= i < keys.len() && 0 <= j < keys.len()
        && #[trigger] roles[i] == Role::Owner && #[trigger] roles[j] == Role::Owner
        && keys[i] == keys[j] implies i == j by {
        assert(first_request(keys, i) && first_request(keys, j));
    }
}

proof fn lemma_first_occurrence(keys: Seq<Seq<char>>, k: Seq<char>)
    requires
        keys.contains(k),
    ensures
        exists|i: int| 0 <= i < keys.len() && keys[i] == k && first_request(keys, i),
    decreases keys.len(),
{
    let last = keys.len() - 1;
    if keys[last] == k && first_request(keys, last) {
    } else {
        let front = keys.drop_last();
        if keys[last] == k {
            let j = choose|j: int| 0 <= j < last && keys[j] == keys[last];
            assert(front[j] == k);
        } else {
            let j = choose|j: int| 0 <= j < keys.len() && keys[j] == k;
            assert(front[j] == k);
        }
        lemma_first_occurrence(front, k);
        let i = choose|i: int| 0 <= i < front.len() && front[i] == k && first_request(front, i);
        assert forall|j: int| 0 <= j < i implies keys[j] != keys[i] by {
            assert(front[j] == keys[j]);
        }
    }
}

/// A fetch that resolved, failed or not, leaves nothing behind: the next
/// miss for its key owns a new fetch.
pub proof fn lemma_retry_after_resolve(s: Set<Seq<char>>, key: Seq<char>)
    ensures
        begin_spec(s.remove(key), key, false).1 == Role::Owner,
{
}

} // verus!
