use vstd::prelude::*;

use crate::keyed::KeyedList;

verus! {

/// The sum of the counts of a finite map.
pub open spec fn map_sum(m: Map<Seq<char>, u64>) -> int
    decreases m.dom().len(),
    when m.dom().finite()
{
    if m.dom().len() == 0 {
        0
    } else {
        let k = m.dom().choose();
        m[k] + map_sum(m.remove(k))
    }
}

pub proof fn lemma_map_sum_remove(m: Map<Seq<char>, u64>, k: Seq<char>)
    requires
        m.dom().finite(),
        m.contains_key(k),
    ensures
        map_sum(m) == m[k] + map_sum(m.remove(k)),
    decreases m.dom().len(),
{
    let c = m.dom().choose();
    assert(m.dom().contains(k));
    if c != k {
        lemma_map_sum_remove(m.remove(c), k);
        lemma_map_sum_remove(m.remove(k), c);
        assert(m.remove(c).remove(k) =~= m.remove(k).remove(c));
    }
}

/// The count under `k`, zero where there is none.
pub open spec fn count_of(m: Map<Seq<char>, u64>, k: Seq<char>) -> int {
    if m.contains_key(k) {
        m[k] as int
    } else {
        0
    }
}

/// The pointwise maximum of two maps of counts; the merge of two replicas.
pub open spec fn max_merged(a: Map<Seq<char>, u64>, b: Map<Seq<char>, u64>) -> Map<Seq<char>, u64> {
    Map::new(
        |k: Seq<char>| a.contains_key(k) || b.contains_key(k),
        |k: Seq<char>| if count_of(a, k) >= count_of(b, k) { count_of(a, k) as u64 } else { count_of(b, k) as u64 },
    )
}

/// The sum over distinct keys `ks` that cover the map exactly.
proof fn lemma_sum_over_keys(m: Map<Seq<char>, u64>, ks: Seq<Seq<char>>, sum_of: spec_fn(int) -> int)
    requires
        m.dom().finite(),
        ks.no_duplicates(),
        m.dom() == ks.to_set(),
        sum_of(0) == 0,
        forall|i: int| 0 <= i < ks.len() ==> #[trigger] sum_of(i + 1) == sum_of(i) + m[ks[i]],
    ensures
        sum_of(ks.len() as int) == map_sum(m),
    decreases ks.len(),
{
    if ks.len() == 0 {
        assert(m.dom() =~= Set::empty());
    } else {
        let k = ks.last();
        let rest = ks.drop_last();
        assert(ks.to_set().contains(k)) by {
            assert(ks[ks.len() - 1] == k);
        }
        lemma_map_sum_remove(m, k);
        let m2 = m.remove(k);
        assert(rest.no_duplicates());
        assert forall|x: Seq<char>| m2.dom().contains(x) <==> rest.to_set().contains(x) by {
            if rest.to_set().contains(x) {
                let j = choose|j: int| 0 <= j < rest.len() && rest[j] == x;
                assert(ks[j] == x);
                assert(x != k);
                assert(ks.to_set().contains(x));
            }
            if m2.dom().contains(x) {
                assert(ks.to_set().contains(x));
                let j = choose|j: int| 0 <= j < ks.len() && ks[j] == x;
                assert(j != ks.len() - 1);
                assert(rest[j] == x);
            }
        }
        assert(m2.dom() =~= rest.to_set());
        assert forall|i: int| 0 <= i < rest.len() implies #[trigger] sum_of(i + 1) == sum_of(i) + m2[rest[i]] by {
            assert(rest[i] == ks[i]);
            assert(ks[i] != k);
            assert(sum_of(i + 1) == sum_of(i) + m[ks[i]]);
        }
        lemma_sum_over_keys(m2, rest, sum_of);
        let last = ks.len() - 1;
        assert(sum_of(last + 1) == sum_of(last) + m[ks[last]]);
        assert(last + 1 == ks.len() as int);
    }
}

/// The running sums of the counts, key by key in `ks`.
pub open spec fn prefix_sum(m: Map<Seq<char>, u64>, ks: Seq<Seq<char>>, i: int) -> int
    decreases i,
{
    if i <= 0 {
        0
    } else {
        prefix_sum(m, ks, i - 1) + m[ks[i - 1]]
    }
}

/// Raises every count of `a` to at least the one `b` has.
fn merge_max(a: &mut KeyedList<u64>, b: &KeyedList<u64>)
    requires
        old(a).wf(),
        b.wf(),
    ensures
        final(a).wf(),
        final(a)@ == max_merged(old(a)@, b@),
{
    let n = b.len();
    proof {
        b.lemma_keys();
    }
    let ghost ks = b.keys();
    let mut i: usize = 0;
    while i < n
        invariant
            a.wf(),
            b.wf(),
            n == ks.len(),
            ks == b.keys(),
            ks.no_duplicates(),
            b@.dom() == ks.to_set(),
            i <= n,
            forall|k: Seq<char>| #[trigger] a@.contains_key(k) <==> old(a)@.contains_key(k) || exists|j: int| 0 <= j < i && ks[j] == k,
            forall|k: Seq<char>| #[trigger] a@.contains_key(k) && (exists|j: int| 0 <= j < i && ks[j] == k) ==> a@[k] == max_merged(old(a)@, b@)[k],
            forall|k: Seq<char>| #[trigger] a@.contains_key(k) && !(exists|j: int| 0 <= j < i && ks[j] == k) ==> a@[k] == old(a)@[k],
        decreases n - i,
    {
        let (key, v) = b.entry_at(i);
        let cur: u64 = match a.get(key.as_str()) {
            Some(c) => *c,
            None => 0,
        };
        let m = if cur >= *v {
            cur
        } else {
            *v
        };
        let ghost k = key@;
        let ghost before = a@;
        proof {
            assert(k == ks[i as int]);
            assert(ks.to_set().contains(k));
            assert forall|j: int| 0 <= j < i implies ks[j] != k by {
                assert(ks[j] != ks[i as int]);
            }
            assert(count_of(before, k) == count_of(old(a)@, k));
        }
        a.upsert(key.clone(), m);
        proof {
            assert forall|x: Seq<char>| #[trigger] a@.contains_key(x) <==> old(a)@.contains_key(x) || exists|j: int| 0 <= j < i + 1 && ks[j] == x by {
                if x == k {
                    assert(ks[i as int] == x);
                } else if exists|j: int| 0 <= j < i + 1 && ks[j] == x {
                    let j = choose|j: int| 0 <= j < i + 1 && ks[j] == x;
                    assert(j < i);
                }
            }
            assert forall|x: Seq<char>| #[trigger] a@.contains_key(x) && (exists|j: int| 0 <= j < i + 1 && ks[j] == x) implies a@[x] == max_merged(old(a)@, b@)[x] by {
                if x != k {
                    let j = choose|j: int| 0 <= j < i + 1 && ks[j] == x;
                    assert(j < i);
                }
            }
            assert forall|x: Seq<char>| #[trigger] a@.contains_key(x) && !(exists|j: int| 0 <= j < i + 1 && ks[j] == x) implies a@[x] == old(a)@[x] by {
                assert(x != k);
                if exists|j: int| 0 <= j < i && ks[j] == x {
                    let j = choose|j: int| 0 <= j < i && ks[j] == x;
                    assert(0 <= j < i + 1 && ks[j] == x);
                }
            }
        }
        i = i + 1;
    }
    proof {
        assert forall|k: Seq<char>| #[trigger] a@.contains_key(k) <==> max_merged(old(a)@, b@).contains_key(k) by {
            if b@.contains_key(k) {
                assert(ks.to_set().contains(k));
                let j = choose|j: int| 0 <= j < ks.len() && ks[j] == k;
                assert(0 <= j < i && ks[j] == k);
            }
            if exists|j: int| 0 <= j < i && ks[j] == k {
                let j = choose|j: int| 0 <= j < i && ks[j] == k;
                assert(ks.to_set().contains(ks[j]));
            }
        }
        assert forall|k: Seq<char>| #[trigger] a@.contains_key(k) implies a@[k] == max_merged(old(a)@, b@)[k] by {
            if exists|j: int| 0 <= j < i && ks[j] == k {
            } else {
                assert(!b@.contains_key(k)) by {
                    if b@.contains_key(k) {
                        assert(ks.to_set().contains(k));
                        let j = choose|j: int| 0 <= j < ks.len() && ks[j] == k;
                        assert(0 <= j < i && ks[j] == k);
                    }
                }
            }
        }
        assert(a@ =~= max_merged(old(a)@, b@));
    }
}

/// A grow-only counter: one count per client, the value being their sum.
#[derive(Debug)]
pub struct GCounter {
    counters: KeyedList<u64>,
}

impl View for GCounter {
    type V = Map<Seq<char>, u64>;

    closed spec fn view(&self) -> Map<Seq<char>, u64> {
        self.counters@
    }
}

impl GCounter {
    pub closed spec fn wf(&self) -> bool {
        self.counters.wf()
    }

    pub proof fn lemma_finite(&self)
        requires
            self.wf(),
        ensures
            self@.dom().finite(),
    {
        self.counters.lemma_keys();
    }

    pub fn new() -> (r: GCounter)
        ensures
            r.wf(),
            r@ == Map::<Seq<char>, u64>::empty(),
    {
        GCounter { counters: KeyedList::new() }
    }

    /// Adds `amount` to the count of `client_id`.
    pub fn increment(&mut self, client_id: &str, amount: u64)
        requires
            old(self).wf(),
            count_of(old(self)@, client_id@) + amount <= u64::MAX,
        ensures
            final(self).wf(),
            final(self)@ == old(self)@.insert(client_id@, (count_of(old(self)@, client_id@) + amount) as u64),
    {
        let cur: u64 = match self.counters.get(client_id) {
            Some(c) => *c,
            None => 0,
        };
        self.counters.upsert(client_id.to_owned(), cur + amount);
    }

    /// The sum of all counts.
    pub fn value(&self) -> (r: u64)
        requires
            self.wf(),
            map_sum(self@) <= u64::MAX,
        ensures
            r == map_sum(self@),
    {
        let n = self.counters.len();
        proof {
            self.counters.lemma_keys();
        }
        let ghost ks = self.counters.keys();
        let ghost m = self@;
        let ghost sum_of = |i: int| prefix_sum(m, ks, i);
        proof {
            assert forall|i: int| 0 <= i < ks.len() implies #[trigger] sum_of(i + 1) == sum_of(i) + m[ks[i]] by {
            }
            lemma_sum_over_keys(m, ks, sum_of);
            assert forall|a: int, b: int| 0 <= a <= b <= n implies #[trigger] prefix_sum(m, ks, a) <= #[trigger] prefix_sum(
                m,
                ks,
                b,
            ) by {
                lemma_prefix_sum_monotone(m, ks, a, b);
            }
        }
        let mut total: u64 = 0;
        let mut i: usize = 0;
        while i < n
            invariant
                self.wf(),
                m == self@,
                n == ks.len(),
                ks == self.counters.keys(),
                ks.no_duplicates(),
                m.dom() == ks.to_set(),
                i <= n,
                total == prefix_sum(m, ks, i as int),
                prefix_sum(m, ks, n as int) == map_sum(m),
                map_sum(m) <= u64::MAX,
                forall|a: int, b: int| 0 <= a <= b <= n ==> #[trigger] prefix_sum(m, ks, a) <= #[trigger] prefix_sum(m, ks, b),
            decreases n - i,
        {
            let (_, v) = self.counters.entry_at(i);
            proof {
                assert(prefix_sum(m, ks, i + 1) <= prefix_sum(m, ks, n as int));
            }
            total = total + *v;
            i = i + 1;
        }
        total
    }

    /// Takes, for each client, the larger of the two replicas' counts.
    pub fn merge(&mut self, other: &GCounter)
        requires
            old(self).wf(),
            other.wf(),
        ensures
            final(self).wf(),
            final(self)@ == max_merged(old(self)@, other@),
    {
        merge_max(&mut self.counters, &other.counters);
    }
}

/// Running sums never decrease along the keys.
pub proof fn lemma_prefix_sum_monotone(m: Map<Seq<char>, u64>, ks: Seq<Seq<char>>, a: int, b: int)
    requires
        0 <= a <= b,
    ensures
        prefix_sum(m, ks, a) <= prefix_sum(m, ks, b),
    decreases b - a,
{
    if a < b {
        lemma_prefix_sum_monotone(m, ks, a, b - 1);
    }
}

/// Whether a last-write-wins set holds `e`: added, and not removed later than added (an
/// addition and a removal at the same time leave it in).
pub open spec fn lww_contains(adds: Map<Seq<char>, u64>, rems: Map<Seq<char>, u64>, e: Seq<char>) -> bool {
    adds.contains_key(e) && (!rems.contains_key(e) || adds[e] >= rems[e])
}

/// Whether `elements` lists `e`: added, and not removed at or after the addition.
pub open spec fn lww_listed(adds: Map<Seq<char>, u64>, rems: Map<Seq<char>, u64>, e: Seq<char>) -> bool {
    adds.contains_key(e) && !(rems.contains_key(e) && rems[e] >= adds[e])
}

/// A last-write-wins element set: each element's latest addition and removal times.
#[derive(Debug)]
pub struct LWWElementSet {
    additions: KeyedList<u64>,
    removals: KeyedList<u64>,
}

impl LWWElementSet {
    pub closed spec fn wf(&self) -> bool {
        self.additions.wf() && self.removals.wf()
    }

    pub closed spec fn additions(&self) -> Map<Seq<char>, u64> {
        self.additions@
    }

    pub closed spec fn removals(&self) -> Map<Seq<char>, u64> {
        self.removals@
    }

    pub fn new() -> (r: LWWElementSet)
        ensures
            r.wf(),
            r.additions() == Map::<Seq<char>, u64>::empty(),
            r.removals() == Map::<Seq<char>, u64>::empty(),
    {
        LWWElementSet { additions: KeyedList::new(), removals: KeyedList::new() }
    }

    /// Records an addition at `timestamp`, replacing any earlier record of one.
    pub fn add(&mut self, element: String, timestamp: u64)
        requires
            old(self).wf(),
        ensures
            final(self).wf(),
            final(self).additions() == old(self).additions().insert(element@, timestamp),
            final(self).removals() == old(self).removals(),
    {
        self.additions.upsert(element, timestamp);
    }

    /// Records a removal at `timestamp`, replacing any earlier record of one.
    pub fn remove(&mut self, element: String, timestamp: u64)
        requires
            old(self).wf(),
        ensures
            final(self).wf(),
            final(self).additions() == old(self).additions(),
            final(self).removals() == old(self).removals().insert(element@, timestamp),
    {
        self.removals.upsert(element, timestamp);
    }

    pub fn contains(&self, element: &str) -> (r: bool)
        requires
            self.wf(),
        ensures
            r == lww_contains(self.additions(), self.removals(), element@),
    {
        match (self.additions.get(element), self.removals.get(element)) {
            (Some(add_time), Some(remove_time)) => *add_time >= *remove_time,
            (Some(_), None) => true,
            _ => false,
        }
    }

    /// The listed elements, each once.
    pub fn elements(&self) -> (r: Vec<String>)
        requires
            self.wf(),
        ensures
            forall|i: int| 0 <= i < r@.len() ==> lww_listed(self.additions(), self.removals(), #[trigger] r@[i]@),
            forall|e: Seq<char>| lww_listed(self.additions(), self.removals(), e) ==> exists|i: int| 0 <= i < r@.len() && #[trigger] r@[i]@ == e,
            forall|i: int, j: int| 0 <= i < r@.len() && 0 <= j < r@.len() && i != j ==> #[trigger] r@[i]@ != #[trigger] r@[j]@,
    {
        let n = self.additions.len();
        proof {
            self.additions.lemma_keys();
        }
        let ghost ks = self.additions.keys();
        let ghost adds = self.additions@;
        let ghost rems = self.removals@;
        let mut out: Vec<String> = Vec::new();
        let ghost mut taken: Seq<int> = Seq::empty();
        let mut i: usize = 0;
        while i < n
            invariant
                self.wf(),
                adds == self.additions@,
                rems == self.removals@,
                n == ks.len(),
                ks == self.additions.keys(),
                ks.no_duplicates(),
                adds.dom() == ks.to_set(),
                i <= n,
                taken.len() == out@.len(),
                forall|a: int| 0 <= a < taken.len() ==> 0 <= #[trigger] taken[a] < i && out@[a]@ == ks[taken[a]],
                forall|a: int, b: int| 0 <= a < b < taken.len() ==> #[trigger] taken[a] < #[trigger] taken[b],
                forall|a: int| 0 <= a < out@.len() ==> lww_listed(adds, rems, #[trigger] out@[a]@),
                forall|j: int| 0 <= j < i && lww_listed(adds, rems, #[trigger] ks[j]) ==> exists|a: int| 0 <= a < out@.len() && out@[a]@ == ks[j],
            decreases n - i,
        {
            let (key, add_time) = self.additions.entry_at(i);
            let listed = match self.removals.get(key.as_str()) {
                Some(remove_time) => !(*remove_time >= *add_time),
                None => true,
            };
            let ghost old_out = out@;
            if listed {
                out.push(key.clone());
                proof {
                    taken = taken.push(i as int);
                }
            }
            proof {
                assert forall|j: int| 0 <= j < i + 1 && lww_listed(adds, rems, #[trigger] ks[j]) implies exists|a: int|
                    0 <= a < out@.len() && out@[a]@ == ks[j] by {
                    if j == i {
                        assert(out@[out@.len() - 1]@ == ks[j]);
                    } else {
                        assert(exists|a: int| 0 <= a < old_out.len() && old_out[a]@ == ks[j]);
                        let a = choose|a: int| 0 <= a < old_out.len() && old_out[a]@ == ks[j];
                        assert(out@[a] == old_out[a]);
                    }
                }
            }
            i = i + 1;
        }
        proof {
            assert forall|e: Seq<char>| lww_listed(adds, rems, e) implies exists|a: int| 0 <= a < out@.len() && #[trigger] out@[a]@ == e by {
                assert(ks.to_set().contains(e));
                let j = choose|j: int| 0 <= j < ks.len() && ks[j] == e;
                assert(lww_listed(adds, rems, ks[j]));
            }
            assert forall|a: int, b: int| 0 <= a < out@.len() && 0 <= b < out@.len() && a != b implies #[trigger] out@[a]@ != #[trigger] out@[b]@ by {
                if a < b {
                    assert(taken[a] < taken[b]);
                } else {
                    assert(taken[b] < taken[a]);
                }
            }
        }
        out
    }

    /// Keeps, for each element, the later of the two replicas' addition and removal times.
    pub fn merge(&mut self, other: &LWWElementSet)
        requires
            old(self).wf(),
            other.wf(),
        ensures
            final(self).wf(),
            final(self).additions() == max_merged(old(self).additions(), other.additions()),
            final(self).removals() == max_merged(old(self).removals(), other.removals()),
    {
        merge_max(&mut self.additions, &other.additions);
        merge_max(&mut self.removals, &other.removals);
    }
}

} // verus!
