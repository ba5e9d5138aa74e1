use vstd::prelude::*;
use std::collections::BTreeMap;
use vstd::std_specs::cmp::OrdSpec;
use vstd::std_specs::iter::IteratorSpec;

use crate::workout::Workout;

verus! {

broadcast use {vstd::std_specs::btree::group_btree_axioms, vstd::laws_cmp::group_laws_cmp};

/// Whether every workout in `m` is stored under its own timestamp.
pub open spec fn keyed_by_timestamp(m: Map<u128, Workout>) -> bool {
    forall|k: u128| #[trigger] m.contains_key(k) ==> m[k].spec_timestamp() == k
}

/// Whether `s` lists the workouts of `m` once each, by strictly increasing
/// timestamp.
pub open spec fn is_ascending_listing(s: Seq<Workout>, m: Map<u128, Workout>) -> bool {
    &&& forall|i: int, j: int|
        0 <= i < j < s.len() ==> #[trigger] s[i].spec_timestamp() < #[trigger] s[j].spec_timestamp()
    &&& forall|i: int|
        0 <= i < s.len() ==> #[trigger] m.contains_key(s[i].spec_timestamp())
            && m[s[i].spec_timestamp()] == s[i]
    &&& forall|k: u128|
        #[trigger] m.contains_key(k) ==> exists|i: int| 0 <= i < s.len() && s[i].spec_timestamp() == k
}

/// The listing of `m` by strictly increasing timestamp.
pub open spec fn ascending(m: Map<u128, Workout>) -> Seq<Workout> {
    choose|s: Seq<Workout>| is_ascending_listing(s, m)
}

/// Dropping the last workout of an ascending listing lists the map without
/// that workout's timestamp.
proof fn lemma_listing_drop_last(s: Seq<Workout>, m: Map<u128, Workout>)
    requires
        is_ascending_listing(s, m),
        s.len() > 0,
    ensures
        is_ascending_listing(s.drop_last(), m.remove(s.last().spec_timestamp())),
        m.contains_key(s.last().spec_timestamp()),
        m[s.last().spec_timestamp()] == s.last(),
{
    let a = s.last().spec_timestamp();
    let t = s.drop_last();
    let mr = m.remove(a);
    assert(m.contains_key(s[s.len() - 1].spec_timestamp()));
    assert forall|i: int| 0 <= i < t.len() implies #[trigger] mr.contains_key(t[i].spec_timestamp())
        && mr[t[i].spec_timestamp()] == t[i] by {
        assert(s[i].spec_timestamp() < s[s.len() - 1].spec_timestamp());
        assert(m.contains_key(s[i].spec_timestamp()));
    }
    assert forall|k: u128| #[trigger] mr.contains_key(k) implies exists|i: int|
        0 <= i < t.len() && t[i].spec_timestamp() == k by {
        assert(m.contains_key(k));
        let i = choose|i: int| 0 <= i < s.len() && s[i].spec_timestamp() == k;
        assert(i != s.len() - 1);
        assert(t[i].spec_timestamp() == k);
    }
    assert forall|i: int, j: int| 0 <= i < j < t.len() implies
        #[trigger] t[i].spec_timestamp() < #[trigger] t[j].spec_timestamp() by {
        assert(s[i].spec_timestamp() < s[j].spec_timestamp());
    }
}

/// A map has exactly one ascending listing.
pub proof fn lemma_ascending_listing_unique(s1: Seq<Workout>, s2: Seq<Workout>, m: Map<u128, Workout>)
    requires
        is_ascending_listing(s1, m),
        is_ascending_listing(s2, m),
    ensures
        s1 == s2,
    decreases s1.len(),
{
    if s1.len() == 0 {
        if s2.len() > 0 {
            assert(m.contains_key(s2[0].spec_timestamp()));
        }
        assert(s1 =~= s2);
    } else {
        assert(m.contains_key(s1[0].spec_timestamp()));
        assert(s2.len() > 0);
        let a = s1.last().spec_timestamp();
        let b = s2.last().spec_timestamp();
        assert(m.contains_key(s1[s1.len() - 1].spec_timestamp()));
        assert(m.contains_key(s2[s2.len() - 1].spec_timestamp()));
        let i = choose|i: int| 0 <= i < s2.len() && s2[i].spec_timestamp() == a;
        let j = choose|j: int| 0 <= j < s1.len() && s1[j].spec_timestamp() == b;
        if i < s2.len() - 1 {
            assert(s2[i].spec_timestamp() < s2[s2.len() - 1].spec_timestamp());
        }
        if j < s1.len() - 1 {
            assert(s1[j].spec_timestamp() < s1[s1.len() - 1].spec_timestamp());
        }
        assert(a == b);
        lemma_listing_drop_last(s1, m);
        lemma_listing_drop_last(s2, m);
        lemma_ascending_listing_unique(s1.drop_last(), s2.drop_last(), m.remove(a));
        assert(s1 =~= s2.drop_last().push(s2.last()));
        assert(s2 =~= s2.drop_last().push(s2.last()));
    }
}

/// Whether `m` can be the contents of a store: finitely many workouts, each
/// under its own timestamp.
pub open spec fn valid_contents(m: Map<u128, Workout>) -> bool {
    m.dom().finite() && keyed_by_timestamp(m)
}

/// Every possible store contents has an ascending listing.
pub proof fn lemma_ascending_listing_exists(m: Map<u128, Workout>)
    requires
        valid_contents(m),
    ensures
        is_ascending_listing(ascending(m), m),
    decreases m.dom().len(),
{
    if m.dom().len() == 0 {
        m.dom().lemma_len0_is_empty();
        assert(is_ascending_listing(Seq::<Workout>::empty(), m));
    } else {
        let leq = |a: u128, b: u128| a <= b;
        assert(vstd::relations::total_ordering(leq));
        m.dom().find_unique_maximal_ensures(leq);
        let k = m.dom().find_unique_maximal(leq);
        assert(vstd::relations::is_maximal(leq, k, m.dom()));
        assert forall|x: u128| m.contains_key(x) implies x <= k by {
            if k <= x {
                assert(m.dom().contains(x) && leq(k, x));
                assert(leq(x, k));
            }
        }
        let mr = m.remove(k);
        lemma_ascending_listing_exists(mr);
        let t = ascending(mr);
        let s = t.push(m[k]);
        assert forall|i: int| 0 <= i < t.len() implies #[trigger] t[i].spec_timestamp() < k by {
            assert(mr.contains_key(t[i].spec_timestamp()));
        }
        assert forall|i: int, j: int| 0 <= i < j < s.len() implies
            #[trigger] s[i].spec_timestamp() < #[trigger] s[j].spec_timestamp() by {
            if j == s.len() - 1 {
                assert(t[i].spec_timestamp() < k);
            } else {
                assert(t[i].spec_timestamp() < t[j].spec_timestamp());
            }
        }
        assert forall|i: int| 0 <= i < s.len() implies #[trigger] m.contains_key(s[i].spec_timestamp())
            && m[s[i].spec_timestamp()] == s[i] by {
            if i < s.len() - 1 {
                assert(mr.contains_key(t[i].spec_timestamp()));
            }
        }
        assert forall|x: u128| #[trigger] m.contains_key(x) implies exists|i: int|
            0 <= i < s.len() && s[i].spec_timestamp() == x by {
            if x == k {
                assert(s[s.len() - 1].spec_timestamp() == x);
            } else {
                assert(mr.contains_key(x));
                let i = choose|i: int| 0 <= i < t.len() && t[i].spec_timestamp() == x;
                assert(s[i].spec_timestamp() == x);
            }
        }
        lemma_is_ascending(s, m);
    }
}

/// Inserting an ascending listing of `m` in order, a later workout replacing
/// an earlier one of the same timestamp, gives back `m`.
proof fn lemma_listing_to_map(s: Seq<Workout>, m: Map<u128, Workout>)
    requires
        is_ascending_listing(s, m),
    ensures
        records_to_map(s) == m,
    decreases s.len(),
{
    if s.len() == 0 {
        assert forall|k: u128| !m.contains_key(k) by {
            if m.contains_key(k) {
                let i = choose|i: int| 0 <= i < s.len() && s[i].spec_timestamp() == k;
            }
        }
        assert(records_to_map(s) =~= m);
    } else {
        let a = s.last().spec_timestamp();
        lemma_listing_drop_last(s, m);
        lemma_listing_to_map(s.drop_last(), m.remove(a));
        assert(m.remove(a).insert(a, s.last()) =~= m);
    }
}

/// Saving writes a store's workouts by ascending timestamp, and loading
/// inserts the records it reads in file order: loading what was saved gives
/// back exactly the same timestamps, each with the same workout.
pub proof fn lemma_save_then_load_restores(m: Map<u128, Workout>)
    requires
        valid_contents(m),
    ensures
        records_to_map(ascending(m)) == m,
{
    lemma_ascending_listing_exists(m);
    lemma_listing_to_map(ascending(m), m);
}

/// Two workouts pushed with the same timestamp leave one entry under that
/// timestamp, holding the one pushed second; the second push adds no entry.
pub proof fn lemma_same_timestamp_second_wins(m: Map<u128, Workout>, first: Workout, second: Workout)
    requires
        valid_contents(m),
        first.spec_timestamp() == second.spec_timestamp(),
    ensures
        m.insert(first.spec_timestamp(), first).insert(second.spec_timestamp(), second)
            == m.insert(second.spec_timestamp(), second),
        m.insert(first.spec_timestamp(), first).insert(second.spec_timestamp(), second).len()
            == m.insert(first.spec_timestamp(), first).len(),
        m.insert(first.spec_timestamp(), first).insert(
            second.spec_timestamp(),
            second,
        )[second.spec_timestamp()] == second,
{
    let ts = second.spec_timestamp();
    assert(m.insert(ts, first).insert(ts, second) =~= m.insert(ts, second));
    assert(m.insert(ts, first).dom().insert(ts) =~= m.insert(ts, first).dom());
}

/// Whatever ascending listing of `m` is given, it is `ascending(m)`.
proof fn lemma_is_ascending(s: Seq<Workout>, m: Map<u128, Workout>)
    requires
        is_ascending_listing(s, m),
    ensures
        s == ascending(m),
{
    lemma_ascending_listing_unique(s, ascending(m), m);
}

/// The map that inserting `records` one after another into an empty store
/// gives: a later workout replaces an earlier one with the same timestamp.
pub open spec fn records_to_map(records: Seq<Workout>) -> Map<u128, Workout>
    decreases records.len(),
{
    if records.len() == 0 {
        Map::empty()
    } else {
        records_to_map(records.drop_last()).insert(records.last().spec_timestamp(), records.last())
    }
}

/// An ordered collection of workouts holding at most one workout per
/// timestamp.
#[derive(Debug)]
pub struct WorkoutStore {
    workouts: BTreeMap<u128, Workout>,
}

impl View for WorkoutStore {
    type V = Map<u128, Workout>;

    closed spec fn view(&self) -> Map<u128, Workout> {
        self.workouts@
    }
}

impl WorkoutStore {
    #[verifier::type_invariant]
    spec fn inv(self) -> bool {
        valid_contents(self.workouts@)
    }

    /// An empty store.
    pub fn new() -> (r: Self)
        ensures
            r@ == Map::<u128, Workout>::empty(),
            valid_contents(r@),
    {
        let r = WorkoutStore { workouts: BTreeMap::new() };
        assert(r.workouts@.dom() =~= Set::<u128>::empty());
        r
    }

    /// The stored workouts, by strictly increasing timestamp.
    pub fn iter_ascending(&self) -> (r: Vec<&Workout>)
        ensures
            valid_contents(self@),
            is_ascending_listing(r@.unref(), self@),
            r@.unref() == ascending(self@),
    {
        proof { use_type_invariant(self); }
        let entries = self.workouts.iter();
        let ghost listed = entries.remaining();
        let mut r: Vec<&Workout> = Vec::new();
        for entry in it: entries
            invariant
                it.seq() == listed,
                r@.len() == it.index(),
                forall|i: int| 0 <= i < it.index() ==> r@[i] == listed[i].1,
        {
            let (_, w) = entry;
            r.push(w);
        }
        proof {
            let m = self.workouts@;
            let keys = listed.map_values(|kv: (&u128, &Workout)| *kv.0);
            assert(vstd::std_specs::btree::increasing_seq(keys));
            assert forall|i: int, j: int| 0 <= i < j < r@.len() implies
                r@.unref()[i].spec_timestamp() < r@.unref()[j].spec_timestamp() by {
                assert(keys[i].cmp_spec(&keys[j]) is Less);
                assert(m.contains_key(*listed[i].0));
                assert(m.contains_key(*listed[j].0));
            }
            assert forall|k: u128| #[trigger] m.contains_key(k) implies
                exists|i: int| 0 <= i < r@.len() && r@.unref()[i].spec_timestamp() == k by {
                assert(listed.contains((&k, &m[k])));
                let i = choose|i: int| 0 <= i < listed.len() && listed[i] == (&k, &m[k]);
                assert(r@.unref()[i].spec_timestamp() == k);
            }
            assert forall|i: int| 0 <= i < r@.len() implies
                #[trigger] m.contains_key(r@.unref()[i].spec_timestamp())
                    && m[r@.unref()[i].spec_timestamp()] == r@.unref()[i] by {
                assert(m.contains_key(*listed[i].0));
            }
            lemma_is_ascending(r@.unref(), m);
        }
        r
    }

    /// The stored workouts, most recent first: the exact reverse of
    /// `iter_ascending`.
    pub fn iter_descending(&self) -> (r: Vec<&Workout>)
        ensures
            valid_contents(self@),
            is_ascending_listing(r@.unref().reverse(), self@),
            r@.unref() == ascending(self@).reverse(),
    {
        let asc = self.iter_ascending();
        let mut r: Vec<&Workout> = Vec::new();
        let mut i: usize = asc.len();
        while i > 0
            invariant
                i <= asc@.len(),
                r@.len() == asc@.len() - i,
                forall|j: int| 0 <= j < r@.len() ==> r@[j] == asc@[asc@.len() - 1 - j],
            decreases i,
        {
            i = i - 1;
            r.push(asc[i]);
        }
        assert(r@.unref() =~= asc@.unref().reverse());
        assert(r@.unref().reverse() =~= asc@.unref());
        r
    }

    /// The number of stored workouts, one per distinct timestamp.
    pub fn len(&self) -> (r: usize)
        ensures
            valid_contents(self@),
            r == self@.len(),
    {
        proof { use_type_invariant(self); }
        self.workouts.len()
    }

    /// A store holding `records`, inserted in order: of two records with
    /// the same timestamp, the later one is kept.
    pub fn from_records(records: Vec<Workout>) -> (r: Self)
        ensures
            r@ == records_to_map(records@),
            valid_contents(r@),
    {
        let ghost all = records@;
        let mut r = WorkoutStore::new();
        for w in it: records
            invariant
                it.seq() == all,
                r@ == records_to_map(all.take(it.index())),
                valid_contents(r@),
        {
            proof {
                assert(all.take(it.index() + 1).drop_last() =~= all.take(it.index()));
            }
            r.push(w);
        }
        assert(all.take(all.len() as int) =~= all);
        r
    }

    /// Inserts `workout` under its timestamp, replacing any workout already
    /// stored with that timestamp.
    pub fn push(&mut self, workout: Workout)
        ensures
            valid_contents(final(self)@),
            final(self)@ == old(self)@.insert(workout.spec_timestamp(), workout),
    {
        let mut taken = WorkoutStore::new();
        std::mem::swap(self, &mut taken);
        proof { use_type_invariant(&taken); }
        let WorkoutStore { mut workouts } = taken;
        workouts.insert(workout.timestamp(), workout);
        *self = WorkoutStore { workouts };
    }
}

} // verus!
