//! The keyed entity store shared by the zone and device collections: an
//! association list from 128-bit ids to entities, with no id occurring twice.
//! Its view is the `Map` from ids to entity views.

use vstd::prelude::*;

verus! {

/// No id occurs twice in the sequence of entries.
pub open spec fn distinct_keys<T>(s: Seq<(u128, T)>) -> bool {
    forall|i: int, j: int| #![trigger s[i], s[j]] 0 <= i < j < s.len() ==> s[i].0 != s[j].0
}

/// The mapping from ids to entity views held by a sequence of entries; for a
/// repeated id the later entry wins.
pub open spec fn map_of<T: View>(s: Seq<(u128, T)>) -> Map<u128, T::V>
    decreases s.len(),
{
    if s.len() == 0 {
        Map::empty()
    } else {
        map_of(s.drop_last()).insert(s.last().0, s.last().1@)
    }
}

/// An id is in the mapping exactly when some entry carries it.
pub proof fn lemma_map_of_contains<T: View>(s: Seq<(u128, T)>, k: u128)
    ensures
        map_of(s).contains_key(k) <==> (exists|i: int|
            0 <= i < s.len() && (#[trigger] s[i]).0 == k),
    decreases s.len(),
{
    if s.len() > 0 {
        lemma_map_of_contains(s.drop_last(), k);
        if s.last().0 == k {
            assert(s[s.len() - 1].0 == k);
        } else {
            if map_of(s).contains_key(k) {
                let i = choose|i: int| 0 <= i < s.drop_last().len() && (#[trigger] s.drop_last()[i]).0 == k;
                assert(s[i].0 == k);
            }
            if exists|i: int| 0 <= i < s.len() && (#[trigger] s[i]).0 == k {
                let i = choose|i: int| 0 <= i < s.len() && (#[trigger] s[i]).0 == k;
                assert(s.drop_last()[i].0 == k);
            }
        }
    }
}

/// Dropping the last entry keeps the keys distinct.
pub proof fn lemma_distinct_drop_last<T>(s: Seq<(u128, T)>)
    requires
        distinct_keys(s),
        s.len() > 0,
    ensures
        distinct_keys(s.drop_last()),
{
    assert forall|i: int, j: int| #![trigger s.drop_last()[i], s.drop_last()[j]]
        0 <= i < j < s.drop_last().len() implies s.drop_last()[i].0 != s.drop_last()[j].0 by {
        assert(s.drop_last()[i] == s[i]);
        assert(s.drop_last()[j] == s[j]);
    }
}

/// With distinct keys, the entry at any index is what the mapping holds for
/// its id.
pub proof fn lemma_map_of_index<T: View>(s: Seq<(u128, T)>, i: int)
    requires
        distinct_keys(s),
        0 <= i < s.len(),
    ensures
        map_of(s).contains_key(s[i].0),
        map_of(s)[s[i].0] == s[i].1@,
    decreases s.len(),
{
    if i < s.len() - 1 {
        lemma_distinct_drop_last(s);
        lemma_map_of_index(s.drop_last(), i);
        assert(s.drop_last()[i] == s[i]);
        assert(s[i].0 != s[s.len() - 1].0);
    }
}

/// Appending an entry inserts its id into the mapping.
pub proof fn lemma_map_of_push<T: View>(s: Seq<(u128, T)>, k: u128, v: T)
    ensures
        map_of(s.push((k, v))) == map_of(s).insert(k, v@),
{
    assert(s.push((k, v)).drop_last() =~= s);
    assert(s.push((k, v)).last() == (k, v));
}

/// Removing the entry at an index removes exactly its id from the mapping.
pub proof fn lemma_map_of_remove_at<T: View>(s: Seq<(u128, T)>, i: int)
    requires
        distinct_keys(s),
        0 <= i < s.len(),
    ensures
        distinct_keys(s.remove(i)),
        map_of(s.remove(i)) == map_of(s).remove(s[i].0),
{
    let t = s.remove(i);
    let key = s[i].0;
    s.remove_ensures(i);
    assert forall|a: int, b: int| #![trigger t[a], t[b]]
        0 <= a < b < t.len() implies t[a].0 != t[b].0 by {
        let a2: int = if a < i { a } else { a + 1 };
        let b2: int = if b < i { b } else { b + 1 };
        assert(t[a] == s[a2]);
        assert(t[b] == s[b2]);
    }
    assert forall|k: u128| #[trigger] map_of(t).contains_key(k) implies
        map_of(s).remove(key).contains_key(k) && map_of(t)[k] == map_of(s).remove(key)[k] by {
        lemma_map_of_contains(t, k);
        let a = choose|a: int| 0 <= a < t.len() && (#[trigger] t[a]).0 == k;
        let a2: int = if a < i { a } else { a + 1 };
        assert(t[a] == s[a2]);
        if a2 < i {
            assert(s[a2].0 != s[i].0);
        } else {
            assert(s[i].0 != s[a2].0);
        }
        lemma_map_of_index(t, a);
        lemma_map_of_index(s, a2);
    }
    assert forall|k: u128| #[trigger] map_of(s).remove(key).contains_key(k) implies
        map_of(t).contains_key(k) by {
        lemma_map_of_contains(s, k);
        lemma_map_of_contains(t, k);
        let b = choose|b: int| 0 <= b < s.len() && (#[trigger] s[b]).0 == k;
        let a: int = if b < i { b } else { b - 1 };
        assert(t[a] == s[b]);
    }
    assert(map_of(t) =~= map_of(s).remove(key));
}

/// With distinct keys, the mapping has exactly one key per entry.
pub proof fn lemma_map_of_len<T: View>(s: Seq<(u128, T)>)
    requires
        distinct_keys(s),
    ensures
        map_of(s).dom().finite(),
        map_of(s).dom().len() == s.len(),
    decreases s.len(),
{
    if s.len() == 0 {
        assert(map_of(s).dom() =~= Set::<u128>::empty());
    } else {
        lemma_distinct_drop_last(s);
        lemma_map_of_len(s.drop_last());
        lemma_map_of_contains(s.drop_last(), s.last().0);
        if exists|i: int| 0 <= i < s.drop_last().len() && (#[trigger] s.drop_last()[i]).0 == s.last().0 {
            let i = choose|i: int| 0 <= i < s.drop_last().len() && (#[trigger] s.drop_last()[i]).0 == s.last().0;
            assert(s[i] == s.drop_last()[i]);
            assert(s[i].0 != s[s.len() - 1].0);
            assert(false);
        }
        assert(map_of(s).dom() =~= map_of(s.drop_last()).dom().insert(s.last().0));
    }
}

/// After a removal the id is gone: a lookup of it finds nothing.
pub proof fn lemma_remove_then_get_is_absent<V>(m: Map<u128, V>, id: u128)
    ensures
        !m.remove(id).contains_key(id),
{
}

/// Removing an id that is not present changes nothing.
pub proof fn lemma_remove_absent_is_noop<V>(m: Map<u128, V>, id: u128)
    requires
        !m.contains_key(id),
    ensures
        m.remove(id) == m,
{
    assert(m.remove(id) =~= m);
}

/// The set of ids below `c` has exactly `c` elements.
proof fn lemma_id_range_len(c: u128)
    ensures
        Set::new(|x: u128| x < c).finite(),
        Set::new(|x: u128| x < c).len() == c,
    decreases c,
{
    if c == 0 {
        assert(Set::new(|x: u128| x < c) =~= Set::<u128>::empty());
    } else {
        lemma_id_range_len((c - 1) as u128);
        assert(Set::new(|x: u128| x < c)
            =~= Set::new(|x: u128| x < (c - 1) as u128).insert((c - 1) as u128));
    }
}

/// Relies on uuid::Uuid::new_v4 to mint a fresh random version-4 UUID,
/// handed on as its 128-bit value. Nothing is assumed about the value;
/// callers check for themselves that it is not already in use.
#[verifier::external_body]
pub(crate) fn fresh_uuid() -> u128 {
    uuid::Uuid::new_v4().as_u128()
}

/// A collection of entities keyed by 128-bit ids, no id occurring twice.
#[derive(Debug)]
pub struct Store<T: View> {
    entries: Vec<(u128, T)>,
}

impl<T: View> View for Store<T> {
    type V = Map<u128, T::V>;

    closed spec fn view(&self) -> Map<u128, T::V> {
        map_of(self.entries@)
    }
}

impl<T: View> Store<T> {
    #[verifier::type_invariant]
    spec fn wf(self) -> bool {
        distinct_keys(self.entries@)
    }

    /// The empty store.
    pub fn new() -> (s: Self)
        ensures
            s@ == Map::<u128, T::V>::empty(),
    {
        Store { entries: Vec::new() }
    }

    /// The position of the entry carrying `id`, if any.
    fn index_of(&self, id: u128) -> (r: Option<usize>)
        ensures
            match r {
                Some(i) => i < self.entries@.len() && self.entries@[i as int].0 == id,
                None => forall|j: int|
                    0 <= j < self.entries@.len() ==> (#[trigger] self.entries@[j]).0 != id,
            },
    {
        let mut i: usize = 0;
        while i < self.entries.len()
            invariant
                i <= self.entries@.len(),
                forall|j: int| 0 <= j < i ==> (#[trigger] self.entries@[j]).0 != id,
            decreases self.entries@.len() - i,
        {
            if self.entries[i].0 == id {
                return Some(i);
            }
            i = i + 1;
        }
        None
    }

    /// Whether some entity is stored under `id`.
    pub fn contains(&self, id: u128) -> (b: bool)
        ensures
            b == self@.contains_key(id),
    {
        proof {
            use_type_invariant(&*self);
            lemma_map_of_contains(self.entries@, id);
        }
        match self.index_of(id) {
            Some(_) => true,
            None => false,
        }
    }

    /// A borrow of the entity stored under `id`, or nothing.
    pub fn get(&self, id: u128) -> (r: Option<&T>)
        ensures
            match r {
                Some(t) => self@.contains_key(id) && t@ == self@[id],
                None => !self@.contains_key(id),
            },
    {
        proof {
            use_type_invariant(&*self);
        }
        match self.index_of(id) {
            Some(i) => {
                proof {
                    lemma_map_of_index(self.entries@, i as int);
                }
                Some(&self.entries[i].1)
            },
            None => {
                proof {
                    lemma_map_of_contains(self.entries@, id);
                }
                None
            },
        }
    }

    /// Store `value` under `id`, replacing any entity already there.
    pub fn insert(&mut self, id: u128, value: T)
        ensures
            final(self)@ == old(self)@.insert(id, value@),
    {
        proof {
            use_type_invariant(&*self);
        }
        let ghost m = self@;
        let ghost s0 = self.entries@;
        let idx = self.index_of(id);
        let mut entries: Vec<(u128, T)> = Vec::new();
        core::mem::swap(&mut entries, &mut self.entries);
        if let Some(i) = idx {
            entries.remove(i);
            proof {
                lemma_map_of_remove_at(s0, i as int);
            }
        }
        let ghost s1 = entries@;
        proof {
            assert forall|j: int| 0 <= j < s1.len() implies (#[trigger] s1[j]).0 != id by {
                if let Some(i) = idx {
                    s0.remove_ensures(i as int);
                    let j2: int = if j < i { j } else { j + 1 };
                    assert(s1[j] == s0[j2]);
                    if j2 < i {
                        assert(s0[j2].0 != s0[i as int].0);
                    } else {
                        assert(s0[i as int].0 != s0[j2].0);
                    }
                }
            }
        }
        entries.push((id, value));
        proof {
            lemma_map_of_push(s1, id, value);
            assert(distinct_keys(s1.push((id, value))));
            if idx is Some {
                assert(m.remove(id).insert(id, value@) =~= m.insert(id, value@));
            }
        }
        self.entries = entries;
    }

    /// Remove and return the entity stored under `id`, or nothing.
    pub fn take(&mut self, id: u128) -> (r: Option<T>)
        ensures
            match r {
                Some(t) => old(self)@.contains_key(id) && t@ == old(self)@[id]
                    && final(self)@ == old(self)@.remove(id),
                None => !old(self)@.contains_key(id) && final(self)@ == old(self)@,
            },
    {
        proof {
            use_type_invariant(&*self);
        }
        let ghost s0 = self.entries@;
        match self.index_of(id) {
            Some(i) => {
                proof {
                    lemma_map_of_index(s0, i as int);
                    lemma_map_of_remove_at(s0, i as int);
                }
                let mut entries: Vec<(u128, T)> = Vec::new();
                core::mem::swap(&mut entries, &mut self.entries);
                let pair = entries.remove(i);
                self.entries = entries;
                Some(pair.1)
            },
            None => {
                proof {
                    lemma_map_of_contains(s0, id);
                }
                None
            },
        }
    }

    /// Delete the entity stored under `id`; deleting an absent id changes
    /// nothing.
    pub fn remove(&mut self, id: u128)
        ensures
            final(self)@ == old(self)@.remove(id),
    {
        let r = self.take(id);
        proof {
            if r is None {
                lemma_remove_absent_is_noop(old(self)@, id);
            }
        }
    }

    /// How many entities are stored.
    pub fn len(&self) -> (n: usize)
        ensures
            n == self@.dom().len(),
    {
        proof {
            use_type_invariant(&*self);
            lemma_map_of_len(self.entries@);
        }
        self.entries.len()
    }

    /// Whether nothing is stored.
    pub fn is_empty(&self) -> (b: bool)
        ensures
            b <==> self@ == Map::<u128, T::V>::empty(),
    {
        proof {
            use_type_invariant(&*self);
            if self.entries@.len() > 0 {
                lemma_map_of_index(self.entries@, 0);
                assert(self@.contains_key(self.entries@[0].0));
            }
        }
        self.entries.len() == 0
    }

    /// An id under which nothing is stored: among the ids `0..=len` at
    /// least one must be free, since the store holds only `len` entities.
    pub fn first_unused(&self) -> (id: u128)
        ensures
            !self@.contains_key(id),
    {
        proof {
            use_type_invariant(&*self);
            lemma_map_of_len(self.entries@);
        }
        let n = self.entries.len();
        let mut c: u128 = 0;
        while c <= n as u128
            invariant
                self@.dom().finite(),
                self@.dom().len() == n,
                c <= n as u128 + 1,
                forall|x: u128| x < c ==> self@.contains_key(x),
            decreases n as u128 + 1 - c,
        {
            if !self.contains(c) {
                return c;
            }
            c = c + 1;
        }
        proof {
            lemma_id_range_len(c);
            let below = Set::new(|x: u128| x < c);
            assert(below.subset_of(self@.dom()));
            vstd::set_lib::lemma_len_subset(below, self@.dom());
            assert(false);
        }
        0
    }

    /// The entries as id–entity pairs; their order carries no meaning.
    pub fn entries(&self) -> (r: &Vec<(u128, T)>)
        ensures
            distinct_keys(r@),
            map_of(r@) == self@,
    {
        proof {
            use_type_invariant(&*self);
        }
        &self.entries
    }
}

} // verus!
