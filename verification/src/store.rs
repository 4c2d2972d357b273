use vstd::prelude::*;
use crate::aggregate::{is_summary_of, summarize, summary_views, BrandSummary};
use crate::models::{spec_merge, merge_update, CreateDrink, Drink, DrinkError, DrinkView, UpdateDrink};
use crate::predicate::{drink_matches, spec_filtered, DrinkSearchParams};

verus! {

/// Whether no two rows share an id.
pub open spec fn unique_ids(s: Seq<DrinkView>) -> bool {
    forall|i: int, j: int| 0 <= i < j < s.len() ==> s[i].id != s[j].id
}

/// Whether some row carries the given id.
pub open spec fn has_id(s: Seq<DrinkView>, id: u128) -> bool {
    exists|i: int| 0 <= i < s.len() && s[i].id == id
}

/// The index of the row carrying the given id; meaningful only where
/// [`has_id`] holds, and unique where [`unique_ids`] holds too.
pub open spec fn idx_of(s: Seq<DrinkView>, id: u128) -> int {
    choose|i: int| 0 <= i < s.len() && s[i].id == id
}

/// The resource store: every drink row in insertion order, together with
/// the counters that assign fresh ids and strictly increasing creation
/// stamps. All public operations keep ids unique and stamps ordered.
pub struct DrinkStore {
    rows: Vec<Drink>,
    next_id: u128,
    next_stamp: u64,
}

impl View for DrinkStore {
    type V = Seq<DrinkView>;

    closed spec fn view(&self) -> Seq<DrinkView> {
        self.rows@.map_values(|d: Drink| d@)
    }
}

impl DrinkStore {
    /// The store's internal invariant: ids are unique and below the id
    /// counter, and creation stamps strictly increase along insertion
    /// order and stay below the stamp counter.
    pub closed spec fn wf(&self) -> bool {
        &&& unique_ids(self@)
        &&& forall|i: int| 0 <= i < self@.len() ==> (#[trigger] self@[i].id) < self.next_id
        &&& forall|i: int, j: int|
            0 <= i < j < self@.len() ==> self@[i].created_at < self@[j].created_at
        &&& forall|i: int|
            0 <= i < self@.len() ==> (#[trigger] self@[i].created_at) < self.next_stamp
    }

    /// Whether the id and stamp counters can still assign a fresh pair:
    /// the only way a creation can fail.
    pub closed spec fn can_allocate(&self) -> bool {
        self.next_id < u128::MAX && self.next_stamp < u64::MAX
    }

    /// A well-formed store has unique ids.
    pub proof fn lemma_wf_unique(&self)
        requires
            self.wf(),
        ensures
            unique_ids(self@),
    {
    }

    /// An empty store, ready to allocate.
    pub fn new() -> (s: DrinkStore)
        ensures
            s.wf(),
            s.can_allocate(),
            s@ == Seq::<DrinkView>::empty(),
    {
        let s = DrinkStore { rows: Vec::new(), next_id: 0, next_stamp: 0 };
        proof {
            assert(s@ =~= Seq::<DrinkView>::empty());
        }
        s
    }

    /// Creates one new drink: assigns a fresh id no existing row carries
    /// and a creation stamp later than every existing row's, persists the
    /// row after all current rows, and returns the full stored entity.
    /// Fails, with the store unchanged, exactly when the counters are
    /// exhausted — the store's one constraint violation.
    pub fn create(&mut self, input: &CreateDrink) -> (r: Result<Drink, DrinkError>)
        requires
            old(self).wf(),
        ensures
            final(self).wf(),
            r is Err <==> !old(self).can_allocate(),
            match r {
                Ok(d) => {
                    &&& final(self)@ == old(self)@.push(d@)
                    &&& !has_id(old(self)@, d@.id)
                    &&& forall|k: int|
                        0 <= k < old(self)@.len() ==> (#[trigger] old(self)@[k].created_at)
                            < d@.created_at
                    &&& d@.name == input@.name
                    &&& d@.brand == input@.brand
                    &&& d@.caffeine_content == input@.caffeine_content
                    &&& d@.sugar_content == input@.sugar_content
                    &&& d@.price_cents == input@.price_cents
                },
                Err(e) => {
                    &&& e == DrinkError::StorageError
                    &&& *final(self) == *old(self)
                },
            },
    {
        if self.next_id == u128::MAX || self.next_stamp == u64::MAX {
            return Err(DrinkError::StorageError);
        }
        let d = Drink {
            id: self.next_id,
            name: input.name.clone(),
            brand: input.brand.clone(),
            caffeine_content: input.caffeine_content,
            sugar_content: input.sugar_content,
            price_cents: input.price_cents,
            created_at: self.next_stamp,
        };
        let stored = d.clone();
        let ghost prev = self@;
        self.rows.push(d);
        self.next_id = self.next_id + 1;
        self.next_stamp = self.next_stamp + 1;
        proof {
            assert(self@ =~= prev.push(stored@));
        }
        Ok(stored)
    }

    /// Fetches the row carrying `id`, or fails with `NotFound` exactly
    /// when no row carries it. The store is read-only here.
    pub fn get(&self, id: u128) -> (r: Result<Drink, DrinkError>)
        requires
            self.wf(),
        ensures
            match r {
                Ok(d) => {
                    &&& has_id(self@, id)
                    &&& d@ == self@[idx_of(self@, id)]
                    &&& d@.id == id
                },
                Err(e) => {
                    &&& e == DrinkError::NotFound
                    &&& !has_id(self@, id)
                },
            },
    {
        let n = self.rows.len();
        let mut i: usize = 0;
        while i < n
            invariant
                n == self@.len(),
                i <= n,
                self.wf(),
                forall|j: int| 0 <= j < i ==> (#[trigger] self@[j].id) != id,
            decreases n - i,
        {
            if self.rows[i].id == id {
                proof {
                    assert(self@[i as int].id == id);
                    let k = idx_of(self@, id);
                    assert(0 <= k < self@.len() && self@[k].id == id);
                    assert(k == i as int);
                }
                return Ok(self.rows[i].clone());
            }
            i = i + 1;
        }
        Err(DrinkError::NotFound)
    }

    /// Returns every drink, most recently created first. An empty store
    /// yields an empty list.
    pub fn list(&self) -> (r: Vec<Drink>)
        requires
            self.wf(),
        ensures
            r@.map_values(|d: Drink| d@) == self@.reverse(),
            forall|i: int, j: int|
                0 <= i < j < r@.len() ==> r@[i]@.created_at > r@[j]@.created_at,
    {
        let n = self.rows.len();
        let mut r: Vec<Drink> = Vec::new();
        let mut i: usize = n;
        while i > 0
            invariant
                n == self@.len(),
                i <= n,
                self.wf(),
                r@.len() == n - i,
                forall|j: int| 0 <= j < r@.len() ==> (#[trigger] r@[j])@ == self@[n - 1 - j],
            decreases i,
        {
            i = i - 1;
            r.push(self.rows[i].clone());
        }
        proof {
            assert(r@.map_values(|d: Drink| d@) =~= self@.reverse());
        }
        r
    }

    /// Fetches the row carrying `id`, merges the present fields of
    /// `updates` over its current values — `id` and `created_at` are
    /// never touched — persists the merged row in place, and returns it.
    /// Fails with `NotFound`, leaving the store unchanged, exactly when
    /// no row carries the id.
    pub fn update(&mut self, id: u128, updates: &UpdateDrink) -> (r: Result<Drink, DrinkError>)
        requires
            old(self).wf(),
        ensures
            final(self).wf(),
            match r {
                Ok(d) => {
                    &&& has_id(old(self)@, id)
                    &&& d@ == spec_merge(old(self)@[idx_of(old(self)@, id)], updates@)
                    &&& final(self)@ == old(self)@.update(idx_of(old(self)@, id), d@)
                },
                Err(e) => {
                    &&& e == DrinkError::NotFound
                    &&& !has_id(old(self)@, id)
                    &&& *final(self) == *old(self)
                },
            },
    {
        let n = self.rows.len();
        let mut i: usize = 0;
        while i < n
            invariant
                n == self@.len(),
                i <= n,
                self.wf(),
                *self == *old(self),
                forall|j: int| 0 <= j < i ==> (#[trigger] self@[j].id) != id,
            decreases n - i,
        {
            if self.rows[i].id == id {
                let merged = merge_update(&self.rows[i], updates);
                let stored = merged.clone();
                let ghost prev = self@;
                self.rows[i] = merged;
                proof {
                    assert(self@ =~= prev.update(i as int, stored@));
                    assert(prev[i as int].id == id);
                    let k = idx_of(prev, id);
                    assert(0 <= k < prev.len() && prev[k].id == id);
                    assert(k == i as int);
                    assert forall|a: int| 0 <= a < self@.len() implies #[trigger] self@[a].id
                        == prev[a].id && self@[a].created_at == prev[a].created_at by {}
                    assert forall|a: int, b: int| 0 <= a < b < self@.len() implies self@[a].id
                        != self@[b].id && self@[a].created_at < self@[b].created_at by {
                        assert(prev[a].id != prev[b].id);
                        assert(prev[a].created_at < prev[b].created_at);
                    }
                }
                return Ok(stored);
            }
            i = i + 1;
        }
        Err(DrinkError::NotFound)
    }

    /// Removes the row carrying `id` permanently; every other row keeps
    /// its place and order. Fails with `NotFound`, leaving the store
    /// unchanged, exactly when no row carries the id — so deleting the
    /// same id twice fails the second time.
    pub fn delete(&mut self, id: u128) -> (r: Result<(), DrinkError>)
        requires
            old(self).wf(),
        ensures
            final(self).wf(),
            match r {
                Ok(_) => {
                    &&& has_id(old(self)@, id)
                    &&& final(self)@ == old(self)@.remove(idx_of(old(self)@, id))
                },
                Err(e) => {
                    &&& e == DrinkError::NotFound
                    &&& !has_id(old(self)@, id)
                    &&& *final(self) == *old(self)
                },
            },
    {
        let n = self.rows.len();
        let mut i: usize = 0;
        while i < n
            invariant
                n == self@.len(),
                i <= n,
                self.wf(),
                *self == *old(self),
                forall|j: int| 0 <= j < i ==> (#[trigger] self@[j].id) != id,
            decreases n - i,
        {
            if self.rows[i].id == id {
                let ghost prev = self@;
                self.rows.remove(i);
                proof {
                    assert(self@ =~= prev.remove(i as int));
                    assert(prev[i as int].id == id);
                    let k = idx_of(prev, id);
                    assert(0 <= k < prev.len() && prev[k].id == id);
                    assert(k == i as int);
                    assert forall|a: int, b: int| 0 <= a < b < self@.len() implies self@[a].id
                        != self@[b].id && self@[a].created_at < self@[b].created_at by {
                        let pa: int = if a < i { a } else { a + 1 };
                        let pb: int = if b < i { b } else { b + 1 };
                        assert(self@[a] == prev[pa]);
                        assert(self@[b] == prev[pb]);
                        assert(prev[pa].id != prev[pb].id);
                        assert(prev[pa].created_at < prev[pb].created_at);
                    }
                    assert forall|a: int| 0 <= a < self@.len() implies (#[trigger] self@[a].id)
                        < self.next_id && self@[a].created_at < self.next_stamp by {
                        let pa: int = if a < i { a } else { a + 1 };
                        assert(self@[a] == prev[pa]);
                    }
                }
                return Ok(());
            }
            i = i + 1;
        }
        Err(DrinkError::NotFound)
    }

    /// Returns the drinks satisfying every present criterion of the
    /// filter, in the same order as [`DrinkStore::list`]: most recently
    /// created first. With no criterion present this is exactly the full
    /// listing.
    pub fn search(&self, params: &DrinkSearchParams) -> (r: Vec<Drink>)
        requires
            self.wf(),
        ensures
            r@.map_values(|d: Drink| d@) == spec_filtered(params@, self@.reverse()),
    {
        let n = self.rows.len();
        let mut r: Vec<Drink> = Vec::new();
        let mut i: usize = n;
        while i > 0
            invariant
                n == self@.len(),
                i <= n,
                self.wf(),
                r@.map_values(|d: Drink| d@) == spec_filtered(
                    params@,
                    self@.reverse().take(n - i),
                ),
            decreases i,
        {
            i = i - 1;
            let ghost rev = self@.reverse();
            let ghost p = n - 1 - i;
            proof {
                reveal(Seq::<_>::filter);
                assert(rev.take(p + 1).drop_last() =~= rev.take(p));
                assert(rev.take(p + 1).last() == self@[i as int]);
            }
            if drink_matches(params, &self.rows[i]) {
                let ghost before = r@;
                r.push(self.rows[i].clone());
                proof {
                    reveal(Seq::<_>::filter);
                    assert(r@.map_values(|d: Drink| d@) =~= before.map_values(
                        |d: Drink| d@,
                    ).push(self@[i as int]));
                    assert(r@.map_values(|d: Drink| d@) =~= spec_filtered(
                        params@,
                        rev.take(p + 1),
                    ));
                }
            } else {
                proof {
                    reveal(Seq::<_>::filter);
                    assert(r@.map_values(|d: Drink| d@) =~= spec_filtered(
                        params@,
                        rev.take(p + 1),
                    ));
                }
            }
        }
        proof {
            assert(self@.reverse().take(n as int) =~= self@.reverse());
        }
        r
    }

    /// Executes the fixed grouped aggregate over all rows: one summary
    /// entry per distinct brand present, ascending by brand, carrying
    /// that brand's exact drink count and field sums. No filter applies,
    /// and an empty store yields an empty summary.
    pub fn brand_summary(&self) -> (r: Vec<BrandSummary>)
        ensures
            is_summary_of(self@, summary_views(r@)),
    {
        summarize(&self.rows)
    }
}

/// Round trip of creation: a row appended with an id no existing row
/// carries is exactly what a lookup of that id then finds. Together with
/// the contracts of [`DrinkStore::create`] and [`DrinkStore::get`], a
/// drink fetched under its fresh id equals the created row in every
/// field, the generator-assigned `id` and `created_at` included.
pub proof fn lemma_create_round_trip(s: Seq<DrinkView>, d: DrinkView)
    requires
        !has_id(s, d.id),
    ensures
        has_id(s.push(d), d.id),
        idx_of(s.push(d), d.id) == s.len(),
        s.push(d)[idx_of(s.push(d), d.id)] == d,
{
    let t = s.push(d);
    assert(t[s.len() as int].id == d.id);
    assert(has_id(t, d.id));
    let k = idx_of(t, d.id);
    assert(0 <= k < t.len() && t[k].id == d.id);
    if k < s.len() {
        assert(s[k].id == d.id);
        assert(false);
    }
}

/// Delete then get: once the row carrying an id is removed from a store
/// with unique ids, no row carries that id any more — a lookup fails
/// with `NotFound`, and a second delete of the same id fails likewise.
pub proof fn lemma_delete_then_get(s: Seq<DrinkView>, id: u128)
    requires
        unique_ids(s),
        has_id(s, id),
    ensures
        !has_id(s.remove(idx_of(s, id)), id),
{
    let i = idx_of(s, id);
    assert(0 <= i < s.len() && s[i].id == id);
    let t = s.remove(i);
    assert forall|k: int| 0 <= k < t.len() implies (#[trigger] t[k].id) != id by {
        if k < i {
            assert(t[k] == s[k]);
            assert(s[k].id != s[i].id);
        } else {
            assert(t[k] == s[k + 1]);
            assert(s[k + 1].id != s[i].id);
        }
    }
}

} // verus!
