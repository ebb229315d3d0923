//! The result store: an in-memory mapping from route tokens to job results.
//!
//! A route is created with no data (a placeholder meaning "processing"),
//! and is later overwritten exactly once with the processed bytes. Looking
//! up a route that was never created is the one store failure, and is kept
//! distinct from "created but still pending".

use vstd::prelude::*;
use vstd::slice::slice_to_vec;
use crate::errors::StoreError;

verus! {

/// One stored record: the route token and its optional result bytes.
/// `None` means the job is still processing; `Some` means it completed
/// with exactly those bytes.
type Entry = (String, Option<Vec<u8>>);

/// The mathematical value of a record's data column.
pub open spec fn data_view(d: Option<Vec<u8>>) -> Option<Seq<u8>> {
    match d {
        Some(v) => Some(v@),
        None => None,
    }
}

/// Whether no two entries carry the same route.
spec fn unique_routes(entries: Seq<Entry>) -> bool {
    forall|a: int, b: int|
        0 <= a < b < entries.len() ==> entries[a].0@ != entries[b].0@
}

/// Whether entry `i` of `entries` holds the route `route`.
spec fn entry_match(entries: Seq<Entry>, route: Seq<char>, i: int) -> bool {
    0 <= i < entries.len() && entries[i].0@ == route
}

/// In-memory store of job records, keyed by route token. Each route occurs
/// at most once.
pub struct ResultStore {
    entries: Vec<Entry>,
}

impl ResultStore {
    #[verifier::type_invariant]
    spec fn wf(&self) -> bool {
        unique_routes(self.entries@)
    }

    /// Whether a record for `route` exists at all (pending or done).
    pub closed spec fn spec_contains(&self, route: Seq<char>) -> bool {
        exists|i: int| entry_match(self.entries@, route, i)
    }

    /// The data of the record for `route`: `None` while the job is still
    /// processing, `Some(bytes)` once a result was stored. Meaningful only
    /// when `spec_contains(route)` holds.
    pub closed spec fn spec_get(&self, route: Seq<char>) -> Option<Seq<u8>> {
        let i = choose|i: int| entry_match(self.entries@, route, i);
        data_view(self.entries@[i].1)
    }

    /// With unique routes, any matching index determines the lookup result.
    proof fn lemma_lookup(&self, route: Seq<char>, i: int)
        requires
            unique_routes(self.entries@),
            entry_match(self.entries@, route, i),
        ensures
            self.spec_contains(route),
            self.spec_get(route) == data_view(self.entries@[i].1),
    {
        assert(self.spec_contains(route));
        let j = choose|j: int| entry_match(self.entries@, route, j);
        if i != j {
            assert(self.entries@[i].0@ == self.entries@[j].0@);
            assert(false);
        }
    }

    /// An empty store, holding no route at all.
    pub fn new() -> (s: ResultStore)
        ensures
            forall|r: Seq<char>| !s.spec_contains(r),
    {
        ResultStore { entries: Vec::new() }
    }

    /// The index of the record for `route`, if one exists.
    fn find_index(&self, route: &str) -> (r: Option<usize>)
        requires
            unique_routes(self.entries@),
        ensures
            match r {
                Some(i) => entry_match(self.entries@, route@, i as int),
                None => !self.spec_contains(route@),
            },
    {
        let key: String = route.to_owned();
        let n = self.entries.len();
        let mut j: usize = 0;
        while j < n
            invariant
                n == self.entries@.len(),
                j <= n,
                key@ == route@,
                forall|k: int| 0 <= k < j ==> self.entries@[k].0@ != route@,
            decreases n - j,
        {
            let e = &self.entries[j];
            if e.0 == key {
                return Some(j);
            }
            j = j + 1;
        }
        None
    }

    /// Inserts a placeholder record for `route` with no data. If the route
    /// already exists, its record is reset to the placeholder (a fresh
    /// random token makes this overwrite all but impossible, but the store
    /// keeps a single record per route either way). Every other route is
    /// left untouched.
    pub fn create(&mut self, route: &str)
        ensures
            final(self).spec_contains(route@),
            final(self).spec_get(route@) is None,
            forall|r: Seq<char>|
                r != route@ ==> (final(self).spec_contains(r) <==> old(self).spec_contains(r)),
            forall|r: Seq<char>|
                r != route@ && old(self).spec_contains(r) ==> final(self).spec_get(r) == old(
                    self,
                ).spec_get(r),
    {
        self.put(route, None);
    }

    /// Stores `data` as the result of the job for `route`. Succeeds exactly
    /// when the route was created before; a route that was never created is
    /// reported as not found and the store is left unchanged. Every other
    /// route is left untouched.
    pub fn set_result(&mut self, route: &str, data: Vec<u8>) -> (r: Result<(), StoreError>)
        ensures
            old(self).spec_contains(route@) ==> r is Ok && final(self).spec_contains(route@)
                && final(self).spec_get(route@) == Some(data@),
            !old(self).spec_contains(route@) ==> r == Err::<(), StoreError>(StoreError::NotFound)
                && *final(self) == *old(self),
            forall|r2: Seq<char>|
                r2 != route@ ==> (final(self).spec_contains(r2) <==> old(self).spec_contains(r2)),
            forall|r2: Seq<char>|
                r2 != route@ && old(self).spec_contains(r2) ==> final(self).spec_get(r2) == old(
                    self,
                ).spec_get(r2),
    {
        proof {
            use_type_invariant(&*self);
        }
        let found = self.find_index(route);
        if found.is_none() {
            return Err(StoreError::NotFound);
        }
        self.put(route, Some(data));
        Ok(())
    }

    /// Reads the record for `route`: not found if the route was never
    /// created, otherwise its data (`None` while pending).
    pub fn get(&self, route: &str) -> (r: Result<Option<Vec<u8>>, StoreError>)
        ensures
            self.spec_contains(route@) ==> (r matches Ok(d) && data_view(d) == self.spec_get(
                route@,
            )),
            !self.spec_contains(route@) ==> r == Err::<Option<Vec<u8>>, StoreError>(
                StoreError::NotFound,
            ),
    {
        proof {
            use_type_invariant(&*self);
        }
        match self.find_index(route) {
            Some(i) => {
                proof {
                    self.lemma_lookup(route@, i as int);
                }
                let e = &self.entries[i];
                match &e.1 {
                    Some(v) => Ok(Some(slice_to_vec(v.as_slice()))),
                    None => Ok(None),
                }
            },
            None => Err(StoreError::NotFound),
        }
    }

    /// Replaces the record for `route` with `value`, inserting it if absent.
    fn put(&mut self, route: &str, value: Option<Vec<u8>>)
        ensures
            final(self).spec_contains(route@),
            final(self).spec_get(route@) == data_view(value),
            forall|r: Seq<char>|
                r != route@ ==> (final(self).spec_contains(r) <==> old(self).spec_contains(r)),
            forall|r: Seq<char>|
                r != route@ && old(self).spec_contains(r) ==> final(self).spec_get(r) == old(
                    self,
                ).spec_get(r),
    {
        proof {
            use_type_invariant(&*self);
        }
        let ghost gvalue = value;
        let found = self.find_index(route);
        let ghost old_entries = self.entries@;
        let mut entries: Vec<Entry> = Vec::new();
        std::mem::swap(&mut entries, &mut self.entries);
        let ghost mid = match found {
            Some(i) => old_entries.remove(i as int),
            None => old_entries,
        };
        match found {
            Some(i) => {
                let e = entries.remove(i);
                entries.push((e.0, value));
            },
            None => {
                entries.push((route.to_owned(), value));
            },
        }
        proof {
            // After removing the one matching entry, no entry carries
            // `route`, so pushing the fresh record keeps routes unique.
            assert forall|k: int| 0 <= k < mid.len() implies mid[k].0@ != route@ by {
                if found is Some {
                    let i = found->Some_0 as int;
                    assert(entry_match(old_entries, route@, i));
                    if k < i {
                        assert(mid[k] == old_entries[k]);
                    } else {
                        assert(mid[k] == old_entries[k + 1]);
                    }
                } else {
                    assert(!(exists|i: int| entry_match(old_entries, route@, i)));
                    assert(entry_match(old_entries, route@, k) ==> false);
                }
            }
            assert(unique_routes(entries@));
        }
        self.entries = entries;
        proof {
            let es = self.entries@;
            let last = es.len() - 1;
            assert(entry_match(es, route@, last));
            self.lemma_lookup(route@, last);
            assert(es[last].1 == gvalue);
            assert forall|r: Seq<char>| r != route@ implies (self.spec_contains(r) <==> old(
                self,
            ).spec_contains(r)) by {
                if self.spec_contains(r) {
                    let i = choose|i: int| entry_match(es, r, i);
                    assert(i < last);
                    if found is Some {
                        let f = found->Some_0 as int;
                        if i < f {
                            assert(entry_match(old_entries, r, i));
                        } else {
                            assert(entry_match(old_entries, r, i + 1));
                        }
                    } else {
                        assert(entry_match(old_entries, r, i));
                    }
                }
                if old(self).spec_contains(r) {
                    let i = choose|i: int| entry_match(old_entries, r, i);
                    if found is Some {
                        let f = found->Some_0 as int;
                        assert(i != f);
                        if i < f {
                            assert(entry_match(es, r, i));
                        } else {
                            assert(entry_match(es, r, i - 1));
                        }
                    } else {
                        assert(entry_match(es, r, i));
                    }
                }
            }
            assert forall|r: Seq<char>| r != route@ && old(self).spec_contains(r) implies self
                .spec_get(r) == old(self).spec_get(r) by {
                let i = choose|i: int| entry_match(old_entries, r, i);
                lemma_choose_match(old_entries, r, i);
                if found is Some {
                    let f = found->Some_0 as int;
                    assert(i != f);
                    if i < f {
                        assert(entry_match(es, r, i));
                        self.lemma_lookup(r, i);
                        assert(es[i] == old_entries[i]);
                    } else {
                        assert(entry_match(es, r, i - 1));
                        self.lemma_lookup(r, i - 1);
                        assert(es[i - 1] == old_entries[i]);
                    }
                } else {
                    assert(entry_match(es, r, i));
                    self.lemma_lookup(r, i);
                    assert(es[i] == old_entries[i]);
                }
            }
        }
    }
}

/// With unique routes, the chosen witness of a matching entry is the one
/// matching index itself.
proof fn lemma_choose_match(entries: Seq<Entry>, route: Seq<char>, i: int)
    requires
        unique_routes(entries),
        entry_match(entries, route, i),
    ensures
        (choose|j: int| entry_match(entries, route, j)) == i,
{
    let j = choose|j: int| entry_match(entries, route, j);
    if i != j {
        assert(entries[i].0@ == entries[j].0@);
        assert(false);
    }
}

} // verus!
