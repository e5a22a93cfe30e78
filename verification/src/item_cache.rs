//! The cached list of items that the grid shows: the paths of the items
//! that pass the filter, in sorted order, and what they were computed from.

use vstd::prelude::*;
use crate::transform::texts;

verus! {

/// What the item list was computed from: the vault and when it last
/// changed (milliseconds since the Unix epoch), and the filter and the
/// sorts, each by its written form.
pub struct ItemCacheParams {
    pub vault_name: String,
    pub last_updated_ms: i64,
    pub filter: String,
    pub sorts: Vec<String>,
}

/// Two sets of parameters are the same.
pub open spec fn same_params(a: ItemCacheParams, b: ItemCacheParams) -> bool {
    &&& a.vault_name@ == b.vault_name@
    &&& a.last_updated_ms == b.last_updated_ms
    &&& a.filter@ == b.filter@
    &&& texts(a.sorts@) == texts(b.sorts@)
}

fn same_texts(a: &Vec<String>, b: &Vec<String>) -> (r: bool)
    ensures
        r == (texts(a@) == texts(b@)),
{
    if a.len() != b.len() {
        assert(texts(a@).len() != texts(b@).len());
        return false;
    }
    let mut i: usize = 0;
    while i < a.len()
        invariant
            a@.len() == b@.len(),
            i <= a@.len(),
            forall|j: int| 0 <= j < i ==> a@[j]@ == b@[j]@,
        decreases a.len() - i,
    {
        if !(a[i] == b[i]) {
            assert(texts(a@)[i as int] != texts(b@)[i as int]);
            return false;
        }
        i = i + 1;
    }
    assert(texts(a@) =~= texts(b@));
    true
}

/// The cached item list.
pub struct ItemCache {
    pub item_paths: Vec<String>,
    pub params: ItemCacheParams,
}

impl ItemCache {
    /// A cache of the items computed with `params`.
    pub fn new(params: ItemCacheParams, item_paths: Vec<String>) -> (c: Self)
        ensures
            c.params == params,
            c.item_paths == item_paths,
    {
        ItemCache { item_paths, params }
    }

    /// The list must be computed again: the vault, its last change, the
    /// filter or the sorts differ from what it was computed from.
    pub fn needs_update(&self, params: &ItemCacheParams) -> (r: bool)
        ensures
            r == !same_params(self.params, *params),
    {
        if !(self.params.vault_name == params.vault_name) {
            return true;
        }
        if self.params.last_updated_ms != params.last_updated_ms {
            return true;
        }
        if !(self.params.filter == params.filter) {
            return true;
        }
        !same_texts(&self.params.sorts, &params.sorts)
    }

    /// Takes a newly computed list.
    pub fn replace(&mut self, params: ItemCacheParams, item_paths: Vec<String>)
        ensures
            final(self).params == params,
            final(self).item_paths == item_paths,
    {
        self.params = params;
        self.item_paths = item_paths;
    }

    /// The paths among `paths` that are in the list, in the order given.
    pub fn existing_paths(&self, paths: &[String]) -> (r: Vec<usize>)
        ensures
            forall|k: int| 0 <= k < r@.len() ==> r@[k] < paths@.len(),
            forall|k: int, l: int| 0 <= k < l < r@.len() ==> r@[k] < r@[l],
            forall|i: int|
                0 <= i < paths@.len() ==> (r@.contains(i as usize) <==> texts(
                    self.item_paths@,
                ).contains(#[trigger] paths@[i]@)),
    {
        let mut r: Vec<usize> = Vec::new();
        let mut i: usize = 0;
        while i < paths.len()
            invariant
                i <= paths@.len(),
                forall|k: int| 0 <= k < r@.len() ==> r@[k] < i,
                forall|k: int, l: int| 0 <= k < l < r@.len() ==> r@[k] < r@[l],
                forall|j: int|
                    0 <= j < i ==> (r@.contains(j as usize) <==> texts(self.item_paths@).contains(
                        #[trigger] paths@[j]@,
                    )),
            decreases paths.len() - i,
        {
            let mut found = false;
            let mut k: usize = 0;
            while k < self.item_paths.len()
                invariant
                    i < paths@.len(),
                    k <= self.item_paths@.len(),
                    found == exists|m: int| 0 <= m < k && self.item_paths@[m]@ == paths@[i as int]@,
                decreases self.item_paths.len() - k,
            {
                if self.item_paths[k] == paths[i] {
                    found = true;
                }
                k = k + 1;
            }
            proof {
                if texts(self.item_paths@).contains(paths@[i as int]@) {
                    let m = choose|m: int|
                        0 <= m < texts(self.item_paths@).len() && texts(self.item_paths@)[m]
                            == paths@[i as int]@;
                    assert(self.item_paths@[m]@ == paths@[i as int]@);
                }
                if found {
                    let m = choose|m: int|
                        0 <= m < k && self.item_paths@[m]@ == paths@[i as int]@;
                    assert(texts(self.item_paths@)[m] == paths@[i as int]@);
                }
            }
            let ghost before = r@;
            if found {
                r.push(i);
            }
            proof {
                assert forall|j: int| 0 <= j < i + 1 implies (r@.contains(j as usize) <==> texts(
                    self.item_paths@,
                ).contains(#[trigger] paths@[j]@)) by {
                    if j < i {
                        if r@.contains(j as usize) {
                            let q = choose|q: int| 0 <= q < r@.len() && r@[q] == j as usize;
                            if q < before.len() {
                                assert(before[q] == j as usize);
                            }
                        }
                        if before.contains(j as usize) {
                            let q = choose|q: int| 0 <= q < before.len() && before[q] == j as usize;
                            assert(r@[q] == j as usize);
                        }
                    } else {
                        if found {
                            assert(r@[before.len() as int] == i);
                        } else {
                            if r@.contains(j as usize) {
                                let q = choose|q: int| 0 <= q < r@.len() && r@[q] == j as usize;
                                assert(before[q] < i);
                            }
                        }
                    }
                }
            }
            i = i + 1;
        }
        r
    }

    /// Number of items in the list.
    pub fn len_items(&self) -> (n: usize)
        ensures
            n == self.item_paths@.len(),
    {
        self.item_paths.len()
    }
}

} // verus!
