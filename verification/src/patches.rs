//! Native patch diffing: a per-id-chain cache of the last values sent to the
//! host renderer, and the computation of sparse patches holding only the
//! fields that changed since the previous frame.

use vstd::prelude::*;
use vstd::string::StrSliceExecFns;
use vstd::string::StringExecFns;

use crate::rendering::Transform2D;
use crate::rendering::chains_equal;
use crate::rendering::copy_chain;
use crate::text::str_eq;

verus! {

/// A sparse update for an image node: the asset path, if it changed.
pub struct ImagePatch {
    pub id_chain: Vec<u64>,
    pub path: Option<String>,
}

/// A sparse update for a drawn node's common properties: only the changed
/// fields are populated.
pub struct CommonPatch {
    pub id_chain: Vec<u64>,
    pub size_x: Option<u64>,
    pub size_y: Option<u64>,
    pub transform: Option<Transform2D>,
}

/// One outbound message to the host rendering boundary.
pub enum NativeMessage {
    ImageLoad(ImagePatch),
    CommonUpdate(CommonPatch),
}

/// The last values sent to the host for one id chain. A field holding `None`
/// has never been sent.
pub struct CacheEntry {
    pub id_chain: Vec<u64>,
    pub path: Option<String>,
    pub size_x: Option<u64>,
    pub size_y: Option<u64>,
    pub transform: Option<Transform2D>,
}

/// The per-frame patch cache, keyed by id chain.
pub struct PatchCache {
    pub entries: Vec<CacheEntry>,
}

/// The first cache entry keyed by `key`, scanning front to back.
pub open spec fn cache_lookup(s: Seq<CacheEntry>, key: Seq<u64>) -> Option<CacheEntry>
    decreases s.len(),
{
    if s.len() == 0 {
        None
    } else if s[0].id_chain@ == key {
        Some(s[0])
    } else {
        cache_lookup(s.skip(1), key)
    }
}

/// Id chains key at most one cache entry each.
pub open spec fn cache_wf(s: Seq<CacheEntry>) -> bool {
    forall|i: int, j: int|
        0 <= i < j < s.len() ==> (#[trigger] s[i]).id_chain@ != (#[trigger] s[j]).id_chain@
}

proof fn lemma_cache_lookup_found(s: Seq<CacheEntry>, key: Seq<u64>, i: int)
    requires
        0 <= i < s.len(),
        s[i].id_chain@ == key,
        forall|j: int| 0 <= j < i ==> (#[trigger] s[j]).id_chain@ != key,
    ensures
        cache_lookup(s, key) == Some(s[i]),
    decreases i,
{
    if i > 0 {
        assert(s.skip(1)[i - 1] == s[i]);
        assert(forall|j: int| 0 <= j < i - 1 ==> #[trigger] s.skip(1)[j] == s[j + 1]);
        lemma_cache_lookup_found(s.skip(1), key, i - 1);
    }
}

proof fn lemma_cache_lookup_none(s: Seq<CacheEntry>, key: Seq<u64>)
    requires
        forall|j: int| 0 <= j < s.len() ==> (#[trigger] s[j]).id_chain@ != key,
    ensures
        cache_lookup(s, key) is None,
    decreases s.len(),
{
    if s.len() > 0 {
        assert(forall|j: int| 0 <= j < s.skip(1).len() ==> #[trigger] s.skip(1)[j] == s[j + 1]);
        lemma_cache_lookup_none(s.skip(1), key);
    }
}

proof fn lemma_cache_lookup_none_pointwise(s: Seq<CacheEntry>, key: Seq<u64>)
    requires
        cache_lookup(s, key) is None,
    ensures
        forall|j: int| 0 <= j < s.len() ==> (#[trigger] s[j]).id_chain@ != key,
    decreases s.len(),
{
    if s.len() > 0 {
        lemma_cache_lookup_none_pointwise(s.skip(1), key);
        assert(forall|j: int| 0 <= j < s.skip(1).len() ==> #[trigger] s.skip(1)[j] == s[j + 1]);
        assert forall|j: int| 0 <= j < s.len() implies (#[trigger] s[j]).id_chain@ != key by {
            if j > 0 {
                assert(s[j] == s.skip(1)[j - 1]);
            }
        }
    }
}

proof fn lemma_cache_lookup_update_other(s: Seq<CacheEntry>, i: int, e: CacheEntry, k: Seq<u64>)
    requires
        0 <= i < s.len(),
        e.id_chain@ == s[i].id_chain@,
        k != s[i].id_chain@,
    ensures
        cache_lookup(s.update(i, e), k) == cache_lookup(s, k),
    decreases i,
{
    let ds = s.update(i, e);
    if i == 0 {
        assert(ds.skip(1) =~= s.skip(1));
    } else {
        assert(ds[0] == s[0]);
        if s[0].id_chain@ == k {
        } else {
            assert(ds.skip(1) =~= s.skip(1).update(i - 1, e));
            assert(s.skip(1)[i - 1] == s[i]);
            lemma_cache_lookup_update_other(s.skip(1), i - 1, e, k);
        }
    }
}

impl PatchCache {
    /// The cached path for an id chain, if one was ever sent.
    pub open spec fn cached_path(&self, key: Seq<u64>) -> Option<Seq<char>> {
        match cache_lookup(self.entries@, key) {
            Some(e) => match e.path {
                Some(p) => Some(p@),
                None => None,
            },
            None => None,
        }
    }

    /// The cached horizontal extent for an id chain, if one was ever sent.
    pub open spec fn cached_size_x(&self, key: Seq<u64>) -> Option<u64> {
        match cache_lookup(self.entries@, key) {
            Some(e) => e.size_x,
            None => None,
        }
    }

    /// The cached vertical extent for an id chain, if one was ever sent.
    pub open spec fn cached_size_y(&self, key: Seq<u64>) -> Option<u64> {
        match cache_lookup(self.entries@, key) {
            Some(e) => e.size_y,
            None => None,
        }
    }

    /// The cached transform for an id chain, if one was ever sent.
    pub open spec fn cached_transform(&self, key: Seq<u64>) -> Option<Transform2D> {
        match cache_lookup(self.entries@, key) {
            Some(e) => e.transform,
            None => None,
        }
    }

    /// The cache's structural invariant: one entry per id chain.
    pub open spec fn wf(&self) -> bool {
        cache_wf(self.entries@)
    }

    /// An empty cache.
    pub fn new() -> (r: PatchCache)
        ensures
            r.wf(),
            r.entries@.len() == 0,
    {
        PatchCache { entries: Vec::new() }
    }

    /// Finds the entry index for a key, with the first-match facts needed by
    /// the lookup lemmas.
    fn find(&self, id_chain: &Vec<u64>) -> (r: Option<usize>)
        ensures
            match r {
                Some(i) => {
                    &&& i < self.entries@.len()
                    &&& self.entries@[i as int].id_chain@ == id_chain@
                    &&& cache_lookup(self.entries@, id_chain@) == Some(self.entries@[i as int])
                    &&& forall|j: int|
                        0 <= j < i ==> (#[trigger] self.entries@[j]).id_chain@ != id_chain@
                },
                None => cache_lookup(self.entries@, id_chain@) is None,
            },
    {
        let n = self.entries.len();
        let mut i: usize = 0;
        while i < n
            invariant
                n == self.entries@.len(),
                i <= n,
                forall|j: int| 0 <= j < i ==> (#[trigger] self.entries@[j]).id_chain@ != id_chain@,
            decreases n - i,
        {
            if chains_equal(&self.entries[i].id_chain, id_chain) {
                proof {
                    lemma_cache_lookup_found(self.entries@, id_chain@, i as int);
                }
                return Some(i);
            }
            i += 1;
        }
        proof {
            lemma_cache_lookup_none(self.entries@, id_chain@);
        }
        None
    }
}

/// Whether a freshly computed image path must be sent: it differs from what
/// the host last saw for this id chain.
pub open spec fn image_patch_emitted(prior: Option<Seq<char>>, current: Seq<char>) -> bool {
    prior != Some(current)
}

/// Recomputing an image patch against a cache that already holds the same
/// value emits nothing: patch diffing is idempotent across frames.
pub proof fn lemma_image_diffing_idempotent(current: Seq<char>)
    ensures
        !image_patch_emitted(Some(current), current),
{
}

/// Whether a freshly computed field value must be sent.
pub open spec fn field_emitted<V>(prior: Option<V>, current: V) -> bool {
    prior != Some(current)
}

/// Recomputing any common-property field against a cache that already holds
/// the same value emits nothing for that field.
pub proof fn lemma_field_diffing_idempotent<V>(current: V)
    ensures
        !field_emitted(Some(current), current),
{
}

impl PatchCache {
    /// Compares an image node's freshly computed path to the cache: emits a
    /// patch holding the path iff it differs from the last value sent, and
    /// records the sent value. The cache is untouched when nothing is sent.
    pub fn compute_image_patch(&mut self, id_chain: &Vec<u64>, current_path: &str) -> (r: Option<
        ImagePatch,
    >)
        requires
            old(self).wf(),
        ensures
            final(self).wf(),
            !image_patch_emitted(old(self).cached_path(id_chain@), current_path@) ==> r is None
                && *final(self) == *old(self),
            image_patch_emitted(old(self).cached_path(id_chain@), current_path@) ==> {
                &&& r matches Some(p) && p.id_chain@ == id_chain@ && (p.path matches Some(s)
                    && s@ == current_path@)
                &&& final(self).cached_path(id_chain@) == Some(current_path@)
                &&& final(self).cached_size_x(id_chain@) == old(self).cached_size_x(id_chain@)
                &&& final(self).cached_size_y(id_chain@) == old(self).cached_size_y(id_chain@)
                &&& final(self).cached_transform(id_chain@) == old(self).cached_transform(
                    id_chain@,
                )
            },
            forall|k: Seq<u64>|
                k != id_chain@ ==> {
                    &&& final(self).cached_path(k) == old(self).cached_path(k)
                    &&& final(self).cached_size_x(k) == old(self).cached_size_x(k)
                    &&& final(self).cached_size_y(k) == old(self).cached_size_y(k)
                    &&& final(self).cached_transform(k) == old(self).cached_transform(k)
                },
    {
        match self.find(id_chain) {
            Some(i) => {
                let unchanged = match &self.entries[i].path {
                    Some(p) => str_eq(p.as_str(), current_path),
                    None => false,
                };
                if unchanged {
                    return None;
                }
                let mut e = self.entries.remove(i);
                e.path = Some(String::from_str(current_path));
                self.entries.insert(i, e);
                proof {
                    assert(self.entries@ =~= old(self).entries@.update(
                        i as int,
                        self.entries@[i as int],
                    ));
                    lemma_cache_lookup_found(self.entries@, id_chain@, i as int);
                    assert forall|k: Seq<u64>| k != id_chain@ implies cache_lookup(
                        self.entries@,
                        k,
                    ) == cache_lookup(old(self).entries@, k) by {
                        lemma_cache_lookup_update_other(
                            old(self).entries@,
                            i as int,
                            self.entries@[i as int],
                            k,
                        );
                    }
                    assert(cache_wf(self.entries@));
                }
                Some(
                    ImagePatch {
                        id_chain: copy_chain(id_chain),
                        path: Some(String::from_str(current_path)),
                    },
                )
            },
            None => {
                let fresh = CacheEntry {
                    id_chain: copy_chain(id_chain),
                    path: Some(String::from_str(current_path)),
                    size_x: None,
                    size_y: None,
                    transform: None,
                };
                self.entries.insert(0, fresh);
                proof {
                    assert(self.entries@.skip(1) =~= old(self).entries@);
                    lemma_cache_lookup_none_pointwise(old(self).entries@, id_chain@);
                    assert forall|a: int, b: int|
                        0 <= a < b < self.entries@.len() implies (#[trigger] self.entries@[a]).id_chain@
                        != (#[trigger] self.entries@[b]).id_chain@ by {
                        if a == 0 {
                            assert(self.entries@[b] == old(self).entries@[b - 1]);
                        } else {
                            assert(self.entries@[a] == old(self).entries@[a - 1]);
                            assert(self.entries@[b] == old(self).entries@[b - 1]);
                        }
                    }
                }
                Some(
                    ImagePatch {
                        id_chain: copy_chain(id_chain),
                        path: Some(String::from_str(current_path)),
                    },
                )
            },
        }
    }

    /// Compares a drawn node's freshly computed common properties to the
    /// cache: emits a patch holding exactly the fields that differ from the
    /// last values sent, and records them. Emits nothing, and leaves the
    /// cache untouched, when every field is unchanged.
    pub fn compute_common_patch(
        &mut self,
        id_chain: &Vec<u64>,
        size_x: u64,
        size_y: u64,
        transform: Transform2D,
    ) -> (r: Option<CommonPatch>)
        requires
            old(self).wf(),
        ensures
            final(self).wf(),
            (!field_emitted(old(self).cached_size_x(id_chain@), size_x) && !field_emitted(
                old(self).cached_size_y(id_chain@),
                size_y,
            ) && !field_emitted(old(self).cached_transform(id_chain@), transform)) ==> r is None
                && *final(self) == *old(self),
            (field_emitted(old(self).cached_size_x(id_chain@), size_x) || field_emitted(
                old(self).cached_size_y(id_chain@),
                size_y,
            ) || field_emitted(old(self).cached_transform(id_chain@), transform)) ==> {
                &&& r matches Some(p) && {
                    &&& p.id_chain@ == id_chain@
                    &&& p.size_x == if field_emitted(old(self).cached_size_x(id_chain@), size_x) {
                        Some(size_x)
                    } else {
                        None::<u64>
                    }
                    &&& p.size_y == if field_emitted(old(self).cached_size_y(id_chain@), size_y) {
                        Some(size_y)
                    } else {
                        None::<u64>
                    }
                    &&& p.transform == if field_emitted(
                        old(self).cached_transform(id_chain@),
                        transform,
                    ) {
                        Some(transform)
                    } else {
                        None::<Transform2D>
                    }
                }
                &&& final(self).cached_size_x(id_chain@) == Some(size_x)
                &&& final(self).cached_size_y(id_chain@) == Some(size_y)
                &&& final(self).cached_transform(id_chain@) == Some(transform)
                &&& final(self).cached_path(id_chain@) == old(self).cached_path(id_chain@)
            },
            forall|k: Seq<u64>|
                k != id_chain@ ==> {
                    &&& final(self).cached_path(k) == old(self).cached_path(k)
                    &&& final(self).cached_size_x(k) == old(self).cached_size_x(k)
                    &&& final(self).cached_size_y(k) == old(self).cached_size_y(k)
                    &&& final(self).cached_transform(k) == old(self).cached_transform(k)
                },
    {
        let found = self.find(id_chain);
        let (prior_x, prior_y, prior_t): (Option<u64>, Option<u64>, Option<Transform2D>) =
            match found {
            Some(i) => (self.entries[i].size_x, self.entries[i].size_y, self.entries[i].transform),
            None => (None, None, None),
        };
        let diff_x = match prior_x {
            Some(v) => v != size_x,
            None => true,
        };
        let diff_y = match prior_y {
            Some(v) => v != size_y,
            None => true,
        };
        let diff_t = match prior_t {
            Some(v) => !(v == transform),
            None => true,
        };
        if !diff_x && !diff_y && !diff_t {
            return None;
        }
        let patch = CommonPatch {
            id_chain: copy_chain(id_chain),
            size_x: if diff_x {
                Some(size_x)
            } else {
                None
            },
            size_y: if diff_y {
                Some(size_y)
            } else {
                None
            },
            transform: if diff_t {
                Some(transform)
            } else {
                None
            },
        };
        match found {
            Some(i) => {
                let mut e = self.entries.remove(i);
                e.size_x = Some(size_x);
                e.size_y = Some(size_y);
                e.transform = Some(transform);
                self.entries.insert(i, e);
                proof {
                    assert(self.entries@ =~= old(self).entries@.update(
                        i as int,
                        self.entries@[i as int],
                    ));
                    lemma_cache_lookup_found(self.entries@, id_chain@, i as int);
                    assert forall|k: Seq<u64>| k != id_chain@ implies cache_lookup(
                        self.entries@,
                        k,
                    ) == cache_lookup(old(self).entries@, k) by {
                        lemma_cache_lookup_update_other(
                            old(self).entries@,
                            i as int,
                            self.entries@[i as int],
                            k,
                        );
                    }
                    assert(cache_wf(self.entries@));
                }
            },
            None => {
                let fresh = CacheEntry {
                    id_chain: copy_chain(id_chain),
                    path: None,
                    size_x: Some(size_x),
                    size_y: Some(size_y),
                    transform: Some(transform),
                };
                self.entries.insert(0, fresh);
                proof {
                    assert(self.entries@.skip(1) =~= old(self).entries@);
                    lemma_cache_lookup_none_pointwise(old(self).entries@, id_chain@);
                    assert forall|a: int, b: int|
                        0 <= a < b < self.entries@.len() implies (#[trigger] self.entries@[a]).id_chain@
                        != (#[trigger] self.entries@[b]).id_chain@ by {
                        if a == 0 {
                            assert(self.entries@[b] == old(self).entries@[b - 1]);
                        } else {
                            assert(self.entries@[a] == old(self).entries@[a - 1]);
                            assert(self.entries@[b] == old(self).entries@[b - 1]);
                        }
                    }
                }
            },
        }
        Some(patch)
    }
}


/// `key` is among the id chains visited by the current frame's traversal.
pub open spec fn chain_visited(visited: Seq<Vec<u64>>, key: Seq<u64>) -> bool {
    exists|i: int| 0 <= i < visited.len() && (#[trigger] visited[i])@ == key
}

/// True iff the key is among the visited chains.
fn chain_listed(visited: &Vec<Vec<u64>>, key: &Vec<u64>) -> (r: bool)
    ensures
        r == chain_visited(visited@, key@),
{
    let n = visited.len();
    let mut i: usize = 0;
    while i < n
        invariant
            n == visited@.len(),
            i <= n,
            forall|j: int| 0 <= j < i ==> (#[trigger] visited@[j])@ != key@,
        decreases n - i,
    {
        if chains_equal(&visited[i], key) {
            return true;
        }
        i += 1;
    }
    false
}

proof fn lemma_wf_drop_mid(a: Seq<CacheEntry>, x: CacheEntry, b: Seq<CacheEntry>)
    requires
        cache_wf(a + seq![x] + b),
    ensures
        cache_wf(a + b),
{
    let whole = a + seq![x] + b;
    let shrunk = a + b;
    assert forall|i: int, j: int|
        0 <= i < j < shrunk.len() implies (#[trigger] shrunk[i]).id_chain@
        != (#[trigger] shrunk[j]).id_chain@ by {
        let wi: int = if i < a.len() { i } else { i + 1 };
        let wj: int = if j < a.len() { j } else { j + 1 };
        assert(shrunk[i] == whole[wi]);
        assert(shrunk[j] == whole[wj]);
    }
}

impl PatchCache {
    /// Prunes the cache down to the id chains addressed by the current
    /// frame's traversal: an instance that ceased to exist this frame takes
    /// its cached values with it.
    pub fn retain_chains(&mut self, visited: &Vec<Vec<u64>>)
        requires
            old(self).wf(),
        ensures
            final(self).wf(),
            final(self).entries@ == old(self).entries@.filter(
                |e: CacheEntry| chain_visited(visited@, e.id_chain@),
            ),
    {
        let ghost pred = |e: CacheEntry| chain_visited(visited@, e.id_chain@);
        let mut rest: Vec<CacheEntry> = Vec::new();
        core::mem::swap(&mut rest, &mut self.entries);
        let ghost orig = rest@;
        let ghost gi: int = 0;
        proof {
            assert(orig.take(0) =~= Seq::<CacheEntry>::empty());
            assert(orig.take(0).filter(pred) =~= Seq::<CacheEntry>::empty());
            assert(self.entries@ =~= orig.take(0).filter(pred));
            assert(orig.skip(0) =~= orig);
            assert(self.entries@ + orig =~= orig);
        }
        while rest.len() > 0
            invariant
                pred == (|e: CacheEntry| chain_visited(visited@, e.id_chain@)),
                0 <= gi <= orig.len(),
                rest@ == orig.skip(gi),
                self.entries@ == orig.take(gi).filter(pred),
                cache_wf(self.entries@ + rest@),
            decreases rest@.len(),
        {
            let ghost prev = self.entries@;
            let ghost prev_rest = rest@;
            let e = rest.remove(0);
            proof {
                assert(prev_rest[0] == orig[gi]);
                assert(rest@ =~= orig.skip(gi + 1));
            }
            let keep = chain_listed(visited, &e.id_chain);
            let ghost stepped = orig.take(gi + 1);
            proof {
                reveal_with_fuel(Seq::<CacheEntry>::filter, 2);
                assert(stepped.drop_last() =~= orig.take(gi));
                assert(stepped.last() == orig[gi]);
                assert(e == orig[gi]);
                assert(keep == chain_visited(visited@, e.id_chain@));
                assert(pred(orig[gi]) == chain_visited(visited@, orig[gi].id_chain@));
                assert(pred(orig[gi]) == keep);
            }
            if keep {
                self.entries.push(e);
                proof {
                    reveal_with_fuel(Seq::<CacheEntry>::filter, 2);
                    assert(stepped.filter(pred) == stepped.drop_last().filter(pred).push(
                        stepped.last(),
                    ));
                    assert(stepped.filter(pred) == prev.push(orig[gi]));
                    assert(prev + prev_rest =~= self.entries@ + rest@);
                }
            } else {
                proof {
                    reveal_with_fuel(Seq::<CacheEntry>::filter, 2);
                    assert(stepped.filter(pred) == stepped.drop_last().filter(pred));
                    assert(stepped.filter(pred) == prev);
                    assert(prev + prev_rest =~= prev + seq![orig[gi]] + rest@);
                    lemma_wf_drop_mid(prev, orig[gi], rest@);
                }
            }
            proof {
                gi = gi + 1;
            }
        }
        proof {
            assert(orig.skip(gi) =~= rest@);
            assert(gi == orig.len());
            assert(orig.take(gi) =~= orig);
            assert(self.entries@ + rest@ =~= self.entries@);
        }
    }
}

} // verus!
