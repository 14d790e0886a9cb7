//! The instance registry: mints stable, monotonically increasing instance
//! ids and keeps a non-owning lookup table from id to arena index. Entries
//! are never removed; an instance that ceases to render simply stops being
//! addressed.

use vstd::prelude::*;

verus! {

/// The registry of minted instance ids.
pub struct InstanceRegistry {
    /// The next id to mint.
    pub next_id: u64,
    /// Registered instances: minted id to arena index.
    pub entries: Vec<(u64, usize)>,
}

/// The arena index registered for `id`, scanning front to back.
pub open spec fn registry_lookup(s: Seq<(u64, usize)>, id: u64) -> Option<usize>
    decreases s.len(),
{
    if s.len() == 0 {
        None
    } else if s[0].0 == id {
        Some(s[0].1)
    } else {
        registry_lookup(s.skip(1), id)
    }
}

proof fn lemma_registry_lookup_found(s: Seq<(u64, usize)>, id: u64, i: int)
    requires
        0 <= i < s.len(),
        s[i].0 == id,
        forall|j: int| 0 <= j < i ==> (#[trigger] s[j]).0 != id,
    ensures
        registry_lookup(s, id) == Some(s[i].1),
    decreases i,
{
    if i > 0 {
        assert(s.skip(1)[i - 1] == s[i]);
        assert(forall|j: int| 0 <= j < i - 1 ==> #[trigger] s.skip(1)[j] == s[j + 1]);
        lemma_registry_lookup_found(s.skip(1), id, i - 1);
    }
}

proof fn lemma_registry_lookup_none(s: Seq<(u64, usize)>, id: u64)
    requires
        forall|j: int| 0 <= j < s.len() ==> (#[trigger] s[j]).0 != id,
    ensures
        registry_lookup(s, id) is None,
    decreases s.len(),
{
    if s.len() > 0 {
        assert(forall|j: int| 0 <= j < s.skip(1).len() ==> #[trigger] s.skip(1)[j] == s[j + 1]);
        lemma_registry_lookup_none(s.skip(1), id);
    }
}

impl InstanceRegistry {
    /// The registered arena index for an id, if any.
    pub open spec fn spec_lookup(&self, id: u64) -> Option<usize> {
        registry_lookup(self.entries@, id)
    }

    /// An empty registry, minting ids from zero.
    pub fn new() -> (r: InstanceRegistry)
        ensures
            r.next_id == 0,
            forall|id: u64| r.spec_lookup(id) is None,
            r.entries@.len() == 0,
    {
        InstanceRegistry { next_id: 0, entries: Vec::new() }
    }

    /// Mints the next instance id: process-unique, monotonically increasing.
    pub fn mint_id(&mut self) -> (r: u64)
        requires
            old(self).next_id < u64::MAX,
        ensures
            r == old(self).next_id,
            final(self).next_id == old(self).next_id + 1,
            final(self).entries == old(self).entries,
    {
        let id = self.next_id;
        self.next_id = self.next_id + 1;
        id
    }

    /// Registers a freshly minted id. Registering an id twice is a fatal
    /// invariant violation, so an already-registered id is ruled out here.
    pub fn register(&mut self, id: u64, node_index: usize)
        requires
            old(self).spec_lookup(id) is None,
        ensures
            final(self).spec_lookup(id) == Some(node_index),
            forall|other: u64|
                other != id ==> final(self).spec_lookup(other) == old(self).spec_lookup(other),
            final(self).next_id == old(self).next_id,
            final(self).entries@ == seq![(id, node_index)] + old(self).entries@,
    {
        proof {
            assert(old(self).entries@.insert(0, (id, node_index)) =~= seq![(id, node_index)]
                + old(self).entries@);
        }
        self.entries.insert(0, (id, node_index));
        proof {
            assert(self.entries@.skip(1) =~= old(self).entries@);
        }
    }

    /// Every registered id was minted earlier: it lies below `next_id`.
    pub open spec fn ids_bounded(&self) -> bool {
        forall|j: int| 0 <= j < self.entries@.len() ==> (#[trigger] self.entries@[j]).0
            < self.next_id
    }

    /// Mints a fresh id and registers it for an arena index, in one step.
    pub fn mint_and_register(&mut self, node_index: usize) -> (r: u64)
        requires
            old(self).next_id < u64::MAX,
            old(self).ids_bounded(),
        ensures
            r == old(self).next_id,
            final(self).next_id == old(self).next_id + 1,
            final(self).ids_bounded(),
            final(self).spec_lookup(r) == Some(node_index),
            forall|other: u64|
                other != r ==> final(self).spec_lookup(other) == old(self).spec_lookup(other),
            final(self).entries@.len() == old(self).entries@.len() + 1,
    {
        let id = self.mint_id();
        proof {
            lemma_registry_lookup_none(self.entries@, id);
        }
        self.register(id, node_index);
        proof {
            assert(self.entries@.skip(1) =~= old(self).entries@);
            assert forall|j: int| 0 <= j < self.entries@.len() implies (#[trigger] self.entries@[j]).0
                < self.next_id by {
                if j > 0 {
                    assert(self.entries@[j] == old(self).entries@[j - 1]);
                }
            }
        }
        id
    }

    /// Looks an instance id up.
    pub fn lookup(&self, id: u64) -> (r: Option<usize>)
        ensures
            r == self.spec_lookup(id),
    {
        let n = self.entries.len();
        let mut i: usize = 0;
        while i < n
            invariant
                n == self.entries@.len(),
                i <= n,
                forall|j: int| 0 <= j < i ==> (#[trigger] self.entries@[j]).0 != id,
            decreases n - i,
        {
            if self.entries[i].0 == id {
                proof {
                    lemma_registry_lookup_found(self.entries@, id, i as int);
                }
                return Some(self.entries[i].1);
            }
            i += 1;
        }
        proof {
            lemma_registry_lookup_none(self.entries@, id);
        }
        None
    }
}

} // verus!
