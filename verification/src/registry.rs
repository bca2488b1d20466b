//! The table of registered routes.
//!
//! Endpoints and topics are registered once, before any transport
//! traffic is processed, and are read-only afterwards. Registration
//! derives each entry's fixed-width key from its path; two entries
//! whose keys collide are a configuration error reported at
//! registration time, never a silent misroute later. The table also
//! answers the shortest key prefix width that keeps every registered
//! key unambiguous on the wire.

use vstd::prelude::*;
use vstd::slice::slice_to_vec;
use vstd::string::StringSliceAdditionalSpecFns;
use crate::key::{key_of_str, spec_key_of, spec_trunc_key, trunc_key};

verus! {

/// Which way a topic flows.
#[derive(Clone, Copy, Debug, PartialEq, Eq, Structural)]
pub enum Direction {
    /// Received and handled like a one-way endpoint; no reply.
    ToServer,
    /// Only ever produced by the device side.
    ToClient,
}

/// What kind of route an entry describes.
#[derive(Clone, Copy, Debug, PartialEq, Eq, Structural)]
pub enum DescriptorKind {
    /// A request/response pair.
    Endpoint,
    /// A one-way message channel.
    Topic(Direction),
}

/// One registered route.
#[derive(Clone, Debug)]
pub struct Descriptor {
    /// The path the route was registered under.
    pub path: Vec<u8>,
    /// The key derived from the path.
    pub key: u64,
    pub kind: DescriptorKind,
}

/// Why registration was refused.
#[derive(Clone, Copy, Debug, PartialEq, Eq, Structural)]
pub enum RegistryError {
    /// The path's derived key equals the key of an entry already
    /// registered: a startup-time configuration error.
    KeyCollision,
}

/// The static table of routes.
#[derive(Debug)]
pub struct Registry {
    pub entries: Vec<Descriptor>,
}

/// All keys of `s` stay pairwise distinct when reduced to their
/// `w`-byte little-endian prefix.
pub open spec fn spec_distinct_under(s: Seq<Descriptor>, w: usize) -> bool {
    forall|i: int, j: int|
        0 <= i < j < s.len() ==> spec_trunc_key(s[i].key, w) != spec_trunc_key(s[j].key, w)
}

impl Registry {
    /// Every entry's key is derived from its path, and all keys are
    /// pairwise distinct.
    pub open spec fn wf(self) -> bool {
        &&& forall|i: int|
            0 <= i < self.entries@.len() ==> (#[trigger] self.entries@[i]).key == spec_key_of(
                self.entries@[i].path@,
            )
        &&& forall|i: int, j: int|
            0 <= i < j < self.entries@.len() ==> self.entries@[i].key != self.entries@[j].key
    }

    /// Some entry carries the key `k`.
    pub open spec fn spec_contains_key(self, k: u64) -> bool {
        exists|i: int| 0 <= i < self.entries@.len() && (#[trigger] self.entries@[i]).key == k
    }

    /// An empty table.
    pub fn new() -> (r: Registry)
        ensures
            r.wf(),
            r.entries@.len() == 0,
    {
        Registry { entries: Vec::new() }
    }

    /// Whether some entry carries the key `k`.
    pub fn contains_key(&self, k: u64) -> (b: bool)
        ensures
            b == self.spec_contains_key(k),
    {
        let mut i: usize = 0;
        while i < self.entries.len()
            invariant
                i <= self.entries@.len(),
                forall|p: int| 0 <= p < i ==> (#[trigger] self.entries@[p]).key != k,
            decreases self.entries@.len() - i,
        {
            if self.entries[i].key == k {
                return true;
            }
            i = i + 1;
        }
        false
    }

    /// Registers the route `path` as `kind`. Returns the derived key,
    /// or refuses the registration exactly when that key collides
    /// with an entry already present.
    pub fn register(&mut self, path: &str, kind: DescriptorKind) -> (r: Result<u64, RegistryError>)
        requires
            old(self).wf(),
        ensures
            final(self).wf(),
            match r {
                Ok(k) => {
                    &&& k == spec_key_of(path.spec_bytes())
                    &&& !old(self).spec_contains_key(k)
                    &&& final(self).spec_contains_key(k)
                    &&& final(self).entries@.len() == old(self).entries@.len() + 1
                    &&& final(self).entries@ == old(self).entries@.push(
                        final(self).entries@.last(),
                    )
                    &&& final(self).entries@.last().key == k
                    &&& final(self).entries@.last().kind == kind
                    &&& final(self).entries@.last().path@ == path.spec_bytes()
                },
                Err(e) => {
                    &&& e == RegistryError::KeyCollision
                    &&& old(self).spec_contains_key(spec_key_of(path.spec_bytes()))
                    &&& final(self).entries@ == old(self).entries@
                },
            },
    {
        let k = key_of_str(path);
        if self.contains_key(k) {
            return Err(RegistryError::KeyCollision);
        }
        let d = Descriptor { path: slice_to_vec(path.as_bytes()), key: k, kind };
        self.entries.push(d);
        proof {
            let n = self.entries@.len() - 1;
            assert(self.entries@[n].key == k);
            assert(forall|i: int|
                0 <= i < n ==> (#[trigger] self.entries@[i]) == old(self).entries@[i]);
        }
        Ok(k)
    }

    /// The index of the entry whose key, reduced to the `key_len`-byte
    /// prefix carried on the wire, equals `k`; or nothing when no
    /// entry matches.
    pub fn lookup_trunc(&self, k: u64, key_len: usize) -> (r: Option<usize>)
        ensures
            match r {
                Some(i) => i < self.entries@.len() && spec_trunc_key(
                    self.entries@[i as int].key,
                    key_len,
                ) == k,
                None => forall|i: int|
                    0 <= i < self.entries@.len() ==> spec_trunc_key(
                        (#[trigger] self.entries@[i]).key,
                        key_len,
                    ) != k,
            },
    {
        let mut i: usize = 0;
        while i < self.entries.len()
            invariant
                i <= self.entries@.len(),
                forall|p: int|
                    0 <= p < i ==> spec_trunc_key((#[trigger] self.entries@[p]).key, key_len) != k,
            decreases self.entries@.len() - i,
        {
            if trunc_key(self.entries[i].key, key_len) == k {
                return Some(i);
            }
            i = i + 1;
        }
        None
    }

    /// Whether all registered keys stay distinct under the `w`-byte
    /// prefix.
    fn distinct_under(&self, w: usize) -> (b: bool)
        ensures
            b == spec_distinct_under(self.entries@, w),
    {
        let n = self.entries.len();
        let mut i: usize = 0;
        while i < n
            invariant
                i <= n,
                n == self.entries@.len(),
                forall|p: int, q: int|
                    0 <= p < q < n && p < i ==> spec_trunc_key(
                        (#[trigger] self.entries@[p]).key,
                        w,
                    ) != spec_trunc_key((#[trigger] self.entries@[q]).key, w),
            decreases n - i,
        {
            let mut j: usize = i + 1;
            while j < n
                invariant
                    i < j <= n,
                    n == self.entries@.len(),
                    forall|q: int|
                        i < q < j ==> spec_trunc_key((#[trigger] self.entries@[q]).key, w)
                            != spec_trunc_key(self.entries@[i as int].key, w),
                decreases n - j,
            {
                if trunc_key(self.entries[i].key, w) == trunc_key(self.entries[j].key, w) {
                    proof {
                        if spec_distinct_under(self.entries@, w) {
                            assert(spec_trunc_key(self.entries@[i as int].key, w)
                                != spec_trunc_key(self.entries@[j as int].key, w));
                        }
                    }
                    return false;
                }
                j = j + 1;
            }
            i = i + 1;
        }
        true
    }

    /// The shortest supported key prefix width (1, 2, 4 or 8 bytes)
    /// under which every registered key stays unambiguous. Eight
    /// bytes always suffice on a well-formed table.
    pub fn min_key_len(&self) -> (len: usize)
        requires
            self.wf(),
        ensures
            len == 1 || len == 2 || len == 4 || len == 8,
            spec_distinct_under(self.entries@, len),
            spec_distinct_under(self.entries@, 8),
            len <= 4 ==> spec_distinct_under(self.entries@, 4),
            len <= 2 ==> spec_distinct_under(self.entries@, 2),
            len == 2 ==> !spec_distinct_under(self.entries@, 1),
            len == 4 ==> !spec_distinct_under(self.entries@, 2) && !spec_distinct_under(
                self.entries@,
                1,
            ),
            len == 8 ==> !spec_distinct_under(self.entries@, 4) && !spec_distinct_under(
                self.entries@,
                2,
            ) && !spec_distinct_under(self.entries@, 1),
    {
        if self.distinct_under(1) {
            proof {
                lemma_wider_prefix_still_distinct(self.entries@, 1, 2);
                lemma_wider_prefix_still_distinct(self.entries@, 1, 4);
                lemma_wider_prefix_still_distinct(self.entries@, 1, 8);
            }
            return 1;
        }
        if self.distinct_under(2) {
            proof {
                lemma_wider_prefix_still_distinct(self.entries@, 2, 4);
                lemma_wider_prefix_still_distinct(self.entries@, 2, 8);
            }
            return 2;
        }
        if self.distinct_under(4) {
            proof {
                lemma_wider_prefix_still_distinct(self.entries@, 4, 8);
            }
            return 4;
        }
        proof {
            assert forall|i: int, j: int| 0 <= i < j < self.entries@.len() implies spec_trunc_key(
                self.entries@[i].key,
                8,
            ) != spec_trunc_key(self.entries@[j].key, 8) by {
                assert(self.entries@[i].key != self.entries@[j].key);
            }
        }
        8
    }
}

/// Keys distinct under a narrow prefix stay distinct under a wider
/// one: the narrow prefix is the wider one reduced further.
pub proof fn lemma_trunc_key_nested(key: u64, narrow: usize, wide: usize)
    requires
        narrow == 1 || narrow == 2 || narrow == 4 || narrow == 8,
        wide == 1 || wide == 2 || wide == 4 || wide == 8,
        narrow <= wide,
    ensures
        spec_trunc_key(spec_trunc_key(key, wide), narrow) == spec_trunc_key(key, narrow),
{
    assert((key % 0x1_0000u64) % 0x100u64 == key % 0x100u64) by (bit_vector);
    assert((key % 0x1_0000_0000u64) % 0x100u64 == key % 0x100u64) by (bit_vector);
    assert((key % 0x1_0000_0000u64) % 0x1_0000u64 == key % 0x1_0000u64) by (bit_vector);
}

/// If two keys differ under the narrow prefix, they differ under the
/// wider one as well.
pub proof fn lemma_wider_prefix_still_distinct(s: Seq<Descriptor>, narrow: usize, wide: usize)
    requires
        narrow == 1 || narrow == 2 || narrow == 4 || narrow == 8,
        wide == 1 || wide == 2 || wide == 4 || wide == 8,
        narrow <= wide,
        spec_distinct_under(s, narrow),
    ensures
        spec_distinct_under(s, wide),
{
    assert forall|i: int, j: int| 0 <= i < j < s.len() implies spec_trunc_key(s[i].key, wide)
        != spec_trunc_key(s[j].key, wide) by {
        lemma_trunc_key_nested(s[i].key, narrow, wide);
        lemma_trunc_key_nested(s[j].key, narrow, wide);
    }
}

/// Key uniqueness: two distinct entries of a well-formed table carry
/// distinct keys, and were registered under distinct paths.
pub proof fn lemma_key_uniqueness(r: Registry, i: int, j: int)
    requires
        r.wf(),
        0 <= i < j < r.entries@.len(),
    ensures
        r.entries@[i].key != r.entries@[j].key,
        r.entries@[i].path@ != r.entries@[j].path@,
{
    assert(r.entries@[i].key == spec_key_of(r.entries@[i].path@));
    assert(r.entries@[j].key == spec_key_of(r.entries@[j].path@));
}

} // verus!
