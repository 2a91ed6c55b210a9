use std::collections::HashMap;
use vstd::prelude::*;
use vstd::std_specs::hash::*;

verus! {

broadcast use vstd::std_specs::hash::group_hash_axioms;

/// The attribute indices of one corner of a face: 1-based indices into the positions,
/// texture coordinates and normals read so far, with 0 meaning "absent".
#[derive(Clone, Copy, Debug, PartialEq, Eq, Structural, Hash)]
pub struct FaceVertexKey {
    pub position: u32,
    pub uv: u32,
    pub normal: u32,
}

/// The 128-bit number that stands for a key in the lookup table.
pub open spec fn packed(k: FaceVertexKey) -> u128 {
    ((k.position as u128) << 64u128) | ((k.uv as u128) << 32u128) | (k.normal as u128)
}

proof fn lemma_packed_injective(a: FaceVertexKey, b: FaceVertexKey)
    requires
        packed(a) == packed(b),
    ensures
        a == b,
{
    let (pa, ua, na) = (a.position, a.uv, a.normal);
    let (pb, ub, nb) = (b.position, b.uv, b.normal);
    assert(pa == pb && ua == ub && na == nb) by (bit_vector)
        requires
            ((pa as u128) << 64u128) | ((ua as u128) << 32u128) | (na as u128) == ((pb as u128)
                << 64u128) | ((ub as u128) << 32u128) | (nb as u128),
    ;
}

fn pack(k: FaceVertexKey) -> (r: u128)
    ensures
        r == packed(k),
{
    ((k.position as u128) << 64u128) | ((k.uv as u128) << 32u128) | (k.normal as u128)
}

/// The slot of a key that occurs in `keys`.
pub open spec fn slot_of(keys: Seq<FaceVertexKey>, k: FaceVertexKey) -> int {
    choose|i: int| 0 <= i < keys.len() && keys[i] == k
}

/// Maps each distinct face-vertex key to one output slot, numbering the keys in the
/// order in which they are first seen.
pub struct VertexDeduplicator {
    slots: HashMap<u128, u32>,
    keys: Vec<FaceVertexKey>,
}

impl View for VertexDeduplicator {
    type V = Seq<FaceVertexKey>;

    /// The distinct keys seen so far, in order of first appearance.
    closed spec fn view(&self) -> Seq<FaceVertexKey> {
        self.keys@
    }
}

impl VertexDeduplicator {
    pub closed spec fn wf(&self) -> bool {
        &&& self.keys@.no_duplicates()
        &&& self.keys@.len() <= u32::MAX as int + 1
        &&& forall|i: int|
            0 <= i < self.keys@.len() ==> #[trigger] self.slots@.contains_key(packed(self.keys@[i]))
                && self.slots@[packed(self.keys@[i])] == i
        &&& forall|p: u128| #[trigger]
            self.slots@.contains_key(p) ==> exists|i: int|
                0 <= i < self.keys@.len() && packed(self.keys@[i]) == p
    }

    pub fn new() -> (r: Self)
        ensures
            r.wf(),
            r@ == Seq::<FaceVertexKey>::empty(),
    {
        VertexDeduplicator { slots: HashMap::new(), keys: Vec::new() }
    }

    /// The number of distinct keys seen so far.
    pub fn len(&self) -> (r: usize)
        ensures
            r == self@.len(),
    {
        self.keys.len()
    }

    /// The distinct keys seen so far, in order of first appearance.
    pub fn keys(&self) -> (r: &Vec<FaceVertexKey>)
        ensures
            r@ == self@,
    {
        &self.keys
    }

    /// The slot of `key`: its existing slot if it was seen before, else a new slot at
    /// the end. `None` when a new slot would not fit in a `u32`; nothing changes then.
    pub fn resolve(&mut self, key: FaceVertexKey) -> (r: Option<u32>)
        requires
            old(self).wf(),
        ensures
            final(self).wf(),
            old(self)@.contains(key) ==> r == Some(slot_of(old(self)@, key) as u32)
                && final(self)@ == old(self)@,
            !old(self)@.contains(key) && old(self)@.len() <= u32::MAX ==> r == Some(
                old(self)@.len() as u32) && final(self)@ == old(self)@.push(key),
            !old(self)@.contains(key) && old(self)@.len() > u32::MAX ==> r is None
                && final(self)@ == old(self)@,
    {
        assert(obeys_key_model::<u128>());
        let p = pack(key);
        match self.slots.get(&p) {
            Some(s) => {
                let s = *s;
                let ghost i = choose|i: int|
                    0 <= i < self.keys@.len() && packed(self.keys@[i]) == p;
                proof {
                    lemma_packed_injective(self.keys@[i], key);
                    assert(self.keys@[i] == key);
                    let j = slot_of(self.keys@, key);
                    assert(self.keys@[j] == key);
                    assert(i == j);
                }
                Some(s)
            },
            None => {
                if self.keys.len() > u32::MAX as usize {
                    proof {
                        assert forall|i: int| 0 <= i < self.keys@.len() implies self.keys@[i]
                            != key by {
                            assert(self.slots@.contains_key(packed(self.keys@[i])));
                        }
                    }
                    return None;
                }
                let s = self.keys.len() as u32;
                proof {
                    assert forall|i: int| 0 <= i < self.keys@.len() implies self.keys@[i]
                        != key by {
                        assert(self.slots@.contains_key(packed(self.keys@[i])));
                    }
                }
                let ghost old_keys = self.keys@;
                self.slots.insert(p, s);
                self.keys.push(key);
                proof {
                    assert(self.keys@ == old_keys.push(key));
                    assert forall|i: int|
                        0 <= i < self.keys@.len() implies #[trigger] self.slots@.contains_key(
                        packed(self.keys@[i]),
                    ) && self.slots@[packed(self.keys@[i])] == i by {
                        if i < old_keys.len() {
                            if packed(old_keys[i]) == p {
                                lemma_packed_injective(old_keys[i], key);
                            }
                        }
                    }
                    assert forall|q: u128| #[trigger]
                        self.slots@.contains_key(q) implies exists|i: int|
                        0 <= i < self.keys@.len() && packed(self.keys@[i]) == q by {
                        if q == p {
                            assert(packed(self.keys@[old_keys.len() as int]) == q);
                        } else {
                            let i = choose|i: int|
                                0 <= i < old_keys.len() && packed(old_keys[i]) == q;
                            assert(packed(self.keys@[i]) == q);
                        }
                    }
                    assert(!old_keys.contains(key));
                    assert(self.keys@.no_duplicates());
                }
                Some(s)
            },
        }
    }
}

} // verus!
