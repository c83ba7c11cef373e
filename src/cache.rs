//! Decompressed region files, kept by region coordinate.
use std::collections::HashMap;
use vstd::prelude::*;

verus! {

broadcast use vstd::std_specs::hash::group_hash_axioms;

/// The map key of region (`x`, `z`): the bits of `x` above those of `z`.
pub open spec fn region_key_bits(x: i32, z: i32) -> u64 {
    ((#[verifier::truncate] (x as u32) as u64) << 32u64) | (#[verifier::truncate] (
    z as u32) as u64)
}

/// Two regions share a map key only if they are the same region.
proof fn lemma_key_bits_injective(x1: i32, z1: i32, x2: i32, z2: i32)
    ensures
        region_key_bits(x1, z1) == region_key_bits(x2, z2) ==> x1 == x2 && z1 == z2,
{
    let a = #[verifier::truncate] (x1 as u32);
    let b = #[verifier::truncate] (z1 as u32);
    let c = #[verifier::truncate] (x2 as u32);
    let d = #[verifier::truncate] (z2 as u32);
    assert(a == c ==> x1 == x2) by (bit_vector)
        requires
            a == #[verifier::truncate] (x1 as u32),
            c == #[verifier::truncate] (x2 as u32),
    ;
    assert(b == d ==> z1 == z2) by (bit_vector)
        requires
            b == #[verifier::truncate] (z1 as u32),
            d == #[verifier::truncate] (z2 as u32),
    ;
    assert(((a as u64) << 32u64) | (b as u64) == ((c as u64) << 32u64) | (d as u64) ==> a == c
        && b == d) by (bit_vector);
}

/// Region files held in memory, each under its region coordinate. Entries
/// are only ever added or replaced, never removed.
pub struct RegionCache {
    entries: HashMap<u64, Vec<u8>>,
}

impl View for RegionCache {
    type V = Map<(int, int), Seq<u8>>;

    closed spec fn view(&self) -> Map<(int, int), Seq<u8>> {
        Map::new(
            |k: (int, int)|
                i32::MIN <= k.0 <= i32::MAX && i32::MIN <= k.1 <= i32::MAX
                    && self.entries@.contains_key(region_key_bits(k.0 as i32, k.1 as i32)),
            |k: (int, int)| self.entries@[region_key_bits(k.0 as i32, k.1 as i32)]@,
        )
    }
}

impl RegionCache {
    /// An empty cache.
    pub fn new() -> (r: Self)
        ensures
            r@ == Map::<(int, int), Seq<u8>>::empty(),
    {
        let r = RegionCache { entries: HashMap::new() };
        assert(r@ =~= Map::<(int, int), Seq<u8>>::empty());
        r
    }

    /// Whether region (`region_x`, `region_z`) is held.
    pub fn contains(&self, region_x: i32, region_z: i32) -> (r: bool)
        ensures
            r == self@.contains_key((region_x as int, region_z as int)),
    {
        let k: u64 = ((region_x as u32 as u64) << 32u64) | (region_z as u32 as u64);
        self.entries.contains_key(&k)
    }

    /// The bytes held for region (`region_x`, `region_z`), if any.
    pub fn get(&self, region_x: i32, region_z: i32) -> (r: Option<&Vec<u8>>)
        ensures
            r matches Some(b) ==> self@.contains_key((region_x as int, region_z as int)) && b@
                == self@[(region_x as int, region_z as int)],
            r is None ==> !self@.contains_key((region_x as int, region_z as int)),
    {
        let k: u64 = ((region_x as u32 as u64) << 32u64) | (region_z as u32 as u64);
        self.entries.get(&k)
    }

    /// Holds `data` as the bytes of region (`region_x`, `region_z`),
    /// in place of any held before.
    pub fn insert(&mut self, region_x: i32, region_z: i32, data: Vec<u8>)
        ensures
            final(self)@ == old(self)@.insert((region_x as int, region_z as int), data@),
    {
        let ghost before = *self;
        let ghost d = data@;
        let k: u64 = ((region_x as u32 as u64) << 32u64) | (region_z as u32 as u64);
        self.entries.insert(k, data);
        proof {
            let kk = (region_x as int, region_z as int);
            assert forall|q: (int, int)|
                #![trigger self@.dom().contains(q)]
                self@.contains_key(q) == before@.insert(kk, d).contains_key(q) && (self@.contains_key(
                    q,
                ) ==> self@[q] == before@.insert(kk, d)[q]) by {
                if i32::MIN <= q.0 <= i32::MAX && i32::MIN <= q.1 <= i32::MAX {
                    lemma_key_bits_injective(q.0 as i32, q.1 as i32, region_x, region_z);
                }
            }
            assert(self@ =~= before@.insert(kk, d));
        }
    }
}

} // verus!
