//! Cell noise: a deterministic color-modulation lookup over a table of
//! random values, addressed through a shuffled index table.

use vstd::prelude::*;

verus! {

use crate::fx::emod64;
use crate::vec3::{vec_bounded, Point3};

/// Entries in each lookup table.
pub const POINT_COUNT: u32 = 256;

/// A noise source: a table of random unit-interval values and three
/// shuffled index tables.
#[derive(Clone, Debug)]
pub struct Perlin {
    pub random_floats: Vec<i64>,
    pub perm_x: Vec<u32>,
    pub perm_y: Vec<u32>,
    pub perm_z: Vec<u32>,
}

/// The tables have their full size, the values lie in the unit interval,
/// and every index entry addresses the value table.
pub open spec fn perlin_wf(pl: Perlin) -> bool {
    &&& pl.random_floats@.len() == 256
    &&& forall|k: int| 0 <= k < 256 ==> 0 <= #[trigger] pl.random_floats@[k] < 65536
    &&& pl.perm_x@.len() == 256
    &&& forall|k: int| 0 <= k < 256 ==> #[trigger] pl.perm_x@[k] < 256
    &&& pl.perm_y@.len() == 256
    &&& forall|k: int| 0 <= k < 256 ==> #[trigger] pl.perm_y@[k] < 256
    &&& pl.perm_z@.len() == 256
    &&& forall|k: int| 0 <= k < 256 ==> #[trigger] pl.perm_z@[k] < 256
}

/// Shuffle a table in place: each position is swapped with a randomly
/// drawn position. The entries afterwards are exactly the entries from
/// before, as a multiset — a permutation.
pub fn permute(ints: &mut Vec<u32>, count: u32, rng: &mut rand::rngs::StdRng) -> (u: ())
    requires
        old(ints)@.len() == count,
        count >= 1,
    ensures
        final(ints)@.len() == count,
        final(ints)@.to_multiset() == old(ints)@.to_multiset(),
        forall|k: int| 0 <= k < count ==> old(ints)@.contains(#[trigger] final(ints)@[k]),
{
    let ghost orig = ints@;
    let mut i: u32 = 0;
    while i < count
        invariant
            ints@.len() == count,
            i <= count,
            count >= 1,
            ints@.to_multiset() == orig.to_multiset(),
            forall|k: int| 0 <= k < count ==> orig.contains(#[trigger] ints@[k]),
        decreases count - i,
    {
        let target = crate::rng::rng_below(rng, count as u64);
        let ti: usize = target as usize;
        let ii: usize = i as usize;
        let a: u32 = ints[ii];
        let b: u32 = ints[ti];
        let ghost pre = ints@;
        ints[ti] = a;
        let ghost mid = ints@;
        ints[ii] = b;
        proof {
            lemma_swap_multiset(pre, mid, ints@, ti as int, ii as int, a, b);
        }
        i = i + 1;
    }
}

/// Writing one entry over another and the other back over the one is a
/// swap: the multiset of entries is unchanged.
proof fn lemma_swap_multiset(
    pre: Seq<u32>,
    mid: Seq<u32>,
    fin: Seq<u32>,
    ti: int,
    ii: int,
    a: u32,
    b: u32,
)
    requires
        0 <= ti < pre.len(),
        0 <= ii < pre.len(),
        a == pre[ii],
        b == pre[ti],
        mid == pre.update(ti, a),
        fin == mid.update(ii, b),
    ensures
        fin.to_multiset() == pre.to_multiset(),
{
    broadcast use vstd::seq_lib::group_to_multiset_ensures;
    broadcast use vstd::multiset::group_multiset_axioms;

    vstd::seq_lib::to_multiset_update(pre, ti, a);
    vstd::seq_lib::to_multiset_update(mid, ii, b);
    let m = pre.to_multiset();
    assert(mid[ii] == a);
    assert(pre.contains(b));
    assert(m.count(b) >= 1);
    assert(fin.to_multiset() =~= m.insert(a).remove(b).insert(b).remove(a));
    assert(m.insert(a).remove(b).insert(b).remove(a) =~= m);
}

/// A freshly shuffled table of the indices below `POINT_COUNT`: every
/// index below the table size occurs exactly once.
pub fn perlin_generate_perm(rng: &mut rand::rngs::StdRng) -> (r: Vec<u32>)
    ensures
        r@.len() == 256,
        forall|k: int| 0 <= k < 256 ==> #[trigger] r@[k] < 256,
        forall|v: u32| #[trigger] r@.to_multiset().count(v) == if v < 256 {
            1nat
        } else {
            0nat
        },
{
    broadcast use vstd::seq_lib::group_to_multiset_ensures;

    let mut ints: Vec<u32> = Vec::new();
    let mut i: u32 = 0;
    while i < 256
        invariant
            ints@.len() == i,
            i <= 256,
            forall|k: int| 0 <= k < i ==> #[trigger] ints@[k] < 256,
            forall|v: u32| #[trigger] ints@.to_multiset().count(v) == if v < i {
                1nat
            } else {
                0nat
            },
        decreases 256 - i,
    {
        let ghost pre = ints@;
        ints.push(i);
        proof {
            broadcast use vstd::multiset::group_multiset_axioms;

            assert(ints@ == pre.push(i));
            pre.to_multiset_ensures();
            assert(pre.push(i).to_multiset() =~= pre.to_multiset().insert(i));
        }
        i = i + 1;
    }
    let ghost pre = ints@;
    permute(&mut ints, 256, rng);
    proof {
        assert forall|k: int| 0 <= k < 256 implies #[trigger] ints@[k] < 256 by {
            assert(pre.contains(ints@[k]));
            let j = choose|j: int| 0 <= j < pre.len() && pre[j] == ints@[k];
            assert(pre[j] < 256);
        }
    }
    ints
}

/// The exact cell index of one coordinate: the coordinate scaled by four,
/// wrapped into the table range, truncated to a whole cell.
pub open spec fn spec_cell_index(c: int) -> int {
    ((4 * c) % 16777216) / 65536
}

/// The exact noise value at a point: the table entry addressed by the
/// exclusive-or of the three per-axis index entries.
pub open spec fn spec_cell_noise(pl: Perlin, p: Point3) -> int {
    pl.random_floats@[(pl.perm_x@[spec_cell_index(p.x as int)] ^ pl.perm_x@[spec_cell_index(
        p.y as int,
    )] ^ pl.perm_x@[spec_cell_index(p.z as int)]) as int] as int
}

impl Perlin {
    /// A noise source with freshly drawn values and shuffles.
    pub fn new(rng: &mut rand::rngs::StdRng) -> (r: Perlin)
        ensures
            perlin_wf(r),
    {
        let mut random_floats: Vec<i64> = Vec::new();
        let mut i: u32 = 0;
        while i < 256
            invariant
                random_floats@.len() == i,
                i <= 256,
                forall|k: int| 0 <= k < i ==> 0 <= #[trigger] random_floats@[k] < 65536,
            decreases 256 - i,
        {
            random_floats.push(crate::rng::random_double(rng));
            i = i + 1;
        }
        Perlin {
            random_floats,
            perm_x: perlin_generate_perm(rng),
            perm_y: perlin_generate_perm(rng),
            perm_z: perlin_generate_perm(rng),
        }
    }

    /// Look up the noise value for a point; exact per `spec_cell_noise`.
    pub fn cell_noise(&self, p: Point3) -> (r: i64)
        requires
            perlin_wf(*self),
            vec_bounded(p, 0x100_0000_0000),
        ensures
            r == spec_cell_noise(*self, p),
            0 <= r < 65536,
    {
        let i = cell_index(p.x);
        let j = cell_index(p.y);
        let k = cell_index(p.z);
        let fx = self.perm_x[i];
        let fy = self.perm_x[j];
        let fz = self.perm_x[k];
        let f: u32 = fx ^ fy ^ fz;
        proof {
            assert(fx < 256 && fy < 256 && fz < 256 ==> (fx ^ fy ^ fz) < 256) by (bit_vector);
        }
        self.random_floats[f as usize]
    }
}

/// One coordinate's cell index; exact per `spec_cell_index`.
fn cell_index(c: i64) -> (r: usize)
    requires
        -0x100_0000_0000 <= c <= 0x100_0000_0000,
    ensures
        r == spec_cell_index(c as int),
        r < 256,
{
    let m = emod64(4 * c, 16777216);
    let r: u64 = (m as u64) / 65536;
    r as usize
}

} // verus!
