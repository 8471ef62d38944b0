use rand::rngs::ThreadRng;
use rand::seq::SliceRandom;
use vstd::prelude::*;
use crate::geometry::vector::Vector;

verus! {

/// The number of points in the noise's table, and of entries in each of its
/// three permutations.
pub const POINT_COUNT: usize = 256;

/// The table behind Perlin noise: a vector for each of 256 points, and for
/// each axis a permutation of `0, .., 255` by which lattice coordinates are
/// scrambled into points.
pub struct Perlin {
    ranvec: Vec<Vector>,
    perm_x: Vec<u64>,
    perm_y: Vec<u64>,
    perm_z: Vec<u64>,
}

/// The numbers `0, 1, .., n - 1` in order.
pub open spec fn counting(n: nat) -> Seq<u64> {
    Seq::new(n, |i: int| i as u64)
}

/// Whether `p` is a permutation of `0, .., 255`.
pub open spec fn is_perm(p: Seq<u64>) -> bool {
    p.len() == POINT_COUNT && p.to_multiset() == counting(POINT_COUNT as nat).to_multiset()
}

/// A lattice coordinate brought into the table: its remainder by 256.
pub open spec fn wrapped(i: int) -> int {
    i % 256
}

/// `SliceRandom::shuffle`: rearranges the entries of `v` in place, in an
/// order drawn from `rng`. It only ever swaps entries, so what `v` holds, and
/// how often, stays; which order comes is not told.
#[verifier::external_body]
fn shuffle(v: &mut Vec<u64>, rng: &mut ThreadRng)
    ensures
        final(v)@.len() == old(v)@.len(),
        final(v)@.to_multiset() == old(v)@.to_multiset(),
{
    v.shuffle(rng);
}

/// Every entry of a permutation of `0, .., 255` is below 256.
pub proof fn lemma_perm_in_range(p: Seq<u64>, i: int)
    requires
        is_perm(p),
        0 <= i < p.len(),
    ensures
        p[i] < 256,
{
    broadcast use vstd::seq_lib::group_to_multiset_ensures;

    let c = counting(POINT_COUNT as nat);
    assert(p.to_multiset().count(p[i]) > 0);
    assert(c.contains(p[i]));
    let k = choose|k: int| 0 <= k < c.len() && c[k] == p[i];
    assert(c[k] == k as u64);
}

impl Perlin {
    #[verifier::type_invariant]
    spec fn well_formed(self) -> bool {
        self.ranvec@.len() == POINT_COUNT && is_perm(self.perm_x@) && is_perm(self.perm_y@) && is_perm(
            self.perm_z@,
        )
    }

    /// The vectors of the table.
    pub closed spec fn vectors(self) -> Seq<Vector> {
        self.ranvec@
    }

    /// The permutation for an axis: that of `x` for 0, of `y` for 1, of `z`
    /// for any other.
    pub closed spec fn perm(self, axis: int) -> Seq<u64> {
        if axis == 0 {
            self.perm_x@
        } else if axis == 1 {
            self.perm_y@
        } else {
            self.perm_z@
        }
    }

    /// The place in the table of the lattice point `(i, j, k)`: the three
    /// coordinates, each wrapped and scrambled, combined bit by bit.
    pub open spec fn place(self, i: int, j: int, k: int) -> u64 {
        self.perm(0)[wrapped(i)] ^ self.perm(1)[wrapped(j)] ^ self.perm(2)[wrapped(k)]
    }

    /// The vector that belongs to the lattice point `(i, j, k)`.
    pub open spec fn at(self, i: int, j: int, k: int) -> Vector {
        self.vectors()[self.place(i, j, k) as int]
    }

    /// A shuffled list of the numbers `0, .., 255`.
    pub fn generate_perm(rng: &mut ThreadRng) -> (p: Vec<u64>)
        ensures
            is_perm(p@),
    {
        let mut p: Vec<u64> = Vec::new();
        let mut i: usize = 0;
        while i < POINT_COUNT
            invariant
                i <= POINT_COUNT,
                p@ == counting(i as nat),
            decreases POINT_COUNT - i,
        {
            p.push(i as u64);
            assert(p@ =~= counting((i + 1) as nat));
            i = i + 1;
        }
        shuffle(&mut p, rng);
        p
    }

    /// The table with the given vectors and three permutations drawn from
    /// `rng`; none unless there are exactly 256 vectors.
    pub fn new(ranvec: Vec<Vector>, rng: &mut ThreadRng) -> (table: Option<Perlin>)
        ensures
            table is Some <==> ranvec@.len() == POINT_COUNT,
            table matches Some(t) ==> t.vectors() == ranvec@ && is_perm(t.perm(0)) && is_perm(t.perm(1))
                && is_perm(t.perm(2)),
    {
        if ranvec.len() != POINT_COUNT {
            return None;
        }
        let perm_x = Perlin::generate_perm(rng);
        let perm_y = Perlin::generate_perm(rng);
        let perm_z = Perlin::generate_perm(rng);
        Some(Perlin { ranvec, perm_x, perm_y, perm_z })
    }

    /// The vector that belongs to the lattice point `(i, j, k)`.
    pub fn corner(&self, i: i64, j: i64, k: i64) -> (c: Vector)
        ensures
            c == self.at(i as int, j as int, k as int),
            self.place(i as int, j as int, k as int) < 256,
    {
        proof {
            use_type_invariant(self);
        }
        let a: usize = (i & 255) as usize;
        let b: usize = (j & 255) as usize;
        let c: usize = (k & 255) as usize;
        proof {
            assert(0 <= (i & 255) < 256 && (i & 255) == i % 256) by (bit_vector);
            assert(0 <= (j & 255) < 256 && (j & 255) == j % 256) by (bit_vector);
            assert(0 <= (k & 255) < 256 && (k & 255) == k % 256) by (bit_vector);
            lemma_perm_in_range(self.perm_x@, a as int);
            lemma_perm_in_range(self.perm_y@, b as int);
            lemma_perm_in_range(self.perm_z@, c as int);
        }
        let (x, y, z) = (self.perm_x[a], self.perm_y[b], self.perm_z[c]);
        let at = x ^ y ^ z;
        proof {
            assert(x < 256 && y < 256 && z < 256 ==> (x ^ y ^ z) < 256) by (bit_vector);
        }
        self.ranvec[at as usize]
    }

    /// The vectors at the eight corners of the lattice cell that begins at
    /// `(i, j, k)`: the entry `[di][dj][dk]` belongs to the lattice point
    /// `(i + di, j + dj, k + dk)`.
    pub fn cell(&self, i: i64, j: i64, k: i64) -> (c: [[[Vector; 2]; 2]; 2])
        requires
            i < i64::MAX,
            j < i64::MAX,
            k < i64::MAX,
        ensures
            forall|di: int, dj: int, dk: int|
                0 <= di < 2 && 0 <= dj < 2 && 0 <= dk < 2 ==> #[trigger] c[di][dj][dk] == self.at(
                    i + di,
                    j + dj,
                    k + dk,
                ),
    {
        [
            [
                [self.corner(i, j, k), self.corner(i, j, k + 1)],
                [self.corner(i, j + 1, k), self.corner(i, j + 1, k + 1)],
            ],
            [
                [self.corner(i + 1, j, k), self.corner(i + 1, j, k + 1)],
                [self.corner(i + 1, j + 1, k), self.corner(i + 1, j + 1, k + 1)],
            ],
        ]
    }
}

} // verus!
