//! The tables of Perlin noise.
//!
//! Noise at a point is blended from random vectors that sit at the points
//! of a lattice.  Which vector sits where is settled by three shuffled
//! tables, one for each axis.

use crate::permutation::{draws_fit, exchange, is_shuffle, lemma_shuffle_bounds, lemma_shuffled_keeps, shuffled};
use crate::sampling::random_up_to;
use crate::vec3::Vec3;
use vstd::prelude::*;

verus! {

/// How many random vectors there are, and how long each table is.
pub const POINT_COUNT: usize = 256;

/// The random vectors and the three tables that spread them over the
/// lattice.
#[derive(Debug)]
pub struct Perlin {
    pub randvec: Vec<Vec3>,
    pub perm_x: Vec<usize>,
    pub perm_y: Vec<usize>,
    pub perm_z: Vec<usize>,
}

/// Shuffles the first `n` entries of `p`: from the last place down to the
/// second, each entry changes places with one drawn from those up to it.
pub fn permute(p: &mut Vec<usize>, n: usize)
    requires
        n <= old(p).len(),
    ensures
        final(p).len() == old(p).len(),
        final(p)@.to_multiset() == old(p)@.to_multiset(),
        forall|j: int| n <= j < old(p).len() ==> final(p)@[j] == old(p)@[j],
        exists|draws: Seq<usize>|
            #[trigger] draws_fit(draws, n as int) && final(p)@ == shuffled(
                old(p)@,
                n as int,
                draws,
                draws.len() as int,
            ),
{
    let draws = draw_places(n);
    permute_by(p, n, &draws);
}

/// The draws of a shuffle of `n` entries: for each place from the last down
/// to the second, a place drawn at random from those at or before it.
pub fn draw_places(n: usize) -> (draws: Vec<usize>)
    ensures
        draws_fit(draws@, n as int),
{
    let mut draws: Vec<usize> = Vec::new();
    if n < 2 {
        return draws;
    }
    let mut i: usize = n - 1;
    while i > 0
        invariant
            i < n,
            draws.len() == n - 1 - i,
            forall|k: int| 0 <= k < draws.len() ==> #[trigger] draws[k] <= n - 1 - k,
        decreases i,
    {
        let target = random_up_to(i);
        draws.push(target);
        i = i - 1;
    }
    draws
}

/// Shuffles the first `n` entries of `p` with the given draws: the entry at
/// the last place changes places with the one at `draws[0]`, the entry
/// before it with the one at `draws[1]`, and so on down to the second
/// place.
pub fn permute_by(p: &mut Vec<usize>, n: usize, draws: &Vec<usize>)
    requires
        n <= old(p).len(),
        draws_fit(draws@, n as int),
    ensures
        final(p)@ == shuffled(old(p)@, n as int, draws@, draws.len() as int),
        final(p).len() == old(p).len(),
        final(p)@.to_multiset() == old(p)@.to_multiset(),
        forall|j: int| n <= j < old(p).len() ==> final(p)@[j] == old(p)@[j],
{
    let mut k: usize = 0;
    while k < draws.len()
        invariant
            k <= draws.len(),
            n <= old(p).len(),
            draws_fit(draws@, n as int),
            p@ == shuffled(old(p)@, n as int, draws@, k as int),
        decreases draws.len() - k,
    {
        proof {
            lemma_shuffled_keeps(old(p)@, n as int, draws@, k as int);
        }
        let i: usize = n - 1 - k;
        exchange(p, i, draws[k]);
        k = k + 1;
    }
    proof {
        lemma_shuffled_keeps(old(p)@, n as int, draws@, draws.len() as int);
    }
}

impl Perlin {
    /// Whether the tables are in order: each holds the numbers below 256
    /// once, and there are 256 vectors.
    pub open spec fn wf(self) -> bool {
        &&& self.randvec.len() == POINT_COUNT
        &&& self.perm_x.len() == POINT_COUNT
        &&& self.perm_y.len() == POINT_COUNT
        &&& self.perm_z.len() == POINT_COUNT
        &&& is_shuffle(self.perm_x@)
        &&& is_shuffle(self.perm_y@)
        &&& is_shuffle(self.perm_z@)
    }

    /// The numbers below 256 in an order drawn at random.
    pub fn perlin_generate_perm() -> (p: Vec<usize>)
        ensures
            p.len() == POINT_COUNT,
            is_shuffle(p@),
    {
        let mut p: Vec<usize> = Vec::new();
        let mut i: usize = 0;
        while i < POINT_COUNT
            invariant
                i <= POINT_COUNT,
                p.len() == i,
                forall|k: int| 0 <= k < i ==> p@[k] == k,
            decreases POINT_COUNT - i,
        {
            p.push(i);
            i = i + 1;
        }
        assert(p@ =~= crate::permutation::counting(POINT_COUNT as nat));
        permute(&mut p, POINT_COUNT);
        p
    }

    /// The noise over the vectors `randvec`, with freshly shuffled tables;
    /// nothing unless there are 256 vectors.
    pub fn new(randvec: Vec<Vec3>) -> (noise: Option<Perlin>)
        ensures
            noise is Some <==> randvec.len() == POINT_COUNT,
            noise matches Some(n) ==> n.wf() && n.randvec == randvec,
    {
        if randvec.len() != POINT_COUNT {
            return None;
        }
        let perm_x = Self::perlin_generate_perm();
        let perm_y = Self::perlin_generate_perm();
        let perm_z = Self::perlin_generate_perm();
        Some(Perlin { randvec, perm_x, perm_y, perm_z })
    }

    /// The place in the tables that belongs to the whole coordinate `c`:
    /// its lowest eight bits.
    pub fn slot(c: i32) -> (s: usize)
        ensures
            s < POINT_COUNT,
            s == (c & 255),
    {
        assert(0 <= (c & 255) < 256) by (bit_vector);
        (c & 255) as usize
    }

    /// Which vector sits at the lattice point `(i, j, k)`: the three tables
    /// are read at the lowest eight bits of the coordinates and what they
    /// hold is mixed bit by bit.
    pub fn lattice(&self, i: i32, j: i32, k: i32) -> (at: usize)
        requires
            self.wf(),
        ensures
            at < POINT_COUNT,
            at == self.perm_x[(i & 255) as int] ^ self.perm_y[(j & 255) as int] ^ self.perm_z[(k
                & 255) as int],
    {
        proof {
            lemma_shuffle_bounds(self.perm_x@);
            lemma_shuffle_bounds(self.perm_y@);
            lemma_shuffle_bounds(self.perm_z@);
        }
        let a = self.perm_x[Self::slot(i)];
        let b = self.perm_y[Self::slot(j)];
        let c = self.perm_z[Self::slot(k)];
        assert(a < 256 && b < 256 && c < 256 ==> (a ^ b ^ c) < 256) by (bit_vector);
        a ^ b ^ c
    }

    /// The vectors at the eight corners of the lattice cell whose lowest
    /// corner is `(i, j, k)`: the one at `[di][dj][dk]` sits `di`, `dj` and
    /// `dk` steps further along the three axes.
    pub fn corners(&self, i: i32, j: i32, k: i32) -> (c: [[[Vec3; 2]; 2]; 2])
        requires
            self.wf(),
        ensures
            forall|di: int, dj: int, dk: int|
                0 <= di < 2 && 0 <= dj < 2 && 0 <= dk < 2 ==> (#[trigger] c[di][dj][dk])
                    == self.randvec[(self.perm_x[(i.wrapping_add(di as i32) & 255) as int]
                    ^ self.perm_y[(j.wrapping_add(dj as i32) & 255) as int] ^ self.perm_z[(
                k.wrapping_add(dk as i32) & 255) as int]) as int],
    {
        let i1 = i.wrapping_add(1);
        let j1 = j.wrapping_add(1);
        let k1 = k.wrapping_add(1);
        proof {
            assert(i.wrapping_add(0i32) == i);
            assert(j.wrapping_add(0i32) == j);
            assert(k.wrapping_add(0i32) == k);
        }
        [
            [
                [self.randvec[self.lattice(i, j, k)], self.randvec[self.lattice(i, j, k1)]],
                [self.randvec[self.lattice(i, j1, k)], self.randvec[self.lattice(i, j1, k1)]],
            ],
            [
                [self.randvec[self.lattice(i1, j, k)], self.randvec[self.lattice(i1, j, k1)]],
                [self.randvec[self.lattice(i1, j1, k)], self.randvec[self.lattice(i1, j1, k1)]],
            ],
        ]
    }
}

} // verus!
