//! The lattice of gradient noise: three shuffles of the numbers below 256, and
//! the vectors that they select around a lattice point.

use vstd::prelude::*;
use crate::rtweekend::arrange::{lemma_rearranged_chain, lemma_swap_rearranges, rearranged};
use crate::rtweekend::random_int;
use crate::rtweekend::vec3::Vec3;

verus! {

/// The number of lattice vectors, and the length of each shuffle.
pub const POINT_COUNT: usize = 256;

/// Three shuffles and the vectors that they index.
#[derive(Debug)]
pub struct Perlin {
    pub x: Vec<i32>,
    pub y: Vec<i32>,
    pub z: Vec<i32>,
    pub randvec: Vec<Vec3>,
}

/// No value stands twice in `p`.
pub open spec fn distinct(p: Seq<i32>) -> bool {
    forall|i: int, j: int| 0 <= i < j < p.len() ==> p[i] != p[j]
}

/// `p` holds each of the numbers below `POINT_COUNT` once.
pub open spec fn is_shuffle(p: Seq<i32>) -> bool {
    &&& p.len() == POINT_COUNT
    &&& forall|i: int| 0 <= i < p.len() ==> 0 <= #[trigger] p[i] < POINT_COUNT
    &&& distinct(p)
}

/// A lattice coordinate moved by `step` and wrapped to the numbers below 256.
pub open spec fn wrap_spec(coordinate: i32, step: u8) -> int {
    (coordinate + step) % 256
}

/// The three shuffled values at a lattice point, combined bit by bit into the
/// index of a lattice vector.
pub open spec fn mix_spec(a: i32, b: i32, c: i32) -> u32 {
    (a as u32) ^ (b as u32) ^ (c as u32)
}

impl Perlin {
    /// The three shuffles are shuffles, and there is a vector for every index.
    pub open spec fn wf(&self) -> bool {
        &&& is_shuffle(self.x@)
        &&& is_shuffle(self.y@)
        &&& is_shuffle(self.z@)
        &&& self.randvec@.len() == POINT_COUNT
    }

    /// The index of the lattice vector at the lattice point `(i, j, k)` moved
    /// by `(di, dj, dk)`.
    pub open spec fn index_spec(&self, i: i32, j: i32, k: i32, di: u8, dj: u8, dk: u8) -> int {
        mix_spec(
            self.x@[wrap_spec(i, di)],
            self.y@[wrap_spec(j, dj)],
            self.z@[wrap_spec(k, dk)],
        ) as int
    }

    /// A lattice over the given vectors, with three fresh shuffles.
    pub fn _build_perlin(randvec: Vec<Vec3>) -> (perlin: Perlin)
        requires
            randvec.len() == POINT_COUNT,
        ensures
            perlin.wf(),
            perlin.randvec@ == randvec@,
    {
        Perlin {
            x: Self::_perlin_generate_perm(),
            y: Self::_perlin_generate_perm(),
            z: Self::_perlin_generate_perm(),
            randvec,
        }
    }

    /// Shuffles the first `n` entries of `p`: each in turn changes places with
    /// an entry drawn at random from those up to it.
    pub fn _permute(p: &mut Vec<i32>, n: usize)
        requires
            n <= old(p).len() <= i32::MAX,
        ensures
            exists|targets: Seq<usize>|
                #![trigger shuffled_spec(old(p)@, targets)]
                drawn_within(targets, n as nat) && final(p)@ == shuffled_spec(old(p)@, targets),
            rearranged(old(p)@, final(p)@, 0, n as int),
            distinct(old(p)@) ==> distinct(final(p)@),
    {
        let ghost before = p@;
        let ghost mut drawn: Seq<usize> = Seq::empty();
        let mut i: usize = 0;
        proof {
            lemma_swap_free(before);
        }
        while i < n
            invariant
                i <= n <= p.len() <= i32::MAX,
                drawn_within(drawn, i as nat),
                p@ == shuffled_spec(before, drawn),
                rearranged(before, p@, 0, n as int),
                distinct(before) ==> distinct(p@),
            decreases n - i,
        {
            let target = random_int(0, i as i32) as usize;
            let ghost current = p@;
            Self::_exchange(p, i, target);
            proof {
                lemma_swap_rearranges(current, i as int, target as int, 0, n as int);
                lemma_rearranged_chain(before, current, p@, 0, n as int);
                assert(drawn.push(target).drop_last() =~= drawn);
                drawn = drawn.push(target);
            }
            i += 1;
        }
    }

    /// Lets the entries at `i` and at `target` change places: the step that
    /// `_permute` takes with each place and the place drawn for it.
    pub fn _exchange(p: &mut Vec<i32>, i: usize, target: usize)
        requires
            i < old(p).len(),
            target < old(p).len(),
        ensures
            final(p)@ == exchanged_spec(old(p)@, i as int, target as int),
    {
        let here = p[i];
        let there = p[target];
        p.set(i, there);
        p.set(target, here);
        proof {
            assert(p@ =~= exchanged_spec(old(p)@, i as int, target as int));
        }
    }

    /// A shuffle of the numbers below `POINT_COUNT`.
    pub fn _perlin_generate_perm() -> (p: Vec<i32>)
        ensures
            is_shuffle(p@),
    {
        let mut p: Vec<i32> = Vec::new();
        let mut i: usize = 0;
        while i < POINT_COUNT
            invariant
                i <= POINT_COUNT,
                p.len() == i,
                forall|k: int| 0 <= k < i ==> p[k] == k,
            decreases POINT_COUNT - i,
        {
            p.push(i as i32);
            i += 1;
        }
        let ghost identity = p@;
        Self::_permute(&mut p, POINT_COUNT);
        proof {
            assert forall|k: int| 0 <= k < p.len() implies 0 <= #[trigger] p[k] < POINT_COUNT by {
                assert(crate::rtweekend::arrange::in_range(p@, 0, POINT_COUNT as int, p[k]));
                let from = choose|from: int| 0 <= from < POINT_COUNT && identity[from] == p[k];
                assert(identity[from] == from);
            }
        }
        p
    }

    /// The eight lattice vectors around the lattice point `(i, j, k)`: the
    /// vector of the corner moved by `(di, dj, dk)`, each 0 or 1, stands at
    /// `4 * di + 2 * dj + dk`.
    pub fn lattice(&self, i: i32, j: i32, k: i32) -> (corners: Vec<Vec3>)
        requires
            self.wf(),
        ensures
            corners@.len() == 8,
            forall|di: u8, dj: u8, dk: u8|
                di < 2 && dj < 2 && dk < 2 ==> 0 <= #[trigger] self.index_spec(i, j, k, di, dj, dk)
                    < POINT_COUNT && corners@[4 * di + 2 * dj + dk] == self.randvec@[self.index_spec(
                    i,
                    j,
                    k,
                    di,
                    dj,
                    dk,
                )],
    {
        let mut corners: Vec<Vec3> = Vec::new();
        let mut n: u8 = 0;
        while n < 8
            invariant
                n <= 8,
                self.wf(),
                corners@.len() == n,
                forall|di: u8, dj: u8, dk: u8|
                    di < 2 && dj < 2 && dk < 2 && 4 * di + 2 * dj + dk < n ==> 0
                        <= #[trigger] self.index_spec(i, j, k, di, dj, dk) < POINT_COUNT
                        && corners@[4 * di + 2 * dj + dk] == self.randvec@[self.index_spec(
                        i,
                        j,
                        k,
                        di,
                        dj,
                        dk,
                    )],
            decreases 8 - n,
        {
            let di: u8 = n / 4;
            let dj: u8 = (n / 2) % 2;
            let dk: u8 = n % 2;
            let a = self.x[wrap(i, di)];
            let b = self.y[wrap(j, dj)];
            let c = self.z[wrap(k, dk)];
            let mixed: u32 = (a as u32) ^ (b as u32) ^ (c as u32);
            proof {
                let (ua, ub, uc) = (a as u32, b as u32, c as u32);
                assert(ua ^ ub ^ uc < 256) by (bit_vector)
                    requires
                        ua < 256,
                        ub < 256,
                        uc < 256,
                ;
            }
            corners.push(self.randvec[mixed as usize]);
            n += 1;
        }
        corners
    }
}

/// `p` after the entries at `i` and at `target` have changed places.
pub open spec fn exchanged_spec(p: Seq<i32>, i: int, target: int) -> Seq<i32> {
    p.update(i, p[target]).update(target, p[i])
}

/// For every place there is a target, and none lies beyond its place.
pub open spec fn drawn_within(targets: Seq<usize>, n: nat) -> bool {
    &&& targets.len() == n
    &&& forall|i: int| 0 <= i < n ==> #[trigger] targets[i] <= i
}

/// `p` after each place, from the first on, has changed places with its
/// target: place 0 with `targets[0]`, then place 1 with `targets[1]`, and so
/// on.
pub open spec fn shuffled_spec(p: Seq<i32>, targets: Seq<usize>) -> Seq<i32>
    decreases targets.len(),
{
    if targets.len() == 0 {
        p
    } else {
        exchanged_spec(
            shuffled_spec(p, targets.drop_last()),
            targets.len() - 1,
            targets.last() as int,
        )
    }
}

/// A lattice coordinate moved by `step` and wrapped to the numbers below 256.
fn wrap(coordinate: i32, step: u8) -> (wrapped: usize)
    ensures
        wrapped == wrap_spec(coordinate, step),
        wrapped < 256,
{
    let shifted: i64 = coordinate as i64 + step as i64 + 0x8000_0000;
    ((shifted as u64) % 256) as usize
}

proof fn lemma_swap_free(p: Seq<i32>)
    ensures
        forall|a: int, b: int|
            0 <= a < p.len() && 0 <= b < p.len() && distinct(p) ==> distinct(
                #[trigger] p.update(a, p[b]).update(b, p[a]),
            ),
{
    assert forall|a: int, b: int| 0 <= a < p.len() && 0 <= b < p.len() && distinct(p) implies distinct(
        #[trigger] p.update(a, p[b]).update(b, p[a]),
    ) by {
        let q = p.update(a, p[b]).update(b, p[a]);
        assert forall|i: int, j: int| 0 <= i < j < q.len() implies q[i] != q[j] by {
            let from = |at: int|
                if at == a {
                    b
                } else if at == b {
                    a
                } else {
                    at
                };
            assert(q[i] == p[from(i)] && q[j] == p[from(j)]);
            assert(from(i) != from(j));
            if from(i) < from(j) {
                assert(p[from(i)] != p[from(j)]);
            } else {
                assert(p[from(j)] != p[from(i)]);
            }
        }
    }
}

} // verus!
