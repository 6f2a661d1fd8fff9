//! The hand-rolled pseudo-random generator and the shuffle built on it.
//!
//! Both are kept deliberately simple and explicitly seeded, so that a board
//! laid out from a stored seed can be reproduced exactly.
use vstd::pervasive::VecAdditionalExecFns;
use vstd::prelude::*;

verus! {

/// Substitute seed for zero, which would lock the generator at zero forever.
pub const ZERO_SEED_SUBSTITUTE: u64 = 0x9E3779B97F4A7C15;

/// One xorshift round over the 64-bit state.
pub open spec fn spec_scramble(x: u64) -> u64 {
    let a = x ^ (x << 13u64);
    let b = a ^ (a >> 7u64);
    b ^ (b << 17u64)
}

/// The state a generator starts from for a given seed.
pub open spec fn spec_seed_state(seed: u64) -> u64 {
    if seed == 0 {
        ZERO_SEED_SUBSTITUTE
    } else {
        seed
    }
}

/// What `gen_usize` returns once the state has been advanced to `x`.
pub open spec fn spec_gen_usize(x: u64, upper_exclusive: usize) -> usize {
    let m: usize = if upper_exclusive < 1 {
        1usize
    } else {
        upper_exclusive
    };
    ((x as usize) as int % (m as int)) as usize
}

/// A 64-bit xorshift generator.
pub struct XorShift64 {
    pub x: u64,
}

impl XorShift64 {
    /// A generator keyed by `seed`, with zero remapped to a fixed non-zero
    /// constant.
    pub fn new(seed: u64) -> (r: XorShift64)
        ensures
            r.x == spec_seed_state(seed),
    {
        XorShift64 { x: if seed == 0 { ZERO_SEED_SUBSTITUTE } else { seed } }
    }

    /// The next raw 64-bit value; the state advances by one scramble.
    pub fn next_u64(&mut self) -> (r: u64)
        ensures
            final(self).x == spec_scramble(old(self).x),
            r == final(self).x,
    {
        let mut x = self.x;
        x = x ^ (x << 13u64);
        x = x ^ (x >> 7u64);
        x = x ^ (x << 17u64);
        self.x = x;
        x
    }

    /// A value below `upper_exclusive` (below 1 is treated as 1); the state
    /// advances by one scramble.
    pub fn gen_usize(&mut self, upper_exclusive: usize) -> (r: usize)
        ensures
            final(self).x == spec_scramble(old(self).x),
            r == spec_gen_usize(final(self).x, upper_exclusive),
            upper_exclusive >= 1 ==> r < upper_exclusive,
    {
        let n = self.next_u64();
        let m: usize = if upper_exclusive < 1 {
            1
        } else {
            upper_exclusive
        };
        let t: usize = #[verifier::truncate] (n as usize);
        t % m
    }
}

/// A sequence with the entries at `i` and `j` exchanged.
pub open spec fn spec_swap<T>(s: Seq<T>, i: int, j: int) -> Seq<T> {
    s.update(i, s[j]).update(j, s[i])
}

/// Exchanging two entries keeps length, membership and freedom from
/// duplicates.
pub proof fn lemma_swap_preserves<T>(s: Seq<T>, i: int, j: int)
    requires
        0 <= i < s.len(),
        0 <= j < s.len(),
    ensures
        spec_swap(s, i, j).len() == s.len(),
        forall|a: T| spec_swap(s, i, j).contains(a) == s.contains(a),
        spec_swap(s, i, j).no_duplicates() == s.no_duplicates(),
{
    let s2 = spec_swap(s, i, j);
    assert forall|a: T| s2.contains(a) == s.contains(a) by {
        if s.contains(a) {
            let k = choose|k: int| 0 <= k < s.len() && s[k] == a;
            if k == i {
                assert(s2[j] == a);
            } else if k == j {
                assert(s2[i] == a);
            } else {
                assert(s2[k] == a);
            }
        }
        if s2.contains(a) {
            let k = choose|k: int| 0 <= k < s2.len() && s2[k] == a;
            if k == i {
                assert(s[j] == a);
            } else if k == j {
                assert(s[i] == a);
            } else {
                assert(s[k] == a);
            }
        }
    }
    if s.no_duplicates() {
        assert forall|p: int, q: int| 0 <= p < s2.len() && 0 <= q < s2.len() && p != q implies s2[p]
            != s2[q] by {
            assert(s2[p] == if p == i {
                s[j]
            } else if p == j {
                s[i]
            } else {
                s[p]
            });
            assert(s2[q] == if q == i {
                s[j]
            } else if q == j {
                s[i]
            } else {
                s[q]
            });
        }
    }
    if s2.no_duplicates() {
        assert forall|p: int, q: int| 0 <= p < s.len() && 0 <= q < s.len() && p != q implies s[p]
            != s[q] by {
            let p2: int = if p == i {
                j
            } else if p == j {
                i
            } else {
                p
            };
            let q2: int = if q == i {
                j
            } else if q == j {
                i
            } else {
                q
            };
            assert(s2[p2] == s[p]);
            assert(s2[q2] == s[q]);
            assert(s2[p2] != s2[q2]);
        }
    }
}

/// The whole shuffle as a function: process positions `i`, `i-1`, ..., `1`,
/// at each drawing the next value and exchanging the position with a drawn
/// position at or below it. Returns the sequence and the generator state.
pub open spec fn spec_fisher_yates<T>(s: Seq<T>, x: u64, i: int) -> (Seq<T>, u64)
    decreases i,
{
    if i <= 0 {
        (s, x)
    } else {
        let x2 = spec_scramble(x);
        let j = spec_gen_usize(x2, (i + 1) as usize);
        spec_fisher_yates(spec_swap(s, i, j as int), x2, i - 1)
    }
}

/// The shuffle is a permutation: length, membership and freedom from
/// duplicates carry over to the result.
pub proof fn lemma_fisher_yates_permutes<T>(s: Seq<T>, x: u64, i: int)
    requires
        i < s.len(),
        i + 1 <= usize::MAX,
    ensures
        spec_fisher_yates(s, x, i).0.len() == s.len(),
        forall|a: T| spec_fisher_yates(s, x, i).0.contains(a) == s.contains(a),
        spec_fisher_yates(s, x, i).0.no_duplicates() == s.no_duplicates(),
    decreases i,
{
    if i > 0 {
        let x2 = spec_scramble(x);
        let j = spec_gen_usize(x2, (i + 1) as usize);
        assert(0 <= j as int <= i);
        lemma_swap_preserves(s, i, j as int);
        lemma_fisher_yates_permutes(spec_swap(s, i, j as int), x2, i - 1);
    }
}

/// Shuffle the vector in place with a seeded generator: the deterministic
/// Fisher–Yates walk described by `spec_fisher_yates`.
pub fn fisher_yates<T: Copy>(v: &mut Vec<T>, rng: &mut XorShift64)
    ensures
        final(v)@ == spec_fisher_yates(old(v)@, old(rng).x, old(v)@.len() - 1).0,
        final(rng).x == spec_fisher_yates(old(v)@, old(rng).x, old(v)@.len() - 1).1,
{
    let ghost s0 = v@;
    let ghost x0 = rng.x;
    let mut i: usize = v.len();
    if i == 0 {
        return ;
    }
    while i > 1
        invariant
            1 <= i <= v@.len(),
            spec_fisher_yates(s0, x0, s0.len() - 1) == spec_fisher_yates(v@, rng.x, i as int - 1),
        decreases i,
    {
        let ghost vpre = v@;
        let ghost xpre = rng.x;
        i = i - 1;
        let j = rng.gen_usize(i + 1);
        let a = v[i];
        let b = v[j];
        v.set(i, b);
        v.set(j, a);
        proof {
            assert(v@ =~= spec_swap(vpre, i as int, j as int));
            assert(spec_fisher_yates(vpre, xpre, i as int) == spec_fisher_yates(
                spec_swap(vpre, i as int, j as int),
                rng.x,
                i as int - 1,
            ));
        }
    }
}

} // verus!
