//! Integer parts of shading a pixel: where the sub-pixel samples go, and
//! how texture coordinates wrap around.

use vstd::prelude::*;
use vstd::arithmetic::power2::{pow2, lemma_pow2_strictly_increases, lemma2_to64, lemma_pow2_unfold, lemma_pow2_pos};
use vstd::arithmetic::div_mod::{lemma_fundamental_div_mod, lemma_fundamental_div_mod_converse, lemma_mod_bound, lemma_small_mod};
use rand::SeedableRng;
use rand::rngs::StdRng;
use rand::seq::SliceRandom;

verus! {

/// Rust's remainder, whose sign follows the dividend, against the
/// Euclidean one of specifications.
proof fn lemma_rem_to_mod(x: int, d: int)
    requires
        d > 0,
    ensures
        x < 0 && (-x) % d == 0 ==> x % d == 0,
        x < 0 && (-x) % d != 0 ==> x % d == d - (-x) % d,
        0 <= (-x) % d < d,
{
    let r = (-x) % d;
    let q = (-x) / d;
    lemma_fundamental_div_mod(-x, d);
    lemma_mod_bound(-x, d);
    if x < 0 {
        if r == 0 {
            assert(x == (-q) * d + 0) by (nonlinear_arith)
                requires
                    -x == d * q + r,
                    r == 0,
            ;
            lemma_fundamental_div_mod_converse(x, d, -q, 0);
        } else {
            assert(x == (-q - 1) * d + (d - r)) by (nonlinear_arith)
                requires
                    -x == d * q + r,
            ;
            lemma_fundamental_div_mod_converse(x, d, -q - 1, d - r);
        }
    }
}

/// Wraps a texel coordinate into `0 .. bound`, the way repeating textures do.
pub fn wrap_coord(coord: i32, bound: u32) -> (r: u32)
    requires
        0 < bound <= i32::MAX,
    ensures
        r as int == (coord as int) % (bound as int),
{
    let signed_bound = bound as i32;
    let wrapped = match coord.checked_rem(signed_bound) {
        Some(rem) => rem,
        None => 0,
    };
    proof {
        lemma_rem_to_mod(coord as int, bound as int);
        assert(signed_bound as int == bound as int);
        lemma_mod_bound(coord as int, bound as int);
        if coord == 0 {
            assert(wrapped == 0);
            lemma_small_mod(0, bound as nat);
        } else if coord > 0 {
            assert(wrapped as int == (coord as int) % (bound as int));
        } else {
            assert(wrapped as int == -((-(coord as int)) % (bound as int)));
        }
    }
    if wrapped < 0 {
        (wrapped + signed_bound) as u32
    } else {
        wrapped as u32
    }
}

/// The smallest power of two that is at least `n` (1 for `n` <= 1).
pub open spec fn next_pow2(n: nat) -> nat
    decreases n,
{
    if n <= 1 {
        1
    } else {
        2 * next_pow2(((n + 1) / 2) as nat)
    }
}

proof fn lemma_next_pow2_unique(n: nat, k: nat)
    requires
        n <= pow2(k),
        pow2(k) == 1 || pow2(k) / 2 < n,
    ensures
        pow2(k) == next_pow2(n),
    decreases n,
{
    lemma2_to64();
    if k == 0 {
        assert(n <= 1);
    } else {
        lemma_pow2_unfold(k);
        lemma_pow2_pos((k - 1) as nat);
        let p2 = pow2((k - 1) as nat);
        if n <= 1 {
            assert(pow2(k) / 2 == p2);
            assert(false);
        } else {
            let m: nat = ((n + 1) / 2) as nat;
            assert(m <= p2);
            assert(p2 == 1 || p2 / 2 < m);
            lemma_next_pow2_unique(m, (k - 1) as nat);
        }
    }
}

proof fn lemma_next_pow2_at_least(n: nat)
    ensures
        n <= next_pow2(n),
        n >= 2 ==> next_pow2(n) % 2 == 0,
    decreases n,
{
    if n > 1 {
        lemma_next_pow2_at_least(((n + 1) / 2) as nat);
    }
}

/// The smallest power of two that is at least `n` (1 for 0).
pub fn next_power_of_two(n: u16) -> (p: u16)
    requires
        n <= 32768,
    ensures
        p == next_pow2(n as nat),
{
    let mut p: u16 = 1;
    let ghost mut k: nat = 0;
    proof {
        lemma2_to64();
    }
    while p < n
        invariant
            n <= 32768,
            k <= 15,
            p == pow2(k),
            p == 1 || p / 2 < n,
        decreases 32768 - p,
    {
        proof {
            lemma2_to64();
            if k >= 15 {
                if k > 15 {
                    lemma_pow2_strictly_increases(15, k);
                }
                assert(false);
            }
            lemma_pow2_unfold(k + 1);
            if k + 1 < 15 {
                lemma_pow2_strictly_increases(k + 1, 15);
            }
        }
        p = p * 2;
        proof {
            k = k + 1;
        }
    }
    proof {
        lemma_next_pow2_unique(n as nat, k);
    }
    p
}

/// Edge length of the grid of sub-pixel positions for `samples` samples:
/// 1 for at most one sample, else half the next power of two at or above
/// `samples + 2`, so that the grid is larger than an exact power-of-two fit.
pub open spec fn sample_grid_size(samples: int) -> int {
    if samples > 1 {
        (next_pow2((samples + 2) as nat) / 2) as int
    } else {
        1
    }
}

/// Edge length of the grid the samples of one pixel are drawn from.
pub fn sample_cell_size(samples: u16) -> (c: u16)
    requires
        samples <= 32766,
    ensures
        c == sample_grid_size(samples as int),
        1 <= c,
        samples <= c * c,
{
    if samples > 1 {
        let p = next_power_of_two(samples + 2);
        proof {
            lemma_next_pow2_at_least((samples + 2) as nat);
            assert(p >= 4);
            let c = p / 2;
            assert(c * c >= 2 * c) by (nonlinear_arith)
                requires
                    c >= 2,
            ;
            assert(2 * c >= p - 1);
        }
        p / 2
    } else {
        1
    }
}

/// The sample positions of the first `n` grid columns, column by column,
/// top to bottom within a column.
pub open spec fn grid_upto(c: int, n: nat) -> Seq<(u16, u16)>
    decreases n,
{
    if n == 0 {
        Seq::empty()
    } else {
        grid_upto(c, (n - 1) as nat) + Seq::new(c as nat, |y: int| (((n - 1) as int) as u16, y as u16))
    }
}

/// Every position of a `c` x `c` grid, column by column.
pub open spec fn grid(c: int) -> Seq<(u16, u16)> {
    grid_upto(c, c as nat)
}

proof fn lemma_grid_upto(c: int, n: nat)
    requires
        0 <= c <= u16::MAX,
        n <= c,
    ensures
        grid_upto(c, n).len() == n * c,
        grid_upto(c, n).no_duplicates(),
        forall|i: int| 0 <= i < grid_upto(c, n).len() ==> (#[trigger] grid_upto(c, n)[i]).0 < n
            && grid_upto(c, n)[i].1 < c,
    decreases n,
{
    if n > 0 {
        let prev = grid_upto(c, (n - 1) as nat);
        let col = Seq::new(c as nat, |y: int| (((n - 1) as int) as u16, y as u16));
        lemma_grid_upto(c, (n - 1) as nat);
        assert(grid_upto(c, n) == prev + col);
        let m: int = n - 1;
        assert(prev.len() == m * c);
        assert(grid_upto(c, n).len() == prev.len() + c);
        assert(m * c + c == (m + 1) * c) by (nonlinear_arith);
        assert(grid_upto(c, n).len() == n * c);
        let g = grid_upto(c, n);
        assert forall|i: int, j: int| 0 <= i < j < g.len() implies g[i] != g[j] by {
            if j < prev.len() {
            } else if i < prev.len() {
                assert(g[i].0 < n - 1);
                assert(g[j].0 == n - 1);
            } else {
                assert(g[i].1 as int == i - prev.len());
                assert(g[j].1 as int == j - prev.len());
            }
        }
    } else {
        assert(grid_upto(c, n).len() == 0);
        assert(n * c == 0);
    }
}

/// All positions of a `cell_size` x `cell_size` grid, column by column.
pub fn sample_grid(cell_size: u16) -> (g: Vec<(u16, u16)>)
    ensures
        g@ == grid(cell_size as int),
{
    let mut g: Vec<(u16, u16)> = Vec::new();
    let mut x: u16 = 0;
    while x < cell_size
        invariant
            x <= cell_size,
            g@ == grid_upto(cell_size as int, x as nat),
        decreases cell_size - x,
    {
        let mut y: u16 = 0;
        let ghost col = Seq::new(cell_size as nat, |j: int| ((x as int) as u16, j as u16));
        while y < cell_size
            invariant
                x < cell_size,
                y <= cell_size,
                col == Seq::new(cell_size as nat, |j: int| ((x as int) as u16, j as u16)),
                g@ == grid_upto(cell_size as int, x as nat) + col.take(y as int),
            decreases cell_size - y,
        {
            proof {
                assert(col.take(y + 1) =~= col.take(y as int).push((x, y)));
            }
            g.push((x, y));
            y += 1;
        }
        proof {
            assert(col.take(y as int) =~= col);
        }
        x += 1;
    }
    g
}

/// Puts the sample positions in an order drawn from a `rand::rngs::StdRng`
/// seeded with 0, through `rand::seq::SliceRandom::shuffle`. The contract
/// claims only that the same positions come out, each as often as it went
/// in: rand documents that generator as deterministic but not reproducible
/// across configurations and versions, so which order comes out is left
/// unsaid.
#[verifier::external_body]
fn shuffle_seeded(samples: &mut Vec<(u16, u16)>)
    ensures
        final(samples)@.to_multiset() == old(samples)@.to_multiset(),
{
    let mut rng = StdRng::seed_from_u64(0);
    samples.shuffle(&mut rng);
}

/// The sub-pixel positions at which one pixel is sampled: `samples`
/// distinct positions of the sample grid, in a shuffled order.
pub fn render_samples(samples: u16) -> (s: Vec<(u16, u16)>)
    requires
        samples <= 32766,
    ensures
        s@.len() == samples,
        s@.no_duplicates(),
        forall|i: int| 0 <= i < s@.len() ==> grid(sample_grid_size(samples as int)).contains(
            #[trigger] s@[i],
        ),
{
    let cell_size = sample_cell_size(samples);
    let mut s = sample_grid(cell_size);
    let ghost g = s@;
    proof {
        lemma_grid_upto(cell_size as int, cell_size as nat);
        assert(g.len() == cell_size * cell_size);
    }
    shuffle_seeded(&mut s);
    proof {
        let t = s@;
        g.to_multiset_ensures();
        t.to_multiset_ensures();
        g.lemma_multiset_has_no_duplicates();
        t.lemma_multiset_has_no_duplicates_conv();
    }
    let ghost shuffled = s@;
    s.truncate(samples as usize);
    proof {
        assert(s@ =~= shuffled.take(samples as int));
        assert forall|i: int| 0 <= i < s@.len() implies g.contains(#[trigger] s@[i]) by {
            assert(shuffled.contains(shuffled[i]));
            assert(shuffled.to_multiset().count(shuffled[i]) > 0);
            assert(g.to_multiset().count(shuffled[i]) > 0);
        }
    }
    s
}

} // verus!
