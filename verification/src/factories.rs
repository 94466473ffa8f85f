//! The factory displays: five displays of four tiles each and the center,
//! where the tiles that nobody takes are pushed.
use vstd::prelude::*;
use rand::rngs::SmallRng;
use crate::rng::random_below;
use crate::tile_color::NUM_TILE_COLORS;

verus! {

/// Number of factories, the center included (two players).
pub const NUM_FACTORIES: usize = 6;

/// The index of the center among the factories: the last one.
pub const CENTER_FACTORY_INDEX: usize = 5;

/// Number of factory displays besides the center.
pub const NUM_NON_CENTER_FACTORIES: usize = 5;

/// Number of ways to fill a display with four tiles (70), plus the empty
/// display.
pub const NUM_POSSIBLE_FACTORY_PERMUTATIONS: usize = 71;

/// How many tiles of each color lie on one factory.
pub type Factory = [u8; NUM_TILE_COLORS];

/// How many tiles of each color lie in the bag (or in the lid).
pub type Bag = [u8; NUM_TILE_COLORS];

/// All factories; the last one is the center.
#[derive(Debug, Clone, Copy, PartialEq, Eq)]
pub struct Factories {
    pub factories: [Factory; NUM_FACTORIES],
}

/// Sum of the five counts of a factory or bag.
pub open spec fn total(a: [u8; 5]) -> int {
    a[0] + a[1] + a[2] + a[3] + a[4]
}

/// Number of tiles of color `c` on the non-center factories below `k`.
pub open spec fn placed_below(f: [Factory; NUM_FACTORIES], c: int, k: int) -> int
    decreases k,
{
    if k <= 0 {
        0
    } else {
        placed_below(f, c, k - 1) + f[k - 1][c]
    }
}

/// Number of tiles on the non-center factories below `k`.
pub open spec fn placed_total_below(f: [Factory; NUM_FACTORIES], k: int) -> int
    decreases k,
{
    if k <= 0 {
        0
    } else {
        placed_total_below(f, k - 1) + total(f[k - 1])
    }
}

/// Whether no factory holds a tile.
pub open spec fn all_empty(f: [Factory; NUM_FACTORIES]) -> bool {
    forall|i: int, c: int| 0 <= i < 6 && 0 <= c < 5 ==> #[trigger] f[i][c] == 0
}

/// `x` clamped to `0..=4`.
pub open spec fn clamp4(x: int) -> int {
    if x < 0 {
        0
    } else if x > 4 {
        4
    } else {
        x
    }
}

/// Number of colors of which the bag holds at least one tile.
pub open spec fn count_nonempty_below(bag: [u8; 5], k: int) -> nat
    decreases k,
{
    if k <= 0 {
        0
    } else {
        count_nonempty_below(bag, k - 1) + (if bag[k - 1] > 0 { 1nat } else { 0nat })
    }
}

pub(crate) proof fn lemma_nonempty_count(bag: [u8; 5], k: int)
    requires
        0 <= k <= 5,
    ensures
        count_nonempty_below(bag, k) <= k,
        (count_nonempty_below(bag, k) == 0) == (forall|c: int| 0 <= c < k ==> #[trigger] bag[c] == 0),
    decreases k,
{
    if k > 0 {
        lemma_nonempty_count(bag, k - 1);
    }
}


/// The `j`-th color (counted from 0) that the bag holds, as a number.
pub open spec fn nth_color_of(bag: Bag, j: int) -> int {
    choose|c: int| 0 <= c < 5 && bag[c] > 0 && count_nonempty_below(bag, c) == j
}

/// The color that `nth_nonempty_color` picks is `nth_color_of`: no two
/// colors the bag holds have the same number of held colors before them.
proof fn lemma_nth_color_of(bag: Bag, j: int, c: int)
    requires
        0 <= c < 5,
        bag[c] > 0,
        count_nonempty_below(bag, c) == j,
    ensures
        nth_color_of(bag, j) == c,
{
    let d = nth_color_of(bag, j);
    assert(0 <= d < 5 && bag[d] > 0 && count_nonempty_below(bag, d) == j);
    if d < c {
        lemma_nonempty_count_grows(bag, d, c);
    } else if c < d {
        lemma_nonempty_count_grows(bag, c, d);
    }
}

proof fn lemma_nonempty_count_grows(bag: Bag, a: int, b: int)
    requires
        0 <= a < b <= 5,
        bag[a] > 0,
    ensures
        count_nonempty_below(bag, b) > count_nonempty_below(bag, a),
    decreases b - a,
{
    if b - 1 > a {
        lemma_nonempty_count_grows(bag, a, b - 1);
    }
}

proof fn lemma_nth_color_exists(bag: Bag, j: int, k: int)
    requires
        0 <= k <= 5,
        0 <= j < count_nonempty_below(bag, k),
    ensures
        exists|c: int| 0 <= c < k && bag[c] > 0 && count_nonempty_below(bag, c) == j,
    decreases k,
{
    if j < count_nonempty_below(bag, k - 1) {
        lemma_nth_color_exists(bag, j, k - 1);
    } else {
        assert(bag[k - 1] > 0 && count_nonempty_below(bag, k - 1) == j);
    }
}

/// Every color the bag holds is the pick of exactly one draw: with `k`
/// colors in the bag, the draws `0..k` pick `k` different colors, each held
/// by the bag, and color `c` is picked by the draw that counts the held
/// colors before it. So a tile of any color still in the bag can be drawn.
pub proof fn lemma_draws_pick_each_held_color(bag: Bag, c: int, j1: int, j2: int)
    requires
        0 <= c < 5,
        0 <= j1 < count_nonempty_below(bag, 5),
        0 <= j2 < count_nonempty_below(bag, 5),
    ensures
        0 <= nth_color_of(bag, j1) < 5,
        bag[nth_color_of(bag, j1)] > 0,
        j1 != j2 ==> nth_color_of(bag, j1) != nth_color_of(bag, j2),
        bag[c] > 0 ==> count_nonempty_below(bag, c) < count_nonempty_below(bag, 5) && nth_color_of(
            bag,
            count_nonempty_below(bag, c) as int,
        ) == c,
{
    lemma_nth_color_exists(bag, j1, 5);
    lemma_nth_color_exists(bag, j2, 5);
    if bag[c] > 0 {
        lemma_nonempty_count_grows(bag, c, 5);
        lemma_nth_color_of(bag, count_nonempty_below(bag, c) as int, c);
    }
}

/// The `j`-th color (counted from 0) that the bag holds: the color of a
/// tile drawn from the bag, or taken by a random move from a factory, where
/// `j` was drawn.
pub fn nth_nonempty_color(bag: &Bag, j: usize) -> (c: usize)
    requires
        j < count_nonempty_below(*bag, 5),
    ensures
        c < 5,
        bag[c as int] > 0,
        count_nonempty_below(*bag, c as int) == j,
{
    let mut seen: usize = 0;
    let mut c: usize = 0;
    while c < 5
        invariant
            c <= 5,
            seen == count_nonempty_below(*bag, c as int),
            seen <= j,
            j < count_nonempty_below(*bag, 5),
        decreases 5 - c,
    {
        if bag[c] > 0 {
            if seen == j {
                return c;
            }
            seen = seen + 1;
        }
        c = c + 1;
    }
    c
}

fn count_nonempty(bag: &Bag) -> (n: usize)
    ensures
        n == count_nonempty_below(*bag, 5),
        n <= 5,
        (n == 0) == (total(*bag) == 0),
{
    proof {
        lemma_nonempty_count(*bag, 5);
    }
    let mut n: usize = 0;
    let mut c: usize = 0;
    while c < 5
        invariant
            c <= 5,
            n == count_nonempty_below(*bag, c as int),
            n <= c,
        decreases 5 - c,
    {
        if bag[c] > 0 {
            n = n + 1;
        }
        c = c + 1;
    }
    n
}

fn bag_sum(bag: &Bag) -> (s: u8)
    requires
        total(*bag) <= 255,
    ensures
        s == total(*bag),
{
    bag[0] + bag[1] + bag[2] + bag[3] + bag[4]
}

/// What dealing leaves behind, starting from bag `b0`, lid `o0` and empty
/// factories: the center stays empty; every tile that left bag or lid lies on
/// a display; the displays got four tiles each, one after the other, as long
/// as tiles were left (at most 20 in all); the lid is untouched where the bag
/// alone had more than 20 tiles, and emptied into the bag otherwise.
pub open spec fn deal_outcome(b0: Bag, o0: Bag, f: [Factory; NUM_FACTORIES], b: Bag, o: Bag) -> bool {
    &&& forall|c: int| 0 <= c < 5 ==> #[trigger] f[5][c] == 0
    &&& forall|c: int| 0 <= c < 5 ==> placed_below(f, c, 5) + b[c] + #[trigger] o[c] == b0[c] + o0[c]
    &&& placed_total_below(f, 5) == if total(b0) + total(o0) < 20 {
        total(b0) + total(o0)
    } else {
        20
    }
    &&& forall|k: int| 0 <= k < 5 ==> #[trigger] total(f[k]) == clamp4(placed_total_below(f, 5) - 4 * k)
    &&& total(b0) > 20 ==> o == o0
    &&& total(b0) > 20 ==> forall|c: int| 0 <= c < 5 ==> placed_below(f, c, 5) + #[trigger] b[c] == b0[c]
    &&& total(b0) <= 20 ==> forall|c: int| 0 <= c < 5 ==> #[trigger] o[c] == 0
}

impl Factories {
    /// Factories with no tile on them.
    pub fn empty() -> (f: Self)
        ensures
            all_empty(f.factories),
    {
        Factories { factories: [[0u8; NUM_TILE_COLORS]; NUM_FACTORIES] }
    }

    /// Whether no factory, the center included, holds a tile.
    pub fn is_empty(&self) -> (r: bool)
        ensures
            r == all_empty(self.factories),
    {
        let mut i: usize = 0;
        while i < NUM_FACTORIES
            invariant
                i <= 6,
                forall|k: int, c: int| 0 <= k < i && 0 <= c < 5 ==> #[trigger] self.factories[k][c] == 0,
            decreases 6 - i,
        {
            let mut c: usize = 0;
            while c < NUM_TILE_COLORS
                invariant
                    i < 6,
                    c <= 5,
                    forall|k: int, d: int| 0 <= k < i && 0 <= d < 5 ==> #[trigger] self.factories[k][d] == 0,
                    forall|d: int| 0 <= d < c ==> #[trigger] self.factories[i as int][d] == 0,
                decreases 5 - c,
            {
                if self.factories[i][c] != 0 {
                    return false;
                }
                c = c + 1;
            }
            i = i + 1;
        }
        true
    }

    /// Deals four tiles to each factory display from the bag. Whenever the bag
    /// runs empty it is refilled with the tiles of the lid (`out_of_bag`); where
    /// both are empty the remaining displays stay empty. The colors drawn are
    /// random, but every tile that leaves bag or lid lands on a display, the
    /// displays are filled one after the other, and the center is not touched.
    pub fn refill_by_drawing_from_bag(&mut self, bag: &mut Bag, out_of_bag: &mut Bag, rng: &mut SmallRng)
        requires
            all_empty(old(self).factories),
            total(*old(bag)) <= 255,
            total(*old(out_of_bag)) <= 255,
        ensures
            deal_outcome(*old(bag), *old(out_of_bag), final(self).factories, *final(bag), *final(out_of_bag)),
    {
        let ghost b0 = *bag;
        let ghost o0 = *out_of_bag;
        proof {
            lemma_placed_zero_tail(self.factories, 0, 5);
        }
        let mut tiles_left: u8 = bag_sum(bag);
        let ghost mut refilled = false;
        let mut i: usize = 0;
        while i < NUM_NON_CENTER_FACTORIES
            invariant
                i <= 5,
                tiles_left == total(*bag),
                total(*out_of_bag) <= 255,
                forall|c: int| 0 <= c < 5 ==> #[trigger] self.factories[5][c] == 0,
                forall|k: int, c: int| i <= k < 5 && 0 <= c < 5 ==> #[trigger] self.factories[k][c] == 0,
                forall|k: int| 0 <= k < i ==> #[trigger] total(self.factories[k]) == clamp4(
                    placed_total_below(self.factories, i as int) - 4 * k,
                ),
                placed_total_below(self.factories, i as int) <= 4 * i,
                placed_total_below(self.factories, i as int) == 4 * i || (total(*bag) == 0 && total(
                    *out_of_bag,
                ) == 0),
                forall|c: int| 0 <= c < 5 ==> placed_below(self.factories, c, i as int) + bag[c]
                    + #[trigger] out_of_bag[c] == b0[c] + o0[c],
                !refilled ==> *out_of_bag == o0,
                !refilled ==> forall|c: int| 0 <= c < 5 ==> placed_below(self.factories, c, i as int)
                    + #[trigger] bag[c] == b0[c],
                refilled ==> forall|c: int| 0 <= c < 5 ==> #[trigger] out_of_bag[c] == 0,
                refilled ==> total(b0) <= placed_total_below(self.factories, i as int),
                !refilled ==> total(*bag) > 0 || i == 0,
            decreases 5 - i,
        {
            let ghost f_start = self.factories;
            let ghost p_before = placed_total_below(self.factories, i as int);
            proof {
                lemma_placed_zero_tail(self.factories, i as int, 5);
            }
            let mut remaining: u8 = 4;
            while remaining > 0
                invariant
                    i < 5,
                    remaining <= 4,
                    tiles_left == total(*bag),
                    total(*out_of_bag) <= 255,
                    forall|c: int| 0 <= c < 5 ==> #[trigger] self.factories[5][c] == 0,
                    forall|k: int, c: int| i < k < 5 && 0 <= c < 5 ==> #[trigger] self.factories[k][c] == 0,
                    forall|k: int| 0 <= k < i ==> #[trigger] self.factories[k] == f_start[k],
                    total(self.factories[i as int]) == 4 - remaining,
                    forall|c: int| 0 <= c < 5 ==> #[trigger] self.factories[i as int][c] <= 4,
                    p_before == placed_total_below(f_start, i as int),
                    placed_total_below(self.factories, 5) == p_before + 4 - remaining,
                    p_before <= 4 * i,
                    p_before == 4 * i || (total(*bag) == 0 && total(*out_of_bag) == 0 && remaining
                        == 4),
                    forall|c: int| 0 <= c < 5 ==> placed_below(self.factories, c, 5) + bag[c]
                        + #[trigger] out_of_bag[c] == b0[c] + o0[c],
                    !refilled ==> *out_of_bag == o0,
                    !refilled ==> forall|c: int| 0 <= c < 5 ==> placed_below(self.factories, c, 5)
                        + #[trigger] bag[c] == b0[c],
                    refilled ==> forall|c: int| 0 <= c < 5 ==> #[trigger] out_of_bag[c] == 0,
                    refilled ==> total(b0) <= placed_total_below(self.factories, 5),
                    !refilled ==> total(*bag) > 0 || (i == 0 && remaining == 4),
                ensures
                    remaining == 0 || (total(*bag) == 0 && total(*out_of_bag) == 0 && refilled),
                decreases 2 * remaining + if tiles_left == 0 { 1int } else { 0int },
            {
                if tiles_left > 0 {
                    draw_tile(&mut self.factories, i, bag, rng);
                    remaining = remaining - 1;
                    tiles_left = tiles_left - 1;
                }
                if tiles_left == 0 {
                    proof {
                        if !refilled {
                            lemma_placed_sum(self.factories, 5);
                        }
                    }
                    *bag = *out_of_bag;
                    tiles_left = bag_sum(bag);
                    *out_of_bag = [0u8; NUM_TILE_COLORS];
                    proof {
                        refilled = true;
                    }
                    if tiles_left == 0 {
                        break;
                    }
                }
            }
            proof {
                lemma_placed_same_prefix(f_start, self.factories, i as int);
                lemma_placed_zero_tail(self.factories, i as int + 1, 5);
            }
            i = i + 1;
        }
        proof {
            lemma_placed_sum(self.factories, 5);
        }
    }
}

/// Moves one tile of a random color from the bag to factory `i`.
fn draw_tile(factories: &mut [Factory; NUM_FACTORIES], i: usize, bag: &mut Bag, rng: &mut SmallRng)
    requires
        i < 5,
        total(*old(bag)) > 0,
        forall|c: int| 0 <= c < 5 ==> #[trigger] old(factories)[i as int][c] < 4,
    ensures
        total(*final(bag)) == total(*old(bag)) - 1,
        total(final(factories)[i as int]) == total(old(factories)[i as int]) + 1,
        forall|k: int| 0 <= k < 6 && k != i ==> #[trigger] final(factories)[k] == old(factories)[k],
        forall|c: int| 0 <= c < 5 ==> #[trigger] final(factories)[i as int][c] <= old(factories)[i as int][c] + 1,
        placed_total_below(*final(factories), 5) == placed_total_below(*old(factories), 5) + 1,
        forall|c: int| 0 <= c < 5 ==> placed_below(*final(factories), c, 5) + #[trigger] final(bag)[c]
            == placed_below(*old(factories), c, 5) + old(bag)[c],
        exists|j: int|
            #![trigger nth_color_of(*old(bag), j)]
            0 <= j < count_nonempty_below(*old(bag), 5) && ({
                let c = nth_color_of(*old(bag), j);
                &&& final(bag)@ == old(bag)@.update(c, (old(bag)[c] - 1) as u8)
                &&& final(factories)[i as int]@ == old(factories)[i as int]@.update(c, (old(factories)[i as int][c] + 1) as u8)
            }),
{
    let k = count_nonempty(bag);
    let j = random_below(rng, k);
    let color = nth_nonempty_color(bag, j);
    let ghost f_old = *factories;
    bag[color] = bag[color] - 1;
    factories[i][color] = factories[i][color] + 1;
    proof {
        lemma_placed_update(f_old, *factories, i as int, color as int, 5);
        lemma_nth_color_of(*old(bag), j as int, color as int);
        assert(nth_color_of(*old(bag), j as int) == color as int);
        assert(bag@ =~= old(bag)@.update(color as int, (old(bag)[color as int] - 1) as u8));
        assert(factories[i as int]@ =~= f_old[i as int]@.update(color as int, (f_old[i as int][color as int] + 1) as u8));
    }
}

pub(crate) proof fn lemma_placed_sum(f: [Factory; NUM_FACTORIES], n: int)
    requires
        0 <= n <= 6,
    ensures
        placed_total_below(f, n) == placed_below(f, 0, n) + placed_below(f, 1, n) + placed_below(f, 2, n)
            + placed_below(f, 3, n) + placed_below(f, 4, n),
    decreases n,
{
    if n > 0 {
        lemma_placed_sum(f, n - 1);
    }
}

proof fn lemma_placed_zero_tail(f: [Factory; NUM_FACTORIES], i: int, n: int)
    requires
        0 <= i <= n <= 6,
        forall|k: int, c: int| i <= k < n && 0 <= c < 5 ==> #[trigger] f[k][c] == 0,
    ensures
        placed_total_below(f, n) == placed_total_below(f, i),
        forall|c: int| 0 <= c < 5 ==> #[trigger] placed_below(f, c, n) == placed_below(f, c, i),
    decreases n,
{
    if n > i {
        lemma_placed_zero_tail(f, i, n - 1);
        assert(f[n - 1][0] == 0 && f[n - 1][1] == 0 && f[n - 1][2] == 0 && f[n - 1][3] == 0 && f[n
            - 1][4] == 0);
        assert forall|c: int| 0 <= c < 5 implies #[trigger] placed_below(f, c, n) == placed_below(f, c, i) by {
            assert(f[n - 1][c] == 0);
            assert(placed_below(f, c, n - 1) == placed_below(f, c, i));
        }
    }
}

proof fn lemma_placed_same_prefix(f: [Factory; NUM_FACTORIES], g: [Factory; NUM_FACTORIES], n: int)
    requires
        0 <= n <= 6,
        forall|k: int| 0 <= k < n ==> #[trigger] f[k] == g[k],
    ensures
        placed_total_below(f, n) == placed_total_below(g, n),
        forall|c: int| 0 <= c < 5 ==> #[trigger] placed_below(f, c, n) == placed_below(g, c, n),
    decreases n,
{
    if n > 0 {
        lemma_placed_same_prefix(f, g, n - 1);
        assert(f[n - 1] == g[n - 1]);
        assert forall|c: int| 0 <= c < 5 implies #[trigger] placed_below(f, c, n) == placed_below(g, c, n) by {
            assert(f[n - 1][c] == g[n - 1][c]);
            assert(placed_below(f, c, n - 1) == placed_below(g, c, n - 1));
        }
    }
}

proof fn lemma_placed_update(f: [Factory; NUM_FACTORIES], g: [Factory; NUM_FACTORIES], i: int, color: int, n: int)
    requires
        0 <= i < 6,
        0 <= color < 5,
        0 <= n <= 6,
        forall|k: int| 0 <= k < 6 && k != i ==> #[trigger] g[k] == f[k],
        forall|c: int| 0 <= c < 5 && c != color ==> #[trigger] g[i][c] == f[i][c],
        g[i][color] == f[i][color] + 1,
    ensures
        placed_total_below(g, n) == placed_total_below(f, n) + if n > i { 1int } else { 0int },
        forall|c: int| 0 <= c < 5 ==> #[trigger] placed_below(g, c, n) == placed_below(f, c, n) + if n > i
            && c == color { 1int } else { 0int },
    decreases n,
{
    if n > 0 {
        lemma_placed_update(f, g, i, color, n - 1);
        if n - 1 != i {
            assert(g[n - 1] == f[n - 1]);
        }
        assert forall|c: int| 0 <= c < 5 implies #[trigger] placed_below(g, c, n) == placed_below(f, c, n) + if n > i
            && c == color { 1int } else { 0int } by {
            assert(placed_below(g, c, n - 1) == placed_below(f, c, n - 1) + if n - 1 > i && c == color {
                1int
            } else {
                0int
            });
            if n - 1 != i {
                assert(g[n - 1][c] == f[n - 1][c]);
            }
        }
    }
}

/// The display number of each hash value that a filled display can have.
pub open spec fn factory_hash_table() -> Seq<usize> {
    seq![
        42, 32, 67, 48, 20, 0, 0, 65, 27, 6, 25, 21, 43, 0, 0, 35, 0, 51, 0, 0,
        17, 0, 56, 28, 14, 41, 8, 44, 54, 36, 0, 52, 0, 37, 29, 55, 26, 13, 63, 15,
        0, 0, 0, 66, 47, 18, 30, 38, 0, 59, 69, 12, 0, 61, 1, 46, 53, 0, 0, 9,
        0, 0, 0, 62, 7, 50, 5, 4, 33, 68, 31, 0, 0, 0, 10, 40, 22, 2, 57, 45,
        23, 11, 24, 39, 34, 19, 49, 0, 0, 58, 3, 16, 0, 0, 64, 0, 0, 0, 0, 60,
    ]
}

/// The displays in the order of their numbers: the 70 ways to put four tiles on
/// a display, then the empty display.
pub open spec fn factory_table() -> Seq<Seq<u8>> {
    seq![
        seq![0u8, 1u8, 0u8, 3u8, 0u8], seq![3u8, 1u8, 0u8, 0u8, 0u8], seq![1u8, 1u8, 0u8, 1u8, 1u8],
        seq![1u8, 3u8, 0u8, 0u8, 0u8], seq![0u8, 1u8, 1u8, 1u8, 1u8], seq![0u8, 0u8, 2u8, 1u8, 1u8],
        seq![0u8, 2u8, 0u8, 1u8, 1u8], seq![0u8, 0u8, 3u8, 0u8, 1u8], seq![0u8, 1u8, 2u8, 1u8, 0u8],
        seq![1u8, 0u8, 0u8, 0u8, 3u8], seq![1u8, 0u8, 2u8, 0u8, 1u8], seq![0u8, 2u8, 1u8, 1u8, 0u8],
        seq![0u8, 0u8, 0u8, 1u8, 3u8], seq![1u8, 0u8, 1u8, 2u8, 0u8], seq![0u8, 1u8, 3u8, 0u8, 0u8],
        seq![1u8, 0u8, 0u8, 3u8, 0u8], seq![1u8, 2u8, 0u8, 1u8, 0u8], seq![2u8, 0u8, 0u8, 0u8, 2u8],
        seq![2u8, 0u8, 1u8, 1u8, 0u8], seq![2u8, 1u8, 0u8, 0u8, 1u8], seq![0u8, 0u8, 0u8, 2u8, 2u8],
        seq![1u8, 1u8, 0u8, 0u8, 2u8], seq![1u8, 0u8, 1u8, 1u8, 1u8], seq![0u8, 3u8, 1u8, 0u8, 0u8],
        seq![0u8, 3u8, 0u8, 1u8, 0u8], seq![1u8, 0u8, 1u8, 0u8, 2u8], seq![1u8, 1u8, 1u8, 1u8, 0u8],
        seq![0u8, 3u8, 0u8, 0u8, 1u8], seq![0u8, 0u8, 4u8, 0u8, 0u8], seq![1u8, 1u8, 2u8, 0u8, 0u8],
        seq![2u8, 1u8, 0u8, 1u8, 0u8], seq![0u8, 0u8, 0u8, 3u8, 1u8], seq![0u8, 1u8, 1u8, 0u8, 2u8],
        seq![0u8, 0u8, 1u8, 2u8, 1u8], seq![2u8, 0u8, 1u8, 0u8, 1u8], seq![0u8, 0u8, 0u8, 0u8, 4u8],
        seq![0u8, 0u8, 1u8, 3u8, 0u8], seq![1u8, 0u8, 3u8, 0u8, 0u8], seq![2u8, 0u8, 0u8, 2u8, 0u8],
        seq![0u8, 2u8, 0u8, 2u8, 0u8], seq![1u8, 1u8, 1u8, 0u8, 1u8], seq![0u8, 0u8, 3u8, 1u8, 0u8],
        seq![0u8, 0u8, 2u8, 0u8, 2u8], seq![1u8, 0u8, 0u8, 1u8, 2u8], seq![0u8, 0u8, 2u8, 2u8, 0u8],
        seq![0u8, 2u8, 2u8, 0u8, 0u8], seq![3u8, 0u8, 0u8, 1u8, 0u8], seq![2u8, 1u8, 1u8, 0u8, 0u8],
        seq![0u8, 1u8, 0u8, 1u8, 2u8], seq![2u8, 0u8, 0u8, 1u8, 1u8], seq![0u8, 1u8, 2u8, 0u8, 1u8],
        seq![1u8, 2u8, 0u8, 0u8, 1u8], seq![0u8, 0u8, 0u8, 4u8, 0u8], seq![0u8, 2u8, 0u8, 0u8, 2u8],
        seq![0u8, 1u8, 1u8, 2u8, 0u8], seq![1u8, 0u8, 2u8, 1u8, 0u8], seq![0u8, 4u8, 0u8, 0u8, 0u8],
        seq![1u8, 0u8, 0u8, 2u8, 1u8], seq![1u8, 2u8, 1u8, 0u8, 0u8], seq![0u8, 0u8, 1u8, 0u8, 3u8],
        seq![2u8, 2u8, 0u8, 0u8, 0u8], seq![3u8, 0u8, 1u8, 0u8, 0u8], seq![4u8, 0u8, 0u8, 0u8, 0u8],
        seq![1u8, 1u8, 0u8, 2u8, 0u8], seq![3u8, 0u8, 0u8, 0u8, 1u8], seq![0u8, 2u8, 1u8, 0u8, 1u8],
        seq![2u8, 0u8, 2u8, 0u8, 0u8], seq![0u8, 0u8, 1u8, 1u8, 2u8], seq![0u8, 1u8, 0u8, 2u8, 1u8],
        seq![0u8, 1u8, 0u8, 0u8, 3u8], seq![0u8, 0u8, 0u8, 0u8, 0u8],
    ]
}

/// The hash value of a factory: an arithmetic mix of its five counts modulo 113.
pub open spec fn factory_hash_key(f: Seq<u8>) -> int {
    let a = ((f[0] * 9) % 256) as u8;
    let r = ((f[1] % 2) * 128 + f[1] / 2) as u8;
    let b = ((r * 54) % 256) as u8;
    let m = ((f[4] * 191) % 256) as u8;
    let x = m ^ 4u8;
    let c = ((x + 234) % 256) as u8;
    let d = f[2] ^ 15u8;
    (a + b + c + d + f[3]) % 113
}

/// Whether a factory has no tile.
pub open spec fn factory_is_empty(f: Seq<u8>) -> bool {
    f[0] == 0 && f[1] == 0 && f[2] == 0 && f[3] == 0 && f[4] == 0
}

/// The number of a factory among the 71 possible contents.
pub open spec fn factory_number(f: Seq<u8>) -> int {
    if factory_is_empty(f) {
        70
    } else {
        factory_hash_table()[factory_hash_key(f)] as int
    }
}

/// The place in the table of a display content with 0 blue tiles.
#[verifier::rlimit(60)]
proof fn lemma_table_place_0(f: Seq<u8>) -> (k: int)
    requires
        f.len() == 5,
        f[0] == 0,
        f[0] + f[1] + f[2] + f[3] + f[4] == 4,
    ensures
        0 <= k < 70,
        factory_table()[k] == f,
{
    if f[1] == 0 {
        if f[2] == 0 {
            if f[3] == 0 {
                assert(f =~= factory_table()[35]);
                35
            } else if f[3] == 1 {
                assert(f =~= factory_table()[12]);
                12
            } else if f[3] == 2 {
                assert(f =~= factory_table()[20]);
                20
            } else if f[3] == 3 {
                assert(f =~= factory_table()[31]);
                31
            } else {
                assert(f =~= factory_table()[52]);
                52
            }
        } else if f[2] == 1 {
            if f[3] == 0 {
                assert(f =~= factory_table()[59]);
                59
            } else if f[3] == 1 {
                assert(f =~= factory_table()[67]);
                67
            } else if f[3] == 2 {
                assert(f =~= factory_table()[33]);
                33
            } else {
                assert(f =~= factory_table()[36]);
                36
            }
        } else if f[2] == 2 {
            if f[3] == 0 {
                assert(f =~= factory_table()[42]);
                42
            } else if f[3] == 1 {
                assert(f =~= factory_table()[5]);
                5
            } else {
                assert(f =~= factory_table()[44]);
                44
            }
        } else if f[2] == 3 {
            if f[3] == 0 {
                assert(f =~= factory_table()[7]);
                7
            } else {
                assert(f =~= factory_table()[41]);
                41
            }
        } else {
            assert(f =~= factory_table()[28]);
            28
        }
    } else if f[1] == 1 {
        if f[2] == 0 {
            if f[3] == 0 {
                assert(f =~= factory_table()[69]);
                69
            } else if f[3] == 1 {
                assert(f =~= factory_table()[48]);
                48
            } else if f[3] == 2 {
                assert(f =~= factory_table()[68]);
                68
            } else {
                assert(f =~= factory_table()[0]);
                0
            }
        } else if f[2] == 1 {
            if f[3] == 0 {
                assert(f =~= factory_table()[32]);
                32
            } else if f[3] == 1 {
                assert(f =~= factory_table()[4]);
                4
            } else {
                assert(f =~= factory_table()[54]);
                54
            }
        } else if f[2] == 2 {
            if f[3] == 0 {
                assert(f =~= factory_table()[50]);
                50
            } else {
                assert(f =~= factory_table()[8]);
                8
            }
        } else {
            assert(f =~= factory_table()[14]);
            14
        }
    } else if f[1] == 2 {
        if f[2] == 0 {
            if f[3] == 0 {
                assert(f =~= factory_table()[53]);
                53
            } else if f[3] == 1 {
                assert(f =~= factory_table()[6]);
                6
            } else {
                assert(f =~= factory_table()[39]);
                39
            }
        } else if f[2] == 1 {
            if f[3] == 0 {
                assert(f =~= factory_table()[65]);
                65
            } else {
                assert(f =~= factory_table()[11]);
                11
            }
        } else {
            assert(f =~= factory_table()[45]);
            45
        }
    } else if f[1] == 3 {
        if f[2] == 0 {
            if f[3] == 0 {
                assert(f =~= factory_table()[27]);
                27
            } else {
                assert(f =~= factory_table()[24]);
                24
            }
        } else {
            assert(f =~= factory_table()[23]);
            23
        }
    } else {
        assert(f =~= factory_table()[56]);
        56
    }
}

/// The place in the table of a display content with 1 blue tiles.
#[verifier::rlimit(60)]
proof fn lemma_table_place_1(f: Seq<u8>) -> (k: int)
    requires
        f.len() == 5,
        f[0] == 1,
        f[0] + f[1] + f[2] + f[3] + f[4] == 4,
    ensures
        0 <= k < 70,
        factory_table()[k] == f,
{
    if f[1] == 0 {
        if f[2] == 0 {
            if f[3] == 0 {
                assert(f =~= factory_table()[9]);
                9
            } else if f[3] == 1 {
                assert(f =~= factory_table()[43]);
                43
            } else if f[3] == 2 {
                assert(f =~= factory_table()[57]);
                57
            } else {
                assert(f =~= factory_table()[15]);
                15
            }
        } else if f[2] == 1 {
            if f[3] == 0 {
                assert(f =~= factory_table()[25]);
                25
            } else if f[3] == 1 {
                assert(f =~= factory_table()[22]);
                22
            } else {
                assert(f =~= factory_table()[13]);
                13
            }
        } else if f[2] == 2 {
            if f[3] == 0 {
                assert(f =~= factory_table()[10]);
                10
            } else {
                assert(f =~= factory_table()[55]);
                55
            }
        } else {
            assert(f =~= factory_table()[37]);
            37
        }
    } else if f[1] == 1 {
        if f[2] == 0 {
            if f[3] == 0 {
                assert(f =~= factory_table()[21]);
                21
            } else if f[3] == 1 {
                assert(f =~= factory_table()[2]);
                2
            } else {
                assert(f =~= factory_table()[63]);
                63
            }
        } else if f[2] == 1 {
            if f[3] == 0 {
                assert(f =~= factory_table()[40]);
                40
            } else {
                assert(f =~= factory_table()[26]);
                26
            }
        } else {
            assert(f =~= factory_table()[29]);
            29
        }
    } else if f[1] == 2 {
        if f[2] == 0 {
            if f[3] == 0 {
                assert(f =~= factory_table()[51]);
                51
            } else {
                assert(f =~= factory_table()[16]);
                16
            }
        } else {
            assert(f =~= factory_table()[58]);
            58
        }
    } else {
        assert(f =~= factory_table()[3]);
        3
    }
}

/// The place in the table of a display content with 2 blue tiles.
#[verifier::rlimit(60)]
proof fn lemma_table_place_2(f: Seq<u8>) -> (k: int)
    requires
        f.len() == 5,
        f[0] == 2,
        f[0] + f[1] + f[2] + f[3] + f[4] == 4,
    ensures
        0 <= k < 70,
        factory_table()[k] == f,
{
    if f[1] == 0 {
        if f[2] == 0 {
            if f[3] == 0 {
                assert(f =~= factory_table()[17]);
                17
            } else if f[3] == 1 {
                assert(f =~= factory_table()[49]);
                49
            } else {
                assert(f =~= factory_table()[38]);
                38
            }
        } else if f[2] == 1 {
            if f[3] == 0 {
                assert(f =~= factory_table()[34]);
                34
            } else {
                assert(f =~= factory_table()[18]);
                18
            }
        } else {
            assert(f =~= factory_table()[66]);
            66
        }
    } else if f[1] == 1 {
        if f[2] == 0 {
            if f[3] == 0 {
                assert(f =~= factory_table()[19]);
                19
            } else {
                assert(f =~= factory_table()[30]);
                30
            }
        } else {
            assert(f =~= factory_table()[47]);
            47
        }
    } else {
        assert(f =~= factory_table()[60]);
        60
    }
}

/// The place in the table of a display content with 3 blue tiles.
#[verifier::rlimit(60)]
proof fn lemma_table_place_3(f: Seq<u8>) -> (k: int)
    requires
        f.len() == 5,
        f[0] == 3,
        f[0] + f[1] + f[2] + f[3] + f[4] == 4,
    ensures
        0 <= k < 70,
        factory_table()[k] == f,
{
    if f[1] == 0 {
        if f[2] == 0 {
            if f[3] == 0 {
                assert(f =~= factory_table()[64]);
                64
            } else {
                assert(f =~= factory_table()[46]);
                46
            }
        } else {
            assert(f =~= factory_table()[61]);
            61
        }
    } else {
        assert(f =~= factory_table()[1]);
        1
    }
}

/// The place in the table of a display content with 4 blue tiles.
#[verifier::rlimit(60)]
proof fn lemma_table_place_4(f: Seq<u8>) -> (k: int)
    requires
        f.len() == 5,
        f[0] == 4,
        f[0] + f[1] + f[2] + f[3] + f[4] == 4,
    ensures
        0 <= k < 70,
        factory_table()[k] == f,
{
    assert(f =~= factory_table()[62]);
    62
}

/// Law: every content a display can hold, four tiles in five colors, is
/// among the first 70 contents of the table and gets its own place as its
/// number, so that `unhash_factory(hash_factory(f))` gives `f` back.
pub proof fn lemma_display_contents_numbered(f: Seq<u8>)
    requires
        f.len() == 5,
        f[0] + f[1] + f[2] + f[3] + f[4] == 4,
    ensures
        0 <= factory_number(f) < 70,
        factory_table()[factory_number(f)] == f,
        !factory_is_empty(f),
        factory_hash_key(f) < 100,
{
    let k = if f[0] == 0 {
        lemma_table_place_0(f)
    } else if f[0] == 1 {
        lemma_table_place_1(f)
    } else if f[0] == 2 {
        lemma_table_place_2(f)
    } else if f[0] == 3 {
        lemma_table_place_3(f)
    } else {
        lemma_table_place_4(f)
    };
    lemma_factory_numbers();
    assert(factory_number(factory_table()[k]) == k);
    assert(!factory_is_empty(factory_table()[k]));
}

/// Each of the 71 contents of the table gets its own place as its number, so
/// that `unhash_factory(hash_factory(f))` gives `f` back for each of them.
#[verifier::rlimit(100)]
pub proof fn lemma_factory_numbers()
    ensures
        forall|i: int| 0 <= i < 71 ==> #[trigger] factory_number(factory_table()[i]) == i,
        forall|i: int| 0 <= i < 70 ==> !factory_is_empty(#[trigger] factory_table()[i]) && factory_hash_key(
            factory_table()[i],
        ) < 100,
{
    assert(0u8 ^ 4u8 == 4u8 && 191u8 ^ 4u8 == 187u8 && 126u8 ^ 4u8 == 122u8 && 61u8 ^ 4u8 == 57u8 && 252u8 ^ 4u8
        == 248u8 && 0u8 ^ 15u8 == 15u8 && 1u8 ^ 15u8 == 14u8 && 2u8 ^ 15u8 == 13u8 && 3u8 ^ 15u8 == 12u8 && 4u8
        ^ 15u8 == 11u8) by (bit_vector);
    assert(factory_hash_key(factory_table()[0]) == 30);
    assert(factory_hash_key(factory_table()[1]) == 54);
    assert(factory_hash_key(factory_table()[2]) == 77);
    assert(factory_hash_key(factory_table()[3]) == 90);
    assert(factory_hash_key(factory_table()[4]) == 67);
    assert(factory_hash_key(factory_table()[5]) == 66);
    assert(factory_hash_key(factory_table()[6]) == 9);
    assert(factory_hash_key(factory_table()[7]) == 64);
    assert(factory_hash_key(factory_table()[8]) == 26);
    assert(factory_hash_key(factory_table()[9]) == 59);
    assert(factory_hash_key(factory_table()[10]) == 74);
    assert(factory_hash_key(factory_table()[11]) == 81);
    assert(factory_hash_key(factory_table()[12]) == 51);
    assert(factory_hash_key(factory_table()[13]) == 37);
    assert(factory_hash_key(factory_table()[14]) == 24);
    assert(factory_hash_key(factory_table()[15]) == 39);
    assert(factory_hash_key(factory_table()[16]) == 91);
    assert(factory_hash_key(factory_table()[17]) == 20);
    assert(factory_hash_key(factory_table()[18]) == 45);
    assert(factory_hash_key(factory_table()[19]) == 85);
    assert(factory_hash_key(factory_table()[20]) == 4);
    assert(factory_hash_key(factory_table()[21]) == 11);
    assert(factory_hash_key(factory_table()[22]) == 76);
    assert(factory_hash_key(factory_table()[23]) == 80);
    assert(factory_hash_key(factory_table()[24]) == 82);
    assert(factory_hash_key(factory_table()[25]) == 10);
    assert(factory_hash_key(factory_table()[26]) == 36);
    assert(factory_hash_key(factory_table()[27]) == 8);
    assert(factory_hash_key(factory_table()[28]) == 23);
    assert(factory_hash_key(factory_table()[29]) == 34);
    assert(factory_hash_key(factory_table()[30]) == 46);
    assert(factory_hash_key(factory_table()[31]) == 70);
    assert(factory_hash_key(factory_table()[32]) == 1);
    assert(factory_hash_key(factory_table()[33]) == 68);
    assert(factory_hash_key(factory_table()[34]) == 84);
    assert(factory_hash_key(factory_table()[35]) == 15);
    assert(factory_hash_key(factory_table()[36]) == 29);
    assert(factory_hash_key(factory_table()[37]) == 33);
    assert(factory_hash_key(factory_table()[38]) == 47);
    assert(factory_hash_key(factory_table()[39]) == 83);
    assert(factory_hash_key(factory_table()[40]) == 75);
    assert(factory_hash_key(factory_table()[41]) == 25);
    assert(factory_hash_key(factory_table()[42]) == 0);
    assert(factory_hash_key(factory_table()[43]) == 12);
    assert(factory_hash_key(factory_table()[44]) == 27);
    assert(factory_hash_key(factory_table()[45]) == 79);
    assert(factory_hash_key(factory_table()[46]) == 55);
    assert(factory_hash_key(factory_table()[47]) == 44);
    assert(factory_hash_key(factory_table()[48]) == 3);
    assert(factory_hash_key(factory_table()[49]) == 86);
    assert(factory_hash_key(factory_table()[50]) == 65);
    assert(factory_hash_key(factory_table()[51]) == 17);
    assert(factory_hash_key(factory_table()[52]) == 31);
    assert(factory_hash_key(factory_table()[53]) == 56);
    assert(factory_hash_key(factory_table()[54]) == 28);
    assert(factory_hash_key(factory_table()[55]) == 35);
    assert(factory_hash_key(factory_table()[56]) == 22);
    assert(factory_hash_key(factory_table()[57]) == 78);
    assert(factory_hash_key(factory_table()[58]) == 89);
    assert(factory_hash_key(factory_table()[59]) == 49);
    assert(factory_hash_key(factory_table()[60]) == 99);
    assert(factory_hash_key(factory_table()[61]) == 53);
    assert(factory_hash_key(factory_table()[62]) == 63);
    assert(factory_hash_key(factory_table()[63]) == 38);
    assert(factory_hash_key(factory_table()[64]) == 94);
    assert(factory_hash_key(factory_table()[65]) == 7);
    assert(factory_hash_key(factory_table()[66]) == 43);
    assert(factory_hash_key(factory_table()[67]) == 2);
    assert(factory_hash_key(factory_table()[68]) == 69);
    assert(factory_hash_key(factory_table()[69]) == 50);
    assert(factory_is_empty(factory_table()[70]));
}

/// The number of a factory among the 71 possible contents (the 70 ways to
/// put four tiles on it and the empty factory). Other contents are mapped by
/// the same arithmetic; where its value leaves the table the call is not
/// allowed.
pub fn hash_factory(factory: &[u8; NUM_TILE_COLORS]) -> (r: usize)
    requires
        factory_is_empty(factory@) || factory_hash_key(factory@) < 100,
    ensures
        r == factory_number(factory@),
{
    if factory[0] == 0 && factory[1] == 0 && factory[2] == 0 && factory[3] == 0 && factory[4] == 0 {
        return 70;
    }
    let key = hash_key(factory);
    hash_table_at(key)
}

#[verifier::spinoff_prover]
#[verifier::rlimit(40)]
pub(crate) fn hash_key(factory: &[u8; NUM_TILE_COLORS]) -> (key: usize)
    ensures
        key == factory_hash_key(factory@),
        key < 113,
{
    let a: u8 = factory[0].wrapping_mul(9);
    let rot: u8 = (factory[1] % 2) * 128 + factory[1] / 2;
    let b: u8 = rot.wrapping_mul(54);
    let m: u8 = factory[4].wrapping_mul(191);
    let x: u8 = m ^ 4;
    let c: u8 = x.wrapping_add(234);
    let d: u8 = factory[2] ^ 15;
    let key: u64 = (a as u64 + b as u64 + c as u64 + d as u64 + factory[3] as u64) % 113;
    key as usize
}

fn hash_table_at(key: usize) -> (r: usize)
    requires
        key < 100,
    ensures
        r == factory_hash_table()[key as int],
{
    let table: [usize; 100] = [
        42, 32, 67, 48, 20, 0, 0, 65, 27, 6, 25, 21, 43, 0, 0, 35, 0, 51, 0, 0,
        17, 0, 56, 28, 14, 41, 8, 44, 54, 36, 0, 52, 0, 37, 29, 55, 26, 13, 63, 15,
        0, 0, 0, 66, 47, 18, 30, 38, 0, 59, 69, 12, 0, 61, 1, 46, 53, 0, 0, 9,
        0, 0, 0, 62, 7, 50, 5, 4, 33, 68, 31, 0, 0, 0, 10, 40, 22, 2, 57, 45,
        23, 11, 24, 39, 34, 19, 49, 0, 0, 58, 3, 16, 0, 0, 64, 0, 0, 0, 0, 60,
    ];
    assert(table@ =~= factory_hash_table());
    table[key]
}

/// The factory with number `index`.
pub fn unhash_factory(index: usize) -> (f: [u8; NUM_TILE_COLORS])
    requires
        index < NUM_POSSIBLE_FACTORY_PERMUTATIONS,
    ensures
        f@ == factory_table()[index as int],
{
    match index {
        0 => [0, 1, 0, 3, 0],
        1 => [3, 1, 0, 0, 0],
        2 => [1, 1, 0, 1, 1],
        3 => [1, 3, 0, 0, 0],
        4 => [0, 1, 1, 1, 1],
        5 => [0, 0, 2, 1, 1],
        6 => [0, 2, 0, 1, 1],
        7 => [0, 0, 3, 0, 1],
        8 => [0, 1, 2, 1, 0],
        9 => [1, 0, 0, 0, 3],
        10 => [1, 0, 2, 0, 1],
        11 => [0, 2, 1, 1, 0],
        12 => [0, 0, 0, 1, 3],
        13 => [1, 0, 1, 2, 0],
        14 => [0, 1, 3, 0, 0],
        15 => [1, 0, 0, 3, 0],
        16 => [1, 2, 0, 1, 0],
        17 => [2, 0, 0, 0, 2],
        18 => [2, 0, 1, 1, 0],
        19 => [2, 1, 0, 0, 1],
        20 => [0, 0, 0, 2, 2],
        21 => [1, 1, 0, 0, 2],
        22 => [1, 0, 1, 1, 1],
        23 => [0, 3, 1, 0, 0],
        24 => [0, 3, 0, 1, 0],
        25 => [1, 0, 1, 0, 2],
        26 => [1, 1, 1, 1, 0],
        27 => [0, 3, 0, 0, 1],
        28 => [0, 0, 4, 0, 0],
        29 => [1, 1, 2, 0, 0],
        30 => [2, 1, 0, 1, 0],
        31 => [0, 0, 0, 3, 1],
        32 => [0, 1, 1, 0, 2],
        33 => [0, 0, 1, 2, 1],
        34 => [2, 0, 1, 0, 1],
        35 => [0, 0, 0, 0, 4],
        36 => [0, 0, 1, 3, 0],
        37 => [1, 0, 3, 0, 0],
        38 => [2, 0, 0, 2, 0],
        39 => [0, 2, 0, 2, 0],
        40 => [1, 1, 1, 0, 1],
        41 => [0, 0, 3, 1, 0],
        42 => [0, 0, 2, 0, 2],
        43 => [1, 0, 0, 1, 2],
        44 => [0, 0, 2, 2, 0],
        45 => [0, 2, 2, 0, 0],
        46 => [3, 0, 0, 1, 0],
        47 => [2, 1, 1, 0, 0],
        48 => [0, 1, 0, 1, 2],
        49 => [2, 0, 0, 1, 1],
        50 => [0, 1, 2, 0, 1],
        51 => [1, 2, 0, 0, 1],
        52 => [0, 0, 0, 4, 0],
        53 => [0, 2, 0, 0, 2],
        54 => [0, 1, 1, 2, 0],
        55 => [1, 0, 2, 1, 0],
        56 => [0, 4, 0, 0, 0],
        57 => [1, 0, 0, 2, 1],
        58 => [1, 2, 1, 0, 0],
        59 => [0, 0, 1, 0, 3],
        60 => [2, 2, 0, 0, 0],
        61 => [3, 0, 1, 0, 0],
        62 => [4, 0, 0, 0, 0],
        63 => [1, 1, 0, 2, 0],
        64 => [3, 0, 0, 0, 1],
        65 => [0, 2, 1, 0, 1],
        66 => [2, 0, 2, 0, 0],
        67 => [0, 0, 1, 1, 2],
        68 => [0, 1, 0, 2, 1],
        69 => [0, 1, 0, 0, 3],
        _ => [0, 0, 0, 0, 0],
    }
}

} // verus!
