//! Feature indices of a wall: rows one and two in one index, rows three and
//! four in another, row five in a third.
use vstd::prelude::*;
use crate::player::NUM_PLAYERS;
use crate::wall::get_row_mask;
use crate::encoding::features::{InputChange, WALL_START, switch_changes, push_switch};

verus! {

/// Number of wall features of one player.
pub const WALL_ENCODING_SIZE: usize = 2080;

/// The five bits of row `r` of a wall, as a number below 32.
pub open spec fn row_bits(wall: u32, r: u32) -> u32 {
    (wall >> (6 * r)) & 31u32
}

/// The index of rows one and two: the first row in the high five bits.
pub fn calculate_upper_index(wall: u32) -> (r: usize)
    ensures
        r == row_bits(wall, 0) * 32 + row_bits(wall, 1),
        r < 1024,
{
    let mut index = wall & get_row_mask(0);
    index = index << 5u32;
    index = index | ((wall & get_row_mask(1)) >> 6u32);
    proof {
        lemma_upper_bits(wall);
    }
    index as usize
}

/// The index of rows three and four: the third row in the high five bits.
pub fn calculate_middle_index(wall: u32) -> (r: usize)
    ensures
        r == row_bits(wall, 2) * 32 + row_bits(wall, 3),
        r < 1024,
{
    let mut index = (wall & get_row_mask(2)) >> 12u32;
    index = index << 5u32;
    index = index | ((wall & get_row_mask(3)) >> 18u32);
    proof {
        lemma_middle_bits(wall);
    }
    index as usize
}

/// The index of row five.
pub fn calculate_lower_index(wall: u32) -> (r: usize)
    ensures
        r == row_bits(wall, 4),
        r < 32,
{
    let r = (wall & get_row_mask(4)) >> 24u32;
    proof {
        lemma_lower_bits(wall);
    }
    r as usize
}

proof fn lemma_upper_bits(w: u32)
    by (bit_vector)
    ensures
        (((w & (31u32 << 0u32)) << 5u32) | ((w & (31u32 << 6u32)) >> 6u32)) == ((w >> 0u32) & 31u32) * 32 + ((w
            >> 6u32) & 31u32),
        ((w >> 0u32) & 31u32) * 32 + ((w >> 6u32) & 31u32) < 1024,
{
}

proof fn lemma_middle_bits(w: u32)
    by (bit_vector)
    ensures
        ((((w & (31u32 << 12u32)) >> 12u32) << 5u32) | ((w & (31u32 << 18u32)) >> 18u32)) == ((w >> 12u32)
            & 31u32) * 32 + ((w >> 18u32) & 31u32),
        ((w >> 12u32) & 31u32) * 32 + ((w >> 18u32) & 31u32) < 1024,
{
}

proof fn lemma_lower_bits(w: u32)
    by (bit_vector)
    ensures
        ((w & (31u32 << 24u32)) >> 24u32) == ((w >> 24u32) & 31u32),
        ((w >> 24u32) & 31u32) < 32,
{
}

/// Two walls have the same upper index exactly when their first two rows
/// agree; likewise for the middle index and rows three and four.
pub proof fn lemma_wall_indices_distinguish_rows(a: u32, b: u32)
    ensures
        (row_bits(a, 0) * 32 + row_bits(a, 1) == row_bits(b, 0) * 32 + row_bits(b, 1)) <==> (row_bits(a, 0)
            == row_bits(b, 0) && row_bits(a, 1) == row_bits(b, 1)),
        (row_bits(a, 2) * 32 + row_bits(a, 3) == row_bits(b, 2) * 32 + row_bits(b, 3)) <==> (row_bits(a, 2)
            == row_bits(b, 2) && row_bits(a, 3) == row_bits(b, 3)),
{
    lemma_row_bits_small(a);
    lemma_row_bits_small(b);
}

proof fn lemma_row_bits_small(w: u32)
    ensures
        row_bits(w, 0) < 32,
        row_bits(w, 1) < 32,
        row_bits(w, 2) < 32,
        row_bits(w, 3) < 32,
{
    assert(((w >> 0u32) & 31u32) < 32 && ((w >> 6u32) & 31u32) < 32 && ((w >> 12u32) & 31u32) < 32 && ((w
        >> 18u32) & 31u32) < 32) by (bit_vector);
}

/// The wall features of each player.
#[derive(Clone, Default)]
pub struct WallEncoding {
    pub upper_index: [usize; NUM_PLAYERS],
    pub middle_index: [usize; NUM_PLAYERS],
    pub lower_index: [usize; NUM_PLAYERS],
}

/// The input of rows one and two of player `p`'s wall.
pub open spec fn upper_wall_input(wall: u32, p: int) -> usize {
    ((row_bits(wall, 0) * 32 + row_bits(wall, 1)) * 2 + p + WALL_START) as usize
}

/// The input of rows three and four of player `p`'s wall.
pub open spec fn middle_wall_input(wall: u32, p: int) -> usize {
    ((row_bits(wall, 2) * 32 + row_bits(wall, 3)) * 2 + p + WALL_START + 2048) as usize
}

/// The input of row five of player `p`'s wall.
pub open spec fn lower_wall_input(wall: u32, p: int) -> usize {
    (row_bits(wall, 4) * 2 + p + WALL_START + 4096) as usize
}

impl WallEncoding {
    /// The wall inputs of both players for empty walls, and the changes that
    /// switch them on.
    pub fn initialize() -> (r: (Self, Vec<InputChange>))
        ensures
            forall|p: int| 0 <= p < 2 ==> #[trigger] r.0.upper_index[p] == upper_wall_input(0, p),
            forall|p: int| 0 <= p < 2 ==> #[trigger] r.0.middle_index[p] == middle_wall_input(0, p),
            forall|p: int| 0 <= p < 2 ==> #[trigger] r.0.lower_index[p] == lower_wall_input(0, p),
            r.1@ == seq![
                InputChange::On(upper_wall_input(0, 0)),
                InputChange::On(middle_wall_input(0, 0)),
                InputChange::On(lower_wall_input(0, 0)),
                InputChange::On(upper_wall_input(0, 1)),
                InputChange::On(middle_wall_input(0, 1)),
                InputChange::On(lower_wall_input(0, 1)),
            ],
    {
        proof {
            lemma_row_bits_small(0);
            lemma_lower_bits(0);
        }
        let mut upper_index = [0usize; NUM_PLAYERS];
        let mut middle_index = [0usize; NUM_PLAYERS];
        let mut lower_index = [0usize; NUM_PLAYERS];
        let mut changes: Vec<InputChange> = Vec::new();
        let mut p: usize = 0;
        while p < NUM_PLAYERS
            invariant
                p <= 2,
                forall|q: int| 0 <= q < p ==> #[trigger] upper_index[q] == upper_wall_input(0, q),
                forall|q: int| 0 <= q < p ==> #[trigger] middle_index[q] == middle_wall_input(0, q),
                forall|q: int| 0 <= q < p ==> #[trigger] lower_index[q] == lower_wall_input(0, q),
                changes@.len() == 3 * p,
                forall|q: int| 0 <= q < p ==> changes@[3 * q] == InputChange::On(upper_wall_input(0, q))
                    && changes@[3 * q + 1] == InputChange::On(middle_wall_input(0, q)) && changes@[3 * q + 2]
                    == InputChange::On(lower_wall_input(0, q)),
                row_bits(0, 0) < 32,
                row_bits(0, 1) < 32,
                row_bits(0, 2) < 32,
                row_bits(0, 3) < 32,
                row_bits(0, 4) < 32,
            decreases 2 - p,
        {
            let u = calculate_upper_index(0) * NUM_PLAYERS + p + WALL_START;
            changes.push(InputChange::On(u));
            upper_index[p] = u;
            let m = calculate_middle_index(0) * NUM_PLAYERS + p + WALL_START + 1024 * NUM_PLAYERS;
            changes.push(InputChange::On(m));
            middle_index[p] = m;
            let l = calculate_lower_index(0) * NUM_PLAYERS + p + WALL_START + 2048 * NUM_PLAYERS;
            changes.push(InputChange::On(l));
            lower_index[p] = l;
            p = p + 1;
        }
        assert(changes@ =~= seq![
            InputChange::On(upper_wall_input(0, 0)),
            InputChange::On(middle_wall_input(0, 0)),
            InputChange::On(lower_wall_input(0, 0)),
            InputChange::On(upper_wall_input(0, 1)),
            InputChange::On(middle_wall_input(0, 1)),
            InputChange::On(lower_wall_input(0, 1)),
        ]);
        (WallEncoding { upper_index, middle_index, lower_index }, changes)
    }

    /// Records the wall of player `player_index`, and returns the changes
    /// that switch its inputs from the old wall to the new one.
    pub fn set(&mut self, wall: u32, player_index: usize) -> (r: Vec<InputChange>)
        requires
            player_index < 2,
        ensures
            final(self).upper_index@ == old(self).upper_index@.update(player_index as int, upper_wall_input(wall, player_index as int)),
            final(self).middle_index@ == old(self).middle_index@.update(player_index as int, middle_wall_input(wall, player_index as int)),
            final(self).lower_index@ == old(self).lower_index@.update(player_index as int, lower_wall_input(wall, player_index as int)),
            r@ == switch_changes(old(self).upper_index[player_index as int], upper_wall_input(wall, player_index as int))
                + switch_changes(old(self).middle_index[player_index as int], middle_wall_input(wall, player_index as int))
                + switch_changes(old(self).lower_index[player_index as int], lower_wall_input(wall, player_index as int)),
    {
        let mut changes: Vec<InputChange> = Vec::new();
        let u = calculate_upper_index(wall) * NUM_PLAYERS + player_index + WALL_START;
        push_switch(&mut changes, self.upper_index[player_index], u);
        self.upper_index[player_index] = u;
        let m = calculate_middle_index(wall) * NUM_PLAYERS + player_index + WALL_START + 1024 * NUM_PLAYERS;
        push_switch(&mut changes, self.middle_index[player_index], m);
        self.middle_index[player_index] = m;
        let l = calculate_lower_index(wall) * NUM_PLAYERS + player_index + WALL_START + 2048 * NUM_PLAYERS;
        push_switch(&mut changes, self.lower_index[player_index], l);
        self.lower_index[player_index] = l;
        assert(changes@ =~= switch_changes(old(self).upper_index[player_index as int], u) + switch_changes(
            old(self).middle_index[player_index as int],
            m,
        ) + switch_changes(old(self).lower_index[player_index as int], l));
        changes
    }
}

} // verus!
