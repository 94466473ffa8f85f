//! The bag feature: how many tiles of each color are left in the bag.
use vstd::prelude::*;
use crate::tile_color::NUM_TILE_COLORS;
use crate::encoding::features::{InputChange, BAG_START};

verus! {

/// The number of tiles of each color that the bag feature shows.
pub struct BagEncoding {
    pub bag: [usize; NUM_TILE_COLORS],
}

/// The changes that move the count feature of color `color` from `current`
/// to `count`, in a block starting at `start`: none where they agree, else
/// the new feature on and the old one off.
pub open spec fn count_changes(current: usize, count: usize, color: int, start: int) -> Seq<InputChange> {
    if current == count {
        Seq::empty()
    } else {
        seq![InputChange::On((count * 5 + color + start) as usize), InputChange::Off((current * 5 + color + start) as usize)]
    }
}

/// The changes that set the count features of the colors below `k` from
/// `current` to `counts`.
pub open spec fn counts_changes(current: Seq<usize>, counts: Seq<usize>, k: int, start: int) -> Seq<InputChange>
    decreases k,
{
    if k <= 0 {
        Seq::empty()
    } else {
        counts_changes(current, counts, k - 1, start) + count_changes(current[k - 1], counts[k - 1], k - 1, start)
    }
}

impl BagEncoding {
    /// The features of an empty bag, and the changes that switch them on.
    pub fn initialize() -> (r: (Self, Vec<InputChange>))
        ensures
            r.0.bag@ == seq![0usize, 0usize, 0usize, 0usize, 0usize],
            r.1@ == Seq::new(5, |i: int| InputChange::On((i + BAG_START) as usize)),
    {
        let mut changes: Vec<InputChange> = Vec::new();
        let mut i: usize = 0;
        while i < NUM_TILE_COLORS
            invariant
                i <= 5,
                changes@ == Seq::new(i as nat, |j: int| InputChange::On((j + BAG_START) as usize)),
            decreases 5 - i,
        {
            changes.push(InputChange::On(i + BAG_START));
            i = i + 1;
            assert(changes@ =~= Seq::new(i as nat, |j: int| InputChange::On((j + BAG_START) as usize)));
        }
        let r = BagEncoding { bag: [0; NUM_TILE_COLORS] };
        assert(r.bag@ =~= seq![0usize, 0usize, 0usize, 0usize, 0usize]);
        (r, changes)
    }

    /// Records that the bag holds `count` tiles of color `color`, and returns
    /// the changes of its count feature.
    pub fn set_for_color(&mut self, color: usize, count: usize) -> (r: Vec<InputChange>)
        requires
            color < 5,
            count * 5 + color + BAG_START <= usize::MAX,
            old(self).bag[color as int] * 5 + color + BAG_START <= usize::MAX,
        ensures
            final(self).bag@ == old(self).bag@.update(color as int, count),
            r@ == count_changes(old(self).bag[color as int], count, color as int, BAG_START as int),
    {
        let mut changes: Vec<InputChange> = Vec::new();
        let current_count = self.bag[color];
        if current_count != count {
            let set = count * NUM_TILE_COLORS + color + BAG_START;
            let unset = current_count * NUM_TILE_COLORS + color + BAG_START;
            self.bag[color] = count;
            changes.push(InputChange::On(set));
            changes.push(InputChange::Off(unset));
        }
        assert(self.bag@ =~= old(self).bag@.update(color as int, count));
        assert(changes@ =~= count_changes(old(self).bag[color as int], count, color as int, BAG_START as int));
        changes
    }

    /// Records the bag, and returns the changes of the count features.
    pub fn set_bag(&mut self, bag: &[u8; NUM_TILE_COLORS]) -> (r: Vec<InputChange>)
        requires
            forall|c: int| 0 <= c < 5 ==> #[trigger] old(self).bag[c] * 5 + c + BAG_START <= usize::MAX,
        ensures
            forall|c: int| 0 <= c < 5 ==> #[trigger] final(self).bag[c] == bag[c],
            r@ == counts_changes(old(self).bag@, Seq::new(5, |c: int| bag[c] as usize), 5, BAG_START as int),
    {
        let ghost counts = Seq::new(5, |c: int| bag[c] as usize);
        let mut changes: Vec<InputChange> = Vec::new();
        let mut color: usize = 0;
        while color < NUM_TILE_COLORS
            invariant
                color <= 5,
                counts == Seq::new(5, |c: int| bag[c] as usize),
                forall|c: int| 0 <= c < color ==> #[trigger] self.bag[c] == bag[c],
                forall|c: int| color <= c < 5 ==> #[trigger] self.bag[c] == old(self).bag[c],
                forall|c: int| 0 <= c < 5 ==> #[trigger] old(self).bag[c] * 5 + c + BAG_START <= usize::MAX,
                changes@ == counts_changes(old(self).bag@, counts, color as int, BAG_START as int),
            decreases 5 - color,
        {
            let mut more = self.set_for_color(color, bag[color] as usize);
            changes.append(&mut more);
            color = color + 1;
        }
        changes
    }
}

} // verus!
