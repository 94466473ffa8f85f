//! Factory features: the count of each color in the center, and for the
//! displays how many of them show each of the 71 possible contents.
use vstd::prelude::*;
use crate::factories::{hash_factory, factory_number, factory_is_empty, factory_hash_key,
    NUM_POSSIBLE_FACTORY_PERMUTATIONS, NUM_NON_CENTER_FACTORIES};
use crate::tile_color::NUM_TILE_COLORS;
use crate::factories::{Factories, Factory, NUM_FACTORIES};
use crate::encoding::features::{InputChange, NON_CENTER_FACTORY_START};
use crate::encoding::bag::{count_changes, counts_changes};

verus! {

/// Number of display features.
pub const NON_CENTER_FACTORY_ENCODING_SIZE: usize = 355;

/// The largest count of a color in the center that has a feature.
pub const MAX_TILES_OF_COLOR_IN_CENTER: usize = 10;

/// Number of center features.
pub const CENTER_FACTORY_ENCODING_SIZE: usize = 50;

/// Number of factory features.
pub const FACTORY_ENCODING_SIZE: usize = 405;

/// The count that the center features show for `num_tiles` tiles of a
/// color: counts of `MAX_TILES_OF_COLOR_IN_CENTER` and more are not told
/// apart and show as the largest count with a feature, so that the feature
/// stays in the center block.
pub open spec fn center_count_feature(num_tiles: usize) -> usize {
    if num_tiles >= MAX_TILES_OF_COLOR_IN_CENTER {
        (MAX_TILES_OF_COLOR_IN_CENTER - 1) as usize
    } else {
        num_tiles
    }
}

/// Records that the center holds `num_tiles` tiles of color `tile_color`
/// (counts of 10 and more recorded as 9). Where that changes the recorded
/// count, returns the feature to set and the one to clear.
pub fn set_center_factory_index(
    num_tiles: usize,
    tile_color: usize,
    center_factory_counts: &mut [usize; NUM_TILE_COLORS],
) -> (r: Option<(usize, usize)>)
    requires
        tile_color < NUM_TILE_COLORS,
        old(center_factory_counts)[tile_color as int] * 5 + tile_color <= usize::MAX,
    ensures
        ({
            let shown = center_count_feature(num_tiles);
            &&& old(center_factory_counts)[tile_color as int] == shown ==> r is None && *final(center_factory_counts)
                == *old(center_factory_counts)
            &&& old(center_factory_counts)[tile_color as int] != shown ==> r == Some(
                (
                    (shown * 5 + tile_color) as usize,
                    (old(center_factory_counts)[tile_color as int] * 5 + tile_color) as usize,
                ),
            ) && final(center_factory_counts)@ == old(center_factory_counts)@.update(tile_color as int, shown)
        }),
        r matches Some((set, _)) ==> set < CENTER_FACTORY_ENCODING_SIZE,
{
    let num_tiles: usize = if num_tiles >= MAX_TILES_OF_COLOR_IN_CENTER {
        MAX_TILES_OF_COLOR_IN_CENTER - 1
    } else {
        num_tiles
    };
    let current_count = center_factory_counts[tile_color];
    if current_count != num_tiles {
        let set = num_tiles * NUM_TILE_COLORS + tile_color;
        let unset = current_count * NUM_TILE_COLORS + tile_color;
        center_factory_counts[tile_color] = num_tiles;
        Some((set, unset))
    } else {
        None
    }
}

/// The number of a display's content among the 71 possible contents.
pub fn get_factory_index(factory: &[u8; NUM_TILE_COLORS]) -> (r: usize)
    requires
        factory_is_empty(factory@) || factory_hash_key(factory@) < 100,
    ensures
        r == factory_number(factory@),
{
    hash_factory(factory)
}

/// Whether a display content has a number among the 71.
pub open spec fn numbered(factory: [u8; NUM_TILE_COLORS]) -> bool {
    (factory_is_empty(factory@) || factory_hash_key(factory@) < 100) && factory_number(factory@) < 71
}

/// Counts one more display with this content, and returns its feature: the
/// content's number, in the block of the displays counted before it.
pub fn add_non_center_factory_index(
    factory: &[u8; NUM_TILE_COLORS],
    factory_counts: &mut [usize; NUM_POSSIBLE_FACTORY_PERMUTATIONS],
) -> (r: usize)
    requires
        numbered(*factory),
        old(factory_counts)[factory_number(factory@)] * 71 + 71 <= usize::MAX,
    ensures
        final(factory_counts)@ == old(factory_counts)@.update(
            factory_number(factory@),
            (old(factory_counts)[factory_number(factory@)] + 1) as usize,
        ),
        r == old(factory_counts)[factory_number(factory@)] * 71 + factory_number(factory@),
{
    let factory_index = get_factory_index(factory);
    let count = factory_counts[factory_index];
    factory_counts[factory_index] = count + 1;
    count * NUM_POSSIBLE_FACTORY_PERMUTATIONS + factory_index
}

/// Counts one display with this content less, and returns the feature of the
/// display taken away.
pub fn remove_non_center_factory_index(
    factory: &[u8; NUM_TILE_COLORS],
    factory_counts: &mut [usize; NUM_POSSIBLE_FACTORY_PERMUTATIONS],
) -> (r: usize)
    requires
        numbered(*factory),
        0 < old(factory_counts)[factory_number(factory@)],
        old(factory_counts)[factory_number(factory@)] * 71 <= usize::MAX,
    ensures
        final(factory_counts)@ == old(factory_counts)@.update(
            factory_number(factory@),
            (old(factory_counts)[factory_number(factory@)] - 1) as usize,
        ),
        r == (old(factory_counts)[factory_number(factory@)] - 1) * 71 + factory_number(factory@),
{
    let factory_index = get_factory_index(factory);
    let count = factory_counts[factory_index] - 1;
    factory_counts[factory_index] = count;
    count * NUM_POSSIBLE_FACTORY_PERMUTATIONS + factory_index
}

/// Removing a display right after adding one with the same content gives
/// back the feature that was added and the counts as they were.
pub proof fn lemma_remove_undoes_add(
    factory: [u8; NUM_TILE_COLORS],
    counts: Seq<usize>,
    added: Seq<usize>,
    removed: Seq<usize>,
)
    requires
        numbered(factory),
        counts.len() == 71,
        counts[factory_number(factory@)] * 71 + 71 <= usize::MAX,
        added == counts.update(factory_number(factory@), (counts[factory_number(factory@)] + 1) as usize),
        removed == added.update(factory_number(factory@), (added[factory_number(factory@)] - 1) as usize),
    ensures
        removed == counts,
        (added[factory_number(factory@)] - 1) * 71 + factory_number(factory@) == counts[factory_number(
            factory@,
        )] * 71 + factory_number(factory@),
{
    assert(removed =~= counts);
}

/// The count of each color in the center, as the features show it.
#[derive(Clone)]
pub struct CenterFactoryEncoding {
    pub center_factory_counts: [usize; NUM_TILE_COLORS],
}

/// How many displays show each of the 71 contents.
#[derive(Clone)]
pub struct NonCenterFactoryEncoding {
    pub factory_counts: [usize; NUM_POSSIBLE_FACTORY_PERMUTATIONS],
}

impl CenterFactoryEncoding {
    /// The features of an empty center, and the changes that switch them on.
    pub fn initialize() -> (r: (Self, Vec<InputChange>))
        ensures
            r.0.center_factory_counts@ == seq![0usize, 0usize, 0usize, 0usize, 0usize],
            r.1@ == Seq::new(5, |i: int| InputChange::On(i as usize)),
    {
        let mut changes: Vec<InputChange> = Vec::new();
        let mut i: usize = 0;
        while i < NUM_TILE_COLORS
            invariant
                i <= 5,
                changes@ == Seq::new(i as nat, |j: int| InputChange::On(j as usize)),
            decreases 5 - i,
        {
            changes.push(InputChange::On(i));
            i = i + 1;
            assert(changes@ =~= Seq::new(i as nat, |j: int| InputChange::On(j as usize)));
        }
        let r = CenterFactoryEncoding { center_factory_counts: [0; NUM_TILE_COLORS] };
        assert(r.center_factory_counts@ =~= seq![0usize, 0usize, 0usize, 0usize, 0usize]);
        (r, changes)
    }

    /// Records that the center holds `num_tiles` tiles of color
    /// `tile_color`, and returns the changes of its count feature.
    pub fn set_for_color(&mut self, num_tiles: usize, tile_color: usize) -> (r: Vec<InputChange>)
        requires
            tile_color < NUM_TILE_COLORS,
            old(self).center_factory_counts[tile_color as int] * 5 + tile_color <= usize::MAX,
        ensures
            final(self).center_factory_counts@ == old(self).center_factory_counts@.update(
                tile_color as int,
                center_count_feature(num_tiles),
            ),
            r@ == count_changes(
                old(self).center_factory_counts[tile_color as int],
                center_count_feature(num_tiles),
                tile_color as int,
                0,
            ),
    {
        let mut changes: Vec<InputChange> = Vec::new();
        match set_center_factory_index(num_tiles, tile_color, &mut self.center_factory_counts) {
            Some((set, unset)) => {
                changes.push(InputChange::On(set));
                changes.push(InputChange::Off(unset));
            },
            None => {},
        }
        assert(self.center_factory_counts@ =~= old(self).center_factory_counts@.update(
            tile_color as int,
            center_count_feature(num_tiles),
        ));
        assert(changes@ =~= count_changes(
            old(self).center_factory_counts[tile_color as int],
            center_count_feature(num_tiles),
            tile_color as int,
            0,
        ));
        changes
    }

    /// Records the center, and returns the changes of the count features.
    pub fn set(&mut self, center_factory: &[u8; NUM_TILE_COLORS]) -> (r: Vec<InputChange>)
        requires
            forall|c: int| 0 <= c < 5 ==> #[trigger] old(self).center_factory_counts[c] * 5 + c <= usize::MAX,
        ensures
            forall|c: int| 0 <= c < 5 ==> #[trigger] final(self).center_factory_counts[c] == center_count_feature(
                center_factory[c] as usize,
            ),
            r@ == counts_changes(
                old(self).center_factory_counts@,
                Seq::new(5, |c: int| center_count_feature(center_factory[c] as usize)),
                5,
                0,
            ),
    {
        let ghost counts = Seq::new(5, |c: int| center_count_feature(center_factory[c] as usize));
        let mut changes: Vec<InputChange> = Vec::new();
        let mut color: usize = 0;
        while color < NUM_TILE_COLORS
            invariant
                color <= 5,
                counts == Seq::new(5, |c: int| center_count_feature(center_factory[c] as usize)),
                forall|c: int| 0 <= c < color ==> #[trigger] self.center_factory_counts[c] == center_count_feature(
                    center_factory[c] as usize,
                ),
                forall|c: int| color <= c < 5 ==> #[trigger] self.center_factory_counts[c] == old(
                    self,
                ).center_factory_counts[c],
                forall|c: int| 0 <= c < 5 ==> #[trigger] old(self).center_factory_counts[c] * 5 + c <= usize::MAX,
                changes@ == counts_changes(old(self).center_factory_counts@, counts, color as int, 0),
            decreases 5 - color,
        {
            let mut more = self.set_for_color(center_factory[color] as usize, color);
            changes.append(&mut more);
            color = color + 1;
        }
        changes
    }
}

/// Number of displays below `k` whose content has number `m`.
pub open spec fn content_count(f: [Factory; NUM_FACTORIES], m: int, k: int) -> int
    decreases k,
{
    if k <= 0 {
        0
    } else {
        content_count(f, m, k - 1) + if factory_number(f[k - 1]@) == m {
            1int
        } else {
            0int
        }
    }
}

/// The display counts from which `set_factories` counts the displays anew:
/// all zero after a clearing, else as they were with no empty display.
pub open spec fn cleared_counts(c: Seq<usize>) -> Seq<usize> {
    if c[70] != 5 {
        Seq::new(71, |m: int| 0usize)
    } else {
        c.update(70, 0)
    }
}

/// The inputs switched off when the counts `c` of the contents below `n`
/// are cleared, each content from its highest count down.
pub open spec fn clearing_changes(c: Seq<usize>, n: int) -> Seq<InputChange>
    decreases n,
{
    if n <= 0 {
        Seq::empty()
    } else {
        clearing_changes(c, n - 1) + Seq::new(
            c[n - 1] as nat,
            |t: int| InputChange::Off(((c[n - 1] - 1 - t) * 71 + (n - 1) + NON_CENTER_FACTORY_START) as usize),
        )
    }
}

/// The input of display `k` when the displays are counted from `base`: its
/// content's number, in the block of the displays with that content counted
/// before it.
pub open spec fn display_input(base: Seq<usize>, f: [Factory; NUM_FACTORIES], k: int) -> usize {
    ((base[factory_number(f[k]@)] + content_count(f, factory_number(f[k]@), k)) * 71 + factory_number(f[k]@)
        + NON_CENTER_FACTORY_START) as usize
}

proof fn lemma_content_count_bound(f: [Factory; NUM_FACTORIES], m: int, k: int)
    requires
        0 <= k,
    ensures
        0 <= content_count(f, m, k) <= k,
    decreases k,
{
    if k > 0 {
        lemma_content_count_bound(f, m, k - 1);
    }
}

impl NonCenterFactoryEncoding {
    /// No display counted.
    pub fn initialize() -> (r: Self)
        ensures
            forall|m: int| 0 <= m < 71 ==> #[trigger] r.factory_counts[m] == 0,
    {
        NonCenterFactoryEncoding { factory_counts: [0; NUM_POSSIBLE_FACTORY_PERMUTATIONS] }
    }

    /// Counts the displays of `factories` anew (all six of them, the center
    /// among them), and returns the changes: where the empty display was not
    /// counted five times, the inputs of all counted contents are first
    /// switched off; then the input of each display is switched on.
    #[verifier::rlimit(50)]
    pub fn set_factories(&mut self, factories: &Factories) -> (r: Vec<InputChange>)
        requires
            forall|k: int| 0 <= k < 6 ==> numbered(#[trigger] factories.factories[k]),
            forall|m: int| 0 <= m < 71 ==> #[trigger] old(self).factory_counts[m] < 0x100_0000,
        ensures
            forall|m: int|
                0 <= m < 71 ==> #[trigger] final(self).factory_counts[m] == cleared_counts(old(self).factory_counts@)[m]
                    + content_count(factories.factories, m, 6),
            r@ == (if old(self).factory_counts[70] != 5 {
                clearing_changes(old(self).factory_counts@, 70)
            } else {
                Seq::empty()
            }) + Seq::new(6, |k: int| InputChange::On(display_input(cleared_counts(old(self).factory_counts@), factories.factories, k))),
    {
        let ghost c0 = self.factory_counts@;
        let mut changes: Vec<InputChange> = Vec::new();
        if self.factory_counts[NUM_POSSIBLE_FACTORY_PERMUTATIONS - 1] != NUM_NON_CENTER_FACTORIES {
            let mut fi: usize = 0;
            while fi < NUM_POSSIBLE_FACTORY_PERMUTATIONS - 1
                invariant
                    fi <= 70,
                    c0.len() == 71,
                    forall|m: int| 0 <= m < 71 ==> #[trigger] c0[m] < 0x100_0000,
                    forall|m: int| 0 <= m < fi ==> #[trigger] self.factory_counts[m] == 0,
                    forall|m: int| fi <= m < 70 ==> #[trigger] self.factory_counts[m] == c0[m],
                    self.factory_counts[70] <= c0[70] + fi * 0x100_0000,
                    changes@ == clearing_changes(c0, fi as int),
                decreases 70 - fi,
            {
                let count = self.factory_counts[fi];
                let mut j: usize = 0;
                while j < count
                    invariant
                        fi < 70,
                        j <= count,
                        count == c0[fi as int],
                        c0.len() == 71,
                        forall|m: int| 0 <= m < 71 ==> #[trigger] c0[m] < 0x100_0000,
                        self.factory_counts[fi as int] == count - j,
                        forall|m: int| 0 <= m < fi ==> #[trigger] self.factory_counts[m] == 0,
                        forall|m: int| fi < m < 70 ==> #[trigger] self.factory_counts[m] == c0[m],
                        self.factory_counts[70] <= c0[70] + fi * 0x100_0000 + j,
                        changes@ == clearing_changes(c0, fi as int) + Seq::new(
                            j as nat,
                            |t: int| InputChange::Off(((count - 1 - t) * 71 + fi + NON_CENTER_FACTORY_START) as usize),
                        ),
                    decreases count - j,
                {
                    let c = self.factory_counts[fi] - 1;
                    self.factory_counts[fi] = c;
                    changes.push(InputChange::Off(c * NUM_POSSIBLE_FACTORY_PERMUTATIONS + fi + NON_CENTER_FACTORY_START));
                    self.factory_counts[NUM_POSSIBLE_FACTORY_PERMUTATIONS - 1] = self.factory_counts[NUM_POSSIBLE_FACTORY_PERMUTATIONS - 1] + 1;
                    j = j + 1;
                    assert(changes@ =~= clearing_changes(c0, fi as int) + Seq::new(
                        j as nat,
                        |t: int| InputChange::Off(((count - 1 - t) * 71 + fi + NON_CENTER_FACTORY_START) as usize),
                    ));
                }
                self.factory_counts[fi] = 0;
                fi = fi + 1;
                assert(changes@ =~= clearing_changes(c0, fi as int));
            }
        }
        self.factory_counts[NUM_POSSIBLE_FACTORY_PERMUTATIONS - 1] = 0;
        let ghost base = self.factory_counts@;
        assert(base =~= cleared_counts(c0));
        let ghost prefix = changes@;
        let mut k: usize = 0;
        while k < NUM_FACTORIES
            invariant
                k <= 6,
                base == cleared_counts(c0),
                base.len() == 71,
                forall|m: int| 0 <= m < 71 ==> #[trigger] base[m] < 0x100_0000,
                forall|i: int| 0 <= i < 6 ==> numbered(#[trigger] factories.factories[i]),
                forall|m: int| 0 <= m < 71 ==> #[trigger] self.factory_counts[m] == base[m] + content_count(factories.factories, m, k as int),
                changes@ == prefix + Seq::new(k as nat, |t: int| InputChange::On(display_input(base, factories.factories, t))),
            decreases 6 - k,
        {
            let ghost n = factory_number(factories.factories[k as int]@);
            proof {
                lemma_content_count_bound(factories.factories, n, k as int);
                assert(self.factory_counts[n] == base[n] + content_count(factories.factories, n, k as int));
            }
            let index = add_non_center_factory_index(&factories.factories[k], &mut self.factory_counts);
            changes.push(InputChange::On(index + NON_CENTER_FACTORY_START));
            k = k + 1;
            assert(changes@ =~= prefix + Seq::new(k as nat, |t: int| InputChange::On(display_input(base, factories.factories, t))));
        }
        changes
    }

    /// Takes a display with content `factory` out of the count and counts
    /// an empty display in its place; returns the changes of their inputs.
    pub fn remove_factory(&mut self, factory: &[u8; NUM_TILE_COLORS]) -> (r: Vec<InputChange>)
        requires
            numbered(*factory),
            0 < old(self).factory_counts[factory_number(factory@)],
            old(self).factory_counts[factory_number(factory@)] * 71 + 121 <= usize::MAX,
            old(self).factory_counts[70] * 71 + 121 <= usize::MAX,
        ensures
            ({
                let n = factory_number(factory@);
                let mid = old(self).factory_counts@.update(n, (old(self).factory_counts[n] - 1) as usize);
                &&& final(self).factory_counts@ == mid.update(70, (mid[70] + 1) as usize)
                &&& r@ == seq![
                    InputChange::Off(((old(self).factory_counts[n] - 1) * 71 + n + NON_CENTER_FACTORY_START) as usize),
                    InputChange::On((mid[70] * 71 + 70 + NON_CENTER_FACTORY_START) as usize),
                ]
            }),
    {
        let index_to_remove = remove_non_center_factory_index(factory, &mut self.factory_counts);
        let empty: [u8; NUM_TILE_COLORS] = [0; NUM_TILE_COLORS];
        assert(factory_is_empty(empty@));
        let index_to_add = add_non_center_factory_index(&empty, &mut self.factory_counts);
        let mut changes: Vec<InputChange> = Vec::new();
        changes.push(InputChange::Off(index_to_remove + NON_CENTER_FACTORY_START));
        changes.push(InputChange::On(index_to_add + NON_CENTER_FACTORY_START));
        changes
    }
}

} // verus!
