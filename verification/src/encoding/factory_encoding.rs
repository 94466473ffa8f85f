//! The first feature layout of the factories: displays by content and
//! count, then each color's count in the center.
use vstd::prelude::*;
use crate::factories::{hash_factory, factory_number, NUM_POSSIBLE_FACTORY_PERMUTATIONS};
use crate::tile_color::NUM_TILE_COLORS;
use crate::encoding::factories::numbered;
use crate::encoding::features::InputChange;

verus! {

/// The largest count of a color in the center that has a feature.
pub const MAX_TILES_OF_COLOR_IN_CENTER: usize = 15;

/// Number of display features.
pub const NON_CENTER_FACTORY_ENCODING_SIZE: usize = 355;

/// Number of center features.
pub const CENTER_FACTORY_ENCODING_SIZE: usize = 75;

/// Number of factory features.
pub const FACTORY_ENCODING_SIZE: usize = 430;

/// The feature for `num_tiles` tiles of color `tile_color` in the center.
pub fn get_center_factory_index(num_tiles: usize, tile_color: usize) -> (r: usize)
    requires
        NON_CENTER_FACTORY_ENCODING_SIZE + tile_color * MAX_TILES_OF_COLOR_IN_CENTER + num_tiles <= usize::MAX,
    ensures
        r == NON_CENTER_FACTORY_ENCODING_SIZE + tile_color * MAX_TILES_OF_COLOR_IN_CENTER + num_tiles,
{
    NON_CENTER_FACTORY_ENCODING_SIZE + tile_color * MAX_TILES_OF_COLOR_IN_CENTER + num_tiles
}

/// Counts one more display with content `factory`, and returns the changes
/// of its feature: the feature of the old count off (where there was one),
/// that of the new count on.
pub fn add_non_center_factory_encoding(
    factory: &[u8; NUM_TILE_COLORS],
    multi_factory_counter: &mut [usize; NUM_POSSIBLE_FACTORY_PERMUTATIONS],
) -> (r: Vec<InputChange>)
    requires
        numbered(*factory),
        old(multi_factory_counter)[factory_number(factory@)] < 0x1000_0000,
    ensures
        ({
            let n = factory_number(factory@);
            let c = old(multi_factory_counter)[n];
            &&& final(multi_factory_counter)@ == old(multi_factory_counter)@.update(n, (c + 1) as usize)
            &&& r@ == (if c != 0 {
                seq![InputChange::Off((n * 5 + c - 1) as usize)]
            } else {
                Seq::empty()
            }) + seq![InputChange::On((n * 5 + c) as usize)]
        }),
{
    let factory_hash = hash_factory(factory);
    let old_count = multi_factory_counter[factory_hash];
    let new_count = old_count + 1;
    multi_factory_counter[factory_hash] = new_count;
    let mut changes: Vec<InputChange> = Vec::new();
    if old_count != 0 {
        changes.push(InputChange::Off(factory_hash * NUM_TILE_COLORS + old_count - 1));
    }
    changes.push(InputChange::On(factory_hash * NUM_TILE_COLORS + new_count - 1));
    changes
}

/// Counts one display with content `factory` less, and returns the changes
/// of its feature: the feature of the old count is switched on, and that of
/// the new count, where there is one, off.
pub fn remove_non_center_factory_encoding(
    factory: &[u8; NUM_TILE_COLORS],
    multi_factory_counter: &mut [usize; NUM_POSSIBLE_FACTORY_PERMUTATIONS],
) -> (r: Vec<InputChange>)
    requires
        numbered(*factory),
        0 < old(multi_factory_counter)[factory_number(factory@)] < 0x1000_0000,
    ensures
        ({
            let n = factory_number(factory@);
            let c = old(multi_factory_counter)[n];
            &&& final(multi_factory_counter)@ == old(multi_factory_counter)@.update(n, (c - 1) as usize)
            &&& r@ == seq![InputChange::On((n * 5 + c - 1) as usize)] + (if c - 1 != 0 {
                seq![InputChange::Off((n * 5 + c - 2) as usize)]
            } else {
                Seq::empty()
            })
        }),
{
    let factory_hash = hash_factory(factory);
    let old_count = multi_factory_counter[factory_hash];
    let new_count = old_count - 1;
    multi_factory_counter[factory_hash] = new_count;
    let mut changes: Vec<InputChange> = Vec::new();
    changes.push(InputChange::On(factory_hash * NUM_TILE_COLORS + old_count - 1));
    if new_count != 0 {
        changes.push(InputChange::Off(factory_hash * NUM_TILE_COLORS + new_count - 1));
    }
    changes
}

/// The change that switches on the feature of `num_tiles` tiles of color
/// `tile_color` in the center.
pub fn add_center_factory_encoding(num_tiles: usize, tile_color: usize) -> (r: InputChange)
    requires
        NON_CENTER_FACTORY_ENCODING_SIZE + tile_color * MAX_TILES_OF_COLOR_IN_CENTER + num_tiles <= usize::MAX,
    ensures
        r == InputChange::On(
            (NON_CENTER_FACTORY_ENCODING_SIZE + tile_color * MAX_TILES_OF_COLOR_IN_CENTER + num_tiles) as usize,
        ),
{
    InputChange::On(get_center_factory_index(num_tiles, tile_color))
}

/// The change that switches off the feature of `num_tiles` tiles of color
/// `tile_color` in the center.
pub fn remove_center_factory_encoding(num_tiles: usize, tile_color: usize) -> (r: InputChange)
    requires
        NON_CENTER_FACTORY_ENCODING_SIZE + tile_color * MAX_TILES_OF_COLOR_IN_CENTER + num_tiles <= usize::MAX,
    ensures
        r == InputChange::Off(
            (NON_CENTER_FACTORY_ENCODING_SIZE + tile_color * MAX_TILES_OF_COLOR_IN_CENTER + num_tiles) as usize,
        ),
{
    InputChange::Off(get_center_factory_index(num_tiles, tile_color))
}

} // verus!
