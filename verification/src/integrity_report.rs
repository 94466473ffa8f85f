//! The integrity check of a game state with its report: what is wrong, in
//! the order the check looks at it.
use vstd::prelude::*;
use crate::factories::total;
use crate::formatting::{display_gamestate, displayable, display_text, names_view};
use crate::game_state::{GameState, GameError, integrity, tile_count, all_tiles, lemma_tile_count_bound};
use crate::notation::fen_text;
use crate::text::{dec, push_decimal};
use crate::tile_color::TileColor;

verus! {

/// The name of a color as `{:?}` writes it.
pub open spec fn color_name(c: TileColor) -> Seq<char> {
    match c {
        TileColor::Blue => "Blue"@,
        TileColor::Yellow => "Yellow"@,
        TileColor::Red => "Red"@,
        TileColor::Black => "Black"@,
        TileColor::White => "White"@,
    }
}

/// The report on the bag colors below `k`: a line for each color with more
/// than 20 tiles in the bag.
pub open spec fn bag_report(s: GameState, k: int) -> Seq<char>
    decreases k,
{
    if k <= 0 {
        Seq::empty()
    } else {
        bag_report(s, k - 1) + if s.bag[k - 1] > 20 {
            "Bag has more than 20 tiles of a color\n"@
        } else {
            Seq::empty()
        }
    }
}

/// The report on the displays below `k`: a line for each display with more
/// than four tiles.
pub open spec fn factory_report(s: GameState, k: int) -> Seq<char>
    decreases k,
{
    if k <= 0 {
        Seq::empty()
    } else {
        factory_report(s, k - 1) + if total(s.factories.factories[k - 1]) > 4 {
            "Factory has "@ + dec(total(s.factories.factories[k - 1]) as nat) + " tiles\n"@
        } else {
            Seq::empty()
        }
    }
}

/// The report on pattern line `l` of player `p`: whether its tiles and its
/// color disagree.
pub open spec fn line_report(s: GameState, p: int, l: int) -> Seq<char> {
    match s.pattern_lines_colors[p][l] {
        None => if s.pattern_lines_occupancy[p][l] != 0 {
            "There are tiles in pattern line "@ + dec(l as nat) + " of player "@ + dec(p as nat)
                + " but they don't have a color\n"@
        } else {
            Seq::empty()
        },
        Some(c) => if s.pattern_lines_occupancy[p][l] == 0 {
            "There are no tiles in pattern line "@ + dec(l as nat) + " of player "@ + dec(p as nat)
                + " but the line has a color Some("@ + color_name(c) + ")\n"@
        } else {
            Seq::empty()
        },
    }
}

/// The report on the first `n` pattern lines, player by player.
pub open spec fn lines_report(s: GameState, n: int) -> Seq<char>
    decreases n,
{
    if n <= 0 {
        Seq::empty()
    } else {
        lines_report(s, n - 1) + line_report(s, (n - 1) / 5, (n - 1) % 5)
    }
}

/// The tile counts of the five colors, as `{:?}` writes an array.
pub open spec fn counts_text(s: GameState) -> Seq<char> {
    "["@ + dec(tile_count(s, 0) as nat) + ", "@ + dec(tile_count(s, 1) as nat) + ", "@ + dec(
        tile_count(s, 2) as nat,
    ) + ", "@ + dec(tile_count(s, 3) as nat) + ", "@ + dec(tile_count(s, 4) as nat) + "]"@
}

/// The report on the total: where the tiles do not add up to 100, the
/// counts, their sum, and the state drawn and in notation.
pub open spec fn sum_report(s: GameState) -> Seq<char> {
    if all_tiles(s) != 100 {
        "The sum of the tiles does not add up to 100. "@ + counts_text(s) + " = "@ + dec(all_tiles(s) as nat)
            + "\n"@ + display_text(s, None) + fen_text(s) + "\n"@
    } else {
        Seq::empty()
    }
}

/// What the integrity check reports of `s`.
pub open spec fn integrity_report(s: GameState) -> Seq<char> {
    bag_report(s, 5) + factory_report(s, 5) + lines_report(s, 10) + sum_report(s)
}

/// Whether the report can be written: the tile counts of each display and
/// of each color, and their sum, fit in a byte, and where the sum is not
/// 100 the state can be drawn and written in notation.
pub open spec fn integrity_reportable(s: GameState) -> bool {
    &&& forall|k: int| 0 <= k < 5 ==> #[trigger] total(s.factories.factories[k]) <= 255
    &&& forall|c: int| 0 <= c < 5 ==> #[trigger] tile_count(s, c) <= 255
    &&& all_tiles(s) <= 255
    &&& all_tiles(s) != 100 ==> displayable(s, None) && s.scores[0] + 1000 <= 32767 && s.scores[1] + 1000 <= 32767
}

fn push_str(s: &mut String, t: &str)
    ensures
        final(s)@ == old(s)@ + t@,
{
    s.append(t);
}

fn push_counts_text(report: &mut String, s: &GameState)
    requires
        forall|c: int| 0 <= c < 5 ==> #[trigger] tile_count(*s, c) <= 255,
    ensures
        final(report)@ == old(report)@ + counts_text(*s),
{
    proof {
        lemma_tile_count_bound(*s, 0);
        lemma_tile_count_bound(*s, 1);
        lemma_tile_count_bound(*s, 2);
        lemma_tile_count_bound(*s, 3);
        lemma_tile_count_bound(*s, 4);
    }
    let ghost start = report@;
    push_str(report, "[");
    push_decimal(report, s.tiles_of_color(0) as u128);
    push_str(report, ", ");
    push_decimal(report, s.tiles_of_color(1) as u128);
    push_str(report, ", ");
    push_decimal(report, s.tiles_of_color(2) as u128);
    push_str(report, ", ");
    push_decimal(report, s.tiles_of_color(3) as u128);
    push_str(report, ", ");
    push_decimal(report, s.tiles_of_color(4) as u128);
    push_str(report, "]");
    assert(report@ =~= start + counts_text(*s));
}

fn push_sum_report(report: &mut String, s: &GameState)
    requires
        integrity_reportable(*s),
        all_tiles(*s) != 100,
    ensures
        final(report)@ == old(report)@ + sum_report(*s),
{
    proof {
        lemma_tile_count_bound(*s, 0);
        lemma_tile_count_bound(*s, 1);
        lemma_tile_count_bound(*s, 2);
        lemma_tile_count_bound(*s, 3);
        lemma_tile_count_bound(*s, 4);
    }
    let ghost start = report@;
    push_str(report, "The sum of the tiles does not add up to 100. ");
    push_counts_text(report, s);
    push_str(report, " = ");
    let sum = s.tiles_of_color(0) + s.tiles_of_color(1) + s.tiles_of_color(2) + s.tiles_of_color(3)
        + s.tiles_of_color(4);
    push_decimal(report, sum as u128);
    push_str(report, "\n");
    let ghost middle = report@;
    assert(middle =~= start + "The sum of the tiles does not add up to 100. "@ + counts_text(*s) + " = "@ + dec(
        all_tiles(*s) as nat,
    ) + "\n"@);
    let drawing = display_gamestate(s, None);
    push_str(report, drawing.as_str());
    let fen = s.to_fen();
    push_str(report, fen.as_str());
    push_str(report, "\n");
    assert(report@ =~= middle + display_text(*s, None) + fen_text(*s) + "\n"@);
}

impl GameState {
    /// Whether `check_integrity` can write its report of this state (see
    /// `integrity_reportable`).
    pub fn integrity_reportable(&self) -> (r: bool)
        ensures
            r == integrity_reportable(*self),
    {
        let mut k: usize = 0;
        while k < 5
            invariant
                k <= 5,
                forall|j: int| 0 <= j < k ==> #[trigger] total(self.factories.factories[j]) <= 255,
            decreases 5 - k,
        {
            let f = self.factories.factories[k];
            if f[0] as u32 + f[1] as u32 + f[2] as u32 + f[3] as u32 + f[4] as u32 > 255 {
                assert(total(self.factories.factories[k as int]) > 255);
                return false;
            }
            k = k + 1;
        }
        let mut sum: u32 = 0;
        let mut c: usize = 0;
        while c < 5
            invariant
                c <= 5,
                forall|d: int| 0 <= d < c ==> #[trigger] tile_count(*self, d) <= 255,
                sum == if c == 0 { 0 } else if c == 1 { tile_count(*self, 0) } else if c == 2 { tile_count(*self, 0)
                    + tile_count(*self, 1) } else if c == 3 { tile_count(*self, 0) + tile_count(*self, 1) + tile_count(
                    *self,
                    2,
                ) } else if c == 4 { tile_count(*self, 0) + tile_count(*self, 1) + tile_count(*self, 2) + tile_count(
                    *self,
                    3,
                ) } else { all_tiles(*self) },
                sum <= 255 * c,
            decreases 5 - c,
        {
            let n = self.tiles_of_color(c);
            if n > 255 {
                return false;
            }
            sum = sum + n;
            c = c + 1;
        }
        if sum > 255 {
            return false;
        }
        if sum != 100 {
            let mut j: usize = 0;
            while j < 5
                invariant
                    j <= 5,
                    all_tiles(*self) != 100,
                    forall|i: int| 0 <= i < j ==> #[trigger] total(self.factories.factories[i]) <= 4,
                decreases 5 - j,
            {
                let f = self.factories.factories[j];
                if f[0] as u32 + f[1] as u32 + f[2] as u32 + f[3] as u32 + f[4] as u32 > 4 {
                    assert(total(self.factories.factories[j as int]) > 4);
                    assert(!crate::formatting::factories_drawable(self.factories.factories));
                    return false;
                }
                j = j + 1;
            }
            let f = self.factories.factories[5];
            if f[0] as u32 + f[1] as u32 + f[2] as u32 + f[3] as u32 + f[4] as u32 > 255 {
                return false;
            }
            let mut p: usize = 0;
            while p < 2
                invariant
                    p <= 2,
                    all_tiles(*self) != 100,
                    forall|q: int, l: int| 0 <= q < p && 0 <= l < 5 ==> #[trigger] self.pattern_lines_occupancy[q][l]
                        <= l + 1,
                decreases 2 - p,
            {
                let mut l: usize = 0;
                while l < 5
                    invariant
                        p < 2,
                        l <= 5,
                        all_tiles(*self) != 100,
                        forall|q: int, m: int| 0 <= q < p && 0 <= m < 5 ==> #[trigger] self.pattern_lines_occupancy[q][m]
                            <= m + 1,
                        forall|m: int| 0 <= m < l ==> #[trigger] self.pattern_lines_occupancy[p as int][m] <= m + 1,
                    decreases 5 - l,
                {
                    if self.pattern_lines_occupancy[p][l] as usize > l + 1 {
                        assert(!crate::formatting::pattern_board_drawable(*self, p as int));
                        return false;
                    }
                    l = l + 1;
                }
                p = p + 1;
            }
            if self.scores[0] > 31767 || self.scores[1] > 31767 {
                return false;
            }
        }
        true
    }

    /// Checks that the state is sound (see `integrity`). Where it is not, the
    /// error reports what is wrong, in this order: each bag color with more
    /// than 20 tiles, each display with more than four tiles, each pattern
    /// line whose tiles and color disagree, and where the tiles do not add
    /// up to 100, the counts of the colors, their sum, and the state drawn
    /// and in notation (see `integrity_report`).
    pub fn check_integrity(&self) -> (r: Result<(), GameError>)
        requires
            integrity_reportable(*self),
        ensures
            r is Ok <==> integrity(*self),
            r matches Err(e) ==> (e matches GameError::InvalidGameState(d) && d@ == integrity_report(*self)),
    {
        if self.passes_integrity_check() {
            return Ok(());
        }
        let mut report = String::new();
        let mut k: usize = 0;
        while k < 5
            invariant
                k <= 5,
                report@ == bag_report(*self, k as int),
            decreases 5 - k,
        {
            let ghost before = report@;
            if self.bag[k] > 20 {
                push_str(&mut report, "Bag has more than 20 tiles of a color\n");
            }
            assert(report@ =~= before + (if self.bag[k as int] > 20 {
                "Bag has more than 20 tiles of a color\n"@
            } else {
                Seq::empty()
            }));
            k = k + 1;
        }
        let ghost after_bag = report@;
        let mut k: usize = 0;
        while k < 5
            invariant
                k <= 5,
                forall|j: int| 0 <= j < 5 ==> #[trigger] total(self.factories.factories[j]) <= 255,
                report@ == after_bag + factory_report(*self, k as int),
            decreases 5 - k,
        {
            let f = self.factories.factories[k];
            let n: u32 = f[0] as u32 + f[1] as u32 + f[2] as u32 + f[3] as u32 + f[4] as u32;
            assert(n == total(self.factories.factories[k as int]));
            let ghost before = report@;
            if n > 4 {
                push_str(&mut report, "Factory has ");
                push_decimal(&mut report, n as u128);
                push_str(&mut report, " tiles\n");
            }
            assert(report@ =~= before + (if total(self.factories.factories[k as int]) > 4 {
                "Factory has "@ + dec(total(self.factories.factories[k as int]) as nat) + " tiles\n"@
            } else {
                Seq::empty()
            }));
            k = k + 1;
        }
        let ghost after_factories = report@;
        let mut n: usize = 0;
        while n < 10
            invariant
                n <= 10,
                report@ == after_factories + lines_report(*self, n as int),
            decreases 10 - n,
        {
            let p = n / 5;
            let l = n % 5;
            let ghost before = report@;
            let occupancy = self.pattern_lines_occupancy[p][l];
            match self.pattern_lines_colors[p][l] {
                None => {
                    if occupancy != 0 {
                        push_str(&mut report, "There are tiles in pattern line ");
                        push_decimal(&mut report, l as u128);
                        push_str(&mut report, " of player ");
                        push_decimal(&mut report, p as u128);
                        push_str(&mut report, " but they don't have a color\n");
                    }
                },
                Some(c) => {
                    if occupancy == 0 {
                        push_str(&mut report, "There are no tiles in pattern line ");
                        push_decimal(&mut report, l as u128);
                        push_str(&mut report, " of player ");
                        push_decimal(&mut report, p as u128);
                        push_str(&mut report, " but the line has a color Some(");
                        match c {
                            TileColor::Blue => push_str(&mut report, "Blue"),
                            TileColor::Yellow => push_str(&mut report, "Yellow"),
                            TileColor::Red => push_str(&mut report, "Red"),
                            TileColor::Black => push_str(&mut report, "Black"),
                            TileColor::White => push_str(&mut report, "White"),
                        }
                        push_str(&mut report, ")\n");
                    }
                },
            }
            assert(report@ =~= before + line_report(*self, p as int, l as int));
            assert(lines_report(*self, (n + 1) as int) == lines_report(*self, n as int) + line_report(
                *self,
                p as int,
                l as int,
            ));
            n = n + 1;
        }
        let ghost after_lines = report@;
        let c0 = self.tiles_of_color(0);
        let c1 = self.tiles_of_color(1);
        let c2 = self.tiles_of_color(2);
        let c3 = self.tiles_of_color(3);
        let c4 = self.tiles_of_color(4);
        if c0 + c1 + c2 + c3 + c4 != 100 {
            push_sum_report(&mut report, self);
        }
        assert(report@ =~= after_lines + sum_report(*self));
        assert(report@ =~= integrity_report(*self));
        Err(GameError::InvalidGameState(report))
    }
}

} // verus!
