//! The game state drawn for a terminal: bag and lid, the factories, each
//! player's pattern lines beside the wall, scores and floor lines.
use vstd::prelude::*;
use crate::factories::{Factories, Factory, NUM_FACTORIES, total};
use crate::game_state::GameState;
use crate::text::{dec, dec_signed, push_decimal, push_signed};
use crate::tile_color::{TileColor, color_display, color_of_index, color_start, color_end, push_char};
use crate::bits::bit;
use crate::game_state::{floor_penalty_at, floor_line_penalty};
use vstd::string::{StringSliceAdditionalSpecFns, StrSliceExecFns};
use vstd::utf8::{encode_utf8, decode_utf8, is_char_boundary, encode_utf8_decode_utf8};

verus! {

/// `n` spaces (none where `n` is not positive).
pub open spec fn spaces(n: int) -> Seq<char> {
    Seq::new(if n < 0 { 0 } else { n as nat }, |i: int| ' ')
}

/// `t` written `n` times.
pub open spec fn repeat(t: Seq<char>, n: nat) -> Seq<char>
    decreases n,
{
    if n == 0 {
        Seq::empty()
    } else {
        repeat(t, (n - 1) as nat) + t
    }
}

/// `t` right-aligned in a field of `w` characters.
pub open spec fn pad_left(t: Seq<char>, w: int) -> Seq<char> {
    spaces(w - t.len()) + t
}

/// `t` left-aligned in a field of `w` characters.
pub open spec fn pad_right(t: Seq<char>, w: int) -> Seq<char> {
    t + spaces(w - t.len())
}

/// Appends `n` spaces.
fn push_spaces(s: &mut String, n: usize)
    ensures
        final(s)@ == old(s)@ + spaces(n as int),
{
    let mut i: usize = 0;
    while i < n
        invariant
            i <= n,
            s@ == old(s)@ + spaces(i as int),
        decreases n - i,
    {
        push_char(s, ' ');
        i = i + 1;
        assert(spaces(i as int) =~= spaces(i - 1) + seq![' ']);
    }
}

/// Appends a string.
pub(crate) fn push_text(s: &mut String, t: &String)
    ensures
        final(s)@ == old(s)@ + t@,
{
    s.append(t.as_str());
}

/// Appends `t` `n` times.
pub(crate) fn push_repeat(s: &mut String, t: &String, n: usize)
    ensures
        final(s)@ == old(s)@ + repeat(t@, n as nat),
{
    let mut i: usize = 0;
    while i < n
        invariant
            i <= n,
            s@ == old(s)@ + repeat(t@, i as nat),
        decreases n - i,
    {
        let ghost before = s@;
        push_text(s, t);
        i = i + 1;
        assert(s@ =~= old(s)@ + repeat(t@, i as nat));
    }
}

/// The entry of color `c` in the line of a bag: the color, its count and a tab.
pub open spec fn bag_entry(bag: [u8; 5], c: int) -> Seq<char> {
    color_display(color_of_index(c)) + seq![' '] + dec(bag[c] as nat) + seq!['\t']
}

/// The entries of the colors below `k`.
pub open spec fn bag_entries(bag: [u8; 5], k: int) -> Seq<char>
    decreases k,
{
    if k <= 0 {
        Seq::empty()
    } else {
        bag_entries(bag, k - 1) + bag_entry(bag, k - 1)
    }
}

/// The line of a bag.
pub open spec fn bag_text(bag: [u8; 5]) -> Seq<char> {
    bag_entries(bag, 5) + seq!['\n']
}

/// The line of a bag: each color with its count.
pub fn bag_to_string(bag: &[u8; 5]) -> (r: String)
    ensures
        r@ == bag_text(*bag),
{
    let mut string = String::new();
    let mut c: usize = 0;
    while c < 5
        invariant
            c <= 5,
            string@ == bag_entries(*bag, c as int),
        decreases 5 - c,
    {
        let ghost before = string@;
        let color = TileColor::from_usize(c);
        push_text(&mut string, &color.to_display_string());
        push_char(&mut string, ' ');
        push_decimal(&mut string, bag[c] as u128);
        push_char(&mut string, '\t');
        assert(string@ =~= before + bag_entry(*bag, c as int));
        c = c + 1;
    }
    push_char(&mut string, '\n');
    string
}


/// The tiles of a factory: each color as often as it lies there, colors in order.
pub open spec fn tiles_text(f: Factory, k: int) -> Seq<char>
    decreases k,
{
    if k <= 0 {
        Seq::empty()
    } else {
        tiles_text(f, k - 1) + repeat(color_display(color_of_index(k - 1)), f[k - 1] as nat)
    }
}

/// The text of factory `i`: its label, its tiles, and for a display a dot
/// for each free place.
pub open spec fn factory_text(f: [Factory; NUM_FACTORIES], i: int) -> Seq<char> {
    if i == 5 {
        seq!['[', 'C', ']', ' '] + tiles_text(f[5], 5)
    } else {
        seq!['['] + dec((i + 1) as nat) + seq![']', ' '] + tiles_text(f[i], 5) + repeat(seq!['.'], (4 - total(f[i])) as nat)
    }
}

/// The width that the factories take before the padding.
pub open spec fn factories_width(f: [Factory; NUM_FACTORIES]) -> int {
    50 + total(f[5])
}

/// The width of the factory line: wide enough for both players' boards.
pub open spec fn factories_line_width(f: [Factory; NUM_FACTORIES]) -> int {
    if factories_width(f) > 66 {
        factories_width(f)
    } else {
        66
    }
}

/// The spaces after each factory.
pub open spec fn factory_gap(f: [Factory; NUM_FACTORIES]) -> int {
    (factories_line_width(f) - factories_width(f)) / 6
}

/// The factories below `k`, each followed by the gap.
pub open spec fn factories_body(f: [Factory; NUM_FACTORIES], k: int) -> Seq<char>
    decreases k,
{
    if k <= 0 {
        Seq::empty()
    } else {
        factories_body(f, k - 1) + factory_text(f, k - 1) + spaces(factory_gap(f))
    }
}

/// The factory line, centered in the width of the boards.
pub open spec fn factories_text(f: [Factory; NUM_FACTORIES]) -> Seq<char> {
    let remaining = factories_line_width(f) - factories_width(f) - factory_gap(f) * 5;
    spaces(remaining / 2) + factories_body(f, 6) + seq!['\n']
}

/// Whether the factories can be drawn: no display holds more than four
/// tiles and no factory more than 255.
pub open spec fn factories_drawable(f: [Factory; NUM_FACTORIES]) -> bool {
    &&& forall|i: int| 0 <= i < 5 ==> #[trigger] total(f[i]) <= 4
    &&& total(f[5]) <= 255
}

fn factory_tile_count(f: &Factory) -> (n: usize)
    ensures
        n == total(*f),
{
    f[0] as usize + f[1] as usize + f[2] as usize + f[3] as usize + f[4] as usize
}

/// Appends the tiles of a factory.
fn push_tiles(s: &mut String, f: &Factory)
    ensures
        final(s)@ == old(s)@ + tiles_text(*f, 5),
{
    let mut c: usize = 0;
    while c < 5
        invariant
            c <= 5,
            s@ == old(s)@ + tiles_text(*f, c as int),
        decreases 5 - c,
    {
        let ghost before = s@;
        let color = TileColor::from_usize(c);
        push_repeat(s, &color.to_display_string(), f[c] as usize);
        c = c + 1;
        assert(s@ =~= old(s)@ + tiles_text(*f, c as int));
    }
}

/// Appends the text of factory `i`.
fn push_factory(s: &mut String, f: &[Factory; NUM_FACTORIES], i: usize)
    requires
        i < 6,
        factories_drawable(*f),
    ensures
        final(s)@ == old(s)@ + factory_text(*f, i as int),
{
    let ghost before = s@;
    if i == 5 {
        push_char(s, '[');
        push_char(s, 'C');
        push_char(s, ']');
        push_char(s, ' ');
        push_tiles(s, &f[5]);
        assert(s@ =~= before + factory_text(*f, i as int));
    } else {
        push_char(s, '[');
        push_decimal(s, (i + 1) as u128);
        push_char(s, ']');
        push_char(s, ' ');
        push_tiles(s, &f[i]);
        let count = factory_tile_count(&f[i]);
        assert(count <= 4);
        let mut dot = String::new();
        push_char(&mut dot, '.');
        push_repeat(s, &dot, 4 - count);
        assert(s@ =~= before + factory_text(*f, i as int));
    }
}

/// The factories in one line: each with its label, its tiles and dots for
/// free places, spread over the width of the players' boards.
pub fn factories_to_string(factories: &Factories) -> (r: String)
    requires
        factories_drawable(factories.factories),
    ensures
        r@ == factories_text(factories.factories),
{
    let f = &factories.factories;
    let total_length: usize = 50 + factory_tile_count(&f[5]);
    let maximum_size: usize = if total_length > 66 { total_length } else { 66 };
    let spaces_between_factories = (maximum_size - total_length) / NUM_FACTORIES;
    let mut string = String::new();
    let mut i: usize = 0;
    while i < NUM_FACTORIES
        invariant
            i <= 6,
            factories_drawable(*f),
            spaces_between_factories == factory_gap(*f),
            spaces_between_factories == (maximum_size - total_length) / 6,
            total_length == factories_width(*f),
            maximum_size == factories_line_width(*f),
            maximum_size >= total_length,
            string@ == factories_body(*f, i as int),
        decreases 6 - i,
    {
        let ghost before = string@;
        push_factory(&mut string, f, i);
        push_spaces(&mut string, spaces_between_factories);
        i = i + 1;
        assert(string@ =~= factories_body(*f, i as int));
    }
    assert(spaces_between_factories * 5 <= maximum_size - total_length) by (nonlinear_arith)
        requires
            spaces_between_factories == (maximum_size - total_length) / 6,
            maximum_size >= total_length,
    ;
    let remaining_space = maximum_size - total_length - spaces_between_factories * (NUM_FACTORIES - 1);
    let leading_spaces = remaining_space / 2;
    let mut r = String::new();
    push_spaces(&mut r, leading_spaces);
    push_text(&mut r, &string);
    push_char(&mut r, '\n');
    r
}


/// The color whose field is column `x` of row `y` of a wall.
pub open spec fn wall_color_at(y: int, x: int) -> TileColor {
    color_of_index((x - y + 5) % 5)
}

/// The color a wall field is drawn in is the color the wall reserves for
/// that field: bit `6 * y + x` of that color's mask is set, and no other
/// color's mask holds it.
pub proof fn lemma_wall_color_at_matches_masks(y: int, x: int)
    requires
        0 <= y < 5,
        0 <= x < 5,
    ensures
        bit(crate::wall::color_mask(crate::tile_color::color_index(wall_color_at(y, x)) as int), 6 * y + x),
        forall|c: int|
            0 <= c < 5 && bit(#[trigger] crate::wall::color_mask(c), 6 * y + x) ==> c
                == crate::tile_color::color_index(wall_color_at(y, x)),
{
    let c0 = (x - y + 5) % 5;
    crate::tile_color::lemma_color_of_index_roundtrip(c0);
    assert forall|c: int| 0 <= c < 5 implies bit(#[trigger] crate::wall::color_mask(c), 6 * y + x) == (c == c0) by {
        let yy = y as u32;
        let cc = c as u32;
        crate::wall::lemma_row_color_field(yy, cc);
        let m = crate::wall::color_mask(c);
        let q = (6 * y + (y + c) % 5) as u32;
        let r = crate::wall::row_mask(y);
        assert(r == (31u32 << ((6 * y) as u32)) as u32);
        let p = (6 * y + x) as u32;
        assert(((r & m) == (1u32 << q) && q < 32 && p < 32 && p / 6 == q / 6 && r == (31u32 << ((p / 6 * 6) as u32))
            && p % 6 < 5) ==> (((m >> p) & 1u32) == 1u32) == (p == q)) by (bit_vector);
        assert(p / 6 == y && q / 6 == y && p % 6 == x);
        assert(((y + c) % 5 == x) == (c == c0));
    }
}

/// A field of a wall: the tile where one stands, else a dot in the field's color.
pub open spec fn wall_cell(w: u32, y: int, x: int) -> Seq<char> {
    let c = wall_color_at(y, x);
    if bit(w, 6 * y + x) {
        color_display(c)
    } else {
        color_start(c) + seq!['.'] + color_end()
    }
}

/// The first `k` fields of row `y`, each followed by a space.
#[verifier::opaque]
pub open spec fn wall_row_cells(w: u32, y: int, k: int) -> Seq<char>
    decreases k,
{
    if k <= 0 {
        Seq::empty()
    } else {
        wall_row_cells(w, y, k - 1) + wall_cell(w, y, k - 1) + seq![' ']
    }
}

/// The first `k` rows of a wall, each on a line of its own.
pub open spec fn wall_rows(w: u32, k: int) -> Seq<char>
    decreases k,
{
    if k <= 0 {
        Seq::empty()
    } else {
        wall_rows(w, k - 1) + wall_row_cells(w, k - 1, 5) + seq!['\n']
    }
}

/// Appends the field in column `x` of row `y`.
fn push_wall_cell(s: &mut String, w: u32, y: usize, x: usize)
    requires
        y < 5,
        x < 5,
    ensures
        final(s)@ == old(s)@ + wall_cell(w, y as int, x as int),
{
    let color = TileColor::from_usize((x + 5 - y) % 5);
    let pos: u32 = (y * 6 + x) as u32;
    let occupied = w & (1u32 << pos) != 0;
    assert(occupied == bit(w, 6 * y + x)) by {
        assert((w & (1u32 << pos) != 0) == ((w >> pos) & 1u32 == 1u32)) by (bit_vector)
            requires
                pos < 32,
        ;
    }
    if occupied {
        push_text(s, &color.to_display_string());
    } else {
        let (start, end) = color.get_color_string();
        let ghost before = s@;
        push_text(s, &start);
        push_char(s, '.');
        push_text(s, &end);
        assert(s@ =~= before + wall_cell(w, y as int, x as int));
    }
}

/// The wall of player `player_index`: five rows of five fields.
pub fn player_wall_to_string(game_state: &GameState, player_index: usize) -> (r: String)
    requires
        player_index < 2,
    ensures
        r@ == wall_rows(game_state.walls[player_index as int], 5),
{
    let w = game_state.walls[player_index];
    let mut string = String::new();
    let mut y: usize = 0;
    while y < 5
        invariant
            y <= 5,
            string@ == wall_rows(w, y as int),
        decreases 5 - y,
    {
        let ghost row_start = string@;
        proof {
            reveal_with_fuel(wall_row_cells, 1);
            assert(row_start + wall_row_cells(w, y as int, 0) =~= row_start);
        }
        let mut x: usize = 0;
        while x < 5
            invariant
                y < 5,
                x <= 5,
                string@ == row_start + wall_row_cells(w, y as int, x as int),
            decreases 5 - x,
        {
            let ghost before = string@;
            push_wall_cell(&mut string, w, y, x);
            push_char(&mut string, ' ');
            x = x + 1;
            reveal_with_fuel(wall_row_cells, 2);
            assert(string@ =~= row_start + wall_row_cells(w, y as int, x as int));
        }
        push_char(&mut string, '\n');
        y = y + 1;
        assert(string@ =~= wall_rows(w, y as int));
    }
    string
}

/// Line `i` of a pattern board: its number in the line's color, indentation,
/// a dot for each free place and the tiles (an `X` where the line has tiles
/// but no color).
#[verifier::opaque]
pub open spec fn pattern_row_text(occ: u8, col: Option<TileColor>, i: int) -> Seq<char> {
    let st = match col {
        Some(c) => color_start(c),
        None => Seq::empty(),
    };
    let en = match col {
        Some(c) => color_end(),
        None => Seq::empty(),
    };
    let cell = match col {
        Some(c) => color_display(c) + seq![' '],
        None => seq!['X', ' '],
    };
    seq![' '] + st + dec((i + 1) as nat) + seq![' '] + spaces((4 - i) * 2) + repeat(seq!['.', ' '], (i + 1 - occ) as nat)
        + repeat(cell, occ as nat) + en + seq![' ']
}

/// The first `k` lines of the pattern board of player `p`.
pub open spec fn pattern_rows(g: GameState, p: int, k: int) -> Seq<char>
    decreases k,
{
    if k <= 0 {
        Seq::empty()
    } else {
        pattern_rows(g, p, k - 1) + pattern_row_text(
            g.pattern_lines_occupancy[p][k - 1],
            g.pattern_lines_colors[p][k - 1],
            k - 1,
        ) + seq!['\n']
    }
}

/// Appends the middle of line `i` of a pattern board: its number, the
/// indentation, the dots for free places and the tiles drawn as `cell`.
fn push_pattern_middle(s: &mut String, occ: u8, i: usize, cell: &String)
    requires
        i < 5,
        occ <= i + 1,
    ensures
        final(s)@ == old(s)@ + dec((i + 1) as nat) + seq![' '] + spaces((4 - i) * 2) + repeat(seq!['.', ' '], (i + 1 - occ) as nat)
            + repeat(cell@, occ as nat),
{
    let ghost before = s@;
    push_decimal(s, (i + 1) as u128);
    push_char(s, ' ');
    push_spaces(s, (4 - i) * 2);
    let mut dot = String::new();
    push_char(&mut dot, '.');
    push_char(&mut dot, ' ');
    assert(dot@ =~= seq!['.', ' ']);
    push_repeat(s, &dot, i + 1 - occ as usize);
    push_repeat(s, cell, occ as usize);
    assert(s@ =~= before + dec((i + 1) as nat) + seq![' '] + spaces((4 - i) * 2) + repeat(seq!['.', ' '], (i + 1 - occ) as nat)
        + repeat(cell@, occ as nat));
}

/// Appends line `i` of a pattern board.
#[verifier::spinoff_prover]
#[verifier::rlimit(40)]
fn push_pattern_row(s: &mut String, occ: u8, col: Option<TileColor>, i: usize)
    requires
        i < 5,
        occ <= i + 1,
    ensures
        final(s)@ == old(s)@ + pattern_row_text(occ, col, i as int),
{
    let ghost before = s@;
    reveal(pattern_row_text);
    match col {
        Some(c) => {
            let (start, end) = c.get_color_string();
            let mut cell = c.to_display_string();
            push_char(&mut cell, ' ');
            assert(cell@ =~= color_display(c) + seq![' ']);
            push_char(s, ' ');
            push_text(s, &start);
            push_pattern_middle(s, occ, i, &cell);
            push_text(s, &end);
            push_char(s, ' ');
            assert(s@ =~= before + pattern_row_text(occ, col, i as int));
        },
        None => {
            let mut cell = String::new();
            push_char(&mut cell, 'X');
            push_char(&mut cell, ' ');
            push_char(s, ' ');
            push_pattern_middle(s, occ, i, &cell);
            push_char(s, ' ');
            assert(cell@ =~= seq!['X', ' ']);
            assert(s@ =~= before + pattern_row_text(occ, col, i as int));
        },
    }
}

/// Whether the pattern lines of player `p` can be drawn: none holds more
/// tiles than it has places.
pub open spec fn pattern_board_drawable(g: GameState, p: int) -> bool {
    forall|i: int| 0 <= i < 5 ==> #[trigger] g.pattern_lines_occupancy[p][i] <= i + 1
}

/// The pattern board of player `player_index`: five lines, right-aligned.
pub fn player_pattern_board_to_string(game_state: &GameState, player_index: usize) -> (r: String)
    requires
        player_index < 2,
        pattern_board_drawable(*game_state, player_index as int),
    ensures
        r@ == pattern_rows(*game_state, player_index as int, 5),
{
    let mut string = String::new();
    let mut i: usize = 0;
    while i < 5
        invariant
            i <= 5,
            player_index < 2,
            pattern_board_drawable(*game_state, player_index as int),
            string@ == pattern_rows(*game_state, player_index as int, i as int),
        decreases 5 - i,
    {
        let ghost before = string@;
        push_pattern_row(
            &mut string,
            game_state.pattern_lines_occupancy[player_index][i],
            game_state.pattern_lines_colors[player_index][i],
            i,
        );
        push_char(&mut string, '\n');
        i = i + 1;
        assert(string@ =~= pattern_rows(*game_state, player_index as int, i as int));
    }
    string
}


/// The blank line between the parts of the boards.
pub open spec fn empty_line() -> Seq<char> {
    seq![' '] + spaces(28) + seq!['|', ' ', ' '] + spaces(27) + seq!['\n']
}

/// The line that frames the boards.
pub open spec fn separator_line() -> Seq<char> {
    repeat(seq!['-'], 29) + seq!['+', '-', '-'] + repeat(seq!['-'], 27) + seq!['\n']
}

/// A player's name as shown: one longer than 23 bytes is cut to its first
/// 22 bytes and an ellipsis.
pub open spec fn shown_name(name: Seq<char>) -> Seq<char> {
    if encode_utf8(name).len() > 23 {
        decode_utf8(encode_utf8(name).subrange(0, 22)) + seq!['…']
    } else {
        name
    }
}

/// The name shown for player `p`: the given name, or `Player p`.
pub open spec fn player_name_text(names: Option<Seq<String>>, p: int) -> Seq<char> {
    match names {
        Some(ns) => shown_name(ns[p]@),
        None => seq!['P', 'l', 'a', 'y', 'e', 'r', ' '] + dec(p as nat),
    }
}

/// The names as a sequence, where there are any.
pub open spec fn names_view(names: Option<&Vec<String>>) -> Option<Seq<String>> {
    match names {
        Some(v) => Some(v@),
        None => None,
    }
}

/// The escape sequence that marks the player to move.
pub open spec fn highlight() -> Seq<char> {
    seq!['\x1b', '[', '3', '0', 'm', '\x1b', '[', '4', '7', 'm']
}

/// The header of player `p`: name and score, highlighted for the player to move.
pub open spec fn header_entry(g: GameState, names: Option<Seq<String>>, p: int) -> Seq<char> {
    (if g.current_player.0 == p { highlight() } else { Seq::empty() }) + pad_right(player_name_text(names, p), 23)
        + seq![' '] + pad_left(dec_signed(g.scores[p] as int), 3) + color_end() + seq![' '] + (if p != 1 {
        seq!['|', ' ', ' ']
    } else {
        Seq::empty()
    })
}

/// Whether the names can be shown: there is one for each player, and a name
/// that must be cut can be cut after its 22nd byte.
pub open spec fn names_showable(names: Option<Seq<String>>) -> bool {
    match names {
        Some(ns) => ns.len() >= 2 && forall|p: int|
            0 <= p < 2 ==> encode_utf8(#[trigger] ns[p]@).len() <= usize::MAX && (encode_utf8(ns[p]@).len() > 23
                ==> is_char_boundary(encode_utf8(ns[p]@), 22)),
        None => true,
    }
}

/// Appends `t` right-aligned in `w` characters.
fn push_padded_left(s: &mut String, t: &String, w: usize)
    ensures
        final(s)@ == old(s)@ + pad_left(t@, w as int),
{
    let n = t.as_str().unicode_len();
    if n < w {
        push_spaces(s, w - n);
    } else {
        push_spaces(s, 0);
    }
    push_text(s, t);
}

/// Appends `t` left-aligned in `w` characters.
fn push_padded_right(s: &mut String, t: &String, w: usize)
    ensures
        final(s)@ == old(s)@ + pad_right(t@, w as int),
{
    let n = t.as_str().unicode_len();
    let ghost before = s@;
    push_text(s, t);
    if n < w {
        push_spaces(s, w - n);
    } else {
        push_spaces(s, 0);
    }
    assert(s@ =~= before + pad_right(t@, w as int));
}

/// The name shown for player `p`.
fn player_name(names: Option<&Vec<String>>, p: usize) -> (r: String)
    requires
        p < 2,
        names_showable(names_view(names)),
    ensures
        r@ == player_name_text(names_view(names), p as int),
{
    match names {
        Some(ns) => {
            let name: &String = &ns[p];
            let text = name.as_str();
            if text.len() > 23 {
                assert(encode_utf8(ns@[p as int]@).len() > 23);
                let (head, _) = text.split_at(22);
                proof {
                    encode_utf8_decode_utf8(head@);
                }
                let mut n = String::from_str(head);
                push_char(&mut n, '…');
                assert(head.spec_bytes() == encode_utf8(ns@[p as int]@).subrange(0, 22));
                assert(head@ == decode_utf8(encode_utf8(ns@[p as int]@).subrange(0, 22)));
                assert(n@ =~= decode_utf8(encode_utf8(ns@[p as int]@).subrange(0, 22)) + seq!['…']);
                n
            } else {
                assert(text@ == ns@[p as int]@);
                String::from_str(text)
            }
        },
        None => {
            let mut n = String::from_str("Player ");
            proof {
                reveal_strlit("Player ");
            }
            push_decimal(&mut n, p as u128);
            n
        },
    }
}


/// The header line: each player's name and score.
pub open spec fn header_text(g: GameState, names: Option<Seq<String>>) -> Seq<char> {
    seq![' '] + header_entry(g, names, 0) + header_entry(g, names, 1) + seq!['\n']
}

/// Line `y` of the boards: each player's pattern line beside the wall row.
pub open spec fn board_line(g: GameState, y: int) -> Seq<char> {
    pattern_row_text(g.pattern_lines_occupancy[0][y], g.pattern_lines_colors[0][y], y) + seq!['-', '>', ' ', ' ']
        + wall_row_cells(g.walls[0], y, 5) + seq![' ', '|', ' '] + pattern_row_text(
        g.pattern_lines_occupancy[1][y],
        g.pattern_lines_colors[1][y],
        y,
    ) + seq!['-', '>', ' ', ' '] + wall_row_cells(g.walls[1], y, 5) + seq!['\n']
}

/// The first `k` lines of the boards.
pub open spec fn board_lines(g: GameState, k: int) -> Seq<char>
    decreases k,
{
    if k <= 0 {
        Seq::empty()
    } else {
        board_lines(g, k - 1) + board_line(g, k - 1)
    }
}

/// The escape sequence that dims a floor place not yet reached.
pub open spec fn dim() -> Seq<char> {
    seq!['\x1b', '[', '0', '2', 'm']
}

/// The escape sequence that marks the first-player token.
pub open spec fn green() -> Seq<char> {
    seq!['\x1b', '[', '3', '2', 'm']
}

/// Place `i` (from 1) of the floor line of player `p` with `progress` tiles:
/// its penalty, dimmed beyond the tiles, green where it holds the token.
pub open spec fn floor_cell(g: GameState, p: int, progress: int, i: int) -> Seq<char> {
    (if i > progress {
        dim()
    } else if i == 1 && g.next_round_starting_player.0 == p && g.tile_taken_from_center {
        green()
    } else {
        Seq::empty()
    }) + pad_left(dec_signed(-(floor_penalty_at(i) - floor_penalty_at(i - 1))), 2) + seq![' '] + color_end()
}

/// Places 1 up to `k` of a floor line.
pub open spec fn floor_cells(g: GameState, p: int, progress: int, k: int) -> Seq<char>
    decreases k,
{
    if k <= 0 {
        Seq::empty()
    } else {
        floor_cells(g, p, progress, k - 1) + floor_cell(g, p, progress, k)
    }
}

/// The floor line of player `p` and its total penalty.
pub open spec fn floor_text(g: GameState, p: int) -> Seq<char> {
    let progress = if g.floor_line_progress[p] > 7 { 7 } else { g.floor_line_progress[p] as int };
    floor_cells(g, p, progress, 7) + seq![' '] + pad_left(dec_signed(-floor_penalty_at(progress)), 5) + (if p != 1 {
        seq![' ', '|', ' ', ' ']
    } else {
        Seq::empty()
    })
}

/// The whole picture of a game state.
pub open spec fn display_text(g: GameState, names: Option<Seq<String>>) -> Seq<char> {
    seq!['B', 'A', 'G', ':', ' '] + bag_text(g.bag) + seq!['O', 'U', 'T', ' ', 'O', 'F', ' ', 'B', 'A', 'G', ':', ' ']
        + bag_text(g.out_of_bag) + seq!['\n'] + factories_text(g.factories.factories) + seq!['\n'] + header_text(
        g,
        names,
    ) + separator_line() + empty_line() + board_lines(g, 5) + empty_line() + separator_line() + seq![' ']
        + floor_text(g, 0) + floor_text(g, 1) + seq!['\n']
}

/// Whether a game state can be drawn.
pub open spec fn displayable(g: GameState, names: Option<Seq<String>>) -> bool {
    &&& factories_drawable(g.factories.factories)
    &&& pattern_board_drawable(g, 0)
    &&& pattern_board_drawable(g, 1)
    &&& names_showable(names)
}

fn push_highlight(s: &mut String)
    ensures
        final(s)@ == old(s)@ + highlight(),
{
    let ghost before = s@;
    push_char(s, '\x1b');
    push_char(s, '[');
    push_char(s, '3');
    push_char(s, '0');
    push_char(s, 'm');
    push_char(s, '\x1b');
    push_char(s, '[');
    push_char(s, '4');
    push_char(s, '7');
    push_char(s, 'm');
    assert(s@ =~= before + highlight());
}

fn push_reset(s: &mut String)
    ensures
        final(s)@ == old(s)@ + color_end(),
{
    let ghost before = s@;
    push_char(s, '\x1b');
    push_char(s, '[');
    push_char(s, '0');
    push_char(s, 'm');
    assert(s@ =~= before + color_end());
}

fn push_bar(s: &mut String)
    ensures
        final(s)@ == old(s)@ + seq!['|', ' ', ' '],
{
    let ghost before = s@;
    push_char(s, '|');
    push_char(s, ' ');
    push_char(s, ' ');
    assert(s@ =~= before + seq!['|', ' ', ' ']);
}

/// Appends the name and score of player `p`.
fn push_name_and_score(s: &mut String, g: &GameState, names: Option<&Vec<String>>, p: usize)
    requires
        p < 2,
        names_showable(names_view(names)),
    ensures
        final(s)@ == old(s)@ + pad_right(player_name_text(names_view(names), p as int), 23) + seq![' '] + pad_left(
            dec_signed(g.scores[p as int] as int),
            3,
        ) + color_end() + seq![' '],
{
    let ghost before = s@;
    let name = player_name(names, p);
    push_padded_right(s, &name, 23);
    push_char(s, ' ');
    let mut score = String::new();
    push_signed(&mut score, g.scores[p] as i64);
    push_padded_left(s, &score, 3);
    push_reset(s);
    push_char(s, ' ');
    assert(s@ =~= before + pad_right(player_name_text(names_view(names), p as int), 23) + seq![' '] + pad_left(
        dec_signed(g.scores[p as int] as int),
        3,
    ) + color_end() + seq![' ']);
}

/// Appends the header entry of player `p`.
fn push_header_entry(s: &mut String, g: &GameState, names: Option<&Vec<String>>, p: usize)
    requires
        p < 2,
        names_showable(names_view(names)),
    ensures
        final(s)@ == old(s)@ + header_entry(*g, names_view(names), p as int),
{
    let ghost before = s@;
    if g.current_player.0 as usize == p {
        push_highlight(s);
    }
    let ghost mid = s@;
    assert(mid =~= before + (if g.current_player.0 == p { highlight() } else { Seq::empty() }));
    push_name_and_score(s, g, names, p);
    let ghost mid2 = s@;
    if p != 1 {
        push_bar(s);
    }
    assert(s@ =~= mid2 + (if p != 1 { seq!['|', ' ', ' '] } else { Seq::empty() }));
    assert(s@ =~= before + header_entry(*g, names_view(names), p as int));
}

/// Appends a player's pattern line `y` and wall row `y`.
fn push_player_board_line(s: &mut String, g: &GameState, p: usize, y: usize)
    requires
        p < 2,
        y < 5,
        pattern_board_drawable(*g, p as int),
    ensures
        final(s)@ == old(s)@ + pattern_row_text(g.pattern_lines_occupancy[p as int][y as int], g.pattern_lines_colors[p as int][y as int], y as int)
            + seq!['-', '>', ' ', ' '] + wall_row_cells(g.walls[p as int], y as int, 5),
{
    let ghost start = s@;
    assert(g.pattern_lines_occupancy[p as int][y as int] <= y + 1);
    push_pattern_row(s, g.pattern_lines_occupancy[p][y], g.pattern_lines_colors[p][y], y);
    push_char(s, '-');
    push_char(s, '>');
    push_char(s, ' ');
    push_char(s, ' ');
    let ghost row_start = s@;
    let w = g.walls[p];
    proof {
        reveal_with_fuel(wall_row_cells, 1);
        assert(row_start + wall_row_cells(w, y as int, 0) =~= row_start);
    }
    let mut x: usize = 0;
    while x < 5
        invariant
            y < 5,
            x <= 5,
            s@ == row_start + wall_row_cells(w, y as int, x as int),
        decreases 5 - x,
    {
        push_wall_cell(s, w, y, x);
        push_char(s, ' ');
        x = x + 1;
        reveal_with_fuel(wall_row_cells, 2);
        assert(s@ =~= row_start + wall_row_cells(w, y as int, x as int));
    }
    assert(s@ =~= start + pattern_row_text(g.pattern_lines_occupancy[p as int][y as int], g.pattern_lines_colors[p as int][y as int], y as int)
        + seq!['-', '>', ' ', ' '] + wall_row_cells(g.walls[p as int], y as int, 5));
}

/// Appends line `y` of the boards.
fn push_board_line(s: &mut String, g: &GameState, y: usize)
    requires
        y < 5,
        pattern_board_drawable(*g, 0),
        pattern_board_drawable(*g, 1),
    ensures
        final(s)@ == old(s)@ + board_line(*g, y as int),
{
    let ghost before = s@;
    push_player_board_line(s, g, 0, y);
    push_char(s, ' ');
    push_char(s, '|');
    push_char(s, ' ');
    push_player_board_line(s, g, 1, y);
    push_char(s, '\n');
    assert(s@ =~= before + board_line(*g, y as int));
}


/// Appends place `i` of the floor line of player `p`.
fn push_floor_cell(s: &mut String, g: &GameState, p: usize, progress: usize, i: usize)
    requires
        1 <= i < 8,
        p < 2,
    ensures
        final(s)@ == old(s)@ + floor_cell(*g, p as int, progress as int, i as int),
{
    let ghost before = s@;
    if i > progress {
        push_char(s, '\x1b');
        push_char(s, '[');
        push_char(s, '0');
        push_char(s, '2');
        push_char(s, 'm');
    } else if i == 1 && g.next_round_starting_player.0 as usize == p && g.tile_taken_from_center {
        push_char(s, '\x1b');
        push_char(s, '[');
        push_char(s, '3');
        push_char(s, '2');
        push_char(s, 'm');
    }
    let ghost mid = s@;
    assert(mid =~= before + (if i > progress {
        dim()
    } else if i == 1 && g.next_round_starting_player.0 == p && g.tile_taken_from_center {
        green()
    } else {
        Seq::empty()
    }));
    let penalty: i64 = floor_line_penalty(i) as i64 - floor_line_penalty(i - 1) as i64;
    let mut t = String::new();
    push_signed(&mut t, -penalty);
    push_padded_left(s, &t, 2);
    push_char(s, ' ');
    push_reset(s);
    assert(s@ =~= before + floor_cell(*g, p as int, progress as int, i as int));
}

/// Appends the floor line of player `p`.
fn push_floor_line(s: &mut String, g: &GameState, p: usize)
    requires
        p < 2,
    ensures
        final(s)@ == old(s)@ + floor_text(*g, p as int),
{
    let ghost before = s@;
    let progress: usize = if g.floor_line_progress[p] > 7 { 7 } else { g.floor_line_progress[p] as usize };
    let mut i: usize = 1;
    while i < 8
        invariant
            1 <= i <= 8,
            p < 2,
            s@ == before + floor_cells(*g, p as int, progress as int, i - 1),
        decreases 8 - i,
    {
        push_floor_cell(s, g, p, progress, i);
        i = i + 1;
        assert(s@ =~= before + floor_cells(*g, p as int, progress as int, i - 1));
    }
    push_char(s, ' ');
    let mut t = String::new();
    push_signed(&mut t, -(floor_line_penalty(progress) as i64));
    push_padded_left(s, &t, 5);
    let ghost mid = s@;
    if p != 1 {
        push_char(s, ' ');
        push_bar(s);
    }
    assert(s@ =~= mid + (if p != 1 { seq![' ', '|', ' ', ' '] } else { Seq::empty() }));
    assert(s@ =~= before + floor_text(*g, p as int));
}

/// Appends `n` copies of `ch`.
fn push_chars_n(s: &mut String, ch: char, n: usize)
    ensures
        final(s)@ == old(s)@ + repeat(seq![ch], n as nat),
{
    let mut t = String::new();
    push_char(&mut t, ch);
    assert(t@ =~= seq![ch]);
    push_repeat(s, &t, n);
}

fn push_empty_line(s: &mut String)
    ensures
        final(s)@ == old(s)@ + empty_line(),
{
    let ghost before = s@;
    push_char(s, ' ');
    push_spaces(s, 28);
    push_bar(s);
    push_spaces(s, 27);
    push_char(s, '\n');
    assert(s@ =~= before + empty_line());
}

fn push_separator_line(s: &mut String)
    ensures
        final(s)@ == old(s)@ + separator_line(),
{
    let ghost before = s@;
    push_chars_n(s, '-', 29);
    push_char(s, '+');
    push_char(s, '-');
    push_char(s, '-');
    push_chars_n(s, '-', 27);
    push_char(s, '\n');
    assert(s@ =~= before + separator_line());
}

fn push_bag_lines(s: &mut String, g: &GameState)
    ensures
        final(s)@ == old(s)@ + seq!['B', 'A', 'G', ':', ' '] + bag_text(g.bag) + seq![
            'O',
            'U',
            'T',
            ' ',
            'O',
            'F',
            ' ',
            'B',
            'A',
            'G',
            ':',
            ' ',
        ] + bag_text(g.out_of_bag) + seq!['\n'],
{
    let ghost before = s@;
    let mut head = String::from_str("BAG: ");
    proof {
        reveal_strlit("BAG: ");
    }
    assert(head@ =~= seq!['B', 'A', 'G', ':', ' ']);
    push_text(s, &head);
    push_text(s, &bag_to_string(&g.bag));
    let mut head2 = String::from_str("OUT OF BAG: ");
    proof {
        reveal_strlit("OUT OF BAG: ");
    }
    assert(head2@ =~= seq!['O', 'U', 'T', ' ', 'O', 'F', ' ', 'B', 'A', 'G', ':', ' ']);
    push_text(s, &head2);
    push_text(s, &bag_to_string(&g.out_of_bag));
    push_char(s, '\n');
    assert(s@ =~= before + seq!['B', 'A', 'G', ':', ' '] + bag_text(g.bag) + seq![
        'O',
        'U',
        'T',
        ' ',
        'O',
        'F',
        ' ',
        'B',
        'A',
        'G',
        ':',
        ' ',
    ] + bag_text(g.out_of_bag) + seq!['\n']);
}

/// The whole game state for a terminal: bag and lid, the factories, a header
/// with each player's name (the given one, or `Player n`) and score, each
/// player's pattern lines beside the wall, and the floor lines.
pub fn display_gamestate(game_state: &GameState, player_names: Option<&Vec<String>>) -> (r: String)
    requires
        displayable(*game_state, names_view(player_names)),
    ensures
        r@ == display_text(*game_state, names_view(player_names)),
{
    let g = game_state;
    let mut string = String::new();
    push_bag_lines(&mut string, g);
    let ghost a = string@;
    push_text(&mut string, &factories_to_string(&g.factories));
    push_char(&mut string, '\n');
    let ghost b = string@;
    push_char(&mut string, ' ');
    push_header_entry(&mut string, g, player_names, 0);
    push_header_entry(&mut string, g, player_names, 1);
    push_char(&mut string, '\n');
    let ghost c = string@;
    assert(c =~= b + header_text(*g, names_view(player_names)));
    push_separator_line(&mut string);
    push_empty_line(&mut string);
    let ghost d = string@;
    let mut y: usize = 0;
    while y < 5
        invariant
            y <= 5,
            displayable(*g, names_view(player_names)),
            string@ == d + board_lines(*g, y as int),
        decreases 5 - y,
    {
        push_board_line(&mut string, g, y);
        y = y + 1;
        assert(string@ =~= d + board_lines(*g, y as int));
    }
    push_empty_line(&mut string);
    push_separator_line(&mut string);
    push_char(&mut string, ' ');
    let ghost e = string@;
    push_floor_line(&mut string, g, 0);
    push_floor_line(&mut string, g, 1);
    push_char(&mut string, '\n');
    assert(string@ =~= display_text(*g, names_view(player_names)));
    string
}


impl GameState {
    /// Whether the state can be drawn: no display holds more than four
    /// tiles, the center at most 255, and no pattern line more tiles than it
    /// has places.
    pub fn is_drawable(&self) -> (r: bool)
        ensures
            r == (factories_drawable(self.factories.factories) && pattern_board_drawable(*self, 0)
                && pattern_board_drawable(*self, 1)),
    {
        let mut k: usize = 0;
        while k < 5
            invariant
                k <= 5,
                forall|i: int| 0 <= i < k ==> #[trigger] total(self.factories.factories[i]) <= 4,
            decreases 5 - k,
        {
            if factory_tile_count(&self.factories.factories[k]) > 4 {
                return false;
            }
            k = k + 1;
        }
        if factory_tile_count(&self.factories.factories[5]) > 255 {
            return false;
        }
        let mut p: usize = 0;
        while p < 2
            invariant
                p <= 2,
                forall|q: int, l: int| 0 <= q < p && 0 <= l < 5 ==> #[trigger] self.pattern_lines_occupancy[q][l] <= l + 1,
            decreases 2 - p,
        {
            let mut l: usize = 0;
            while l < 5
                invariant
                    p < 2,
                    l <= 5,
                    forall|q: int, m: int| 0 <= q < p && 0 <= m < 5 ==> #[trigger] self.pattern_lines_occupancy[q][m] <= m + 1,
                    forall|m: int| 0 <= m < l ==> #[trigger] self.pattern_lines_occupancy[p as int][m] <= m + 1,
                decreases 5 - l,
            {
                if self.pattern_lines_occupancy[p][l] as usize > l + 1 {
                    return false;
                }
                l = l + 1;
            }
            p = p + 1;
        }
        true
    }
}

} // verus!
