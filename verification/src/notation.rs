//! The text notation of a game state: twelve numbers separated by `_`, some
//! of them lists separated by `-`, from which the state can be read back.
use vstd::prelude::*;
use vstd::string::StringSliceAdditionalSpecFns;
use vstd::utf8::{is_ascii_chars, encode_utf8, is_ascii_chars_encode_utf8};
use crate::game_state::GameState;
use crate::factories::{Factories, Factory, NUM_FACTORIES};
use crate::player::PlayerMarker;
use crate::tile_color::{TileColor, color_index, color_of_index, push_char};
use crate::text::{dec, push_decimal, ascii, free_of, split_bytes, range_pieces, split_ranges,
    parse_uint, parse_uint_exec, lemma_parse_dec, lemma_split_append, lemma_split_single,
    lemma_ascii_concat, lemma_split_nonempty};

verus! {

/// The separator of the entries of the notation.
pub const ENTRY_SEPARATOR: u8 = 95;

/// The separator of the items of a list entry.
pub const ITEM_SEPARATOR: u8 = 45;

// ---------------------------------------------------------------------------
// Writing

/// The pieces `ps` with `sep` between each two.
pub open spec fn join(ps: Seq<Seq<char>>, sep: char) -> Seq<char>
    decreases ps.len(),
{
    if ps.len() == 0 {
        Seq::empty()
    } else if ps.len() == 1 {
        ps[0]
    } else {
        join(ps.drop_last(), sep) + seq![sep] + ps.last()
    }
}

/// Joining one more piece adds a separator and the piece.
pub proof fn lemma_join_take(ps: Seq<Seq<char>>, k: int, sep: char)
    requires
        0 <= k < ps.len(),
    ensures
        join(ps.take(k + 1), sep) == if k == 0 { ps[0] } else { join(ps.take(k), sep) + seq![sep] + ps[k] },
{
    assert(ps.take(k + 1).drop_last() =~= ps.take(k));
    if k == 0 {
        assert(ps.take(1).len() == 1);
    }
}

/// Five counts packed into one number, eight bits each, the first lowest.
pub open spec fn pack_bytes(b: [u8; 5]) -> u64 {
    (b[0] as u64) | ((b[1] as u64) << 8u64) | ((b[2] as u64) << 16u64) | ((b[3] as u64) << 24u64) | ((
    b[4] as u64) << 32u64)
}

/// The counts of a display packed into one number, four bits each.
pub open spec fn pack_nibbles(b: [u8; 5]) -> u128 {
    (b[0] as u128) | ((b[1] as u128) << 4u128) | ((b[2] as u128) << 8u128) | ((b[3] as u128) << 12u128)
        | ((b[4] as u128) << 16u128)
}

/// The number that stands for the color of a pattern line: the color's
/// number, or 255 for none.
pub open spec fn color_code(c: Option<TileColor>) -> u8 {
    match c {
        Some(t) => color_index(t) as u8,
        None => 255u8,
    }
}

/// The colors of five pattern lines as numbers.
pub open spec fn color_codes(c: [Option<TileColor>; 5]) -> [u8; 5] {
    [color_code(c[0]), color_code(c[1]), color_code(c[2]), color_code(c[3]), color_code(c[4])]
}

/// The two scores packed into one number: sixteen bits each, offset by 1000.
pub open spec fn pack_scores(s: [i16; 2]) -> u64 {
    (((s[0] + 1000) as i16) as u64) | ((((s[1] + 1000) as i16) as u64) << 16u64)
}

/// The two floor lines packed into one number, eight bits each.
pub open spec fn pack_floor(f: [u8; 2]) -> u64 {
    (f[0] as u64) | ((f[1] as u64) << 8u64)
}

/// The twelve entries of the notation of `s`.
#[verifier::opaque]
pub open spec fn fen_entries(s: GameState) -> Seq<Seq<char>> {
    seq![
        dec(2),
        dec(s.current_player.0 as nat),
        dec(s.next_round_starting_player.0 as nat),
        dec(pack_bytes(s.bag) as nat),
        dec(pack_bytes(s.out_of_bag) as nat),
        join(factory_texts(s.factories.factories), '-'),
        dec(pack_scores(s.scores) as nat),
        dec(pack_floor(s.floor_line_progress) as nat),
        join(seq![dec(s.walls[0] as nat), dec(s.walls[1] as nat)], '-'),
        join(
            seq![
                dec(pack_bytes(s.pattern_lines_occupancy[0]) as nat),
                dec(pack_bytes(s.pattern_lines_occupancy[1]) as nat),
            ],
            '-',
        ),
        join(
            seq![
                dec(pack_bytes(color_codes(s.pattern_lines_colors[0])) as nat),
                dec(pack_bytes(color_codes(s.pattern_lines_colors[1])) as nat),
            ],
            '-',
        ),
        dec(if s.tile_taken_from_center { 1 } else { 0 }),
    ]
}

/// The notation of `s`.
pub open spec fn fen_text(s: GameState) -> Seq<char> {
    join(fen_entries(s), '_')
}

fn pack_bytes_exec(b: &[u8; 5]) -> (v: u64)
    ensures
        v == pack_bytes(*b),
{
    (b[0] as u64) | ((b[1] as u64) << 8u64) | ((b[2] as u64) << 16u64) | ((b[3] as u64) << 24u64) | ((
    b[4] as u64) << 32u64)
}

fn pack_nibbles_exec(b: &[u8; 5]) -> (v: u128)
    ensures
        v == pack_nibbles(*b),
{
    (b[0] as u128) | ((b[1] as u128) << 4u128) | ((b[2] as u128) << 8u128) | ((b[3] as u128) << 12u128)
        | ((b[4] as u128) << 16u128)
}

fn color_codes_exec(c: &[Option<TileColor>; 5]) -> (r: [u8; 5])
    ensures
        r == color_codes(*c),
{
    let mut r: [u8; 5] = [255u8; 5];
    let mut l: usize = 0;
    while l < 5
        invariant
            l <= 5,
            forall|m: int| 0 <= m < l ==> #[trigger] r[m] == color_code(c[m]),
        decreases 5 - l,
    {
        r[l] = match c[l] {
            Some(t) => t.to_u8(),
            None => 255u8,
        };
        l = l + 1;
    }
    assert(r =~= color_codes(*c));
    r
}

/// Appends a separator and the decimal digits of `n`.
fn push_separated(r: &mut String, sep: char, n: u128)
    ensures
        final(r)@ == old(r)@ + seq![sep] + dec(n as nat),
{
    let ghost before = r@;
    push_char(r, sep);
    push_decimal(r, n);
    assert(r@ =~= before + seq![sep] + dec(n as nat));
}

/// Appends the texts of the displays, separated by `-`.
fn push_factories(r: &mut String, f: &[Factory; NUM_FACTORIES])
    ensures
        final(r)@ == old(r)@ + join(factory_texts(*f), '-'),
{
    let ghost head = r@;
    let ghost fs = factory_texts(*f);
    push_decimal(r, pack_nibbles_exec(&f[0]));
    proof {
        lemma_join_take(fs, 0, '-');
        assert(r@ =~= head + join(fs.take(1), '-'));
    }
    let mut k: usize = 1;
    while k < 5
        invariant
            1 <= k <= 5,
            fs == factory_texts(*f),
            r@ == head + join(fs.take(k as int), '-'),
        decreases 5 - k,
    {
        let ghost prev = r@;
        push_separated(r, '-', pack_nibbles_exec(&f[k]));
        proof {
            lemma_join_take(fs, k as int, '-');
            assert(fs[k as int] == dec(pack_nibbles(f[k as int]) as nat));
            assert(r@ =~= head + join(fs.take(k + 1), '-'));
        }
        k = k + 1;
    }
    push_separated(r, '-', pack_bytes_exec(&f[5]) as u128);
    proof {
        lemma_join_take(fs, 5, '-');
        assert(fs.take(6) =~= fs);
        assert(r@ =~= head + join(fs, '-'));
    }
}

/// Appends two numbers separated by `-`.
fn push_pair(r: &mut String, a: u128, b: u128)
    ensures
        final(r)@ == old(r)@ + join(seq![dec(a as nat), dec(b as nat)], '-'),
{
    let ghost head = r@;
    push_decimal(r, a);
    push_separated(r, '-', b);
    proof {
        lemma_join_pair(dec(a as nat), dec(b as nat), '-');
        assert(r@ =~= head + join(seq![dec(a as nat), dec(b as nat)], '-'));
    }
}

proof fn lemma_join_extend(e: Seq<Seq<char>>, k: int, sep: char, prev: Seq<char>, piece: Seq<char>)
    requires
        1 <= k < e.len(),
        prev == join(e.take(k), sep),
        piece == e[k],
    ensures
        prev + seq![sep] + piece == join(e.take(k + 1), sep),
{
    lemma_join_take(e, k, sep);
}

impl GameState {
    /// The notation of the state.
    pub fn to_fen(&self) -> (r: String)
        requires
            self.scores[0] + 1000 <= 32767,
            self.scores[1] + 1000 <= 32767,
        ensures
            r@ == fen_text(*self),
    {
        let ghost e = fen_entries(*self);
        proof {
            lemma_fen_entries(*self);
        }
        let mut r = String::new();
        push_decimal(&mut r, 2);
        proof {
            lemma_join_take(e, 0, '_');
            assert(r@ =~= join(e.take(1), '_'));
        }
        let ghost p = r@;
        push_separated(&mut r, '_', self.current_player.to_u8() as u128);
        proof { lemma_join_extend(e, 1, '_', p, dec(self.current_player.0 as nat)); }
        let ghost p = r@;
        push_separated(&mut r, '_', self.next_round_starting_player.to_u8() as u128);
        proof { lemma_join_extend(e, 2, '_', p, dec(self.next_round_starting_player.0 as nat)); }
        let ghost p = r@;
        push_separated(&mut r, '_', pack_bytes_exec(&self.bag) as u128);
        proof { lemma_join_extend(e, 3, '_', p, e[3]); }
        let ghost p = r@;
        push_separated(&mut r, '_', pack_bytes_exec(&self.out_of_bag) as u128);
        proof { lemma_join_extend(e, 4, '_', p, e[4]); }
        let ghost p = r@;
        push_char(&mut r, '_');
        push_factories(&mut r, &self.factories.factories);
        proof {
            assert(r@ =~= p + seq!['_'] + e[5]);
            lemma_join_extend(e, 5, '_', p, e[5]);
        }
        let s0: u64 = (self.scores[0] + 1000) as u64;
        let s1: u64 = (self.scores[1] + 1000) as u64;
        let ghost p = r@;
        push_separated(&mut r, '_', (s0 | (s1 << 16u64)) as u128);
        proof { lemma_join_extend(e, 6, '_', p, e[6]); }
        let f: u64 = (self.floor_line_progress[0] as u64) | ((self.floor_line_progress[1] as u64) << 8u64);
        let ghost p = r@;
        push_separated(&mut r, '_', f as u128);
        proof { lemma_join_extend(e, 7, '_', p, e[7]); }
        let ghost p = r@;
        push_char(&mut r, '_');
        push_pair(&mut r, self.walls[0] as u128, self.walls[1] as u128);
        proof {
            assert(r@ =~= p + seq!['_'] + e[8]);
            lemma_join_extend(e, 8, '_', p, e[8]);
        }
        let ghost p = r@;
        push_char(&mut r, '_');
        push_pair(&mut r, pack_bytes_exec(&self.pattern_lines_occupancy[0]) as u128, pack_bytes_exec(&self.pattern_lines_occupancy[1]) as u128);
        proof {
            assert(r@ =~= p + seq!['_'] + e[9]);
            lemma_join_extend(e, 9, '_', p, e[9]);
        }
        let c0 = color_codes_exec(&self.pattern_lines_colors[0]);
        let c1 = color_codes_exec(&self.pattern_lines_colors[1]);
        let ghost p = r@;
        push_char(&mut r, '_');
        push_pair(&mut r, pack_bytes_exec(&c0) as u128, pack_bytes_exec(&c1) as u128);
        proof {
            assert(r@ =~= p + seq!['_'] + e[10]);
            lemma_join_extend(e, 10, '_', p, e[10]);
        }
        let ghost p = r@;
        push_separated(&mut r, '_', if self.tile_taken_from_center { 1 } else { 0 });
        proof {
            lemma_join_extend(e, 11, '_', p, e[11]);
            assert(e.take(12) =~= e);
        }
        r
    }
}

proof fn lemma_fen_entries(s: GameState)
    ensures
        fen_entries(s).len() == 12,
        fen_entries(s)[0] == dec(2),
        fen_entries(s)[1] == dec(s.current_player.0 as nat),
        fen_entries(s)[2] == dec(s.next_round_starting_player.0 as nat),
        fen_entries(s)[3] == dec(pack_bytes(s.bag) as nat),
        fen_entries(s)[4] == dec(pack_bytes(s.out_of_bag) as nat),
        fen_entries(s)[5] == join(factory_texts(s.factories.factories), '-'),
        fen_entries(s)[6] == dec(pack_scores(s.scores) as nat),
        fen_entries(s)[7] == dec(pack_floor(s.floor_line_progress) as nat),
        fen_entries(s)[8] == join(seq![dec(s.walls[0] as nat), dec(s.walls[1] as nat)], '-'),
        fen_entries(s)[9] == join(
            seq![
                dec(pack_bytes(s.pattern_lines_occupancy[0]) as nat),
                dec(pack_bytes(s.pattern_lines_occupancy[1]) as nat),
            ],
            '-',
        ),
        fen_entries(s)[10] == join(
            seq![
                dec(pack_bytes(color_codes(s.pattern_lines_colors[0])) as nat),
                dec(pack_bytes(color_codes(s.pattern_lines_colors[1])) as nat),
            ],
            '-',
        ),
        fen_entries(s)[11] == dec(if s.tile_taken_from_center { 1 } else { 0 }),
{
    reveal(fen_entries);
}

/// The texts of the six displays, the center last.
pub open spec fn factory_texts(f: [Factory; NUM_FACTORIES]) -> Seq<Seq<char>> {
    seq![
        dec(pack_nibbles(f[0]) as nat),
        dec(pack_nibbles(f[1]) as nat),
        dec(pack_nibbles(f[2]) as nat),
        dec(pack_nibbles(f[3]) as nat),
        dec(pack_nibbles(f[4]) as nat),
        dec(pack_bytes(f[5]) as nat),
    ]
}

proof fn lemma_join_pair(a: Seq<char>, b: Seq<char>, sep: char)
    ensures
        join(seq![a, b], sep) == a + seq![sep] + b,
{
    assert(seq![a, b].drop_last() =~= seq![a]);
    reveal_with_fuel(join, 2);
}


// ---------------------------------------------------------------------------
// Reading

/// The five bytes of a number, the lowest first.
pub open spec fn unpack_bytes(v: u64) -> [u8; 5] {
    [
        (v & 0xffu64) as u8,
        ((v >> 8u64) & 0xffu64) as u8,
        ((v >> 16u64) & 0xffu64) as u8,
        ((v >> 24u64) & 0xffu64) as u8,
        ((v >> 32u64) & 0xffu64) as u8,
    ]
}

/// The five lowest groups of four bits of a number, the lowest first.
pub open spec fn unpack_nibbles(v: u128) -> [u8; 5] {
    [
        (v & 0xfu128) as u8,
        ((v >> 4u128) & 0xfu128) as u8,
        ((v >> 8u128) & 0xfu128) as u8,
        ((v >> 12u128) & 0xfu128) as u8,
        ((v >> 16u128) & 0xfu128) as u8,
    ]
}

/// The color that a number stands for: none for 255, else the color with
/// that number (the number must be below 5).
pub open spec fn code_color(b: u8) -> Option<TileColor> {
    if b == 255 {
        None
    } else {
        Some(color_of_index(b as int))
    }
}

/// The colors of five pattern lines packed into one number.
pub open spec fn unpack_colors(v: u64) -> [Option<TileColor>; 5] {
    let b = unpack_bytes(v);
    [code_color(b[0]), code_color(b[1]), code_color(b[2]), code_color(b[3]), code_color(b[4])]
}

/// Whether a byte names neither a color nor the empty line.
pub open spec fn bad_code(b: u8) -> bool {
    5 <= b < 255
}

/// Whether one of the five bytes of `v` names no color.
pub open spec fn bad_codes(v: u64) -> bool {
    let b = unpack_bytes(v);
    bad_code(b[0]) || bad_code(b[1]) || bad_code(b[2]) || bad_code(b[3]) || bad_code(b[4])
}

/// The score in the sixteen bits of `v` from bit `shift` on, before the
/// offset of 1000 is taken off.
pub open spec fn score_bits(v: u64, shift: u64) -> i16 {
    ((v >> shift) & 0xffffu64) as i16
}

/// Whether taking the offset off both scores stays within `i16`.
pub open spec fn scores_fit(v: u64) -> bool {
    score_bits(v, 0) - 1000 >= -32768 && score_bits(v, 16) - 1000 >= -32768
}

/// The two scores packed into `v`.
pub open spec fn unpack_scores(v: u64) -> [i16; 2] {
    [(score_bits(v, 0) - 1000) as i16, (score_bits(v, 16) - 1000) as i16]
}

/// The number that piece `i` of `ps` reads as, 0 where there is no such
/// piece or it does not read.
pub open spec fn piece_value(ps: Seq<Seq<u8>>, i: int, max: int) -> nat {
    if 0 <= i < ps.len() {
        match parse_uint(ps[i], max) {
            Some(v) => v,
            None => 0,
        }
    } else {
        0
    }
}

/// How reading the per-player pieces of a list entry goes from piece `p` on:
/// 0 when all pieces read, 1 when a piece does not read as a number, 2 when
/// reading fails on a third piece or on a color number that names no color.
pub open spec fn list_scan(ps: Seq<Seq<u8>>, max: int, colors: bool, p: int) -> int
    decreases 2 - p,
{
    if p >= ps.len() {
        0
    } else if parse_uint(ps[p], max) is None {
        1
    } else if p >= 2 {
        2
    } else if colors && bad_codes(parse_uint(ps[p], max)->0 as u64) {
        2
    } else {
        list_scan(ps, max, colors, p + 1)
    }
}

proof fn lemma_list_scan_range(ps: Seq<Seq<u8>>, max: int, colors: bool, p: int)
    ensures
        0 <= list_scan(ps, max, colors, p) <= 2,
    decreases 2 - p,
{
    if p < ps.len() && parse_uint(ps[p], max) is Some && p < 2 && !(colors && bad_codes(parse_uint(ps[p], max)->0 as u64)) {
        lemma_list_scan_range(ps, max, colors, p + 1);
    }
}

/// Where the scan of a list finds nothing wrong, each of its pieces (at
/// most two) reads, and no color number is bad.
proof fn lemma_list_scan_ok(ps: Seq<Seq<u8>>, max: int, colors: bool, p: int)
    requires
        list_scan(ps, max, colors, 0) == 0,
        0 <= p < ps.len(),
    ensures
        p < 2,
        parse_uint(ps[p], max) is Some,
        colors ==> !bad_codes(parse_uint(ps[p], max)->0 as u64),
{
    reveal_with_fuel(list_scan, 3);
}

/// The counts of display `k` read from the factories entry.
pub open spec fn display_read(ps: Seq<Seq<u8>>, k: int) -> [u8; 5] {
    if k < ps.len() {
        unpack_nibbles(piece_value(ps, k, u128::MAX as int) as u128)
    } else {
        [0u8, 0u8, 0u8, 0u8, 0u8]
    }
}

/// What reading the factories entry gives: the six factories, or an error.
pub open spec fn factories_read(t: Seq<u8>) -> Result<[Factory; NUM_FACTORIES], Seq<char>> {
    let ps = split_bytes(t, ITEM_SEPARATOR);
    if exists|k: int| 0 <= k < 5 && k < ps.len() && #[trigger] parse_uint(ps[k], u128::MAX as int) is None {
        Err("Invalid factory"@)
    } else if ps.len() < 6 {
        Err("No center factory"@)
    } else if parse_uint(ps[5], u64::MAX as int) is None {
        Err("Invalid factory"@)
    } else {
        Ok(
            [
                display_read(ps, 0),
                display_read(ps, 1),
                display_read(ps, 2),
                display_read(ps, 3),
                display_read(ps, 4),
                unpack_bytes(piece_value(ps, 5, u64::MAX as int) as u64),
            ],
        )
    }
}

/// Reads the factories entry `bytes[lo..hi]`.
fn read_factories(bytes: &[u8], lo: usize, hi: usize) -> (r: Result<[Factory; NUM_FACTORIES], String>)
    requires
        lo <= hi <= bytes@.len(),
    ensures
        match (r, factories_read(bytes@.subrange(lo as int, hi as int))) {
            (Ok(f), Ok(g)) => f == g,
            (Err(e), Err(m)) => e@ == m,
            _ => false,
        },
{
    let ghost ps = split_bytes(bytes@.subrange(lo as int, hi as int), ITEM_SEPARATOR);
    let ranges = split_ranges(bytes, lo, hi, ITEM_SEPARATOR);
    assert(range_pieces(bytes@, ranges@) == ps);
    let mut f: [Factory; NUM_FACTORIES] = [[0u8; 5]; NUM_FACTORIES];
    let mut k: usize = 0;
    while k < 5 && k < ranges.len()
        invariant
            k <= 5,
            k <= ranges@.len(),
            ps == range_pieces(bytes@, ranges@),
            ps == split_bytes(bytes@.subrange(lo as int, hi as int), ITEM_SEPARATOR),
            forall|j: int| 0 <= j < ranges@.len() ==> lo <= (#[trigger] ranges@[j]).0 <= ranges@[j].1 <= hi,
            hi <= bytes@.len(),
            forall|j: int| 0 <= j < k ==> #[trigger] parse_uint(ps[j], u128::MAX as int) is Some,
            forall|j: int| 0 <= j < k ==> #[trigger] f[j] == display_read(ps, j),
            forall|j: int, c: int| k <= j < 6 && 0 <= c < 5 ==> #[trigger] f[j][c] == 0,
        decreases 5 - k,
    {
        let (a, b) = ranges[k];
        assert(ps[k as int] == bytes@.subrange(a as int, b as int));
        let v = match parse_uint_exec(bytes, a, b, u128::MAX) {
            Some(v) => v,
            None => {
                assert(parse_uint(ps[k as int], u128::MAX as int) is None);
                assert(k < ps.len());
                assert(exists|j: int| 0 <= j < 5 && j < ps.len() && #[trigger] parse_uint(ps[j], u128::MAX as int) is None);
                return Err(String::from_str("Invalid factory"));
            },
        };
        f[k] = [
            (v & 0xf) as u8,
            ((v >> 4u128) & 0xf) as u8,
            ((v >> 8u128) & 0xf) as u8,
            ((v >> 12u128) & 0xf) as u8,
            ((v >> 16u128) & 0xf) as u8,
        ];
        assert(f[k as int] =~= display_read(ps, k as int));
        k = k + 1;
    }
    assert(!exists|j: int| 0 <= j < 5 && j < ps.len() && #[trigger] parse_uint(ps[j], u128::MAX as int) is None);
    if ranges.len() < 6 {
        return Err(String::from_str("No center factory"));
    }
    let (a, b) = ranges[5];
    assert(ps[5] == bytes@.subrange(a as int, b as int));
    let v = match parse_uint_exec(bytes, a, b, u64::MAX as u128) {
        Some(v) => v as u64,
        None => {
            return Err(String::from_str("Invalid factory"));
        },
    };
    f[5] = [
        (v & 0xff) as u8,
        ((v >> 8u64) & 0xff) as u8,
        ((v >> 16u64) & 0xff) as u8,
        ((v >> 24u64) & 0xff) as u8,
        ((v >> 32u64) & 0xff) as u8,
    ];
    proof {
        assert forall|j: int| 0 <= j < 5 implies #[trigger] f[j] == display_read(ps, j) by {}
        assert(f[5] =~= unpack_bytes(piece_value(ps, 5, u64::MAX as int) as u64));
        assert(f =~= factories_read(bytes@.subrange(lo as int, hi as int))->Ok_0);
    }
    Ok(f)
}

/// Reads the two per-player numbers of the list entry `bytes[lo..hi]`, none
/// larger than `max`; `None` where a piece does not read.
fn read_words(bytes: &[u8], lo: usize, hi: usize, max: u128, colors: bool) -> (r: Option<[u128; 2]>)
    requires
        lo <= hi <= bytes@.len(),
        max <= u64::MAX,
        list_scan(split_bytes(bytes@.subrange(lo as int, hi as int), ITEM_SEPARATOR), max as int, colors, 0) != 2,
    ensures
        r is Some <==> list_scan(split_bytes(bytes@.subrange(lo as int, hi as int), ITEM_SEPARATOR), max as int, colors, 0) == 0,
        r matches Some(w) ==> w[0] == piece_value(split_bytes(bytes@.subrange(lo as int, hi as int), ITEM_SEPARATOR), 0, max as int)
            && w[1] == piece_value(split_bytes(bytes@.subrange(lo as int, hi as int), ITEM_SEPARATOR), 1, max as int),
{
    let ghost ps = split_bytes(bytes@.subrange(lo as int, hi as int), ITEM_SEPARATOR);
    let ranges = split_ranges(bytes, lo, hi, ITEM_SEPARATOR);
    let mut w: [u128; 2] = [0u128; 2];
    let mut k: usize = 0;
    while k < ranges.len()
        invariant
            k <= 2,
            k <= ranges@.len(),
            max <= u64::MAX,
            ps == range_pieces(bytes@, ranges@),
            ps == split_bytes(bytes@.subrange(lo as int, hi as int), ITEM_SEPARATOR),
            forall|j: int| 0 <= j < ranges@.len() ==> lo <= (#[trigger] ranges@[j]).0 <= ranges@[j].1 <= hi,
            hi <= bytes@.len(),
            list_scan(ps, max as int, colors, 0) == list_scan(ps, max as int, colors, k as int),
            list_scan(ps, max as int, colors, 0) != 2,
            forall|j: int| 0 <= j < k ==> #[trigger] w[j] == piece_value(ps, j, max as int),
            forall|j: int| k <= j < 2 ==> #[trigger] w[j] == 0,
        decreases ranges@.len() - k,
    {
        let (a, b) = ranges[k];
        assert(ps[k as int] == bytes@.subrange(a as int, b as int));
        let v = match parse_uint_exec(bytes, a, b, max) {
            Some(v) => v,
            None => {
                assert(parse_uint(ps[k as int], max as int) is None);
                assert(k < ps.len());
                assert(list_scan(ps, max as int, colors, k as int) == 1);
                return None;
            },
        };
        if k >= 2 {
            // A third piece that reads makes the scan report a crash, which
            // the precondition rules out.
            proof {
                assert(false);
            }
            return None;
        }
        if colors && has_bad_code(v as u64) {
            proof {
                assert(false);
            }
            return None;
        }
        w[k] = v;
        k = k + 1;
    }
    proof {
        assert(list_scan(ps, max as int, colors, k as int) == 0);
        assert forall|j: int| 0 <= j < 2 implies #[trigger] w[j] == piece_value(ps, j, max as int) by {}
    }
    Some(w)
}

/// Whether one of the five bytes of `v` names no color.
fn has_bad_code(v: u64) -> (r: bool)
    ensures
        r == bad_codes(v),
{
    let b0 = (v & 0xff) as u8;
    let b1 = ((v >> 8u64) & 0xff) as u8;
    let b2 = ((v >> 16u64) & 0xff) as u8;
    let b3 = ((v >> 24u64) & 0xff) as u8;
    let b4 = ((v >> 32u64) & 0xff) as u8;
    (5 <= b0 && b0 < 255) || (5 <= b1 && b1 < 255) || (5 <= b2 && b2 < 255) || (5 <= b3 && b3 < 255) || (
    5 <= b4 && b4 < 255)
}


/// The message for a notation written for another number of players.
pub open spec fn player_count_message(n: nat) -> Seq<char> {
    "Number of players in string ("@ + dec(n) + ") does not match number of players in game ("@ + dec(2)
        + ")"@
}

/// The number that entry `i` of `e` reads as.
pub open spec fn entry_value(e: Seq<Seq<u8>>, i: int, max: int) -> nat {
    piece_value(e, i, max)
}

/// The colors of player `p`'s pattern lines read from the pieces `ps`.
pub open spec fn colors_read(ps: Seq<Seq<u8>>, p: int) -> [Option<TileColor>; 5] {
    if p < ps.len() {
        unpack_colors(piece_value(ps, p, u64::MAX as int) as u64)
    } else {
        [None, None, None, None, None]
    }
}

/// The state that a well-formed notation with entries `e` stands for.
pub open spec fn fen_state(e: Seq<Seq<u8>>) -> GameState {
    let f = split_bytes(e[5], ITEM_SEPARATOR);
    let w = split_bytes(e[8], ITEM_SEPARATOR);
    let o = split_bytes(e[9], ITEM_SEPARATOR);
    let c = split_bytes(e[10], ITEM_SEPARATOR);
    let floor = entry_value(e, 7, u64::MAX as int) as u64;
    GameState {
        bag: unpack_bytes(entry_value(e, 3, u64::MAX as int) as u64),
        out_of_bag: unpack_bytes(entry_value(e, 4, u64::MAX as int) as u64),
        factories: Factories { factories: factories_read(e[5])->Ok_0 },
        scores: unpack_scores(entry_value(e, 6, u64::MAX as int) as u64),
        floor_line_progress: [(floor & 0xffu64) as u8, ((floor >> 8u64) & 0xffu64) as u8],
        walls: [piece_value(w, 0, u32::MAX as int) as u32, piece_value(w, 1, u32::MAX as int) as u32],
        pattern_lines_occupancy: [
            unpack_bytes(piece_value(o, 0, u64::MAX as int) as u64),
            unpack_bytes(piece_value(o, 1, u64::MAX as int) as u64),
        ],
        pattern_lines_colors: [colors_read(c, 0), colors_read(c, 1)],
        current_player: PlayerMarker(entry_value(e, 1, 255) as u8),
        next_round_starting_player: PlayerMarker(entry_value(e, 2, 255) as u8),
        tile_taken_from_center: entry_value(e, 11, 255) == 1,
    }
}

/// What reading the notation `b` gives: the state, or the message of the
/// first thing found wrong; `None` where reading would crash (a third piece
/// in a per-player list, a color number that names no color, or a score
/// below the range of `i16`).
pub open spec fn fen_read(b: Seq<u8>) -> Option<Result<GameState, Seq<char>>> {
    let e = split_bytes(b, ENTRY_SEPARATOR);
    let u8max = 255int;
    let u64max = u64::MAX as int;
    if parse_uint(e[0], u8max) is None {
        Some(Err("Invalid number of players"@))
    } else if parse_uint(e[0], u8max)->0 != 2 {
        Some(Err(player_count_message(parse_uint(e[0], u8max)->0)))
    } else if e.len() < 2 {
        Some(Err("No current player"@))
    } else if parse_uint(e[1], u8max) is None {
        Some(Err("Invalid current player"@))
    } else if e.len() < 3 {
        Some(Err("No next round starting player"@))
    } else if parse_uint(e[2], u8max) is None {
        Some(Err("Invalid next round starting player"@))
    } else if e.len() < 4 {
        Some(Err("No bag"@))
    } else if parse_uint(e[3], u64max) is None {
        Some(Err("Invalid bag"@))
    } else if e.len() < 5 {
        Some(Err("No out of bag"@))
    } else if parse_uint(e[4], u64max) is None {
        Some(Err("Invalid out of bag"@))
    } else if e.len() < 6 {
        Some(Err("No factories"@))
    } else if factories_read(e[5]) is Err {
        Some(Err(factories_read(e[5])->Err_0))
    } else if e.len() < 7 {
        Some(Err("No scores"@))
    } else if parse_uint(e[6], u64max) is None {
        Some(Err("Invalid scores"@))
    } else if !scores_fit(parse_uint(e[6], u64max)->0 as u64) {
        None
    } else if e.len() < 8 {
        Some(Err("No floor line progress"@))
    } else if parse_uint(e[7], u64max) is None {
        Some(Err("Invalid floor line progress"@))
    } else if e.len() < 9 {
        Some(Err("No walls"@))
    } else if list_scan(split_bytes(e[8], ITEM_SEPARATOR), u32::MAX as int, false, 0) == 1 {
        Some(Err("Invalid wall"@))
    } else if list_scan(split_bytes(e[8], ITEM_SEPARATOR), u32::MAX as int, false, 0) == 2 {
        None
    } else if e.len() < 10 {
        Some(Err("No pattern lines"@))
    } else if list_scan(split_bytes(e[9], ITEM_SEPARATOR), u64max, false, 0) == 1 {
        Some(Err("Invalid pattern"@))
    } else if list_scan(split_bytes(e[9], ITEM_SEPARATOR), u64max, false, 0) == 2 {
        None
    } else if e.len() < 11 {
        Some(Err("No pattern lines colors"@))
    } else if list_scan(split_bytes(e[10], ITEM_SEPARATOR), u64max, true, 0) == 1 {
        Some(Err("Invalid player"@))
    } else if list_scan(split_bytes(e[10], ITEM_SEPARATOR), u64max, true, 0) == 2 {
        None
    } else if e.len() < 12 {
        Some(Err("No tile taken from center"@))
    } else if parse_uint(e[11], u8max) is None {
        Some(Err("Invalid tile taken from center"@))
    } else {
        Some(Ok(fen_state(e)))
    }
}

/// Reads the entry `ranges[i]` of `bytes` as a number no larger than `max`.
fn read_entry(bytes: &[u8], ranges: &Vec<(usize, usize)>, i: usize, max: u128) -> (r: Option<u128>)
    requires
        i < ranges@.len(),
        ranges@[i as int].0 <= ranges@[i as int].1 <= bytes@.len(),
    ensures
        r == (match parse_uint(range_pieces(bytes@, ranges@)[i as int], max as int) {
            Some(v) => Some(v as u128),
            None => None,
        }),
{
    let (a, b) = ranges[i];
    parse_uint_exec(bytes, a, b, max)
}

/// Unpacks the colors of five pattern lines; no byte may name a missing color.
fn unpack_colors_exec(v: u64) -> (r: [Option<TileColor>; 5])
    requires
        !bad_codes(v),
    ensures
        r == unpack_colors(v),
{
    let mut r: [Option<TileColor>; 5] = [None; 5];
    let mut l: usize = 0;
    while l < 5
        invariant
            l <= 5,
            !bad_codes(v),
            forall|m: int| 0 <= m < l ==> #[trigger] r[m] == code_color(unpack_bytes(v)[m]),
        decreases 5 - l,
    {
        let b: u8 = ((v >> (8 * l as u64)) & 0xff) as u8;
        assert(b == unpack_bytes(v)[l as int]) by {
            assert(l == 0 ==> 8 * l as u64 == 0u64);
            assert(v >> 0u64 == v) by (bit_vector);
        }
        r[l] = if b == 255 {
            None
        } else {
            Some(TileColor::from_u8(b))
        };
        l = l + 1;
    }
    assert(r =~= unpack_colors(v));
    r
}

impl GameState {
    /// Reads a state from its notation. An error message says what was
    /// found wrong first.
    #[verifier::rlimit(100)]
    pub fn from_fen(string: &str) -> (r: Result<GameState, String>)
        requires
            fen_read(string.spec_bytes()) is Some,
        ensures
            match (r, fen_read(string.spec_bytes())->0) {
                (Ok(s), Ok(t)) => s == t,
                (Err(e), Err(m)) => e@ == m,
                _ => false,
            },
    {
        let bytes = string.as_bytes();
        let e = split_ranges(bytes, 0, bytes.len(), ENTRY_SEPARATOR);
        let ghost es = split_bytes(bytes@, ENTRY_SEPARATOR);
        proof {
            assert(bytes@.subrange(0, bytes@.len() as int) =~= bytes@);
            lemma_split_nonempty(bytes@, ENTRY_SEPARATOR);
        }
        let number_of_players = match read_entry(bytes, &e, 0, 255) {
            Some(v) => v,
            None => {
                return Err(String::from_str("Invalid number of players"));
            },
        };
        if number_of_players != 2 {
            let mut m = String::from_str("Number of players in string (");
            push_decimal(&mut m, number_of_players);
            m.append(") does not match number of players in game (");
            push_decimal(&mut m, 2);
            m.append(")");
            return Err(m);
        }
        if e.len() < 2 {
            return Err(String::from_str("No current player"));
        }
        let current_player = match read_entry(bytes, &e, 1, 255) {
            Some(v) => PlayerMarker::new(v as u8),
            None => {
                return Err(String::from_str("Invalid current player"));
            },
        };
        if e.len() < 3 {
            return Err(String::from_str("No next round starting player"));
        }
        let next_round_starting_player = match read_entry(bytes, &e, 2, 255) {
            Some(v) => PlayerMarker::new(v as u8),
            None => {
                return Err(String::from_str("Invalid next round starting player"));
            },
        };
        if e.len() < 4 {
            return Err(String::from_str("No bag"));
        }
        let bag_binary: u64 = match read_entry(bytes, &e, 3, u64::MAX as u128) {
            Some(v) => v as u64,
            None => {
                return Err(String::from_str("Invalid bag"));
            },
        };
        if e.len() < 5 {
            return Err(String::from_str("No out of bag"));
        }
        let out_of_bag_binary: u64 = match read_entry(bytes, &e, 4, u64::MAX as u128) {
            Some(v) => v as u64,
            None => {
                return Err(String::from_str("Invalid out of bag"));
            },
        };
        if e.len() < 6 {
            return Err(String::from_str("No factories"));
        }
        let (a5, b5) = e[5];
        assert(es[5] == bytes@.subrange(a5 as int, b5 as int));
        let factories = match read_factories(bytes, a5, b5) {
            Ok(f) => f,
            Err(m) => {
                return Err(m);
            },
        };
        if e.len() < 7 {
            return Err(String::from_str("No scores"));
        }
        let scores_binary: u64 = match read_entry(bytes, &e, 6, u64::MAX as u128) {
            Some(v) => v as u64,
            None => {
                return Err(String::from_str("Invalid scores"));
            },
        };
        let raw0: i16 = (scores_binary & 0xffff) as i16;
        let raw1: i16 = ((scores_binary >> 16u64) & 0xffff) as i16;
        assert(raw0 == score_bits(scores_binary, 0)) by {
            assert(scores_binary >> 0u64 == scores_binary) by (bit_vector);
        }
        let scores: [i16; 2] = [raw0 - 1000, raw1 - 1000];
        if e.len() < 8 {
            return Err(String::from_str("No floor line progress"));
        }
        let floor_binary: u64 = match read_entry(bytes, &e, 7, u64::MAX as u128) {
            Some(v) => v as u64,
            None => {
                return Err(String::from_str("Invalid floor line progress"));
            },
        };
        if e.len() < 9 {
            return Err(String::from_str("No walls"));
        }
        let (a8, b8) = e[8];
        assert(es[8] == bytes@.subrange(a8 as int, b8 as int));
        proof {
            lemma_list_scan_range(split_bytes(es[8], ITEM_SEPARATOR), u32::MAX as int, false, 0);
        }
        let walls = match read_words(bytes, a8, b8, u32::MAX as u128, false) {
            Some(w) => [w[0] as u32, w[1] as u32],
            None => {
                return Err(String::from_str("Invalid wall"));
            },
        };
        if e.len() < 10 {
            return Err(String::from_str("No pattern lines"));
        }
        let (a9, b9) = e[9];
        assert(es[9] == bytes@.subrange(a9 as int, b9 as int));
        proof {
            lemma_list_scan_range(split_bytes(es[9], ITEM_SEPARATOR), u64::MAX as int, false, 0);
        }
        let occupancy = match read_words(bytes, a9, b9, u64::MAX as u128, false) {
            Some(w) => w,
            None => {
                return Err(String::from_str("Invalid pattern"));
            },
        };
        if e.len() < 11 {
            return Err(String::from_str("No pattern lines colors"));
        }
        let (a10, b10) = e[10];
        assert(es[10] == bytes@.subrange(a10 as int, b10 as int));
        proof {
            lemma_list_scan_range(split_bytes(es[10], ITEM_SEPARATOR), u64::MAX as int, true, 0);
        }
        let colors = match read_words(bytes, a10, b10, u64::MAX as u128, true) {
            Some(w) => w,
            None => {
                return Err(String::from_str("Invalid player"));
            },
        };
        if e.len() < 12 {
            return Err(String::from_str("No tile taken from center"));
        }
        let tile_taken_from_center = match read_entry(bytes, &e, 11, 255) {
            Some(v) => v == 1,
            None => {
                return Err(String::from_str("Invalid tile taken from center"));
            },
        };
        let ghost cps = split_bytes(es[10], ITEM_SEPARATOR);
        let n_colors = count_pieces(bytes, a10, b10);
        let colors0 = if 0 < n_colors {
            proof {
                lemma_list_scan_ok(cps, u64::MAX as int, true, 0);
            }
            unpack_colors_exec(colors[0] as u64)
        } else {
            [None; 5]
        };
        let colors1 = if 1 < n_colors {
            proof {
                lemma_list_scan_ok(cps, u64::MAX as int, true, 1);
            }
            unpack_colors_exec(colors[1] as u64)
        } else {
            [None; 5]
        };
        let s = GameState {
            bag: unpack_bytes_exec(bag_binary),
            out_of_bag: unpack_bytes_exec(out_of_bag_binary),
            factories: Factories { factories },
            scores,
            floor_line_progress: [(floor_binary & 0xff) as u8, ((floor_binary >> 8u64) & 0xff) as u8],
            walls,
            pattern_lines_occupancy: [unpack_bytes_exec(occupancy[0] as u64), unpack_bytes_exec(occupancy[1] as u64)],
            pattern_lines_colors: [colors0, colors1],
            current_player,
            next_round_starting_player,
            tile_taken_from_center,
        };
        proof {
            let t = fen_state(es);
            assert(s.bag == t.bag);
            assert(s.out_of_bag == t.out_of_bag);
            assert(s.factories == t.factories);
            assert(s.scores =~= t.scores);
            assert(s.floor_line_progress =~= t.floor_line_progress);
            assert(s.walls =~= t.walls);
            assert(s.pattern_lines_occupancy =~= t.pattern_lines_occupancy);
            assert(s.pattern_lines_colors[0] == t.pattern_lines_colors[0]);
            assert(s.pattern_lines_colors[1] == t.pattern_lines_colors[1]);
            assert(s.pattern_lines_colors =~= t.pattern_lines_colors);
            assert(s == t);
        }
        Ok(s)
    }
}

/// The number of pieces between `-` in `bytes[lo..hi]`.
fn count_pieces(bytes: &[u8], lo: usize, hi: usize) -> (n: usize)
    requires
        lo <= hi <= bytes@.len(),
    ensures
        n == split_bytes(bytes@.subrange(lo as int, hi as int), ITEM_SEPARATOR).len(),
{
    split_ranges(bytes, lo, hi, ITEM_SEPARATOR).len()
}

fn unpack_bytes_exec(v: u64) -> (r: [u8; 5])
    ensures
        r == unpack_bytes(v),
{
    [
        (v & 0xff) as u8,
        ((v >> 8u64) & 0xff) as u8,
        ((v >> 16u64) & 0xff) as u8,
        ((v >> 24u64) & 0xff) as u8,
        ((v >> 32u64) & 0xff) as u8,
    ]
}


// ---------------------------------------------------------------------------
// Reading back what was written

/// Whether the notation can hold the state: each display has fewer than 16
/// tiles of a color and each score lies in `-1000..=31767`.
pub open spec fn fen_representable(s: GameState) -> bool {
    &&& forall|k: int, c: int| 0 <= k < 5 && 0 <= c < 5 ==> #[trigger] s.factories.factories[k][c] < 16
    &&& forall|p: int| 0 <= p < 2 ==> -1000 <= #[trigger] s.scores[p] <= 31767
}

proof fn lemma_bytes_roundtrip(b0: u64, b1: u64, b2: u64, b3: u64, b4: u64)
    by (bit_vector)
    requires
        b0 < 256,
        b1 < 256,
        b2 < 256,
        b3 < 256,
        b4 < 256,
    ensures
        ((b0 | (b1 << 8u64) | (b2 << 16u64) | (b3 << 24u64) | (b4 << 32u64)) & 0xffu64) == b0,
        (((b0 | (b1 << 8u64) | (b2 << 16u64) | (b3 << 24u64) | (b4 << 32u64)) >> 8u64) & 0xffu64) == b1,
        (((b0 | (b1 << 8u64) | (b2 << 16u64) | (b3 << 24u64) | (b4 << 32u64)) >> 16u64) & 0xffu64) == b2,
        (((b0 | (b1 << 8u64) | (b2 << 16u64) | (b3 << 24u64) | (b4 << 32u64)) >> 24u64) & 0xffu64) == b3,
        (((b0 | (b1 << 8u64) | (b2 << 16u64) | (b3 << 24u64) | (b4 << 32u64)) >> 32u64) & 0xffu64) == b4,
{
}

proof fn lemma_nibbles_roundtrip(b0: u128, b1: u128, b2: u128, b3: u128, b4: u128)
    by (bit_vector)
    requires
        b0 < 16,
        b1 < 16,
        b2 < 16,
        b3 < 16,
        b4 < 16,
    ensures
        ((b0 | (b1 << 4u128) | (b2 << 8u128) | (b3 << 12u128) | (b4 << 16u128)) & 0xfu128) == b0,
        (((b0 | (b1 << 4u128) | (b2 << 8u128) | (b3 << 12u128) | (b4 << 16u128)) >> 4u128) & 0xfu128) == b1,
        (((b0 | (b1 << 4u128) | (b2 << 8u128) | (b3 << 12u128) | (b4 << 16u128)) >> 8u128) & 0xfu128) == b2,
        (((b0 | (b1 << 4u128) | (b2 << 8u128) | (b3 << 12u128) | (b4 << 16u128)) >> 12u128) & 0xfu128) == b3,
        (((b0 | (b1 << 4u128) | (b2 << 8u128) | (b3 << 12u128) | (b4 << 16u128)) >> 16u128) & 0xfu128) == b4,
{
}

proof fn lemma_pair_roundtrip(x0: u64, x1: u64)
    by (bit_vector)
    requires
        x0 < 32768,
        x1 < 32768,
    ensures
        ((x0 | (x1 << 16u64)) >> 0u64) & 0xffffu64 == x0,
        ((x0 | (x1 << 16u64)) >> 16u64) & 0xffffu64 == x1,
{
}

proof fn lemma_floor_roundtrip(b0: u64, b1: u64)
    by (bit_vector)
    requires
        b0 < 256,
        b1 < 256,
    ensures
        (b0 | (b1 << 8u64)) & 0xffu64 == b0,
        ((b0 | (b1 << 8u64)) >> 8u64) & 0xffu64 == b1,
{
}

proof fn lemma_unpack_pack_bytes(b: [u8; 5])
    ensures
        unpack_bytes(pack_bytes(b)) == b,
{
    lemma_bytes_roundtrip(b[0] as u64, b[1] as u64, b[2] as u64, b[3] as u64, b[4] as u64);
    assert(unpack_bytes(pack_bytes(b)) =~= b);
}

proof fn lemma_unpack_pack_nibbles(b: [u8; 5])
    requires
        forall|c: int| 0 <= c < 5 ==> #[trigger] b[c] < 16,
    ensures
        unpack_nibbles(pack_nibbles(b)) == b,
{
    assert(b[0] < 16 && b[1] < 16 && b[2] < 16 && b[3] < 16 && b[4] < 16);
    lemma_nibbles_roundtrip(b[0] as u128, b[1] as u128, b[2] as u128, b[3] as u128, b[4] as u128);
    assert(unpack_nibbles(pack_nibbles(b)) =~= b);
}

proof fn lemma_colors_roundtrip(c: [Option<TileColor>; 5])
    ensures
        unpack_colors(pack_bytes(color_codes(c))) == c,
        !bad_codes(pack_bytes(color_codes(c))),
{
    lemma_unpack_pack_bytes(color_codes(c));
    assert forall|l: int| 0 <= l < 5 implies #[trigger] code_color(color_code(c[l])) == c[l] && !bad_code(color_code(c[l])) by {
        match c[l] {
            Some(t) => {
                crate::tile_color::lemma_color_index_roundtrip(t);
            },
            None => {},
        }
    }
    assert(unpack_colors(pack_bytes(color_codes(c))) =~= c);
}

proof fn lemma_scores_roundtrip(s: [i16; 2])
    requires
        -1000 <= s[0] <= 31767,
        -1000 <= s[1] <= 31767,
    ensures
        scores_fit(pack_scores(s)),
        unpack_scores(pack_scores(s)) == s,
{
    let x0: u64 = (s[0] + 1000) as u64;
    let x1: u64 = (s[1] + 1000) as u64;
    assert(((s[0] + 1000) as i16) as u64 == x0);
    assert(((s[1] + 1000) as i16) as u64 == x1);
    lemma_pair_roundtrip(x0, x1);
    assert(score_bits(pack_scores(s), 0) == s[0] + 1000);
    assert(score_bits(pack_scores(s), 16) == s[1] + 1000);
    assert(unpack_scores(pack_scores(s)) =~= s);
}

/// Whether no piece of `ps` holds byte `b`.
pub open spec fn pieces_free_of(ps: Seq<Seq<char>>, b: u8) -> bool {
    forall|i: int| 0 <= i < ps.len() ==> free_of(ascii(#[trigger] ps[i]), b)
}

proof fn lemma_join_free(ps: Seq<Seq<char>>, sep: char, b: u8)
    requires
        pieces_free_of(ps, b),
        sep as u8 != b,
    ensures
        free_of(ascii(join(ps, sep)), b),
    decreases ps.len(),
{
    if ps.len() == 0 {
    } else if ps.len() == 1 {
        assert(free_of(ascii(ps[0]), b));
    } else {
        lemma_join_free(ps.drop_last(), sep, b);
        assert(free_of(ascii(ps.last()), b));
        lemma_ascii_concat(join(ps.drop_last(), sep) + seq![sep], ps.last());
        lemma_ascii_concat(join(ps.drop_last(), sep), seq![sep]);
    }
}

/// Splitting the bytes of joined pieces at the separator gives the pieces.
proof fn lemma_split_joined(ps: Seq<Seq<char>>, sep: char)
    requires
        ps.len() >= 1,
        pieces_free_of(ps, sep as u8),
    ensures
        split_bytes(ascii(join(ps, sep)), sep as u8) == Seq::new(ps.len(), |i: int| ascii(ps[i])),
    decreases ps.len(),
{
    if ps.len() == 1 {
        assert(free_of(ascii(ps[0]), sep as u8));
        lemma_split_single(ascii(ps[0]), sep as u8);
        assert(Seq::new(ps.len(), |i: int| ascii(ps[i])) =~= seq![ascii(ps[0])]);
    } else {
        let q = ps.drop_last();
        lemma_split_joined(q, sep);
        assert(free_of(ascii(ps.last()), sep as u8));
        lemma_ascii_concat(join(q, sep) + seq![sep], ps.last());
        lemma_ascii_concat(join(q, sep), seq![sep]);
        assert(ascii(seq![sep]) =~= seq![sep as u8]);
        lemma_split_append(ascii(join(q, sep)), ascii(ps.last()), sep as u8);
        assert(Seq::new(ps.len(), |i: int| ascii(ps[i])) =~= Seq::new(q.len(), |i: int| ascii(q[i])).push(ascii(ps.last())));
    }
}


pub(crate) proof fn lemma_dec_ascii(n: nat)
    ensures
        is_ascii_chars(dec(n)),
    decreases n,
{
    if n >= 10 {
        lemma_dec_ascii(n / 10);
        assert(is_ascii_chars(dec(n))) by {
            assert forall|i: int| 0 <= i < dec(n).len() implies '\0' <= #[trigger] dec(n)[i] <= '\u{7f}' by {
                if i < dec(n / 10).len() {
                    assert(dec(n)[i] == dec(n / 10)[i]);
                }
            }
        }
    }
}

proof fn lemma_join_ascii(ps: Seq<Seq<char>>, sep: char)
    requires
        forall|i: int| 0 <= i < ps.len() ==> is_ascii_chars(#[trigger] ps[i]),
        '\0' <= sep <= '\u{7f}',
    ensures
        is_ascii_chars(join(ps, sep)),
    decreases ps.len(),
{
    if ps.len() == 1 {
        assert(is_ascii_chars(ps[0]));
    } else if ps.len() > 1 {
        lemma_join_ascii(ps.drop_last(), sep);
        assert(is_ascii_chars(ps.last()));
        let a = join(ps.drop_last(), sep);
        let t = a + seq![sep] + ps.last();
        assert forall|i: int| 0 <= i < t.len() implies '\0' <= #[trigger] t[i] <= '\u{7f}' by {
            if i < a.len() {
                assert(t[i] == a[i]);
            } else if i == a.len() {
            } else {
                assert(t[i] == ps.last()[i - a.len() - 1]);
            }
        }
    }
}

/// A number entry: its bytes hold neither separator, it is ASCII, and it
/// reads back as the number where the number fits.
proof fn lemma_number_entry(n: nat, max: int)
    ensures
        free_of(ascii(dec(n)), ENTRY_SEPARATOR),
        free_of(ascii(dec(n)), ITEM_SEPARATOR),
        is_ascii_chars(dec(n)),
        n <= max ==> parse_uint(ascii(dec(n)), max) == Some(n),
{
    lemma_parse_dec(n, max);
    lemma_dec_ascii(n);
}

/// A list entry of two numbers.
proof fn lemma_pair_entry(a: nat, b: nat, max: int)
    requires
        a <= max,
        b <= max,
    ensures
        free_of(ascii(join(seq![dec(a), dec(b)], '-')), ENTRY_SEPARATOR),
        is_ascii_chars(join(seq![dec(a), dec(b)], '-')),
        split_bytes(ascii(join(seq![dec(a), dec(b)], '-')), ITEM_SEPARATOR) == seq![ascii(dec(a)), ascii(dec(b))],
        list_scan(split_bytes(ascii(join(seq![dec(a), dec(b)], '-')), ITEM_SEPARATOR), max, false, 0) == 0,
        piece_value(split_bytes(ascii(join(seq![dec(a), dec(b)], '-')), ITEM_SEPARATOR), 0, max) == a,
        piece_value(split_bytes(ascii(join(seq![dec(a), dec(b)], '-')), ITEM_SEPARATOR), 1, max) == b,
{
    let ps = seq![dec(a), dec(b)];
    lemma_number_entry(a, max);
    lemma_number_entry(b, max);
    assert(pieces_free_of(ps, ENTRY_SEPARATOR));
    assert(pieces_free_of(ps, ITEM_SEPARATOR));
    lemma_join_free(ps, '-', ENTRY_SEPARATOR);
    lemma_join_ascii(ps, '-');
    lemma_split_joined(ps, '-');
    let qs = split_bytes(ascii(join(ps, '-')), ITEM_SEPARATOR);
    assert(qs =~= seq![ascii(dec(a)), ascii(dec(b))]);
    reveal_with_fuel(list_scan, 3);
}


proof fn lemma_factories_entry(f: [Factory; NUM_FACTORIES])
    requires
        forall|k: int, c: int| 0 <= k < 5 && 0 <= c < 5 ==> #[trigger] f[k][c] < 16,
    ensures
        free_of(ascii(join(factory_texts(f), '-')), ENTRY_SEPARATOR),
        is_ascii_chars(join(factory_texts(f), '-')),
        factories_read(ascii(join(factory_texts(f), '-'))) == Ok::<[Factory; NUM_FACTORIES], Seq<char>>(f),
{
    let fs = factory_texts(f);
    let m128 = u128::MAX as int;
    let m64 = u64::MAX as int;
    lemma_number_entry(pack_nibbles(f[0]) as nat, m128);
    lemma_number_entry(pack_nibbles(f[1]) as nat, m128);
    lemma_number_entry(pack_nibbles(f[2]) as nat, m128);
    lemma_number_entry(pack_nibbles(f[3]) as nat, m128);
    lemma_number_entry(pack_nibbles(f[4]) as nat, m128);
    lemma_number_entry(pack_bytes(f[5]) as nat, m64);
    assert(pieces_free_of(fs, ENTRY_SEPARATOR));
    assert(pieces_free_of(fs, ITEM_SEPARATOR));
    lemma_join_free(fs, '-', ENTRY_SEPARATOR);
    assert forall|i: int| 0 <= i < fs.len() implies is_ascii_chars(#[trigger] fs[i]) by {}
    lemma_join_ascii(fs, '-');
    lemma_split_joined(fs, '-');
    let ps = split_bytes(ascii(join(fs, '-')), ITEM_SEPARATOR);
    assert(ps.len() == 6);
    assert forall|k: int| 0 <= k < 5 implies #[trigger] parse_uint(ps[k], m128) == Some(pack_nibbles(f[k]) as nat) by {
        assert(ps[k] == ascii(fs[k]));
    }
    assert(ps[5] == ascii(fs[5]));
    assert forall|k: int| 0 <= k < 5 implies #[trigger] display_read(ps, k) == f[k] by {
        assert(parse_uint(ps[k], m128) == Some(pack_nibbles(f[k]) as nat));
        assert forall|c: int| 0 <= c < 5 implies #[trigger] f[k][c] < 16 by {}
        lemma_unpack_pack_nibbles(f[k]);
    }
    lemma_unpack_pack_bytes(f[5]);
    let r = factories_read(ascii(join(fs, '-')));
    assert(!exists|k: int| 0 <= k < 5 && k < ps.len() && #[trigger] parse_uint(ps[k], m128) is None);
    assert(r->Ok_0 =~= f);
}

/// The entries of the notation of `s` as bytes.
pub open spec fn fen_entry_bytes(s: GameState) -> Seq<Seq<u8>> {
    Seq::new(12, |i: int| ascii(fen_entries(s)[i]))
}

proof fn lemma_fen_split(s: GameState)
    requires
        fen_representable(s),
    ensures
        split_bytes(encode_utf8(fen_text(s)), ENTRY_SEPARATOR) == fen_entry_bytes(s),
{
    let e = fen_entries(s);
    lemma_fen_entries(s);
    let m64 = u64::MAX as int;
    let m32 = u32::MAX as int;
    lemma_number_entry(2, 255);
    lemma_number_entry(s.current_player.0 as nat, 255);
    lemma_number_entry(s.next_round_starting_player.0 as nat, 255);
    lemma_number_entry(pack_bytes(s.bag) as nat, m64);
    lemma_number_entry(pack_bytes(s.out_of_bag) as nat, m64);
    assert forall|k: int, c: int| 0 <= k < 5 && 0 <= c < 5 implies #[trigger] s.factories.factories[k][c] < 16 by {}
    lemma_factories_entry(s.factories.factories);
    lemma_number_entry(pack_scores(s.scores) as nat, m64);
    lemma_number_entry(pack_floor(s.floor_line_progress) as nat, m64);
    lemma_pair_entry(s.walls[0] as nat, s.walls[1] as nat, m32);
    lemma_pair_entry(pack_bytes(s.pattern_lines_occupancy[0]) as nat, pack_bytes(s.pattern_lines_occupancy[1]) as nat, m64);
    let c0 = pack_bytes(color_codes(s.pattern_lines_colors[0]));
    let c1 = pack_bytes(color_codes(s.pattern_lines_colors[1]));
    lemma_pair_entry(c0 as nat, c1 as nat, m64);
    lemma_number_entry(if s.tile_taken_from_center { 1 } else { 0 }, 255);
    assert(pieces_free_of(e, ENTRY_SEPARATOR));
    assert forall|i: int| 0 <= i < e.len() implies is_ascii_chars(#[trigger] e[i]) by {}
    lemma_join_ascii(e, '_');
    let t = fen_text(s);
    is_ascii_chars_encode_utf8(t);
    assert(encode_utf8(t) =~= ascii(t));
    lemma_split_joined(e, '_');
    assert(Seq::new(e.len(), |i: int| ascii(e[i])) =~= fen_entry_bytes(s));
}

proof fn lemma_fen_fields(s: GameState)
    requires
        fen_representable(s),
    ensures
        parse_uint(fen_entry_bytes(s)[0], 255) == Some(2nat),
        parse_uint(fen_entry_bytes(s)[1], 255) == Some(s.current_player.0 as nat),
        parse_uint(fen_entry_bytes(s)[2], 255) == Some(s.next_round_starting_player.0 as nat),
        parse_uint(fen_entry_bytes(s)[3], u64::MAX as int) == Some(pack_bytes(s.bag) as nat),
        parse_uint(fen_entry_bytes(s)[4], u64::MAX as int) == Some(pack_bytes(s.out_of_bag) as nat),
        factories_read(fen_entry_bytes(s)[5]) == Ok::<[Factory; NUM_FACTORIES], Seq<char>>(s.factories.factories),
        parse_uint(fen_entry_bytes(s)[6], u64::MAX as int) == Some(pack_scores(s.scores) as nat),
        parse_uint(fen_entry_bytes(s)[7], u64::MAX as int) == Some(pack_floor(s.floor_line_progress) as nat),
        list_scan(split_bytes(fen_entry_bytes(s)[8], ITEM_SEPARATOR), u32::MAX as int, false, 0) == 0,
        piece_value(split_bytes(fen_entry_bytes(s)[8], ITEM_SEPARATOR), 0, u32::MAX as int) == s.walls[0],
        piece_value(split_bytes(fen_entry_bytes(s)[8], ITEM_SEPARATOR), 1, u32::MAX as int) == s.walls[1],
        list_scan(split_bytes(fen_entry_bytes(s)[9], ITEM_SEPARATOR), u64::MAX as int, false, 0) == 0,
        piece_value(split_bytes(fen_entry_bytes(s)[9], ITEM_SEPARATOR), 0, u64::MAX as int) == pack_bytes(s.pattern_lines_occupancy[0]),
        piece_value(split_bytes(fen_entry_bytes(s)[9], ITEM_SEPARATOR), 1, u64::MAX as int) == pack_bytes(s.pattern_lines_occupancy[1]),
        list_scan(split_bytes(fen_entry_bytes(s)[10], ITEM_SEPARATOR), u64::MAX as int, true, 0) == 0,
        split_bytes(fen_entry_bytes(s)[10], ITEM_SEPARATOR).len() == 2,
        piece_value(split_bytes(fen_entry_bytes(s)[10], ITEM_SEPARATOR), 0, u64::MAX as int) == pack_bytes(color_codes(s.pattern_lines_colors[0])),
        piece_value(split_bytes(fen_entry_bytes(s)[10], ITEM_SEPARATOR), 1, u64::MAX as int) == pack_bytes(color_codes(s.pattern_lines_colors[1])),
        parse_uint(fen_entry_bytes(s)[11], 255) == Some(if s.tile_taken_from_center { 1nat } else { 0nat }),
{
    let e = fen_entries(s);
    lemma_fen_entries(s);
    let m64 = u64::MAX as int;
    let m32 = u32::MAX as int;
    lemma_number_entry(2, 255);
    lemma_number_entry(s.current_player.0 as nat, 255);
    lemma_number_entry(s.next_round_starting_player.0 as nat, 255);
    lemma_number_entry(pack_bytes(s.bag) as nat, m64);
    lemma_number_entry(pack_bytes(s.out_of_bag) as nat, m64);
    assert forall|k: int, c: int| 0 <= k < 5 && 0 <= c < 5 implies #[trigger] s.factories.factories[k][c] < 16 by {}
    lemma_factories_entry(s.factories.factories);
    lemma_number_entry(pack_scores(s.scores) as nat, m64);
    lemma_number_entry(pack_floor(s.floor_line_progress) as nat, m64);
    lemma_pair_entry(s.walls[0] as nat, s.walls[1] as nat, m32);
    lemma_pair_entry(pack_bytes(s.pattern_lines_occupancy[0]) as nat, pack_bytes(s.pattern_lines_occupancy[1]) as nat, m64);
    let c0 = pack_bytes(color_codes(s.pattern_lines_colors[0]));
    let c1 = pack_bytes(color_codes(s.pattern_lines_colors[1]));
    lemma_pair_entry(c0 as nat, c1 as nat, m64);
    lemma_number_entry(if s.tile_taken_from_center { 1 } else { 0 }, 255);
    lemma_colors_roundtrip(s.pattern_lines_colors[0]);
    lemma_colors_roundtrip(s.pattern_lines_colors[1]);
    let cps = split_bytes(fen_entry_bytes(s)[10], ITEM_SEPARATOR);
    assert(list_scan(cps, m64, true, 0) == 0) by {
        reveal_with_fuel(list_scan, 3);
    }
}

/// Reading the notation of a state gives the state back, where the notation
/// can hold the state: what `from_fen` reads from the text of `to_fen` is the
/// state that was written.
#[verifier::rlimit(50)]
pub proof fn lemma_fen_roundtrip(s: GameState)
    requires
        fen_representable(s),
    ensures
        fen_read(encode_utf8(fen_text(s))) == Some(Ok::<GameState, Seq<char>>(s)),
{
    lemma_fen_split(s);
    lemma_fen_fields(s);
    let es = fen_entry_bytes(s);
    assert(es.len() == 12);
    assert(-1000 <= s.scores[0] <= 31767);
    assert(-1000 <= s.scores[1] <= 31767);
    lemma_scores_roundtrip(s.scores);
    lemma_colors_roundtrip(s.pattern_lines_colors[0]);
    lemma_colors_roundtrip(s.pattern_lines_colors[1]);
    lemma_unpack_pack_bytes(s.bag);
    lemma_unpack_pack_bytes(s.out_of_bag);
    lemma_unpack_pack_bytes(s.pattern_lines_occupancy[0]);
    lemma_unpack_pack_bytes(s.pattern_lines_occupancy[1]);
    lemma_floor_roundtrip(s.floor_line_progress[0] as u64, s.floor_line_progress[1] as u64);
    let r = fen_state(es);
    assert(r.bag == s.bag);
    assert(r.out_of_bag == s.out_of_bag);
    assert(r.factories == s.factories);
    assert(r.scores == s.scores);
    assert(r.floor_line_progress =~= s.floor_line_progress);
    assert(r.walls =~= s.walls);
    assert(r.pattern_lines_occupancy =~= s.pattern_lines_occupancy);
    assert(r.pattern_lines_colors =~= s.pattern_lines_colors);
    assert(r.tile_taken_from_center == s.tile_taken_from_center);
    assert(r == s);
}

} // verus!
