//! The numbering of moves for the policy of the networks. A move is seen as
//! the content of the display it takes from (its number among the 71
//! contents, or 71 for the center), the color and the pattern line; these
//! triples, in ascending order, are numbered from 0.
use vstd::prelude::*;
use std::collections::HashMap;
use vstd::std_specs::hash::spec_hash_map_iter;
use vstd::std_specs::iter::IteratorSpec;
use crate::factories::{factory_table, factory_number, factory_is_empty, factory_hash_key, hash_factory, unhash_factory,
    NUM_POSSIBLE_FACTORY_PERMUTATIONS, CENTER_FACTORY_INDEX};
use crate::game_state::GameState;
use crate::move_::Move;
use crate::tile_color::color_index;

verus! {

broadcast use vstd::std_specs::hash::group_hash_axioms;

/// The number that stands for the display `f`, the color `c` and the line `l`.
pub open spec fn move_key(f: int, c: int, l: int) -> int {
    f * 65536 + c * 256 + l
}

/// The display of a key.
pub open spec fn key_factory(k: u64) -> int {
    k as int / 65536
}

/// The color of a key.
pub open spec fn key_color(k: u64) -> int {
    (k as int / 256) % 256
}

/// The pattern line of a key.
pub open spec fn key_line(k: u64) -> int {
    k as int % 256
}

/// Whether a move can take color `c` from display `f`: the display content
/// with number `f` holds that color, or `f` is the center (71).
pub open spec fn has_color(f: int, c: int) -> bool {
    0 <= c < 5 && (f == 71 || (0 <= f < 71 && factory_table()[f][c] > 0))
}

/// Whether `(f, c, l)` names a move.
pub open spec fn is_move_triple(f: int, c: int, l: int) -> bool {
    has_color(f, c) && 0 <= l < 6
}

/// Number of colors below `c` that a move can take from display `f`.
pub open spec fn colors_below(f: int, c: int) -> int
    decreases c,
{
    if c <= 0 {
        0
    } else {
        colors_below(f, c - 1) + if has_color(f, c - 1) {
            1int
        } else {
            0int
        }
    }
}

/// Number of (display, color) pairs of moves with a display below `f`.
pub open spec fn pairs_before(f: int) -> int
    decreases f,
{
    if f <= 0 {
        0
    } else {
        pairs_before(f - 1) + colors_below(f - 1, 5)
    }
}

/// The number of the move `(f, c, l)`: how many moves come before it in
/// ascending order.
pub open spec fn move_rank(f: int, c: int, l: int) -> int {
    6 * (pairs_before(f) + colors_below(f, c)) + l
}

/// The numbering of all moves, by key.
pub open spec fn move_lookup() -> Map<u64, usize> {
    Map::new(
        |k: u64| is_move_triple(key_factory(k), key_color(k), key_line(k)),
        |k: u64| move_rank(key_factory(k), key_color(k), key_line(k)) as usize,
    )
}

/// The numbering of the moves with a key below `b`.
pub open spec fn move_lookup_below(b: int) -> Map<u64, usize> {
    Map::new(
        |k: u64| is_move_triple(key_factory(k), key_color(k), key_line(k)) && k < b,
        |k: u64| move_rank(key_factory(k), key_color(k), key_line(k)) as usize,
    )
}

/// The triple of a key.
pub open spec fn key_triple(k: u64) -> (usize, u8, u8) {
    ((k / 65536) as usize, ((k / 256) % 256) as u8, (k % 256) as u8)
}

proof fn lemma_key_parts(f: int, c: int, l: int, k: u64)
    requires
        0 <= f < 72,
        0 <= c < 256,
        0 <= l < 256,
        k == move_key(f, c, l),
    ensures
        key_factory(k) == f,
        key_color(k) == c,
        key_line(k) == l,
{
    assert(key_factory(k) == f) by (nonlinear_arith)
        requires
            k == f * 65536 + c * 256 + l,
            0 <= c < 256,
            0 <= l < 256,
            key_factory(k) == k as int / 65536,
    ;
    assert(k as int / 256 == f * 256 + c) by (nonlinear_arith)
        requires
            k == f * 65536 + c * 256 + l,
            0 <= l < 256,
    ;
    assert(key_color(k) == c) by (nonlinear_arith)
        requires
            k as int / 256 == f * 256 + c,
            0 <= c < 256,
            0 <= f,
            key_color(k) == (k as int / 256) % 256,
    ;
    assert(key_line(k) == l) by (nonlinear_arith)
        requires
            k == f * 65536 + c * 256 + l,
            0 <= l < 256,
            0 <= c,
            0 <= f,
            key_line(k) == k as int % 256,
    ;
}

/// A key between `move_key(f, c, lo)` and `move_key(f, c, 256)` has display
/// `f` and color `c`.
proof fn lemma_key_in_block(f: int, c: int, k: u64)
    requires
        0 <= f < 72,
        0 <= c < 256,
        move_key(f, c, 0) <= k < move_key(f, c, 256),
    ensures
        key_factory(k) == f,
        key_color(k) == c,
        key_line(k) == k - move_key(f, c, 0),
{
    let l = k - move_key(f, c, 0);
    lemma_key_parts(f, c, l, k);
}

/// A key between `move_key(f, c, 0)` and `move_key(f + 1, 0, 0)` has display `f`
/// and a color of at least `c`.
proof fn lemma_key_in_factory(f: int, c: int, k: u64)
    requires
        0 <= f < 72,
        0 <= c <= 256,
        move_key(f, c, 0) <= k < move_key(f + 1, 0, 0),
    ensures
        key_factory(k) == f,
        key_color(k) >= c,
{
    let d = k - f * 65536;
    assert(c * 256 <= d < 65536);
    let cc = d / 256;
    let l = d % 256;
    assert(d == 256 * cc + l);
    assert(0 <= l < 256);
    assert(c <= cc < 256) by (nonlinear_arith)
        requires
            d == 256 * cc + l,
            0 <= l < 256,
            c * 256 <= d < 65536,
    ;
    lemma_key_parts(f, cc, l, k);
}

proof fn lemma_colors_below_bound(f: int, c: int)
    requires
        0 <= c,
    ensures
        0 <= colors_below(f, c) <= c,
    decreases c,
{
    if c > 0 {
        lemma_colors_below_bound(f, c - 1);
    }
}

proof fn lemma_colors_below_mono(f: int, c1: int, c2: int)
    requires
        0 <= c1 <= c2,
    ensures
        colors_below(f, c1) <= colors_below(f, c2),
    decreases c2,
{
    if c2 > c1 {
        lemma_colors_below_mono(f, c1, c2 - 1);
    }
}

proof fn lemma_colors_below_flat(f: int, c: int)
    requires
        5 <= c,
    ensures
        colors_below(f, c) == colors_below(f, 5),
    decreases c,
{
    if c > 5 {
        lemma_colors_below_flat(f, c - 1);
    }
}

proof fn lemma_pairs_before_bound(f: int)
    requires
        0 <= f,
    ensures
        0 <= pairs_before(f) <= 5 * f,
    decreases f,
{
    if f > 0 {
        lemma_pairs_before_bound(f - 1);
        lemma_colors_below_bound(f - 1, 5);
    }
}

/// The numbering of all moves, in ascending order of their triples: the
/// table that the policy of the networks is read by. Its keys are the
/// triples written as `move_key`.
pub fn build_move_lookup() -> (r: HashMap<u64, usize>)
    ensures
        r@ == move_lookup(),
{
    let mut m: HashMap<u64, usize> = HashMap::new();
    let mut index: usize = 0;
    let mut f: usize = 0;
    proof {
        assert(m@ =~= move_lookup_below(0));
    }
    while f < 72
        invariant
            f <= 72,
            m@ == move_lookup_below(move_key(f as int, 0, 0)),
            index == 6 * pairs_before(f as int),
        decreases 72 - f,
    {
        let content: [u8; 5] = if f < NUM_POSSIBLE_FACTORY_PERMUTATIONS {
            unhash_factory(f)
        } else {
            [1u8, 1u8, 1u8, 1u8, 1u8]
        };
        proof {
            lemma_pairs_before_bound(f as int);
        }
        let mut c: usize = 0;
        while c < 5
            invariant
                f < 72,
                c <= 5,
                f < 71 ==> content@ == factory_table()[f as int],
                f == 71 ==> content@ == seq![1u8, 1u8, 1u8, 1u8, 1u8],
                m@ == move_lookup_below(move_key(f as int, c as int, 0)),
                index == 6 * (pairs_before(f as int) + colors_below(f as int, c as int)),
                pairs_before(f as int) <= 5 * f,
            decreases 5 - c,
        {
            proof {
                lemma_colors_below_bound(f as int, c as int);
            }
            if content[c] > 0 {
                assert(has_color(f as int, c as int));
                let mut l: usize = 0;
                while l < 6
                    invariant
                        f < 72,
                        c < 5,
                        l <= 6,
                        has_color(f as int, c as int),
                        m@ == move_lookup_below(move_key(f as int, c as int, l as int)),
                        index == 6 * (pairs_before(f as int) + colors_below(f as int, c as int)) + l,
                        pairs_before(f as int) <= 5 * f,
                        colors_below(f as int, c as int) <= c,
                    decreases 6 - l,
                {
                    let key: u64 = (f as u64) * 65536 + (c as u64) * 256 + l as u64;
                    let ghost before = m@;
                    m.insert(key, index);
                    proof {
                        lemma_key_parts(f as int, c as int, l as int, key);
                        assert forall|k: u64| #[trigger] m@.contains_key(k) == move_lookup_below(
                            move_key(f as int, c as int, l + 1),
                        ).contains_key(k) by {
                            if move_key(f as int, c as int, 0) <= k < move_key(f as int, c as int, 256) {
                                lemma_key_in_block(f as int, c as int, k);
                            }
                        }
                        assert(m@ =~= move_lookup_below(move_key(f as int, c as int, l + 1)));
                    }
                    index = index + 1;
                    l = l + 1;
                }
                proof {
                    assert forall|k: u64| #[trigger] m@.contains_key(k) == move_lookup_below(
                        move_key(f as int, c as int + 1, 0),
                    ).contains_key(k) by {
                        if move_key(f as int, c as int, 0) <= k < move_key(f as int, c as int, 256) {
                            lemma_key_in_block(f as int, c as int, k);
                        }
                    }
                    assert(m@ =~= move_lookup_below(move_key(f as int, c as int + 1, 0)));
                }
            } else {
                assert(!has_color(f as int, c as int));
                proof {
                    assert forall|k: u64| #[trigger] m@.contains_key(k) == move_lookup_below(
                        move_key(f as int, c as int + 1, 0),
                    ).contains_key(k) by {
                        if move_key(f as int, c as int, 0) <= k < move_key(f as int, c as int, 256) {
                            lemma_key_in_block(f as int, c as int, k);
                        }
                    }
                    assert(m@ =~= move_lookup_below(move_key(f as int, c as int + 1, 0)));
                }
            }
            c = c + 1;
        }
        proof {
            assert forall|k: u64| #[trigger] m@.contains_key(k) == move_lookup_below(
                move_key(f as int + 1, 0, 0),
            ).contains_key(k) by {
                if move_key(f as int, 5, 0) <= k < move_key(f as int + 1, 0, 0) {
                    lemma_key_in_factory(f as int, 5, k);
                }
            }
            assert(m@ =~= move_lookup_below(move_key(f as int + 1, 0, 0)));
        }
        f = f + 1;
    }
    proof {
        assert forall|k: u64| #[trigger] m@.contains_key(k) == move_lookup().contains_key(k) by {
            if k >= move_key(72, 0, 0) && is_move_triple(key_factory(k), key_color(k), key_line(k)) {
                assert(key_factory(k) >= 72) by (nonlinear_arith)
                    requires
                        k >= 72 * 65536,
                        key_factory(k) == k as int / 65536,
                ;
            }
        }
        assert(m@ =~= move_lookup());
    }
    m
}

proof fn lemma_pairs_before_mono(f1: int, f2: int)
    requires
        0 <= f1 <= f2,
    ensures
        pairs_before(f1) <= pairs_before(f2),
    decreases f2,
{
    if f2 > f1 {
        lemma_pairs_before_mono(f1, f2 - 1);
        lemma_colors_below_bound(f2 - 1, 5);
    }
}

/// The numbers of a display's moves lie below those of the next displays.
proof fn lemma_rank_below_next_factory(f: int, c: int, l: int)
    requires
        0 <= f,
        is_move_triple(f, c, l),
    ensures
        move_rank(f, c, l) < 6 * pairs_before(f + 1),
{
    lemma_colors_below_mono(f, c + 1, 5);
}

/// The numbering follows the ascending order of the keys: of two moves, the
/// one with the smaller key has the smaller number.
pub proof fn lemma_move_numbering_ascending(k1: u64, k2: u64)
    requires
        move_lookup().contains_key(k1),
        move_lookup().contains_key(k2),
        k1 < k2,
    ensures
        move_lookup()[k1] < move_lookup()[k2],
{
    let (f1, c1, l1) = (key_factory(k1), key_color(k1), key_line(k1));
    let (f2, c2, l2) = (key_factory(k2), key_color(k2), key_line(k2));
    assert(k1 == move_key(f1, c1, l1)) by (nonlinear_arith)
        requires
            f1 == k1 as int / 65536,
            c1 == (k1 as int / 256) % 256,
            l1 == k1 as int % 256,
    ;
    assert(k2 == move_key(f2, c2, l2)) by (nonlinear_arith)
        requires
            f2 == k2 as int / 65536,
            c2 == (k2 as int / 256) % 256,
            l2 == k2 as int % 256,
    ;
    lemma_colors_below_bound(f1, 5);
    lemma_colors_below_bound(f2, 5);
    lemma_pairs_before_bound(f1);
    lemma_pairs_before_bound(f2);
    lemma_pairs_before_bound(f1 + 1);
    lemma_pairs_before_bound(f2 + 1);
    lemma_colors_below_bound(f1, c1);
    lemma_colors_below_bound(f2, c2);
    lemma_rank_below_next_factory(f1, c1, l1);
    lemma_rank_below_next_factory(f2, c2, l2);
    assert(f1 < f2 || (f1 == f2 && c1 < c2) || (f1 == f2 && c1 == c2 && l1 < l2)) by (nonlinear_arith)
        requires
            k1 == f1 * 65536 + c1 * 256 + l1,
            k2 == f2 * 65536 + c2 * 256 + l2,
            k1 < k2,
            0 <= c1 < 256,
            0 <= l1 < 256,
            0 <= c2 < 256,
            0 <= l2 < 256,
    ;
    if f1 < f2 {
        lemma_pairs_before_mono(f1 + 1, f2);
        assert(move_rank(f1, c1, l1) < move_rank(f2, c2, l2));
    } else if c1 < c2 {
        assert(f1 == f2);
        lemma_colors_below_mono(f1, c1 + 1, c2);
        assert(move_rank(f1, c1, l1) < move_rank(f2, c2, l2));
    } else {
        assert(f1 == f2 && c1 == c2 && l1 < l2);
        assert(move_rank(f1, c1, l1) < move_rank(f2, c2, l2));
    }
    assert(0 <= move_rank(f1, c1, l1) < 2200);
    assert(0 <= move_rank(f2, c2, l2) < 2200);
}


/// Law: no two moves share a number, so the reverse table of the move
/// numbering gives back the triple of every move: for the table built by
/// `build_move_lookup`, `build_reverse_lookup` puts each key's triple at its
/// number.
pub proof fn lemma_move_numbers_unique(k: u64)
    requires
        move_lookup().contains_key(k),
    ensures
        number_unique(move_lookup(), k),
{
    assert forall|k2: u64| #[trigger] move_lookup().contains_key(k2) && move_lookup()[k2] == move_lookup()[k] implies k2 == k by {
        if k2 < k {
            lemma_move_numbering_ascending(k2, k);
        } else if k < k2 {
            lemma_move_numbering_ascending(k, k2);
        }
    }
}


/// Law: a numbering whose keys have distinct numbers below the number of
/// keys numbers every place: each `i` below the number of keys is the
/// number of some key. With `build_reverse_lookup`, which puts each key's
/// triple at its number, the reverse table then gives the key of every
/// number, as for the move numbering (`lemma_move_numbers_unique`).
pub proof fn lemma_numbering_onto(m: Map<u64, usize>, i: int)
    requires
        m.dom().finite(),
        forall|k: u64| #[trigger] m.contains_key(k) ==> m[k] < m.len(),
        forall|k: u64| #[trigger] m.contains_key(k) ==> number_unique(m, k),
        0 <= i < m.len(),
    ensures
        exists|k: u64| #[trigger] m.contains_key(k) && m[k] == i,
{
    let f = |k: u64| m[k] as int;
    let x = m.dom();
    let y = x.map(f);
    let range = vstd::set_lib::set_int_range(0, m.len() as int);
    assert(vstd::relations::injective_on(f, x)) by {
        assert forall|a: u64, b: u64| x.contains(a) && x.contains(b) && #[trigger] f(a) == #[trigger] f(b) implies a == b by {
            assert(number_unique(m, a));
        }
    }
    vstd::set_lib::lemma_map_size(x, y, f);
    vstd::set_lib::lemma_int_range(0, m.len() as int);
    assert(y.subset_of(range)) by {
        assert forall|v: int| y.contains(v) implies range.contains(v) by {
            let k = choose|k: u64| x.contains(k) && f(k) == v;
            assert(m.contains_key(k));
        }
    }
    vstd::set_lib::lemma_subset_equality(y, range);
    assert(range.contains(i));
    assert(y.contains(i));
    let k = choose|k: u64| x.contains(k) && f(k) == i;
    assert(m.contains_key(k) && m[k] == i);
}


/// The key of a triple.
pub open spec fn triple_key(t: (usize, u8, u8)) -> int {
    t.0 * 65536 + t.1 * 256 + t.2
}

/// Law: where a numbering's values are exactly the numbers below its size
/// (distinct, each below the number of keys), a table that holds at each
/// key's number that key's triple (as `build_reverse_lookup` builds it) is
/// the numbering's inverse: the key of the triple at each place `i` has
/// number `i`.
pub proof fn lemma_reverse_lookup_inverts(m: Map<u64, usize>, r: Seq<(usize, u8, u8)>, i: int)
    requires
        m.dom().finite(),
        forall|k: u64| #[trigger] m.contains_key(k) ==> m[k] < m.len() && k < 0x1_0000_0000,
        forall|k: u64| #[trigger] m.contains_key(k) ==> number_unique(m, k),
        r.len() == m.len(),
        forall|k: u64| #[trigger] m.contains_key(k) && number_unique(m, k) ==> r[m[k] as int] == key_triple(k),
        0 <= i < r.len(),
    ensures
        0 <= triple_key(r[i]) < 0x1_0000_0000,
        m.contains_key(triple_key(r[i]) as u64),
        m[triple_key(r[i]) as u64] == i,
{
    lemma_numbering_onto(m, i);
    let k = choose|k: u64| #[trigger] m.contains_key(k) && m[k] == i;
    assert(r[i] == key_triple(k));
    assert(triple_key(key_triple(k)) == k as int) by (nonlinear_arith)
        requires
            k < 0x1_0000_0000,
            key_triple(k) == ((k / 65536) as usize, ((k / 256) % 256) as u8, (k % 256) as u8),
    ;
}

/// Whether no other key of `m` has the number that `k` has.
pub open spec fn number_unique(m: Map<u64, usize>, k: u64) -> bool {
    forall|k2: u64| #[trigger] m.contains_key(k2) && m[k2] == m[k] ==> k2 == k
}

/// The triple of each number of a numbering: position `i` holds the triple
/// of a key numbered `i`, or `(0, 0, 0)` where no key has that number. The
/// numbers must lie below the number of keys.
pub fn build_reverse_lookup(move_to_index: &HashMap<u64, usize>) -> (r: Vec<(usize, u8, u8)>)
    requires
        forall|k: u64| #[trigger] move_to_index@.contains_key(k) ==> move_to_index@[k] < move_to_index@.len(),
    ensures
        r@.len() == move_to_index@.len(),
        forall|k: u64|
            #[trigger] move_to_index@.contains_key(k) && number_unique(move_to_index@, k) ==> r@[move_to_index@[k] as int]
                == key_triple(k),
{
    let n = move_to_index.len();
    let ghost m = move_to_index@;
    let ghost v = spec_hash_map_iter(move_to_index).remaining();
    let mut reverse: Vec<(usize, u8, u8)> = Vec::new();
    while reverse.len() < n
        invariant
            reverse@.len() <= n,
        decreases n - reverse@.len(),
    {
        reverse.push((0, 0, 0));
    }
    for pair in it: move_to_index.iter()
        invariant
            reverse@.len() == n,
            n == m.len(),
            m == move_to_index@,
            forall|k: u64| #[trigger] m.contains_key(k) ==> m[k] < m.len(),
            it.seq() == v,
            v == spec_hash_map_iter(move_to_index).remaining(),
            it.seq().no_duplicates(),
            forall|k: u64|
                #[trigger] m.contains_key(k) && number_unique(m, k) && v.subrange(0, it.index()).contains((&k, &m[k]))
                    ==> reverse@[m[k] as int] == key_triple(k),
    {
        let (key, index) = pair;
        assert(pair == it.seq()[it.index()]);
        assert(m.contains_key(*key) && m[*key] == *index);
        let t: (usize, u8, u8) = ((*key / 65536) as usize, ((*key / 256) % 256) as u8, (*key % 256) as u8);
        reverse.set(*index, t);
        proof {
            assert forall|k2: u64|
                #[trigger] m.contains_key(k2) && number_unique(m, k2) && v.subrange(0, it.index() + 1).contains(
                    (&k2, &m[k2]),
                ) implies reverse@[m[k2] as int] == key_triple(k2) by {
                let sub = v.subrange(0, it.index() + 1);
                let j = choose|j: int| 0 <= j < sub.len() && #[trigger] sub[j] == (&k2, &m[k2]);
                assert(v[j] == (&k2, &m[k2]));
                assert(*v[j].0 == k2);
            }
        }
    }
    proof {
        assert forall|k: u64| #[trigger] m.contains_key(k) && number_unique(m, k) implies reverse@[m[k] as int]
            == key_triple(k) by {
            assert(v.contains((&k, &m[k])));
            assert(v.subrange(0, v.len() as int) =~= v);
        }
    }
    reverse
}

/// Whether a move can take color `c` from display `f`.
fn has_color_exec(f: usize, c: usize) -> (r: bool)
    requires
        f < 72,
        c < 5,
    ensures
        r == has_color(f as int, c as int),
{
    if f == 71 {
        true
    } else {
        let content = unhash_factory(f);
        content[c] > 0
    }
}

/// Number of colors below `c` that a move can take from display `f`.
fn colors_below_exec(f: usize, c: usize) -> (r: usize)
    requires
        f < 72,
        c <= 5,
    ensures
        r == colors_below(f as int, c as int),
        r <= c,
{
    let mut n: usize = 0;
    let mut i: usize = 0;
    while i < c
        invariant
            f < 72,
            i <= c <= 5,
            n == colors_below(f as int, i as int),
            n <= i,
        decreases c - i,
    {
        if has_color_exec(f, i) {
            n = n + 1;
        }
        i = i + 1;
    }
    n
}

/// The number of the move `(f, c, l)`.
fn move_rank_exec(f: usize, c: usize, l: usize) -> (r: usize)
    requires
        f < 72,
        c < 5,
        l < 6,
    ensures
        r == move_rank(f as int, c as int, l as int),
{
    let mut pairs: usize = 0;
    let mut g: usize = 0;
    while g < f
        invariant
            g <= f < 72,
            pairs == pairs_before(g as int),
            pairs <= 5 * g,
        decreases f - g,
    {
        let n = colors_below_exec(g, 5);
        pairs = pairs + n;
        g = g + 1;
    }
    let below = colors_below_exec(f, c);
    6 * (pairs + below) + l
}

/// What the numbering gives for a key, if the key names a move.
pub open spec fn lookup_of(k: u64) -> Option<usize> {
    if move_lookup().contains_key(k) {
        Some(move_lookup()[k])
    } else {
        None
    }
}

/// The display part of a move's key: the number of the display's content,
/// or 71 for the center.
pub open spec fn move_factory_number(game_state: GameState, mov: Move) -> int {
    if mov.factory_index == CENTER_FACTORY_INDEX {
        71
    } else {
        factory_number(game_state.factories.factories[mov.factory_index as int]@)
    }
}

/// The number of `mov` in the policy of the networks, or `None` where no
/// move of that display content, color and line exists.
pub fn encode_move(game_state: &GameState, mov: Move) -> (r: Option<usize>)
    requires
        mov.factory_index < 6,
        mov.factory_index != CENTER_FACTORY_INDEX ==> ({
            let f = game_state.factories.factories[mov.factory_index as int]@;
            factory_is_empty(f) || factory_hash_key(f) < 100
        }),
    ensures
        r == lookup_of(move_key(move_factory_number(*game_state, mov), color_index(mov.color) as int, mov.pattern_line_index as int) as u64),
{
    let factory_index: usize = if mov.factory_index as usize != CENTER_FACTORY_INDEX {
        hash_factory(&game_state.factories.factories[mov.factory_index as usize])
    } else {
        NUM_POSSIBLE_FACTORY_PERMUTATIONS
    };
    let c = mov.color.to_usize();
    let l = mov.pattern_line_index as usize;
    let ghost k = move_key(factory_index as int, c as int, l as int) as u64;
    proof {
        lemma_key_parts(factory_index as int, c as int, l as int, k);
    }
    if l < 6 && has_color_exec(factory_index, c) {
        Some(move_rank_exec(factory_index, c, l))
    } else {
        None
    }
}

} // verus!
