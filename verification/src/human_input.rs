//! What a human's answers at the terminal mean: the legal moves are narrowed
//! down by factory, then color, then pattern line, and each answer is read
//! against the moves that are still possible.
use vstd::prelude::*;
use vstd::string::StringSliceAdditionalSpecFns;
use crate::move_::Move;
use crate::tile_color::{TileColor, color_of_index};
use crate::text::{parse_uint, parse_uint_exec};

verus! {

/// One way of narrowing down the moves.
#[derive(Clone, Copy, Debug, PartialEq, Eq, Structural)]
pub enum MoveFilter {
    /// The moves that take tiles from this factory (0 to 5, the center last).
    Factory(u8),
    /// The moves that take tiles of this color.
    Color(TileColor),
    /// The moves that place tiles on this pattern line (5 for the floor line).
    PatternLine(u8),
}

/// Why an answer was not taken.
#[derive(Clone, Copy, Debug, PartialEq, Eq, Structural)]
pub enum ChoiceError {
    /// The answer is not one of the accepted forms.
    Unreadable,
    /// The answer names a choice that no remaining move offers.
    NotAvailable,
}

/// Whether move `m` passes filter `f`.
pub open spec fn passes(m: Move, f: MoveFilter) -> bool {
    match f {
        MoveFilter::Factory(k) => m.factory_index == k,
        MoveFilter::Color(c) => m.color == c,
        MoveFilter::PatternLine(l) => m.pattern_line_index == l,
    }
}

/// The moves of `s` that pass `f`, in their order.
pub open spec fn kept(s: Seq<Move>, f: MoveFilter) -> Seq<Move>
    decreases s.len(),
{
    if s.len() == 0 {
        Seq::empty()
    } else if passes(s.last(), f) {
        kept(s.drop_last(), f).push(s.last())
    } else {
        kept(s.drop_last(), f)
    }
}

/// Whether some move of `s` passes `f`.
pub open spec fn offered(s: Seq<Move>, f: MoveFilter) -> bool {
    exists|i: int| 0 <= i < s.len() && #[trigger] passes(s[i], f)
}


/// Law: narrowing keeps exactly the moves that pass the filter: a move is
/// among those kept if and only if it was among the moves and passes.
pub proof fn lemma_kept_members(s: Seq<Move>, f: MoveFilter, m: Move)
    ensures
        kept(s, f).contains(m) <==> s.contains(m) && passes(m, f),
    decreases s.len(),
{
    if s.len() > 0 {
        let t = s.drop_last();
        lemma_kept_members(t, f, m);
        assert(s =~= t.push(s.last()));
        if s.contains(m) && m != s.last() {
            let i = choose|i: int| 0 <= i < s.len() && s[i] == m;
            assert(i < t.len() && t[i] == m);
        }
        if t.contains(m) {
            let i = choose|i: int| 0 <= i < t.len() && t[i] == m;
            assert(s[i] == m);
        }
        if passes(s.last(), f) {
            let k = kept(t, f);
            assert(k.push(s.last())[k.len() as int] == s.last());
            if k.contains(m) {
                let i = choose|i: int| 0 <= i < k.len() && k[i] == m;
                assert(k.push(s.last())[i] == m);
            }
            if k.push(s.last()).contains(m) && m != s.last() {
                let i = choose|i: int| 0 <= i < k.len() + 1 && k.push(s.last())[i] == m;
                assert(i < k.len() && k[i] == m);
            }
        }
        if m == s.last() {
            assert(s[s.len() - 1] == m);
        }
    }
}

/// Law: some move passes the filter exactly when narrowing keeps a move.
pub proof fn lemma_offered_iff_kept(s: Seq<Move>, f: MoveFilter)
    ensures
        offered(s, f) <==> kept(s, f).len() > 0,
{
    if offered(s, f) {
        let i = choose|i: int| 0 <= i < s.len() && #[trigger] passes(s[i], f);
        assert(s.contains(s[i]));
        lemma_kept_members(s, f, s[i]);
        let k = kept(s, f);
        if k.len() == 0 {
            assert(!k.contains(s[i]));
        }
    }
    if kept(s, f).len() > 0 {
        let k = kept(s, f);
        lemma_kept_members(s, f, k[0]);
        assert(k.contains(k[0]));
        let j = choose|j: int| 0 <= j < s.len() && s[j] == k[0];
        assert(passes(s[j], f));
    }
}

/// Whether move `m` passes filter `f`.
pub fn move_passes(m: &Move, f: MoveFilter) -> (r: bool)
    ensures
        r == passes(*m, f),
{
    match f {
        MoveFilter::Factory(k) => m.factory_index == k,
        MoveFilter::Color(c) => m.color == c,
        MoveFilter::PatternLine(l) => m.pattern_line_index == l,
    }
}

/// Keeps the moves that pass `f`, in their order.
pub fn retain_moves(moves: &mut Vec<Move>, f: MoveFilter)
    ensures
        final(moves)@ == kept(old(moves)@, f),
{
    let mut result: Vec<Move> = Vec::new();
    let mut i: usize = 0;
    while i < moves.len()
        invariant
            i <= moves@.len(),
            result@ == kept(moves@.subrange(0, i as int), f),
        decreases moves@.len() - i,
    {
        let m = moves[i];
        assert(moves@.subrange(0, i + 1).drop_last() =~= moves@.subrange(0, i as int));
        if move_passes(&m, f) {
            result.push(m);
        }
        i = i + 1;
    }
    assert(moves@.subrange(0, moves@.len() as int) =~= moves@);
    *moves = result;
}

/// Whether some move passes `f`.
pub fn offers(moves: &Vec<Move>, f: MoveFilter) -> (r: bool)
    ensures
        r == offered(moves@, f),
{
    let mut i: usize = 0;
    while i < moves.len()
        invariant
            i <= moves@.len(),
            forall|j: int| 0 <= j < i ==> !#[trigger] passes(moves@[j], f),
        decreases moves@.len() - i,
    {
        if move_passes(&moves[i], f) {
            return true;
        }
        i = i + 1;
    }
    false
}

/// The factories (0 to 5) from which some move takes tiles, ascending.
pub open spec fn factories_offered(s: Seq<Move>) -> Seq<u8> {
    Seq::new(6, |k: int| k as u8).filter(|k: u8| offered(s, MoveFilter::Factory(k)))
}

/// The colors that some move takes, in color order.
pub open spec fn colors_offered(s: Seq<Move>) -> Seq<TileColor> {
    Seq::new(5, |k: int| color_of_index(k)).filter(|c: TileColor| offered(s, MoveFilter::Color(c)))
}

/// The pattern lines (0 to 5, 5 the floor line) on which some move places
/// tiles, ascending.
pub open spec fn lines_offered(s: Seq<Move>) -> Seq<u8> {
    Seq::new(6, |k: int| k as u8).filter(|k: u8| offered(s, MoveFilter::PatternLine(k)))
}

proof fn lemma_filter_step<T>(s: Seq<T>, p: spec_fn(T) -> bool, i: int)
    requires
        0 <= i < s.len(),
    ensures
        s.subrange(0, i + 1).filter(p) == if p(s[i]) {
            s.subrange(0, i).filter(p).push(s[i])
        } else {
            s.subrange(0, i).filter(p)
        },
{
    let t = s.subrange(0, i + 1);
    assert(t.drop_last() =~= s.subrange(0, i));
    reveal(Seq::filter);
}

/// The factories from which some move takes tiles, ascending.
pub fn offered_factories(moves: &Vec<Move>) -> (r: Vec<u8>)
    ensures
        r@ == factories_offered(moves@),
{
    let ghost all = Seq::new(6, |k: int| k as u8);
    let ghost p = |k: u8| offered(moves@, MoveFilter::Factory(k));
    let mut r: Vec<u8> = Vec::new();
    let mut k: u8 = 0;
    while k < 6
        invariant
            k <= 6,
            all == Seq::new(6, |k: int| k as u8),
            p == (|k: u8| offered(moves@, MoveFilter::Factory(k))),
            r@ == all.subrange(0, k as int).filter(p),
        decreases 6 - k,
    {
        proof {
            lemma_filter_step(all, p, k as int);
        }
        if offers(moves, MoveFilter::Factory(k)) {
            r.push(k);
        }
        k = k + 1;
    }
    assert(all.subrange(0, 6) =~= all);
    r
}

/// The pattern lines on which some move places tiles, ascending.
pub fn offered_lines(moves: &Vec<Move>) -> (r: Vec<u8>)
    ensures
        r@ == lines_offered(moves@),
{
    let ghost all = Seq::new(6, |k: int| k as u8);
    let ghost p = |k: u8| offered(moves@, MoveFilter::PatternLine(k));
    let mut r: Vec<u8> = Vec::new();
    let mut k: u8 = 0;
    while k < 6
        invariant
            k <= 6,
            all == Seq::new(6, |k: int| k as u8),
            p == (|k: u8| offered(moves@, MoveFilter::PatternLine(k))),
            r@ == all.subrange(0, k as int).filter(p),
        decreases 6 - k,
    {
        proof {
            lemma_filter_step(all, p, k as int);
        }
        if offers(moves, MoveFilter::PatternLine(k)) {
            r.push(k);
        }
        k = k + 1;
    }
    assert(all.subrange(0, 6) =~= all);
    r
}

/// The colors that some move takes, in color order.
pub fn offered_colors(moves: &Vec<Move>) -> (r: Vec<TileColor>)
    ensures
        r@ == colors_offered(moves@),
{
    let ghost all = Seq::new(5, |k: int| color_of_index(k));
    let ghost p = |c: TileColor| offered(moves@, MoveFilter::Color(c));
    let mut r: Vec<TileColor> = Vec::new();
    let mut k: usize = 0;
    while k < 5
        invariant
            k <= 5,
            all == Seq::new(5, |k: int| color_of_index(k)),
            p == (|c: TileColor| offered(moves@, MoveFilter::Color(c))),
            r@ == all.subrange(0, k as int).filter(p),
        decreases 5 - k,
    {
        proof {
            lemma_filter_step(all, p, k as int);
        }
        let c = TileColor::from_usize(k);
        if offers(moves, MoveFilter::Color(c)) {
            r.push(c);
        }
        k = k + 1;
    }
    assert(all.subrange(0, 5) =~= all);
    r
}

/// The factory named by the answer `text` (1-based), when a remaining move
/// takes tiles from it.
pub open spec fn factory_answer(text: Seq<u8>, s: Seq<Move>) -> Result<MoveFilter, ChoiceError> {
    match parse_uint(text, 255) {
        None => Err(ChoiceError::Unreadable),
        Some(n) => if n >= 1 && offered(s, MoveFilter::Factory((n - 1) as u8)) {
            Ok(MoveFilter::Factory((n - 1) as u8))
        } else {
            Err(ChoiceError::NotAvailable)
        },
    }
}

/// The pattern line named by the answer `text` (1-based, 6 for the floor
/// line), when a remaining move places tiles on it.
pub open spec fn line_answer(text: Seq<u8>, s: Seq<Move>) -> Result<MoveFilter, ChoiceError> {
    match parse_uint(text, 255) {
        None => Err(ChoiceError::Unreadable),
        Some(n) => if n >= 1 && offered(s, MoveFilter::PatternLine((n - 1) as u8)) {
            Ok(MoveFilter::PatternLine((n - 1) as u8))
        } else {
            Err(ChoiceError::NotAvailable)
        },
    }
}

/// Reads a factory answer: `Unreadable` unless it is a number that fits a
/// byte, `NotAvailable` unless a remaining move takes tiles from that
/// factory (counted from 1).
pub fn read_factory_answer(text: &str, moves: &Vec<Move>) -> (r: Result<MoveFilter, ChoiceError>)
    ensures
        r == factory_answer(text.spec_bytes(), moves@),
{
    let bytes = text.as_bytes();
    match parse_uint_exec(bytes, 0, bytes.len(), 255) {
        None => {
            assert(bytes@.subrange(0, bytes@.len() as int) =~= bytes@);
            Err(ChoiceError::Unreadable)
        },
        Some(n) => {
            assert(bytes@.subrange(0, bytes@.len() as int) =~= bytes@);
            if n >= 1 && offers(moves, MoveFilter::Factory((n - 1) as u8)) {
                Ok(MoveFilter::Factory((n - 1) as u8))
            } else {
                Err(ChoiceError::NotAvailable)
            }
        },
    }
}

/// Reads a pattern line answer: `Unreadable` unless it is a number that fits
/// a byte, `NotAvailable` unless a remaining move places tiles on that line
/// (counted from 1, the floor line 6).
pub fn read_line_answer(text: &str, moves: &Vec<Move>) -> (r: Result<MoveFilter, ChoiceError>)
    ensures
        r == line_answer(text.spec_bytes(), moves@),
{
    let bytes = text.as_bytes();
    match parse_uint_exec(bytes, 0, bytes.len(), 255) {
        None => {
            assert(bytes@.subrange(0, bytes@.len() as int) =~= bytes@);
            Err(ChoiceError::Unreadable)
        },
        Some(n) => {
            assert(bytes@.subrange(0, bytes@.len() as int) =~= bytes@);
            if n >= 1 && offers(moves, MoveFilter::PatternLine((n - 1) as u8)) {
                Ok(MoveFilter::PatternLine((n - 1) as u8))
            } else {
                Err(ChoiceError::NotAvailable)
            }
        },
    }
}

/// The color whose letter (B, Y, R, K or W, in either case) is `b`.
pub open spec fn color_of_letter(b: u8) -> Option<TileColor> {
    if b == 66 || b == 98 {
        Some(TileColor::Blue)
    } else if b == 89 || b == 121 {
        Some(TileColor::Yellow)
    } else if b == 82 || b == 114 {
        Some(TileColor::Red)
    } else if b == 75 || b == 107 {
        Some(TileColor::Black)
    } else if b == 87 || b == 119 {
        Some(TileColor::White)
    } else {
        None
    }
}

/// The color named by the answer `text`: one color letter, in either case,
/// when a remaining move takes tiles of that color.
pub open spec fn color_answer(text: Seq<u8>, s: Seq<Move>) -> Result<MoveFilter, ChoiceError> {
    if text.len() != 1 || color_of_letter(text[0]) is None {
        Err(ChoiceError::Unreadable)
    } else if offered(s, MoveFilter::Color(color_of_letter(text[0])->0)) {
        Ok(MoveFilter::Color(color_of_letter(text[0])->0))
    } else {
        Err(ChoiceError::NotAvailable)
    }
}

/// Reads a color answer: `Unreadable` unless it is a single color letter
/// (in either case), `NotAvailable` unless a remaining move takes tiles of
/// that color.
pub fn read_color_answer(text: &str, moves: &Vec<Move>) -> (r: Result<MoveFilter, ChoiceError>)
    ensures
        r == color_answer(text.spec_bytes(), moves@),
{
    let bytes = text.as_bytes();
    if bytes.len() != 1 {
        return Err(ChoiceError::Unreadable);
    }
    let b = bytes[0];
    let color = if b == 66 || b == 98 {
        TileColor::Blue
    } else if b == 89 || b == 121 {
        TileColor::Yellow
    } else if b == 82 || b == 114 {
        TileColor::Red
    } else if b == 75 || b == 107 {
        TileColor::Black
    } else if b == 87 || b == 119 {
        TileColor::White
    } else {
        return Err(ChoiceError::Unreadable);
    };
    if offers(moves, MoveFilter::Color(color)) {
        Ok(MoveFilter::Color(color))
    } else {
        Err(ChoiceError::NotAvailable)
    }
}

} // verus!
