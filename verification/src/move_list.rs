//! A list of moves with room for every move of a position.
use vstd::prelude::*;
use crate::move_::{Move, move_display, move_displayable};
use crate::tile_color::push_char;

verus! {

/// The most moves that a position of a two-player game can offer.
pub const MAX_MOVES: usize = 126;

pub struct MoveList {
    moves: Vec<Move>,
}

impl View for MoveList {
    type V = Seq<Move>;

    closed spec fn view(&self) -> Seq<Move> {
        self.moves@
    }
}

/// The moves of a list as shown to a player, separated by commas.
pub open spec fn move_list_display(moves: Seq<Move>) -> Seq<char>
    decreases moves.len(),
{
    if moves.len() == 0 {
        Seq::empty()
    } else if moves.len() == 1 {
        move_display(moves[0])
    } else {
        move_list_display(moves.drop_last()) + seq![',', ' '] + move_display(moves.last())
    }
}

impl MoveList {
    /// An empty list.
    pub fn new() -> (l: Self)
        ensures
            l@ == Seq::<Move>::empty(),
    {
        MoveList { moves: Vec::new() }
    }

    /// Appends a move; the list must have room for it.
    pub fn push(&mut self, move_: Move)
        requires
            old(self)@.len() < MAX_MOVES,
        ensures
            final(self)@ == old(self)@.push(move_),
    {
        self.moves.push(move_);
    }

    /// Whether the list holds no move.
    pub fn is_empty(&self) -> (r: bool)
        ensures
            r == (self@.len() == 0),
    {
        self.moves.len() == 0
    }

    /// Number of moves held.
    pub fn len(&self) -> (n: usize)
        ensures
            n == self@.len(),
    {
        self.moves.len()
    }

    /// Removes all moves.
    pub fn clear(&mut self)
        ensures
            final(self)@ == Seq::<Move>::empty(),
    {
        self.moves.clear();
    }

    /// Whether the list holds `move_`.
    pub fn contains(&self, move_: Move) -> (r: bool)
        ensures
            r == self@.contains(move_),
    {
        let mut i: usize = 0;
        while i < self.moves.len()
            invariant
                i <= self.moves@.len(),
                forall|k: int| 0 <= k < i ==> self.moves@[k] != move_,
            decreases self.moves@.len() - i,
        {
            if self.moves[i] == move_ {
                return true;
            }
            i = i + 1;
        }
        false
    }

    /// Exchanges the moves at two positions.
    pub fn swap(&mut self, index1: usize, index2: usize)
        requires
            index1 < old(self)@.len(),
            index2 < old(self)@.len(),
        ensures
            final(self)@ == old(self)@.update(index1 as int, old(self)@[index2 as int]).update(
                index2 as int,
                old(self)@[index1 as int],
            ),
    {
        let a = self.moves[index1];
        let b = self.moves[index2];
        self.moves.set(index1, b);
        self.moves.set(index2, a);
    }

    /// Removes the move at `index`; the last move takes its place.
    pub fn remove(&mut self, index: usize)
        requires
            index < old(self)@.len(),
        ensures
            final(self)@ == old(self)@.update(index as int, old(self)@.last()).drop_last(),
    {
        let last = self.moves.len() - 1;
        self.swap(index, last);
        self.moves.pop();
        assert(self@ =~= old(self)@.update(index as int, old(self)@.last()).drop_last());
    }

    /// The move at `index`.
    pub fn get(&self, index: usize) -> (m: Move)
        requires
            index < self@.len(),
        ensures
            m == self@[index as int],
    {
        self.moves[index]
    }

    /// Replaces the move at `index`.
    pub fn set(&mut self, index: usize, move_: Move)
        requires
            index < old(self)@.len(),
        ensures
            final(self)@ == old(self)@.update(index as int, move_),
    {
        self.moves.set(index, move_);
    }

    /// The moves in order.
    pub fn to_vec(&self) -> (v: Vec<Move>)
        ensures
            v@ == self@,
    {
        self.moves.clone()
    }

    /// The moves as shown to a player, separated by commas.
    pub fn to_display_string(&self) -> (s: String)
        requires
            forall|i: int| 0 <= i < self@.len() ==> move_displayable(#[trigger] self@[i]),
        ensures
            s@ == move_list_display(self@),
    {
        let mut s = String::new();
        let mut i: usize = 0;
        while i < self.moves.len()
            invariant
                i <= self.moves@.len(),
                forall|k: int| 0 <= k < self@.len() ==> move_displayable(#[trigger] self@[k]),
                s@ == move_list_display(self@.subrange(0, i as int)),
            decreases self.moves@.len() - i,
        {
            let ghost prev = s@;
            if i > 0 {
                push_char(&mut s, ',');
                push_char(&mut s, ' ');
            }
            let t = self.moves[i].to_display_string();
            s.append(t.as_str());
            assert(self@.subrange(0, i + 1).drop_last() =~= self@.subrange(0, i as int));
            i = i + 1;
        }
        assert(self@.subrange(0, i as int) =~= self@);
        s
    }
}

impl Default for MoveList {
    fn default() -> (l: Self)
        ensures
            l@ == Seq::<Move>::empty(),
    {
        MoveList::new()
    }
}

} // verus!
