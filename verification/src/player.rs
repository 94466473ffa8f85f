use vstd::prelude::*;

verus! {

/// Number of players at the table.
pub const NUM_PLAYERS: usize = 2;

/// The seat of a player, counted from 0.
#[derive(Debug, Clone, Copy, PartialEq, Eq, Structural)]
pub struct PlayerMarker(pub u8);

impl PlayerMarker {
    /// The marker of seat `id`.
    pub fn new(id: u8) -> (m: Self)
        ensures
            m.0 == id,
    {
        PlayerMarker(id)
    }

    /// The marker of the seat that plays after this one.
    pub fn next(&self) -> (m: Self)
        requires
            self.0 < 255,
        ensures
            m.0 == (self.0 + 1) % (NUM_PLAYERS as int),
    {
        PlayerMarker((self.0 + 1) % (NUM_PLAYERS as u8))
    }

    /// The seat number.
    pub fn to_u8(self) -> (n: u8)
        ensures
            n == self.0,
    {
        self.0
    }

    /// The seat number.
    pub fn to_usize(self) -> (n: usize)
        ensures
            n == self.0,
    {
        self.0 as usize
    }
}

} // verus!
