use vstd::prelude::*;
use crate::board::Player;

verus! {

/// The image a front end draws for a cross.
pub const X_SPRITE: &'static str = "x.png";

/// The image a front end draws for a nought.
pub const O_SPRITE: &'static str = "o.png";

/// The player who does not hold `p`'s mark.
pub open spec fn opponent(p: Player) -> Player {
    match p {
        Player::X => Player::O,
        Player::O => Player::X,
    }
}

/// Whose turn it is. A game starts with `X`, and the turn passes to the
/// other player after each accepted move that does not end the game.
pub struct NextPlayer {
    pub mark: Player,
}

impl NextPlayer {
    /// The turn at the start of a game: `X` plays first.
    pub fn new() -> (r: NextPlayer)
        ensures
            r.mark == Player::X,
    {
        NextPlayer { mark: Player::X }
    }

    /// The player whose mark the next move writes.
    pub fn current(&self) -> (r: Player)
        ensures
            r == self.mark,
    {
        self.mark
    }

    /// Passes the turn to the other player.
    pub fn switch(&mut self)
        ensures
            final(self).mark == opponent(old(self).mark),
    {
        self.mark = match self.mark {
            Player::X => Player::O,
            Player::O => Player::X,
        };
    }

    /// The image of the current player's mark.
    pub fn sprite(&self) -> (r: &'static str)
        ensures
            self.mark == Player::X ==> r@ == X_SPRITE@,
            self.mark == Player::O ==> r@ == O_SPRITE@,
    {
        match self.mark {
            Player::X => X_SPRITE,
            Player::O => O_SPRITE,
        }
    }
}

} // verus!
