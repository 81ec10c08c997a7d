use vstd::prelude::*;

verus! {

/// What a player dies of when the last arrow misses.
pub open spec fn out_of_arrows_text() -> Seq<char> {
    "You have ran out of arrows. A grue comes to eat you."@
}

/// Why a dead player stands nowhere.
pub open spec fn dead_text() -> Seq<char> {
    "Player is dead!"@
}

/// Why the winner stands nowhere.
pub open spec fn won_text() -> Seq<char> {
    "The player has won!"@
}

/// The player: alive with some arrows in some room, dead with the story of
/// how it happened, or the winner.
#[derive(Debug)]
pub enum Player {
    Alive { arrows: usize, location: usize },
    Dead(String),
    Win,
}

/// `after` is what `before` becomes once it has fired one arrow that missed.
pub open spec fn after_shot(before: Player, after: Player) -> bool {
    match before {
        Player::Alive { arrows, location } => if arrows > 1 {
            after == (Player::Alive { arrows: (arrows - 1) as usize, location })
        } else {
            after is Dead && after->Dead_0@ == out_of_arrows_text()
        },
        _ => after == before,
    }
}

/// `after` is what `before` becomes once it has moved to room `to`.
pub open spec fn after_move(before: Player, to: usize, after: Player) -> bool {
    match before {
        Player::Alive { arrows, .. } => after == (Player::Alive { arrows, location: to }),
        _ => after == before,
    }
}

impl Player {
    /// A living player with `a` arrows in room `loc`.
    pub fn new(a: usize, loc: usize) -> (r: Player)
        ensures
            r == (Player::Alive { arrows: a, location: loc }),
    {
        Player::Alive { arrows: a, location: loc }
    }

    /// The room the player stands in; an error once the game is over.
    pub fn get_loc(&self) -> (r: Result<usize, String>)
        ensures
            match *self {
                Player::Alive { location, .. } => r == Ok::<usize, String>(location),
                Player::Dead(_) => r is Err && r->Err_0@ == dead_text(),
                Player::Win => r is Err && r->Err_0@ == won_text(),
            },
    {
        match self {
            Player::Alive { location, .. } => Ok(*location),
            Player::Dead(_) => Err(String::from_str("Player is dead!")),
            Player::Win => Err(String::from_str("The player has won!")),
        }
    }

    /// Spends one arrow; the player who spends the last one dies. A player
    /// who is no longer alive is handed back as it is.
    pub fn shoot(self) -> (r: Player)
        ensures
            after_shot(self, r),
    {
        match self {
            Player::Alive { arrows, location } => {
                if arrows > 1 {
                    Player::new(arrows - 1, location)
                } else {
                    Player::Dead(String::from_str("You have ran out of arrows. A grue comes to eat you."))
                }
            },
            _ => self,
        }
    }

    /// Moves a living player to room `new`, keeping the arrows.
    pub fn move_to(self, new: usize) -> (r: Player)
        ensures
            after_move(self, new, r),
    {
        match self {
            Player::Alive { arrows, .. } => Player::new(arrows, new),
            _ => self,
        }
    }

    /// Ends the player's life with the story `msg`.
    pub fn kill(self, msg: String) -> (r: Player)
        ensures
            r == Player::Dead(msg),
    {
        Player::Dead(msg)
    }

    /// Turns the player into the winner.
    pub fn praise(self) -> (r: Player)
        ensures
            r == Player::Win,
    {
        Player::Win
    }
}

} // verus!
