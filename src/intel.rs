//! Players, the intel economy and the error kinds of the resolver.

use vstd::prelude::*;

verus! {

/// The single spendable resource.
pub type Intel = u32;

/// Dense player identity: the position of the player in the roster.
pub type PlayerId = usize;

/// Stable handle of a location: its index in the board graph.
pub type LocationId = usize;

/// Why an action was rejected.
#[derive(Debug, Clone, Copy, PartialEq, Eq, Structural)]
pub enum GameError {
    /// A purchase-gated action was attempted with too little intel.
    NotEnoughIntel,
    /// Reserved: turn order is left to the layer that drives the game.
    NotYourTurn,
    /// The action would have had no effect.
    WouldNoop,
    /// A player or location handle that does not exist.
    InvalidHandle,
}

pub type GameResult = Result<(), GameError>;

/// The four purchasable effects.
#[derive(Debug, Clone, Copy, PartialEq, Eq, Structural)]
pub enum IntelKind {
    HideSignals,
    Reveal,
    Invisible,
    Prepare,
}

impl IntelKind {
    /// The fixed price of each effect.
    pub open spec fn spec_cost(self) -> Intel {
        match self {
            IntelKind::HideSignals => 2,
            IntelKind::Reveal => 1,
            IntelKind::Invisible => 2,
            IntelKind::Prepare => 0,
        }
    }

    pub fn cost(&self) -> (r: Intel)
        ensures
            r == self.spec_cost(),
    {
        match self {
            IntelKind::HideSignals => 2,
            IntelKind::Reveal => 1,
            IntelKind::Invisible => 2,
            IntelKind::Prepare => 0,
        }
    }
}

/// One participant.
#[derive(Debug, Clone, Copy, PartialEq, Eq, Structural)]
pub struct Player {
    pub alive: bool,
    pub intel: Intel,
    /// Intel-spending notices about this player do not name the purchase.
    pub hidden_signals: bool,
    /// Strikes by others are observed together with their location.
    pub visible_violence: bool,
    /// Arriving somewhere reveals every visible occupant to this player.
    pub active_scan: bool,
    /// The player's peg is not observed by others.
    pub concealed: bool,
    /// Concealment is ignored and the peg is never observed; lasts one turn.
    pub invisible: bool,
    /// Position in the roster.
    pub id: PlayerId,
    /// Current location.
    pub location: LocationId,
}

impl Default for Player {
    /// Not alive, no intel, no flags, identity and location 0.
    fn default() -> (r: Player)
        ensures
            r == (Player { alive: false, ..Player::spawned(0, 0) }),
    {
        Player {
            alive: false,
            intel: 0,
            hidden_signals: false,
            visible_violence: false,
            active_scan: false,
            concealed: false,
            invisible: false,
            id: 0,
            location: 0,
        }
    }
}

impl Player {
    /// A player as spawned: alive, with no intel and no flags set.
    pub open spec fn spawned(id: PlayerId, location: LocationId) -> Player {
        Player {
            alive: true,
            intel: 0,
            hidden_signals: false,
            visible_violence: false,
            active_scan: false,
            concealed: false,
            invisible: false,
            id,
            location,
        }
    }

    /// Pays for `which`: fails, changing nothing, when the balance is below its cost.
    pub fn purchase(&mut self, which: IntelKind) -> (r: GameResult)
        ensures
            r is Ok <==> which.spec_cost() <= old(self).intel,
            r is Err ==> r == Err::<(), GameError>(GameError::NotEnoughIntel) && *final(self) == *old(self),
            r is Ok ==> *final(self) == (Player { intel: (old(self).intel - which.spec_cost()) as Intel, ..*old(self) }),
    {
        if which.cost() > self.intel {
            return Err(GameError::NotEnoughIntel);
        }
        self.intel = self.intel - which.cost();
        Ok(())
    }
}

} // verus!
