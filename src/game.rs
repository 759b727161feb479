//! The game state and the action resolver.

use vstd::prelude::*;
use crate::board::{
    Board, Location, board_add_edge, board_add_node, board_edge_list, board_edges, board_find_edge,
    board_neighbors, board_new, board_node, board_node_count, board_node_weights, board_nodes,
    board_set_node, has_edge, joins, simple,
};
use crate::intel::{GameError, GameResult, Intel, IntelKind, LocationId, Player, PlayerId};
use crate::ledger::{Event, Observation, appended, no_queues, noted, queue_of};
use crate::effects::{
    action_post, broadcast_post, capture_post, connected, controlled_income, hide_signals_post,
    intel_notice, invisible_post, lemma_noted_all_push, lemma_strike_skip, lemma_strike_step,
    move_post, noted_all, reveal_of, reveal_post, reveal_sweep, reveals_at, start_turn_post,
    after_turn_start, strike_notes, strike_post, turn_income, valid_target, colocated,
};

verus! {

/// A player's action for a turn.
#[derive(Debug, Clone, Copy, PartialEq, Eq, Structural)]
pub enum Action {
    Strike,
    Wait,
    Capture,
    HideSignals,
    Invisible,
    Prepare,
    Move(LocationId),
    Reveal(Option<PlayerId>),
}

/// The board, the roster and the observations of the current cycle.
pub struct Game {
    pub cities: Board,
    pub players: Vec<Player>,
    pub event: Event,
}

impl Game {
    pub open spec fn nodes(&self) -> Seq<Location> {
        board_nodes(self.cities)
    }

    pub open spec fn edges(&self) -> Seq<(nat, nat)> {
        board_edges(self.cities)
    }

    /// The state invariant: handles are dense and in range, and no two edges join the
    /// same pair of locations.
    pub open spec fn wf(&self) -> bool {
        &&& self.nodes().len() <= u32::MAX
        &&& self.edges().len() <= u32::MAX
        &&& forall|i: int| 0 <= i < self.nodes().len() ==> #[trigger] self.nodes()[i].index == i
        &&& forall|i: int|
            0 <= i < self.edges().len() ==> #[trigger] self.edges()[i].0 < self.nodes().len()
                && self.edges()[i].1 < self.nodes().len()
        &&& simple(self.edges())
        &&& self.players@.len() <= usize::MAX
        &&& forall|p: int|
            0 <= p < self.players@.len() ==> (#[trigger] self.players@[p]).id == p
                && self.players@[p].location < self.nodes().len()
    }

    /// An empty game: no locations, no players, no observations.
    pub fn new() -> (r: Game)
        ensures
            r.wf(),
            r.nodes() == Seq::<Location>::empty(),
            r.edges() == Seq::<(nat, nat)>::empty(),
            r.players@ == Seq::<Player>::empty(),
            r.event.private() == no_queues(),
            r.event.public() == Seq::<Observation>::empty(),
    {
        Game { cities: board_new(), players: Vec::new(), event: Event::default() }
    }

    /// Adds a location with no controller, no pending bonus and no boost.
    pub fn add_location(&mut self, name: &str, base_income: Intel) -> (r: LocationId)
        requires
            old(self).wf(),
            old(self).nodes().len() < u32::MAX,
        ensures
            final(self).wf(),
            r == old(self).nodes().len(),
            final(self).nodes().len() == old(self).nodes().len() + 1,
            final(self).nodes().subrange(0, r as int) == old(self).nodes(),
            final(self).nodes()[r as int].name@ == name@,
            final(self).nodes()[r as int].base_income == base_income,
            final(self).nodes()[r as int].index == r,
            final(self).nodes()[r as int].control is None,
            final(self).nodes()[r as int].pending_powerup is None,
            !final(self).nodes()[r as int].boost,
            final(self).edges() == old(self).edges(),
            final(self).players == old(self).players,
            final(self).event == old(self).event,
    {
        let index = board_node_count(&self.cities);
        let location = Location {
            pending_powerup: None,
            boost: false,
            base_income,
            name: String::from_str(name),
            index,
            control: None,
        };
        let r = board_add_node(&mut self.cities, location);
        assert(self.nodes().subrange(0, r as int) =~= old(self).nodes());
        r
    }

    /// Joins `a` and `b` by an edge, unless one already joins them.
    pub fn connect_locations(&mut self, a: LocationId, b: LocationId)
        requires
            old(self).wf(),
            a < old(self).nodes().len(),
            b < old(self).nodes().len(),
            old(self).edges().len() < u32::MAX,
        ensures
            final(self).wf(),
            final(self).edges() == connected(old(self).edges(), a as nat, b as nat),
            final(self).nodes() == old(self).nodes(),
            final(self).players == old(self).players,
            final(self).event == old(self).event,
    {
        if !board_find_edge(&self.cities, a, b) {
            board_add_edge(&mut self.cities, a, b);
            assert forall|i: int, j: int|
                0 <= i < j < self.edges().len() implies !joins(
                    #[trigger] self.edges()[j],
                    #[trigger] self.edges()[i].0,
                    self.edges()[i].1,
                ) by {
                if j == self.edges().len() - 1 {
                    if joins(self.edges()[j], self.edges()[i].0, self.edges()[i].1) {
                        assert(joins(old(self).edges()[i], a as nat, b as nat));
                    }
                } else {
                    assert(self.edges()[j] == old(self).edges()[j]);
                }
            }
        }
    }

    /// Adds a living player with no intel and no flags at `start_at`; its identity is
    /// its position in the roster.
    pub fn spawn_player(&mut self, start_at: LocationId) -> (r: PlayerId)
        requires
            old(self).wf(),
            start_at < old(self).nodes().len(),
            old(self).players@.len() < usize::MAX,
        ensures
            final(self).wf(),
            r == old(self).players@.len(),
            final(self).players@ == old(self).players@.push(Player::spawned(r, start_at)),
            final(self).event.private() == old(self).event.private().insert(
                r,
                queue_of(old(self).event.private(), r),
            ),
            final(self).event.public() == old(self).event.public(),
            final(self).cities == old(self).cities,
    {
        let id = self.players.len();
        let mut player = Player::default();
        player.alive = true;
        player.id = id;
        player.location = start_at;
        self.players.push(player);
        self.event.open_queue(id);
        id
    }

    /// The locations joined to `index` by an edge.
    pub fn neighbors(&self, index: LocationId) -> (r: Vec<LocationId>)
        requires
            self.wf(),
            index < self.nodes().len(),
        ensures
            forall|x: LocationId| r@.contains(x) <==> has_edge(self.edges(), index as nat, x as nat),
            r@.no_duplicates(),
    {
        board_neighbors(&self.cities, index)
    }

    /// A copy of every location, in handle order.
    pub fn locations(&self) -> (r: Vec<Location>)
        ensures
            r@ == self.nodes(),
    {
        board_node_weights(&self.cities)
    }

    /// Every edge as a pair of handles, each edge once.
    pub fn edges_list(&self) -> (r: Vec<(LocationId, LocationId)>)
        ensures
            r@.len() == self.edges().len(),
            forall|i: int|
                0 <= i < r@.len() ==> (r@[i].0 as nat, r@[i].1 as nat) == #[trigger] self.edges()[i],
    {
        board_edge_list(&self.cities)
    }

    /// Moves `pid` to `to` if an edge joins it to the current location. With active
    /// scan, every visible player already at `to` is revealed to the mover.
    pub fn try_move(&mut self, pid: PlayerId, to: LocationId) -> (r: bool)
        requires
            old(self).wf(),
            pid < old(self).players@.len(),
        ensures
            final(self).wf(),
            r == has_edge(old(self).edges(), old(self).players@[pid as int].location as nat, to as nat),
            r ==> move_post(*old(self), *final(self), pid, to),
            !r ==> *final(self) == *old(self),
    {
        let from = self.players[pid].location;
        if to >= board_node_count(&self.cities) {
            assert(!has_edge(self.edges(), from as nat, to as nat));
            return false;
        }
        if !board_find_edge(&self.cities, from, to) {
            return false;
        }
        let mut mover = self.players[pid];
        mover.location = to;
        self.players.set(pid, mover);
        let ghost moved = self.players@;
        let ghost private0 = self.event.private();
        if mover.active_scan {
            let n = self.players.len();
            let mut i: usize = 0;
            while i < n
                invariant
                    0 <= i <= n,
                    n == moved.len(),
                    self.players@ == moved,
                    self.cities == old(self).cities,
                    self.event.public() == old(self).event.public(),
                    self.event.private() == noted_all(private0, pid, reveals_at(moved, pid, to, i as nat)),
                    forall|p: int| 0 <= p < moved.len() ==> #[trigger] moved[p].id == p,
                decreases n - i,
            {
                let pl = self.players[i];
                if to == pl.location && pl.id != pid && !pl.invisible {
                    proof {
                        lemma_noted_all_push(private0, pid, reveals_at(moved, pid, to, i as nat), Observation::Reveal { who: i, at: to });
                    }
                    self.event.note(pid, Observation::Reveal { who: pl.id, at: pl.location });
                }
                i = i + 1;
            }
        }
        true
    }

    /// Collects the turn's income and reveals every visible player at the current
    /// location to `pid`; `pid`'s invisibility expires.
    pub fn start_turn(&mut self, pid: PlayerId)
        requires
            old(self).wf(),
            pid < old(self).players@.len(),
        ensures
            final(self).wf(),
            start_turn_post(*old(self), *final(self), pid),
    {
        let ghost pre = *self;
        let at = self.players[pid].location;
        let cur_city = board_node(&self.cities, at);
        let locations = board_node_weights(&self.cities);
        let mut income: u64 = 0;
        let mut k: usize = 0;
        while k < locations.len()
            invariant
                0 <= k <= locations.len(),
                locations@ == pre.nodes(),
                locations@.len() <= u32::MAX,
                income == controlled_income(locations@.take(k as int), pid),
                income <= k * (u32::MAX as int),
            decreases locations.len() - k,
        {
            assert(locations@.take(k + 1).drop_last() =~= locations@.take(k as int));
            if locations[k].control == Some(pid) {
                income = income + locations[k].base_income as u64;
            }
            k = k + 1;
        }
        assert(locations@.take(k as int) =~= locations@);
        let bonus: u64 = match cur_city.pending_powerup {
            Some(b) => b as u64,
            None => 0,
        };
        income = income + bonus;
        let n = self.players.len();
        let mut i: usize = 0;
        while i < n
            invariant
                0 <= i <= n,
                n == pre.players@.len(),
                pre.wf(),
                pid < n,
                at == pre.players@[pid as int].location,
                income == turn_income(pre, pid),
                income <= u32::MAX * (u32::MAX as int) + u32::MAX,
                self.cities == pre.cities,
                self.event.public() == pre.event.public(),
                self.event.private() == noted_all(pre.event.private(), pid, reveals_at(pre.players@, pid, at, i as nat)),
                self.players@.len() == n,
                forall|q: int| 0 <= q < i ==> #[trigger] self.players@[q] == after_turn_start(pre.players@[q], q, pid, at, income as int),
                forall|q: int| i <= q < n ==> #[trigger] self.players@[q] == pre.players@[q],
            decreases n - i,
        {
            let mut p = self.players[i];
            if i != pid && !p.invisible && at == p.location {
                p.concealed = false;
                self.players.set(i, p);
                proof {
                    lemma_noted_all_push(pre.event.private(), pid, reveals_at(pre.players@, pid, at, i as nat), Observation::Reveal { who: i, at });
                }
                self.event.note(pid, Observation::Reveal { who: i, at: p.location });
            }
            if i == pid {
                let total: u64 = p.intel as u64 + income;
                p.intel = if total > u32::MAX as u64 { u32::MAX } else { total as u32 };
                p.invisible = false;
                self.players.set(i, p);
            }
            i = i + 1;
        }
    }

    /// Dispatches `action` by `pid`; on success every resulting observation is already
    /// in the ledger.
    pub fn do_action(&mut self, pid: PlayerId, action: Action) -> (r: GameResult)
        requires
            old(self).wf(),
        ensures
            final(self).wf(),
            pid >= old(self).players@.len() ==> r == Err::<(), GameError>(GameError::InvalidHandle)
                && *final(self) == *old(self),
            pid < old(self).players@.len() ==> action_post(*old(self), *final(self), pid, action, r),
    {
        if pid >= self.players.len() {
            return Err(GameError::InvalidHandle);
        }
        match action {
            Action::Strike => {
                self.strike(pid);
                Ok(())
            },
            Action::Wait => {
                self.wait(pid);
                Ok(())
            },
            Action::Capture => {
                self.capture(pid);
                Ok(())
            },
            Action::HideSignals => self.hide_signals(pid),
            Action::Invisible => self.invisible_action(pid),
            Action::Prepare => {
                self.prepare(pid);
                Ok(())
            },
            Action::Move(to) => {
                if self.try_move(pid, to) {
                    Ok(())
                } else {
                    Err(GameError::WouldNoop)
                }
            },
            Action::Reveal(target) => self.reveal_action(pid, target),
        }
    }

    /// Every other player standing with `pid` is eliminated and learns it, as does
    /// `pid`; every other player learns of the strike, and where it happened only if
    /// it died there or sees violence.
    pub fn strike(&mut self, pid: PlayerId)
        requires
            old(self).wf(),
            pid < old(self).players@.len(),
        ensures
            final(self).wf(),
            strike_post(*old(self), *final(self), pid),
    {
        let ghost pre = *self;
        let at = self.players[pid].location;
        let n = self.players.len();
        let mut pl: usize = 0;
        while pl < n
            invariant
                0 <= pl <= n,
                n == pre.players@.len(),
                pid < n,
                pre.wf(),
                at == pre.players@[pid as int].location,
                self.cities == pre.cities,
                self.event.public() == pre.event.public(),
                appended(
                    pre.event.private(),
                    self.event.private(),
                    |q: PlayerId| strike_notes(pre.players@, pid, q, pl as nat),
                ),
                self.players@.len() == n,
                forall|q: int|
                    0 <= q < n ==> #[trigger] self.players@[q] == if q < pl && colocated(
                        pre.players@,
                        pid,
                        q,
                    ) {
                        Player { alive: false, ..pre.players@[q] }
                    } else {
                        pre.players@[q]
                    },
            decreases n - pl,
        {
            let ghost before = self.event.private();
            if pl != pid {
                let mut victim = self.players[pl];
                let died = victim.location == at;
                let death = Observation::Death { by: pid, of: pl };
                if died {
                    victim.alive = false;
                    self.players.set(pl, victim);
                    self.event.note(pid, death);
                    self.event.note(pl, death);
                }
                let seen = if victim.visible_violence || died {
                    Some(at)
                } else {
                    None
                };
                let strike = Observation::Strike { by: Some(pid), at: seen };
                self.event.note(pl, strike);
                proof {
                    lemma_strike_step(
                        pre.players@,
                        pid,
                        pl,
                        pre.event.private(),
                        before,
                        self.event.private(),
                        died,
                    );
                }
            } else {
                proof {
                    lemma_strike_skip(pre.players@, pid, pre.event.private(), self.event.private());
                }
            }
            pl = pl + 1;
        }
    }

    /// Broadcasts a wait notice.
    pub fn wait(&mut self, pid: PlayerId)
        requires
            old(self).wf(),
        ensures
            final(self).wf(),
            broadcast_post(*old(self), *final(self), Observation::WaitMove { by: Some(pid) }),
    {
        self.event.broadcast(Observation::WaitMove { by: Some(pid) });
    }

    /// `pid` takes control of its current location, publicly.
    pub fn capture(&mut self, pid: PlayerId)
        requires
            old(self).wf(),
            pid < old(self).players@.len(),
        ensures
            final(self).wf(),
            capture_post(*old(self), *final(self), pid),
    {
        let at = self.players[pid].location;
        let mut location = board_node(&self.cities, at);
        location.control = Some(pid);
        board_set_node(&mut self.cities, at, location);
        self.event.broadcast(Observation::Capture { by: pid, at });
    }

    /// Broadcasts that `pid` spent intel, naming the purchase unless its signals are hidden.
    fn intel_reveal(&mut self, pid: PlayerId, intel_kind: IntelKind)
        requires
            pid < old(self).players@.len(),
        ensures
            broadcast_post(*old(self), *final(self), intel_notice(old(self).players@[pid as int], pid, intel_kind)),
    {
        let kind = if self.players[pid].hidden_signals {
            None
        } else {
            Some(intel_kind)
        };
        self.event.broadcast(Observation::Intel { by: Some(pid), kind });
    }

    /// Buys hidden signals for `pid`.
    pub fn hide_signals(&mut self, pid: PlayerId) -> (r: GameResult)
        requires
            old(self).wf(),
        ensures
            final(self).wf(),
            pid >= old(self).players@.len() ==> r == Err::<(), GameError>(GameError::InvalidHandle)
                && *final(self) == *old(self),
            pid < old(self).players@.len() ==> hide_signals_post(*old(self), *final(self), pid, r),
    {
        if pid >= self.players.len() {
            return Err(GameError::InvalidHandle);
        }
        if self.players[pid].hidden_signals {
            return Err(GameError::WouldNoop);
        }
        let mut player = self.players[pid];
        match player.purchase(IntelKind::HideSignals) {
            Ok(()) => {},
            Err(e) => {
                return Err(e);
            },
        }
        self.players.set(pid, player);
        self.intel_reveal(pid, IntelKind::HideSignals);
        player.hidden_signals = true;
        self.players.set(pid, player);
        assert(self.players@ =~= old(self).players@.update(
            pid as int,
            Player { hidden_signals: true, ..Player { intel: (old(self).players@[pid as int].intel - IntelKind::HideSignals.spec_cost()) as Intel, ..old(self).players@[pid as int] } },
        ));
        Ok(())
    }

    /// Buys invisibility for `pid` until its next turn starts.
    pub fn invisible_action(&mut self, pid: PlayerId) -> (r: GameResult)
        requires
            old(self).wf(),
        ensures
            final(self).wf(),
            pid >= old(self).players@.len() ==> r == Err::<(), GameError>(GameError::InvalidHandle)
                && *final(self) == *old(self),
            pid < old(self).players@.len() ==> invisible_post(*old(self), *final(self), pid, r),
    {
        if pid >= self.players.len() {
            return Err(GameError::InvalidHandle);
        }
        if self.players[pid].invisible {
            return Err(GameError::WouldNoop);
        }
        let mut player = self.players[pid];
        match player.purchase(IntelKind::Invisible) {
            Ok(()) => {},
            Err(e) => {
                return Err(e);
            },
        }
        self.players.set(pid, player);
        self.intel_reveal(pid, IntelKind::Invisible);
        player.invisible = true;
        self.players.set(pid, player);
        assert(self.players@ =~= old(self).players@.update(
            pid as int,
            Player { invisible: true, ..Player { intel: (old(self).players@[pid as int].intel - IntelKind::Invisible.spec_cost()) as Intel, ..old(self).players@[pid as int] } },
        ));
        Ok(())
    }

    /// Pays for a reveal. With a target, `pid` learns where it is unless it is
    /// invisible; without one, `pid` learns of every other player whether it is visible
    /// at `pid`'s location. The purchase is broadcast.
    pub fn reveal_action(&mut self, pid: PlayerId, reveal: Option<PlayerId>) -> (r: GameResult)
        requires
            old(self).wf(),
        ensures
            final(self).wf(),
            !(pid < old(self).players@.len() && valid_target(*old(self), reveal)) ==> r == Err::<
                (),
                GameError,
            >(GameError::InvalidHandle) && *final(self) == *old(self),
            pid < old(self).players@.len() && valid_target(*old(self), reveal) ==> reveal_post(
                *old(self),
                *final(self),
                pid,
                reveal,
                r,
            ),
    {
        let ghost pre = *self;
        let n = self.players.len();
        if pid >= n {
            return Err(GameError::InvalidHandle);
        }
        if let Some(target) = reveal {
            if target >= n {
                return Err(GameError::InvalidHandle);
            }
        }
        let mut player = self.players[pid];
        match player.purchase(IntelKind::Reveal) {
            Ok(()) => {},
            Err(e) => {
                return Err(e);
            },
        }
        self.players.set(pid, player);
        let ghost paid = *self;
        match reveal {
            Some(target) => {
                let found = self.players[target];
                if !found.invisible {
                    self.event.note(pid, Observation::Reveal { who: target, at: found.location });
                } else {
                    self.event.note(pid, Observation::RevealFailure { who: target });
                }
                assert(queue_of(pre.event.private(), pid).push(reveal_of(pre.players@, target))
                    =~= queue_of(pre.event.private(), pid) + seq![reveal_of(pre.players@, target)]);
                assert(noted(pre.event.private(), pid, reveal_of(pre.players@, target))
                    =~= noted_all(pre.event.private(), pid, seq![reveal_of(pre.players@, target)]));
            },
            None => {
                let at = player.location;
                let mut q: usize = 0;
                while q < n
                    invariant
                        0 <= q <= n,
                        n == pre.players@.len(),
                        pid < n,
                        pre.wf(),
                        at == pre.players@[pid as int].location,
                        self.cities == pre.cities,
                        self.players == paid.players,
                        paid.players@ == pre.players@.update(pid as int, player),
                        player == (Player { intel: player.intel, ..pre.players@[pid as int] }),
                        self.event.public() == pre.event.public(),
                        self.event.private() == noted_all(
                            pre.event.private(),
                            pid,
                            reveal_sweep(pre.players@, pid, q as nat),
                        ),
                    decreases n - q,
                {
                    if q != pid {
                        let other = self.players[q];
                        let obs = if !other.invisible && other.location == at {
                            Observation::Reveal { who: q, at: other.location }
                        } else {
                            Observation::RevealFailure { who: q }
                        };
                        proof {
                            lemma_noted_all_push(
                                pre.event.private(),
                                pid,
                                reveal_sweep(pre.players@, pid, q as nat),
                                obs,
                            );
                        }
                        self.event.note(pid, obs);
                    }
                    q = q + 1;
                }
            },
        }
        self.intel_reveal(pid, IntelKind::Reveal);
        Ok(())
    }

    /// Broadcasts the (free) preparation notice of `pid`.
    pub fn prepare(&mut self, pid: PlayerId)
        requires
            old(self).wf(),
            pid < old(self).players@.len(),
        ensures
            final(self).wf(),
            broadcast_post(*old(self), *final(self), intel_notice(old(self).players@[pid as int], pid, IntelKind::Prepare)),
    {
        self.intel_reveal(pid, IntelKind::Prepare);
    }

    /// Empties the ledger once its observations have been delivered.
    pub fn reset_event(&mut self)
        ensures
            final(self).event.private() == no_queues(),
            final(self).event.public() == Seq::<Observation>::empty(),
            final(self).cities == old(self).cities,
            final(self).players == old(self).players,
    {
        self.event = Event::default();
    }
}

} // verus!
