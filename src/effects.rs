//! What each action does to a game, stated over the game's model, with the lemmas
//! that carry the resolver's loops.

use vstd::prelude::*;
use crate::board::{Location, has_edge};
use crate::game::{Action, Game};
use crate::intel::{GameError, GameResult, Intel, IntelKind, LocationId, Player, PlayerId};
use crate::ledger::{Observation, appended, noted, queue_of};

verus! {

/// The edge list after connecting `a` and `b`: unchanged where they are already joined.
pub open spec fn connected(edges: Seq<(nat, nat)>, a: nat, b: nat) -> Seq<(nat, nat)> {
    if has_edge(edges, a, b) {
        edges
    } else {
        edges.push((a, b))
    }
}

/// `q` with the observations `s` appended to the queue of `pid`.
pub open spec fn noted_all(
    q: Map<PlayerId, Seq<Observation>>,
    pid: PlayerId,
    s: Seq<Observation>,
) -> Map<PlayerId, Seq<Observation>> {
    if s.len() == 0 {
        q
    } else {
        q.insert(pid, queue_of(q, pid) + s)
    }
}

pub(crate) proof fn lemma_noted_all_push(
    q: Map<PlayerId, Seq<Observation>>,
    pid: PlayerId,
    s: Seq<Observation>,
    obs: Observation,
)
    ensures
        noted(noted_all(q, pid, s), pid, obs) == noted_all(q, pid, s.push(obs)),
{
    assert(queue_of(q, pid) + s.push(obs) =~= (queue_of(q, pid) + s).push(obs));
    assert(noted(noted_all(q, pid, s), pid, obs) =~= noted_all(q, pid, s.push(obs)));
}

/// The players among the first `k` of the roster, other than `pid`, who stand at `at`
/// and are not invisible, each as a reveal observation, in roster order.
pub open spec fn reveals_at(players: Seq<Player>, pid: PlayerId, at: LocationId, k: nat) -> Seq<
    Observation,
>
    decreases k,
{
    if k == 0 {
        Seq::empty()
    } else {
        let q = (k - 1) as int;
        let prev = reveals_at(players, pid, at, (k - 1) as nat);
        if q != pid && !players[q].invisible && players[q].location == at {
            prev.push(Observation::Reveal { who: q as PlayerId, at })
        } else {
            prev
        }
    }
}

/// The sum of the base income of the locations that `pid` controls.
pub open spec fn controlled_income(locations: Seq<Location>, pid: PlayerId) -> int
    decreases locations.len(),
{
    if locations.len() == 0 {
        0
    } else {
        let last = locations.last();
        controlled_income(locations.drop_last(), pid) + if last.control == Some(pid) {
            last.base_income as int
        } else {
            0
        }
    }
}

/// The pending bonus of a location, 0 if none.
pub open spec fn pending_of(location: Location) -> int {
    match location.pending_powerup {
        Some(bonus) => bonus as int,
        None => 0,
    }
}

/// The income of `pid` at the start of its turn.
pub open spec fn turn_income(g: Game, pid: PlayerId) -> int {
    controlled_income(g.nodes(), pid) + pending_of(g.nodes()[g.players@[pid as int].location as int])
}

/// `intel + income`, held at the largest balance.
pub open spec fn credited(intel: Intel, income: int) -> Intel {
    if intel + income > u32::MAX {
        u32::MAX
    } else {
        (intel + income) as Intel
    }
}

/// What becomes of player `q` when `pid`, standing at `at`, starts a turn with `income`.
pub open spec fn after_turn_start(
    p: Player,
    q: int,
    pid: PlayerId,
    at: LocationId,
    income: int,
) -> Player {
    if q == pid {
        Player { intel: credited(p.intel, income), invisible: false, ..p }
    } else if !p.invisible && p.location == at {
        Player { concealed: false, ..p }
    } else {
        p
    }
}

/// The effect of `start_turn(pid)` on `pre`.
pub open spec fn start_turn_post(pre: Game, post: Game, pid: PlayerId) -> bool {
    let at = pre.players@[pid as int].location;
    let n = pre.players@.len();
    &&& post.players@.len() == n
    &&& forall|q: int|
        0 <= q < n ==> #[trigger] post.players@[q] == after_turn_start(
            pre.players@[q],
            q,
            pid,
            at,
            turn_income(pre, pid),
        )
    &&& post.event.private() == noted_all(pre.event.private(), pid, reveals_at(pre.players@, pid, at, n))
    &&& post.event.public() == pre.event.public()
    &&& post.cities == pre.cities
}

/// The effect of a move of `pid` to `to`, given that an edge allows it.
pub open spec fn move_post(pre: Game, post: Game, pid: PlayerId, to: LocationId) -> bool {
    let moved = pre.players@.update(pid as int, Player { location: to, ..pre.players@[pid as int] });
    let seen = if pre.players@[pid as int].active_scan {
        reveals_at(moved, pid, to, moved.len())
    } else {
        Seq::empty()
    };
    &&& post.players@ == moved
    &&& post.event.private() == noted_all(pre.event.private(), pid, seen)
    &&& post.event.public() == pre.event.public()
    &&& post.cities == pre.cities
}

/// Whether `q` is another player standing where `pid` stands.
pub open spec fn colocated(players: Seq<Player>, pid: PlayerId, q: int) -> bool {
    q != pid && players[q].location == players[pid as int].location
}

/// The deaths that a strike by `pid` causes among the first `k` players, in roster order.
pub open spec fn strike_deaths(players: Seq<Player>, pid: PlayerId, k: nat) -> Seq<Observation>
    decreases k,
{
    if k == 0 {
        Seq::empty()
    } else {
        let q = (k - 1) as int;
        let prev = strike_deaths(players, pid, (k - 1) as nat);
        if colocated(players, pid, q) {
            prev.push(Observation::Death { by: pid, of: q as PlayerId })
        } else {
            prev
        }
    }
}

/// What another player `q` learns of a strike by `pid`: its own death if it stood
/// there, then the strike, located only for a victim or a player with visible violence.
pub open spec fn strike_seen(players: Seq<Player>, pid: PlayerId, q: int) -> Seq<Observation> {
    let died = colocated(players, pid, q);
    let at = if players[q].visible_violence || died {
        Some(players[pid as int].location)
    } else {
        None
    };
    let strike = Observation::Strike { by: Some(pid), at };
    if died {
        seq![Observation::Death { by: pid, of: q as PlayerId }, strike]
    } else {
        seq![strike]
    }
}

/// What player `q` learns of a strike by `pid` once the first `k` players are handled.
pub open spec fn strike_notes(players: Seq<Player>, pid: PlayerId, q: PlayerId, k: nat) -> Seq<
    Observation,
> {
    if q == pid {
        strike_deaths(players, pid, k)
    } else if q < k {
        strike_seen(players, pid, q as int)
    } else {
        Seq::empty()
    }
}

/// The effect of a strike by `pid`.
pub open spec fn strike_post(pre: Game, post: Game, pid: PlayerId) -> bool {
    let n = pre.players@.len();
    &&& post.players@.len() == n
    &&& forall|q: int|
        0 <= q < n ==> #[trigger] post.players@[q] == if colocated(pre.players@, pid, q) {
            Player { alive: false, ..pre.players@[q] }
        } else {
            pre.players@[q]
        }
    &&& appended(
        pre.event.private(),
        post.event.private(),
        |q: PlayerId| strike_notes(pre.players@, pid, q, n),
    )
    &&& post.event.public() == pre.event.public()
    &&& post.cities == pre.cities
}

/// The effect of a public observation `obs`.
pub open spec fn broadcast_post(pre: Game, post: Game, obs: Observation) -> bool {
    &&& post.players == pre.players
    &&& post.event.private() == pre.event.private()
    &&& post.event.public() == pre.event.public().push(obs)
    &&& post.cities == pre.cities
}

/// The effect of a capture by `pid`.
pub open spec fn capture_post(pre: Game, post: Game, pid: PlayerId) -> bool {
    let at = pre.players@[pid as int].location;
    &&& post.nodes() == pre.nodes().update(at as int, Location { control: Some(pid), ..pre.nodes()[at as int] })
    &&& post.edges() == pre.edges()
    &&& post.players == pre.players
    &&& post.event.private() == pre.event.private()
    &&& post.event.public() == pre.event.public().push(Observation::Capture { by: pid, at })
}

/// The intel-spend notice about `pid` buying `kind`: the purchase is withheld
/// when signals are hidden.
pub open spec fn intel_notice(p: Player, pid: PlayerId, kind: IntelKind) -> Observation {
    Observation::Intel { by: Some(pid), kind: if p.hidden_signals { None } else { Some(kind) } }
}

/// The effect of a purchase-gated toggle: `flag_on` and `set_flag` read and set the flag.
pub open spec fn toggle_post(
    pre: Game,
    post: Game,
    pid: PlayerId,
    kind: IntelKind,
    r: GameResult,
    flag_on: spec_fn(Player) -> bool,
    set_flag: spec_fn(Player) -> Player,
) -> bool {
    let p = pre.players@[pid as int];
    if flag_on(p) {
        r == Err::<(), GameError>(GameError::WouldNoop) && post == pre
    } else if p.intel < kind.spec_cost() {
        r == Err::<(), GameError>(GameError::NotEnoughIntel) && post == pre
    } else {
        &&& r is Ok
        &&& post.players@ == pre.players@.update(
            pid as int,
            set_flag(Player { intel: (p.intel - kind.spec_cost()) as Intel, ..p }),
        )
        &&& post.event.private() == pre.event.private()
        &&& post.event.public() == pre.event.public().push(intel_notice(p, pid, kind))
        &&& post.cities == pre.cities
    }
}

/// The effect of `hide_signals(pid)` on a valid player.
pub open spec fn hide_signals_post(pre: Game, post: Game, pid: PlayerId, r: GameResult) -> bool {
    toggle_post(
        pre,
        post,
        pid,
        IntelKind::HideSignals,
        r,
        |p: Player| p.hidden_signals,
        |p: Player| Player { hidden_signals: true, ..p },
    )
}

/// The effect of `invisible_action(pid)` on a valid player.
pub open spec fn invisible_post(pre: Game, post: Game, pid: PlayerId, r: GameResult) -> bool {
    toggle_post(
        pre,
        post,
        pid,
        IntelKind::Invisible,
        r,
        |p: Player| p.invisible,
        |p: Player| Player { invisible: true, ..p },
    )
}

/// What a reveal of `target` tells: its location, unless it is invisible.
pub open spec fn reveal_of(players: Seq<Player>, target: PlayerId) -> Observation {
    if !players[target as int].invisible {
        Observation::Reveal { who: target, at: players[target as int].location }
    } else {
        Observation::RevealFailure { who: target }
    }
}

/// A reveal without target over the first `k` players: each other player is found
/// if visible and co-located with `pid`, and otherwise reported as a failure.
pub open spec fn reveal_sweep(players: Seq<Player>, pid: PlayerId, k: nat) -> Seq<Observation>
    decreases k,
{
    if k == 0 {
        Seq::empty()
    } else {
        let q = (k - 1) as int;
        let prev = reveal_sweep(players, pid, (k - 1) as nat);
        if q == pid {
            prev
        } else if !players[q].invisible && players[q].location == players[pid as int].location {
            prev.push(Observation::Reveal { who: q as PlayerId, at: players[q].location })
        } else {
            prev.push(Observation::RevealFailure { who: q as PlayerId })
        }
    }
}

/// Whether a reveal request names a player that exists.
pub open spec fn valid_target(g: Game, target: Option<PlayerId>) -> bool {
    match target {
        Some(t) => t < g.players@.len(),
        None => true,
    }
}

/// The effect of `reveal_action(pid, target)` for a valid player and target.
pub open spec fn reveal_post(
    pre: Game,
    post: Game,
    pid: PlayerId,
    target: Option<PlayerId>,
    r: GameResult,
) -> bool {
    let p = pre.players@[pid as int];
    if p.intel < IntelKind::Reveal.spec_cost() {
        r == Err::<(), GameError>(GameError::NotEnoughIntel) && post == pre
    } else {
        let found = match target {
            Some(t) => seq![reveal_of(pre.players@, t)],
            None => reveal_sweep(pre.players@, pid, pre.players@.len()),
        };
        &&& r is Ok
        &&& post.players@ == pre.players@.update(
            pid as int,
            Player { intel: (p.intel - IntelKind::Reveal.spec_cost()) as Intel, ..p },
        )
        &&& post.event.private() == noted_all(pre.event.private(), pid, found)
        &&& post.event.public() == pre.event.public().push(intel_notice(p, pid, IntelKind::Reveal))
        &&& post.cities == pre.cities
    }
}

/// The effect of `do_action(pid, action)` for a player that exists.
pub open spec fn action_post(pre: Game, post: Game, pid: PlayerId, action: Action, r: GameResult) -> bool {
    let p = pre.players@[pid as int];
    match action {
        Action::Strike => r is Ok && strike_post(pre, post, pid),
        Action::Wait => r is Ok && broadcast_post(pre, post, Observation::WaitMove { by: Some(pid) }),
        Action::Capture => r is Ok && capture_post(pre, post, pid),
        Action::HideSignals => hide_signals_post(pre, post, pid, r),
        Action::Invisible => invisible_post(pre, post, pid, r),
        Action::Prepare => r is Ok && broadcast_post(pre, post, intel_notice(p, pid, IntelKind::Prepare)),
        Action::Move(to) => if has_edge(pre.edges(), p.location as nat, to as nat) {
            r is Ok && move_post(pre, post, pid, to)
        } else {
            r == Err::<(), GameError>(GameError::WouldNoop) && post == pre
        },
        Action::Reveal(target) => if valid_target(pre, target) {
            reveal_post(pre, post, pid, target, r)
        } else {
            r == Err::<(), GameError>(GameError::InvalidHandle) && post == pre
        },
    }
}

pub(crate) proof fn lemma_strike_skip(
    players: Seq<Player>,
    pid: PlayerId,
    base: Map<PlayerId, Seq<Observation>>,
    cur: Map<PlayerId, Seq<Observation>>,
)
    requires
        appended(base, cur, |q: PlayerId| strike_notes(players, pid, q, pid as nat)),
    ensures
        appended(base, cur, |q: PlayerId| strike_notes(players, pid, q, (pid + 1) as nat)),
{
    assert forall|q: PlayerId|
        #[trigger] strike_notes(players, pid, q, (pid + 1) as nat) == strike_notes(players, pid, q, pid as nat) by {
        if q == pid {
            assert(!colocated(players, pid, pid as int));
        }
    }
}

pub(crate) proof fn lemma_strike_step(
    players: Seq<Player>,
    pid: PlayerId,
    pl: PlayerId,
    base: Map<PlayerId, Seq<Observation>>,
    before: Map<PlayerId, Seq<Observation>>,
    after: Map<PlayerId, Seq<Observation>>,
    died: bool,
)
    requires
        pl < players.len(),
        pid < players.len(),
        pl != pid,
        died == colocated(players, pid, pl as int),
        appended(base, before, |q: PlayerId| strike_notes(players, pid, q, pl as nat)),
        after == ({
            let death = Observation::Death { by: pid, of: pl };
            let at = if players[pl as int].visible_violence || died {
                Some(players[pid as int].location)
            } else {
                None
            };
            let strike = Observation::Strike { by: Some(pid), at };
            if died {
                noted(noted(noted(before, pid, death), pl, death), pl, strike)
            } else {
                noted(before, pl, strike)
            }
        }),
    ensures
        appended(base, after, |q: PlayerId| strike_notes(players, pid, q, (pl + 1) as nat)),
{
    let death = Observation::Death { by: pid, of: pl };
    let at = if players[pl as int].visible_violence || died {
        Some(players[pid as int].location)
    } else {
        None
    };
    let strike = Observation::Strike { by: Some(pid), at };
    let old_notes = |q: PlayerId| strike_notes(players, pid, q, pl as nat);
    let new_notes = |q: PlayerId| strike_notes(players, pid, q, (pl + 1) as nat);
    assert(strike_seen(players, pid, pl as int) == if died {
        seq![death, strike]
    } else {
        seq![strike]
    });
    assert(strike_deaths(players, pid, (pl + 1) as nat) == if died {
        strike_deaths(players, pid, pl as nat).push(death)
    } else {
        strike_deaths(players, pid, pl as nat)
    });
    assert forall|q: PlayerId| #[trigger] queue_of(after, q) == queue_of(base, q) + new_notes(q) by {
        assert(queue_of(before, q) == queue_of(base, q) + old_notes(q));
        if q == pid {
            if died {
                assert(queue_of(after, q) == queue_of(before, q).push(death));
                assert((queue_of(base, q) + old_notes(q)).push(death) =~= queue_of(base, q) + old_notes(
                    q,
                ).push(death));
            } else {
                assert(queue_of(after, q) == queue_of(before, q));
            }
        } else if q == pl {
            assert(old_notes(q) == Seq::<Observation>::empty());
            assert(queue_of(before, q) =~= queue_of(base, q));
            if died {
                assert(queue_of(after, q) =~= queue_of(before, q).push(death).push(strike));
            } else {
                assert(queue_of(after, q) =~= queue_of(before, q).push(strike));
            }
            assert(queue_of(after, q) =~= queue_of(base, q) + new_notes(q));
        } else {
            assert(queue_of(after, q) == queue_of(before, q));
            assert(new_notes(q) == old_notes(q));
        }
    }
    assert forall|q: PlayerId|
        #[trigger] after.contains_key(q) <==> (base.contains_key(q) || new_notes(q).len() > 0) by {
        assert(before.contains_key(q) <==> (base.contains_key(q) || old_notes(q).len() > 0));
        if q != pid && q != pl {
            assert(after.contains_key(q) == before.contains_key(q));
            assert(new_notes(q) == old_notes(q));
        }
    }
}

} // verus!
