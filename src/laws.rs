//! Properties that hold of every game, proved from the resolver's contracts.

use vstd::prelude::*;
use crate::board::{has_edge, joins, simple};
use crate::effects::{
    colocated, connected, credited, noted_all, reveal_of, reveal_post, start_turn_post,
    strike_deaths, strike_notes, strike_post, turn_income,
};
use crate::game::Game;
use crate::intel::{GameResult, Player, PlayerId};
use crate::ledger::{Observation, queue_of};

verus! {

/// The number of edges that join `a` and `b`.
pub open spec fn edges_between(edges: Seq<(nat, nat)>, a: nat, b: nat) -> nat
    decreases edges.len(),
{
    if edges.len() == 0 {
        0
    } else {
        edges_between(edges.drop_last(), a, b) + if joins(edges.last(), a, b) {
            1nat
        } else {
            0nat
        }
    }
}

proof fn lemma_edges_between_has_edge(edges: Seq<(nat, nat)>, a: nat, b: nat)
    ensures
        (edges_between(edges, a, b) > 0) == has_edge(edges, a, b),
    decreases edges.len(),
{
    if edges.len() > 0 {
        let prefix = edges.drop_last();
        lemma_edges_between_has_edge(prefix, a, b);
        if has_edge(prefix, a, b) {
            let i = choose|i: int| 0 <= i < prefix.len() && #[trigger] joins(prefix[i], a, b);
            assert(joins(edges[i], a, b));
        }
        if has_edge(edges, a, b) && !joins(edges.last(), a, b) {
            let i = choose|i: int| 0 <= i < edges.len() && #[trigger] joins(edges[i], a, b);
            assert(joins(prefix[i], a, b));
        }
    }
}

proof fn lemma_edges_between_unique(edges: Seq<(nat, nat)>, a: nat, b: nat)
    requires
        simple(edges),
    ensures
        edges_between(edges, a, b) <= 1,
    decreases edges.len(),
{
    if edges.len() > 0 {
        let prefix = edges.drop_last();
        lemma_edges_between_unique(prefix, a, b);
        lemma_edges_between_has_edge(prefix, a, b);
        if joins(edges.last(), a, b) && has_edge(prefix, a, b) {
            let i = choose|i: int| 0 <= i < prefix.len() && #[trigger] joins(prefix[i], a, b);
            assert(joins(edges[edges.len() - 1], edges[i].0, edges[i].1));
        }
    }
}

proof fn lemma_connected_once(edges: Seq<(nat, nat)>, a: nat, b: nat)
    requires
        edges_between(edges, a, b) <= 1,
    ensures
        edges_between(connected(edges, a, b), a, b) == 1,
        edges_between(connected(edges, a, b), b, a) == 1,
        has_edge(connected(edges, a, b), a, b),
        has_edge(connected(edges, a, b), b, a),
{
    lemma_edges_between_has_edge(edges, a, b);
    let e = connected(edges, a, b);
    if !has_edge(edges, a, b) {
        assert(e.drop_last() == edges);
    }
    lemma_edges_between_has_edge(e, a, b);
    lemma_edges_between_swap(e, a, b);
    lemma_edges_between_has_edge(e, b, a);
}

proof fn lemma_edges_between_swap(edges: Seq<(nat, nat)>, a: nat, b: nat)
    ensures
        edges_between(edges, a, b) == edges_between(edges, b, a),
    decreases edges.len(),
{
    if edges.len() > 0 {
        lemma_edges_between_swap(edges.drop_last(), a, b);
    }
}

/// Connecting two locations twice, in either argument order, leaves exactly one
/// edge between them.
pub proof fn lemma_connect_twice(g: Game, a: nat, b: nat)
    requires
        g.wf(),
    ensures
        edges_between(connected(connected(g.edges(), a, b), a, b), a, b) == 1,
        edges_between(connected(connected(g.edges(), a, b), b, a), a, b) == 1,
{
    lemma_edges_between_unique(g.edges(), a, b);
    lemma_connected_once(g.edges(), a, b);
    let once = connected(g.edges(), a, b);
    assert(connected(once, a, b) == once);
    assert(connected(once, b, a) == once);
}

/// Starting a turn credits exactly the base income of every location the player
/// controls plus the pending bonus where it stands (held at the largest balance),
/// and ends its invisibility.
pub proof fn lemma_turn_income(pre: Game, post: Game, pid: PlayerId)
    requires
        pre.wf(),
        pid < pre.players@.len(),
        start_turn_post(pre, post, pid),
    ensures
        post.players@[pid as int].intel == credited(pre.players@[pid as int].intel, turn_income(pre, pid)),
        !post.players@[pid as int].invisible,
{
    assert(post.players@[pid as int] == post.players@[pid as int]);
}

/// A reveal aimed at an invisible player tells the requester only that it failed,
/// naming the target and no location.
pub proof fn lemma_reveal_invisible(pre: Game, post: Game, pid: PlayerId, target: PlayerId, r: GameResult)
    requires
        pre.wf(),
        pid < pre.players@.len(),
        target < pre.players@.len(),
        pre.players@[target as int].invisible,
        reveal_post(pre, post, pid, Some(target), r),
        r is Ok,
    ensures
        queue_of(post.event.private(), pid) == queue_of(pre.event.private(), pid).push(
            Observation::RevealFailure { who: target },
        ),
{
    assert(reveal_of(pre.players@, target) == Observation::RevealFailure { who: target });
    let found = seq![Observation::RevealFailure { who: target }];
    assert(noted_all(pre.event.private(), pid, found)[pid] =~= queue_of(pre.event.private(), pid).push(
        Observation::RevealFailure { who: target },
    ));
}

proof fn lemma_strike_deaths(players: Seq<Player>, pid: PlayerId, k: nat, d: PlayerId)
    requires
        k <= players.len(),
        players.len() <= usize::MAX,
        pid < players.len(),
    ensures
        strike_deaths(players, pid, k).contains(Observation::Death { by: pid, of: d }) <==> (d < k
            && colocated(players, pid, d as int)),
        forall|o: Observation| #[trigger]
            strike_deaths(players, pid, k).contains(o) ==> o is Death,
    decreases k,
{
    if k > 0 {
        lemma_strike_deaths(players, pid, (k - 1) as nat, d);
        let prev = strike_deaths(players, pid, (k - 1) as nat);
        let q = (k - 1) as int;
        if colocated(players, pid, q) {
            let o = Observation::Death { by: pid, of: q as PlayerId };
            assert(prev.push(o)[prev.len() as int] == o);
            assert(prev.push(o).contains(o));
            if d as int == q {
                assert(o == Observation::Death { by: pid, of: d });
            }
            assert forall|x: Observation| #[trigger] prev.push(o).contains(x) implies prev.contains(x) || x == o by {
                let i = choose|i: int| 0 <= i < prev.push(o).len() && prev.push(o)[i] == x;
                if i < prev.len() {
                    assert(prev[i] == x);
                }
            }
            if prev.contains(Observation::Death { by: pid, of: d }) {
                let i = choose|i: int| 0 <= i < prev.len() && prev[i] == Observation::Death { by: pid, of: d };
                assert(prev.push(o)[i] == prev[i]);
            }
            assert forall|x: Observation| prev.contains(x) implies #[trigger] prev.push(o).contains(x) by {
                let i = choose|i: int| 0 <= i < prev.len() && prev[i] == x;
                assert(prev.push(o)[i] == prev[i]);
            }
        }
    }
}

/// A strike eliminates exactly the other players at the striker's location; a Death
/// observation goes to the striker and to each victim and to no one else; a player
/// elsewhere without visible violence learns of the strike without its location.
pub proof fn lemma_strike_observations(pre: Game, post: Game, pid: PlayerId)
    requires
        pre.wf(),
        pid < pre.players@.len(),
        strike_post(pre, post, pid),
    ensures
        forall|v: int|
            0 <= v < pre.players@.len() && colocated(pre.players@, pid, v) ==> !(
            #[trigger] post.players@[v]).alive,
        forall|q: PlayerId, d: PlayerId|
            d < pre.players@.len() ==> (#[trigger] strike_notes(
                pre.players@,
                pid,
                q,
                pre.players@.len(),
            ).contains(Observation::Death { by: pid, of: d }) <==> colocated(
                pre.players@,
                pid,
                d as int,
            ) && (q == pid || q == d)),
        forall|q: PlayerId|
            q < pre.players@.len() && q != pid && !colocated(pre.players@, pid, q as int)
                && !pre.players@[q as int].visible_violence ==> #[trigger] strike_notes(
                pre.players@,
                pid,
                q,
                pre.players@.len(),
            ) == seq![Observation::Strike { by: Some(pid), at: None }],
        forall|q: PlayerId|
            #[trigger] queue_of(post.event.private(), q) == queue_of(pre.event.private(), q)
                + strike_notes(pre.players@, pid, q, pre.players@.len()),
{
    let n = pre.players@.len();
    assert forall|q: PlayerId, d: PlayerId|
        d < n implies (#[trigger] strike_notes(pre.players@, pid, q, n).contains(
        Observation::Death { by: pid, of: d },
    ) <==> colocated(pre.players@, pid, d as int) && (q == pid || q == d)) by {
        let death = Observation::Death { by: pid, of: d };
        if q == pid {
            lemma_strike_deaths(pre.players@, pid, n, d);
        } else if q < n {
            let s = strike_notes(pre.players@, pid, q, n);
            if colocated(pre.players@, pid, q as int) {
                if q == d {
                    assert(s[0] == death);
                } else if s.contains(death) {
                    let i = choose|i: int| 0 <= i < s.len() && s[i] == death;
                    assert(i == 0 || i == 1);
                }
            } else if s.contains(death) {
                let i = choose|i: int| 0 <= i < s.len() && s[i] == death;
                assert(i == 0);
            }
        }
    }
}

} // verus!
