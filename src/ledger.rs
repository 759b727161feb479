//! Observations and the per-cycle ledger that collects them.

use vstd::prelude::*;
use vecmap::VecMap;
use crate::intel::{IntelKind, LocationId, PlayerId};

verus! {

#[verifier::external_type_specification]
#[verifier::external_body]
#[verifier::reject_recursive_types(K)]
#[verifier::reject_recursive_types(V)]
pub struct ExVecMap<K, V>(VecMap<K, V>);

/// One fact that a recipient is allowed to learn.
#[derive(Debug, Clone, Copy, PartialEq, Eq, Structural)]
#[allow(inconsistent_fields)]
pub enum Observation {
    /// `by` eliminated `of`.
    Death { by: PlayerId, of: PlayerId },
    /// A strike, with its location only where the recipient may know it.
    Strike { by: Option<PlayerId>, at: Option<LocationId> },
    /// A wait notice.
    WaitMove { by: Option<PlayerId> },
    /// `by` captured `at`.
    Capture { by: PlayerId, at: LocationId },
    /// Intel was spent; the purchase is named unless signals are hidden.
    Intel { by: Option<PlayerId>, kind: Option<IntelKind> },
    /// `who` was found at `at`.
    Reveal { who: PlayerId, at: LocationId },
    /// An attempt to find `who` failed.
    RevealFailure { who: PlayerId },
}

/// The character of the decimal digit `d`.
pub open spec fn digit_char(d: nat) -> char {
    if d == 0 {
        '0'
    } else if d == 1 {
        '1'
    } else if d == 2 {
        '2'
    } else if d == 3 {
        '3'
    } else if d == 4 {
        '4'
    } else if d == 5 {
        '5'
    } else if d == 6 {
        '6'
    } else if d == 7 {
        '7'
    } else if d == 8 {
        '8'
    } else {
        '9'
    }
}

/// The decimal notation of `n`, without leading zeros.
pub open spec fn decimal(n: nat) -> Seq<char>
    decreases n,
{
    if n < 10 {
        seq![digit_char(n)]
    } else {
        decimal(n / 10).push(digit_char(n % 10))
    }
}

fn digit_str(d: usize) -> (r: &'static str)
    requires
        d < 10,
    ensures
        r@ == seq![digit_char(d as nat)],
{
    proof {
        reveal_strlit("0");
        reveal_strlit("1");
        reveal_strlit("2");
        reveal_strlit("3");
        reveal_strlit("4");
        reveal_strlit("5");
        reveal_strlit("6");
        reveal_strlit("7");
        reveal_strlit("8");
        reveal_strlit("9");
    }
    let r = if d == 0 {
        "0"
    } else if d == 1 {
        "1"
    } else if d == 2 {
        "2"
    } else if d == 3 {
        "3"
    } else if d == 4 {
        "4"
    } else if d == 5 {
        "5"
    } else if d == 6 {
        "6"
    } else if d == 7 {
        "7"
    } else if d == 8 {
        "8"
    } else {
        "9"
    };
    assert(r@ =~= seq![digit_char(d as nat)]);
    r
}

/// `n` in decimal notation.
pub fn decimal_string(n: usize) -> (r: String)
    ensures
        r@ == decimal(n as nat),
    decreases n,
{
    if n < 10 {
        String::from_str(digit_str(n))
    } else {
        let mut s = decimal_string(n / 10);
        s.append(digit_str(n % 10));
        assert(s@ =~= decimal(n as nat));
        s
    }
}

impl IntelKind {
    /// The name of the purchase.
    pub open spec fn spec_name(self) -> Seq<char> {
        match self {
            IntelKind::HideSignals => "HideSignals"@,
            IntelKind::Reveal => "Reveal"@,
            IntelKind::Invisible => "Invisible"@,
            IntelKind::Prepare => "Prepare"@,
        }
    }

    pub fn name(&self) -> (r: &'static str)
        ensures
            r@ == self.spec_name(),
    {
        match self {
            IntelKind::HideSignals => "HideSignals",
            IntelKind::Reveal => "Reveal",
            IntelKind::Invisible => "Invisible",
            IntelKind::Prepare => "Prepare",
        }
    }
}

/// `prefix`, the decimal notation of `n`, then `suffix`.
pub open spec fn around(prefix: Seq<char>, n: nat, suffix: Seq<char>) -> Seq<char> {
    prefix + decimal(n) + suffix
}

fn text_around(prefix: &str, n: usize, suffix: &str) -> (r: String)
    ensures
        r@ == around(prefix@, n as nat, suffix@),
{
    let mut s = String::from_str(prefix);
    let digits = decimal_string(n);
    s.append(digits.as_str());
    s.append(suffix);
    assert(s@ =~= around(prefix@, n as nat, suffix@));
    s
}

impl Observation {
    /// A sentence describing the observation.
    pub open spec fn spec_describe(self) -> Seq<char> {
        match self {
            Observation::Death { by, of } => around("Player "@, by as nat, " eliminated player "@)
                + decimal(of as nat),
            Observation::Strike { by, at } => match (by, at) {
                (Some(by), Some(at)) => around("Player "@, by as nat, " struck location "@)
                    + decimal(at as nat),
                (Some(by), None) => around("Player "@, by as nat, " launched a covert strike"@),
                (None, _) => "A mysterious strike occurred"@,
            },
            Observation::WaitMove { by } => match by {
                Some(pid) => around("Player "@, pid as nat, " waited"@),
                None => "An unknown player waited"@,
            },
            Observation::Capture { by, at } => around("Player "@, by as nat, " captured location "@)
                + decimal(at as nat),
            Observation::Intel { by, kind } => match (by, kind) {
                (Some(pid), Some(kind)) => around("Player "@, pid as nat, " spent intel on "@)
                    + kind.spec_name(),
                (Some(pid), None) => around("Player "@, pid as nat, " spent intel"@),
                (None, _) => "Intel activity detected"@,
            },
            Observation::Reveal { who, at } => around("Player "@, who as nat, " was revealed at "@)
                + decimal(at as nat),
            Observation::RevealFailure { who } => around(
                "Attempted reveal on player "@,
                who as nat,
                " failed"@,
            ),
        }
    }

    pub fn describe(&self) -> (r: String)
        ensures
            r@ == self.spec_describe(),
    {
        match *self {
            Observation::Death { by, of } => {
                let mut s = text_around("Player ", by, " eliminated player ");
                s.append(decimal_string(of).as_str());
                s
            },
            Observation::Strike { by, at } => match (by, at) {
                (Some(by), Some(at)) => {
                    let mut s = text_around("Player ", by, " struck location ");
                    s.append(decimal_string(at).as_str());
                    s
                },
                (Some(by), None) => text_around("Player ", by, " launched a covert strike"),
                (None, _) => String::from_str("A mysterious strike occurred"),
            },
            Observation::WaitMove { by } => match by {
                Some(pid) => text_around("Player ", pid, " waited"),
                None => String::from_str("An unknown player waited"),
            },
            Observation::Capture { by, at } => {
                let mut s = text_around("Player ", by, " captured location ");
                s.append(decimal_string(at).as_str());
                s
            },
            Observation::Intel { by, kind } => match (by, kind) {
                (Some(pid), Some(kind)) => {
                    let mut s = text_around("Player ", pid, " spent intel on ");
                    s.append(kind.name());
                    s
                },
                (Some(pid), None) => text_around("Player ", pid, " spent intel"),
                (None, _) => String::from_str("Intel activity detected"),
            },
            Observation::Reveal { who, at } => {
                let mut s = text_around("Player ", who, " was revealed at ");
                s.append(decimal_string(at).as_str());
                s
            },
            Observation::RevealFailure { who } => text_around(
                "Attempted reveal on player ",
                who,
                " failed",
            ),
        }
    }
}

/// The private queues of a ledger, keyed by recipient.
pub type PrivateQueues = VecMap<PlayerId, Vec<Observation>>;

/// What the private queues hold: each recipient's observations, oldest first.
pub uninterp spec fn queues_of(m: PrivateQueues) -> Map<PlayerId, Seq<Observation>>;

/// The queue of `pid` in `q`, empty where `pid` has none.
pub open spec fn queue_of(q: Map<PlayerId, Seq<Observation>>, pid: PlayerId) -> Seq<Observation> {
    if q.contains_key(pid) {
        q[pid]
    } else {
        Seq::empty()
    }
}

/// `q` with `obs` appended to the queue of `pid`.
pub open spec fn noted(q: Map<PlayerId, Seq<Observation>>, pid: PlayerId, obs: Observation) -> Map<
    PlayerId,
    Seq<Observation>,
> {
    q.insert(pid, queue_of(q, pid).push(obs))
}

/// `after` is `before` with `added(p)` appended to the queue of every `p`; a queue
/// appears only where something was appended to it.
pub open spec fn appended(
    before: Map<PlayerId, Seq<Observation>>,
    after: Map<PlayerId, Seq<Observation>>,
    added: spec_fn(PlayerId) -> Seq<Observation>,
) -> bool {
    &&& forall|p: PlayerId| #[trigger]
        after.contains_key(p) <==> (before.contains_key(p) || added(p).len() > 0)
    &&& forall|p: PlayerId| #[trigger] queue_of(after, p) == queue_of(before, p) + added(p)
}

/// No queue at all.
pub open spec fn no_queues() -> Map<PlayerId, Seq<Observation>> {
    Map::empty()
}

/// Relies on vecmap's `VecMap::new`: a map with no entries.
#[verifier::external_body]
fn queues_new() -> (r: PrivateQueues)
    ensures
        queues_of(r) == no_queues(),
{
    VecMap::new()
}

/// Relies on vecmap's `VecMap::entry` and `Entry::or_default`: the queue of `pid` is
/// created empty if missing, and `obs` is pushed to it.
#[verifier::external_body]
fn queues_push(m: &mut PrivateQueues, pid: PlayerId, obs: Observation)
    ensures
        queues_of(*final(m)) == noted(queues_of(*old(m)), pid, obs),
{
    m.entry(pid).or_default().push(obs);
}

/// Relies on vecmap's `VecMap::entry` and `Entry::or_default`: the queue of `pid` is
/// created empty if missing, and left as it is otherwise.
#[verifier::external_body]
fn queues_open(m: &mut PrivateQueues, pid: PlayerId)
    ensures
        queues_of(*final(m)) == queues_of(*old(m)).insert(pid, queue_of(queues_of(*old(m)), pid)),
{
    m.entry(pid).or_default();
}

/// Everything observed during one resolution cycle.
pub struct Event {
    /// Observations for one player only.
    pub private_observations: PrivateQueues,
    /// Observations for everyone.
    pub public_observations: Vec<Observation>,
}

impl Event {
    /// The private queues, as a map.
    pub open spec fn private(&self) -> Map<PlayerId, Seq<Observation>> {
        queues_of(self.private_observations)
    }

    /// The public queue.
    pub open spec fn public(&self) -> Seq<Observation> {
        self.public_observations@
    }

    /// Appends `obs` to the private queue of `pid`.
    pub fn note(&mut self, pid: PlayerId, obs: Observation)
        ensures
            final(self).private() == noted(old(self).private(), pid, obs),
            final(self).public() == old(self).public(),
    {
        queues_push(&mut self.private_observations, pid, obs);
    }

    /// Makes sure `pid` has a private queue, possibly empty.
    pub fn open_queue(&mut self, pid: PlayerId)
        ensures
            final(self).private() == old(self).private().insert(pid, queue_of(old(self).private(), pid)),
            final(self).public() == old(self).public(),
    {
        queues_open(&mut self.private_observations, pid);
    }

    /// Appends `obs` to the public queue.
    pub fn broadcast(&mut self, obs: Observation)
        ensures
            final(self).private() == old(self).private(),
            final(self).public() == old(self).public().push(obs),
    {
        self.public_observations.push(obs);
    }
}

impl Default for Event {
    fn default() -> (r: Event)
        ensures
            r.private() == no_queues(),
            r.public() == Seq::<Observation>::empty(),
    {
        Event { private_observations: queues_new(), public_observations: Vec::new() }
    }
}

} // verus!
