//! Logical clocks: what one simulated machine does with its clock at each
//! tick. Sleeping and passing messages between machines is the caller's part.

use vstd::prelude::*;

verus! {

/// `fastrand::Rng`: a generator of random numbers, opaque to contracts.
#[verifier::external_type_specification]
#[verifier::external_body]
pub struct ExRng(fastrand::Rng);

/// Number of simulated machines.
pub const MACHINES: usize = 3;

/// Capacity of each machine's message buffer.
pub const BUFFER_CAPACITY: usize = 100;

/// Seed of the generator from which each machine's own generator is seeded.
pub const SEED: u64 = 0x40;

/// Slowest and fastest clock rate of a machine, in ticks per second.
pub const MIN_SPEED: u32 = 1;

pub const MAX_SPEED: u32 = 6;

/// Number of sides of the die that decides what an idle machine does.
pub const DIE: u32 = 10;

/// Names a machine.
#[derive(Debug, Clone, Copy, PartialEq, Eq, Structural, Hash)]
pub struct MachineId(pub u32);

/// What machines send each other: who sent it, and the sender's logical time.
#[derive(Debug, Clone, Copy, PartialEq, Eq, Structural)]
pub struct ClockMessage {
    pub sender: MachineId,
    pub logical_time: u64,
}

/// What a machine does at a tick, besides advancing its clock.
#[derive(Debug, Clone, Copy, PartialEq, Eq, Structural)]
pub enum Action {
    /// It took a message from its buffer.
    Received,
    /// It sends its logical time to the peer with this index.
    SendTo(usize),
    /// It sends its logical time to every peer.
    Broadcast,
    /// An internal event: nothing is sent.
    Internal,
}

/// What an idle machine does on a roll of the die.
pub open spec fn action_for(roll: u32) -> Action {
    if roll == 1 {
        Action::SendTo(0)
    } else if roll == 2 {
        Action::SendTo(1)
    } else if roll == 3 {
        Action::Broadcast
    } else {
        Action::Internal
    }
}

/// The clock after a tick: one more than the greater of the clock and the
/// logical time received, if a message was received; one more than the clock
/// otherwise.
pub open spec fn clock_after(clock: u64, received: Option<ClockMessage>) -> int {
    match received {
        Some(message) => if message.logical_time > clock {
            message.logical_time + 1
        } else {
            clock + 1
        },
        None => clock + 1,
    }
}

/// The machines to which machine `id` of `n` sends, in the order of their
/// indices: the others, starting with its successor and going round.
pub open spec fn spec_peers(id: nat, n: nat) -> Seq<nat> {
    Seq::new((n - 1) as nat, |k: int| ((id + k + 1) % (n as int)) as nat)
}

/// Calls `fastrand::Rng::u32` on the inclusive range from `low` to `high`.
/// The result lies in that range; which number it is depends on the
/// generator's state.
#[verifier::external_body]
fn random_in(rng: &fastrand::Rng, low: u32, high: u32) -> (r: u32)
    requires
        low <= high,
    ensures
        low <= r <= high,
{
    rng.u32(low..=high)
}

/// Calls `fastrand::Rng::u64` on the full range: a seed for another
/// generator.
#[verifier::external_body]
fn random_seed(rng: &fastrand::Rng) -> u64 {
    rng.u64(..)
}

/// Calls `fastrand::Rng::with_seed`.
#[verifier::external_body]
fn seeded(seed: u64) -> fastrand::Rng {
    fastrand::Rng::with_seed(seed)
}

/// What an idle machine does on a roll of the die.
pub fn decide(roll: u32) -> (action: Action)
    ensures
        action == action_for(roll),
{
    if roll == 1 {
        Action::SendTo(0)
    } else if roll == 2 {
        Action::SendTo(1)
    } else if roll == 3 {
        Action::Broadcast
    } else {
        Action::Internal
    }
}

/// The machines to which machine `id` of `n` sends.
pub fn peers(id: usize, n: usize) -> (r: Vec<usize>)
    requires
        id < n,
        n <= usize::MAX / 2,
    ensures
        r@.len() == n - 1,
        forall|k: int| 0 <= k < n - 1 ==> #[trigger] r@[k] == spec_peers(id as nat, n as nat)[k],
        forall|k: int| 0 <= k < n - 1 ==> #[trigger] r@[k] < n && r@[k] != id,
{
    let mut r: Vec<usize> = Vec::new();
    let mut j: usize = 1;
    while j < n
        invariant
            1 <= j <= n,
            id < n,
            n <= usize::MAX / 2,
            r@.len() == j - 1,
            forall|k: int| 0 <= k < j - 1 ==> #[trigger] r@[k] == ((id + k + 1) % (n as int)),
            forall|k: int| 0 <= k < j - 1 ==> #[trigger] r@[k] < n && r@[k] != id,
        decreases n - j,
    {
        let peer: usize = (id + j) % n;
        assert(peer != id) by (nonlinear_arith)
            requires
                peer == (id + j) % (n as int),
                0 <= id < n,
                1 <= j < n,
        {
            if id + j < n {
                assert((id + j) % (n as int) == id + j);
            } else {
                assert((id + j) % (n as int) == id + j - n);
            }
        }
        r.push(peer);
        j += 1;
    }
    r
}

/// One simulated machine: its name, its logical clock and its generator of
/// random numbers.
pub struct Machine {
    id: MachineId,
    clock: u64,
    rng: fastrand::Rng,
}

impl Machine {
    /// The machine's name.
    pub closed spec fn spec_id(&self) -> MachineId {
        self.id
    }

    /// The machine's logical time.
    pub closed spec fn spec_clock(&self) -> u64 {
        self.clock
    }

    /// A machine with its clock at zero and a generator of its own, seeded
    /// from `source`.
    pub fn new(id: MachineId, source: &fastrand::Rng) -> (r: Machine)
        ensures
            r.spec_id() == id,
            r.spec_clock() == 0,
    {
        Machine { id, clock: 0, rng: seeded(random_seed(source)) }
    }

    /// The generator with the simulation's seed.
    pub fn source() -> fastrand::Rng {
        seeded(SEED)
    }

    /// The machine's name.
    pub fn id(&self) -> (r: MachineId)
        ensures
            r == self.spec_id(),
    {
        self.id
    }

    /// The machine's logical time.
    pub fn clock(&self) -> (r: u64)
        ensures
            r == self.spec_clock(),
    {
        self.clock
    }

    /// Draws the machine's clock rate in ticks per second, between
    /// `MIN_SPEED` and `MAX_SPEED`.
    pub fn speed(&self) -> (r: u32)
        ensures
            MIN_SPEED <= r <= MAX_SPEED,
    {
        random_in(&self.rng, MIN_SPEED, MAX_SPEED)
    }

    /// The message that carries the machine's logical time.
    pub fn stamp(&self) -> (r: ClockMessage)
        ensures
            r == (ClockMessage { sender: self.spec_id(), logical_time: self.spec_clock() }),
    {
        ClockMessage { sender: self.id, logical_time: self.clock }
    }

    /// Whether the clock can take one more tick with this message received.
    pub fn can_step(&self, received: Option<ClockMessage>) -> (r: bool)
        ensures
            r == (clock_after(self.spec_clock(), received) <= u64::MAX),
    {
        self.clock < u64::MAX && match received {
            Some(message) => message.logical_time < u64::MAX,
            None => true,
        }
    }

    /// Advances the clock by one tick with the given message received, or
    /// none.
    pub fn advance(&mut self, received: Option<ClockMessage>)
        requires
            clock_after(old(self).spec_clock(), received) <= u64::MAX,
        ensures
            final(self).spec_clock() == clock_after(old(self).spec_clock(), received),
            final(self).spec_id() == old(self).spec_id(),
    {
        match received {
            Some(message) => {
                if message.logical_time > self.clock {
                    self.clock = message.logical_time + 1;
                } else {
                    self.clock = self.clock + 1;
                }
            },
            None => {
                self.clock = self.clock + 1;
            },
        }
    }

    /// One tick. A received message is taken in; an idle machine rolls the
    /// die and does what the roll says. Either way the clock advances first,
    /// so that what is sent carries the new logical time.
    pub fn step(&mut self, received: Option<ClockMessage>) -> (action: Action)
        requires
            clock_after(old(self).spec_clock(), received) <= u64::MAX,
        ensures
            final(self).spec_clock() == clock_after(old(self).spec_clock(), received),
            final(self).spec_id() == old(self).spec_id(),
            received is Some ==> action == Action::Received,
            received is None ==> exists|roll: u32|
                1 <= roll <= DIE && action == #[trigger] action_for(roll),
    {
        self.advance(received);
        match received {
            Some(_) => Action::Received,
            None => decide(random_in(&self.rng, 1, DIE)),
        }
    }
}

/// A machine's clock never goes back, and after a message is received it is
/// ahead of the sender's logical time.
pub proof fn lemma_clock_advances(clock: u64, received: Option<ClockMessage>)
    ensures
        clock_after(clock, received) > clock,
        received matches Some(message) ==> clock_after(clock, received) > message.logical_time,
{
}

} // verus!
