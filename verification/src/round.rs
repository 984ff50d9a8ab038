//! A round of mining: the proof account that it is for, the nonces handed out so far, and the
//! best solution.
use vstd::prelude::*;

use crate::clients::{ClientAddr, ClientSet, Sockets};
use crate::order::MiningOrder;
use crate::solution::BestHash;

verus! {

/// The state of a miner's proof account.
#[derive(Clone, Copy, Debug, Eq)]
pub struct Proof {
    pub authority: [u8; 32],
    pub balance: u64,
    pub challenge: [u8; 32],
    pub last_hash: [u8; 32],
    pub last_hash_at: i64,
    pub last_stake_at: i64,
    pub miner: [u8; 32],
    pub total_hashes: u64,
    pub total_rewards: u64,
}

/// Tells whether two strings of 32 bytes are the same.
fn same_bytes(a: &[u8; 32], b: &[u8; 32]) -> (r: bool)
    ensures
        r == (*a == *b),
{
    let mut i: usize = 0;
    while i < 32
        invariant
            i <= 32,
            forall|j: int| 0 <= j < i ==> a@[j] == b@[j],
        decreases 32 - i,
    {
        if a[i] != b[i] {
            return false;
        }
        i = i + 1;
    }
    assert(*a =~= *b);
    true
}

impl PartialEq for Proof {
    fn eq(&self, other: &Proof) -> (r: bool) {
        same_bytes(&self.authority, &other.authority) && self.balance == other.balance
            && same_bytes(&self.challenge, &other.challenge) && same_bytes(
            &self.last_hash,
            &other.last_hash,
        ) && self.last_hash_at == other.last_hash_at && self.last_stake_at == other.last_stake_at
            && same_bytes(&self.miner, &other.miner) && self.total_hashes == other.total_hashes
            && self.total_rewards == other.total_rewards
    }
}

impl vstd::std_specs::cmp::PartialEqSpecImpl for Proof {
    open spec fn obeys_eq_spec() -> bool {
        true
    }

    open spec fn eq_spec(&self, other: &Proof) -> bool {
        *self == *other
    }
}

/// How long after the last hash the next one is due, in seconds.
pub const HASH_INTERVAL: i64 = 60;

/// How many seconds before a solution is due clients have to be done.
pub const DISPATCH_BUFFER: i64 = 5;

/// How many seconds pass between two plans.
pub const DISPATCH_PAUSE_SECS: u64 = 5;

/// `x`, or the end of the range of an `i64` that it lies beyond.
pub open spec fn clamp_i64(x: int) -> int {
    if x > i64::MAX {
        i64::MAX as int
    } else if x < i64::MIN {
        i64::MIN as int
    } else {
        x
    }
}

/// Brings a number into the range of an `i64`.
fn saturate(x: i128) -> (r: i64)
    ensures
        r == clamp_i64(x as int),
{
    if x > i64::MAX as i128 {
        i64::MAX
    } else if x < i64::MIN as i128 {
        i64::MIN
    } else {
        x as i64
    }
}

/// The seconds left at the time `now` until a solution is due, less a buffer: a minute after the
/// last hash. Each step of the sum stays at the end of the range where it would leave it.
pub fn cutoff_at(last_hash_at: i64, buffer_time: i64, now: i64) -> (r: i64)
    ensures
        r == clamp_i64(clamp_i64(clamp_i64(last_hash_at + HASH_INTERVAL) - buffer_time) - now),
        i64::MIN <= last_hash_at + 60 <= i64::MAX && i64::MIN <= last_hash_at + 60 - buffer_time
            <= i64::MAX ==> {
            let left = last_hash_at + 60 - buffer_time - now;
            &&& i64::MIN <= left <= i64::MAX ==> r == left
            &&& left > i64::MAX ==> r == i64::MAX
            &&& left < i64::MIN ==> r == i64::MIN
        },
{
    let due: i64 = saturate(last_hash_at as i128 + HASH_INTERVAL as i128);
    let early: i64 = saturate(due as i128 - buffer_time as i128);
    saturate(early as i128 - now as i128)
}

/// A number within the range of an `i64` is kept as it is, and one beyond it becomes the end of the
/// range on that side.
pub proof fn law_clamp(x: int)
    ensures
        -0x8000_0000_0000_0000 <= x <= 0x7fff_ffff_ffff_ffff ==> clamp_i64(x) == x,
        x > 0x7fff_ffff_ffff_ffff ==> clamp_i64(x) == 0x7fff_ffff_ffff_ffff,
        x < -0x8000_0000_0000_0000 ==> clamp_i64(x) == -0x8000_0000_0000_0000,
{
}

/// Clients have to be done five seconds before the solution is due: of the minute after the last
/// hash, 55 seconds are theirs, and one that is ready waits for the next plan five seconds at most.
pub proof fn law_clients_are_done_first(last_hash_at: i64, now: i64)
    requires
        0 <= now <= last_hash_at + 60 <= 0x7fff_ffff_ffff_ffff,
    ensures
        clamp_i64(clamp_i64(clamp_i64(last_hash_at + HASH_INTERVAL) - DISPATCH_BUFFER) - now)
            == last_hash_at + 55 - now,
        DISPATCH_PAUSE_SECS == 5,
{
}

/// How many nonces a client gets: more than it can try in a minute.
pub const NONCES_PER_CLIENT: u64 = 2_000_000;

/// A round of mining.
#[derive(Clone, Copy, Debug)]
pub struct Round {
    pub proof: Proof,
    pub nonce: u64,
    pub best: BestHash,
}

/// An order on its way to a client.
#[derive(Clone, Copy, Debug, PartialEq, Eq)]
pub struct Delivery {
    pub client: ClientAddr,
    pub order: MiningOrder,
}

/// For how long clients are still set to work: for the time that is left, or, when it is over,
/// without a limit of their own as long as there is no solution, and no more once there is one.
pub open spec fn mining_time(cutoff: i64, best: BestHash) -> Option<u64> {
    if cutoff > 0 {
        Some(cutoff as u64)
    } else if best.solution is None {
        Some(0)
    } else {
        None
    }
}

/// The round after a plan with so many clients waiting: every one of them takes up its share of the
/// nonces, unless clients are no longer set to work.
pub open spec fn after_plan(round: Round, cutoff: i64, waiting: nat) -> Round {
    if mining_time(cutoff, round.best) is Some {
        Round { nonce: (round.nonce + NONCES_PER_CLIENT * waiting) as u64, ..round }
    } else {
        round
    }
}

/// The order for the client at place `i` of those that wait.
pub open spec fn order_at(round: Round, cutoff: u64, i: int) -> MiningOrder {
    MiningOrder {
        challenge: round.proof.challenge,
        cutoff,
        start: (round.nonce + NONCES_PER_CLIENT * i) as u64,
        end: (round.nonce + NONCES_PER_CLIENT * (i + 1)) as u64,
    }
}

/// The orders for the waiting clients, of which only those with a socket get theirs.
pub open spec fn deliveries(
    round: Round,
    cutoff: u64,
    waiting: Seq<ClientAddr>,
    connected: Set<ClientAddr>,
) -> Seq<Delivery>
    decreases waiting.len(),
{
    if waiting.len() == 0 {
        Seq::empty()
    } else {
        let front = deliveries(round, cutoff, waiting.drop_last(), connected);
        let client = waiting.last();
        if connected.contains(client) {
            front.push(Delivery { client, order: order_at(round, cutoff, waiting.len() - 1) })
        } else {
            front
        }
    }
}

/// Those of the waiting clients that have no socket.
pub open spec fn still_waiting(waiting: Seq<ClientAddr>, connected: Set<ClientAddr>) -> Seq<
    ClientAddr,
> {
    waiting.filter(|a: ClientAddr| !connected.contains(a))
}

impl Round {
    /// A round for the given proof, in which nothing has happened yet.
    pub open spec fn fresh(proof: Proof) -> Round {
        Round { proof, nonce: 0, best: BestHash::none() }
    }

    /// Whether there are nonces left for so many clients.
    pub open spec fn has_nonces_for(&self, clients: nat) -> bool {
        self.nonce + NONCES_PER_CLIENT * clients <= u64::MAX
    }

    /// The best solution, if there is one, solves the challenge of the proof, and counts at the
    /// difficulty noted for it.
    pub open spec fn sound(&self) -> bool {
        &&& self.best.consistent()
        &&& self.best.solution matches Some(solution) ==> solution.solves(self.proof.challenge@)
    }

    /// Begins with the given proof.
    pub fn new(proof: Proof) -> (r: Round)
        ensures
            r == Round::fresh(proof),
            r.proof == proof,
            r.nonce == 0,
            r.best.solution is None,
            r.best.difficulty == 0,
            r.sound(),
    {
        Round { proof, nonce: 0, best: BestHash::new() }
    }

    /// Begins anew with a proof that was loaded: the nonces start at zero again, and the best
    /// solution is forgotten.
    pub fn restart(&mut self, loaded: Proof)
        ensures
            *final(self) == Round::fresh(loaded),
            final(self).proof == loaded,
            final(self).nonce == 0,
            final(self).best.solution is None,
            final(self).best.difficulty == 0,
            final(self).sound(),
    {
        self.proof = loaded;
        self.nonce = 0;
        self.best.clear();
    }

    /// Tells whether there are nonces left for so many clients.
    pub fn nonces_suffice(&self, clients: usize) -> (r: bool)
        ensures
            r == self.has_nonces_for(clients as nat),
            r <==> self.nonce + 2_000_000 * clients <= 0xffff_ffff_ffff_ffff,
    {
        clients as u128 * NONCES_PER_CLIENT as u128 + self.nonce as u128 <= u64::MAX as u128
    }

    /// Tells whether `plan` can go ahead: clients are no longer set to work, or there are nonces
    /// left for so many of them.
    pub fn can_plan(&self, cutoff: i64, clients: usize) -> (r: bool)
        ensures
            r == (mining_time(cutoff, self.best) is Some ==> self.has_nonces_for(clients as nat)),
            r <==> (cutoff <= 0 && self.best.solution is Some) || self.nonce + 2_000_000 * clients
                <= 0xffff_ffff_ffff_ffff,
    {
        (cutoff <= 0 && self.best.solution.is_some()) || self.nonces_suffice(clients)
    }

    /// Sets the waiting clients to work, with `cutoff` seconds left: every one of them takes up
    /// its share of the nonces, those with a socket get an order and wait no more, and the
    /// others wait on. Does nothing where clients are no longer set to work.
    pub fn plan<T>(
        &mut self,
        cutoff: i64,
        ready: &mut ClientSet,
        sockets: &Sockets<T>,
    ) -> (r: Option<Vec<Delivery>>)
        requires
            old(ready).well_formed(),
            sockets.well_formed(),
            mining_time(cutoff, old(self).best) is Some ==> old(self).has_nonces_for(
                old(ready)@.len(),
            ),
        ensures
            final(ready).well_formed(),
            match (r, mining_time(cutoff, old(self).best)) {
                (Some(sent), Some(time)) => {
                    &&& sent@ == deliveries(*old(self), time, old(ready)@, sockets@.dom())
                    &&& final(ready)@ == still_waiting(old(ready)@, sockets@.dom())
                },
                (None, None) => *final(ready) == *old(ready),
                _ => false,
            },
            *final(self) == after_plan(*old(self), cutoff, old(ready)@.len()),
            r is Some <==> cutoff > 0 || old(self).best.solution is None,
            r is None ==> *final(self) == *old(self) && final(ready)@ == old(ready)@,
            r matches Some(sent) ==> {
                &&& final(self).nonce == old(self).nonce + 2_000_000 * old(ready)@.len()
                &&& final(self).proof == old(self).proof
                &&& final(self).best == old(self).best
                &&& forall|k: int|
                    0 <= k < sent@.len() ==> (#[trigger] sent@[k]).order.cutoff == (if cutoff > 0 {
                        cutoff as int
                    } else {
                        0
                    })
                &&& forall|k: int|
                    #![trigger sent@[k]]
                    0 <= k < sent@.len() ==> {
                        &&& sockets@.dom().contains(sent@[k].client)
                        &&& sent@[k].order.challenge == old(self).proof.challenge
                        &&& sent@[k].order.end == sent@[k].order.start + 2_000_000
                        &&& exists|i: int|
                            #![trigger old(ready)@[i]]
                            0 <= i < old(ready)@.len() && old(ready)@[i] == sent@[k].client
                                && sent@[k].order.start == old(self).nonce + 2_000_000 * i
                    }
                &&& forall|i: int|
                    #![trigger old(ready)@[i]]
                    0 <= i < old(ready)@.len() && sockets@.dom().contains(old(ready)@[i])
                        ==> exists|k: int|
                        #![trigger sent@[k]]
                        0 <= k < sent@.len() && sent@[k].client == old(ready)@[i]
                &&& forall|j: int, k: int|
                    #![trigger sent@[j], sent@[k]]
                    0 <= j < k < sent@.len() ==> sent@[j].order.start < sent@[k].order.start
                &&& forall|a: ClientAddr| #[trigger]
                    final(ready)@.contains(a) <==> old(ready)@.contains(a)
                        && !sockets@.dom().contains(a)
            },
            old(self).sound() ==> final(self).sound(),
    {
        let time: u64 = if cutoff > 0 {
            cutoff as u64
        } else {
            if self.best.solution.is_some() {
                return None;
            }
            0
        };
        let clients: Vec<ClientAddr> = ready.to_vec();
        let mut sent: Vec<Delivery> = Vec::new();
        let mut rest: ClientSet = ClientSet::new();
        let mut i: usize = 0;
        let ghost connected = sockets@.dom();
        let ghost waiting = ready@;
        let ghost start = *self;
        proof {
            assert(still_waiting(waiting.subrange(0, 0), connected) =~= Seq::<ClientAddr>::empty()) by {
                reveal(Seq::filter);
            }
        }
        while i < clients.len()
            invariant
                clients@ == waiting,
                waiting.no_duplicates(),
                connected == sockets@.dom(),
                sockets.well_formed(),
                rest.well_formed(),
                i <= waiting.len(),
                start.has_nonces_for(waiting.len()),
                sent@ == deliveries(start, time, waiting.subrange(0, i as int), connected),
                rest@ == still_waiting(waiting.subrange(0, i as int), connected),
                forall|a: ClientAddr| rest@.contains(a) ==> waiting.subrange(0, i as int).contains(a),
                *self == (Round { nonce: (start.nonce + NONCES_PER_CLIENT * i) as u64, ..start }),
            decreases clients.len() - i,
        {
            let client: ClientAddr = clients[i];
            let ghost done = waiting.subrange(0, i as int);
            let ghost next = waiting.subrange(0, i + 1);
            proof {
                assert(next.drop_last() =~= done);
                assert(next.last() == client);
                assert(!done.contains(client)) by {
                    if done.contains(client) {
                        let k = done.index_of(client);
                        assert(waiting[k] == waiting[i as int]);
                    }
                }
                assert(NONCES_PER_CLIENT * (i + 1) <= NONCES_PER_CLIENT * waiting.len())
                    by (nonlinear_arith)
                    requires
                        i + 1 <= waiting.len(),
                ;
                reveal(Seq::filter);
                assert forall|a: ClientAddr| done.contains(a) implies next.contains(a) by {
                    let k = done.index_of(a);
                    assert(next[k] == a);
                }
                assert(next[i as int] == client);
            }
            let from: u64 = self.nonce;
            self.nonce = self.nonce + NONCES_PER_CLIENT;
            let to: u64 = self.nonce;
            if sockets.contains(client) {
                let order: MiningOrder = MiningOrder {
                    challenge: self.proof.challenge,
                    cutoff: time,
                    start: from,
                    end: to,
                };
                sent.push(Delivery { client, order });
            } else {
                let ghost kept = rest@;
                rest.insert(client);
                proof {
                    assert forall|a: ClientAddr| rest@.contains(a) implies next.contains(a) by {
                        let k = rest@.index_of(a);
                        if k < kept.len() {
                            assert(kept[k] == a);
                            assert(kept.contains(a));
                            assert(done.contains(a));
                        } else {
                            assert(a == next[i as int]);
                        }
                    }
                }
            }
            i = i + 1;
        }
        assert(waiting.subrange(0, i as int) =~= waiting);
        proof {
            law_orders_in_full(start, time, waiting, connected);
            let left = |a: ClientAddr| !connected.contains(a);
            assert forall|a: ClientAddr| #[trigger]
                rest@.contains(a) <==> waiting.contains(a) && !connected.contains(a) by {
                waiting.filter_lemma(left);
                if rest@.contains(a) {
                    let k = rest@.index_of(a);
                    assert(left(rest@[k]));
                }
                if waiting.contains(a) && !connected.contains(a) {
                    let k = waiting.index_of(a);
                    assert(left(waiting[k]));
                    assert(waiting.filter(left).contains(waiting[k]));
                }
            }
        }
        *ready = rest;
        Some(sent)
    }
}

/// The place among the waiting clients of the one that a delivery goes to.
pub open spec fn place_served(
    round: Round,
    cutoff: u64,
    waiting: Seq<ClientAddr>,
    connected: Set<ClientAddr>,
    delivery: Delivery,
    i: int,
) -> bool {
    &&& 0 <= i < waiting.len()
    &&& connected.contains(waiting[i])
    &&& delivery == (Delivery { client: waiting[i], order: order_at(round, cutoff, i) })
}

/// Every delivery goes to a waiting client with a socket and carries the order for its place,
/// the places in ascending order; and every waiting client with a socket gets one.
pub proof fn law_deliveries(
    round: Round,
    cutoff: u64,
    waiting: Seq<ClientAddr>,
    connected: Set<ClientAddr>,
) -> (places: Seq<int>)
    ensures
        ({
            let sent = deliveries(round, cutoff, waiting, connected);
            &&& places.len() == sent.len()
            &&& forall|k: int|
                0 <= k < sent.len() ==> place_served(
                    round,
                    cutoff,
                    waiting,
                    connected,
                    sent[k],
                    #[trigger] places[k],
                )
            &&& forall|j: int, k: int| 0 <= j < k < places.len() ==> places[j] < places[k]
            &&& forall|i: int|
                0 <= i < waiting.len() && connected.contains(#[trigger] waiting[i])
                    ==> places.contains(i)
        }),
    decreases waiting.len(),
{
    if waiting.len() == 0 {
        Seq::empty()
    } else {
        let front = waiting.drop_last();
        let before = law_deliveries(round, cutoff, front, connected);
        let last = waiting.len() - 1;
        let sent = deliveries(round, cutoff, waiting, connected);
        assert forall|k: int| 0 <= k < before.len() implies place_served(
            round,
            cutoff,
            waiting,
            connected,
            sent[k],
            #[trigger] before[k],
        ) by {
            assert(front[before[k]] == waiting[before[k]]);
        }
        if connected.contains(waiting.last()) {
            let places = before.push(last);
            assert forall|i: int|
                0 <= i < waiting.len() && connected.contains(
                    #[trigger] waiting[i],
                ) implies places.contains(i) by {
                if i < last {
                    assert(front[i] == waiting[i]);
                    let k = before.index_of(i);
                    assert(places[k] == i);
                } else {
                    assert(places[before.len() as int] == i);
                }
            }
            assert forall|k: int| 0 <= k < sent.len() implies place_served(
                round,
                cutoff,
                waiting,
                connected,
                sent[k],
                #[trigger] places[k],
            ) by {
                if k < before.len() {
                    assert(places[k] == before[k]);
                }
            }
            places
        } else {
            assert forall|i: int|
                0 <= i < waiting.len() && connected.contains(
                    #[trigger] waiting[i],
                ) implies before.contains(i) by {
                assert(front[i] == waiting[i]);
            }
            before
        }
    }
}

/// No two clients get the same nonce: the range of a later delivery begins where that of an
/// earlier one has ended, or behind; every range has its full length; and all of them lie
/// between the nonce before and the nonce after.
pub proof fn law_nonce_ranges_disjoint(
    round: Round,
    cutoff: u64,
    waiting: Seq<ClientAddr>,
    connected: Set<ClientAddr>,
)
    requires
        round.has_nonces_for(waiting.len()),
    ensures
        ({
            let sent = deliveries(round, cutoff, waiting, connected);
            &&& forall|j: int, k: int|
                0 <= j < k < sent.len() ==> (#[trigger] sent[j]).order.end <= (
                #[trigger] sent[k]).order.start
            &&& forall|k: int|
                0 <= k < sent.len() ==> {
                    &&& (#[trigger] sent[k]).order.end == sent[k].order.start + NONCES_PER_CLIENT
                    &&& round.nonce <= sent[k].order.start
                    &&& sent[k].order.end <= round.nonce + NONCES_PER_CLIENT * waiting.len()
                }
        }),
{
    let sent = deliveries(round, cutoff, waiting, connected);
    let places = law_deliveries(round, cutoff, waiting, connected);
    assert forall|k: int| 0 <= k < sent.len() implies {
        &&& (#[trigger] sent[k]).order.start == round.nonce + NONCES_PER_CLIENT * places[k]
        &&& sent[k].order.end == round.nonce + NONCES_PER_CLIENT * (places[k] + 1)
        &&& sent[k].order.end <= round.nonce + NONCES_PER_CLIENT * waiting.len()
    } by {
        let i = places[k];
        assert(place_served(round, cutoff, waiting, connected, sent[k], i));
        assert(NONCES_PER_CLIENT * (i + 1) <= NONCES_PER_CLIENT * waiting.len())
            by (nonlinear_arith)
            requires
                i + 1 <= waiting.len(),
        ;
    }
    assert forall|j: int, k: int| 0 <= j < k < sent.len() implies (#[trigger] sent[j]).order.end
        <= (#[trigger] sent[k]).order.start by {
        assert(places[j] < places[k]);
        assert(NONCES_PER_CLIENT * (places[j] + 1) <= NONCES_PER_CLIENT * places[k])
            by (nonlinear_arith)
            requires
                places[j] + 1 <= places[k],
        ;
    }
}

/// While there is time left, clients are set to work for exactly that time, whatever is known of
/// solutions. When it is over, they are set to work without time exactly if there is no solution.
pub proof fn law_time_given(cutoff: i64, best: BestHash)
    ensures
        cutoff > 0 ==> (mining_time(cutoff, best) matches Some(time) && time == cutoff),
        cutoff <= 0 && best.solution is None ==> (mining_time(cutoff, best) matches Some(time)
            && time == 0),
        cutoff <= 0 && best.solution is Some ==> mining_time(cutoff, best) is None,
{
}

/// A plan takes up two million nonces for every waiting client, where clients are still set to work,
/// and changes nothing else of the round.
pub proof fn law_nonces_taken_up(round: Round, cutoff: i64, waiting: nat)
    requires
        round.nonce + 2_000_000 * waiting <= 0xffff_ffff_ffff_ffff,
    ensures
        ({
            let after = after_plan(round, cutoff, waiting);
            &&& after.proof == round.proof
            &&& after.best == round.best
            &&& after.nonce == if cutoff > 0 || round.best.solution is None {
                round.nonce + 2_000_000 * waiting
            } else {
                round.nonce as int
            }
        }),
{
}

/// Whether these are all the orders of a round for the waiting clients that have a socket: each
/// gets one for the challenge of the proof, and the one at place `i` the nonces from two million
/// times `i` on, two million of them, counted from the nonce of the round.
pub open spec fn orders_in_full(
    round: Round,
    waiting: Seq<ClientAddr>,
    connected: Set<ClientAddr>,
    sent: Seq<Delivery>,
) -> bool {
    &&& forall|k: int|
        #![trigger sent[k]]
        0 <= k < sent.len() ==> {
            &&& connected.contains(sent[k].client)
            &&& sent[k].order.challenge == round.proof.challenge
            &&& sent[k].order.end == sent[k].order.start + 2_000_000
            &&& exists|i: int|
                #![trigger waiting[i]]
                0 <= i < waiting.len() && waiting[i] == sent[k].client && sent[k].order.start
                    == round.nonce + 2_000_000 * i
        }
    &&& forall|i: int|
        #![trigger waiting[i]]
        0 <= i < waiting.len() && connected.contains(waiting[i]) ==> exists|k: int|
            #![trigger sent[k]]
            0 <= k < sent.len() && sent[k].client == waiting[i]
    &&& forall|j: int, k: int|
        #![trigger sent[j], sent[k]]
        0 <= j < k < sent.len() ==> sent[j].order.start < sent[k].order.start
}

/// Every waiting client with a socket gets its order, with the given time and the nonces of its
/// place, and no other client gets one.
pub proof fn law_orders_in_full(
    round: Round,
    cutoff: u64,
    waiting: Seq<ClientAddr>,
    connected: Set<ClientAddr>,
)
    requires
        round.nonce + 2_000_000 * waiting.len() <= 0xffff_ffff_ffff_ffff,
    ensures
        orders_in_full(round, waiting, connected, deliveries(round, cutoff, waiting, connected)),
        forall|k: int|
            0 <= k < deliveries(round, cutoff, waiting, connected).len() ==> (
            #[trigger] deliveries(round, cutoff, waiting, connected)[k]).order.cutoff == cutoff,
{
    let sent = deliveries(round, cutoff, waiting, connected);
    let places = law_deliveries(round, cutoff, waiting, connected);
    law_nonce_ranges_disjoint(round, cutoff, waiting, connected);
    assert forall|k: int| 0 <= k < sent.len() implies {
        &&& connected.contains((#[trigger] sent[k]).client)
        &&& sent[k].order.challenge == round.proof.challenge
        &&& sent[k].order.cutoff == cutoff
        &&& exists|i: int|
            #![trigger waiting[i]]
            0 <= i < waiting.len() && waiting[i] == sent[k].client && sent[k].order.start
                == round.nonce + 2_000_000 * i
    } by {
        let i = places[k];
        assert(place_served(round, cutoff, waiting, connected, sent[k], i));
        assert(2_000_000 * i <= 2_000_000 * waiting.len());
        assert(waiting[i] == sent[k].client);
    }
    assert forall|i: int|
        #![trigger waiting[i]]
        0 <= i < waiting.len() && connected.contains(waiting[i]) implies exists|k: int|
        #![trigger sent[k]]
        0 <= k < sent.len() && sent[k].client == waiting[i] by {
        let k = places.index_of(i);
        assert(place_served(round, cutoff, waiting, connected, sent[k], places[k]));
    }
}

/// The nonces of a plan that begins where another has ended, or behind, lie behind those of the
/// other.
pub proof fn lemma_plans_disjoint(
    first: Round,
    cutoff1: u64,
    waiting1: Seq<ClientAddr>,
    connected1: Set<ClientAddr>,
    second: Round,
    cutoff2: u64,
    waiting2: Seq<ClientAddr>,
    connected2: Set<ClientAddr>,
)
    requires
        first.has_nonces_for(waiting1.len()),
        second.has_nonces_for(waiting2.len()),
        first.nonce + NONCES_PER_CLIENT * waiting1.len() <= second.nonce,
    ensures
        ({
            let sent1 = deliveries(first, cutoff1, waiting1, connected1);
            let sent2 = deliveries(second, cutoff2, waiting2, connected2);
            forall|j: int, k: int|
                0 <= j < sent1.len() && 0 <= k < sent2.len() ==> (#[trigger] sent1[j]).order.end <= (
                #[trigger] sent2[k]).order.start
        }),
{
    law_nonce_ranges_disjoint(first, cutoff1, waiting1, connected1);
    law_nonce_ranges_disjoint(second, cutoff2, waiting2, connected2);
}

} // verus!
