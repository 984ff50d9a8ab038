//! What the pool does about a message from a client.
use vstd::arithmetic::power2;
use vstd::prelude::*;

use crate::clients::{ClientAddr, ClientSet, Sockets};
use crate::round::Round;
use crate::solution;
use crate::solution::{BestHash, Verdict};
use crate::wire::ClientMessage;

verus! {

/// What a client is told when it waits for work.
pub const READY_NOTICE: &'static str = "Client successfully added.";

/// What has come of a message.
#[derive(Clone, Copy, Debug, PartialEq, Eq)]
pub enum Reply {
    /// The client now waits for work, and is to be sent the notice of that.
    Welcome(ClientAddr),
    /// The client has no socket, and the message is passed over.
    Stranger(ClientAddr),
    /// The client mines.
    Mining(ClientAddr),
    /// The solution was judged.
    Judged(ClientAddr, Verdict),
}

/// The waiting clients after a message: one that is ready and has a socket waits as well.
pub open spec fn ready_after(
    message: ClientMessage,
    connected: Set<ClientAddr>,
    ready: Seq<ClientAddr>,
) -> Seq<ClientAddr> {
    match message {
        ClientMessage::Ready(addr) => if connected.contains(addr) && !ready.contains(addr) {
            ready.push(addr)
        } else {
            ready
        },
        _ => ready,
    }
}

/// The round after a message: a solution that is better than the best so far takes its place.
pub open spec fn round_after(message: ClientMessage, round: Round) -> Round {
    match message {
        ClientMessage::BestSolution(_, found) => Round {
            best: round.best.after(
                found,
                found.solves(round.proof.challenge@),
                found.difficulty() as u32,
            ),
            ..round
        },
        _ => round,
    }
}

/// What comes of a message.
pub open spec fn reply_to(
    message: ClientMessage,
    connected: Set<ClientAddr>,
    challenge: Seq<u8>,
) -> Reply {
    match message {
        ClientMessage::Ready(addr) => if connected.contains(addr) {
            Reply::Welcome(addr)
        } else {
            Reply::Stranger(addr)
        },
        ClientMessage::Mining(addr) => Reply::Mining(addr),
        ClientMessage::BestSolution(addr, found) => Reply::Judged(
            addr,
            solution::verdict_on(found.solves(challenge), found.difficulty() as u32),
        ),
    }
}

/// A client that is put behind the others, unless it is there, is there, and so are the others.
proof fn lemma_inserted(before: Seq<ClientAddr>, after: Seq<ClientAddr>, addr: ClientAddr)
    requires
        after == before || after == before.push(addr),
        after == before ==> before.contains(addr),
    ensures
        forall|a: ClientAddr| #[trigger] after.contains(a) <==> before.contains(a) || a == addr,
{
    assert forall|a: ClientAddr| #[trigger]
        after.contains(a) <==> before.contains(a) || a == addr by {
        if after != before {
            assert(after[before.len() as int] == addr);
            if before.contains(a) {
                assert(after[before.index_of(a)] == a);
            }
            if after.contains(a) && a != addr {
                assert(before[after.index_of(a)] == a);
            }
        }
    }
}

/// Acts on a message from a client: one that is ready waits for work from now on, if it has a
/// socket; and a solution is judged, and kept if it is the best so far.
pub fn handle_client_message<T>(
    message: ClientMessage,
    sockets: &Sockets<T>,
    ready: &mut ClientSet,
    round: &mut Round,
) -> (reply: Reply)
    requires
        sockets.well_formed(),
        old(ready).well_formed(),
    ensures
        final(ready).well_formed(),
        reply == reply_to(message, sockets@.dom(), old(round).proof.challenge@),
        final(ready)@ == ready_after(message, sockets@.dom(), old(ready)@),
        *final(round) == round_after(message, *old(round)),
        message matches ClientMessage::BestSolution(_, found) ==> found.difficulty()
            <= solution::MAX_DIFF,
        match message {
            ClientMessage::Ready(addr) => {
                &&& *final(round) == *old(round)
                &&& reply == if sockets@.dom().contains(addr) {
                    Reply::Welcome(addr)
                } else {
                    Reply::Stranger(addr)
                }
                &&& forall|a: ClientAddr| #[trigger]
                    final(ready)@.contains(a) <==> old(ready)@.contains(a) || (a == addr
                        && sockets@.dom().contains(addr))
            },
            ClientMessage::Mining(addr) => {
                &&& reply == Reply::Mining(addr)
                &&& final(ready)@ == old(ready)@
                &&& *final(round) == *old(round)
            },
            ClientMessage::BestSolution(addr, found) => {
                let valid = solution::equix_accepts(
                    found.digest@,
                    found.nonce@,
                    old(round).proof.challenge@,
                );
                let difficulty = found.difficulty();
                &&& final(ready)@ == old(ready)@
                &&& final(round).proof == old(round).proof
                &&& final(round).nonce == old(round).nonce
                &&& reply is Judged && reply->Judged_0 == addr
                &&& reply->Judged_1 is Invalid <==> !valid
                &&& valid && difficulty < 8 ==> (reply->Judged_1 matches Verdict::TooLow {
                    difficulty: told,
                } && told == difficulty)
                &&& valid && difficulty >= 8 ==> (reply->Judged_1 matches Verdict::Accepted {
                    difficulty: told,
                    hashpower,
                } && told == difficulty && (hashpower matches Some(power) ==> power == 5
                    * power2::pow2((difficulty - 8) as nat)) && (hashpower is None <==> 5
                    * power2::pow2((difficulty - 8) as nat) > u64::MAX))
                &&& if valid && difficulty >= 8 && difficulty > old(round).best.difficulty {
                    final(round).best.solution == Some(found) && final(round).best.difficulty
                        == difficulty
                } else {
                    final(round).best == old(round).best
                }
            },
        },
        old(round).sound() ==> final(round).sound(),
{
    match message {
        ClientMessage::Ready(addr) => {
            if sockets.contains(addr) {
                let ghost before = ready@;
                ready.insert(addr);
                proof {
                    lemma_inserted(before, ready@, addr);
                }
                Reply::Welcome(addr)
            } else {
                Reply::Stranger(addr)
            }
        },
        ClientMessage::Mining(addr) => Reply::Mining(addr),
        ClientMessage::BestSolution(addr, found) => {
            let challenge: [u8; 32] = round.proof.challenge;
            let verdict: Verdict = round.best.submit(found, &challenge);
            Reply::Judged(addr, verdict)
        },
    }
}

/// What a message does. A client that is ready waits from then on exactly if it has a socket, and is
/// told so; a solution changes the round exactly if it solves the challenge at a difficulty of 8 or
/// more that is above the best so far; and nothing else changes anything.
pub proof fn law_message_effect(
    message: ClientMessage,
    connected: Set<ClientAddr>,
    ready: Seq<ClientAddr>,
    round: Round,
)
    ensures
        ({
            let ready1 = ready_after(message, connected, ready);
            let round1 = round_after(message, round);
            let reply = reply_to(message, connected, round.proof.challenge@);
            &&& round1.proof == round.proof && round1.nonce == round.nonce
            &&& message matches ClientMessage::Ready(addr) ==> {
                &&& round1 == round
                &&& reply is Welcome <==> connected.contains(addr)
                &&& reply is Welcome ==> reply->Welcome_0 == addr && ready1.contains(addr)
                &&& reply is Stranger <==> !connected.contains(addr)
                &&& reply is Stranger ==> reply->Stranger_0 == addr && ready1 == ready
                &&& ready1.len() == if connected.contains(addr) && !ready.contains(addr) {
                    ready.len() + 1
                } else {
                    ready.len()
                }
                &&& forall|i: int| 0 <= i < ready.len() ==> #[trigger] ready1[i] == ready[i]
            }
            &&& message matches ClientMessage::Mining(addr) ==> {
                &&& round1 == round && ready1 == ready
                &&& reply is Mining && reply->Mining_0 == addr
            }
            &&& message matches ClientMessage::BestSolution(addr, found) ==> {
                let valid = solution::equix_accepts(
                    found.digest@,
                    found.nonce@,
                    round.proof.challenge@,
                );
                let difficulty = found.difficulty();
                &&& ready1 == ready
                &&& reply is Judged && reply->Judged_0 == addr
                &&& reply->Judged_1 is Invalid <==> !valid
                &&& reply->Judged_1 is TooLow <==> valid && difficulty < 8
                &&& reply->Judged_1 is Accepted <==> valid && difficulty >= 8
                &&& round1.best.solution == if valid && difficulty >= 8 && difficulty
                    > round.best.difficulty {
                    Some(found)
                } else {
                    round.best.solution
                }
                &&& round1.best.difficulty == if valid && difficulty >= 8 && difficulty
                    > round.best.difficulty {
                    difficulty
                } else {
                    round.best.difficulty as nat
                }
            }
        }),
{
    if let ClientMessage::Ready(addr) = message {
        if connected.contains(addr) && !ready.contains(addr) {
            assert(ready.push(addr)[ready.len() as int] == addr);
        }
    }
    if let ClientMessage::BestSolution(_, found) = message {
        solution::law_difficulty_bound(found);
    }
}

/// The waiting clients and the round after a series of messages.
pub open spec fn after_all(
    messages: Seq<ClientMessage>,
    connected: Set<ClientAddr>,
    ready: Seq<ClientAddr>,
    round: Round,
) -> (Seq<ClientAddr>, Round)
    decreases messages.len(),
{
    if messages.len() == 0 {
        (ready, round)
    } else {
        let (ready1, round1) = after_all(messages.drop_last(), connected, ready, round);
        (
            ready_after(messages.last(), connected, ready1),
            round_after(messages.last(), round1),
        )
    }
}

/// Whether a message carries a solution of the challenge that counts, at the given difficulty.
pub open spec fn brings(message: ClientMessage, challenge: Seq<u8>, difficulty: u32) -> bool {
    message matches ClientMessage::BestSolution(_, found) && {
        &&& solution::counts(found.solves(challenge), difficulty as nat)
        &&& difficulty == found.difficulty() as u32
    }
}

/// Whether the best solution is the one that message `i` of a series brings, and no message before
/// it brings one as hard.
pub open spec fn first_to_bring(
    messages: Seq<ClientMessage>,
    i: int,
    challenge: Seq<u8>,
    best: BestHash,
) -> bool {
    &&& 0 <= i < messages.len()
    &&& brings(messages[i], challenge, best.difficulty)
    &&& messages[i] matches ClientMessage::BestSolution(_, found) && best.solution == Some(found)
    &&& forall|j: int, difficulty: u32|
        0 <= j < i && #[trigger] brings(messages[j], challenge, difficulty) ==> difficulty
            < best.difficulty
}

/// After any series of messages those clients wait that did before or that have a socket and said
/// that they are ready. The difficulty of the best solution is the highest of those that were
/// brought and of the one before; where it has changed, the solution is the first that was brought
/// at that difficulty. Nothing else of the round changes.
pub proof fn law_messages_add_up(
    messages: Seq<ClientMessage>,
    connected: Set<ClientAddr>,
    ready: Seq<ClientAddr>,
    round: Round,
)
    ensures
        ({
            let (ready1, round1) = after_all(messages, connected, ready, round);
            let challenge = round.proof.challenge@;
            &&& forall|addr: ClientAddr|
                #[trigger] ready1.contains(addr) <==> (ready.contains(addr) || (
                connected.contains(addr) && messages.contains(ClientMessage::Ready(addr))))
            &&& round1.proof == round.proof
            &&& round1.nonce == round.nonce
            &&& round.best.difficulty <= round1.best.difficulty
            &&& forall|i: int, difficulty: u32|
                0 <= i < messages.len() && #[trigger] brings(messages[i], challenge, difficulty)
                    ==> difficulty <= round1.best.difficulty
            &&& round1.best == round.best || {
                &&& round.best.difficulty < round1.best.difficulty
                &&& exists|i: int| #[trigger] first_to_bring(messages, i, challenge, round1.best)
            }
        }),
    decreases messages.len(),
{
    if messages.len() > 0 {
        let front = messages.drop_last();
        let last = messages.last();
        let n = messages.len() - 1;
        let challenge = round.proof.challenge@;
        law_messages_add_up(front, connected, ready, round);
        let (ready0, round0) = after_all(front, connected, ready, round);
        let (ready1, round1) = after_all(messages, connected, ready, round);
        assert(messages =~= front.push(last));
        assert forall|addr: ClientAddr|
            #[trigger] ready1.contains(addr) <==> (ready.contains(addr) || (connected.contains(addr)
                && messages.contains(ClientMessage::Ready(addr)))) by {
            let said = ClientMessage::Ready(addr);
            assert(messages.contains(said) <==> front.contains(said) || last == said) by {
                if front.contains(said) {
                    assert(messages[front.index_of(said)] == said);
                }
                assert(messages[n] == last);
                if messages.contains(said) {
                    let k = messages.index_of(said);
                    if k < n {
                        assert(front[k] == said);
                    }
                }
            }
            if ready1 != ready0 {
                let newcomer = last->Ready_0;
                assert(ready1 == ready0.push(newcomer));
                assert(ready1[ready0.len() as int] == newcomer);
                if ready0.contains(addr) {
                    assert(ready1[ready0.index_of(addr)] == addr);
                }
                if ready1.contains(addr) && addr != newcomer {
                    assert(ready0[ready1.index_of(addr)] == addr);
                }
            }
        }
        assert forall|i: int, difficulty: u32|
            0 <= i < messages.len() && #[trigger] brings(
                messages[i],
                challenge,
                difficulty,
            ) implies difficulty <= round1.best.difficulty by {
            if i < n {
                assert(brings(front[i], challenge, difficulty));
            }
        }
        if round1.best != round0.best {
            assert(brings(messages[n], challenge, round1.best.difficulty));
            assert forall|j: int, difficulty: u32|
                0 <= j < n && #[trigger] brings(
                    messages[j],
                    challenge,
                    difficulty,
                ) implies difficulty < round1.best.difficulty by {
                assert(brings(front[j], challenge, difficulty));
            }
            assert(first_to_bring(messages, n, challenge, round1.best));
        } else if round1.best != round.best {
            let i = choose|i: int| #[trigger] first_to_bring(front, i, challenge, round0.best);
            assert(brings(messages[i], challenge, round1.best.difficulty));
            assert forall|j: int, difficulty: u32|
                0 <= j < i && #[trigger] brings(
                    messages[j],
                    challenge,
                    difficulty,
                ) implies difficulty < round1.best.difficulty by {
                assert(brings(front[j], challenge, difficulty));
            }
            assert(first_to_bring(messages, i, challenge, round1.best));
        }
    }
}

/// The order in which messages come plays no part: two series of the same messages leave the same
/// clients waiting and the same difficulty of the best solution. Only the order of the waiting
/// clients, and which of several equally hard solutions is kept, may differ.
pub proof fn law_message_order(
    a: Seq<ClientMessage>,
    b: Seq<ClientMessage>,
    connected: Set<ClientAddr>,
    ready: Seq<ClientAddr>,
    round: Round,
)
    requires
        a.to_multiset() == b.to_multiset(),
    ensures
        ({
            let (ready_a, round_a) = after_all(a, connected, ready, round);
            let (ready_b, round_b) = after_all(b, connected, ready, round);
            &&& ready_a.to_set() == ready_b.to_set()
            &&& round_a.best.difficulty == round_b.best.difficulty
            &&& round_a.best == round.best <==> round_b.best == round.best
            &&& round_a.proof == round_b.proof
            &&& round_a.nonce == round_b.nonce
        }),
{
    let (ready_a, round_a) = after_all(a, connected, ready, round);
    let (ready_b, round_b) = after_all(b, connected, ready, round);
    let challenge = round.proof.challenge@;
    law_messages_add_up(a, connected, ready, round);
    law_messages_add_up(b, connected, ready, round);
    a.to_multiset_ensures();
    b.to_multiset_ensures();
    assert forall|message: ClientMessage| a.contains(message) <==> b.contains(message) by {
        assert(a.contains(message) <==> a.to_multiset().count(message) > 0);
        assert(b.contains(message) <==> b.to_multiset().count(message) > 0);
    }
    assert forall|addr: ClientAddr| ready_a.to_set().contains(addr) <==> ready_b.to_set().contains(
        addr,
    ) by {
        assert(ready_a.contains(addr) <==> ready_b.contains(addr));
    }
    assert(ready_a.to_set() =~= ready_b.to_set());
    if round_a.best != round.best {
        let i = choose|i: int| #[trigger] first_to_bring(a, i, challenge, round_a.best);
        assert(a.contains(a[i]));
        let j = b.index_of(a[i]);
        assert(brings(b[j], challenge, round_a.best.difficulty));
    }
    if round_b.best != round.best {
        let i = choose|i: int| #[trigger] first_to_bring(b, i, challenge, round_b.best);
        assert(b.contains(b[i]));
        let j = a.index_of(b[i]);
        assert(brings(a[j], challenge, round_b.best.difficulty));
    }
}

} // verus!
