//! What happens to a round over time, through plans, messages and the steps of a submission.
use vstd::prelude::*;

use crate::clients::ClientAddr;
use crate::round::{Delivery, Round};
use crate::submit::{Event, SubmitterView};
use crate::wire::ClientMessage;
use crate::{handler, round, solution, submit};

verus! {

/// Something that happens to a round.
pub enum Move {
    /// The waiting clients are set to work, with so many seconds left.
    Plan { cutoff: i64, waiting: Seq<ClientAddr>, connected: Set<ClientAddr> },
    /// A client sends a message.
    Message(ClientMessage),
    /// The submitter takes note of an event.
    Step(SubmitterView, Event),
}

/// The round after a move: what `Round::plan`, `handle_client_message` or `Submitter::step` makes
/// of it.
pub open spec fn moved(round: Round, by: Move) -> Round {
    match by {
        Move::Plan { cutoff, waiting, .. } => round::after_plan(round, cutoff, waiting.len()),
        Move::Message(message) => handler::round_after(message, round),
        Move::Step(s, event) => submit::next(s, round, event).1,
    }
}

/// The orders that a move sends out.
pub open spec fn orders(round: Round, by: Move) -> Seq<Delivery> {
    match by {
        Move::Plan { cutoff, waiting, connected } => match round::mining_time(cutoff, round.best) {
            Some(time) => round::deliveries(round, time, waiting, connected),
            None => Seq::empty(),
        },
        _ => Seq::empty(),
    }
}

/// Whether a move can be made: a plan needs nonces for its clients.
pub open spec fn possible(round: Round, by: Move) -> bool {
    by matches Move::Plan { cutoff, waiting, .. } ==> round::mining_time(cutoff, round.best) is Some
        ==> round.has_nonces_for(waiting.len())
}

/// Whether a move begins a round anew: a proof was loaded, after the last bundle was given up, or
/// after one has landed and the proof is another one.
pub open spec fn begins_anew(by: Move) -> bool {
    by matches Move::Step(s, event) && event matches Event::Loaded { proof: Some(loaded) } && (
    s.phase is Reloading || (s.phase is Settling && loaded != s.proof))
}

/// The round before move `i` of a series.
pub open spec fn round_at(start: Round, moves: Seq<Move>, i: int) -> Round
    decreases i,
{
    if i <= 0 {
        start
    } else {
        moved(round_at(start, moves, i - 1), moves[i - 1])
    }
}

/// Whether a series of moves can be made, and none of them begins the round anew.
pub open spec fn one_round(start: Round, moves: Seq<Move>) -> bool {
    forall|i: int|
        0 <= i < moves.len() ==> possible(round_at(start, moves, i), #[trigger] moves[i])
            && !begins_anew(moves[i])
}

/// Within a round the proof stays the same, and the nonce never falls.
pub proof fn law_nonce_never_falls(start: Round, moves: Seq<Move>, i: int, j: int)
    requires
        one_round(start, moves),
        0 <= i <= j <= moves.len(),
    ensures
        round_at(start, moves, i).nonce <= round_at(start, moves, j).nonce,
        round_at(start, moves, i).proof == round_at(start, moves, j).proof,
    decreases j - i,
{
    if i < j {
        law_nonce_never_falls(start, moves, i, j - 1);
        lemma_move(round_at(start, moves, j - 1), moves[j - 1]);
    }
}

/// A move that does not begin the round anew keeps the proof, and takes up the nonces that it
/// hands out.
proof fn lemma_move(round: Round, by: Move)
    requires
        possible(round, by),
        !begins_anew(by),
    ensures
        moved(round, by).proof == round.proof,
        round.nonce <= moved(round, by).nonce,
        by matches Move::Plan { cutoff, waiting, .. } ==> round::mining_time(
            cutoff,
            round.best,
        ) is Some ==> moved(round, by).nonce == round.nonce + round::NONCES_PER_CLIENT
            * waiting.len(),
{
    if let Move::Step(s, event) = by {
        submit::law_round_restarts(s, round, event);
    }
}

/// No two clients ever get the same nonce within a round, whatever happens in between: the nonces
/// of an order of a later move lie behind those of every order of an earlier one.
pub proof fn law_nonces_given_once(start: Round, moves: Seq<Move>, i: int, j: int)
    requires
        one_round(start, moves),
        0 <= i < j < moves.len(),
    ensures
        ({
            let first = orders(round_at(start, moves, i), moves[i]);
            let second = orders(round_at(start, moves, j), moves[j]);
            forall|k: int, l: int|
                0 <= k < first.len() && 0 <= l < second.len() ==> (#[trigger] first[k]).order.end
                    <= (#[trigger] second[l]).order.start
        }),
{
    let before = round_at(start, moves, i);
    let after = round_at(start, moves, j);
    assert(possible(before, moves[i]) && possible(after, moves[j]));
    lemma_move(before, moves[i]);
    law_nonce_never_falls(start, moves, i + 1, j);
    match (moves[i], moves[j]) {
        (
            Move::Plan { cutoff: cutoff1, waiting: waiting1, connected: connected1 },
            Move::Plan { cutoff: cutoff2, waiting: waiting2, connected: connected2 },
        ) => {
            let time1 = round::mining_time(cutoff1, before.best);
            let time2 = round::mining_time(cutoff2, after.best);
            if time1 is Some && time2 is Some {
                round::lemma_plans_disjoint(
                    before,
                    time1->0,
                    waiting1,
                    connected1,
                    after,
                    time2->0,
                    waiting2,
                    connected2,
                );
            }
        },
        _ => {},
    }
}

/// Whatever happens to a round, its best solution goes on to solve its challenge and to count.
pub proof fn law_history_is_sound(start: Round, moves: Seq<Move>, i: int)
    requires
        start.sound(),
        0 <= i <= moves.len(),
    ensures
        round_at(start, moves, i).sound(),
    decreases i,
{
    if i > 0 {
        law_history_is_sound(start, moves, i - 1);
        let round = round_at(start, moves, i - 1);
        if let Move::Step(s, event) = moves[i - 1] {
            submit::law_submits_what_counts(s, round, event);
        }
        if let Move::Message(ClientMessage::BestSolution(_, found)) = moves[i - 1] {
            solution::law_difficulty_bound(found);
        }
    }
}

} // verus!
