//! The messages that pass between the pool and its clients.
use std::ops::ControlFlow;
use vstd::prelude::*;

use crate::clients::ClientAddr;
use crate::solution::Solution;

verus! {

/// The code and the reason with which a client closes its socket.
pub struct CloseFrame {
    pub code: u16,
    pub reason: String,
}

/// A frame that a client sends.
pub enum Frame {
    Text(String),
    Binary(Vec<u8>),
    Ping(Vec<u8>),
    Pong(Vec<u8>),
    Close(Option<CloseFrame>),
}

/// A message from a client, for the pool to act on.
#[derive(Clone, Copy, Debug, PartialEq, Eq)]
pub enum ClientMessage {
    /// The client waits for work.
    Ready(ClientAddr),
    /// The client has begun to mine.
    Mining(ClientAddr),
    /// The client has found a solution.
    BestSolution(ClientAddr, Solution),
}

/// What a frame comes to.
#[derive(Clone, Copy, Debug, PartialEq, Eq)]
pub enum Inbound {
    /// A text, only to be logged.
    Text,
    /// A message for the pool.
    Forward(ClientMessage),
    /// A binary frame of an unknown type.
    Unknown,
    /// A ping or a pong.
    Ignored,
    /// The client closes the socket.
    Closed,
}

/// The first byte of a frame that says that the client is ready.
pub const READY: u8 = 0;

/// The first byte of a frame that says that the client mines.
pub const MINING: u8 = 1;

/// The first byte of a frame that carries a solution.
pub const BEST_SOLUTION: u8 = 2;

/// The length of a frame that carries a solution: type, digest and nonce.
pub const SOLUTION_FRAME_LEN: usize = 25;

/// What a ping to a client carries.
pub const PING_PAYLOAD: [u8; 3] = [1, 2, 3];

/// How many seconds pass between two pings to a client.
pub const PING_PAUSE_SECS: u64 = 5;

/// Whether a binary frame holds all the bytes that its type calls for.
pub open spec fn complete_bytes(d: Seq<u8>) -> bool {
    &&& d.len() > 0
    &&& d[0] == BEST_SOLUTION ==> d.len() >= SOLUTION_FRAME_LEN
}

/// Whether a frame can be processed.
pub open spec fn complete(msg: Frame) -> bool {
    msg matches Frame::Binary(d) ==> complete_bytes(d@)
}

/// Whether `inbound` is what the bytes of a complete binary frame come to.
pub open spec fn bytes_read_as(d: Seq<u8>, who: ClientAddr, inbound: Inbound) -> bool {
    if d[0] == READY {
        inbound == Inbound::Forward(ClientMessage::Ready(who))
    } else if d[0] == MINING {
        inbound == Inbound::Forward(ClientMessage::Mining(who))
    } else if d[0] == BEST_SOLUTION {
        inbound matches Inbound::Forward(ClientMessage::BestSolution(from, solution)) && {
            &&& from == who
            &&& solution.digest@ == d.subrange(1, 17)
            &&& solution.nonce@ == d.subrange(17, 25)
        }
    } else {
        inbound == Inbound::Unknown
    }
}

/// Whether `inbound` is what a complete frame comes to.
pub open spec fn reads_as(msg: Frame, who: ClientAddr, inbound: Inbound) -> bool {
    match msg {
        Frame::Text(_) => inbound == Inbound::Text,
        Frame::Binary(d) => bytes_read_as(d@, who, inbound),
        Frame::Ping(_) => inbound == Inbound::Ignored,
        Frame::Pong(_) => inbound == Inbound::Ignored,
        Frame::Close(_) => inbound == Inbound::Closed,
    }
}

impl Frame {
    /// Tells whether the frame can be processed.
    pub fn is_complete(&self) -> (r: bool)
        ensures
            r == complete(*self),
            self matches Frame::Binary(d) ==> (r <==> d@.len() >= 25 || (d@.len() >= 1 && d@[0]
                != 2)),
            !(self is Binary) ==> r,
    {
        match self {
            Frame::Binary(d) => d.len() > 0 && (d[0] != BEST_SOLUTION || d.len()
                >= SOLUTION_FRAME_LEN),
            _ => true,
        }
    }
}

impl Inbound {
    /// Whether the socket is read on after the frame: not once the client has closed it.
    pub fn flow(&self) -> (r: ControlFlow<(), ()>)
        ensures
            (r == ControlFlow::<(), ()>::Break(())) == (*self is Closed),
            (r == ControlFlow::<(), ()>::Continue(())) == !(*self is Closed),
    {
        match self {
            Inbound::Closed => ControlFlow::Break(()),
            _ => ControlFlow::Continue(()),
        }
    }
}

/// Reads the solution out of a frame.
fn read_solution(d: &Vec<u8>) -> (r: Solution)
    requires
        d@.len() >= SOLUTION_FRAME_LEN,
    ensures
        r.digest@ == d@.subrange(1, 17),
        r.nonce@ == d@.subrange(17, 25),
{
    let mut digest: [u8; 16] = [0u8; 16];
    let mut i: usize = 0;
    while i < 16
        invariant
            i <= 16,
            d@.len() >= SOLUTION_FRAME_LEN,
            forall|j: int| 0 <= j < i ==> digest@[j] == d@[j + 1],
        decreases 16 - i,
    {
        digest[i] = d[i + 1];
        i = i + 1;
    }
    let mut nonce: [u8; 8] = [0u8; 8];
    let mut k: usize = 0;
    while k < 8
        invariant
            k <= 8,
            d@.len() >= SOLUTION_FRAME_LEN,
            forall|j: int| 0 <= j < k ==> nonce@[j] == d@[j + 17],
        decreases 8 - k,
    {
        nonce[k] = d[k + 17];
        k = k + 1;
    }
    assert(digest@ =~= d@.subrange(1, 17));
    assert(nonce@ =~= d@.subrange(17, 25));
    Solution::new(digest, nonce)
}

/// Makes out what a frame from a client comes to.
pub fn process_message(msg: &Frame, who: ClientAddr) -> (r: Inbound)
    requires
        complete(*msg),
    ensures
        reads_as(*msg, who, r),
        msg matches Frame::Binary(d) ==> {
            &&& d@[0] == 0 <==> r == Inbound::Forward(ClientMessage::Ready(who))
            &&& d@[0] == 1 <==> r == Inbound::Forward(ClientMessage::Mining(who))
            &&& d@[0] == 2 <==> r is Forward && r->Forward_0 is BestSolution
            &&& d@[0] > 2 <==> r is Unknown
            &&& r matches Inbound::Forward(ClientMessage::BestSolution(from, found)) ==> {
                &&& from == who
                &&& forall|i: int| 0 <= i < 16 ==> #[trigger] found.digest@[i] == d@[1 + i]
                &&& forall|i: int| 0 <= i < 8 ==> #[trigger] found.nonce@[i] == d@[17 + i]
            }
        },
        msg is Text <==> r is Text,
        msg is Close <==> r is Closed,
        msg is Ping || msg is Pong <==> r is Ignored,
{
    match msg {
        Frame::Text(_) => Inbound::Text,
        Frame::Binary(d) => {
            if d[0] == READY {
                Inbound::Forward(ClientMessage::Ready(who))
            } else if d[0] == MINING {
                Inbound::Forward(ClientMessage::Mining(who))
            } else if d[0] == BEST_SOLUTION {
                Inbound::Forward(ClientMessage::BestSolution(who, read_solution(d)))
            } else {
                Inbound::Unknown
            }
        },
        Frame::Close(_) => Inbound::Closed,
        Frame::Pong(_) => Inbound::Ignored,
        Frame::Ping(_) => Inbound::Ignored,
    }
}

/// The first byte alone decides what a binary frame is, whatever its length and whatever follows:
/// 0 says that the client is ready, 1 that it mines, 2 that it has found a solution; with any other
/// the frame is unknown.
pub proof fn law_first_byte_decides(d: Seq<u8>, who: ClientAddr, inbound: Inbound)
    requires
        complete_bytes(d),
        bytes_read_as(d, who, inbound),
    ensures
        d[0] == 0 <==> inbound == Inbound::Forward(ClientMessage::Ready(who)),
        d[0] == 1 <==> inbound == Inbound::Forward(ClientMessage::Mining(who)),
        d[0] == 2 <==> inbound is Forward && inbound->Forward_0 is BestSolution,
        d[0] > 2 <==> inbound is Unknown,
        inbound matches Inbound::Forward(ClientMessage::BestSolution(from, found)) ==> {
            &&& from == who
            &&& forall|i: int| 0 <= i < 16 ==> #[trigger] found.digest@[i] == d[1 + i]
            &&& forall|i: int| 0 <= i < 8 ==> #[trigger] found.nonce@[i] == d[17 + i]
        },
{
    if let Inbound::Forward(ClientMessage::BestSolution(from, found)) = inbound {
        assert forall|i: int| 0 <= i < 16 implies #[trigger] found.digest@[i] == d[1 + i] by {
            assert(d.subrange(1, 17)[i] == d[1 + i]);
        }
        assert forall|i: int| 0 <= i < 8 implies #[trigger] found.nonce@[i] == d[17 + i] by {
            assert(d.subrange(17, 25)[i] == d[17 + i]);
        }
    }
}

/// A ping carries the three bytes 1, 2 and 3, and one is sent every five seconds.
pub proof fn law_pings()
    ensures
        PING_PAUSE_SECS == 5,
        PING_PAYLOAD@ == seq![1u8, 2u8, 3u8],
{
    assert(PING_PAYLOAD@ =~= seq![1u8, 2u8, 3u8]);
}

/// A binary frame can be processed exactly if it is not empty and, where it carries a solution,
/// holds the 25 bytes of one; any other frame always can.
pub proof fn law_complete_frames(msg: Frame)
    ensures
        msg matches Frame::Binary(d) ==> (complete(msg) <==> d@.len() >= 25 || (d@.len() >= 1
            && d@[0] != 2)),
        !(msg is Binary) ==> complete(msg),
{
}

/// The bytes in which a client sends a solution.
pub open spec fn solution_frame(solution: Solution) -> Seq<u8> {
    seq![BEST_SOLUTION] + solution.digest@ + solution.nonce@
}

/// A solution that a client sends in is read back as it was sent, whatever follows it in the
/// frame.
pub proof fn law_solution_read_back(
    solution: Solution,
    rest: Seq<u8>,
    who: ClientAddr,
    inbound: Inbound,
)
    requires
        bytes_read_as(solution_frame(solution) + rest, who, inbound),
    ensures
        complete_bytes(solution_frame(solution) + rest),
        inbound == Inbound::Forward(ClientMessage::BestSolution(who, solution)),
{
    let d = solution_frame(solution) + rest;
    let got = inbound->Forward_0->BestSolution_1;
    assert(d.subrange(1, 17) =~= solution.digest@);
    assert(d.subrange(17, 25) =~= solution.nonce@);
    assert(got.digest =~= solution.digest) by {
        assert(forall|i: int| 0 <= i < 16 ==> got.digest@[i] == solution.digest@[i]);
    }
    assert(got.nonce =~= solution.nonce) by {
        assert(forall|i: int| 0 <= i < 8 ==> got.nonce@[i] == solution.nonce@[i]);
    }
}

/// A frame comes to one thing only.
pub proof fn law_reading_is_unique(msg: Frame, who: ClientAddr, a: Inbound, b: Inbound)
    requires
        complete(msg),
        reads_as(msg, who, a),
        reads_as(msg, who, b),
    ensures
        a == b,
{
    if let Frame::Binary(d) = msg {
        if d@[0] == BEST_SOLUTION {
            let x = a->Forward_0->BestSolution_1;
            let y = b->Forward_0->BestSolution_1;
            assert(x.digest =~= y.digest) by {
                assert(forall|i: int| 0 <= i < 16 ==> x.digest@[i] == y.digest@[i]);
            }
            assert(x.nonce =~= y.nonce) by {
                assert(forall|i: int| 0 <= i < 8 ==> x.nonce@[i] == y.nonce@[i]);
            }
        }
    }
}

} // verus!
