use std::ops::ControlFlow;

use ore_hq_server::clients::ClientAddr;
use ore_hq_server::order::MiningOrder;
use ore_hq_server::solution::Solution;
use ore_hq_server::wire::{process_message, ClientMessage, CloseFrame, Frame, Inbound};

fn who() -> ClientAddr {
    ClientAddr::V4 { ip: 0x7f00_0001, port: 4000 }
}

#[test]
fn ready_and_mining_are_forwarded() {
    let ready = process_message(&Frame::Binary(vec![0]), who());
    assert_eq!(ready, Inbound::Forward(ClientMessage::Ready(who())));
    assert_eq!(ready.flow(), ControlFlow::Continue(()));
    let mining = process_message(&Frame::Binary(vec![1, 9, 9]), who());
    assert_eq!(mining, Inbound::Forward(ClientMessage::Mining(who())));
}

#[test]
fn solution_is_read_back_as_sent() {
    let solution = Solution::new([7; 16], [1, 2, 3, 4, 5, 6, 7, 8]);
    let mut bytes = vec![2];
    bytes.extend_from_slice(&[7; 16]);
    bytes.extend_from_slice(&[1, 2, 3, 4, 5, 6, 7, 8]);
    let expected = Inbound::Forward(ClientMessage::BestSolution(who(), solution));
    assert_eq!(process_message(&Frame::Binary(bytes.clone()), who()), expected);
    bytes.extend_from_slice(&[0xff; 3]);
    assert_eq!(process_message(&Frame::Binary(bytes), who()), expected);
}

#[test]
fn digest_and_nonce_keep_their_order() {
    let bytes: Vec<u8> = std::iter::once(2).chain(10..34).collect();
    let digest: [u8; 16] = [10, 11, 12, 13, 14, 15, 16, 17, 18, 19, 20, 21, 22, 23, 24, 25];
    let nonce: [u8; 8] = [26, 27, 28, 29, 30, 31, 32, 33];
    assert_eq!(
        process_message(&Frame::Binary(bytes), who()),
        Inbound::Forward(ClientMessage::BestSolution(who(), Solution::new(digest, nonce)))
    );
}

#[test]
fn unknown_type_is_told() {
    assert_eq!(process_message(&Frame::Binary(vec![3]), who()), Inbound::Unknown);
    assert_eq!(process_message(&Frame::Binary(vec![255, 0]), who()), Inbound::Unknown);
}

#[test]
fn close_ends_the_reading() {
    let closed = process_message(&Frame::Close(None), who());
    assert_eq!(closed, Inbound::Closed);
    assert_eq!(closed.flow(), ControlFlow::Break(()));
    let frame = CloseFrame { code: 1000, reason: String::from("bye") };
    assert_eq!(process_message(&Frame::Close(Some(frame)), who()), Inbound::Closed);
}

#[test]
fn other_frames_are_passed_over() {
    assert_eq!(process_message(&Frame::Text(String::from("hi")), who()), Inbound::Text);
    assert_eq!(process_message(&Frame::Ping(vec![1]), who()), Inbound::Ignored);
    let pong = process_message(&Frame::Pong(vec![]), who());
    assert_eq!(pong, Inbound::Ignored);
    assert_eq!(pong.flow(), ControlFlow::Continue(()));
}

#[test]
fn incomplete_frames_are_told() {
    assert!(!Frame::Binary(vec![]).is_complete());
    assert!(!Frame::Binary(vec![2; 24]).is_complete());
    assert!(Frame::Binary(vec![2; 25]).is_complete());
    assert!(Frame::Binary(vec![0]).is_complete());
    assert!(Frame::Text(String::new()).is_complete());
}

#[test]
fn order_is_laid_out_in_57_bytes() {
    let order = MiningOrder {
        challenge: [0xab; 32],
        cutoff: 55,
        start: 2_000_000,
        end: 4_000_000,
    };
    let bytes = order.to_bytes();
    assert_eq!(bytes.len(), 57);
    assert_eq!(bytes[0], 0);
    assert_eq!(bytes[1..33], [0xab; 32]);
    assert_eq!(bytes[33..41], 55i64.to_le_bytes());
    assert_eq!(bytes[41..49], 2_000_000u64.to_le_bytes());
    assert_eq!(bytes[49..57], 4_000_000u64.to_le_bytes());
}

#[test]
fn order_takes_the_largest_numbers() {
    let order = MiningOrder {
        challenge: [1; 32],
        cutoff: i64::MAX as u64,
        start: u64::MAX - 1,
        end: u64::MAX,
    };
    let bytes = order.to_bytes();
    assert_eq!(bytes[33..41], i64::MAX.to_le_bytes());
    assert_eq!(bytes[41..49], (u64::MAX - 1).to_le_bytes());
    assert_eq!(bytes[49..57], u64::MAX.to_le_bytes());
}
