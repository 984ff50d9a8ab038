use ore_hq_server::clients::{ClientAddr, ClientSet, Sockets};
use ore_hq_server::order::MiningOrder;
use ore_hq_server::round::{cutoff_at, Delivery, Proof, Round};
use ore_hq_server::solution::{BestHash, Solution};

fn new_proof() -> Proof {
    Proof {
        authority: [1; 32],
        balance: 100,
        challenge: [2; 32],
        last_hash: [3; 32],
        last_hash_at: 4,
        last_stake_at: 5,
        miner: [6; 32],
        total_hashes: 7,
        total_rewards: 8,
    }
}

fn client(port: u16) -> ClientAddr {
    ClientAddr::V4 { ip: 1, port }
}

fn order(cutoff: u64, start: u64) -> MiningOrder {
    MiningOrder { challenge: [2; 32], cutoff, start, end: start + 2_000_000 }
}

fn waiting(ports: &[u16]) -> ClientSet {
    let mut ready = ClientSet::new();
    for port in ports {
        ready.insert(client(*port));
    }
    ready
}

#[test]
fn waiting_clients_get_ranges_of_their_own() {
    let mut round = Round::new(new_proof());
    let mut ready = waiting(&[1, 2, 3]);
    let mut sockets = Sockets::new();
    sockets.connect(client(1), ());
    sockets.connect(client(3), ());
    let sent = round.plan(30, &mut ready, &sockets).unwrap();
    assert_eq!(
        sent,
        vec![
            Delivery { client: client(1), order: order(30, 0) },
            Delivery { client: client(3), order: order(30, 4_000_000) },
        ]
    );
    assert_eq!(ready.to_vec(), vec![client(2)]);
    assert_eq!(round.nonce, 6_000_000);
    sockets.connect(client(2), ());
    let sent = round.plan(25, &mut ready, &sockets).unwrap();
    assert_eq!(sent, vec![Delivery { client: client(2), order: order(25, 6_000_000) }]);
    assert!(ready.to_vec().is_empty());
    assert_eq!(round.nonce, 8_000_000);
}

#[test]
fn time_over_without_a_solution_goes_on_mining() {
    let mut round = Round::new(new_proof());
    let mut ready = waiting(&[1]);
    let mut sockets = Sockets::new();
    sockets.connect(client(1), ());
    let sent = round.plan(-5, &mut ready, &sockets).unwrap();
    assert_eq!(sent, vec![Delivery { client: client(1), order: order(0, 0) }]);
}

#[test]
fn time_over_with_a_solution_stops_mining() {
    let mut round = Round::new(new_proof());
    round.best.record(Solution::new([0; 16], [0; 8]), true, 9);
    let mut ready = waiting(&[1]);
    let mut sockets = Sockets::new();
    sockets.connect(client(1), ());
    assert_eq!(round.plan(0, &mut ready, &sockets), None);
    assert_eq!(ready.to_vec(), vec![client(1)]);
    assert_eq!(round.nonce, 0);
    assert!(round.plan(1, &mut ready, &sockets).is_some());
}

#[test]
fn restart_forgets_all_but_the_loaded_proof() {
    let mut round = Round::new(new_proof());
    round.best.record(Solution::new([0; 16], [0; 8]), true, 9);
    round.nonce = 77;
    let loaded = Proof { balance: 200, ..new_proof() };
    round.restart(loaded);
    assert_eq!(round.proof, loaded);
    assert_eq!(round.nonce, 0);
    assert_eq!(round.best, BestHash::new());
}

#[test]
fn nonces_run_out() {
    let mut round = Round::new(new_proof());
    assert!(round.nonces_suffice(1000));
    round.nonce = u64::MAX - 2_000_000;
    assert!(round.nonces_suffice(1));
    assert!(!round.nonces_suffice(2));
}

#[test]
fn proofs_differ_in_any_field() {
    let p = new_proof();
    assert_eq!(p, new_proof());
    assert_ne!(p, Proof { authority: [9; 32], ..p });
    assert_ne!(p, Proof { balance: 0, ..p });
    let mut challenge = p.challenge;
    challenge[31] = 0;
    assert_ne!(p, Proof { challenge, ..p });
    assert_ne!(p, Proof { last_hash: [0; 32], ..p });
    assert_ne!(p, Proof { last_hash_at: 0, ..p });
    assert_ne!(p, Proof { last_stake_at: 0, ..p });
    assert_ne!(p, Proof { miner: [0; 32], ..p });
    assert_ne!(p, Proof { total_hashes: 0, ..p });
    assert_ne!(p, Proof { total_rewards: 0, ..p });
}

#[test]
fn planning_needs_nonces_only_while_clients_are_set_to_work() {
    let mut round = Round::new(new_proof());
    round.nonce = u64::MAX;
    assert!(round.can_plan(10, 0));
    assert!(!round.can_plan(10, 1));
    assert!(!round.can_plan(0, 1));
    round.best.record(Solution::new([0; 16], [0; 8]), true, 9);
    assert!(round.can_plan(0, 1));
    assert!(!round.can_plan(1, 1));
}

#[test]
fn solution_is_due_a_minute_after_the_last_hash() {
    assert_eq!(cutoff_at(1_000, 0, 1_010), 50);
    assert_eq!(cutoff_at(1_000, 5, 1_010), 45);
    assert_eq!(cutoff_at(1_000, 0, 1_100), -40);
    assert_eq!(cutoff_at(i64::MAX, 5, 0), i64::MAX - 5);
    assert_eq!(cutoff_at(i64::MIN, 0, i64::MAX), i64::MIN);
    assert_eq!(cutoff_at(i64::MAX, 0, -1), i64::MAX);
}

#[test]
fn plans_of_a_round_never_share_nonces() {
    let mut round = Round::new(new_proof());
    let mut sockets = Sockets::new();
    for port in 0..4 {
        sockets.connect(client(port), ());
    }
    let mut end = 0;
    for cutoff in [30, 20, -1, 10] {
        let mut ready = waiting(&[0, 1, 2, 3]);
        for delivery in round.plan(cutoff, &mut ready, &sockets).unwrap() {
            assert!(delivery.order.start >= end);
            end = delivery.order.end;
        }
    }
    assert_eq!(end, 32_000_000);
}
