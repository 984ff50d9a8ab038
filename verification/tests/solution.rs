use ore_hq_server::clients::{ClientAddr, ClientSet, Sockets};
use ore_hq_server::handler::{handle_client_message, Reply, READY_NOTICE};
use ore_hq_server::round::{Proof, Round};
use ore_hq_server::solution::{hashpower, BestHash, Solution, Verdict};
use ore_hq_server::submit::{Action, Event, Submitter};
use ore_hq_server::wire::ClientMessage;

/// A solution of a challenge, found with the solver.
fn mined(challenge: &[u8; 32]) -> Solution {
    for nonce in 0u64.. {
        if let Ok(hash) = drillx::hash(challenge, &nonce.to_le_bytes()) {
            return Solution::new(hash.d, nonce.to_le_bytes());
        }
    }
    unreachable!()
}

fn new_proof(challenge: [u8; 32]) -> Proof {
    Proof {
        authority: [0; 32],
        balance: 0,
        challenge,
        last_hash: [0; 32],
        last_hash_at: 0,
        last_stake_at: 0,
        miner: [0; 32],
        total_hashes: 0,
        total_rewards: 0,
    }
}

fn client(port: u16) -> ClientAddr {
    ClientAddr::V4 { ip: 1, port }
}

#[test]
fn mined_solution_is_valid_for_its_challenge_only() {
    let challenge = [5; 32];
    let solution = mined(&challenge);
    assert!(solution.is_valid(&challenge));
    assert!(!solution.is_valid(&[6; 32]));
    let mut digest = solution.digest;
    digest[0] ^= 1;
    assert!(!Solution::new(digest, solution.nonce).is_valid(&challenge));
}

#[test]
fn difficulty_is_that_of_the_keccak_hash() {
    for n in 0..300u64 {
        let solution = Solution::new([(n % 251) as u8; 16], n.to_le_bytes());
        let hash = solana_program::keccak::hashv(&[&solution.digest, &solution.nonce]).to_bytes();
        let mut zeros = 0;
        for byte in hash {
            zeros += byte.leading_zeros();
            if byte != 0 {
                break;
            }
        }
        assert_eq!(solution.reached_difficulty(), zeros);
    }
}

#[test]
fn digest_is_hashed_with_its_words_in_order() {
    for n in 0..300u64 {
        let mut digest = [0u8; 16];
        for (i, byte) in digest.iter_mut().enumerate() {
            *byte = (n * 31 + 97 * (16 - i as u64)) as u8;
        }
        let mut words: Vec<u16> =
            digest.chunks(2).map(|pair| u16::from_ne_bytes([pair[0], pair[1]])).collect();
        words.sort();
        let sorted: Vec<u8> = words.iter().flat_map(|word| word.to_ne_bytes()).collect();
        let solution = Solution::new(digest, n.to_le_bytes());
        let hash = solana_program::keccak::hashv(&[&sorted, &solution.nonce]).to_bytes();
        let zeros = hash.iter().take_while(|byte| **byte == 0).count();
        let first = hash.get(zeros).map_or(0, |byte| byte.leading_zeros());
        assert_eq!(solution.reached_difficulty(), 8 * zeros as u32 + first);
    }
}

#[test]
fn hashpower_doubles_with_every_bit() {
    assert_eq!(hashpower(8), Some(5));
    assert_eq!(hashpower(9), Some(10));
    assert_eq!(hashpower(20), Some(5 * 4096));
    assert_eq!(hashpower(69), Some(5 << 61));
    assert_eq!(hashpower(70), None);
    assert_eq!(hashpower(256), None);
}

#[test]
fn verdicts() {
    let s = Solution::new([1; 16], [1; 8]);
    let mut best = BestHash::new();
    assert_eq!(best.record(s, false, 30), Verdict::Invalid);
    assert_eq!(best.record(s, true, 7), Verdict::TooLow { difficulty: 7 });
    assert_eq!(best, BestHash::new());
    assert_eq!(
        best.record(s, true, 10),
        Verdict::Accepted { difficulty: 10, hashpower: Some(20) }
    );
    assert_eq!(best, BestHash { solution: Some(s), difficulty: 10 });
    assert_eq!(
        best.record(s, true, 70),
        Verdict::Accepted { difficulty: 70, hashpower: None }
    );
    assert_eq!(best.difficulty, 70);
}

#[test]
fn hardest_solution_is_kept_and_the_first_of_equals() {
    let at = |n: u8| Solution::new([n; 16], [n; 8]);
    let mut best = BestHash::new();
    best.record(at(1), true, 9);
    best.record(at(2), true, 12);
    best.record(at(3), true, 12);
    best.record(at(4), true, 11);
    best.record(at(5), false, 40);
    assert_eq!(best, BestHash { solution: Some(at(2)), difficulty: 12 });
    best.clear();
    assert_eq!(best, BestHash::new());
}

#[test]
fn submitted_solution_is_checked_against_the_challenge() {
    let challenge = [9; 32];
    let solution = mined(&challenge);
    let difficulty = solution.reached_difficulty();
    let mut best = BestHash::new();
    assert_eq!(best.submit(solution, &[8; 32]), Verdict::Invalid);
    let verdict = best.submit(solution, &challenge);
    if difficulty < 8 {
        assert_eq!(verdict, Verdict::TooLow { difficulty });
        assert_eq!(best, BestHash::new());
    } else {
        assert_eq!(
            verdict,
            Verdict::Accepted { difficulty, hashpower: hashpower(difficulty) }
        );
        assert_eq!(best, BestHash { solution: Some(solution), difficulty });
    }
}

#[test]
fn ready_client_waits_if_it_has_a_socket() {
    let mut sockets = Sockets::new();
    sockets.connect(client(1), ());
    let mut ready = ClientSet::new();
    let mut round = Round::new(new_proof([0; 32]));
    let mut handle = |message, ready: &mut ClientSet| {
        handle_client_message(message, &sockets, ready, &mut round)
    };
    assert_eq!(
        handle(ClientMessage::Ready(client(1)), &mut ready),
        Reply::Welcome(client(1))
    );
    assert_eq!(
        handle(ClientMessage::Ready(client(2)), &mut ready),
        Reply::Stranger(client(2))
    );
    assert_eq!(
        handle(ClientMessage::Mining(client(2)), &mut ready),
        Reply::Mining(client(2))
    );
    assert_eq!(ready.to_vec(), vec![client(1)]);
    assert_eq!(READY_NOTICE, "Client successfully added.");
}

#[test]
fn solution_from_a_client_is_judged() {
    let challenge = [11; 32];
    let found = mined(&challenge);
    let sockets: Sockets<()> = Sockets::new();
    let mut ready = ClientSet::new();
    let mut round = Round::new(new_proof(challenge));
    let reply = handle_client_message(
        ClientMessage::BestSolution(client(1), found),
        &sockets,
        &mut ready,
        &mut round,
    );
    let mut best = BestHash::new();
    let verdict = best.record(found, true, found.reached_difficulty());
    assert_eq!(reply, Reply::Judged(client(1), verdict));
    assert_eq!(round.best, best);
    let wrong = Solution::new([0; 16], [0; 8]);
    let reply = handle_client_message(
        ClientMessage::BestSolution(client(1), wrong),
        &sockets,
        &mut ready,
        &mut round,
    );
    assert_eq!(reply, Reply::Judged(client(1), Verdict::Invalid));
    assert_eq!(round.best, best);
}

#[test]
fn accepted_solution_is_the_one_submitted() {
    let challenge = [13; 32];
    let nonce = 70_032u64.to_le_bytes();
    let hash = drillx::hash(&challenge, &nonce).ok().unwrap();
    let hard = Solution::new(hash.d, nonce);
    let difficulty = hard.reached_difficulty();
    let sockets: Sockets<()> = Sockets::new();
    let mut ready = ClientSet::new();
    let mut round = Round::new(new_proof(challenge));
    let reply = handle_client_message(
        ClientMessage::BestSolution(client(1), hard),
        &sockets,
        &mut ready,
        &mut round,
    );
    assert_eq!(difficulty, 9);
    let hashpower = Some(10);
    assert_eq!(reply, Reply::Judged(client(1), Verdict::Accepted { difficulty, hashpower }));
    assert_eq!(round.best, BestHash { solution: Some(hard), difficulty });
    let mut submitter = Submitter::new(round.proof);
    assert_eq!(
        submitter.step(&mut round, Event::Tick { cutoff: 0 }),
        Action::Prepare { solution: hard, difficulty }
    );
}

#[test]
fn order_of_messages_plays_no_part() {
    let challenge = [11; 32];
    let mut sockets = Sockets::new();
    sockets.connect(client(1), ());
    sockets.connect(client(2), ());
    let messages = [
        ClientMessage::Ready(client(2)),
        ClientMessage::BestSolution(client(2), mined(&challenge)),
        ClientMessage::Ready(client(3)),
        ClientMessage::BestSolution(client(1), Solution::new([0; 16], [0; 8])),
        ClientMessage::Ready(client(1)),
        ClientMessage::Ready(client(2)),
    ];
    let run = |messages: Vec<ClientMessage>| {
        let mut ready = ClientSet::new();
        let mut round = Round::new(new_proof(challenge));
        for message in messages {
            handle_client_message(message, &sockets, &mut ready, &mut round);
        }
        (ready, round.best.difficulty)
    };
    let (ready, difficulty) = run(messages.to_vec());
    let (ready_back, difficulty_back) = run(messages.iter().rev().copied().collect());
    assert_eq!(difficulty, difficulty_back);
    for port in 1..4 {
        assert_eq!(ready.contains(client(port)), port != 3);
        assert_eq!(ready_back.contains(client(port)), port != 3);
    }
}

#[test]
fn best_difficulty_does_not_depend_on_the_order() {
    let run = |difficulties: &[u32]| {
        let mut best = BestHash { solution: None, difficulty: 10 };
        for difficulty in difficulties {
            best.record(Solution::new([*difficulty as u8; 16], [0; 8]), true, *difficulty);
        }
        best.difficulty
    };
    assert_eq!(run(&[9, 12, 11, 12]), 12);
    assert_eq!(run(&[12, 12, 9, 11]), 12);
    assert_eq!(run(&[9, 8]), 10);
}
