use ore_hq_server::jito::BundleStatus;
use ore_hq_server::round::{Proof, Round};
use ore_hq_server::solution::{BestHash, Solution};
use ore_hq_server::startup::{Startup, StartupAction, StartupError, StartupEvent};
use ore_hq_server::submit::{
    Action, Event, MessageInternalMineSuccess, Pause, Phase, Submitter,
};

fn new_proof(balance: u64) -> Proof {
    Proof {
        authority: [0; 32],
        balance,
        challenge: [balance as u8; 32],
        last_hash: [0; 32],
        last_hash_at: 0,
        last_stake_at: 0,
        miner: [0; 32],
        total_hashes: 0,
        total_rewards: 0,
    }
}

fn solution() -> Solution {
    Solution::new([1; 16], [2; 8])
}

/// A round with a solution, and a submitter that has sent a first bundle for it.
fn under_way() -> (Submitter, Round) {
    let mut round = Round::new(new_proof(100));
    round.nonce = 50;
    round.best = BestHash { solution: Some(solution()), difficulty: 12 };
    let mut submitter = Submitter::new(new_proof(100));
    let prepare = Action::Prepare {
        solution: solution(),
        difficulty: solution().reached_difficulty(),
    };
    assert_eq!(submitter.step(&mut round, Event::Tick { cutoff: 0 }), prepare);
    assert_eq!(
        submitter.step(&mut round, Event::Blockhash { fetched: true }),
        Action::SendBundle
    );
    (submitter, round)
}

fn sent(id: &str) -> Event {
    Event::Sent { bundle_id: Some(id.to_string()) }
}

fn answer(confirmation_status: &str) -> Event {
    Event::Status {
        statuses: Some(vec![BundleStatus {
            bundle_id: String::from("id"),
            transactions: vec![String::from("sig")],
            slot: 3,
            confirmation_status: confirmation_status.to_string(),
        }]),
    }
}

fn loaded(proof: Proof) -> Event {
    Event::Loaded { proof: Some(proof) }
}

#[test]
fn rests_until_a_solution_is_due() {
    let mut round = Round::new(new_proof(1));
    let mut submitter = Submitter::new(new_proof(1));
    assert_eq!(
        submitter.step(&mut round, Event::Tick { cutoff: 17 }),
        Action::Sleep(Pause::Secs(17))
    );
    assert_eq!(submitter.step(&mut round, Event::Woke), Action::Again);
    assert_eq!(submitter.step(&mut round, Event::Tick { cutoff: -1 }), Action::Again);
    assert!(submitter.awaits(&Event::Tick { cutoff: 1 }));
    assert!(!submitter.awaits(&Event::Woke));
}

#[test]
fn missing_blockhash_ends_the_attempt() {
    let mut round = Round::new(new_proof(1));
    round.best = BestHash { solution: Some(solution()), difficulty: 12 };
    let mut submitter = Submitter::new(new_proof(1));
    submitter.step(&mut round, Event::Tick { cutoff: 0 });
    assert_eq!(
        submitter.step(&mut round, Event::Blockhash { fetched: false }),
        Action::Sleep(Pause::Millis(1000))
    );
    assert_eq!(submitter.step(&mut round, Event::Woke), Action::Again);
}

#[test]
fn landed_bundle_begins_a_new_round() {
    let (mut submitter, mut round) = under_way();
    assert_eq!(submitter.step(&mut round, sent("first")), Action::QueryStatus);
    assert_eq!(submitter.bundle_id(), "first");
    assert_eq!(
        submitter.step(&mut round, answer("processed")),
        Action::Sleep(Pause::Secs(1))
    );
    assert_eq!(submitter.step(&mut round, Event::Woke), Action::QueryStatus);
    assert_eq!(
        submitter.step(&mut round, Event::Status { statuses: None }),
        Action::Sleep(Pause::Secs(1))
    );
    assert_eq!(submitter.step(&mut round, Event::Woke), Action::QueryStatus);
    assert_eq!(submitter.step(&mut round, answer("confirmed")), Action::LoadProof);
    assert_eq!(
        submitter.step(&mut round, Event::Loaded { proof: None }),
        Action::Sleep(Pause::Millis(500))
    );
    assert_eq!(submitter.step(&mut round, Event::Woke), Action::LoadProof);
    assert_eq!(submitter.step(&mut round, loaded(new_proof(100))), Action::LoadProof);
    assert_eq!(round.nonce, 50);
    assert_eq!(
        submitter.step(&mut round, loaded(new_proof(130))),
        Action::Announce(MessageInternalMineSuccess {
            difficulty: solution().reached_difficulty(),
            total_balance: 130,
            rewards: 30,
        })
    );
    assert_eq!(round.proof, new_proof(130));
    assert_eq!(round.nonce, 0);
    assert_eq!(round.best, BestHash::new());
    assert!(submitter.awaits(&Event::Tick { cutoff: 1 }));
}

#[test]
fn bundle_is_given_up_after_21_questions_and_sent_three_times() {
    let (mut submitter, mut round) = under_way();
    for bundle in 0..3 {
        assert_eq!(submitter.step(&mut round, sent("b")), Action::QueryStatus);
        for _ in 0..20 {
            assert_eq!(
                submitter.step(&mut round, Event::Status { statuses: Some(vec![]) }),
                Action::Sleep(Pause::Secs(1))
            );
            assert_eq!(submitter.step(&mut round, Event::Woke), Action::QueryStatus);
        }
        let last = submitter.step(&mut round, answer("processed"));
        if bundle < 2 {
            assert_eq!(last, Action::Sleep(Pause::Millis(500)));
            assert_eq!(submitter.step(&mut round, Event::Woke), Action::SendBundle);
        } else {
            assert_eq!(last, Action::LoadProof);
        }
    }
    assert_eq!(round.nonce, 50);
    assert_eq!(
        submitter.step(&mut round, loaded(new_proof(90))),
        Action::Sleep(Pause::Millis(500))
    );
    assert_eq!(round.proof, new_proof(90));
    assert_eq!(round.nonce, 0);
    assert_eq!(round.best, BestHash::new());
    assert_eq!(submitter.step(&mut round, Event::Woke), Action::Again);
}

#[test]
fn refused_bundles_leave_the_round_as_it_is() {
    let (mut submitter, mut round) = under_way();
    for bundle in 0..3 {
        assert_eq!(
            submitter.step(&mut round, Event::Sent { bundle_id: None }),
            Action::Sleep(Pause::Secs(3))
        );
        let expected = if bundle < 2 { Action::SendBundle } else { Action::Again };
        assert_eq!(submitter.step(&mut round, Event::Woke), expected);
    }
    assert_eq!(round.proof, new_proof(100));
    assert_eq!(round.nonce, 50);
    assert_eq!(round.best.solution, Some(solution()));
}

#[test]
fn unfit_events_are_told() {
    let (mut submitter, mut round) = under_way();
    assert!(!submitter.awaits(&Event::Woke));
    submitter.step(&mut round, sent("b"));
    let empty = Event::Status {
        statuses: Some(vec![BundleStatus {
            bundle_id: String::new(),
            transactions: vec![],
            slot: 0,
            confirmation_status: String::from("confirmed"),
        }]),
    };
    assert!(!submitter.awaits(&empty));
    assert!(submitter.awaits(&answer("confirmed")));
    submitter.step(&mut round, answer("confirmed"));
    assert!(!submitter.awaits(&loaded(new_proof(99))));
    assert!(submitter.awaits(&loaded(new_proof(100))));
    assert!(submitter.awaits(&loaded(new_proof(101))));
}

#[test]
fn startup_serves_an_existing_proof() {
    let mut startup = Startup::new();
    assert!(startup.awaits(&StartupEvent::Balance(None)));
    assert_eq!(
        startup.step(StartupEvent::Balance(Some(1_000_000))),
        StartupAction::LoadProof
    );
    assert_eq!(
        startup.step(StartupEvent::Loaded(Some(new_proof(5)))),
        StartupAction::Serve(new_proof(5))
    );
    assert!(!startup.awaits(&StartupEvent::Loaded(None)));
}

#[test]
fn startup_opens_an_account() {
    let mut startup = Startup::new();
    startup.step(StartupEvent::Balance(Some(2_000_000)));
    assert_eq!(
        startup.step(StartupEvent::Loaded(None)),
        StartupAction::FetchBlockhash
    );
    assert_eq!(startup.step(StartupEvent::Blockhash(true)), StartupAction::Register);
    assert_eq!(startup.step(StartupEvent::Registered(true)), StartupAction::LoadProof);
    assert_eq!(
        startup.step(StartupEvent::Loaded(Some(new_proof(0)))),
        StartupAction::Serve(new_proof(0))
    );
}

#[test]
fn startup_fails_for_its_reasons() {
    let mut startup = Startup::new();
    assert_eq!(
        startup.step(StartupEvent::Balance(None)),
        StartupAction::Fail(StartupError::BalanceUnknown)
    );
    let mut startup = Startup::new();
    assert_eq!(
        startup.step(StartupEvent::Balance(Some(999_999))),
        StartupAction::Fail(StartupError::BalanceTooLow)
    );
    let mut startup = Startup::new();
    startup.step(StartupEvent::Balance(Some(1_000_000)));
    startup.step(StartupEvent::Loaded(None));
    startup.step(StartupEvent::Blockhash(true));
    assert_eq!(
        startup.step(StartupEvent::Registered(false)),
        StartupAction::Fail(StartupError::AccountNotCreated)
    );
    let mut startup = Startup::new();
    startup.step(StartupEvent::Balance(Some(1_000_000)));
    startup.step(StartupEvent::Loaded(None));
    assert_eq!(startup.step(StartupEvent::Blockhash(false)), StartupAction::LoadProof);
    assert_eq!(
        startup.step(StartupEvent::Loaded(None)),
        StartupAction::Fail(StartupError::NewProofMissing)
    );
}

#[test]
fn startup_errors_in_words() {
    assert_eq!(StartupError::BalanceUnknown.message(), "Failed to load balance");
    assert_eq!(StartupError::BalanceTooLow.message(), "Sol balance is too low!");
    assert_eq!(StartupError::AccountNotCreated.message(), "Failed to create proof account");
    assert_eq!(StartupError::NewProofMissing.message(), "Failed to get newly created proof");
}

#[test]
fn phase_tells_the_bundle_and_the_questions() {
    let (mut submitter, mut round) = under_way();
    assert_eq!(submitter.phase(), Phase::Sending { bundle: 0 });
    submitter.step(&mut round, sent("b"));
    assert_eq!(submitter.phase(), Phase::Polling { bundle: 0, polls: 0 });
    submitter.step(&mut round, answer("processed"));
    assert_eq!(submitter.phase(), Phase::BetweenPolls { bundle: 0, polls: 1 });
}
