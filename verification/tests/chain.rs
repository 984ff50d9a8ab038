use std::str::FromStr;

use ore_hq_server::chain::{
    build_bribe_ix, build_bribe_ix_to, choose_bus, submission_instructions,
    submission_instructions_to, AccountMeta, Instruction, BUS_COUNT, COMPUTE_BUDGET_PROGRAM,
    JITO_RECIPIENTS,
};
use ore_hq_server::message::{registration_message, submission_message};
use ore_hq_server::ore::{
    get_auth_ix, get_mine_ix, get_register_ix, proof_address, BUS_ADDRESSES, INSTRUCTIONS_SYSVAR,
    read_proof, NOOP_PROGRAM, ORE_CONFIG, ORE_PROGRAM, SLOT_HASHES_SYSVAR,
};
use ore_hq_server::round::Proof;
use ore_hq_server::solution::Solution;
use solana_sdk::pubkey::Pubkey;

const RECIPIENTS: [&str; 8] = [
    "96gYZGLnJYVFmbjzopPSU6QiEV5fGqZNyN9nmNhvrZU5",
    "HFqU5x63VTqvQss8hp11i4wVV8bD44PvwucfZ2bU7gRe",
    "Cw8CFyM9FkoMi7K7Crf6HNQqf4uEMzpKw6QNghXLvLkY",
    "ADaUMid9yfUytqMBgopwjb2DTLSokTSzL1zt6iGPaS49",
    "DfXygSm4jCyNCybVYYK6DwvWqjKee8pbDmJGcLWNDXjh",
    "ADuUkR4vqLUMWXxW9gh6D6L8pMSawimctcNZ5pGwDcEt",
    "DttWaMuVvTiduZRnguLF7jNxTgiMBZ1hyAumKUiL2KRL",
    "3AVi9Tg9Uo68tJfuvoKvqKNWKkC5wPdSSdeBnizKZ6jT",
];

fn transfer(from: [u8; 32], to: [u8; 32], lamports: u64) -> Instruction {
    let mut data = vec![2, 0, 0, 0];
    data.extend_from_slice(&lamports.to_le_bytes());
    Instruction {
        program_id: [0; 32],
        accounts: vec![
            AccountMeta { pubkey: from, is_signer: true, is_writable: true },
            AccountMeta { pubkey: to, is_signer: false, is_writable: true },
        ],
        data,
    }
}

fn other(tag: u8) -> Instruction {
    Instruction { program_id: [tag; 32], accounts: vec![], data: vec![tag] }
}

#[test]
fn recipients_have_their_addresses() {
    for i in 0..8 {
        assert_eq!(Pubkey::from_str(RECIPIENTS[i]).unwrap().to_bytes(), JITO_RECIPIENTS[i]);
    }
    let budget = Pubkey::from_str("ComputeBudget111111111111111111111111111111").unwrap();
    assert_eq!(budget.to_bytes(), COMPUTE_BUDGET_PROGRAM);
}

#[test]
fn bribe_is_a_transfer_to_the_recipient() {
    for i in 0..8 {
        let ix = build_bribe_ix_to(&[3; 32], i, 123_456_789_012);
        assert_eq!(ix, transfer([3; 32], JITO_RECIPIENTS[i], 123_456_789_012));
    }
}

#[test]
fn random_bribe_goes_to_one_of_the_recipients() {
    for _ in 0..50 {
        let ix = build_bribe_ix(&[4; 32], 7);
        let to = ix.accounts[1].pubkey;
        assert!(JITO_RECIPIENTS.contains(&to));
        assert_eq!(ix, transfer([4; 32], to, 7));
    }
}

#[test]
fn submission_has_its_five_instructions_in_order() {
    let ixs = submission_instructions_to(&[5; 32], 9, other(1), 2, 26, 1_000, other(2));
    let mut limit = vec![2];
    limit.extend_from_slice(&480_000u32.to_le_bytes());
    let mut price = vec![3];
    price.extend_from_slice(&9u64.to_le_bytes());
    let budget = |data| Instruction {
        program_id: COMPUTE_BUDGET_PROGRAM,
        accounts: vec![],
        data,
    };
    assert_eq!(
        ixs,
        vec![
            budget(limit),
            budget(price),
            other(1),
            transfer([5; 32], JITO_RECIPIENTS[2], 2_800),
            other(2),
        ]
    );
}

#[test]
fn random_submission_tips_one_of_the_recipients() {
    let solution = Solution::new([6; 16], [7; 8]);
    for _ in 0..50 {
        let ixs = submission_instructions(&[5; 32], 0, &solution, 8, 1_000).unwrap();
        assert_eq!(ixs.len(), 5);
        let to = ixs[3].accounts[1].pubkey;
        assert!(JITO_RECIPIENTS.contains(&to));
        assert_eq!(ixs[3], transfer([5; 32], to, 1_000));
        assert_eq!(ixs[2], get_auth_ix(&[5; 32]).unwrap());
        let bus = ixs[4].accounts[1].pubkey;
        let bus = BUS_ADDRESSES.iter().position(|address| *address == bus).unwrap();
        assert_eq!(ixs[4], get_mine_ix(&[5; 32], &solution, bus).unwrap());
    }
}

#[test]
fn every_bus_is_chosen_at_times() {
    assert_eq!(BUS_COUNT, ore_api::consts::BUS_COUNT);
    let mut seen = [false; 8];
    for _ in 0..2_000 {
        seen[choose_bus()] = true;
    }
    assert_eq!(seen, [true; 8]);
}

#[test]
fn ore_accounts_have_their_addresses() {
    assert_eq!(ORE_PROGRAM, ore_api::id().to_bytes());
    assert_eq!(NOOP_PROGRAM, ore_api::consts::NOOP_PROGRAM_ID.to_bytes());
    assert_eq!(ORE_CONFIG, ore_api::consts::CONFIG_ADDRESS.to_bytes());
    assert_eq!(INSTRUCTIONS_SYSVAR, solana_program::sysvar::instructions::ID.to_bytes());
    assert_eq!(SLOT_HASHES_SYSVAR, solana_program::sysvar::slot_hashes::ID.to_bytes());
    for (ours, theirs) in BUS_ADDRESSES.iter().zip(ore_api::consts::BUS_ADDRESSES) {
        assert_eq!(*ours, theirs.to_bytes());
    }
}

#[test]
fn miner_is_named_by_the_proof_account() {
    let found = ore_api::state::proof_pda(Pubkey::from([9; 32])).0.to_bytes();
    assert_ne!(found, [9; 32]);
    assert_eq!(proof_address(&[9; 32]), Some(found));
    assert_eq!(
        get_auth_ix(&[9; 32]),
        Some(Instruction { program_id: NOOP_PROGRAM, accounts: vec![], data: found.to_vec() })
    );
}

#[test]
fn mining_carries_the_solution() {
    let found = proof_address(&[9; 32]).unwrap();
    let solution = Solution::new([1; 16], [2; 8]);
    let account = |pubkey, is_signer, is_writable| AccountMeta { pubkey, is_signer, is_writable };
    for bus in 0..8 {
        let mut data = vec![2];
        data.extend_from_slice(&[1; 16]);
        data.extend_from_slice(&[2; 8]);
        let expected = Instruction {
            program_id: ORE_PROGRAM,
            accounts: vec![
                account([9; 32], true, true),
                account(BUS_ADDRESSES[bus], false, true),
                account(ORE_CONFIG, false, false),
                account(found, false, true),
                account(INSTRUCTIONS_SYSVAR, false, false),
                account(SLOT_HASHES_SYSVAR, false, false),
            ],
            data,
        };
        assert_eq!(get_mine_ix(&[9; 32], &solution, bus), Some(expected));
    }
}

#[test]
fn registering_opens_the_proof_account() {
    let (found, bump) = ore_api::state::proof_pda(Pubkey::from([9; 32]));
    let account = |pubkey, is_signer, is_writable| AccountMeta { pubkey, is_signer, is_writable };
    let expected = Instruction {
        program_id: ORE_PROGRAM,
        accounts: vec![
            account([9; 32], true, true),
            account([9; 32], false, false),
            account([9; 32], true, true),
            account(found.to_bytes(), false, true),
            account([0; 32], false, false),
            account(SLOT_HASHES_SYSVAR, false, false),
        ],
        data: vec![3, bump],
    };
    assert_eq!(get_register_ix(&[9; 32]), Some(expected));
}

fn sdk(ix: &Instruction) -> solana_sdk::instruction::Instruction {
    let accounts = ix.accounts.iter().map(|account| solana_sdk::instruction::AccountMeta {
        pubkey: Pubkey::from(account.pubkey),
        is_signer: account.is_signer,
        is_writable: account.is_writable,
    });
    solana_sdk::instruction::Instruction {
        program_id: Pubkey::from(ix.program_id),
        accounts: accounts.collect(),
        data: ix.data.clone(),
    }
}

/// The bytes to sign for a transaction, made without the library.
fn expected_message(ixs: &[Instruction], payer: [u8; 32], blockhash: [u8; 32]) -> Vec<u8> {
    let ixs: Vec<_> = ixs.iter().map(sdk).collect();
    solana_sdk::message::Message::new_with_blockhash(
        &ixs,
        Some(&Pubkey::from(payer)),
        &solana_sdk::hash::Hash::from(blockhash),
    )
    .serialize()
}

#[test]
fn submission_message_holds_one_of_the_possible_submissions() {
    let solution = Solution::new([6; 16], [7; 8]);
    let message = submission_message(&[5; 32], &[8; 32], 0, &solution, 26, 1_000).unwrap();
    let mut matching = 0;
    for bus in 0..8 {
        for recipient in 0..8 {
            let ixs = submission_instructions_to(
                &[5; 32],
                0,
                get_auth_ix(&[5; 32]).unwrap(),
                recipient,
                26,
                1_000,
                get_mine_ix(&[5; 32], &solution, bus).unwrap(),
            );
            if message == expected_message(&ixs, [5; 32], [8; 32]) {
                matching += 1;
            }
        }
    }
    assert_eq!(matching, 1);
}

#[test]
fn registration_message_opens_the_account() {
    let ix = get_register_ix(&[5; 32]).unwrap();
    assert_eq!(
        registration_message(&[5; 32], &[8; 32]),
        Some(expected_message(&[ix], [5; 32], [8; 32]))
    );
}

#[test]
fn signed_message_makes_a_valid_transaction() {
    let wallet = solana_sdk::signature::keypair_from_seed(&[3; 32]).unwrap();
    let signer = solana_sdk::signer::Signer::pubkey(&wallet).to_bytes();
    let hash = solana_sdk::hash::Hash::from([8; 32]);
    let solution = Solution::new([6; 16], [7; 8]);
    let bytes = submission_message(&signer, &[8; 32], 0, &solution, 8, 1_000).unwrap();
    let message = solana_sdk::program_utils::limited_deserialize(&bytes).unwrap();
    let mut tx = solana_sdk::transaction::Transaction::new_unsigned(message);
    tx.sign(&[&wallet], hash);
    assert_eq!(tx.message_data(), bytes);
    assert!(tx.verify().is_ok());
}

fn account_bytes() -> Vec<u8> {
    let mut data = vec![102, 0, 0, 0, 0, 0, 0, 0];
    data.extend_from_slice(&[1; 32]);
    data.extend_from_slice(&0x0102_0304_0506_0708u64.to_ne_bytes());
    data.extend_from_slice(&[2; 32]);
    data.extend_from_slice(&[3; 32]);
    data.extend_from_slice(&(-4i64).to_ne_bytes());
    data.extend_from_slice(&5i64.to_ne_bytes());
    data.extend_from_slice(&[6; 32]);
    data.extend_from_slice(&7u64.to_ne_bytes());
    data.extend_from_slice(&8u64.to_ne_bytes());
    data
}

#[test]
fn proof_is_read_out_of_its_account() {
    assert_eq!(
        read_proof(&account_bytes()),
        Some(Proof {
            authority: [1; 32],
            balance: 0x0102_0304_0506_0708,
            challenge: [2; 32],
            last_hash: [3; 32],
            last_hash_at: -4,
            last_stake_at: 5,
            miner: [6; 32],
            total_hashes: 7,
            total_rewards: 8,
        })
    );
}

#[test]
fn other_accounts_hold_no_proof() {
    let mut wrong_tag = account_bytes();
    wrong_tag[0] = 101;
    assert_eq!(read_proof(&wrong_tag), None);
    let mut too_long = account_bytes();
    too_long.push(0);
    assert_eq!(read_proof(&too_long), None);
    assert_eq!(read_proof(&account_bytes()[..175].to_vec()), None);
    assert_eq!(read_proof(&vec![102; 7]), None);
    assert_eq!(read_proof(&vec![]), None);
}
