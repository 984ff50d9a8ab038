//! The instructions of the ORE program that the pool uses.
use vstd::prelude::*;

use crate::chain::{AccountMeta, Instruction, InstructionView, SYSTEM_PROGRAM};
use crate::order;
use crate::round::Proof;
use crate::solution::Solution;
use steel::AccountDeserialize;

verus! {

/// The address of the ORE program.
pub const ORE_PROGRAM: [u8; 32] = [
    0x0c, 0x00, 0xda, 0x38, 0x8d, 0x68, 0xe7, 0x75,
    0xb1, 0xb5, 0xc5, 0x6d, 0x01, 0x8d, 0x3e, 0x4c,
    0xd6, 0x86, 0x74, 0x0c, 0xf1, 0xc7, 0x11, 0x81,
    0xa7, 0x51, 0x31, 0x50, 0xcb, 0x51, 0x1f, 0xd9,
];

/// The address of the program that takes note of the miner and does nothing else.
pub const NOOP_PROGRAM: [u8; 32] = [
    0x0b, 0xbc, 0x0f, 0xb6, 0xcb, 0x1d, 0xdd, 0x1c,
    0xe3, 0xf2, 0xf2, 0xab, 0x1a, 0x0e, 0xbc, 0xb1,
    0x9d, 0x6b, 0x8a, 0x03, 0x12, 0x52, 0x74, 0x14,
    0x5b, 0x1f, 0x80, 0x8b, 0xb9, 0x9a, 0xf0, 0x5b,
];

/// The account that holds the settings of the ORE program.
pub const ORE_CONFIG: [u8; 32] = [
    0x12, 0xb6, 0x3b, 0x6a, 0xe5, 0x56, 0xba, 0x85,
    0xb9, 0x36, 0x6b, 0xe2, 0x91, 0xb4, 0x4e, 0x69,
    0x57, 0x98, 0x9d, 0x12, 0x31, 0xc8, 0xf7, 0x3d,
    0x89, 0xcd, 0x30, 0xa0, 0x00, 0x48, 0x5b, 0x46,
];

/// The account that shows the instructions of a transaction.
pub const INSTRUCTIONS_SYSVAR: [u8; 32] = [
    0x06, 0xa7, 0xd5, 0x17, 0x18, 0x7b, 0xd1, 0x66,
    0x35, 0xda, 0xd4, 0x04, 0x55, 0xfd, 0xc2, 0xc0,
    0xc1, 0x24, 0xc6, 0x8f, 0x21, 0x56, 0x75, 0xa5,
    0xdb, 0xba, 0xcb, 0x5f, 0x08, 0x00, 0x00, 0x00,
];

/// The account that shows the latest slot hashes.
pub const SLOT_HASHES_SYSVAR: [u8; 32] = [
    0x06, 0xa7, 0xd5, 0x17, 0x19, 0x2f, 0x0a, 0xaf,
    0xc6, 0xf2, 0x65, 0xe3, 0xfb, 0x77, 0xcc, 0x7a,
    0xda, 0x82, 0xc5, 0x29, 0xd0, 0xbe, 0x3b, 0x13,
    0x6e, 0x2d, 0x00, 0x55, 0x20, 0x00, 0x00, 0x00,
];

/// The bus accounts.
pub const BUS_ADDRESSES: [[u8; 32]; 8] = [
    [
        0xa5, 0x63, 0x76, 0x42, 0x25, 0x2f, 0xe1, 0x64,
        0xd5, 0xbe, 0x9a, 0x46, 0x44, 0xea, 0x5c, 0x56,
        0xc6, 0x1f, 0xc7, 0x69, 0x5d, 0x82, 0x17, 0x37,
        0xfa, 0x2b, 0x10, 0x89, 0x98, 0x45, 0x2c, 0xbb,
    ],
    [
        0x33, 0x3a, 0xc1, 0x3b, 0x41, 0x7d, 0x13, 0xfe,
        0xd4, 0x01, 0x28, 0x26, 0xfa, 0x8f, 0x8d, 0x34,
        0xd2, 0xbb, 0xfa, 0x18, 0x73, 0xf6, 0xa7, 0x38,
        0x52, 0xd1, 0x88, 0xcc, 0x4a, 0x0c, 0x34, 0x80,
    ],
    [
        0x05, 0x29, 0x11, 0x9c, 0x55, 0x45, 0x5e, 0x2c,
        0x1c, 0x2a, 0x13, 0x03, 0xc2, 0xe6, 0xed, 0x52,
        0xd5, 0xfb, 0x73, 0x49, 0x6a, 0x56, 0xa8, 0xab,
        0x1c, 0xad, 0x9c, 0x84, 0x96, 0x68, 0xda, 0x70,
    ],
    [
        0x5e, 0xee, 0xcc, 0x67, 0x15, 0x6a, 0x0e, 0x43,
        0x15, 0x7e, 0x96, 0x1a, 0x1b, 0x63, 0xe6, 0x32,
        0x5d, 0xb4, 0x38, 0xf1, 0x91, 0x30, 0xcd, 0x76,
        0xa1, 0x71, 0x24, 0xa4, 0x3e, 0x6e, 0x4d, 0x66,
    ],
    [
        0x8e, 0x7b, 0xe6, 0x88, 0xa3, 0x5a, 0x97, 0xda,
        0xb6, 0x9d, 0xc0, 0x62, 0x87, 0x6c, 0xcb, 0x76,
        0x48, 0x65, 0x0f, 0xe6, 0x6a, 0xb7, 0x18, 0x07,
        0x95, 0x57, 0x68, 0x80, 0xf7, 0xbe, 0x80, 0x93,
    ],
    [
        0x8e, 0x94, 0xaf, 0x75, 0xed, 0x49, 0x94, 0xd9,
        0x30, 0x51, 0xc4, 0x64, 0x07, 0x75, 0x21, 0x18,
        0xb6, 0x87, 0xc2, 0x77, 0xa8, 0x99, 0x1d, 0x67,
        0x9a, 0xc7, 0x58, 0x14, 0x85, 0x1c, 0x1e, 0xdb,
    ],
    [
        0x1a, 0xba, 0x4e, 0x47, 0x8b, 0xa1, 0x84, 0x46,
        0x80, 0xb6, 0x6b, 0x70, 0x8c, 0x90, 0xec, 0x25,
        0x84, 0x5a, 0xe0, 0x2b, 0x46, 0x4d, 0x8a, 0x93,
        0x28, 0x3f, 0xc8, 0x97, 0x4d, 0x1f, 0x76, 0xcc,
    ],
    [
        0x3f, 0xbb, 0xb0, 0x1b, 0x19, 0x31, 0xa4, 0x31,
        0x95, 0xe0, 0x50, 0x33, 0x49, 0x4b, 0x76, 0x90,
        0x49, 0x1a, 0xf3, 0xe3, 0x2f, 0x16, 0xb7, 0x4a,
        0xb2, 0x4a, 0x31, 0x2c, 0x49, 0x2a, 0xa7, 0x0e,
    ],
];

/// What `Pubkey::try_find_program_address` returns for the seeds of the proof account of a miner
/// and the ORE program: the address of that account, and the number that it was found with.
pub uninterp spec fn proof_account(authority: Seq<u8>) -> Option<([u8; 32], u8)>;

/// The account at the given address, which does not sign: written or only read.
pub open spec fn plain_account(pubkey: [u8; 32], is_writable: bool) -> AccountMeta {
    AccountMeta { pubkey, is_signer: false, is_writable }
}

/// The account at the given address, which signs and is written.
pub open spec fn signing_account(pubkey: [u8; 32]) -> AccountMeta {
    AccountMeta { pubkey, is_signer: true, is_writable: true }
}

/// The instruction that names the proof account that a transaction mines for.
pub open spec fn auth_instruction(proof_address: [u8; 32]) -> InstructionView {
    InstructionView {
        program_id: NOOP_PROGRAM@,
        accounts: Seq::empty(),
        data: proof_address@,
    }
}

/// The instruction that hands in a solution, signed by the miner, through a bus.
pub open spec fn mine_instruction(
    signer: [u8; 32],
    bus: [u8; 32],
    proof_address: [u8; 32],
    solution: Solution,
) -> InstructionView {
    InstructionView {
        program_id: ORE_PROGRAM@,
        accounts: seq![
            signing_account(signer),
            plain_account(bus, true),
            plain_account(ORE_CONFIG, false),
            plain_account(proof_address, true),
            plain_account(INSTRUCTIONS_SYSVAR, false),
            plain_account(SLOT_HASHES_SYSVAR, false),
        ],
        data: seq![2u8] + solution.digest@ + solution.nonce@,
    }
}

/// The instruction that opens the proof account of a miner who signs and pays for it; `bump` is
/// the number that its address was found with.
pub open spec fn open_instruction(
    signer: [u8; 32],
    proof_address: [u8; 32],
    bump: u8,
) -> InstructionView {
    InstructionView {
        program_id: ORE_PROGRAM@,
        accounts: seq![
            signing_account(signer),
            plain_account(signer, false),
            signing_account(signer),
            plain_account(proof_address, true),
            plain_account(SYSTEM_PROGRAM, false),
            plain_account(SLOT_HASHES_SYSVAR, false),
        ],
        data: seq![3u8, bump],
    }
}

/// Calls `solana_sdk::pubkey::Pubkey::try_find_program_address` with the seeds of a proof account
/// (`ore_api::consts::PROOF` and the miner's address) and the address of the ORE program
/// (`ore_api::id`). Claims that what it finds, if anything, depends on the miner alone.
#[verifier::external_body]
fn find_proof_account(authority: &[u8; 32]) -> (r: Option<([u8; 32], u8)>)
    ensures
        r == proof_account(authority@),
{
    let seeds: [&[u8]; 2] = [ore_api::consts::PROOF, authority];
    solana_sdk::pubkey::Pubkey::try_find_program_address(&seeds, &ore_api::id()).map(
        |found| (found.0.to_bytes(), found.1),
    )
}

/// Calls `ore_api::sdk::auth`. Claims that it makes an instruction of the no-op program without
/// accounts, whose data are the 32 bytes of the address.
#[verifier::external_body]
fn ore_auth(proof_address: &[u8; 32]) -> (r: Instruction)
    ensures
        r@ == auth_instruction(*proof_address),
{
    let ix = ore_api::sdk::auth(solana_sdk::pubkey::Pubkey::from(*proof_address));
    let accounts = ix.accounts.iter().map(|a| AccountMeta {
        pubkey: a.pubkey.to_bytes(),
        is_signer: a.is_signer,
        is_writable: a.is_writable,
    }).collect();
    Instruction { program_id: ix.program_id.to_bytes(), accounts, data: ix.data }
}

/// Calls `ore_api::sdk::mine` for a miner who signs for their own account, without boost accounts.
/// Claims that it makes the ORE program's instruction with six accounts (the signer, the bus, the
/// settings, the miner's proof account and the two system variables), whose data are the byte 2,
/// the digest and the nonce. It panics where the miner has no proof address, which is left out.
#[verifier::external_body]
fn ore_mine(signer: &[u8; 32], bus: &[u8; 32], solution: &Solution) -> (r: Instruction)
    requires
        proof_account(signer@) is Some,
    ensures
        r@ == mine_instruction(*signer, *bus, (proof_account(signer@)->0).0, *solution),
{
    let signer = solana_sdk::pubkey::Pubkey::from(*signer);
    let bus = solana_sdk::pubkey::Pubkey::from(*bus);
    let solution = drillx::Solution::new(solution.digest, solution.nonce);
    let ix = ore_api::sdk::mine(signer, signer, bus, solution, vec![]);
    let accounts = ix.accounts.iter().map(|a| AccountMeta {
        pubkey: a.pubkey.to_bytes(),
        is_signer: a.is_signer,
        is_writable: a.is_writable,
    }).collect();
    Instruction { program_id: ix.program_id.to_bytes(), accounts, data: ix.data }
}

/// Calls `ore_api::sdk::open` for a miner who signs, mines and pays. Claims that it makes the ORE
/// program's instruction with six accounts (the miner as owner, as miner and as payer, the proof
/// account, the system program and the slot hashes), whose data are the byte 3 and the number that
/// the address was found with. It panics where the miner has no proof address, which is left out.
#[verifier::external_body]
fn ore_open(signer: &[u8; 32]) -> (r: Instruction)
    requires
        proof_account(signer@) is Some,
    ensures
        r@ == open_instruction(
            *signer,
            (proof_account(signer@)->0).0,
            (proof_account(signer@)->0).1,
        ),
{
    let signer = solana_sdk::pubkey::Pubkey::from(*signer);
    let ix = ore_api::sdk::open(signer, signer, signer);
    let accounts = ix.accounts.iter().map(|a| AccountMeta {
        pubkey: a.pubkey.to_bytes(),
        is_signer: a.is_signer,
        is_writable: a.is_writable,
    }).collect();
    Instruction { program_id: ix.program_id.to_bytes(), accounts, data: ix.data }
}

/// The address of a miner's proof account. There is none where no candidate will do.
pub fn proof_address(authority: &[u8; 32]) -> (r: Option<[u8; 32]>)
    ensures
        r == match proof_account(authority@) {
            Some(found) => Some(found.0),
            None => None,
        },
{
    match find_proof_account(authority) {
        Some(found) => Some(found.0),
        None => None,
    }
}

/// The instruction that names the miner's proof account, if there is an address for it.
pub fn get_auth_ix(signer: &[u8; 32]) -> (r: Option<Instruction>)
    ensures
        match (r, proof_account(signer@)) {
            (Some(ix), Some(found)) => ix@ == auth_instruction(found.0),
            (None, None) => true,
            _ => false,
        },
{
    match find_proof_account(signer) {
        Some(found) => Some(ore_auth(&found.0)),
        None => None,
    }
}

/// The instruction that hands in a solution through the given bus, if there is an address for the
/// miner's proof account.
pub fn get_mine_ix(signer: &[u8; 32], solution: &Solution, bus: usize) -> (r: Option<Instruction>)
    requires
        bus < 8,
    ensures
        match (r, proof_account(signer@)) {
            (Some(ix), Some(found)) => ix@ == mine_instruction(
                *signer,
                BUS_ADDRESSES[bus as int],
                found.0,
                *solution,
            ),
            (None, None) => true,
            _ => false,
        },
{
    let buses: [[u8; 32]; 8] = BUS_ADDRESSES;
    match find_proof_account(signer) {
        Some(_) => Some(ore_mine(signer, &buses[bus], solution)),
        None => None,
    }
}

/// The instruction that opens the miner's proof account, if there is an address for it.
pub fn get_register_ix(signer: &[u8; 32]) -> (r: Option<Instruction>)
    ensures
        match (r, proof_account(signer@)) {
            (Some(ix), Some(found)) => ix@ == open_instruction(*signer, found.0, found.1),
            (None, None) => true,
            _ => false,
        },
{
    match find_proof_account(signer) {
        Some(_) => Some(ore_open(signer)),
        None => None,
    }
}

/// The length of a proof account in bytes.
pub const PROOF_ACCOUNT_LEN: usize = 176;

/// The first byte of a proof account.
pub const PROOF_ACCOUNT_TAG: u8 = 102;

/// Whether bytes stand for a number, in one of the two byte orders that a machine may have.
pub open spec fn is_word(bytes: Seq<u8>, value: int) -> bool {
    order::le_value(bytes) == value || order::le_value(bytes.reverse()) == value
}

/// The number that the 64 bits of a signed number stand for without a sign.
pub open spec fn unsigned(x: i64) -> int {
    if x < 0 {
        x + 0x1_0000_0000_0000_0000
    } else {
        x as int
    }
}

/// Whether these are the bytes of an account that holds the given proof: a tag in eight bytes, and
/// then the fields one after the other.
pub open spec fn is_proof_account(data: Seq<u8>, loaded: Proof) -> bool {
    &&& data.len() == PROOF_ACCOUNT_LEN
    &&& data[0] == PROOF_ACCOUNT_TAG
    &&& loaded.authority@ == data.subrange(8, 40)
    &&& is_word(data.subrange(40, 48), loaded.balance as int)
    &&& loaded.challenge@ == data.subrange(48, 80)
    &&& loaded.last_hash@ == data.subrange(80, 112)
    &&& is_word(data.subrange(112, 120), unsigned(loaded.last_hash_at))
    &&& is_word(data.subrange(120, 128), unsigned(loaded.last_stake_at))
    &&& loaded.miner@ == data.subrange(128, 160)
    &&& is_word(data.subrange(160, 168), loaded.total_hashes as int)
    &&& is_word(data.subrange(168, 176), loaded.total_rewards as int)
}

/// Calls `ore_api::state::Proof::try_from_bytes`. Claims that it takes only an account of the
/// right length and tag, and finds every field at its place. The numbers are read in the byte
/// order of the machine. That a right account is taken is not claimed: the bytes have to lie at
/// an address that is a multiple of eight. It panics on fewer than eight bytes, which are left out.
#[verifier::external_body]
fn proof_from_bytes(data: &Vec<u8>) -> (r: Option<Proof>)
    requires
        data@.len() >= 8,
    ensures
        r matches Some(loaded) ==> is_proof_account(data@, loaded),
{
    ore_api::state::Proof::try_from_bytes(data).ok().map(|account| Proof {
        authority: account.authority.to_bytes(),
        balance: account.balance,
        challenge: account.challenge,
        last_hash: account.last_hash,
        last_hash_at: account.last_hash_at,
        last_stake_at: account.last_stake_at,
        miner: account.miner.to_bytes(),
        total_hashes: account.total_hashes,
        total_rewards: account.total_rewards,
    })
}

/// Reads a proof out of the bytes of its account. There is none in bytes of another length or with
/// another tag; whether one is found in the others depends on where in memory they lie.
pub fn read_proof(data: &Vec<u8>) -> (r: Option<Proof>)
    ensures
        r matches Some(loaded) ==> is_proof_account(data@, loaded),
        data@.len() != PROOF_ACCOUNT_LEN || data@[0] != PROOF_ACCOUNT_TAG ==> r is None,
{
    if data.len() < 8 {
        None
    } else {
        proof_from_bytes(data)
    }
}

/// A solution can be read back from the instruction that hands it in: the digest at byte 1 of the
/// data, the nonce at byte 17.
pub proof fn law_mine_carries_solution(
    signer: [u8; 32],
    bus: [u8; 32],
    proof_address: [u8; 32],
    solution: Solution,
)
    ensures
        ({
            let data = mine_instruction(signer, bus, proof_address, solution).data;
            &&& data.len() == 25
            &&& data.subrange(1, 17) == solution.digest@
            &&& data.subrange(17, 25) == solution.nonce@
        }),
{
    let data = mine_instruction(signer, bus, proof_address, solution).data;
    assert(data.subrange(1, 17) =~= solution.digest@);
    assert(data.subrange(17, 25) =~= solution.nonce@);
}

} // verus!
