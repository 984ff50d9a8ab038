//! The instructions of the transaction that a solution is submitted with.
use vstd::prelude::*;

use crate::solution::Solution;
use crate::{chance, fee, order, ore};

verus! {

/// An account that an instruction uses.
#[derive(Clone, Copy, Debug, PartialEq, Eq)]
pub struct AccountMeta {
    pub pubkey: [u8; 32],
    pub is_signer: bool,
    pub is_writable: bool,
}

/// An instruction of a transaction: the program to run, the accounts it uses, and its data.
#[derive(Debug, PartialEq, Eq)]
pub struct Instruction {
    pub program_id: [u8; 32],
    pub accounts: Vec<AccountMeta>,
    pub data: Vec<u8>,
}

/// What an instruction holds.
pub struct InstructionView {
    pub program_id: Seq<u8>,
    pub accounts: Seq<AccountMeta>,
    pub data: Seq<u8>,
}

impl View for Instruction {
    type V = InstructionView;

    open spec fn view(&self) -> InstructionView {
        InstructionView {
            program_id: self.program_id@,
            accounts: self.accounts@,
            data: self.data@,
        }
    }
}

/// The accounts that the block engine is tipped on.
pub const JITO_RECIPIENTS: [[u8; 32]; 8] = [
    // 96gYZGLnJYVFmbjzopPSU6QiEV5fGqZNyN9nmNhvrZU5
    [
        0x78, 0x52, 0x1c, 0xb1, 0x79, 0xce, 0xbb, 0x85,
        0x89, 0xb5, 0x56, 0xa2, 0xd5, 0xec, 0x94, 0xd2,
        0x49, 0x86, 0x82, 0xfd, 0xf9, 0xbb, 0x2a, 0xf5,
        0xad, 0x64, 0xe4, 0x91, 0xcc, 0x41, 0x53, 0xda,
    ],
    // HFqU5x63VTqvQss8hp11i4wVV8bD44PvwucfZ2bU7gRe
    [
        0xf1, 0x87, 0xec, 0x87, 0xd1, 0xf7, 0x45, 0xcb,
        0x3a, 0x03, 0x38, 0x4a, 0x26, 0xa6, 0x9e, 0xda,
        0x0c, 0xa2, 0xd1, 0xaa, 0x0f, 0x41, 0xe4, 0x24,
        0x16, 0x37, 0x7e, 0x91, 0xff, 0x5b, 0x5d, 0x31,
    ],
    // Cw8CFyM9FkoMi7K7Crf6HNQqf4uEMzpKw6QNghXLvLkY
    [
        0xb1, 0x4e, 0x0d, 0xe5, 0x5e, 0x9f, 0xba, 0x86,
        0x39, 0x6e, 0xbf, 0xd5, 0x48, 0xcf, 0xf8, 0xc9,
        0x20, 0x11, 0xea, 0xc7, 0xb7, 0x5b, 0xaa, 0x9b,
        0x2d, 0x9c, 0x6a, 0x86, 0xf5, 0xa1, 0x71, 0x41,
    ],
    // ADaUMid9yfUytqMBgopwjb2DTLSokTSzL1zt6iGPaS49
    [
        0x88, 0xf1, 0xff, 0xa3, 0xa2, 0xdf, 0xe6, 0x17,
        0xbd, 0xc4, 0xe3, 0x57, 0x32, 0x51, 0xa3, 0x22,
        0xe3, 0xfc, 0xae, 0x81, 0xe5, 0xa4, 0x57, 0x39,
        0x0e, 0x64, 0x75, 0x1c, 0x00, 0xa4, 0x65, 0xe2,
    ],
    // DfXygSm4jCyNCybVYYK6DwvWqjKee8pbDmJGcLWNDXjh
    [
        0xbc, 0x2b, 0x57, 0x06, 0x5e, 0xf1, 0xdd, 0x66,
        0x54, 0x30, 0xbe, 0x60, 0x6b, 0xa6, 0x59, 0x6c,
        0x02, 0x95, 0x30, 0x1b, 0xad, 0xef, 0x8b, 0x5a,
        0xfc, 0x41, 0x01, 0x41, 0x50, 0xf4, 0x12, 0x74,
    ],
    // ADuUkR4vqLUMWXxW9gh6D6L8pMSawimctcNZ5pGwDcEt
    [
        0x89, 0x07, 0x7d, 0x55, 0xa5, 0xbb, 0x13, 0x30,
        0x76, 0x3e, 0xb7, 0x67, 0xf5, 0x5e, 0xc0, 0x77,
        0xb4, 0x1a, 0x0d, 0x07, 0x5f, 0x7d, 0xe1, 0xd7,
        0x3f, 0xba, 0xca, 0x3c, 0x63, 0xd5, 0x54, 0x71,
    ],
    // DttWaMuVvTiduZRnguLF7jNxTgiMBZ1hyAumKUiL2KRL
    [
        0xbf, 0x97, 0x1b, 0x59, 0x10, 0x8b, 0x5b, 0x85,
        0xa0, 0x4f, 0xb0, 0x93, 0xf1, 0xe2, 0x1b, 0x4e,
        0x3f, 0xd4, 0xc4, 0xc8, 0xf4, 0x87, 0xdd, 0x09,
        0xb9, 0x57, 0x52, 0x76, 0x9f, 0x0d, 0xd8, 0xc3,
    ],
    // 3AVi9Tg9Uo68tJfuvoKvqKNWKkC5wPdSSdeBnizKZ6jT
    [
        0x20, 0x26, 0x10, 0x1e, 0xc2, 0x03, 0x28, 0x96,
        0x4a, 0x32, 0xab, 0xab, 0x13, 0x6c, 0x54, 0x05,
        0xb9, 0x1f, 0x3a, 0xe3, 0x8e, 0xe4, 0xf6, 0x4c,
        0xb6, 0xbd, 0xe8, 0x79, 0xb8, 0x68, 0x38, 0xd2,
    ],
];

/// The address of the system program.
pub const SYSTEM_PROGRAM: [u8; 32] = [
    0, 0, 0, 0, 0, 0, 0, 0, 0, 0, 0, 0, 0, 0, 0, 0, 0, 0, 0, 0, 0, 0, 0, 0, 0, 0, 0, 0, 0, 0, 0, 0,
];

/// The address of the compute budget program.
pub const COMPUTE_BUDGET_PROGRAM: [u8; 32] = [
    0x03, 0x06, 0x46, 0x6f, 0xe5, 0x21, 0x17, 0x32,
    0xff, 0xec, 0xad, 0xba, 0x72, 0xc3, 0x9b, 0xe7,
    0xbc, 0x8c, 0xe5, 0xbb, 0xc5, 0xf7, 0x12, 0x6b,
    0x2c, 0x43, 0x9b, 0x3a, 0x40, 0x00, 0x00, 0x00,
];

/// The compute units that a submission may use.
pub const COMPUTE_UNIT_LIMIT: u32 = 480_000;

/// The price of a compute unit that submissions offer, in millionths of a lamport.
pub const PRIORITY_FEE: u64 = 0;

/// The number of bus accounts, one of which every submission mines through.
pub const BUS_COUNT: usize = 8;

/// The system program's instruction that moves lamports from one account, which signs, to another.
pub open spec fn transfer_instruction(from: [u8; 32], to: [u8; 32], lamports: u64) -> InstructionView {
    InstructionView {
        program_id: SYSTEM_PROGRAM@,
        accounts: seq![
            AccountMeta { pubkey: from, is_signer: true, is_writable: true },
            AccountMeta { pubkey: to, is_signer: false, is_writable: true },
        ],
        data: seq![2u8, 0u8, 0u8, 0u8] + crate::order::le_bytes(lamports as nat, 8),
    }
}

/// The instruction that limits the compute units of a transaction.
pub open spec fn unit_limit_instruction(units: u32) -> InstructionView {
    InstructionView {
        program_id: COMPUTE_BUDGET_PROGRAM@,
        accounts: Seq::empty(),
        data: seq![2u8] + crate::order::le_bytes(units as nat, 4),
    }
}

/// The instruction that sets the price of a compute unit, in millionths of a lamport.
pub open spec fn unit_price_instruction(micro_lamports: u64) -> InstructionView {
    InstructionView {
        program_id: COMPUTE_BUDGET_PROGRAM@,
        accounts: Seq::empty(),
        data: seq![3u8] + crate::order::le_bytes(micro_lamports as nat, 8),
    }
}

/// Calls `solana_sdk::system_instruction::transfer`. Claims that it makes the system program's
/// transfer instruction: the paying account signs, both accounts are written, and the data are
/// the number 2 in four bytes and the amount in eight, the lowest byte first.
#[verifier::external_body]
fn system_transfer(from: &[u8; 32], to: &[u8; 32], lamports: u64) -> (r: Instruction)
    ensures
        r@ == transfer_instruction(*from, *to, lamports),
{
    let from = solana_sdk::pubkey::Pubkey::from(*from);
    let to = solana_sdk::pubkey::Pubkey::from(*to);
    let ix = solana_sdk::system_instruction::transfer(&from, &to, lamports);
    let accounts = ix.accounts.iter().map(|a| AccountMeta {
        pubkey: a.pubkey.to_bytes(),
        is_signer: a.is_signer,
        is_writable: a.is_writable,
    }).collect();
    Instruction { program_id: ix.program_id.to_bytes(), accounts, data: ix.data }
}

/// Calls `solana_sdk::compute_budget::ComputeBudgetInstruction::set_compute_unit_limit`. Claims
/// that it makes the compute budget program's instruction without accounts, whose data are the
/// byte 2 and the limit in four bytes, the lowest first.
#[verifier::external_body]
fn set_compute_unit_limit(units: u32) -> (r: Instruction)
    ensures
        r@ == unit_limit_instruction(units),
{
    let ix = solana_sdk::compute_budget::ComputeBudgetInstruction::set_compute_unit_limit(units);
    let accounts = ix.accounts.iter().map(|a| AccountMeta {
        pubkey: a.pubkey.to_bytes(),
        is_signer: a.is_signer,
        is_writable: a.is_writable,
    }).collect();
    Instruction { program_id: ix.program_id.to_bytes(), accounts, data: ix.data }
}

/// Calls `solana_sdk::compute_budget::ComputeBudgetInstruction::set_compute_unit_price`. Claims
/// that it makes the compute budget program's instruction without accounts, whose data are the
/// byte 3 and the price in eight bytes, the lowest first.
#[verifier::external_body]
fn set_compute_unit_price(micro_lamports: u64) -> (r: Instruction)
    ensures
        r@ == unit_price_instruction(micro_lamports),
{
    let ix = solana_sdk::compute_budget::ComputeBudgetInstruction::set_compute_unit_price(
        micro_lamports,
    );
    let accounts = ix.accounts.iter().map(|a| AccountMeta {
        pubkey: a.pubkey.to_bytes(),
        is_signer: a.is_signer,
        is_writable: a.is_writable,
    }).collect();
    Instruction { program_id: ix.program_id.to_bytes(), accounts, data: ix.data }
}

/// Reads `ore_api::consts::BUS_COUNT`. Claims that it is 8.
#[verifier::external_body]
fn ore_bus_count() -> (r: usize)
    ensures
        r == BUS_COUNT,
{
    ore_api::consts::BUS_COUNT
}

/// Picks the bus to mine through at random.
pub fn choose_bus() -> (bus: usize)
    ensures
        bus < BUS_COUNT,
{
    chance::random_index(ore_bus_count())
}

/// The instruction that pays the tip to the given one of the block engine's accounts.
pub fn build_bribe_ix_to(pubkey: &[u8; 32], recipient: usize, value: u64) -> (r: Instruction)
    requires
        recipient < 8,
    ensures
        r@ == transfer_instruction(*pubkey, JITO_RECIPIENTS[recipient as int], value),
{
    let recipients: [[u8; 32]; 8] = JITO_RECIPIENTS;
    system_transfer(pubkey, &recipients[recipient], value)
}

/// The instruction that pays the tip to one of the block engine's accounts, picked at random.
pub fn build_bribe_ix(pubkey: &[u8; 32], value: u64) -> (r: Instruction)
    ensures
        exists|i: int|
            0 <= i < 8 && r@ == transfer_instruction(*pubkey, #[trigger] JITO_RECIPIENTS[i], value),
{
    let recipient: usize = chance::random_index(8);
    build_bribe_ix_to(pubkey, recipient, value)
}

/// What the instructions of a list hold.
pub open spec fn instruction_views(ixs: Seq<Instruction>) -> Seq<InstructionView> {
    ixs.map_values(|ix: Instruction| ix@)
}

/// The instructions of a submission: the compute budget, the instruction that names the miner, the
/// tip to the given account, and the mining itself.
pub open spec fn submission_of(
    signer: [u8; 32],
    prio_fee: u64,
    auth: InstructionView,
    recipient: int,
    fee: u64,
    mine: InstructionView,
) -> Seq<InstructionView> {
    seq![
        unit_limit_instruction(COMPUTE_UNIT_LIMIT),
        unit_price_instruction(prio_fee),
        auth,
        transfer_instruction(signer, JITO_RECIPIENTS[recipient], fee),
        mine,
    ]
}

/// The instructions of a submission, in order, with the tip going to the given one of the block
/// engine's accounts.
pub fn submission_instructions_to(
    signer: &[u8; 32],
    prio_fee: u64,
    auth: Instruction,
    recipient: usize,
    difficulty: u32,
    jito_tip_lamports: u64,
    mine: Instruction,
) -> (ixs: Vec<Instruction>)
    requires
        recipient < 8,
        fee::fee_fits(difficulty, jito_tip_lamports),
    ensures
        instruction_views(ixs@) == submission_of(
            *signer,
            prio_fee,
            auth@,
            recipient as int,
            fee::adjusted_fee(difficulty, jito_tip_lamports) as u64,
            mine@,
        ),
        ixs@.len() == 5,
        ixs@[2] == auth,
        ixs@[4] == mine,
        ixs@[0]@ == unit_limit_instruction(480_000),
        ixs@[1]@ == unit_price_instruction(prio_fee),
        ixs@[3]@ == transfer_instruction(
            *signer,
            JITO_RECIPIENTS[recipient as int],
            fee::adjusted_fee(difficulty, jito_tip_lamports) as u64,
        ),
{
    let mut ixs: Vec<Instruction> = Vec::new();
    ixs.push(set_compute_unit_limit(COMPUTE_UNIT_LIMIT));
    ixs.push(set_compute_unit_price(prio_fee));
    ixs.push(auth);
    ixs.push(
        build_bribe_ix_to(signer, recipient, fee::adjust_fee(difficulty, jito_tip_lamports)),
    );
    ixs.push(mine);
    assert(instruction_views(ixs@) =~= submission_of(
        *signer,
        prio_fee,
        auth@,
        recipient as int,
        fee::adjusted_fee(difficulty, jito_tip_lamports) as u64,
        mine@,
    ));
    ixs
}

/// The instructions with which a miner hands in a solution through a bus, for the given proof
/// account, and tips one of the block engine's accounts.
pub open spec fn solution_submission(
    signer: [u8; 32],
    prio_fee: u64,
    proof_address: [u8; 32],
    solution: Solution,
    bus: int,
    recipient: int,
    fee: u64,
) -> Seq<InstructionView> {
    submission_of(
        signer,
        prio_fee,
        ore::auth_instruction(proof_address),
        recipient,
        fee,
        ore::mine_instruction(signer, ore::BUS_ADDRESSES[bus], proof_address, solution),
    )
}

/// Whether these are such instructions, for one of the buses and one of the accounts.
pub open spec fn submits(
    ixs: Seq<InstructionView>,
    signer: [u8; 32],
    prio_fee: u64,
    proof_address: [u8; 32],
    solution: Solution,
    bus: int,
    recipient: int,
    fee: u64,
) -> bool {
    &&& 0 <= bus < 8
    &&& 0 <= recipient < 8
    &&& ixs == solution_submission(
        signer,
        prio_fee,
        proof_address,
        solution,
        bus,
        recipient,
        fee,
    )
}

/// What stands in a transfer: the payer signs, both accounts are written, and the amount is the
/// number in bytes 4 to 12 of the data.
pub proof fn law_transfer_moves(from: [u8; 32], to: [u8; 32], lamports: u64)
    ensures
        ({
            let ix = transfer_instruction(from, to, lamports);
            &&& ix.program_id.len() == 32
            &&& forall|i: int| 0 <= i < 32 ==> #[trigger] ix.program_id[i] == 0
            &&& ix.accounts.len() == 2
            &&& ix.accounts[0].pubkey == from && ix.accounts[0].is_signer
                && ix.accounts[0].is_writable
            &&& ix.accounts[1].pubkey == to && !ix.accounts[1].is_signer
                && ix.accounts[1].is_writable
            &&& ix.data.len() == 12
            &&& ix.data[0] == 2 && ix.data[1] == 0 && ix.data[2] == 0 && ix.data[3] == 0
            &&& order::le_value(ix.data.subrange(4, 12)) == lamports
        }),
{
    order::lemma_u64_range();
    order::lemma_le_round_trip(lamports as nat, 8);
    let ix = transfer_instruction(from, to, lamports);
    assert(ix.data.subrange(4, 12) =~= order::le_bytes(lamports as nat, 8));
}

/// Submissions offer nothing for their compute units.
pub proof fn law_no_priority_fee()
    ensures
        order::le_value(unit_price_instruction(PRIORITY_FEE).data.subrange(1, 9)) == 0,
{
    order::lemma_u64_range();
    order::lemma_le_round_trip(0, 8);
    assert(unit_price_instruction(PRIORITY_FEE).data.subrange(1, 9) =~= order::le_bytes(0, 8));
}

/// What is handed in with a submission: five instructions, of which the first limits the compute
/// units to 480000, the second sets their price, the third names the proof account, the fourth
/// pays the fee to the given account, and the fifth carries the digest and the nonce of the very
/// solution through the given bus for that proof account, all of it for the signer.
pub proof fn law_submission_carries_solution(
    ixs: Seq<InstructionView>,
    signer: [u8; 32],
    prio_fee: u64,
    proof_address: [u8; 32],
    solution: Solution,
    bus: int,
    recipient: int,
    fee: u64,
)
    requires
        submits(ixs, signer, prio_fee, proof_address, solution, bus, recipient, fee),
    ensures
        0 <= bus < 8,
        0 <= recipient < 8,
        ixs.len() == 5,
        ixs[0].program_id == COMPUTE_BUDGET_PROGRAM@,
        ixs[0].data.len() == 5,
        ixs[0].data[0] == 2,
        order::le_value(ixs[0].data.subrange(1, 5)) == 480_000,
        ixs[1].program_id == COMPUTE_BUDGET_PROGRAM@,
        ixs[1].data.len() == 9,
        ixs[1].data[0] == 3,
        order::le_value(ixs[1].data.subrange(1, 9)) == prio_fee,
        ixs[2].program_id == ore::NOOP_PROGRAM@,
        ixs[2].accounts.len() == 0,
        ixs[2].data == proof_address@,
        ixs[3].program_id == SYSTEM_PROGRAM@,
        ixs[3].accounts.len() == 2,
        ixs[3].accounts[0].pubkey == signer,
        ixs[3].accounts[0].is_signer,
        ixs[3].accounts[1].pubkey == JITO_RECIPIENTS[recipient],
        ixs[3].data.len() == 12,
        ixs[3].data[0] == 2,
        order::le_value(ixs[3].data.subrange(4, 12)) == fee,
        ixs[4].program_id == ore::ORE_PROGRAM@,
        ixs[4].accounts.len() == 6,
        ixs[4].accounts[0].pubkey == signer,
        ixs[4].accounts[0].is_signer,
        ixs[4].accounts[1].pubkey == ore::BUS_ADDRESSES[bus],
        ixs[4].accounts[3].pubkey == proof_address,
        ixs[4].data.len() == 25,
        ixs[4].data[0] == 2,
        ixs[4].data.subrange(1, 17) == solution.digest@,
        ixs[4].data.subrange(17, 25) == solution.nonce@,
{
    law_transfer_moves(signer, JITO_RECIPIENTS[recipient], fee);
    order::lemma_u64_range();
    order::lemma_u32_range();
    order::lemma_le_round_trip(480_000, 4);
    order::lemma_le_round_trip(prio_fee as nat, 8);
    assert(ixs[0].data.subrange(1, 5) =~= order::le_bytes(480_000, 4));
    assert(ixs[1].data.subrange(1, 9) =~= order::le_bytes(prio_fee as nat, 8));
    ore::law_mine_carries_solution(signer, ore::BUS_ADDRESSES[bus], proof_address, solution);
}

/// The instructions with which a solution is submitted, in order, through a bus and with a tip to
/// one of the block engine's accounts, both picked at random. There are none where there is no
/// address for the miner's proof account.
pub fn submission_instructions(
    signer: &[u8; 32],
    prio_fee: u64,
    solution: &Solution,
    difficulty: u32,
    jito_tip_lamports: u64,
) -> (r: Option<Vec<Instruction>>)
    requires
        fee::fee_fits(difficulty, jito_tip_lamports),
    ensures
        r is Some <==> ore::proof_account(signer@) is Some,
        r matches Some(ixs) ==> exists|bus: int, recipient: int| #[trigger]
            submits(
                instruction_views(ixs@),
                *signer,
                prio_fee,
                (ore::proof_account(signer@)->0).0,
                *solution,
                bus,
                recipient,
                fee::adjusted_fee(difficulty, jito_tip_lamports) as u64,
            ),
        r matches Some(ixs) ==> {
            &&& ixs@.len() == 5
            &&& ixs@[2].data@ == (ore::proof_account(signer@)->0).0@
            &&& ixs@[3].accounts@.len() == 2
            &&& ixs@[3].accounts@[0].pubkey == *signer
            &&& exists|i: int|
                0 <= i < 8 && ixs@[3].accounts@[1].pubkey == #[trigger] JITO_RECIPIENTS[i]
            &&& ixs@[3].data@.len() == 12
            &&& order::le_value(ixs@[3].data@.subrange(4, 12)) == fee::adjusted_fee(
                difficulty,
                jito_tip_lamports,
            )
            &&& ixs@[4].data@.len() == 25
            &&& ixs@[4].data@[0] == 2
            &&& ixs@[4].data@.subrange(1, 17) == solution.digest@
            &&& ixs@[4].data@.subrange(17, 25) == solution.nonce@
        },
{
    let bus: usize = choose_bus();
    let recipient: usize = chance::random_index(8);
    let auth: Option<Instruction> = ore::get_auth_ix(signer);
    let mine: Option<Instruction> = ore::get_mine_ix(signer, solution, bus);
    match (auth, mine) {
        (Some(auth), Some(mine)) => {
            let ixs: Vec<Instruction> = submission_instructions_to(
                signer,
                prio_fee,
                auth,
                recipient,
                difficulty,
                jito_tip_lamports,
                mine,
            );
            let r: Option<Vec<Instruction>> = Some(ixs);
            assert(submits(
                instruction_views((r->0)@),
                *signer,
                prio_fee,
                (ore::proof_account(signer@)->0).0,
                *solution,
                bus as int,
                recipient as int,
                fee::adjusted_fee(difficulty, jito_tip_lamports) as u64,
            ));
            proof {
                let views = instruction_views((r->0)@);
                let fee = fee::adjusted_fee(difficulty, jito_tip_lamports) as u64;
                law_submission_carries_solution(
                    views,
                    *signer,
                    prio_fee,
                    (ore::proof_account(signer@)->0).0,
                    *solution,
                    bus as int,
                    recipient as int,
                    fee,
                );
                fee::law_fee_bounds(difficulty, jito_tip_lamports);
                assert forall|i: int| 0 <= i < 5 implies #[trigger] views[i] == (r->0)@[i]@ by {}
                assert(views[2] == (r->0)@[2]@ && views[3] == (r->0)@[3]@ && views[4] == (r->0)@[4]@);
            }
            r
        },
        _ => None,
    }
}

} // verus!
