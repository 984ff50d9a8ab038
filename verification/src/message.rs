//! The messages that the miner signs to send a transaction.
use vstd::prelude::*;

use crate::chain::{Instruction, InstructionView};
use crate::solution::Solution;
use crate::{chain, fee, order, ore};

verus! {

/// What `solana_sdk::transaction::Transaction::message_data` returns for a transaction made of
/// these instructions, with this payer and this blockhash: the bytes that its signers sign.
pub uninterp spec fn transaction_message(
    ixs: Seq<InstructionView>,
    payer: Seq<u8>,
    blockhash: Seq<u8>,
) -> Seq<u8>;

/// Calls `Transaction::new_with_payer` of `solana_sdk`, sets the blockhash, and calls
/// `Transaction::message_data`. Claims that the bytes depend on the instructions, the payer and
/// the blockhash alone. The outside functions panic where more than 255 accounts of one kind occur
/// and on data of more than 65535 bytes; the bounds, which every message here keeps, leave that out.
#[verifier::external_body]
fn message_bytes(ixs: &Vec<Instruction>, payer: &[u8; 32], blockhash: &[u8; 32]) -> (r: Vec<u8>)
    requires
        ixs@.len() <= 16,
        forall|i: int|
            0 <= i < ixs@.len() ==> (#[trigger] ixs@[i]).accounts@.len() <= 14
                && ixs@[i].data@.len() <= 65535,
    ensures
        r@ == transaction_message(chain::instruction_views(ixs@), payer@, blockhash@),
{
    let ixs: Vec<solana_sdk::instruction::Instruction> = ixs.iter().map(|ix| {
        let accounts = ix.accounts.iter().map(|a| solana_sdk::instruction::AccountMeta {
            pubkey: solana_sdk::pubkey::Pubkey::from(a.pubkey),
            is_signer: a.is_signer,
            is_writable: a.is_writable,
        }).collect();
        let program_id = solana_sdk::pubkey::Pubkey::from(ix.program_id);
        solana_sdk::instruction::Instruction { program_id, accounts, data: ix.data.clone() }
    }).collect();
    let payer = solana_sdk::pubkey::Pubkey::from(*payer);
    let mut tx = solana_sdk::transaction::Transaction::new_with_payer(&ixs, Some(&payer));
    tx.message.recent_blockhash = solana_sdk::hash::Hash::from(*blockhash);
    tx.message_data()
}

/// Whether these are the bytes to sign for the submission of a solution, through one of the buses
/// and with a tip to one of the block engine's accounts.
pub open spec fn is_submission_message(
    message: Seq<u8>,
    signer: [u8; 32],
    blockhash: Seq<u8>,
    prio_fee: u64,
    proof_address: [u8; 32],
    solution: Solution,
    bus: int,
    recipient: int,
    fee: u64,
) -> bool {
    &&& 0 <= bus < 8
    &&& 0 <= recipient < 8
    &&& message == transaction_message(
        chain::solution_submission(
            signer,
            prio_fee,
            proof_address,
            solution,
            bus,
            recipient,
            fee,
        ),
        signer@,
        blockhash,
    )
}

/// The bytes to sign for a submission are those of a transaction that the signer pays for, with the
/// given blockhash, whose five instructions hand in the very solution: its digest and its nonce
/// stand in the data of the last one, and the fee in those of the one before.
pub proof fn law_signed_for_solution(
    message: Seq<u8>,
    signer: [u8; 32],
    blockhash: Seq<u8>,
    prio_fee: u64,
    proof_address: [u8; 32],
    solution: Solution,
    bus: int,
    recipient: int,
    fee: u64,
) -> (ixs: Seq<InstructionView>)
    requires
        is_submission_message(
            message,
            signer,
            blockhash,
            prio_fee,
            proof_address,
            solution,
            bus,
            recipient,
            fee,
        ),
    ensures
        message == transaction_message(ixs, signer@, blockhash),
        chain::submits(ixs, signer, prio_fee, proof_address, solution, bus, recipient, fee),
        ixs.len() == 5,
        ixs[2].data == proof_address@,
        ixs[3].accounts[1].pubkey == chain::JITO_RECIPIENTS[recipient],
        order::le_value(ixs[3].data.subrange(4, 12)) == fee,
        ixs[4].accounts[1].pubkey == ore::BUS_ADDRESSES[bus],
        ixs[4].data.subrange(1, 17) == solution.digest@,
        ixs[4].data.subrange(17, 25) == solution.nonce@,
{
    let ixs = chain::solution_submission(
        signer,
        prio_fee,
        proof_address,
        solution,
        bus,
        recipient,
        fee,
    );
    chain::law_submission_carries_solution(
        ixs,
        signer,
        prio_fee,
        proof_address,
        solution,
        bus,
        recipient,
        fee,
    );
    ixs
}

/// The bytes to sign for the submission of a solution, with the bus and the tipped account picked
/// at random. There are none where there is no address for the miner's proof account.
pub fn submission_message(
    signer: &[u8; 32],
    blockhash: &[u8; 32],
    prio_fee: u64,
    solution: &Solution,
    difficulty: u32,
    jito_tip_lamports: u64,
) -> (r: Option<Vec<u8>>)
    requires
        fee::fee_fits(difficulty, jito_tip_lamports),
    ensures
        r is Some <==> ore::proof_account(signer@) is Some,
        r matches Some(message) ==> exists|bus: int, recipient: int| #[trigger]
            is_submission_message(
                message@,
                *signer,
                blockhash@,
                prio_fee,
                (ore::proof_account(signer@)->0).0,
                *solution,
                bus,
                recipient,
                fee::adjusted_fee(difficulty, jito_tip_lamports) as u64,
            ),
{
    let made: Option<Vec<Instruction>> = chain::submission_instructions(
        signer,
        prio_fee,
        solution,
        difficulty,
        jito_tip_lamports,
    );
    match made {
        Some(ixs) => {
            let ghost views = chain::instruction_views(ixs@);
            let ghost address = (ore::proof_account(signer@)->0).0;
            let ghost paid = fee::adjusted_fee(difficulty, jito_tip_lamports) as u64;
            let ghost picked = choose|bus: int, recipient: int| #[trigger]
                chain::submits(
                    views,
                    *signer,
                    prio_fee,
                    address,
                    *solution,
                    bus,
                    recipient,
                    paid,
                );
            proof {
                order::lemma_le_len(chain::COMPUTE_UNIT_LIMIT as nat, 4);
                order::lemma_le_len(prio_fee as nat, 8);
                order::lemma_le_len(paid as nat, 8);
                assert(views.len() == ixs@.len());
                assert forall|i: int| 0 <= i < ixs@.len() implies (
                #[trigger] ixs@[i]).accounts@.len() <= 14 && ixs@[i].data@.len() <= 65535 by {
                    assert(views[i] == ixs@[i]@);
                }
            }
            let r: Option<Vec<u8>> = Some(message_bytes(&ixs, signer, blockhash));
            assert(is_submission_message(
                (r->0)@,
                *signer,
                blockhash@,
                prio_fee,
                address,
                *solution,
                picked.0,
                picked.1,
                paid,
            ));
            r
        },
        None => None,
    }
}

/// The bytes to sign to open the miner's proof account, if there is an address for it.
pub fn registration_message(signer: &[u8; 32], blockhash: &[u8; 32]) -> (r: Option<Vec<u8>>)
    ensures
        match (r, ore::proof_account(signer@)) {
            (Some(message), Some(found)) => message@ == transaction_message(
                seq![ore::open_instruction(*signer, found.0, found.1)],
                signer@,
                blockhash@,
            ),
            (None, None) => true,
            _ => false,
        },
{
    match ore::get_register_ix(signer) {
        Some(ix) => {
            let mut ixs: Vec<Instruction> = Vec::new();
            ixs.push(ix);
            assert(chain::instruction_views(ixs@) =~= seq![ix@]);
            Some(message_bytes(&ixs, signer, blockhash))
        },
        None => None,
    }
}

} // verus!
