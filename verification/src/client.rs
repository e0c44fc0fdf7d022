//! Requests as a client builds them: which program to call, which accounts
//! to hand it, and the bytes of the command.

use crate::event::OrderbookEventType;
use crate::instruction::{
    decode_instruction, encode_instruction, lemma_instruction_round_trip, InstructionModel,
    OrderbookInstruction,
};
use crate::pubkey::Pubkey;
use crate::text::text_fits;
use vstd::prelude::*;

verus! {

/// An account that a request names, and how the program may use it.
#[derive(Clone, Copy, Debug)]
pub struct AccountMeta {
    /// The address of the account.
    pub pubkey: Pubkey,
    /// Whether the request must be signed for this account.
    pub is_signer: bool,
    /// Whether the program may write to the account.
    pub is_writable: bool,
}

/// A request to a program.
#[derive(Debug)]
pub struct Instruction {
    /// The program that carries the request out.
    pub program_id: Pubkey,
    /// The accounts that the program is handed, in this order.
    pub accounts: Vec<AccountMeta>,
    /// The bytes of the command.
    pub data: Vec<u8>,
}

/// The account `pubkey`, named as one that the program may write to.
pub open spec fn writable(pubkey: Pubkey, is_signer: bool) -> AccountMeta {
    AccountMeta { pubkey, is_signer, is_writable: true }
}

/// The account `pubkey`, named as one that the program may only read.
pub open spec fn readonly(pubkey: Pubkey, is_signer: bool) -> AccountMeta {
    AccountMeta { pubkey, is_signer, is_writable: false }
}

impl AccountMeta {
    /// An account that the program may write to.
    pub fn new(pubkey: Pubkey, is_signer: bool) -> (meta: AccountMeta)
        ensures
            meta == writable(pubkey, is_signer),
    {
        AccountMeta { pubkey, is_signer, is_writable: true }
    }

    /// An account that the program may only read.
    pub fn new_readonly(pubkey: Pubkey, is_signer: bool) -> (meta: AccountMeta)
        ensures
            meta == readonly(pubkey, is_signer),
    {
        AccountMeta { pubkey, is_signer, is_writable: false }
    }
}

/// The command that a request built by `record_event` carries.
pub open spec fn record_event_command(
    market_name: Seq<char>,
    price: u64,
    size: u64,
    is_bid: bool,
    event_type: OrderbookEventType,
) -> InstructionModel {
    InstructionModel::RecordEvent { market_name, price, size, is_bid, event_type }
}

/// The request that makes `monitor_account` an empty ledger of the program
/// `program_id`. The account is named as writable and signing, and the
/// program reads the request's bytes as the command `Initialize`.
pub fn initialize(program_id: &Pubkey, monitor_account: &Pubkey) -> (request: Instruction)
    ensures
        request.program_id == *program_id,
        request.accounts@ == seq![writable(*monitor_account, true)],
        request.data@ == encode_instruction(InstructionModel::Initialize),
        decode_instruction(request.data@) == Some(InstructionModel::Initialize),
{
    proof {
        lemma_instruction_round_trip(InstructionModel::Initialize);
    }
    let mut accounts: Vec<AccountMeta> = Vec::new();
    accounts.push(AccountMeta::new(*monitor_account, true));
    let data = OrderbookInstruction::Initialize.to_bytes();
    Instruction { program_id: *program_id, accounts, data }
}

/// The request that records one event in the ledger `monitor_account` of
/// the program `program_id`. The ledger is named as writable and signing,
/// the observed market `market_account` as read-only.
///
/// The program reads the request's bytes as the command `RecordEvent` with
/// the fields given here. The market name must be short enough for its
/// four-byte length field.
pub fn record_event(
    program_id: &Pubkey,
    monitor_account: &Pubkey,
    market_account: &Pubkey,
    market_name: String,
    price: u64,
    size: u64,
    is_bid: bool,
    event_type: OrderbookEventType,
) -> (request: Instruction)
    requires
        text_fits(market_name@),
    ensures
        request.program_id == *program_id,
        request.accounts@ == seq![
            writable(*monitor_account, true),
            readonly(*market_account, false),
        ],
        request.data@ == encode_instruction(
            record_event_command(market_name@, price, size, is_bid, event_type),
        ),
        decode_instruction(request.data@) == Some(
            record_event_command(market_name@, price, size, is_bid, event_type),
        ),
{
    proof {
        lemma_instruction_round_trip(
            record_event_command(market_name@, price, size, is_bid, event_type),
        );
    }
    let mut accounts: Vec<AccountMeta> = Vec::new();
    accounts.push(AccountMeta::new(*monitor_account, true));
    accounts.push(AccountMeta::new_readonly(*market_account, false));
    let command = OrderbookInstruction::RecordEvent {
        market_name,
        price,
        size,
        is_bid,
        event_type,
    };
    let data = command.to_bytes();
    Instruction { program_id: *program_id, accounts, data }
}

} // verus!
