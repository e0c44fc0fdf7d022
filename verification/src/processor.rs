//! The program's commands on the accounts of a request, and the dispatch
//! of a request to its command.
//!
//! The ledger lives in the storage region of the first account. A command
//! checks the accounts, then lets the ledger's own operations work on the
//! region: it either commits or fails and leaves every account exactly as
//! it was.

use crate::error::OrderbookError;
use crate::event::{EventModel, OrderbookEvent, OrderbookEventType};
use crate::instruction::{decode_instruction, InstructionModel, OrderbookInstruction};
use crate::ledger::{append_event, append_to_region, initialize_ledger, initialize_region};
use crate::pubkey::Pubkey;
use vstd::prelude::*;

verus! {

/// An account as the program sees it. The operations read its address,
/// its owner and its storage region, and write only to the region.
#[derive(Debug)]
pub struct AccountInfo {
    /// The address of the account.
    pub key: Pubkey,
    /// Whether the request was signed for this account.
    pub is_signer: bool,
    /// Whether the request lets the program write to the account.
    pub is_writable: bool,
    /// The balance of the account.
    pub lamports: u64,
    /// The storage region. Its size is fixed when the account is created.
    pub data: Vec<u8>,
    /// The program that owns the account.
    pub owner: Pubkey,
    /// Whether the account holds a program.
    pub executable: bool,
    /// The epoch at which the account next owes rent.
    pub rent_epoch: u64,
}

impl AccountInfo {
    /// An account with the given fields.
    pub fn new(
        key: Pubkey,
        is_signer: bool,
        is_writable: bool,
        lamports: u64,
        data: Vec<u8>,
        owner: Pubkey,
        executable: bool,
        rent_epoch: u64,
    ) -> (account: AccountInfo)
        ensures
            account == (AccountInfo {
                key,
                is_signer,
                is_writable,
                lamports,
                data,
                owner,
                executable,
                rent_epoch,
            }),
    {
        AccountInfo { key, is_signer, is_writable, lamports, data, owner, executable, rent_epoch }
    }
}

/// Whether `after` is the account `before` with, at most, other bytes in
/// its region.
pub open spec fn same_but_data(before: AccountInfo, after: AccountInfo) -> bool {
    &&& after.key == before.key
    &&& after.is_signer == before.is_signer
    &&& after.is_writable == before.is_writable
    &&& after.lamports == before.lamports
    &&& after.owner == before.owner
    &&& after.executable == before.executable
    &&& after.rent_epoch == before.rent_epoch
}

/// What is true of the accounts after an operation that committed `data`:
/// the first account's region holds `data`, and nothing else differs from
/// `before`.
pub open spec fn committed(
    before: Seq<AccountInfo>,
    after: Seq<AccountInfo>,
    data: Seq<u8>,
) -> bool {
    &&& before.len() > 0
    &&& after.len() == before.len()
    &&& same_but_data(before[0], after[0])
    &&& after[0].data@ == data
    &&& forall|i: int| 1 <= i < before.len() ==> after[i] == before[i]
}

/// The event that `RecordEvent` records: the fields of the request, stamped
/// with the host's time.
pub open spec fn stamped_event(
    unix_timestamp: i64,
    market_name: Seq<char>,
    price: u64,
    size: u64,
    is_bid: bool,
    event_type: OrderbookEventType,
) -> EventModel {
    EventModel { timestamp: unix_timestamp, market_name, price, size, is_bid, event_type }
}

/// The outcome of `Initialize` on `accounts` for the program `program_id`.
pub open spec fn initialize_outcome(program_id: Seq<u8>, accounts: Seq<AccountInfo>) -> Result<
    Seq<u8>,
    OrderbookError,
> {
    if accounts.len() < 1 {
        Err(OrderbookError::NotEnoughAccountKeys)
    } else if accounts[0].owner@ != program_id {
        Err(OrderbookError::InvalidOwner)
    } else {
        initialize_region(accounts[0].data@, accounts[0].key@)
    }
}

/// The outcome of `RecordEvent` on `accounts` for the program `program_id`.
pub open spec fn record_event_outcome(
    program_id: Seq<u8>,
    accounts: Seq<AccountInfo>,
    event: EventModel,
) -> Result<Seq<u8>, OrderbookError> {
    if accounts.len() < 2 {
        Err(OrderbookError::NotEnoughAccountKeys)
    } else if accounts[0].owner@ != program_id {
        Err(OrderbookError::InvalidOwner)
    } else {
        append_to_region(accounts[0].data@, event)
    }
}

/// The outcome of the request `instruction_data` on `accounts`, at the time
/// `unix_timestamp`.
pub open spec fn instruction_outcome(
    program_id: Seq<u8>,
    accounts: Seq<AccountInfo>,
    instruction_data: Seq<u8>,
    unix_timestamp: i64,
) -> Result<Seq<u8>, OrderbookError> {
    match decode_instruction(instruction_data) {
        None => Err(OrderbookError::InvalidInstruction),
        Some(InstructionModel::Initialize) => initialize_outcome(program_id, accounts),
        Some(InstructionModel::RecordEvent { market_name, price, size, is_bid, event_type }) => {
            record_event_outcome(
                program_id,
                accounts,
                stamped_event(unix_timestamp, market_name, price, size, is_bid, event_type),
            )
        },
    }
}

/// The command `Initialize`: makes the first account the empty ledger whose
/// authority is that account's own address.
///
/// The account must be owned by `program_id`, must not hold an initialized
/// ledger yet, and must have room for an empty ledger. On failure no
/// account changes.
pub fn process_initialize(program_id: &Pubkey, accounts: &mut Vec<AccountInfo>) -> (done: Result<
    (),
    OrderbookError,
>)
    ensures
        match initialize_outcome(program_id@, old(accounts)@) {
            Ok(region) => done is Ok && committed(old(accounts)@, final(accounts)@, region),
            Err(error) => done == Err::<(), OrderbookError>(error) && final(accounts)@ == old(
                accounts,
            )@,
        },
        old(accounts).len() >= 1 && old(accounts)[0].owner@ != program_id@ ==> done == Err::<
            (),
            OrderbookError,
        >(OrderbookError::InvalidOwner),
{
    if accounts.len() < 1 {
        return Err(OrderbookError::NotEnoughAccountKeys);
    }
    if accounts[0].owner != *program_id {
        return Err(OrderbookError::InvalidOwner);
    }
    let authority = accounts[0].key;
    match initialize_ledger(&mut accounts[0].data, &authority) {
        Ok(_) => Ok(()),
        Err(error) => Err(error),
    }
}

/// The command `RecordEvent`: records one event, stamped with
/// `unix_timestamp`, in the ledger of the first account.
///
/// The first account must be owned by `program_id` and hold a ledger in
/// use; a second account, the observed market, must be there and is not
/// looked at. Price, size and market name are recorded as given. On failure
/// no account changes.
pub fn process_record_event(
    program_id: &Pubkey,
    accounts: &mut Vec<AccountInfo>,
    market_name: String,
    price: u64,
    size: u64,
    is_bid: bool,
    event_type: OrderbookEventType,
    unix_timestamp: i64,
) -> (done: Result<(), OrderbookError>)
    ensures
        match record_event_outcome(
            program_id@,
            old(accounts)@,
            stamped_event(unix_timestamp, market_name@, price, size, is_bid, event_type),
        ) {
            Ok(region) => done is Ok && committed(old(accounts)@, final(accounts)@, region),
            Err(error) => done == Err::<(), OrderbookError>(error) && final(accounts)@ == old(
                accounts,
            )@,
        },
        old(accounts).len() >= 2 && old(accounts)[0].owner@ != program_id@ ==> done == Err::<
            (),
            OrderbookError,
        >(OrderbookError::InvalidOwner),
{
    if accounts.len() < 2 {
        return Err(OrderbookError::NotEnoughAccountKeys);
    }
    if accounts[0].owner != *program_id {
        return Err(OrderbookError::InvalidOwner);
    }
    let event = OrderbookEvent {
        timestamp: unix_timestamp,
        market_name,
        price,
        size,
        is_bid,
        event_type,
    };
    match append_event(&mut accounts[0].data, event) {
        Ok(_) => Ok(()),
        Err(error) => Err(error),
    }
}

/// Carries out the request `instruction_data` on `accounts`.
///
/// `unix_timestamp` is the host's clock at the time of the call; it stamps
/// the event that `RecordEvent` records and plays no part in `Initialize`.
/// A request that carries no command fails with `InvalidInstruction`. On
/// failure no account changes.
pub fn process_instruction(
    program_id: &Pubkey,
    accounts: &mut Vec<AccountInfo>,
    instruction_data: &[u8],
    unix_timestamp: i64,
) -> (done: Result<(), OrderbookError>)
    ensures
        match instruction_outcome(program_id@, old(accounts)@, instruction_data@, unix_timestamp) {
            Ok(region) => done is Ok && committed(old(accounts)@, final(accounts)@, region),
            Err(error) => done == Err::<(), OrderbookError>(error) && final(accounts)@ == old(
                accounts,
            )@,
        },
{
    match OrderbookInstruction::decode(instruction_data) {
        Err(error) => Err(error),
        Ok(OrderbookInstruction::Initialize) => process_initialize(program_id, accounts),
        Ok(OrderbookInstruction::RecordEvent { market_name, price, size, is_bid, event_type }) => {
            process_record_event(
                program_id,
                accounts,
                market_name,
                price,
                size,
                is_bid,
                event_type,
                unix_timestamp,
            )
        },
    }
}

} // verus!
