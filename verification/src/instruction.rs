//! The two commands of the program and the bytes that carry them.
//!
//! A request is one byte that names the command, followed by the command's
//! fields: none for `Initialize`; market name, price, size, side and kind of
//! event for `RecordEvent`. Nothing may follow the last field.

use crate::error::OrderbookError;
use crate::event::{bool_byte, event_type_of_tag, event_type_tag, OrderbookEventType};
use crate::text::{get_utf8, lemma_text_round_trip, put_text, text_bytes, text_fits};
use crate::wire::{
    get_u32, get_u64, lemma_le_bytes_len, lemma_le_bytes_of_value, lemma_le_value_bound,
    lemma_le_value_of_bytes, lemma_radix_pow_values, put_u64, u32_at, u64_at, u64_bytes,
};
use vstd::prelude::*;
use vstd::std_specs::cmp::PartialEqSpecImpl;
use vstd::utf8::*;

verus! {

/// A command to the program.
#[derive(Debug)]
pub enum OrderbookInstruction {
    /// Make the first account an empty ledger.
    ///
    /// Accounts: the writable ledger account.
    Initialize,
    /// Record one event in the ledger.
    ///
    /// Accounts: the writable ledger account, then the market that was
    /// observed.
    RecordEvent {
        market_name: String,
        price: u64,
        size: u64,
        is_bid: bool,
        event_type: OrderbookEventType,
    },
}

/// A command as a mathematical value.
pub enum InstructionModel {
    Initialize,
    RecordEvent {
        market_name: Seq<char>,
        price: u64,
        size: u64,
        is_bid: bool,
        event_type: OrderbookEventType,
    },
}

impl View for OrderbookInstruction {
    type V = InstructionModel;

    open spec fn view(&self) -> InstructionModel {
        match self {
            OrderbookInstruction::Initialize => InstructionModel::Initialize,
            OrderbookInstruction::RecordEvent { market_name, price, size, is_bid, event_type } => {
                InstructionModel::RecordEvent {
                    market_name: market_name@,
                    price: *price,
                    size: *size,
                    is_bid: *is_bid,
                    event_type: *event_type,
                }
            },
        }
    }
}

impl PartialEq for OrderbookInstruction {
    fn eq(&self, other: &OrderbookInstruction) -> (equal: bool) {
        match (self, other) {
            (OrderbookInstruction::Initialize, OrderbookInstruction::Initialize) => true,
            (
                OrderbookInstruction::RecordEvent { market_name, price, size, is_bid, event_type },
                OrderbookInstruction::RecordEvent {
                    market_name: other_name,
                    price: other_price,
                    size: other_size,
                    is_bid: other_is_bid,
                    event_type: other_type,
                },
            ) => {
                *market_name == *other_name && *price == *other_price && *size == *other_size
                    && *is_bid == *other_is_bid && *event_type == *other_type
            },
            _ => false,
        }
    }
}

impl PartialEqSpecImpl for OrderbookInstruction {
    open spec fn obeys_eq_spec() -> bool {
        true
    }

    open spec fn eq_spec(&self, other: &OrderbookInstruction) -> bool {
        self@ == other@
    }
}

/// The byte that names the command `Initialize`.
pub const INITIALIZE_TAG: u8 = 0;

/// The byte that names the command `RecordEvent`.
pub const RECORD_EVENT_TAG: u8 = 1;

/// Whether `command` has a stored form: the market name, if it has one,
/// must be short enough for the length field.
pub open spec fn instruction_fits(command: InstructionModel) -> bool {
    match command {
        InstructionModel::Initialize => true,
        InstructionModel::RecordEvent { market_name, .. } => text_fits(market_name),
    }
}

/// The bytes that carry `command`.
pub open spec fn encode_instruction(command: InstructionModel) -> Seq<u8> {
    match command {
        InstructionModel::Initialize => seq![INITIALIZE_TAG],
        InstructionModel::RecordEvent { market_name, price, size, is_bid, event_type } => {
            seq![RECORD_EVENT_TAG] + text_bytes(market_name) + u64_bytes(price) + u64_bytes(size)
                + seq![bool_byte(is_bid)] + seq![event_type_tag(event_type)]
        },
    }
}

/// The command that `bytes` carry; `None` where they carry none: where the
/// first byte names no command, a field is missing or malformed, or bytes
/// are left over.
pub open spec fn decode_instruction(bytes: Seq<u8>) -> Option<InstructionModel> {
    if bytes.len() == 0 {
        None
    } else if bytes[0] == INITIALIZE_TAG {
        if bytes.len() == 1 {
            Some(InstructionModel::Initialize)
        } else {
            None
        }
    } else if bytes[0] == RECORD_EVENT_TAG {
        if bytes.len() < 5 {
            None
        } else {
            let tail = 5 + u32_at(bytes, 1) as int;
            if bytes.len() != tail + 18 {
                None
            } else if !valid_utf8(bytes.subrange(5, tail)) || bytes[tail + 16] > 1 || bytes[tail
                + 17] > 2 {
                None
            } else {
                Some(
                    InstructionModel::RecordEvent {
                        market_name: decode_utf8(bytes.subrange(5, tail)),
                        price: u64_at(bytes, tail),
                        size: u64_at(bytes, tail + 8),
                        is_bid: bytes[tail + 16] == 1,
                        event_type: event_type_of_tag(bytes[tail + 17]),
                    },
                )
            }
        }
    } else {
        None
    }
}

/// A command is read back from its bytes as it was written.
pub proof fn lemma_instruction_round_trip(command: InstructionModel)
    requires
        instruction_fits(command),
    ensures
        decode_instruction(encode_instruction(command)) == Some(command),
{
    match command {
        InstructionModel::Initialize => {},
        InstructionModel::RecordEvent { market_name, price, size, is_bid, event_type } => {
            let bytes = encode_instruction(command);
            let name = text_bytes(market_name);
            let utf8 = encode_utf8(market_name);
            let n = utf8.len() as int;
            let tail = 5 + n;
            lemma_radix_pow_values();
            lemma_text_round_trip(market_name, Seq::empty());
            lemma_le_bytes_len(price as nat, 8);
            lemma_le_bytes_len(size as nat, 8);
            lemma_le_value_of_bytes(price as nat, 8);
            lemma_le_value_of_bytes(size as nat, 8);
            assert(bytes.subrange(1, 5) =~= name.subrange(0, 4));
            assert(bytes.subrange(5, tail) =~= name.subrange(4, 4 + n));
            assert(bytes.subrange(tail, tail + 8) =~= u64_bytes(price));
            assert(bytes.subrange(tail + 8, tail + 16) =~= u64_bytes(size));
        },
    }
}

/// Whatever is read as a command was written as that command: no command is
/// carried by two different byte strings.
pub proof fn lemma_instruction_canonical(bytes: Seq<u8>)
    ensures
        decode_instruction(bytes) matches Some(command) ==> instruction_fits(command)
            && encode_instruction(command) == bytes,
{
    if decode_instruction(bytes) is Some && bytes[0] == RECORD_EVENT_TAG {
        let tail = 5 + u32_at(bytes, 1) as int;
        lemma_radix_pow_values();
        decode_utf8_encode_utf8(bytes.subrange(5, tail));
        lemma_le_value_bound(bytes.subrange(1, 5));
        lemma_le_bytes_of_value(bytes.subrange(1, 5));
        lemma_le_value_bound(bytes.subrange(tail, tail + 8));
        lemma_le_bytes_of_value(bytes.subrange(tail, tail + 8));
        lemma_le_value_bound(bytes.subrange(tail + 8, tail + 16));
        lemma_le_bytes_of_value(bytes.subrange(tail + 8, tail + 16));
    }
}

impl OrderbookInstruction {
    /// Whether this command has a stored form.
    pub fn fits(&self) -> (fits: bool)
        ensures
            fits == instruction_fits(self@),
    {
        match self {
            OrderbookInstruction::Initialize => true,
            OrderbookInstruction::RecordEvent { market_name, .. } => {
                market_name.as_str().as_bytes().len() <= u32::MAX as usize
            },
        }
    }

    /// The bytes that carry this command, which must have a stored form.
    pub fn to_bytes(&self) -> (bytes: Vec<u8>)
        requires
            instruction_fits(self@),
        ensures
            bytes@ == encode_instruction(self@),
    {
        let mut out: Vec<u8> = Vec::new();
        match self {
            OrderbookInstruction::Initialize => {
                out.push(INITIALIZE_TAG);
            },
            OrderbookInstruction::RecordEvent { market_name, price, size, is_bid, event_type } => {
                out.push(RECORD_EVENT_TAG);
                put_text(&mut out, market_name.as_str());
                put_u64(&mut out, *price);
                put_u64(&mut out, *size);
                out.push(if *is_bid { 1 } else { 0 });
                out.push(event_type.tag());
            },
        }
        out
    }

    /// The bytes that carry this command. It fails with `CapacityExceeded`
    /// exactly when there are none: when the market name is longer than a
    /// four-byte length can count.
    pub fn encode(&self) -> (carried: Result<Vec<u8>, OrderbookError>)
        ensures
            match carried {
                Ok(bytes) => instruction_fits(self@) && bytes@ == encode_instruction(self@),
                Err(error) => !instruction_fits(self@) && error
                    == OrderbookError::CapacityExceeded,
            },
    {
        if self.fits() {
            Ok(self.to_bytes())
        } else {
            Err(OrderbookError::CapacityExceeded)
        }
    }

    /// Reads the command that `bytes` carry. It fails with
    /// `InvalidInstruction` exactly when they carry none.
    pub fn decode(bytes: &[u8]) -> (read: Result<OrderbookInstruction, OrderbookError>)
        ensures
            match read {
                Ok(command) => decode_instruction(bytes@) == Some(command@),
                Err(error) => decode_instruction(bytes@) is None && error
                    == OrderbookError::InvalidInstruction,
            },
    {
        if bytes.len() == 0 {
            return Err(OrderbookError::InvalidInstruction);
        }
        if bytes[0] == INITIALIZE_TAG {
            if bytes.len() == 1 {
                return Ok(OrderbookInstruction::Initialize);
            }
            return Err(OrderbookError::InvalidInstruction);
        }
        if bytes[0] != RECORD_EVENT_TAG || bytes.len() < 5 {
            return Err(OrderbookError::InvalidInstruction);
        }
        let name_len = get_u32(bytes, 1) as usize;
        let left = bytes.len() - 5;
        if left < name_len || left - name_len != 18 {
            return Err(OrderbookError::InvalidInstruction);
        }
        let tail = 5 + name_len;
        let market_name = match get_utf8(bytes, 5, tail) {
            Some(text) => text,
            None => { return Err(OrderbookError::InvalidInstruction); },
        };
        let price = get_u64(bytes, tail);
        let size = get_u64(bytes, tail + 8);
        let side = bytes[tail + 16];
        if side > 1 {
            return Err(OrderbookError::InvalidInstruction);
        }
        let event_type = match OrderbookEventType::from_tag(bytes[tail + 17]) {
            Some(kind) => kind,
            None => { return Err(OrderbookError::InvalidInstruction); },
        };
        Ok(
            OrderbookInstruction::RecordEvent {
                market_name,
                price,
                size,
                is_bid: side == 1,
                event_type,
            },
        )
    }
}

} // verus!
