//! An append-only ledger of orderbook events, kept in the fixed storage
//! region of one account.
//!
//! The ledger has two operations: `Initialize` makes a region the empty
//! ledger of its account, `RecordEvent` adds one event at the end. Both are
//! all or nothing. The byte layout of the ledger and of the requests is
//! part of the interface, and reading is proved to invert writing.

pub mod client;
pub mod error;
pub mod event;
pub mod explorer;
pub mod history;
pub mod instruction;
pub mod ledger;
pub mod monitor;
pub mod processor;
pub mod pubkey;
pub mod text;
pub mod wire;

pub use crate::error::OrderbookError;
pub use crate::event::{OrderbookEvent, OrderbookEventType};
pub use crate::instruction::OrderbookInstruction;
pub use crate::monitor::OrderbookMonitor;
pub use crate::processor::{
    process_initialize, process_instruction, process_record_event, AccountInfo,
};
pub use crate::pubkey::Pubkey;
