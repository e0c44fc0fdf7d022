//! The two state transitions of a ledger, on the bytes of its storage
//! region.
//!
//! A region has a fixed size. An operation either commits the whole new
//! image of the ledger to it or fails and leaves every byte as it was; it
//! never writes a part. What an operation does is given by a spec function
//! from the region before the call to the error or to the region's new
//! bytes, and the executable function is proved to do just that.
//!
//! The operations take no lock and carry no version: the host must run the
//! operations on one region one after the other.

use crate::error::OrderbookError;
use crate::event::{EventModel, OrderbookEvent, EVENT_FIXED_BYTES};
use crate::monitor::{
    encode_monitor, event_models, lemma_encode_monitor_len, lemma_monitor_canonical,
    lemma_monitor_round_trip, monitor_fits, monitor_len, stored_monitor, MonitorModel,
    OrderbookMonitor, HEADER_BYTES,
};
use crate::pubkey::Pubkey;
use vstd::prelude::*;
use vstd::utf8::*;

verus! {

/// `count` zero bytes.
pub open spec fn zeros(count: nat) -> Seq<u8> {
    Seq::new(count, |i: int| 0u8)
}

/// A region of `size` bytes right after initialization for `authority`:
/// the empty ledger, then zeros up to the end of the region.
pub open spec fn initialized_region(authority: Seq<u8>, size: nat) -> Seq<u8> {
    encode_monitor(MonitorModel::fresh(authority)) + zeros((size - HEADER_BYTES) as nat)
}

/// The outcome of initializing `region` as the ledger of `authority`: the
/// region's new bytes, or why it stays as it is.
///
/// A region that already holds an initialized ledger is refused; one that
/// is too small for an empty ledger is, too.
pub open spec fn initialize_region(region: Seq<u8>, authority: Seq<u8>) -> Result<
    Seq<u8>,
    OrderbookError,
> {
    if stored_monitor(region) matches Some(ledger) && ledger.initialized {
        Err(OrderbookError::AlreadyInitialized)
    } else if region.len() < HEADER_BYTES {
        Err(OrderbookError::CapacityExceeded)
    } else {
        Ok(initialized_region(authority, region.len()))
    }
}

/// The outcome of recording `event` in the ledger that `region` holds: the
/// region's new bytes, or why it stays as it is.
///
/// The region must hold a ledger in use. The ledger with the event added
/// must fit the region; its image then replaces the front of the region,
/// and the bytes behind the image stay.
pub open spec fn append_to_region(region: Seq<u8>, event: EventModel) -> Result<
    Seq<u8>,
    OrderbookError,
> {
    match stored_monitor(region) {
        None => Err(OrderbookError::DeserializationFailure),
        Some(ledger) => {
            let grown = ledger.with_event(event);
            if !ledger.is_ledger() {
                Err(OrderbookError::DeserializationFailure)
            } else if !monitor_fits(grown) || monitor_len(grown) > region.len() {
                Err(OrderbookError::CapacityExceeded)
            } else {
                Ok(encode_monitor(grown) + region.skip(monitor_len(grown) as int))
            }
        },
    }
}

/// The size of a region that takes `capacity` events whose market names
/// have at most `max_market_name_len` bytes each: the header, then for each
/// event its fixed part and the longest name.
pub open spec fn space_for(capacity: nat, max_market_name_len: nat) -> nat {
    HEADER_BYTES as nat + capacity * (EVENT_FIXED_BYTES as nat + max_market_name_len)
}

/// Computes `space_for`: the size to create a region with. `None` where
/// that size is more than a `usize` holds.
pub fn required_space(capacity: usize, max_market_name_len: usize) -> (size: Option<usize>)
    ensures
        match size {
            Some(bytes) => bytes == space_for(capacity as nat, max_market_name_len as nat),
            None => space_for(capacity as nat, max_market_name_len as nat) > usize::MAX,
        },
{
    let per_event = match max_market_name_len.checked_add(EVENT_FIXED_BYTES) {
        Some(bytes) => bytes,
        None => {
            if capacity == 0 {
                return Some(HEADER_BYTES);
            }
            assert(capacity * (EVENT_FIXED_BYTES as nat + max_market_name_len as nat)
                >= EVENT_FIXED_BYTES as nat + max_market_name_len as nat) by (nonlinear_arith)
                requires
                    capacity >= 1,
            ;
            return None;
        },
    };
    match capacity.checked_mul(per_event) {
        Some(events) => events.checked_add(HEADER_BYTES),
        None => None,
    }
}

/// Copies `image` over the front of `region`; the bytes behind it stay.
fn write_front(region: &mut Vec<u8>, image: &Vec<u8>)
    requires
        image.len() <= old(region).len(),
    ensures
        final(region)@ == image@ + old(region)@.skip(image.len() as int),
{
    let mut i: usize = 0;
    while i < image.len()
        invariant
            i <= image.len() <= region.len(),
            region.len() == old(region).len(),
            forall|j: int| 0 <= j < i ==> region[j] == image[j],
            forall|j: int| i <= j < region.len() ==> region[j] == old(region)[j],
        decreases image.len() - i,
    {
        region.set(i, image[i]);
        i += 1;
    }
}

/// Sets every byte of `region` from `from` on to zero.
fn clear_from(region: &mut Vec<u8>, from: usize)
    requires
        from <= old(region).len(),
    ensures
        final(region)@ == old(region)@.take(from as int) + zeros((old(region).len() - from) as nat),
{
    let mut i: usize = from;
    while i < region.len()
        invariant
            from <= i <= region.len(),
            region.len() == old(region).len(),
            forall|j: int| 0 <= j < from ==> region[j] == old(region)[j],
            forall|j: int| from <= j < i ==> region[j] == 0,
        decreases region.len() - i,
    {
        region.set(i, 0);
        i += 1;
    }
}

/// Makes `region` the empty ledger of `authority` and returns that ledger.
///
/// On success the whole region is rewritten: the image of the empty ledger,
/// then zeros. A region that already holds an initialized ledger is refused
/// with `AlreadyInitialized`, one too small for an empty ledger with
/// `CapacityExceeded`; then not one byte of it changes.
pub fn initialize_ledger(region: &mut Vec<u8>, authority: &Pubkey) -> (done: Result<
    OrderbookMonitor,
    OrderbookError,
>)
    ensures
        match initialize_region(old(region)@, authority@) {
            Ok(bytes) => {
                &&& done matches Ok(ledger)
                &&& ledger@ == MonitorModel::fresh(authority@)
                &&& final(region)@ == bytes
                &&& final(region).len() == old(region).len()
                &&& stored_monitor(bytes) == Some(ledger@)
            },
            Err(error) => {
                &&& done matches Err(reported)
                &&& reported == error
                &&& *final(region) == *old(region)
            },
        },
{
    if let Ok(found) = OrderbookMonitor::decode(region.as_slice()) {
        if found.initialized {
            return Err(OrderbookError::AlreadyInitialized);
        }
    }
    if region.len() < HEADER_BYTES {
        return Err(OrderbookError::CapacityExceeded);
    }
    let ledger = OrderbookMonitor {
        initialized: true,
        authority: *authority,
        event_count: 0,
        events: Vec::new(),
    };
    proof {
        lemma_encode_monitor_len(ledger@);
        lemma_monitor_round_trip(ledger@, zeros((region.len() - HEADER_BYTES) as nat));
    }
    match ledger.encode() {
        Ok(image) => {
            write_front(region, &image);
            clear_from(region, HEADER_BYTES);
            Ok(ledger)
        },
        Err(error) => Err(error),
    }
}

/// Records `event` in the ledger that `region` holds and returns the ledger
/// as it then is.
///
/// On success the region holds the ledger it held before with `event` after
/// all earlier events: its count is one higher and is the number of its
/// events, and its authority is as it was. A region that holds no ledger in
/// use is refused with `DeserializationFailure`, a ledger that would outgrow
/// the region with `CapacityExceeded`; then not one byte of the region
/// changes. Price, size and market name are recorded as given.
pub fn append_event(region: &mut Vec<u8>, event: OrderbookEvent) -> (done: Result<
    OrderbookMonitor,
    OrderbookError,
>)
    ensures
        match append_to_region(old(region)@, event@) {
            Ok(bytes) => {
                &&& done matches Ok(ledger)
                &&& stored_monitor(old(region)@) matches Some(before)
                &&& ledger@ == before.with_event(event@)
                &&& ledger@.is_ledger()
                &&& ledger@.authority == before.authority
                &&& ledger@.event_count == before.event_count + 1
                &&& final(region)@ == bytes
                &&& final(region).len() == old(region).len()
                &&& stored_monitor(bytes) == Some(ledger@)
            },
            Err(error) => {
                &&& done matches Err(reported)
                &&& reported == error
                &&& *final(region) == *old(region)
            },
        },
{
    let mut ledger = match OrderbookMonitor::decode(region.as_slice()) {
        Ok(found) => found,
        Err(error) => { return Err(error); },
    };
    let ghost before = ledger@;
    proof {
        lemma_monitor_canonical(region@);
    }
    if !ledger.initialized || ledger.event_count != ledger.events.len() as u64 {
        return Err(OrderbookError::DeserializationFailure);
    }
    assert(event_models(ledger.events@.push(event)) =~= before.events.push(event@));
    ledger.events.push(event);
    ledger.event_count = ledger.event_count + 1;
    let image = match ledger.encode() {
        Ok(image) => image,
        Err(error) => { return Err(error); },
    };
    proof {
        lemma_encode_monitor_len(ledger@);
        lemma_monitor_round_trip(ledger@, region@.skip(image.len() as int));
    }
    if image.len() > region.len() {
        return Err(OrderbookError::CapacityExceeded);
    }
    write_front(region, &image);
    Ok(ledger)
}

/// Bounds that a caller may put on the events it lets into a ledger. The
/// ledger itself records any price, size and market name.
#[derive(Clone, Copy, Debug, PartialEq, Eq, Structural)]
pub struct EventLimits {
    /// The most bytes that the UTF-8 form of a market name may have.
    pub max_market_name_len: usize,
    /// The highest price.
    pub max_price: u64,
    /// The largest size.
    pub max_size: u64,
}

/// Whether `event` is within `limits`.
pub open spec fn within_limits(limits: EventLimits, event: EventModel) -> bool {
    &&& encode_utf8(event.market_name).len() <= limits.max_market_name_len
    &&& event.price <= limits.max_price
    &&& event.size <= limits.max_size
}

impl EventLimits {
    /// Limits that let every event through.
    pub fn none() -> (limits: EventLimits)
        ensures
            limits == (EventLimits {
                max_market_name_len: usize::MAX,
                max_price: u64::MAX,
                max_size: u64::MAX,
            }),
    {
        EventLimits { max_market_name_len: usize::MAX, max_price: u64::MAX, max_size: u64::MAX }
    }

    /// Whether `event` is within these limits.
    pub fn permits(&self, event: &OrderbookEvent) -> (permitted: bool)
        ensures
            permitted == within_limits(*self, event@),
    {
        event.market_name.as_str().as_bytes().len() <= self.max_market_name_len && event.price
            <= self.max_price && event.size <= self.max_size
    }
}

/// Records `event` as `append_event` does, if it is within `limits`;
/// otherwise refuses it with `InvalidInstruction` and leaves the region as
/// it was.
pub fn append_event_within(
    region: &mut Vec<u8>,
    event: OrderbookEvent,
    limits: &EventLimits,
) -> (done: Result<OrderbookMonitor, OrderbookError>)
    ensures
        !within_limits(*limits, event@) ==> {
            &&& done matches Err(reported)
            &&& reported == OrderbookError::InvalidInstruction
            &&& *final(region) == *old(region)
        },
        within_limits(*limits, event@) ==> match append_to_region(old(region)@, event@) {
            Ok(bytes) => {
                &&& done matches Ok(ledger)
                &&& stored_monitor(old(region)@) matches Some(before)
                &&& ledger@ == before.with_event(event@)
                &&& final(region)@ == bytes
                &&& stored_monitor(bytes) == Some(ledger@)
            },
            Err(error) => {
                &&& done matches Err(reported)
                &&& reported == error
                &&& *final(region) == *old(region)
            },
        },
{
    if !limits.permits(&event) {
        return Err(OrderbookError::InvalidInstruction);
    }
    append_event(region, event)
}

} // verus!
