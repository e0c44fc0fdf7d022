//! What holds of a ledger over its whole life: from the one initialization
//! through every event recorded after it.

use crate::error::OrderbookError;
use crate::event::EventModel;
use crate::ledger::{append_to_region, initialize_region, space_for, zeros};
use crate::monitor::{
    events_len, lemma_encode_monitor_len, lemma_monitor_canonical, lemma_monitor_round_trip,
    monitor_len, stored_monitor, MonitorModel, HEADER_BYTES,
};
use crate::processor::{initialize_outcome, record_event_outcome, AccountInfo};
use crate::pubkey::PUBKEY_BYTES;
use vstd::prelude::*;
use vstd::utf8::*;

verus! {

/// The region after `events` were recorded in it one by one, oldest first;
/// the first failure, if one of them could not be recorded.
pub open spec fn replay(region: Seq<u8>, events: Seq<EventModel>) -> Result<
    Seq<u8>,
    OrderbookError,
>
    decreases events.len(),
{
    if events.len() == 0 {
        Ok(region)
    } else {
        match replay(region, events.drop_last()) {
            Ok(earlier) => append_to_region(earlier, events.last()),
            Err(error) => Err(error),
        }
    }
}

/// After a successful initialization the region, still of the same size,
/// holds the empty ledger of the given authority: initialized, with count
/// zero and no events.
pub proof fn lemma_initialized_region_holds_empty_ledger(region: Seq<u8>, authority: Seq<u8>)
    requires
        authority.len() == PUBKEY_BYTES,
        initialize_region(region, authority) is Ok,
    ensures
        initialize_region(region, authority)->Ok_0.len() == region.len(),
        stored_monitor(initialize_region(region, authority)->Ok_0) == Some(
            MonitorModel::fresh(authority),
        ),
        MonitorModel::fresh(authority).is_ledger(),
{
    let fresh = MonitorModel::fresh(authority);
    let padding = zeros((region.len() - HEADER_BYTES) as nat);
    lemma_encode_monitor_len(fresh);
    lemma_monitor_round_trip(fresh, padding);
}

/// After an event was recorded the region, still of the same size, holds
/// the ledger it held before with that one event added at the end: the
/// count is one higher and equals the number of events, and the authority
/// and all earlier events are as they were.
pub proof fn lemma_recorded_event_is_last(region: Seq<u8>, event: EventModel)
    requires
        append_to_region(region, event) is Ok,
    ensures
        stored_monitor(region) is Some,
        append_to_region(region, event)->Ok_0.len() == region.len(),
        stored_monitor(append_to_region(region, event)->Ok_0) == Some(
            stored_monitor(region)->0.with_event(event),
        ),
        stored_monitor(region)->0.with_event(event).is_ledger(),
        stored_monitor(region)->0.with_event(event).event_count == stored_monitor(
            region,
        )->0.event_count + 1,
{
    let before = stored_monitor(region)->0;
    let grown = before.with_event(event);
    lemma_monitor_canonical(region);
    lemma_encode_monitor_len(grown);
    lemma_monitor_round_trip(grown, region.skip(monitor_len(grown) as int));
}

/// The count invariant and the immutability of the authority, for a whole
/// history: after one initialization and any number of recorded events the
/// region holds exactly those events, in the order in which they were
/// recorded, under the authority it was initialized for, and its count is
/// their number.
pub proof fn lemma_history(region: Seq<u8>, authority: Seq<u8>, events: Seq<EventModel>)
    requires
        authority.len() == PUBKEY_BYTES,
        initialize_region(region, authority) is Ok,
        replay(initialize_region(region, authority)->Ok_0, events) is Ok,
    ensures
        events.len() <= u32::MAX,
        replay(initialize_region(region, authority)->Ok_0, events)->Ok_0.len() == region.len(),
        stored_monitor(replay(initialize_region(region, authority)->Ok_0, events)->Ok_0) == Some(
            MonitorModel {
                initialized: true,
                authority,
                event_count: events.len() as u64,
                events,
            },
        ),
    decreases events.len(),
{
    let start = initialize_region(region, authority)->Ok_0;
    if events.len() == 0 {
        lemma_initialized_region_holds_empty_ledger(region, authority);
        assert(events =~= Seq::<EventModel>::empty());
    } else {
        let earlier = replay(start, events.drop_last())->Ok_0;
        lemma_history(region, authority, events.drop_last());
        lemma_recorded_event_is_last(earlier, events.last());
        assert(events.drop_last().push(events.last()) =~= events);
    }
}

/// Events whose market names have at most `max_market_name_len` bytes take
/// no more room than `space_for` sets aside for them.
proof fn lemma_events_len_bound(events: Seq<EventModel>, max_market_name_len: nat)
    requires
        forall|i: int|
            0 <= i < events.len() ==> encode_utf8((#[trigger] events[i]).market_name).len()
                <= max_market_name_len,
    ensures
        events_len(events) <= events.len() * (30 + max_market_name_len),
    decreases events.len(),
{
    if events.len() > 0 {
        let others = events.drop_first();
        assert forall|i: int| 0 <= i < others.len() implies encode_utf8(
            (#[trigger] others[i]).market_name,
        ).len() <= max_market_name_len by {
        }
        lemma_events_len_bound(others, max_market_name_len);
        assert((events.len() - 1) * (30 + max_market_name_len) + (30 + max_market_name_len)
            == events.len() * (30 + max_market_name_len)) by (nonlinear_arith);
    }
}

/// A region never outgrows its size, and a region of the right size never
/// refuses: after its initialization, a region of at least
/// `space_for(n, max_market_name_len)` bytes takes any `n` events whose
/// market names have at most `max_market_name_len` bytes each.
pub proof fn lemma_sized_region_takes_events(
    region: Seq<u8>,
    authority: Seq<u8>,
    events: Seq<EventModel>,
    max_market_name_len: nat,
)
    requires
        authority.len() == PUBKEY_BYTES,
        initialize_region(region, authority) is Ok,
        events.len() <= u32::MAX,
        max_market_name_len <= u32::MAX,
        forall|i: int|
            0 <= i < events.len() ==> encode_utf8((#[trigger] events[i]).market_name).len()
                <= max_market_name_len,
        region.len() >= space_for(events.len(), max_market_name_len),
    ensures
        replay(initialize_region(region, authority)->Ok_0, events) is Ok,
    decreases events.len(),
{
    if events.len() > 0 {
        let start = initialize_region(region, authority)->Ok_0;
        let earlier = events.drop_last();
        assert((events.len() - 1) * (30 + max_market_name_len) <= events.len() * (30
            + max_market_name_len)) by (nonlinear_arith);
        lemma_sized_region_takes_events(region, authority, earlier, max_market_name_len);
        lemma_history(region, authority, earlier);
        let held = replay(start, earlier)->Ok_0;
        let grown = stored_monitor(held)->0.with_event(events.last());
        assert(grown.events =~= events);
        lemma_events_len_bound(events, max_market_name_len);
    }
}

/// No event can be recorded in a region that holds no initialized ledger:
/// not in one that was never written, not in one filled with zeros.
pub proof fn lemma_uninitialized_region_refuses(region: Seq<u8>, event: EventModel)
    requires
        !(stored_monitor(region) matches Some(ledger) && ledger.initialized),
    ensures
        append_to_region(region, event) == Err::<Seq<u8>, OrderbookError>(
            OrderbookError::DeserializationFailure,
        ),
{
}

/// A region filled with zeros holds no initialized ledger.
pub proof fn lemma_zero_region_is_uninitialized(size: nat)
    ensures
        !(stored_monitor(zeros(size)) matches Some(ledger) && ledger.initialized),
{
}

/// An event that would make the ledger larger than its region is refused
/// with `CapacityExceeded`.
pub proof fn lemma_full_region_refuses(region: Seq<u8>, event: EventModel)
    requires
        stored_monitor(region) matches Some(ledger) && ledger.is_ledger() && monitor_len(
            ledger.with_event(event),
        ) > region.len(),
    ensures
        append_to_region(region, event) == Err::<Seq<u8>, OrderbookError>(
            OrderbookError::CapacityExceeded,
        ),
{
}

/// The ownership gate: whatever the command, a request whose first account
/// is owned by another program fails with `InvalidOwner`.
pub proof fn lemma_foreign_owner_refused(
    program_id: Seq<u8>,
    accounts: Seq<AccountInfo>,
    event: EventModel,
)
    requires
        accounts.len() >= 1,
        accounts[0].owner@ != program_id,
    ensures
        initialize_outcome(program_id, accounts) == Err::<Seq<u8>, OrderbookError>(
            OrderbookError::InvalidOwner,
        ),
        accounts.len() >= 2 ==> record_event_outcome(program_id, accounts, event) == Err::<
            Seq<u8>,
            OrderbookError,
        >(OrderbookError::InvalidOwner),
{
}

} // verus!
