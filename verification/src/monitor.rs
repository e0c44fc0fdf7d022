//! The ledger itself: what it holds, how it is stored, and the proof that
//! storing loses nothing.
//!
//! A ledger is stored as one byte for the initialization flag, the 32 bytes
//! of its authority, the event count (8 bytes), the number of stored events
//! (4 bytes) and then the events, one after the other in the order in which
//! they were recorded.

use crate::error::OrderbookError;
use crate::event::{
    bool_byte, decode_event, encode_event, event_fits, event_len, lemma_encode_event_len,
    lemma_event_canonical, lemma_event_round_trip, put_event, read_event, EventModel,
    OrderbookEvent,
};
use crate::pubkey::{Pubkey, PUBKEY_BYTES};
use crate::wire::{
    get_u32, get_u64, lemma_le_bytes_len, lemma_le_bytes_of_value, lemma_le_value_bound,
    lemma_le_value_of_bytes, lemma_radix_pow_values, put_u32, put_u64, u32_at, u32_bytes, u64_at,
    u64_bytes,
};
use vstd::prelude::*;

verus! {

/// The persisted ledger of one storage region.
#[derive(Debug)]
pub struct OrderbookMonitor {
    /// Whether the region has been initialized.
    pub initialized: bool,
    /// The account that owns the ledger; set once, at initialization.
    pub authority: Pubkey,
    /// The number of events recorded so far.
    pub event_count: u64,
    /// The recorded events, oldest first.
    pub events: Vec<OrderbookEvent>,
}

/// A ledger as a mathematical value.
pub struct MonitorModel {
    pub initialized: bool,
    pub authority: Seq<u8>,
    pub event_count: u64,
    pub events: Seq<EventModel>,
}

/// The events of a ledger as mathematical values.
pub open spec fn event_models(events: Seq<OrderbookEvent>) -> Seq<EventModel> {
    events.map_values(|event: OrderbookEvent| event@)
}

impl View for OrderbookMonitor {
    type V = MonitorModel;

    open spec fn view(&self) -> MonitorModel {
        MonitorModel {
            initialized: self.initialized,
            authority: self.authority@,
            event_count: self.event_count,
            events: event_models(self.events@),
        }
    }
}

/// The number of bytes of a stored ledger before its first event.
pub const HEADER_BYTES: usize = 45;

impl MonitorModel {
    /// The invariant of a ledger in use: it is initialized and its count is
    /// the number of events it holds.
    pub open spec fn is_ledger(self) -> bool {
        self.initialized && self.event_count == self.events.len()
    }

    /// The ledger that initialization creates for `authority`.
    pub open spec fn fresh(authority: Seq<u8>) -> MonitorModel {
        MonitorModel { initialized: true, authority, event_count: 0, events: Seq::empty() }
    }

    /// This ledger with `event` recorded after all others.
    pub open spec fn with_event(self, event: EventModel) -> MonitorModel {
        MonitorModel {
            initialized: self.initialized,
            authority: self.authority,
            event_count: (self.event_count + 1) as u64,
            events: self.events.push(event),
        }
    }
}

/// Whether each of `events` has a stored form.
pub open spec fn events_fit(events: Seq<EventModel>) -> bool {
    forall|i: int| 0 <= i < events.len() ==> event_fits(#[trigger] events[i])
}

/// Whether `ledger` has a stored form: the authority is an address, the
/// number of events fits the four bytes that store it, and each event has a
/// stored form.
pub open spec fn monitor_fits(ledger: MonitorModel) -> bool {
    &&& ledger.authority.len() == PUBKEY_BYTES
    &&& ledger.events.len() <= u32::MAX
    &&& events_fit(ledger.events)
}

/// The bytes that store `events`, one event after the other.
pub open spec fn encode_events(events: Seq<EventModel>) -> Seq<u8>
    decreases events.len(),
{
    if events.len() == 0 {
        Seq::empty()
    } else {
        encode_event(events[0]) + encode_events(events.drop_first())
    }
}

/// The number of bytes that store `events`.
pub open spec fn events_len(events: Seq<EventModel>) -> nat
    decreases events.len(),
{
    if events.len() == 0 {
        0
    } else {
        event_len(events[0]) + events_len(events.drop_first())
    }
}

/// The bytes that store `ledger`.
pub open spec fn encode_monitor(ledger: MonitorModel) -> Seq<u8> {
    seq![bool_byte(ledger.initialized)] + ledger.authority + u64_bytes(ledger.event_count)
        + u32_bytes(ledger.events.len() as u32) + encode_events(ledger.events)
}

/// The number of bytes that store `ledger`.
pub open spec fn monitor_len(ledger: MonitorModel) -> nat {
    HEADER_BYTES as nat + events_len(ledger.events)
}

/// The `count` events stored one after the other at the front of `bytes`,
/// with the bytes that follow them; `None` where `bytes` do not start with
/// that many stored events.
pub open spec fn decode_events(bytes: Seq<u8>, count: nat) -> Option<(Seq<EventModel>, Seq<u8>)>
    decreases count,
{
    if count == 0 {
        Some((Seq::empty(), bytes))
    } else {
        match decode_event(bytes) {
            None => None,
            Some((first, rest)) => match decode_events(rest, (count - 1) as nat) {
                None => None,
                Some((others, end)) => Some((seq![first] + others, end)),
            },
        }
    }
}

/// The ledger stored at the front of `bytes`, with the bytes that follow
/// it; `None` where `bytes` do not start with a stored ledger. Bytes after
/// the ledger are allowed: a region is as a rule larger than its ledger.
pub open spec fn decode_monitor(bytes: Seq<u8>) -> Option<(MonitorModel, Seq<u8>)> {
    if bytes.len() < HEADER_BYTES || bytes[0] > 1 {
        None
    } else {
        match decode_events(bytes.skip(HEADER_BYTES as int), u32_at(bytes, 41) as nat) {
            None => None,
            Some((events, rest)) => Some(
                (
                    MonitorModel {
                        initialized: bytes[0] == 1,
                        authority: bytes.subrange(1, 33),
                        event_count: u64_at(bytes, 33),
                        events,
                    },
                    rest,
                ),
            ),
        }
    }
}

/// The ledger that `bytes` hold, if they hold one.
pub open spec fn stored_monitor(bytes: Seq<u8>) -> Option<MonitorModel> {
    match decode_monitor(bytes) {
        Some((ledger, _)) => Some(ledger),
        None => None,
    }
}

/// Storing one more event appends its stored form.
pub proof fn lemma_encode_events_push(events: Seq<EventModel>, event: EventModel)
    ensures
        encode_events(events.push(event)) == encode_events(events) + encode_event(event),
        events_len(events.push(event)) == events_len(events) + event_len(event),
    decreases events.len(),
{
    let longer = events.push(event);
    if events.len() == 0 {
        assert(encode_events(longer.drop_first()) =~= Seq::<u8>::empty());
        assert(events_len(longer.drop_first()) == 0);
    } else {
        assert(longer.drop_first() =~= events.drop_first().push(event));
        lemma_encode_events_push(events.drop_first(), event);
    }
}

/// The stored form of a list of events has the length that `events_len`
/// gives.
pub proof fn lemma_encode_events_len(events: Seq<EventModel>)
    requires
        events_fit(events),
    ensures
        encode_events(events).len() == events_len(events),
    decreases events.len(),
{
    if events.len() > 0 {
        lemma_encode_event_len(events[0]);
        lemma_encode_events_len(events.drop_first());
    }
}

/// The stored form of a ledger has the length that `monitor_len` gives.
pub proof fn lemma_encode_monitor_len(ledger: MonitorModel)
    requires
        monitor_fits(ledger),
    ensures
        encode_monitor(ledger).len() == monitor_len(ledger),
{
    lemma_le_bytes_len(ledger.event_count as nat, 8);
    lemma_le_bytes_len(ledger.events.len() as u32 as nat, 4);
    lemma_encode_events_len(ledger.events);
}

/// Stored events are read back as they were written, whatever follows
/// them.
pub proof fn lemma_events_round_trip(events: Seq<EventModel>, rest: Seq<u8>)
    requires
        events_fit(events),
    ensures
        decode_events(encode_events(events) + rest, events.len()) == Some((events, rest)),
    decreases events.len(),
{
    if events.len() > 0 {
        let first = events[0];
        let others = events.drop_first();
        let after = encode_events(others) + rest;
        assert(encode_events(events) + rest =~= encode_event(first) + after);
        lemma_event_round_trip(first, after);
        lemma_events_round_trip(others, rest);
    }
}

/// Whatever is read as a list of events was stored as that list.
pub proof fn lemma_events_canonical(bytes: Seq<u8>, count: nat)
    ensures
        decode_events(bytes, count) matches Some((events, rest)) ==> {
            &&& events.len() == count
            &&& events_fit(events)
            &&& encode_events(events) + rest == bytes
        },
    decreases count,
{
    if decode_events(bytes, count) is Some && count > 0 {
        let (events, _) = decode_events(bytes, count)->0;
        let (_, after) = decode_event(bytes)->0;
        let (others, _) = decode_events(after, (count - 1) as nat)->0;
        lemma_event_canonical(bytes);
        lemma_events_canonical(after, (count - 1) as nat);
        assert(events.drop_first() =~= others);
    }
}

/// Round trip: a stored ledger is read back as it was written, whatever
/// follows it in the region.
pub proof fn lemma_monitor_round_trip(ledger: MonitorModel, rest: Seq<u8>)
    requires
        monitor_fits(ledger),
    ensures
        decode_monitor(encode_monitor(ledger) + rest) == Some((ledger, rest)),
        stored_monitor(encode_monitor(ledger) + rest) == Some(ledger),
        stored_monitor(encode_monitor(ledger)) == Some(ledger),
{
    lemma_monitor_read_back(ledger, Seq::empty());
    lemma_monitor_read_back(ledger, rest);
}

/// A stored ledger is read back from the front of any bytes that start with
/// it.
proof fn lemma_monitor_read_back(ledger: MonitorModel, rest: Seq<u8>)
    requires
        monitor_fits(ledger),
    ensures
        decode_monitor(encode_monitor(ledger) + rest) == Some((ledger, rest)),
{
    let bytes = encode_monitor(ledger) + rest;
    let count = u64_bytes(ledger.event_count);
    let number = u32_bytes(ledger.events.len() as u32);
    let events = encode_events(ledger.events);
    lemma_radix_pow_values();
    lemma_le_bytes_len(ledger.event_count as nat, 8);
    lemma_le_bytes_len(ledger.events.len() as u32 as nat, 4);
    lemma_le_value_of_bytes(ledger.event_count as nat, 8);
    lemma_le_value_of_bytes(ledger.events.len() as u32 as nat, 4);
    assert(bytes.subrange(1, 33) =~= ledger.authority);
    assert(bytes.subrange(33, 41) =~= count);
    assert(bytes.subrange(41, 45) =~= number);
    assert(bytes.skip(45) =~= events + rest);
    lemma_events_round_trip(ledger.events, rest);
}

/// Whatever is read as a ledger was stored as that ledger: the bytes read
/// are its stored form, which therefore is the only one it has.
pub proof fn lemma_monitor_canonical(bytes: Seq<u8>)
    ensures
        decode_monitor(bytes) matches Some((ledger, rest)) ==> {
            &&& monitor_fits(ledger)
            &&& encode_monitor(ledger) + rest == bytes
        },
{
    if decode_monitor(bytes) is Some {
        let (ledger, rest) = decode_monitor(bytes)->0;
        let number = u32_at(bytes, 41);
        lemma_radix_pow_values();
        lemma_events_canonical(bytes.skip(45), number as nat);
        lemma_le_value_bound(bytes.subrange(33, 41));
        lemma_le_bytes_of_value(bytes.subrange(33, 41));
        lemma_le_value_bound(bytes.subrange(41, 45));
        lemma_le_bytes_of_value(bytes.subrange(41, 45));
        assert(encode_monitor(ledger) + rest =~= bytes.subrange(0, 45) + (encode_events(
            ledger.events,
        ) + rest));
    }
}

impl OrderbookMonitor {
    /// The stored form of this ledger. It fails with `CapacityExceeded`
    /// exactly when the ledger has none: when it holds more events, or a
    /// longer market name, than a four-byte length can count.
    pub fn encode(&self) -> (stored: Result<Vec<u8>, OrderbookError>)
        ensures
            match stored {
                Ok(bytes) => monitor_fits(self@) && bytes@ == encode_monitor(self@),
                Err(error) => !monitor_fits(self@) && error == OrderbookError::CapacityExceeded,
            },
    {
        if self.events.len() > u32::MAX as usize {
            return Err(OrderbookError::CapacityExceeded);
        }
        let ghost models = event_models(self.events@);
        let mut out: Vec<u8> = Vec::new();
        out.push(if self.initialized { 1 } else { 0 });
        out.extend_from_slice(self.authority.bytes.as_slice());
        put_u64(&mut out, self.event_count);
        put_u32(&mut out, self.events.len() as u32);
        let ghost header = out@;
        let mut i: usize = 0;
        while i < self.events.len()
            invariant
                i <= self.events.len(),
                models == event_models(self.events@),
                out@ == header + encode_events(models.take(i as int)),
                events_fit(models.take(i as int)),
            decreases self.events.len() - i,
        {
            let event = &self.events[i];
            assert(models[i as int] == event@);
            if !event.fits() {
                return Err(OrderbookError::CapacityExceeded);
            }
            put_event(&mut out, event);
            proof {
                lemma_encode_events_push(models.take(i as int), event@);
                assert(models.take(i + 1) =~= models.take(i as int).push(event@));
            }
            i += 1;
        }
        assert(models.take(i as int) =~= models);
        Ok(out)
    }

    /// Reads the ledger stored at the front of `bytes`; what follows it is
    /// ignored. It fails with `DeserializationFailure` exactly when `bytes`
    /// do not start with a stored ledger.
    pub fn decode(bytes: &[u8]) -> (read: Result<OrderbookMonitor, OrderbookError>)
        ensures
            match read {
                Ok(ledger) => stored_monitor(bytes@) == Some(ledger@),
                Err(error) => stored_monitor(bytes@) is None && error
                    == OrderbookError::DeserializationFailure,
            },
    {
        if bytes.len() < HEADER_BYTES || bytes[0] > 1 {
            return Err(OrderbookError::DeserializationFailure);
        }
        let initialized = bytes[0] == 1;
        let mut key: [u8; 32] = [0u8; 32];
        let mut k: usize = 0;
        while k < 32
            invariant
                k <= 32,
                bytes.len() >= HEADER_BYTES,
                forall|j: int| 0 <= j < k ==> key[j] == bytes[1 + j],
            decreases 32 - k,
        {
            key[k] = bytes[1 + k];
            k += 1;
        }
        assert(key@ =~= bytes@.subrange(1, 33));
        let event_count = get_u64(bytes, 33);
        let number = get_u32(bytes, 41) as usize;
        let ghost whole = decode_events(bytes@.skip(45), number as nat);
        let mut events: Vec<OrderbookEvent> = Vec::new();
        let mut at: usize = HEADER_BYTES;
        let mut i: usize = 0;
        while i < number
            invariant
                i <= number,
                HEADER_BYTES <= at <= bytes.len(),
                bytes[0] <= 1,
                number == u32_at(bytes@, 41),
                whole == decode_events(bytes@.skip(45), number as nat),
                whole == match decode_events(bytes@.skip(at as int), (number - i) as nat) {
                    Some((others, end)) => Some((event_models(events@) + others, end)),
                    None => None,
                },
            decreases number - i,
        {
            let ghost done = event_models(events@);
            match read_event(bytes, at) {
                None => {
                    return Err(OrderbookError::DeserializationFailure);
                },
                Some((event, next)) => {
                    assert(event_models(events@.push(event)) =~= done.push(event@));
                    events.push(event);
                    at = next;
                },
            }
            i += 1;
        }
        Ok(OrderbookMonitor { initialized, authority: Pubkey { bytes: key }, event_count, events })
    }
}

} // verus!
