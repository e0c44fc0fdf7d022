//! One recorded orderbook occurrence and its place in the byte layout.
//!
//! An event is stored as its timestamp (8 bytes), the market name (length
//! and UTF-8 bytes), price and size (8 bytes each), one byte for the side
//! and one for the kind of event.

use crate::text::{get_utf8, lemma_text_round_trip, put_text, text_bytes, text_fits};
use crate::wire::{
    get_i64, get_u32, get_u64, i64_at, i64_bits, i64_bytes, lemma_i64_bits_round_trip,
    lemma_le_bytes_len, lemma_le_bytes_of_value, lemma_le_value_bound, lemma_le_value_of_bytes,
    lemma_radix_pow_values, put_i64, put_u64, u32_at, u64_at, u64_bytes,
};
use vstd::prelude::*;
use vstd::utf8::*;

verus! {

/// What happened to the order.
#[derive(Clone, Copy, Debug, PartialEq, Eq, Structural)]
pub enum OrderbookEventType {
    OrderPlaced,
    OrderFilled,
    OrderCancelled,
}

/// One observed orderbook occurrence. Once recorded it never changes.
#[derive(Debug)]
pub struct OrderbookEvent {
    /// Seconds since the epoch, taken from the host's clock when the event
    /// was recorded.
    pub timestamp: i64,
    /// The traded pair, as the caller spelled it.
    pub market_name: String,
    /// The price, in the caller's units.
    pub price: u64,
    /// The size, in the caller's units.
    pub size: u64,
    /// Whether the order is on the buying side.
    pub is_bid: bool,
    /// What happened to the order.
    pub event_type: OrderbookEventType,
}

/// An event as a mathematical value.
pub struct EventModel {
    pub timestamp: i64,
    pub market_name: Seq<char>,
    pub price: u64,
    pub size: u64,
    pub is_bid: bool,
    pub event_type: OrderbookEventType,
}

impl View for OrderbookEvent {
    type V = EventModel;

    open spec fn view(&self) -> EventModel {
        EventModel {
            timestamp: self.timestamp,
            market_name: self.market_name@,
            price: self.price,
            size: self.size,
            is_bid: self.is_bid,
            event_type: self.event_type,
        }
    }
}

impl Clone for OrderbookEvent {
    fn clone(&self) -> (copy: OrderbookEvent)
        ensures
            copy@ == self@,
    {
        OrderbookEvent {
            timestamp: self.timestamp,
            market_name: self.market_name.clone(),
            price: self.price,
            size: self.size,
            is_bid: self.is_bid,
            event_type: self.event_type,
        }
    }
}

/// The number of bytes of a stored event besides the bytes of its market
/// name.
pub const EVENT_FIXED_BYTES: usize = 30;

/// The byte that stores the kind of an event.
pub open spec fn event_type_tag(kind: OrderbookEventType) -> u8 {
    match kind {
        OrderbookEventType::OrderPlaced => 0,
        OrderbookEventType::OrderFilled => 1,
        OrderbookEventType::OrderCancelled => 2,
    }
}

/// The kind of event that the byte `tag` stores, for `tag` at most 2.
pub open spec fn event_type_of_tag(tag: u8) -> OrderbookEventType {
    if tag == 0 {
        OrderbookEventType::OrderPlaced
    } else if tag == 1 {
        OrderbookEventType::OrderFilled
    } else {
        OrderbookEventType::OrderCancelled
    }
}

/// The byte that stores a truth value.
pub open spec fn bool_byte(b: bool) -> u8 {
    if b {
        1
    } else {
        0
    }
}

/// Whether `event` has a stored form: its market name must be short enough
/// for the length field.
pub open spec fn event_fits(event: EventModel) -> bool {
    text_fits(event.market_name)
}

/// The number of bytes that store `event`.
pub open spec fn event_len(event: EventModel) -> nat {
    EVENT_FIXED_BYTES as nat + encode_utf8(event.market_name).len()
}

/// The bytes that store `event`.
pub open spec fn encode_event(event: EventModel) -> Seq<u8> {
    i64_bytes(event.timestamp) + text_bytes(event.market_name) + u64_bytes(event.price)
        + u64_bytes(event.size) + seq![bool_byte(event.is_bid)] + seq![
        event_type_tag(event.event_type),
    ]
}

/// The event stored at the front of `bytes`, with the bytes that follow it;
/// `None` where `bytes` do not start with a stored event.
pub open spec fn decode_event(bytes: Seq<u8>) -> Option<(EventModel, Seq<u8>)> {
    if bytes.len() < 12 {
        None
    } else {
        let name_len = u32_at(bytes, 8) as int;
        let tail = 12 + name_len;
        if bytes.len() < tail + 18 {
            None
        } else if !valid_utf8(bytes.subrange(12, tail)) || bytes[tail + 16] > 1 || bytes[tail + 17]
            > 2 {
            None
        } else {
            Some(
                (
                    EventModel {
                        timestamp: i64_at(bytes, 0),
                        market_name: decode_utf8(bytes.subrange(12, tail)),
                        price: u64_at(bytes, tail),
                        size: u64_at(bytes, tail + 8),
                        is_bid: bytes[tail + 16] == 1,
                        event_type: event_type_of_tag(bytes[tail + 17]),
                    },
                    bytes.skip(tail + 18),
                ),
            )
        }
    }
}

/// The stored form of an event has the length that `event_len` gives.
pub proof fn lemma_encode_event_len(event: EventModel)
    requires
        event_fits(event),
    ensures
        encode_event(event).len() == event_len(event),
{
    lemma_le_bytes_len(i64_bits(event.timestamp) as nat, 8);
    lemma_le_bytes_len(event.price as nat, 8);
    lemma_le_bytes_len(event.size as nat, 8);
    lemma_text_round_trip(event.market_name, Seq::empty());
}

/// A stored event is read back as it was written, whatever follows it.
pub proof fn lemma_event_round_trip(event: EventModel, rest: Seq<u8>)
    requires
        event_fits(event),
    ensures
        decode_event(encode_event(event) + rest) == Some((event, rest)),
{
    let bytes = encode_event(event) + rest;
    let utf8 = encode_utf8(event.market_name);
    let n = utf8.len() as int;
    let tail = 12 + n;
    let stamp = i64_bytes(event.timestamp);
    let name = text_bytes(event.market_name);
    let price = u64_bytes(event.price);
    let size = u64_bytes(event.size);
    lemma_radix_pow_values();
    lemma_encode_event_len(event);
    lemma_le_bytes_len(i64_bits(event.timestamp) as nat, 8);
    lemma_le_bytes_len(event.price as nat, 8);
    lemma_le_bytes_len(event.size as nat, 8);
    lemma_text_round_trip(event.market_name, Seq::empty());

    lemma_le_value_of_bytes(i64_bits(event.timestamp) as nat, 8);
    lemma_le_value_of_bytes(event.price as nat, 8);
    lemma_le_value_of_bytes(event.size as nat, 8);
    lemma_i64_bits_round_trip(event.timestamp, 0);
    assert(bytes.subrange(0, 8) =~= stamp);
    assert(bytes.subrange(8, 12) =~= name.subrange(0, 4));
    assert(bytes.subrange(12, tail) =~= name.subrange(4, 4 + n));
    assert(bytes.subrange(tail, tail + 8) =~= price);
    assert(bytes.subrange(tail + 8, tail + 16) =~= size);
}

/// Whatever is read as an event was stored as that event: the bytes read
/// are the event's stored form, which therefore is the only one it has.
pub proof fn lemma_event_canonical(bytes: Seq<u8>)
    ensures
        decode_event(bytes) matches Some((event, rest)) ==> event_fits(event) && encode_event(event)
            + rest == bytes,
{
    if decode_event(bytes) is Some {
        let tail = 12 + u32_at(bytes, 8) as int;
        lemma_radix_pow_values();
        decode_utf8_encode_utf8(bytes.subrange(12, tail));
        lemma_le_value_bound(bytes.subrange(8, 12));
        lemma_le_bytes_of_value(bytes.subrange(8, 12));
        lemma_le_value_bound(bytes.subrange(0, 8));
        lemma_le_bytes_of_value(bytes.subrange(0, 8));
        lemma_i64_bits_round_trip(0, u64_at(bytes, 0));
        lemma_le_value_bound(bytes.subrange(tail, tail + 8));
        lemma_le_bytes_of_value(bytes.subrange(tail, tail + 8));
        lemma_le_value_bound(bytes.subrange(tail + 8, tail + 16));
        lemma_le_bytes_of_value(bytes.subrange(tail + 8, tail + 16));
    }
}

impl OrderbookEventType {
    /// The byte that stores this kind of event.
    pub fn tag(&self) -> (tag: u8)
        ensures
            tag == event_type_tag(*self),
    {
        match self {
            OrderbookEventType::OrderPlaced => 0,
            OrderbookEventType::OrderFilled => 1,
            OrderbookEventType::OrderCancelled => 2,
        }
    }

    /// The kind of event that `tag` stores, if it stores one.
    pub fn from_tag(tag: u8) -> (kind: Option<OrderbookEventType>)
        ensures
            tag <= 2 ==> kind == Some(event_type_of_tag(tag)),
            tag > 2 ==> kind is None,
    {
        if tag == 0 {
            Some(OrderbookEventType::OrderPlaced)
        } else if tag == 1 {
            Some(OrderbookEventType::OrderFilled)
        } else if tag == 2 {
            Some(OrderbookEventType::OrderCancelled)
        } else {
            None
        }
    }
}

impl OrderbookEvent {
    /// Whether this event has a stored form.
    pub fn fits(&self) -> (fits: bool)
        ensures
            fits == event_fits(self@),
    {
        self.market_name.as_str().as_bytes().len() <= u32::MAX as usize
    }
}

/// Appends the stored form of `event` to `out`.
pub fn put_event(out: &mut Vec<u8>, event: &OrderbookEvent)
    requires
        event_fits(event@),
    ensures
        final(out)@ == old(out)@ + encode_event(event@),
{
    put_i64(out, event.timestamp);
    put_text(out, event.market_name.as_str());
    put_u64(out, event.price);
    put_u64(out, event.size);
    out.push(if event.is_bid { 1 } else { 0 });
    out.push(event.event_type.tag());
}

/// Reads the event stored in `bytes` from `at` on. Returns it with the
/// position of the first byte after it, or `None` where no event is stored
/// there.
pub fn read_event(bytes: &[u8], at: usize) -> (read: Option<(OrderbookEvent, usize)>)
    requires
        at <= bytes.len(),
    ensures
        match decode_event(bytes@.skip(at as int)) {
            Some((event, rest)) => {
                &&& read matches Some((found, next))
                &&& found@ == event
                &&& at <= next <= bytes.len()
                &&& bytes@.skip(next as int) == rest
            },
            None => read is None,
        },
{
    let ghost view = bytes@.skip(at as int);
    let left = bytes.len() - at;
    if left < 12 {
        return None;
    }
    assert(view.subrange(0, 8) =~= bytes@.subrange(at as int, at + 8));
    assert(view.subrange(8, 12) =~= bytes@.subrange(at + 8, at + 12));
    let timestamp = get_i64(bytes, at);
    let name_len = get_u32(bytes, at + 8) as usize;
    if left - 12 < name_len || left - 12 - name_len < 18 {
        return None;
    }
    let name_at = at + 12;
    let tail = name_at + name_len;
    assert(view.subrange(12, 12 + name_len) =~= bytes@.subrange(name_at as int, tail as int));
    assert(view.subrange(12 + name_len, 12 + name_len + 8) =~= bytes@.subrange(
        tail as int,
        tail + 8,
    ));
    assert(view.subrange(12 + name_len + 8, 12 + name_len + 16) =~= bytes@.subrange(
        tail + 8,
        tail + 16,
    ));
    let market_name = match get_utf8(bytes, name_at, tail) {
        Some(text) => text,
        None => { return None; },
    };
    let price = get_u64(bytes, tail);
    let size = get_u64(bytes, tail + 8);
    let side = bytes[tail + 16];
    if side > 1 {
        return None;
    }
    let event_type = match OrderbookEventType::from_tag(bytes[tail + 17]) {
        Some(kind) => kind,
        None => { return None; },
    };
    let event = OrderbookEvent {
        timestamp,
        market_name,
        price,
        size,
        is_bid: side == 1,
        event_type,
    };
    Some((event, tail + 18))
}

} // verus!
