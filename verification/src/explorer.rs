//! Figures that a reader derives from the events of a ledger: how many bids
//! and asks, how many events of each kind, how active each market was, and
//! between which prices a market moved.

use crate::event::{EventModel, OrderbookEvent, OrderbookEventType};
use crate::monitor::event_models;
use vstd::prelude::*;

verus! {

/// The number of `events` on the buying side.
pub open spec fn bid_count(events: Seq<EventModel>) -> nat
    decreases events.len(),
{
    if events.len() == 0 {
        0
    } else {
        bid_count(events.drop_last()) + if events.last().is_bid {
            1nat
        } else {
            0nat
        }
    }
}

/// The number of `events` of the kind `kind`.
pub open spec fn kind_count(events: Seq<EventModel>, kind: OrderbookEventType) -> nat
    decreases events.len(),
{
    if events.len() == 0 {
        0
    } else {
        kind_count(events.drop_last(), kind) + if events.last().event_type == kind {
            1nat
        } else {
            0nat
        }
    }
}

/// The number of `events` on the market `market`.
pub open spec fn market_count(events: Seq<EventModel>, market: Seq<char>) -> nat
    decreases events.len(),
{
    if events.len() == 0 {
        0
    } else {
        market_count(events.drop_last(), market) + if events.last().market_name == market {
            1nat
        } else {
            0nat
        }
    }
}

/// The sum of the prices of the `events` on the market `market`.
pub open spec fn market_price_sum(events: Seq<EventModel>, market: Seq<char>) -> nat
    decreases events.len(),
{
    if events.len() == 0 {
        0
    } else {
        market_price_sum(events.drop_last(), market) + if events.last().market_name == market {
            events.last().price as nat
        } else {
            0nat
        }
    }
}

/// The markets of `events`, each once, in the order in which they first
/// appear.
pub open spec fn distinct_markets(events: Seq<EventModel>) -> Seq<Seq<char>>
    decreases events.len(),
{
    if events.len() == 0 {
        Seq::empty()
    } else {
        let earlier = distinct_markets(events.drop_last());
        if earlier.contains(events.last().market_name) {
            earlier
        } else {
            earlier.push(events.last().market_name)
        }
    }
}

/// How many events were bids and how many asks.
#[derive(Clone, Copy, Debug, PartialEq, Eq, Structural)]
pub struct SideCounts {
    pub bids: usize,
    pub asks: usize,
}

/// How many events there were of each kind.
#[derive(Clone, Copy, Debug, PartialEq, Eq, Structural)]
pub struct KindCounts {
    pub placed: usize,
    pub filled: usize,
    pub cancelled: usize,
}

/// One market and the number of events on it.
#[derive(Debug)]
pub struct MarketActivity {
    pub market_name: String,
    pub events: usize,
}

/// The prices of one market: the lowest, the highest, their sum and their
/// number.
#[derive(Clone, Copy, Debug, PartialEq, Eq, Structural)]
pub struct PriceStats {
    pub min: u64,
    pub max: u64,
    pub sum: u128,
    pub count: usize,
}

/// The market names of a table of activity, in its order.
pub open spec fn table_markets(table: Seq<MarketActivity>) -> Seq<Seq<char>> {
    table.map_values(|row: MarketActivity| row.market_name@)
}

/// No count exceeds the number of events, and bids and asks, like the
/// three kinds, add up to it.
pub proof fn lemma_counts_add_up(events: Seq<EventModel>, market: Seq<char>)
    ensures
        bid_count(events) <= events.len(),
        market_count(events, market) <= events.len(),
        market_price_sum(events, market) <= market_count(events, market) * u64::MAX,
        kind_count(events, OrderbookEventType::OrderPlaced) + kind_count(
            events,
            OrderbookEventType::OrderFilled,
        ) + kind_count(events, OrderbookEventType::OrderCancelled) == events.len(),
    decreases events.len(),
{
    if events.len() > 0 {
        lemma_counts_add_up(events.drop_last(), market);
    }
}

/// The distinct markets of a list of events hold no market twice, and hold
/// exactly the markets on which there is an event.
pub proof fn lemma_distinct_markets(events: Seq<EventModel>)
    ensures
        distinct_markets(events).no_duplicates(),
        forall|market: Seq<char>| #[trigger]
            distinct_markets(events).contains(market) <==> market_count(events, market) > 0,
    decreases events.len(),
{
    if events.len() > 0 {
        let earlier = events.drop_last();
        let last = events.last().market_name;
        let before = distinct_markets(earlier);
        let now = distinct_markets(events);
        lemma_distinct_markets(earlier);
        assert forall|market: Seq<char>| #[trigger]
            now.contains(market) <==> market_count(events, market) > 0 by {
            if now.contains(market) {
                let at = choose|k: int| 0 <= k < now.len() && now[k] == market;
                if at < before.len() {
                    assert(before.contains(market));
                }
            }
            if market_count(events, market) > 0 {
                if market_count(earlier, market) > 0 {
                    assert(before.contains(market));
                    let at = choose|k: int| 0 <= k < before.len() && before[k] == market;
                    assert(now[at] == market);
                } else if !before.contains(last) {
                    assert(now[now.len() - 1] == last);
                }
            }
        }
    }
}

/// Counts the events on each side.
pub fn count_sides(events: &Vec<OrderbookEvent>) -> (counts: SideCounts)
    ensures
        counts.bids == bid_count(event_models(events@)),
        counts.bids + counts.asks == events.len(),
{
    let ghost models = event_models(events@);
    let mut bids: usize = 0;
    let mut i: usize = 0;
    while i < events.len()
        invariant
            i <= events.len(),
            models == event_models(events@),
            bids == bid_count(models.take(i as int)),
            bids <= i,
        decreases events.len() - i,
    {
        assert(models.take(i + 1).drop_last() =~= models.take(i as int));
        if events[i].is_bid {
            bids += 1;
        }
        i += 1;
    }
    assert(models.take(i as int) =~= models);
    SideCounts { bids, asks: events.len() - bids }
}

/// Counts the events of each kind.
pub fn count_kinds(events: &Vec<OrderbookEvent>) -> (counts: KindCounts)
    ensures
        counts.placed == kind_count(event_models(events@), OrderbookEventType::OrderPlaced),
        counts.filled == kind_count(event_models(events@), OrderbookEventType::OrderFilled),
        counts.cancelled == kind_count(event_models(events@), OrderbookEventType::OrderCancelled),
        counts.placed + counts.filled + counts.cancelled == events.len(),
{
    let ghost models = event_models(events@);
    let mut placed: usize = 0;
    let mut filled: usize = 0;
    let mut cancelled: usize = 0;
    let mut i: usize = 0;
    while i < events.len()
        invariant
            i <= events.len(),
            models == event_models(events@),
            placed == kind_count(models.take(i as int), OrderbookEventType::OrderPlaced),
            filled == kind_count(models.take(i as int), OrderbookEventType::OrderFilled),
            cancelled == kind_count(models.take(i as int), OrderbookEventType::OrderCancelled),
            placed + filled + cancelled == i,
        decreases events.len() - i,
    {
        assert(models.take(i + 1).drop_last() =~= models.take(i as int));
        match events[i].event_type {
            OrderbookEventType::OrderPlaced => {
                placed += 1;
            },
            OrderbookEventType::OrderFilled => {
                filled += 1;
            },
            OrderbookEventType::OrderCancelled => {
                cancelled += 1;
            },
        }
        i += 1;
    }
    assert(models.take(i as int) =~= models);
    KindCounts { placed, filled, cancelled }
}

/// The prices of the events on `market`: `None` exactly when there is no
/// such event; else the lowest and the highest price among them, the sum
/// of their prices and their number.
pub fn price_stats(events: &Vec<OrderbookEvent>, market: &String) -> (stats: Option<PriceStats>)
    ensures
        stats is None <==> market_count(event_models(events@), market@) == 0,
        stats matches Some(found) ==> {
            &&& found.count == market_count(event_models(events@), market@)
            &&& found.sum == market_price_sum(event_models(events@), market@)
            &&& exists|i: int|
                0 <= i < events.len() && events[i].market_name@ == market@ && events[i].price
                    == found.min
            &&& exists|i: int|
                0 <= i < events.len() && events[i].market_name@ == market@ && events[i].price
                    == found.max
            &&& forall|i: int|
                0 <= i < events.len() && events[i].market_name@ == market@ ==> found.min
                    <= #[trigger] events[i].price <= found.max
        },
{
    let ghost models = event_models(events@);
    let mut min: u64 = u64::MAX;
    let mut max: u64 = 0;
    let mut sum: u128 = 0;
    let mut count: usize = 0;
    let ghost mut low: int = 0;
    let ghost mut high: int = 0;
    let mut i: usize = 0;
    while i < events.len()
        invariant
            i <= events.len(),
            models == event_models(events@),
            count == market_count(models.take(i as int), market@),
            sum == market_price_sum(models.take(i as int), market@),
            count <= i,
            sum <= count * u64::MAX,
            count == 0 ==> min == u64::MAX && max == 0,
            count > 0 ==> 0 <= low < i && events[low].market_name@ == market@ && events[low].price
                == min,
            count > 0 ==> 0 <= high < i && events[high].market_name@ == market@
                && events[high].price == max,
            forall|j: int|
                0 <= j < i && events[j].market_name@ == market@ ==> min
                    <= #[trigger] events[j].price <= max,
        decreases events.len() - i,
    {
        assert(models.take(i + 1).drop_last() =~= models.take(i as int));
        let event = &events[i];
        if event.market_name == *market {
            if count == 0 || event.price < min {
                min = event.price;
                proof {
                    low = i as int;
                }
            }
            if count == 0 || event.price > max {
                max = event.price;
                proof {
                    high = i as int;
                }
            }
            sum = sum + event.price as u128;
            count += 1;
        }
        i += 1;
    }
    assert(models.take(i as int) =~= models);
    if count == 0 {
        None
    } else {
        Some(PriceStats { min, max, sum, count })
    }
}

/// The markets of `events`, each once, in the order in which they first
/// appear, each with the number of events on it.
pub fn market_activity(events: &Vec<OrderbookEvent>) -> (table: Vec<MarketActivity>)
    ensures
        table_markets(table@) == distinct_markets(event_models(events@)),
        forall|k: int|
            0 <= k < table.len() ==> (#[trigger] table[k]).events == market_count(
                event_models(events@),
                table[k].market_name@,
            ),
{
    let ghost models = event_models(events@);
    let mut table: Vec<MarketActivity> = Vec::new();
    let mut i: usize = 0;
    while i < events.len()
        invariant
            i <= events.len(),
            models == event_models(events@),
            table_markets(table@) == distinct_markets(models.take(i as int)),
            forall|k: int|
                0 <= k < table.len() ==> (#[trigger] table[k]).events == market_count(
                    models.take(i as int),
                    table[k].market_name@,
                ),
        decreases events.len() - i,
    {
        let ghost seen = models.take(i as int);
        let ghost markets = table_markets(table@);
        let ghost old_table = table@;
        assert(models.take(i + 1).drop_last() =~= seen);
        let name = &events[i].market_name;
        let mut at: usize = 0;
        while at < table.len() && table[at].market_name != *name
            invariant
                at <= table.len(),
                markets == table_markets(table@),
                forall|k: int| 0 <= k < at ==> markets[k] != name@,
            decreases table.len() - at,
        {
            at += 1;
        }
        if at < table.len() {
            assert(markets[at as int] == table[at as int].market_name@);
            proof {
                lemma_counts_add_up(seen, name@);
                lemma_distinct_markets(seen);
            }
            let events_before = table[at].events;
            table[at].events = events_before + 1;
        } else {
            assert(!markets.contains(name@));
            proof {
                lemma_distinct_markets(seen);
            }
            table.push(MarketActivity { market_name: name.clone(), events: 1 });
        }
        assert forall|k: int| 0 <= k < table.len() implies (#[trigger] table[k]).events
            == market_count(models.take(i + 1), table[k].market_name@) by {
            if k < old_table.len() {
                assert(markets[k] == old_table[k].market_name@);
            }
        }
        i += 1;
    }
    assert(models.take(i as int) =~= models);
    table
}

} // verus!
