//! The fixed batch of sample orders that stands in for client ingress in
//! local runs, and the clock that stamps them.
use vstd::prelude::*;

use std::time::{Duration, SystemTime, SystemTimeError};

use crate::common::models::{OrderSide, OrderType};
use crate::common::new_order::NewOrder;

verus! {

#[verifier::external_type_specification]
#[verifier::external_body]
pub struct ExSystemTime(std::time::SystemTime);

#[verifier::external_type_specification]
#[verifier::external_body]
pub struct ExSystemTimeError(std::time::SystemTimeError);

/// Calls `SystemTime::now`: the system clock's reading, of which nothing is
/// claimed.
#[verifier::external_body]
fn system_time_now() -> SystemTime {
    SystemTime::now()
}

/// Calls `SystemTime::duration_since` with `UNIX_EPOCH`: the time elapsed
/// since the epoch, or an error for a clock set before it; nothing is claimed
/// of either.
#[verifier::external_body]
fn since_unix_epoch(t: &SystemTime) -> Result<Duration, SystemTimeError> {
    t.duration_since(std::time::UNIX_EPOCH)
}

/// Calls `Duration::as_nanos`: the whole nanoseconds of a duration, of which
/// nothing is claimed, the duration being opaque here.
#[verifier::external_body]
fn duration_as_nanos(d: &Duration) -> u128 {
    d.as_nanos()
}

/// Timestamp from the nanoseconds since the epoch, when the clock gave them:
/// their low 64 bits, else 0.
pub fn epoch_nanos(elapsed: Option<u128>) -> (r: u64)
    ensures
        r == match elapsed {
            Some(n) => (n % 0x1_0000_0000_0000_0000) as u64,
            None => 0,
        },
{
    match elapsed {
        Some(n) => {
            let r = #[verifier::truncate] (n as u64);
            assert(r == (n % 0x1_0000_0000_0000_0000) as u64) by (bit_vector)
                requires
                    r == #[verifier::truncate] (n as u64),
            ;
            r
        },
        None => 0,
    }
}

/// Nanoseconds since the epoch by the system clock, truncated to 64 bits;
/// 0 for a clock set before the epoch.
pub fn nano_now() -> u64 {
    let elapsed = match since_unix_epoch(&system_time_now()) {
        Ok(n) => Some(duration_as_nanos(&n)),
        Err(_) => None,
    };
    epoch_nanos(elapsed)
}

/// The sample batch as (price, quantity, client order id, client id,
/// ticker id, side).
pub open spec fn sample_table() -> Seq<(u128, u128, u64, u32, u32, OrderSide)> {
    seq![
        (23600u128, 100u128, 1u64, 0u32, 0u32, OrderSide::Sell),
        (23600u128, 100u128, 2u64, 0u32, 0u32, OrderSide::Buy),
        (23600u128, 50u128, 3u64, 0u32, 0u32, OrderSide::Sell),
        (23600u128, 100u128, 4u64, 0u32, 0u32, OrderSide::Buy),
        (50000u128, 200u128, 5u64, 1u32, 0u32, OrderSide::Sell),
        (50100u128, 200u128, 6u64, 1u32, 0u32, OrderSide::Buy),
        (50000u128, 300u128, 7u64, 1u32, 0u32, OrderSide::Sell),
        (50000u128, 100u128, 8u64, 1u32, 0u32, OrderSide::Buy),
    ]
}

/// `o` is row `row` of the sample batch: a limit order with the row's fields.
pub open spec fn is_sample(o: NewOrder, row: (u128, u128, u64, u32, u32, OrderSide)) -> bool {
    &&& o.price == row.0
    &&& o.quantity == row.1
    &&& o.client_order_id == row.2
    &&& o.client_id == row.3
    &&& o.ticker_id == row.4
    &&& o.side == row.5
    &&& o.order_type == OrderType::LIMIT
}

/// The eight sample orders, each stamped with the clock when it is built.
pub fn sample_orders() -> (v: Vec<NewOrder>)
    ensures
        v.len() == sample_table().len(),
        forall|i: int| 0 <= i < v.len() ==> is_sample(#[trigger] v[i], sample_table()[i]),
{
    let v = vec![
        NewOrder::new(23600, 100, nano_now(), 1, 0, 0, OrderSide::Sell, OrderType::LIMIT),
        NewOrder::new(23600, 100, nano_now(), 2, 0, 0, OrderSide::Buy, OrderType::LIMIT),
        NewOrder::new(23600, 50, nano_now(), 3, 0, 0, OrderSide::Sell, OrderType::LIMIT),
        NewOrder::new(23600, 100, nano_now(), 4, 0, 0, OrderSide::Buy, OrderType::LIMIT),
        NewOrder::new(50000, 200, nano_now(), 5, 1, 0, OrderSide::Sell, OrderType::LIMIT),
        NewOrder::new(50100, 200, nano_now(), 6, 1, 0, OrderSide::Buy, OrderType::LIMIT),
        NewOrder::new(50000, 300, nano_now(), 7, 1, 0, OrderSide::Sell, OrderType::LIMIT),
        NewOrder::new(50000, 100, nano_now(), 8, 1, 0, OrderSide::Buy, OrderType::LIMIT),
    ];
    v
}

} // verus!
