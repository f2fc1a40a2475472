//! Settlement rules: how an order intent becomes a confirmed fill against a daily bar.
//!
//! Shared by the backtest engine and the paper broker so both agree exactly on fills.

use crate::decimal::{num, Dec};
use crate::market::{Bar, Side};
use crate::order::{IntentView, OrderIntent, OrderKind};
use crate::position::{Fill, FillView};
use vstd::prelude::*;

verus! {

/// The price at which an order executes on a day, `None` if it does not.
pub open spec fn execution_price(
    kind: OrderKind,
    side: Side,
    limit: Option<Dec>,
    bar: Bar,
) -> Option<Dec> {
    match (kind, side, limit) {
        (OrderKind::Market, _, _) => Some(bar.close@),
        (OrderKind::LimitOnClose, Side::Buy, Some(l)) => if num(bar.close@) <= num(l) {
            Some(bar.close@)
        } else {
            None
        },
        (OrderKind::LimitOnClose, Side::Sell, Some(l)) => if num(bar.close@) >= num(l) {
            Some(bar.close@)
        } else {
            None
        },
        (OrderKind::Limit, Side::Buy, Some(l)) => if num(bar.low@) <= num(l) {
            Some(l)
        } else {
            None
        },
        (OrderKind::Limit, Side::Sell, Some(l)) => if num(bar.high@) >= num(l) {
            Some(l)
        } else {
            None
        },
        _ => None,
    }
}

/// The fill of an order on a day.
pub open spec fn settled(intent: IntentView, bar: Bar) -> Option<FillView> {
    match execution_price(intent.kind, intent.side, intent.limit, bar) {
        Some(price) => if intent.shares == 0 {
            None
        } else {
            Some(FillView { side: intent.side, shares: intent.shares, price, at: bar.date@ })
        },
        None => None,
    }
}

/// Settle an intent against a day's bar, returning a [`Fill`] if it would execute.
///
/// * Limit-on-close settles at the close, and only if the close is at or better than the
///   limit; the fill price is the close.
/// * Limit (a day order) fills if the day's range reaches the limit; the fill price is the
///   limit.
/// * Market fills at the close.
///
/// Returns `None` for a no-op (zero-share) intent or one that does not execute.
pub fn settle(intent: &OrderIntent, bar: &Bar) -> (r: Option<Fill>)
    ensures
        match r {
            Some(fill) => settled(intent@, *bar) == Some(fill@),
            None => settled(intent@, *bar) is None,
        },
{
    if intent.is_noop() {
        return None;
    }
    let fill_price = match (intent.kind, intent.side) {
        (OrderKind::LimitOnClose, Side::Buy) => match intent.limit {
            Some(limit) if bar.close.value() <= limit.value() => bar.close,
            _ => return None,
        },
        (OrderKind::LimitOnClose, Side::Sell) => match intent.limit {
            Some(limit) if bar.close.value() >= limit.value() => bar.close,
            _ => return None,
        },
        (OrderKind::Limit, Side::Buy) => match intent.limit {
            Some(limit) if bar.low.value() <= limit.value() => limit,
            _ => return None,
        },
        (OrderKind::Limit, Side::Sell) => match intent.limit {
            Some(limit) if bar.high.value() >= limit.value() => limit,
            _ => return None,
        },
        (OrderKind::Market, _) => bar.close,
    };
    Some(Fill { side: intent.side, shares: intent.shares, price: fill_price, at: bar.date })
}

/// An order that fills does so in full, on the bar's day, and never at a price worse than
/// its limit.
pub proof fn law_fills_respect_the_limit(intent: IntentView, bar: Bar, fill: FillView)
    requires
        settled(intent, bar) == Some(fill),
    ensures
        fill.shares == intent.shares,
        fill.shares > 0,
        fill.side == intent.side,
        fill.at == bar.date@,
        intent.kind != OrderKind::Market ==> intent.limit is Some,
        intent.kind != OrderKind::Market && intent.side == Side::Buy ==> num(fill.price) <= num(
            intent.limit->0,
        ),
        intent.kind != OrderKind::Market && intent.side == Side::Sell ==> num(fill.price) >= num(
            intent.limit->0,
        ),
{
}

/// A limit-on-close order fills if and only if the close is at or better than its limit, and
/// at the close. Nothing else of the day has any influence on it.
pub proof fn law_limit_on_close_looks_at_the_close_alone(
    intent: IntentView,
    limit: Dec,
    bar: Bar,
    other: Bar,
)
    requires
        intent.kind == OrderKind::LimitOnClose,
        intent.limit == Some(limit),
        intent.shares > 0,
    ensures
        intent.side == Side::Buy ==> (settled(intent, bar) is Some <==> num(bar.close@) <= num(
            limit,
        )),
        intent.side == Side::Sell ==> (settled(intent, bar) is Some <==> num(bar.close@) >= num(
            limit,
        )),
        settled(intent, bar) matches Some(fill) ==> fill.price == bar.close@,
        other.close@ == bar.close@ && other.date@ == bar.date@ ==> settled(intent, other)
            == settled(intent, bar),
{
}

/// A day limit order fills if and only if the day's range reaches its limit, and at the limit:
/// a buy by the low alone, a sell by the high alone.
pub proof fn law_day_limits_look_at_the_range(
    intent: IntentView,
    limit: Dec,
    bar: Bar,
    other: Bar,
)
    requires
        intent.kind == OrderKind::Limit,
        intent.limit == Some(limit),
        intent.shares > 0,
    ensures
        intent.side == Side::Buy ==> (settled(intent, bar) is Some <==> num(bar.low@) <= num(
            limit,
        )),
        intent.side == Side::Sell ==> (settled(intent, bar) is Some <==> num(bar.high@) >= num(
            limit,
        )),
        settled(intent, bar) matches Some(fill) ==> fill.price == limit,
        intent.side == Side::Buy && other.low@ == bar.low@ && other.date@ == bar.date@ ==> settled(
            intent,
            other,
        ) == settled(intent, bar),
        intent.side == Side::Sell && other.high@ == bar.high@ && other.date@ == bar.date@
            ==> settled(intent, other) == settled(intent, bar),
{
}

/// A market order fills at the close, an order for no shares does not fill, and neither does
/// one without the limit that its kind needs.
pub proof fn law_market_orders_fill_at_the_close(intent: IntentView, bar: Bar)
    ensures
        intent.kind == OrderKind::Market && intent.shares > 0 ==> settled(intent, bar) == Some(
            FillView {
                side: intent.side,
                shares: intent.shares,
                price: bar.close@,
                at: bar.date@,
            },
        ),
        intent.shares == 0 ==> settled(intent, bar) is None,
        intent.kind != OrderKind::Market && intent.limit is None ==> settled(intent, bar) is None,
{
}

} // verus!
