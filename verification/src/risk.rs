//! Pre-trade risk checks: a backstop applied to every order intent before it is sent to a
//! live broker. It does not second-guess the strategy; it catches only gross errors (selling
//! more than is held, an order sized or priced orders of magnitude off the mark).

use crate::decimal::{
    dec_of, decimal_product, decimal_quotient, decimal_text, num, times, Dec, Decimal,
};
use crate::error::{DomainError, Failure};
use crate::market::Side;
use crate::money::{total_of, tranche, Price};
use crate::order::{IntentView, OrderIntent};
use crate::position::{Position, PositionView};
use crate::text::{digits, join2, join5};
use vstd::prelude::*;
use vstd::string::*;

verus! {

/// A single buy order may not exceed the per-tranche budget by more than this multiple. Every
/// buy is sized with `shares_affordable`, so a legitimate one stays within one daily budget.
pub const MAX_BUY_BUDGET_MULTIPLE: u32 = 3;

/// A limit price must stay within this multiple of its anchor in either direction. The ladder
/// prices well above or below the last quote, so the band is wide: it is there to catch a
/// misplaced decimal point.
pub const MAX_PRICE_DEVIATION_MULTIPLE: u32 = 10;

/// What is wrong with the size of a buy; the outer `None` where an amount leaves the range.
pub open spec fn size_verdict(tag: Seq<char>, notional: Option<Dec>, cap: Option<Dec>) -> Option<
    Result<(), Seq<char>>,
> {
    match (notional, cap) {
        (Some(n), Some(c)) => if num(n) > num(c) {
            Some(
                Err(
                    tag + ": buy notional "@ + decimal_text(n) + " exceeds 3× tranche budget "@
                        + decimal_text(c),
                ),
            )
        } else {
            Some(Ok(()))
        },
        _ => None,
    }
}

/// What is wrong with a limit price; the outer `None` where an amount leaves the range.
pub open spec fn price_verdict(tag: Seq<char>, limit: Dec, anchor: Dec) -> Option<
    Result<(), Seq<char>>,
> {
    let ten = Some(dec_of(MAX_PRICE_DEVIATION_MULTIPLE as int));
    let complaint = tag + ": limit "@ + decimal_text(limit)
        + " deviates 10× or more from anchor "@ + decimal_text(anchor);
    match times(Some(anchor), ten) {
        Some(high) => if num(limit) >= num(high) {
            Some(Err(complaint))
        } else {
            match times(Some(limit), ten) {
                Some(scaled) => if num(scaled) <= num(anchor) {
                    Some(Err(complaint))
                } else {
                    Some(Ok(()))
                },
                None => None,
            }
        },
        None => None,
    }
}

/// What is wrong with an order: nothing, or the complaint. `None` where an amount leaves the
/// range.
pub open spec fn verdict(intent: IntentView, p: PositionView, reference: Dec) -> Option<
    Result<(), Seq<char>>,
> {
    if intent.shares == 0 {
        Some(Err(intent.tag + ": zero-share order"@))
    } else if intent.side == Side::Sell && intent.shares > p.shares {
        Some(
            Err(
                intent.tag + ": sell "@ + digits(intent.shares as nat) + " exceeds holding "@
                    + digits(p.shares as nat),
            ),
        )
    } else {
        match intent.limit {
            None => Some(Ok(())),
            Some(limit) => {
                let size = if intent.side == Side::Buy {
                    size_verdict(
                        intent.tag,
                        total_of(limit, intent.shares),
                        times(
                            tranche(p.seed, p.splits),
                            Some(dec_of(MAX_BUY_BUDGET_MULTIPLE as int)),
                        ),
                    )
                } else {
                    Some(Ok(()))
                };
                let anchor = match p.avg_price {
                    Some(avg) => avg,
                    None => reference,
                };
                if size == Some(Ok::<(), Seq<char>>(())) {
                    price_verdict(intent.tag, limit, anchor)
                } else {
                    size
                }
            },
        }
    }
}

/// Vet a single order intent against the position ledger and a reference price, returning
/// [`DomainError::Risk`] on any violation so the caller can refuse to place it.
///
/// A sell can never exceed the held quantity. A buy never spends many tranche budgets. A
/// limit stays within a band of the order's anchor: the average price while holding, else
/// the reference quote. The ladder prices off the average, so anchoring there avoids false
/// rejections in a deep drawdown.
pub fn vet(intent: &OrderIntent, position: &Position, reference: Price) -> (r: Result<
    (),
    DomainError,
>)
    requires
        verdict(intent@, position@, reference@) is Some,
    ensures
        match r {
            Ok(()) => verdict(intent@, position@, reference@) == Some(Ok::<(), Seq<char>>(())),
            Err(e) => e@ matches Failure::Risk(text) && verdict(intent@, position@, reference@)
                == Some(Err::<(), Seq<char>>(text)),
        },
{
    if intent.is_noop() {
        return Err(DomainError::Risk(join2(intent.tag, ": zero-share order")));
    }
    if intent.side == Side::Sell && intent.shares.get() > position.shares.get() {
        let asked = intent.shares.to_text();
        let held = position.shares.to_text();
        return Err(
            DomainError::Risk(
                join5(intent.tag, ": sell ", asked.as_str(), " exceeds holding ", held.as_str()),
            ),
        );
    }
    if let Some(limit) = intent.limit {
        if intent.side == Side::Buy {
            let notional = limit.total(intent.shares).amount();
            let cap = position.daily_budget().amount() * Decimal::from_u32(MAX_BUY_BUDGET_MULTIPLE);
            if notional > cap {
                let asked = notional.to_text();
                let allowed = cap.to_text();
                return Err(
                    DomainError::Risk(
                        join5(
                            intent.tag,
                            ": buy notional ",
                            asked.as_str(),
                            " exceeds 3× tranche budget ",
                            allowed.as_str(),
                        ),
                    ),
                );
            }
        }
        let anchor = match position.avg_price {
            Some(avg) => avg.value(),
            None => reference.value(),
        };
        let limit = limit.value();
        let multiple = Decimal::from_u32(MAX_PRICE_DEVIATION_MULTIPLE);
        if limit >= anchor * multiple || limit * multiple <= anchor {
            let asked = limit.to_text();
            let around = anchor.to_text();
            return Err(
                DomainError::Risk(
                    join5(
                        intent.tag,
                        ": limit ",
                        asked.as_str(),
                        " deviates 10× or more from anchor ",
                        around.as_str(),
                    ),
                ),
            );
        }
    }
    Ok(())
}

/// Vet a single order intent; `None` where an amount leaves the range.
pub fn try_vet(intent: &OrderIntent, position: &Position, reference: Price) -> (r: Option<
    Result<(), DomainError>,
>)
    ensures
        match r {
            Some(Ok(())) => verdict(intent@, position@, reference@) == Some(
                Ok::<(), Seq<char>>(()),
            ),
            Some(Err(e)) => e@ matches Failure::Risk(text) && verdict(
                intent@,
                position@,
                reference@,
            ) == Some(Err::<(), Seq<char>>(text)),
            None => verdict(intent@, position@, reference@) is None,
        },
{
    let sells_too_many = intent.side == Side::Sell && intent.shares.get() > position.shares.get();
    if !intent.is_noop() && !sells_too_many {
        if let Some(limit) = intent.limit {
            let mut oversized = false;
            if intent.side == Side::Buy {
                let notional = match limit.try_total(intent.shares) {
                    Some(n) => n.amount(),
                    None => return None,
                };
                let multiple = Decimal::from_u32(MAX_BUY_BUDGET_MULTIPLE);
                let cap = match position.daily_budget().amount().checked_mul(multiple) {
                    Some(c) => c,
                    None => return None,
                };
                oversized = notional > cap;
            }
            if !oversized {
                let anchor = match position.avg_price {
                    Some(avg) => avg.value(),
                    None => reference.value(),
                };
                let multiple = Decimal::from_u32(MAX_PRICE_DEVIATION_MULTIPLE);
                let high = match anchor.checked_mul(multiple) {
                    Some(h) => h,
                    None => return None,
                };
                if limit.value() < high && limit.value().checked_mul(multiple).is_none() {
                    return None;
                }
            }
        }
    }
    Some(vet(intent, position, reference))
}

/// What an order that passes is: of at least one share, no sell of more than is held, no buy
/// beyond the cap, and no limit ten times off its anchor or more.
pub proof fn law_vetted_orders_are_bounded(intent: IntentView, p: PositionView, reference: Dec)
    requires
        verdict(intent, p, reference) == Some(Ok::<(), Seq<char>>(())),
    ensures
        intent.shares > 0,
        intent.side == Side::Sell ==> intent.shares <= p.shares,
        intent.limit is Some && intent.side == Side::Buy ==> num(
            total_of(intent.limit->0, intent.shares)->0,
        ) <= num(
            times(
                tranche(p.seed, p.splits),
                Some(dec_of(MAX_BUY_BUDGET_MULTIPLE as int)),
            )->0,
        ),
        intent.limit is Some ==> ({
            let anchor = if p.avg_price is Some {
                p.avg_price->0
            } else {
                reference
            };
            let ten = Some(dec_of(MAX_PRICE_DEVIATION_MULTIPLE as int));
            &&& num(intent.limit->0) < num(times(Some(anchor), ten)->0)
            &&& num(anchor) < num(times(intent.limit, ten)->0)
        }),
{
}

/// When an order is refused, with what is wrong first: one for no shares, a sell of more than
/// is held, a buy of more than three daily budgets, a limit at ten times its anchor or more, or
/// at a tenth of it or less. The anchor is the average price while there is one, and else the
/// reference. Every other order passes, whatever its side, kind or tag.
pub proof fn law_orders_are_refused_for_gross_errors_alone(
    intent: IntentView,
    p: PositionView,
    reference: Dec,
)
    requires
        verdict(intent, p, reference) is Some,
    ensures
        verdict(intent, p, reference) == Some(Ok::<(), Seq<char>>(())) <==> {
            let limit = intent.limit->0;
            let anchor = match p.avg_price {
                Some(avg) => avg,
                None => reference,
            };
            let budget = decimal_quotient(p.seed, (if p.splits == 0 {
                1i128
            } else {
                p.splits as i128
            }, 0u32))->0;
            &&& intent.shares > 0
            &&& intent.side == Side::Sell ==> intent.shares <= p.shares
            &&& intent.limit is Some && intent.side == Side::Buy ==> num(
                decimal_product(limit, (intent.shares as i128, 0u32))->0,
            ) <= num(decimal_product(budget, (3i128, 0u32))->0)
            &&& intent.limit is Some ==> num(limit) < num(
                decimal_product(anchor, (10i128, 0u32))->0,
            )
            &&& intent.limit is Some ==> num(anchor) < num(
                decimal_product(limit, (10i128, 0u32))->0,
            )
        },
        intent.shares == 0 ==> verdict(intent, p, reference) == Some(
            Err::<(), Seq<char>>(intent.tag + ": zero-share order"@),
        ),
        intent.side == Side::Sell && intent.shares > p.shares ==> verdict(intent, p, reference)
            matches Some(Err(_)),
{
}

/// The verdict on a sell does not depend on the budget, and that on an order without a limit
/// neither on the budget nor on any price.
pub proof fn law_verdicts_depend_on_what_they_check(
    intent: IntentView,
    p: PositionView,
    q: PositionView,
    reference: Dec,
    other: Dec,
)
    requires
        q.shares == p.shares,
    ensures
        intent.limit is None ==> verdict(intent, p, reference) == verdict(intent, q, other),
        intent.side == Side::Sell && q.avg_price == p.avg_price ==> verdict(intent, p, reference)
            == verdict(intent, q, reference),
        p.avg_price is Some ==> verdict(intent, p, reference) == verdict(intent, p, other),
{
}

/// There is a verdict wherever the amounts that it takes are in range.
pub proof fn law_a_verdict_comes_where_amounts_fit(
    intent: IntentView,
    p: PositionView,
    reference: Dec,
)
    requires
        intent.limit matches Some(limit) ==> {
            let anchor = match p.avg_price {
                Some(avg) => avg,
                None => reference,
            };
            let budget = decimal_quotient(p.seed, (if p.splits == 0 {
                1i128
            } else {
                p.splits as i128
            }, 0u32));
            &&& decimal_product(anchor, (10i128, 0u32)) is Some
            &&& decimal_product(limit, (10i128, 0u32)) is Some
            &&& intent.side == Side::Buy ==> decimal_product(
                limit,
                (intent.shares as i128, 0u32),
            ) is Some && budget is Some && decimal_product(budget->0, (3i128, 0u32)) is Some
        },
    ensures
        verdict(intent, p, reference) is Some,
{
}

/// What a refused order is told, of what is wrong with it first.
pub proof fn law_complaints_name_the_order_and_the_figures(
    intent: IntentView,
    p: PositionView,
    reference: Dec,
)
    requires
        verdict(intent, p, reference) is Some,
        intent.shares > 0,
    ensures
        intent.side == Side::Sell && intent.shares > p.shares ==> verdict(intent, p, reference)
            == Some(
            Err::<(), Seq<char>>(
                intent.tag + ": sell "@ + digits(intent.shares as nat) + " exceeds holding "@
                    + digits(p.shares as nat),
            ),
        ),
        intent.side == Side::Buy && intent.limit is Some ==> ({
            let notional = decimal_product(intent.limit->0, (intent.shares as i128, 0u32))->0;
            let budget = decimal_quotient(p.seed, (if p.splits == 0 {
                1i128
            } else {
                p.splits as i128
            }, 0u32))->0;
            let cap = decimal_product(budget, (3i128, 0u32))->0;
            num(notional) > num(cap) ==> verdict(intent, p, reference) == Some(
                Err::<(), Seq<char>>(
                    intent.tag + ": buy notional "@ + decimal_text(notional)
                        + " exceeds 3× tranche budget "@ + decimal_text(cap),
                ),
            )
        }),
        intent.side == Side::Sell && intent.shares <= p.shares && intent.limit is Some ==> ({
            let limit = intent.limit->0;
            let anchor = match p.avg_price {
                Some(avg) => avg,
                None => reference,
            };
            num(limit) >= num(decimal_product(anchor, (10i128, 0u32))->0) || num(
                decimal_product(limit, (10i128, 0u32))->0,
            ) <= num(anchor) ==> verdict(intent, p, reference) == Some(
                Err::<(), Seq<char>>(
                    intent.tag + ": limit "@ + decimal_text(limit)
                        + " deviates 10× or more from anchor "@ + decimal_text(anchor),
                ),
            )
        }),
{
}

} // verus!
