//! What the order journal makes of ticks: an order is sent at most once.
//!
//! A journal is a set of reserved keys. A tick asks it for each key before it sends the order,
//! and is told whether the key is new. It may stop at any point.

use crate::order::order_key;
use crate::usecases::{EventView, PhaseView, RunView, TickStatus};
use vstd::prelude::*;

verus! {

/// A tick under way: the run, the keys that are reserved, and the keys of the orders that it set
/// out to send, in the order in which it did. An order counts from the moment its key is newly
/// reserved, so one that is on its way when the tick stops is among them.
pub struct Played {
    pub run: RunView,
    pub journal: Set<Seq<char>>,
    pub sent: Seq<Seq<char>>,
}

/// Whether an event answers the current action, and the journal tells the truth.
pub open spec fn is_honest(p: Played, event: EventView) -> bool {
    &&& p.run.expects(event)
    &&& p.run.after(event) is Ok
    &&& event matches EventView::Reserved(Ok(fresh)) ==> fresh == !p.journal.contains(p.run.key())
}

/// The tick after an event.
pub open spec fn step(p: Played, event: EventView) -> Played {
    Played {
        run: p.run.after(event)->Ok_0,
        journal: if event == EventView::Reserved(Ok(true)) {
            p.journal.insert(p.run.key())
        } else {
            p.journal
        },
        sent: if event == EventView::Reserved(Ok(true)) {
            p.sent.push(p.run.key())
        } else {
            p.sent
        },
    }
}

/// Whether events answer the actions of a tick one after another.
pub open spec fn is_history(run: RunView, journal: Set<Seq<char>>, events: Seq<EventView>) -> bool
    decreases events.len(),
{
    events.len() > 0 ==> {
        &&& is_history(run, journal, events.drop_last())
        &&& is_honest(play(run, journal, events.drop_last()), events.last())
    }
}

/// A tick after a number of events.
pub open spec fn play(run: RunView, journal: Set<Seq<char>>, events: Seq<EventView>) -> Played
    decreases events.len(),
{
    if events.len() == 0 {
        Played { run, journal, sent: Seq::empty() }
    } else {
        step(play(run, journal, events.drop_last()), events.last())
    }
}

/// Whether a tick is at its start: no order is dealt with, and none is reserved.
pub open spec fn is_fresh(run: RunView) -> bool {
    run.done.len() == 0 && run.phase == PhaseView::Reserving
}

/// The key of an order of a tick.
pub open spec fn key_at(run: RunView, i: int) -> Seq<char> {
    order_key(run.account, run.ticker, run.today, run.intents[i].tag)
}

/// What holds at every point of a tick.
pub open spec fn holds(start: RunView, journal: Set<Seq<char>>, p: Played) -> bool {
    &&& p.run.account == start.account
    &&& p.run.ticker == start.ticker
    &&& p.run.today == start.today
    &&& p.run.intents == start.intents
    &&& p.run.done.len() <= start.intents.len()
    &&& journal.subset_of(p.journal)
    &&& forall|i: int|
        0 <= i < p.sent.len() ==> p.journal.contains(#[trigger] p.sent[i]) && !journal.contains(
            p.sent[i],
        )
    &&& p.sent.no_duplicates()
    &&& forall|i: int| 0 <= i < p.run.done.len() ==> p.journal.contains(#[trigger] key_at(start, i))
    &&& (p.run.phase !is Reserving && !p.run.is_finished()) ==> p.sent.len() > 0 && p.sent.last()
        == p.run.key()
}

proof fn lemma_holds(start: RunView, journal: Set<Seq<char>>, events: Seq<EventView>)
    requires
        is_fresh(start),
        is_history(start, journal, events),
    ensures
        holds(start, journal, play(start, journal, events)),
    decreases events.len(),
{
    if events.len() > 0 {
        let before = play(start, journal, events.drop_last());
        let event = events.last();
        lemma_holds(start, journal, events.drop_last());
        let after = step(before, event);
        let key = before.run.key();
        assert(key == key_at(start, before.run.done.len() as int));
        assert(is_honest(before, event));
        if event == EventView::Reserved(Ok(true)) {
            assert(after.sent == before.sent.push(key));
            assert forall|i: int, j: int|
                0 <= i < after.sent.len() && 0 <= j < after.sent.len() && i
                    != j implies after.sent[i] != after.sent[j] by {
                if i < before.sent.len() && j < before.sent.len() {
                } else if i < before.sent.len() {
                    assert(before.journal.contains(before.sent[i]));
                } else {
                    assert(before.journal.contains(before.sent[j]));
                }
            }
        }
    }
}

/// However far a tick gets, it sets out to send each key at most once, and only keys that were
/// not reserved before it; every one of them stays reserved, and nothing else is ever sent.
pub proof fn law_a_tick_sends_each_key_at_most_once(
    start: RunView,
    journal: Set<Seq<char>>,
    events: Seq<EventView>,
)
    requires
        is_fresh(start),
        is_history(start, journal, events),
    ensures
        ({
            let p = play(start, journal, events);
            &&& p.sent.no_duplicates()
            &&& journal.subset_of(p.journal)
            &&& forall|i: int|
                0 <= i < p.sent.len() ==> p.journal.contains(#[trigger] p.sent[i])
                    && !journal.contains(p.sent[i])
            &&& p.run.action() is Place ==> p.sent.len() > 0 && p.sent.last() == p.run.key()
        }),
{
    lemma_holds(start, journal, events);
}

/// A tick after another one, which may have stopped at any point, sends nothing that the other
/// sent.
pub proof fn law_orders_are_never_sent_twice(
    first: RunView,
    journal: Set<Seq<char>>,
    events: Seq<EventView>,
    second: RunView,
    later: Seq<EventView>,
    i: int,
    j: int,
)
    requires
        is_fresh(first),
        is_history(first, journal, events),
        is_fresh(second),
        is_history(second, play(first, journal, events).journal, later),
        0 <= i < play(first, journal, events).sent.len(),
        0 <= j < play(second, play(first, journal, events).journal, later).sent.len(),
    ensures
        play(first, journal, events).sent[i] != play(
            second,
            play(first, journal, events).journal,
            later,
        ).sent[j],
{
    lemma_holds(first, journal, events);
    lemma_holds(second, play(first, journal, events).journal, later);
}

/// Running a finished tick again on the same day sends nothing: every order is skipped.
pub proof fn law_a_rerun_sends_nothing(
    first: RunView,
    journal: Set<Seq<char>>,
    events: Seq<EventView>,
    second: RunView,
    later: Seq<EventView>,
)
    requires
        is_fresh(first),
        is_history(first, journal, events),
        play(first, journal, events).run.is_finished(),
        is_fresh(second),
        second.account == first.account,
        second.ticker == first.ticker,
        second.today == first.today,
        second.intents == first.intents,
        is_history(second, play(first, journal, events).journal, later),
    ensures
        ({
            let again = play(second, play(first, journal, events).journal, later);
            &&& again.sent.len() == 0
            &&& forall|i: int|
                0 <= i < again.run.done.len() ==> (#[trigger] again.run.done[i]).status
                    == TickStatus::SkippedIdempotent
        }),
{
    lemma_holds(first, journal, events);
    let known = play(first, journal, events).journal;
    assert forall|i: int| 0 <= i < second.intents.len() implies known.contains(
        #[trigger] key_at(second, i),
    ) by {
        assert(key_at(second, i) == key_at(first, i));
    }
    lemma_all_skipped(second, known, later);
}

proof fn lemma_all_skipped(start: RunView, journal: Set<Seq<char>>, events: Seq<EventView>)
    requires
        is_fresh(start),
        is_history(start, journal, events),
        forall|i: int|
            0 <= i < start.intents.len() ==> journal.contains(#[trigger] key_at(start, i)),
    ensures
        ({
            let p = play(start, journal, events);
            &&& p.sent.len() == 0
            &&& p.run.phase == PhaseView::Reserving
            &&& forall|i: int|
                0 <= i < p.run.done.len() ==> (#[trigger] p.run.done[i]).status
                    == TickStatus::SkippedIdempotent
        }),
    decreases events.len(),
{
    if events.len() > 0 {
        let before = play(start, journal, events.drop_last());
        lemma_all_skipped(start, journal, events.drop_last());
        lemma_holds(start, journal, events.drop_last());
        assert(before.run.key() == key_at(start, before.run.done.len() as int));
        assert(is_honest(before, events.last()));
    }
}

} // verus!
