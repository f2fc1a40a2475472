//! Daily bars for backtests, read from the rows of a CSV file with the columns `date`,
//! `open`, `high`, `low` and `close`.

use crate::date::{civil_of, date_parsed, earlier, is_date, Civil, Date};
use crate::decimal::{decimal_parsed, lemma_sign, num, Dec, Decimal};
use crate::error::{DomainError, Failure};
use crate::market::Bar;
use crate::money::Price;
use crate::text::{join2, join3, trim, trimmed};
use vstd::prelude::*;

verus! {

/// What a text such as `2026-06-25` reads as.
pub open spec fn day_of_parsed(raw: Seq<char>, parsed: Result<(i32, u8, u8), Seq<char>>) -> Result<
    Civil,
    Failure,
> {
    match parsed {
        Ok(d) => Ok(civil_of(d)),
        Err(e) => Err(Failure::Config("invalid date '"@ + raw + "': "@ + e)),
    }
}

/// Parse a `YYYY-MM-DD` date.
pub fn parse_date(raw: &str) -> (r: Result<Date, DomainError>)
    ensures
        match r {
            Ok(d) => is_date(d@) && day_of_parsed(raw@, date_parsed(trimmed(raw@))) == Ok::<
                Civil,
                Failure,
            >(d@),
            Err(e) => day_of_parsed(raw@, date_parsed(trimmed(raw@))) == Err::<Civil, Failure>(e@),
        },
{
    match Date::parse(trim(raw)) {
        Ok(d) => Ok(d),
        Err(e) => Err(
            DomainError::Config(join2(join3("invalid date '", raw, "': ").as_str(), e.as_str())),
        ),
    }
}

/// One row of the file.
#[derive(Debug)]
pub struct CsvRow {
    pub date: String,
    pub open: String,
    pub high: String,
    pub low: String,
    pub close: String,
}

/// A price of the file, from what its text was parsed as.
pub open spec fn bar_price_of(raw: Seq<char>, parsed: Result<Dec, Seq<char>>) -> Result<
    Dec,
    Failure,
> {
    match parsed {
        Ok(d) => if d.0 > 0 {
            Ok(d)
        } else {
            Err(Failure::MarketData("non-positive price '"@ + raw + "'"@))
        },
        Err(e) => Err(Failure::MarketData("number '"@ + raw + "': "@ + e)),
    }
}

/// What a price of the file reads as.
pub open spec fn bar_price_in(raw: Seq<char>) -> Result<Dec, Failure> {
    bar_price_of(raw, decimal_parsed(trimmed(raw)))
}

/// The price of the file, from what its text was parsed as.
pub fn bar_price(raw: &str, parsed: Result<Decimal, String>) -> (r: Result<Price, DomainError>)
    ensures
        match r {
            Ok(p) => bar_price_of(raw@, crate::http::parse_result(parsed)) == Ok::<Dec, Failure>(
                p@,
            ),
            Err(e) => bar_price_of(raw@, crate::http::parse_result(parsed)) == Err::<Dec, Failure>(
                e@,
            ),
        },
{
    match parsed {
        Ok(d) => match Price::new(d) {
            Some(p) => Ok(p),
            None => Err(DomainError::MarketData(join3("non-positive price '", raw, "'"))),
        },
        Err(e) => Err(
            DomainError::MarketData(join2(join3("number '", raw, "': ").as_str(), e.as_str())),
        ),
    }
}

/// Read a price of the file.
pub fn price(raw: &str) -> (r: Result<Price, DomainError>)
    ensures
        match r {
            Ok(p) => bar_price_in(raw@) == Ok::<Dec, Failure>(p@),
            Err(e) => bar_price_in(raw@) == Err::<Dec, Failure>(e@),
        },
{
    bar_price(raw, Decimal::parse(trim(raw)))
}

/// The model of a [`Bar`].
pub struct BarView {
    pub date: Civil,
    pub open: Dec,
    pub high: Dec,
    pub low: Dec,
    pub close: Dec,
}

impl View for Bar {
    type V = BarView;

    open spec fn view(&self) -> BarView {
        BarView {
            date: self.date@,
            open: self.open@,
            high: self.high@,
            low: self.low@,
            close: self.close@,
        }
    }
}

/// The models of a list of bars.
pub open spec fn bars_of(bars: Seq<Bar>) -> Seq<BarView> {
    Seq::new(bars.len(), |i: int| bars[i]@)
}

/// The prices of a row on a day, or the first that is wrong.
pub open spec fn bar_on(date: Civil, row: CsvRow) -> Result<BarView, Failure> {
    match bar_price_in(row.open@) {
        Err(e) => Err(e),
        Ok(open) => match bar_price_in(row.high@) {
            Err(e) => Err(e),
            Ok(high) => match bar_price_in(row.low@) {
                Err(e) => Err(e),
                Ok(low) => match bar_price_in(row.close@) {
                    Err(e) => Err(e),
                    Ok(close) => Ok(BarView { date, open, high, low, close }),
                },
            },
        },
    }
}

/// What a row is: nothing if its day is outside the window.
pub open spec fn row_bar(row: CsvRow, from: Civil, to: Civil) -> Result<Option<BarView>, Failure> {
    match date_parsed(trimmed(row.date@)) {
        Err(_) => Err(Failure::MarketData("invalid date '"@ + row.date@ + "'"@)),
        Ok(d) => {
            let date = civil_of(d);
            if earlier(date, from) || earlier(to, date) {
                Ok(None)
            } else {
                match bar_on(date, row) {
                    Ok(bar) => Ok(Some(bar)),
                    Err(e) => Err(e),
                }
            }
        },
    }
}

/// The place of a bar among bars in the order of days: behind those of the same day.
pub open spec fn place_of(bars: Seq<BarView>, date: Civil) -> int
    decreases bars.len(),
{
    if bars.len() == 0 || !earlier(date, bars.last().date) {
        bars.len() as int
    } else {
        place_of(bars.drop_last(), date)
    }
}

/// The bars of the rows in the window, in the order of days, those of one day in the order of
/// the file; the first error where there is one.
pub open spec fn row_bars(rows: Seq<CsvRow>, from: Civil, to: Civil) -> Result<Seq<BarView>, Failure>
    decreases rows.len(),
{
    if rows.len() == 0 {
        Ok(Seq::empty())
    } else {
        match row_bars(rows.drop_last(), from, to) {
            Err(e) => Err(e),
            Ok(before) => match row_bar(rows.last(), from, to) {
                Err(e) => Err(e),
                Ok(None) => Ok(before),
                Ok(Some(bar)) => Ok(before.insert(place_of(before, bar.date), bar)),
            },
        }
    }
}

/// Read a row.
pub fn read_row(row: &CsvRow, from: Date, to: Date) -> (r: Result<Option<Bar>, DomainError>)
    ensures
        match r {
            Ok(Some(bar)) => row_bar(*row, from@, to@) == Ok::<Option<BarView>, Failure>(
                Some(bar@),
            ),
            Ok(None) => row_bar(*row, from@, to@) == Ok::<Option<BarView>, Failure>(None),
            Err(e) => row_bar(*row, from@, to@) == Err::<Option<BarView>, Failure>(e@),
        },
{
    let date = match parse_date(row.date.as_str()) {
        Ok(d) => d,
        Err(_) => {
            return Err(DomainError::MarketData(join3("invalid date '", row.date.as_str(), "'")));
        },
    };
    if date.is_before(&from) || to.is_before(&date) {
        return Ok(None);
    }
    let open = match price(row.open.as_str()) {
        Ok(p) => p,
        Err(e) => return Err(e),
    };
    let high = match price(row.high.as_str()) {
        Ok(p) => p,
        Err(e) => return Err(e),
    };
    let low = match price(row.low.as_str()) {
        Ok(p) => p,
        Err(e) => return Err(e),
    };
    match price(row.close.as_str()) {
        Ok(close) => Ok(Some(Bar { date, open, high, low, close })),
        Err(e) => Err(e),
    }
}

/// Put a bar where it belongs among bars in the order of days.
fn insert_bar(bars: &mut Vec<Bar>, bar: Bar)
    ensures
        bars_of(final(bars)@) == bars_of(old(bars)@).insert(
            place_of(bars_of(old(bars)@), bar@.date),
            bar@,
        ),
{
    let ghost start = bars_of(bars@);
    let mut i: usize = bars.len();
    assert(start.take(i as int) =~= start);
    while i > 0 && bar.date.is_before(&bars[i - 1].date)
        invariant
            i <= bars.len(),
            start == bars_of(bars@),
            place_of(start, bar@.date) == place_of(start.take(i as int), bar@.date),
        decreases i,
    {
        proof {
            assert(start.take(i as int).last() == bars[i - 1]@);
            assert(start.take(i as int).drop_last() =~= start.take(i - 1));
        }
        i -= 1;
    }
    proof {
        if i > 0 {
            assert(start.take(i as int).last() == bars[i - 1]@);
        }
        assert(place_of(start, bar@.date) == i);
    }
    bars.insert(i, bar);
    assert(bars_of(bars@) =~= start.insert(i as int, bar@));
}

/// Read the bars of the days from `from` to `to`, in the order of days.
pub fn read_bars(rows: &[CsvRow], from: Date, to: Date) -> (r: Result<Vec<Bar>, DomainError>)
    ensures
        match r {
            Ok(bars) => row_bars(rows@, from@, to@) == Ok::<Seq<BarView>, Failure>(bars_of(bars@)),
            Err(e) => row_bars(rows@, from@, to@) == Err::<Seq<BarView>, Failure>(e@),
        },
{
    let mut bars: Vec<Bar> = Vec::new();
    let mut i: usize = 0;
    assert(rows@.take(0) =~= Seq::<CsvRow>::empty());
    assert(bars_of(bars@) =~= Seq::<BarView>::empty());
    while i < rows.len()
        invariant
            i <= rows.len(),
            row_bars(rows@.take(i as int), from@, to@) == Ok::<Seq<BarView>, Failure>(
                bars_of(bars@),
            ),
        decreases rows.len() - i,
    {
        proof {
            assert(rows@.take(i + 1).drop_last() =~= rows@.take(i as int));
            assert(rows@.take(i + 1).last() == rows[i as int]);
        }
        match read_row(&rows[i], from, to) {
            Ok(Some(bar)) => {
                insert_bar(&mut bars, bar);
            },
            Ok(None) => {},
            Err(e) => {
                proof {
                    lemma_bars_error(rows@, from@, to@, i + 1, e@);
                }
                return Err(e);
            },
        }
        i += 1;
    }
    assert(rows@.take(i as int) =~= rows@);
    Ok(bars)
}

proof fn lemma_bars_error(rows: Seq<CsvRow>, from: Civil, to: Civil, n: int, e: Failure)
    requires
        0 <= n <= rows.len(),
        row_bars(rows.take(n), from, to) == Err::<Seq<BarView>, Failure>(e),
    ensures
        row_bars(rows, from, to) == Err::<Seq<BarView>, Failure>(e),
    decreases rows.len() - n,
{
    if n == rows.len() {
        assert(rows.take(n) =~= rows);
    } else {
        assert(rows.take(n + 1).drop_last() =~= rows.take(n));
        lemma_bars_error(rows, from, to, n + 1, e);
    }
}

/// Whether bars are in the order of days and in a window.
pub open spec fn in_day_order(bars: Seq<BarView>, from: Civil, to: Civil) -> bool {
    &&& forall|i: int, j: int|
        #![trigger bars[i], bars[j]]
        0 <= i < j < bars.len() ==> !earlier(bars[j].date, bars[i].date)
    &&& forall|i: int|
        0 <= i < bars.len() ==> !earlier((#[trigger] bars[i]).date, from) && !earlier(
            to,
            bars[i].date,
        )
}

proof fn lemma_place(bars: Seq<BarView>, from: Civil, to: Civil, date: Civil)
    requires
        in_day_order(bars, from, to),
    ensures
        0 <= place_of(bars, date) <= bars.len(),
        forall|i: int|
            0 <= i < place_of(bars, date) ==> !earlier(date, (#[trigger] bars[i]).date),
        forall|i: int|
            place_of(bars, date) <= i < bars.len() ==> earlier(date, (#[trigger] bars[i]).date),
    decreases bars.len(),
{
    if bars.len() > 0 {
        let front = bars.drop_last();
        if earlier(date, bars.last().date) {
            assert forall|i: int, j: int|
                #![trigger front[i], front[j]]
                0 <= i < j < front.len() implies !earlier(front[j].date, front[i].date) by {
                assert(front[i] == bars[i] && front[j] == bars[j]);
            }
            assert forall|i: int| 0 <= i < front.len() implies !earlier(
                (#[trigger] front[i]).date,
                from,
            ) && !earlier(to, front[i].date) by {
                assert(front[i] == bars[i]);
            }
            lemma_place(front, from, to, date);
            assert forall|i: int| 0 <= i < place_of(bars, date) implies !earlier(
                date,
                (#[trigger] bars[i]).date,
            ) by {
                assert(front[i] == bars[i]);
            }
            assert forall|i: int| place_of(bars, date) <= i < bars.len() implies earlier(
                date,
                (#[trigger] bars[i]).date,
            ) by {
                if i < front.len() {
                    assert(front[i] == bars[i]);
                }
            }
        }
    }
}

/// The bars that are read are in the order of days, and all of them are in the window.
pub proof fn law_bars_are_in_order(rows: Seq<CsvRow>, from: Civil, to: Civil)
    requires
        row_bars(rows, from, to) is Ok,
    ensures
        in_day_order(row_bars(rows, from, to)->Ok_0, from, to),
    decreases rows.len(),
{
    if rows.len() > 0 {
        law_bars_are_in_order(rows.drop_last(), from, to);
        let old_bars = row_bars(rows.drop_last(), from, to)->Ok_0;
        if let Ok(Some(bar)) = row_bar(rows.last(), from, to) {
            lemma_place(old_bars, from, to, bar.date);
            let at = place_of(old_bars, bar.date);
            let new_bars = old_bars.insert(at, bar);
            assert forall|i: int, j: int|
                #![trigger new_bars[i], new_bars[j]]
                0 <= i < j < new_bars.len() implies !earlier(new_bars[j].date, new_bars[i].date) by {
                if i < at && j > at {
                    assert(new_bars[i] == old_bars[i] && new_bars[j] == old_bars[j - 1]);
                } else if i > at {
                    assert(new_bars[i] == old_bars[i - 1] && new_bars[j] == old_bars[j - 1]);
                } else if j < at {
                    assert(new_bars[i] == old_bars[i] && new_bars[j] == old_bars[j]);
                } else if i == at {
                    assert(new_bars[j] == old_bars[j - 1]);
                } else {
                    assert(new_bars[i] == old_bars[i]);
                }
            }
            assert forall|i: int| 0 <= i < new_bars.len() implies !earlier(
                (#[trigger] new_bars[i]).date,
                from,
            ) && !earlier(to, new_bars[i].date) by {
                if i < at {
                    assert(new_bars[i] == old_bars[i]);
                } else if i > at {
                    assert(new_bars[i] == old_bars[i - 1]);
                }
            }
        }
    }
}

/// A price of the file is the number that its trimmed text parses as, and has to be positive.
pub proof fn law_bar_prices_are_positive(raw: Seq<char>)
    ensures
        bar_price_in(raw) is Ok <==> decimal_parsed(trimmed(raw)) is Ok && num(
            decimal_parsed(trimmed(raw))->Ok_0,
        ) > 0real,
        bar_price_in(raw) is Ok ==> decimal_parsed(trimmed(raw)) == Ok::<Dec, Seq<char>>(
            bar_price_in(raw)->Ok_0,
        ),
        bar_price_in(raw) is Err ==> bar_price_in(raw)->Err_0 is MarketData,
{
    if decimal_parsed(trimmed(raw)) is Ok {
        lemma_sign(decimal_parsed(trimmed(raw))->Ok_0);
    }
}

/// A row is a bar exactly where its day is in the window, both ends included, and its four
/// prices are good; each price is then that of its own column. A row outside of the window is
/// passed over, whatever its prices.
pub proof fn law_a_row_is_the_bar_of_its_columns(row: CsvRow, from: Civil, to: Civil)
    ensures
        row_bar(row, from, to) matches Ok(Some(bar)) ==> {
            &&& date_parsed(trimmed(row.date@)) is Ok
            &&& bar.date == civil_of(date_parsed(trimmed(row.date@))->Ok_0)
            &&& !earlier(bar.date, from) && !earlier(to, bar.date)
            &&& bar_price_in(row.open@) == Ok::<Dec, Failure>(bar.open)
            &&& bar_price_in(row.high@) == Ok::<Dec, Failure>(bar.high)
            &&& bar_price_in(row.low@) == Ok::<Dec, Failure>(bar.low)
            &&& bar_price_in(row.close@) == Ok::<Dec, Failure>(bar.close)
        },
        row_bar(row, from, to) == Ok::<Option<BarView>, Failure>(None) <==> date_parsed(
            trimmed(row.date@),
        ) is Ok && ({
            let day = civil_of(date_parsed(trimmed(row.date@))->Ok_0);
            earlier(day, from) || earlier(to, day)
        }),
        date_parsed(trimmed(row.date@)) is Ok && bar_price_in(row.open@) is Ok && bar_price_in(
            row.high@,
        ) is Ok && bar_price_in(row.low@) is Ok && bar_price_in(row.close@) is Ok ==> row_bar(
            row,
            from,
            to,
        ) is Ok,
        row_bar(row, from, to) is Err ==> row_bar(row, from, to)->Err_0 is MarketData,
{
}

/// The bars of the rows in the window, in the order of the file.
pub open spec fn picked(rows: Seq<CsvRow>, from: Civil, to: Civil) -> Seq<BarView> {
    rows.filter(
        |row: CsvRow| row_bar(row, from, to) is Ok && row_bar(row, from, to)->Ok_0 is Some,
    ).map_values(|row: CsvRow| row_bar(row, from, to)->Ok_0->0)
}

/// Bars are read exactly where no row is wrong, and the first row that is wrong says why. Every
/// row in the window then gives its bar, and the bars of any one day stand in the order of the
/// file. With the order of days, this is all there is to the order.
pub proof fn law_no_bar_is_lost(rows: Seq<CsvRow>, from: Civil, to: Civil, day: Civil)
    ensures
        row_bars(rows, from, to) is Ok <==> forall|i: int|
            0 <= i < rows.len() ==> row_bar(#[trigger] rows[i], from, to) is Ok,
        row_bars(rows, from, to) matches Ok(bars) ==> bars.len() == picked(rows, from, to).len()
            && bars.filter(|bar: BarView| bar.date == day) == picked(rows, from, to).filter(
            |bar: BarView| bar.date == day,
        ),
    decreases rows.len(),
{
    reveal(Seq::filter);
    let keep = |row: CsvRow|
        row_bar(row, from, to) is Ok && row_bar(row, from, to)->Ok_0 is Some;
    let pick = |row: CsvRow| row_bar(row, from, to)->Ok_0->0;
    if rows.len() > 0 {
        let front = rows.drop_last();
        let last = rows.last();
        law_no_bar_is_lost(front, from, to, day);
        if forall|i: int| 0 <= i < rows.len() ==> row_bar(#[trigger] rows[i], from, to) is Ok {
            assert forall|i: int| 0 <= i < front.len() implies row_bar(
                #[trigger] front[i],
                from,
                to,
            ) is Ok by {
                assert(front[i] == rows[i]);
            }
            assert(rows[rows.len() - 1] == last);
        }
        if row_bars(rows, from, to) is Ok {
            assert forall|i: int| 0 <= i < rows.len() implies row_bar(#[trigger] rows[i], from, to)
                is Ok by {
                if i < front.len() {
                    assert(front[i] == rows[i]);
                }
            }
            let bars = row_bars(front, from, to)->Ok_0;
            let after = row_bars(rows, from, to)->Ok_0;
            if keep(last) {
                let bar = pick(last);
                assert(picked(rows, from, to) =~= picked(front, from, to).push(bar)) by {
                    assert(front.filter(keep).push(last).map_values(pick) =~= front.filter(
                        keep,
                    ).map_values(pick).push(bar));
                }
                law_bars_are_in_order(front, from, to);
                lemma_insert_then_filter(bars, from, to, bar, day);
                let on = |b: BarView| b.date == day;
                assert(bars.filter(on) == picked(front, from, to).filter(on));
                assert(picked(rows, from, to).drop_last() =~= picked(front, from, to));
                assert(picked(rows, from, to).last() == bar);
                lemma_place(bars, from, to, bar.date);
            } else {
                assert(after == bars);
            }
        }
    } else {
        assert(rows.filter(keep).map_values(pick) =~= Seq::<BarView>::empty());
    }
}

/// A bar that is put where it belongs comes last among those of its day.
proof fn lemma_insert_then_filter(
    bars: Seq<BarView>,
    from: Civil,
    to: Civil,
    bar: BarView,
    day: Civil,
)
    requires
        in_day_order(bars, from, to),
    ensures
        ({
            let on = |b: BarView| b.date == day;
            bars.insert(place_of(bars, bar.date), bar).filter(on) == if bar.date == day {
                bars.filter(on).push(bar)
            } else {
                bars.filter(on)
            }
        }),
{
    let on = |b: BarView| b.date == day;
    let at = place_of(bars, bar.date);
    lemma_place(bars, from, to, bar.date);
    let low = bars.take(at);
    let high = bars.skip(at);
    let mid = seq![bar];
    assert(bars =~= low + high);
    assert(bars.insert(at, bar) =~= low + mid + high);
    Seq::filter_distributes_over_add(low, high, on);
    Seq::filter_distributes_over_add(low + mid, high, on);
    Seq::filter_distributes_over_add(low, mid, on);
    assert(mid.filter(on) =~= if bar.date == day {
        mid
    } else {
        Seq::empty()
    }) by {
        reveal(Seq::filter);
        assert(mid.drop_last() =~= Seq::<BarView>::empty());
        assert(mid.drop_last().filter(on) =~= Seq::<BarView>::empty());
    }
    if bar.date == day {
        assert forall|i: int| 0 <= i < high.len() implies !on(#[trigger] high[i]) by {
            assert(high[i] == bars[at + i]);
        }
        lemma_nothing_passes(high, on);
        assert((low + mid).filter(on) + high.filter(on) =~= (low.filter(on) + high.filter(on)).push(
            bar,
        ));
    } else {
        assert((low + mid).filter(on) + high.filter(on) =~= low.filter(on) + high.filter(on));
    }
}

proof fn lemma_nothing_passes(bars: Seq<BarView>, on: spec_fn(BarView) -> bool)
    requires
        forall|i: int| 0 <= i < bars.len() ==> !on(#[trigger] bars[i]),
    ensures
        bars.filter(on) == Seq::<BarView>::empty(),
    decreases bars.len(),
{
    reveal(Seq::filter);
    if bars.len() > 0 {
        assert forall|i: int| 0 <= i < bars.drop_last().len() implies !on(
            #[trigger] bars.drop_last()[i],
        ) by {
            assert(bars.drop_last()[i] == bars[i]);
        }
        lemma_nothing_passes(bars.drop_last(), on);
        assert(!on(bars[bars.len() - 1]));
    }
}

/// A date is what its trimmed text parses as, and a configuration error otherwise.
pub proof fn law_dates_are_read_as_parsed(raw: Seq<char>, parsed: Result<(i32, u8, u8), Seq<char>>)
    ensures
        parsed matches Ok((year, month, day)) ==> day_of_parsed(raw, parsed) == Ok::<
            Civil,
            Failure,
        >(Civil { year: year as int, month: month as int, day: day as int }),
        parsed is Err ==> day_of_parsed(raw, parsed) is Err && day_of_parsed(raw, parsed)->Err_0
            is Config,
{
}

} // verus!
