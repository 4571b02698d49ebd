use vstd::prelude::*;

use crate::flight::FlightView;
use crate::flightlist::FlightList;
use crate::logbook::spans_within;

verus! {

/// A stretch of the calendar, in whole months.
pub enum Stretch {
    /// One month of one year.
    Month { year: int, month: int },
    /// The months of one year up to a month, that month included.
    YearUpTo { year: int, month: int },
    /// Every month up to a month of a year, that month included.
    AllUpTo { year: int, month: int },
}

impl Stretch {
    /// Whether a line is of a day of this stretch.
    pub open spec fn holds(self, flight: FlightView) -> bool {
        match self {
            Stretch::Month { year, month } => flight.date.year == year && flight.date.month == month,
            Stretch::YearUpTo { year, month } => flight.date.year == year && flight.date.month
                <= month,
            Stretch::AllUpTo { year, month } => flight.date.year < year || (flight.date.year == year
                && flight.date.month <= month),
        }
    }
}

/// The total flight time of the lines of a stretch, in minutes.
pub open spec fn time_in(flights: Seq<FlightView>, stretch: Stretch) -> int
    decreases flights.len(),
{
    if flights.len() == 0 {
        0
    } else {
        time_in(flights.drop_last(), stretch) + if stretch.holds(flights.last()) {
            flights.last().total_flight_time.0 as int
        } else {
            0
        }
    }
}

/// Whether no line is of an earlier year than `year`, and one is of that year.
pub open spec fn is_first_year(flights: Seq<FlightView>, year: int) -> bool {
    &&& forall|i: int| 0 <= i < flights.len() ==> year <= (#[trigger] flights[i]).date.year
    &&& exists|i: int| 0 <= i < flights.len() && (#[trigger] flights[i]).date.year == year
}

/// Whether no line is of a later year than `year`, and one is of that year.
pub open spec fn is_last_year(flights: Seq<FlightView>, year: int) -> bool {
    &&& forall|i: int| 0 <= i < flights.len() ==> (#[trigger] flights[i]).date.year <= year
    &&& exists|i: int| 0 <= i < flights.len() && (#[trigger] flights[i]).date.year == year
}

/// The flight time of one month, with the running totals at its end.
#[derive(Clone, Copy, Debug, PartialEq, Eq)]
pub struct MonthHtml {
    /// Over the month, in minutes.
    pub total_month: i128,
    /// Over the year up to the end of the month, in minutes.
    pub total_this_year: i128,
    /// Over everything up to the end of the month, in minutes.
    pub total_overall: i128,
}

/// The twelve months of one year.
#[derive(Debug)]
pub struct YearHtml {
    pub year: i32,
    pub months: Vec<MonthHtml>,
}

/// The flight time of a logbook month by month, for every year from that of its first line
/// to that of its last.
#[derive(Debug)]
pub struct YearsRangeHtml {
    pub years: Vec<YearHtml>,
}

/// Whether a row is that of `year` for these lines.
pub open spec fn is_year_of(row: YearHtml, flights: Seq<FlightView>, year: int) -> bool {
    &&& row.year == year
    &&& row.months@.len() == 12
    &&& forall|m: int|
        0 <= m < 12 ==> {
            &&& (#[trigger] row.months@[m]).total_month == time_in(
                flights,
                Stretch::Month { year, month: m + 1 },
            )
            &&& row.months@[m].total_this_year == time_in(
                flights,
                Stretch::YearUpTo { year, month: m + 1 },
            )
            &&& row.months@[m].total_overall == time_in(
                flights,
                Stretch::AllUpTo { year, month: m + 1 },
            )
        }
}

/// Whether a table is that of these lines: no row where there is no line; else a row for
/// each year from the first to the last, in their order.
pub open spec fn is_table_of(rows: Seq<YearHtml>, flights: Seq<FlightView>) -> bool {
    if flights.len() == 0 {
        rows.len() == 0
    } else {
        &&& rows.len() > 0
        &&& is_first_year(flights, rows[0].year as int)
        &&& is_last_year(flights, rows.last().year as int)
        &&& forall|k: int|
            0 <= k < rows.len() ==> is_year_of(#[trigger] rows[k], flights, rows[0].year + k)
    }
}

/// The time of a stretch is that of any two stretches that share its lines between them.
proof fn lemma_time_adds_up(flights: Seq<FlightView>, whole: Stretch, left: Stretch, right: Stretch)
    requires
        forall|flight: FlightView|
            #![trigger whole.holds(flight)]
            (whole.holds(flight) <==> left.holds(flight) || right.holds(flight)) && !(left.holds(
                flight,
            ) && right.holds(flight)),
    ensures
        time_in(flights, whole) == time_in(flights, left) + time_in(flights, right),
    decreases flights.len(),
{
    if flights.len() > 0 {
        lemma_time_adds_up(flights.drop_last(), whole, left, right);
        assert(whole.holds(flights.last()) <==> left.holds(flights.last()) || right.holds(
            flights.last(),
        ));
    }
}

/// A stretch that holds no line holds no time.
proof fn lemma_no_line_no_time(flights: Seq<FlightView>, stretch: Stretch)
    requires
        forall|i: int| 0 <= i < flights.len() ==> !stretch.holds(#[trigger] flights[i]),
    ensures
        time_in(flights, stretch) == 0,
    decreases flights.len(),
{
    if flights.len() > 0 {
        assert(!stretch.holds(flights[flights.len() - 1]));
        assert forall|i: int| 0 <= i < flights.drop_last().len() implies !stretch.holds(
            #[trigger] flights.drop_last()[i],
        ) by {
            assert(flights.drop_last()[i] == flights[i]);
        }
        lemma_no_line_no_time(flights.drop_last(), stretch);
    }
}

/// The time of a stretch is no more than its lines can hold.
proof fn lemma_time_is_bounded(flights: Seq<FlightView>, stretch: Stretch)
    ensures
        spans_within(time_in(flights, stretch), flights.len() as int),
    decreases flights.len(),
{
    if flights.len() > 0 {
        lemma_time_is_bounded(flights.drop_last(), stretch);
    }
}

/// The first and the last year of some lines, if there is a line.
fn year_range(flight_list: &FlightList) -> (range: Option<(i32, i32)>)
    ensures
        range is None <==> flight_list@.flights.len() == 0,
        range matches Some(years) ==> is_first_year(flight_list@.flights, years.0 as int)
            && is_last_year(flight_list@.flights, years.1 as int) && -9999 <= years.0 <= years.1
            <= 9999,
{
    let ghost all = flight_list@.flights;
    if flight_list.flights.len() == 0 {
        return None;
    }
    let mut year_min = flight_list.flights[0].date.year();
    let mut year_max = year_min;
    proof {
        assert(all[0] == flight_list.flights@[0]@);
        assert(all[0].date.year == year_min);
    }
    let mut index: usize = 1;
    while index < flight_list.flights.len()
        invariant
            1 <= index <= flight_list.flights.len(),
            all == flight_list@.flights,
            -9999 <= year_min <= year_max <= 9999,
            forall|i: int| 0 <= i < index ==> year_min <= (#[trigger] all[i]).date.year <= year_max,
            exists|i: int| 0 <= i < index && (#[trigger] all[i]).date.year == year_min,
            exists|i: int| 0 <= i < index && (#[trigger] all[i]).date.year == year_max,
        decreases flight_list.flights.len() - index,
    {
        let year = flight_list.flights[index].date.year();
        assert(all[index as int] == flight_list.flights@[index as int]@);
        let ghost low = choose|i: int| 0 <= i < index && (#[trigger] all[i]).date.year == year_min;
        let ghost high = choose|i: int| 0 <= i < index && (#[trigger] all[i]).date.year == year_max;
        if year < year_min {
            year_min = year;
            assert(all[index as int].date.year == year_min);
            assert(all[high].date.year == year_max);
        } else if year > year_max {
            year_max = year;
            assert(all[index as int].date.year == year_max);
            assert(all[low].date.year == year_min);
        } else {
            assert(all[low].date.year == year_min);
            assert(all[high].date.year == year_max);
        }
        index += 1;
    }
    proof {
        let low = choose|i: int| 0 <= i < index && (#[trigger] all[i]).date.year == year_min;
        let high = choose|i: int| 0 <= i < index && (#[trigger] all[i]).date.year == year_max;
        assert(all[low].date.year == year_min);
        assert(all[high].date.year == year_max);
    }
    Some((year_min, year_max))
}

/// Stretches that hold the same lines of a list hold the same time.
proof fn lemma_same_lines_same_time(flights: Seq<FlightView>, left: Stretch, right: Stretch)
    requires
        forall|i: int|
            0 <= i < flights.len() ==> left.holds(#[trigger] flights[i]) == right.holds(flights[i]),
    ensures
        time_in(flights, left) == time_in(flights, right),
    decreases flights.len(),
{
    if flights.len() > 0 {
        assert(left.holds(flights[flights.len() - 1]) == right.holds(flights[flights.len() - 1]));
        assert forall|i: int| 0 <= i < flights.drop_last().len() implies left.holds(
            #[trigger] flights.drop_last()[i],
        ) == right.holds(flights.drop_last()[i]) by {
            assert(flights.drop_last()[i] == flights[i]);
        }
        lemma_same_lines_same_time(flights.drop_last(), left, right);
    }
}

/// The time of month `m` of the `k`-th year among the times of all months, year by year.
spec fn cell(cells: Seq<i128>, k: int, m: int) -> i128 {
    cells[k * 12 + m]
}

/// Whether the cells hold the time of each month of each year from `first` on.
spec fn cells_hold(cells: Seq<i128>, flights: Seq<FlightView>, first: int, years: int) -> bool {
    &&& cells.len() == years * 12
    &&& forall|k: int, m: int|
        0 <= k < years && 0 <= m < 12 ==> #[trigger] cell(cells, k, m) == time_in(
            flights,
            Stretch::Month { year: first + k, month: m + 1 },
        )
}

/// Adds up the total flight time of each month of each year from `year_min` to `year_max`.
fn month_totals(flight_list: &FlightList, year_min: i32, year_max: i32) -> (cells: Vec<i128>)
    requires
        -9999 <= year_min <= year_max <= 9999,
        is_first_year(flight_list@.flights, year_min as int),
        is_last_year(flight_list@.flights, year_max as int),
    ensures
        cells_hold(cells@, flight_list@.flights, year_min as int, year_max - year_min + 1),
        forall|i: int|
            0 <= i < flight_list@.flights.len() ==> 1 <= (#[trigger] flight_list@.flights[i]).date.month
                <= 12,
{
    let ghost all = flight_list@.flights;
    let ghost years = year_max - year_min + 1;
    let length: usize = ((year_max - year_min) as usize + 1) * 12;
    let mut cells: Vec<i128> = Vec::new();
    while cells.len() < length
        invariant
            cells.len() <= length,
            forall|i: int| 0 <= i < cells.len() ==> cells@[i] == 0,
        decreases length - cells.len(),
    {
        cells.push(0);
    }
    assert(all.take(0) =~= Seq::<FlightView>::empty());
    assert(cells_hold(cells@, all.take(0), year_min as int, years)) by {
        assert forall|k: int, m: int| 0 <= k < years && 0 <= m < 12 implies #[trigger] cell(
            cells@,
            k,
            m,
        ) == 0 by {
            assert(0 <= k * 12 + m < cells.len());
        }
    }
    let mut index: usize = 0;
    while index < flight_list.flights.len()
        invariant
            index <= flight_list.flights.len(),
            all == flight_list@.flights,
            years == year_max - year_min + 1,
            -9999 <= year_min <= year_max <= 9999,
            is_first_year(all, year_min as int),
            is_last_year(all, year_max as int),
            cells_hold(cells@, all.take(index as int), year_min as int, years),
            forall|i: int| 0 <= i < index ==> 1 <= (#[trigger] all[i]).date.month <= 12,
        decreases flight_list.flights.len() - index,
    {
        let flight = &flight_list.flights[index];
        let year = flight.date.year();
        let month = flight.date.month();
        let ghost before = cells@;
        proof {
            assert(all[index as int] == flight@);
            assert(all.take(index + 1).drop_last() =~= all.take(index as int));
            assert(all.take(index + 1).last() == flight@);
            assert(year_min <= all[index as int].date.year <= year_max);
        }
        let k: usize = (year - year_min) as usize;
        let at: usize = k * 12 + month as usize;
        proof {
            assert(cell(before, k as int, month as int) == before[at as int]);
            lemma_time_is_bounded(
                all.take(index as int),
                Stretch::Month { year: year as int, month: month + 1 },
            );
        }
        let time = cells[at] + flight.total_flight_time.0 as i128;
        cells.set(at, time);
        proof {
            assert forall|j: int, m: int| 0 <= j < years && 0 <= m < 12 implies #[trigger] cell(
                cells@,
                j,
                m,
            ) == time_in(
                all.take(index + 1),
                Stretch::Month { year: year_min + j, month: m + 1 },
            ) by {
                assert(cell(before, j, m) == time_in(
                    all.take(index as int),
                    Stretch::Month { year: year_min + j, month: m + 1 },
                ));
                if j * 12 + m != at {
                    assert(cell(cells@, j, m) == cell(before, j, m));
                }
            }
        }
        index += 1;
    }
    assert(all.take(index as int) =~= all);
    cells
}

impl YearsRangeHtml {
    /// Adds up the total flight time of a logbook month by month, with the running totals
    /// of each year and of all years. A logbook without lines gives a table without rows.
    pub fn from_flight_list(flight_list: &FlightList) -> (table: Self)
        ensures
            is_table_of(table.years@, flight_list@.flights),
    {
        let ghost all = flight_list@.flights;
        let (year_min, year_max) = match year_range(flight_list) {
            Some(range) => range,
            None => {
                return YearsRangeHtml { years: Vec::new() };
            },
        };
        let cells = month_totals(flight_list, year_min, year_max);
        let lines = flight_list.flights.len();
        assert(all.len() == lines);
        let ghost count = year_max - year_min + 1;
        let mut years: Vec<YearHtml> = Vec::new();
        let mut accumulator_overall: i128 = 0;
        let mut year = year_min;
        proof {
            assert forall|i: int| 0 <= i < all.len() implies !(Stretch::AllUpTo {
                year: year_min as int,
                month: 0,
            }).holds(#[trigger] all[i]) by {}
            lemma_no_line_no_time(all, Stretch::AllUpTo { year: year_min as int, month: 0 });
        }
        while year <= year_max
            invariant
                -9999 <= year_min <= year <= year_max + 1 <= 10000,
                count == year_max - year_min + 1,
                all == flight_list@.flights,
                all.len() <= usize::MAX,
                cells_hold(cells@, all, year_min as int, count),
                forall|i: int| 0 <= i < all.len() ==> 1 <= (#[trigger] all[i]).date.month <= 12,
                years@.len() == year - year_min,
                forall|k: int|
                    0 <= k < years@.len() ==> is_year_of(#[trigger] years@[k], all, year_min + k),
                accumulator_overall == time_in(all, Stretch::AllUpTo { year: year as int, month: 0 }),
            decreases year_max + 1 - year,
        {
            let k: usize = (year - year_min) as usize;
            let mut months: Vec<MonthHtml> = Vec::new();
            let mut accumulator_year: i128 = 0;
            let mut month: usize = 0;
            proof {
                assert forall|i: int| 0 <= i < all.len() implies !(Stretch::YearUpTo {
                    year: year as int,
                    month: 0,
                }).holds(#[trigger] all[i]) by {}
                lemma_no_line_no_time(all, Stretch::YearUpTo { year: year as int, month: 0 });
            }
            while month < 12
                invariant
                    month <= 12,
                    all.len() <= usize::MAX,
                    k == year - year_min,
                    0 <= k < count,
                    count == year_max - year_min + 1,
                    -9999 <= year_min <= year <= year_max <= 9999,
                    cells_hold(cells@, all, year_min as int, count),
                    months@.len() == month,
                    forall|m: int|
                        0 <= m < month ==> {
                            &&& (#[trigger] months@[m]).total_month == time_in(
                                all,
                                Stretch::Month { year: year as int, month: m + 1 },
                            )
                            &&& months@[m].total_this_year == time_in(
                                all,
                                Stretch::YearUpTo { year: year as int, month: m + 1 },
                            )
                            &&& months@[m].total_overall == time_in(
                                all,
                                Stretch::AllUpTo { year: year as int, month: m + 1 },
                            )
                        },
                    accumulator_year == time_in(
                        all,
                        Stretch::YearUpTo { year: year as int, month: month as int },
                    ),
                    accumulator_overall == time_in(
                        all,
                        Stretch::AllUpTo { year: year as int, month: month as int },
                    ),
                decreases 12 - month,
            {
                proof {
                    assert(cell(cells@, k as int, month as int) == cells@[k * 12 + month]);
                    lemma_time_adds_up(
                        all,
                        Stretch::YearUpTo { year: year as int, month: month + 1 },
                        Stretch::YearUpTo { year: year as int, month: month as int },
                        Stretch::Month { year: year as int, month: month + 1 },
                    );
                    lemma_time_adds_up(
                        all,
                        Stretch::AllUpTo { year: year as int, month: month + 1 },
                        Stretch::AllUpTo { year: year as int, month: month as int },
                        Stretch::Month { year: year as int, month: month + 1 },
                    );
                    lemma_time_is_bounded(
                        all,
                        Stretch::YearUpTo { year: year as int, month: month + 1 },
                    );
                    lemma_time_is_bounded(
                        all,
                        Stretch::AllUpTo { year: year as int, month: month + 1 },
                    );
                }
                let total_month = cells[k * 12 + month];
                accumulator_overall = accumulator_overall + total_month;
                accumulator_year = accumulator_year + total_month;
                months.push(
                    MonthHtml {
                        total_month,
                        total_this_year: accumulator_year,
                        total_overall: accumulator_overall,
                    },
                );
                month += 1;
            }
            proof {
                assert forall|i: int| 0 <= i < all.len() implies (Stretch::AllUpTo {
                    year: year as int,
                    month: 12,
                }).holds(#[trigger] all[i]) == (Stretch::AllUpTo { year: year + 1, month: 0 }).holds(
                    all[i],
                ) by {}
                lemma_same_lines_same_time(
                    all,
                    Stretch::AllUpTo { year: year as int, month: 12 },
                    Stretch::AllUpTo { year: year + 1, month: 0 },
                );
            }
            let ghost rows = years@;
            years.push(YearHtml { year, months });
            proof {
                assert forall|j: int| 0 <= j < years@.len() implies is_year_of(
                    #[trigger] years@[j],
                    all,
                    year_min + j,
                ) by {
                    if j < rows.len() {
                        assert(years@[j] == rows[j]);
                    }
                }
            }
            year += 1;
        }
        YearsRangeHtml { years }
    }
}

} // verus!
