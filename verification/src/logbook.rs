use vstd::prelude::*;

use crate::flight::Flight;
use crate::flight::FlightView;
use crate::flightlist::lines_of;
use crate::flightlist::FlightList;

verus! {

/// Totals over any number of lines: nine durations in minutes and four counters.
pub struct TotalsView {
    pub multi_pilot_time: int,
    pub total_flight_time: int,
    pub takeoff_day: int,
    pub takeoff_night: int,
    pub landing_day: int,
    pub landing_night: int,
    pub operational_condition_time_ifr: int,
    pub operational_condition_time_night: int,
    pub pilot_in_command_time: int,
    pub copilot_time: int,
    pub dual_time: int,
    pub instructor_time: int,
    pub sim_total_time_of_session: int,
}

impl TotalsView {
    /// The totals over no line.
    pub open spec fn zero() -> TotalsView {
        TotalsView {
            multi_pilot_time: 0,
            total_flight_time: 0,
            takeoff_day: 0,
            takeoff_night: 0,
            landing_day: 0,
            landing_night: 0,
            operational_condition_time_ifr: 0,
            operational_condition_time_night: 0,
            pilot_in_command_time: 0,
            copilot_time: 0,
            dual_time: 0,
            instructor_time: 0,
            sim_total_time_of_session: 0,
        }
    }

    /// The totals over the lines of both: each quantity is added to its like.
    pub open spec fn plus(self, other: TotalsView) -> TotalsView {
        TotalsView {
            multi_pilot_time: self.multi_pilot_time + other.multi_pilot_time,
            total_flight_time: self.total_flight_time + other.total_flight_time,
            takeoff_day: self.takeoff_day + other.takeoff_day,
            takeoff_night: self.takeoff_night + other.takeoff_night,
            landing_day: self.landing_day + other.landing_day,
            landing_night: self.landing_night + other.landing_night,
            operational_condition_time_ifr: self.operational_condition_time_ifr
                + other.operational_condition_time_ifr,
            operational_condition_time_night: self.operational_condition_time_night
                + other.operational_condition_time_night,
            pilot_in_command_time: self.pilot_in_command_time + other.pilot_in_command_time,
            copilot_time: self.copilot_time + other.copilot_time,
            dual_time: self.dual_time + other.dual_time,
            instructor_time: self.instructor_time + other.instructor_time,
            sim_total_time_of_session: self.sim_total_time_of_session
                + other.sim_total_time_of_session,
        }
    }

    /// What one line adds: a session on a simulator its duration and nothing else, a flight
    /// everything but that.
    pub open spec fn of(flight: FlightView) -> TotalsView {
        if flight.is_sim {
            TotalsView {
                sim_total_time_of_session: flight.sim_total_time_of_session.0 as int,
                ..TotalsView::zero()
            }
        } else {
            TotalsView {
                multi_pilot_time: flight.multi_pilot_time.0 as int,
                total_flight_time: flight.total_flight_time.0 as int,
                takeoff_day: flight.takeoff_day as int,
                takeoff_night: flight.takeoff_night as int,
                landing_day: flight.landing_day as int,
                landing_night: flight.landing_night as int,
                operational_condition_time_ifr: flight.operational_condition_time_ifr.0 as int,
                operational_condition_time_night: flight.operational_condition_time_night.0 as int,
                pilot_in_command_time: flight.pilot_in_command_time.0 as int,
                copilot_time: flight.copilot_time.0 as int,
                dual_time: flight.dual_time.0 as int,
                instructor_time: flight.instructor_time.0 as int,
                sim_total_time_of_session: 0,
            }
        }
    }

    /// The totals over some lines.
    pub open spec fn sum(flights: Seq<FlightView>) -> TotalsView
        decreases flights.len(),
    {
        if flights.len() == 0 {
            TotalsView::zero()
        } else {
            TotalsView::sum(flights.drop_last()).plus(TotalsView::of(flights.last()))
        }
    }

    /// Whether the totals can be those of at most `lines` lines: no duration beyond what
    /// so many lines can hold, no counter beyond 255 for each.
    pub open spec fn within(self, lines: int) -> bool {
        &&& spans_within(self.multi_pilot_time, lines)
        &&& spans_within(self.total_flight_time, lines)
        &&& 0 <= self.takeoff_day <= 255 * lines
        &&& 0 <= self.takeoff_night <= 255 * lines
        &&& 0 <= self.landing_day <= 255 * lines
        &&& 0 <= self.landing_night <= 255 * lines
        &&& spans_within(self.operational_condition_time_ifr, lines)
        &&& spans_within(self.operational_condition_time_night, lines)
        &&& spans_within(self.pilot_in_command_time, lines)
        &&& spans_within(self.copilot_time, lines)
        &&& spans_within(self.dual_time, lines)
        &&& spans_within(self.instructor_time, lines)
        &&& spans_within(self.sim_total_time_of_session, lines)
    }
}

/// Whether a sum of minutes can be that of at most `lines` durations.
pub open spec fn spans_within(minutes: int, lines: int) -> bool {
    -0x8000_0000_0000_0000 * lines <= minutes <= 0x7fff_ffff_ffff_ffff * lines
}

/// Adding the totals over no line changes nothing.
pub proof fn lemma_zero_is_neutral(totals: TotalsView)
    ensures
        totals.plus(TotalsView::zero()) == totals,
        TotalsView::zero().plus(totals) == totals,
{
}

/// Totals can be added in any order.
pub proof fn lemma_plus_commutes(left: TotalsView, right: TotalsView)
    ensures
        left.plus(right) == right.plus(left),
{
}

/// Totals can be added in any grouping.
pub proof fn lemma_plus_associates(first: TotalsView, second: TotalsView, third: TotalsView)
    ensures
        first.plus(second).plus(third) == first.plus(second.plus(third)),
{
}

/// The totals over a list are those over its front added to those over its back, wherever
/// the list is cut.
pub proof fn lemma_sum_splits(front: Seq<FlightView>, back: Seq<FlightView>)
    ensures
        TotalsView::sum(front + back) == TotalsView::sum(front).plus(TotalsView::sum(back)),
    decreases back.len(),
{
    if back.len() == 0 {
        assert(front + back =~= front);
    } else {
        lemma_sum_splits(front, back.drop_last());
        assert((front + back).drop_last() =~= front + back.drop_last());
        assert((front + back).last() == back.last());
    }
}

/// One line adds what a list of one line sums up to, and keeps totals within one line more.
proof fn lemma_line_keeps_within(totals: TotalsView, flight: FlightView, lines: int)
    requires
        totals.within(lines),
        0 <= lines,
    ensures
        totals.plus(TotalsView::of(flight)).within(lines + 1),
{
}

/// Totals that are within a number of lines are within any larger number.
proof fn lemma_within_grows(totals: TotalsView, lines: int, more: int)
    requires
        totals.within(lines),
        0 <= lines <= more,
    ensures
        totals.within(more),
{
}

/// The line with the totals at the foot of a page. The numbers are wide enough for the
/// totals over as many lines as a list can hold.
#[derive(Clone, Copy, Debug, PartialEq, Eq)]
pub struct TotalLine {
    pub multi_pilot_time: i128,
    pub total_flight_time: i128,
    pub takeoff_day: u128,
    pub takeoff_night: u128,
    pub landing_day: u128,
    pub landing_night: u128,
    pub operational_condition_time_ifr: i128,
    pub operational_condition_time_night: i128,
    pub pilot_in_command_time: i128,
    pub copilot_time: i128,
    pub dual_time: i128,
    pub instructor_time: i128,
    pub sim_total_time_of_session: i128,
}

impl View for TotalLine {
    type V = TotalsView;

    open spec fn view(&self) -> TotalsView {
        TotalsView {
            multi_pilot_time: self.multi_pilot_time as int,
            total_flight_time: self.total_flight_time as int,
            takeoff_day: self.takeoff_day as int,
            takeoff_night: self.takeoff_night as int,
            landing_day: self.landing_day as int,
            landing_night: self.landing_night as int,
            operational_condition_time_ifr: self.operational_condition_time_ifr as int,
            operational_condition_time_night: self.operational_condition_time_night as int,
            pilot_in_command_time: self.pilot_in_command_time as int,
            copilot_time: self.copilot_time as int,
            dual_time: self.dual_time as int,
            instructor_time: self.instructor_time as int,
            sim_total_time_of_session: self.sim_total_time_of_session as int,
        }
    }
}

impl TotalLine {
    /// The totals over no line.
    pub fn zero() -> (totals: TotalLine)
        ensures
            totals@ == TotalsView::zero(),
    {
        TotalLine {
            multi_pilot_time: 0,
            total_flight_time: 0,
            takeoff_day: 0,
            takeoff_night: 0,
            landing_day: 0,
            landing_night: 0,
            operational_condition_time_ifr: 0,
            operational_condition_time_night: 0,
            pilot_in_command_time: 0,
            copilot_time: 0,
            dual_time: 0,
            instructor_time: 0,
            sim_total_time_of_session: 0,
        }
    }

    /// Adds one line to the totals, which so far hold fewer lines than a list can hold.
    pub fn add_flight(&mut self, flight: &Flight)
        requires
            exists|lines: int| 0 <= lines < usize::MAX && old(self)@.within(lines),
        ensures
            final(self)@ == old(self)@.plus(TotalsView::of(flight@)),
    {
        let ghost lines = choose|lines: int| 0 <= lines < usize::MAX && old(self)@.within(lines);
        proof {
            lemma_line_keeps_within(self@, flight@, lines);
            lemma_within_grows(self@.plus(TotalsView::of(flight@)), lines + 1, 0xffff_ffff_ffff_ffff);
        }
        if !flight.is_sim {
            self.multi_pilot_time = self.multi_pilot_time + flight.multi_pilot_time.0 as i128;
            self.total_flight_time = self.total_flight_time + flight.total_flight_time.0 as i128;
            self.takeoff_day = self.takeoff_day + flight.takeoff_day as u128;
            self.takeoff_night = self.takeoff_night + flight.takeoff_night as u128;
            self.landing_day = self.landing_day + flight.landing_day as u128;
            self.landing_night = self.landing_night + flight.landing_night as u128;
            self.operational_condition_time_ifr = self.operational_condition_time_ifr
                + flight.operational_condition_time_ifr.0 as i128;
            self.operational_condition_time_night = self.operational_condition_time_night
                + flight.operational_condition_time_night.0 as i128;
            self.pilot_in_command_time = self.pilot_in_command_time
                + flight.pilot_in_command_time.0 as i128;
            self.copilot_time = self.copilot_time + flight.copilot_time.0 as i128;
            self.dual_time = self.dual_time + flight.dual_time.0 as i128;
            self.instructor_time = self.instructor_time + flight.instructor_time.0 as i128;
        } else {
            self.sim_total_time_of_session = self.sim_total_time_of_session
                + flight.sim_total_time_of_session.0 as i128;
        }
    }
}

/// A page of the logbook as plain values.
pub struct PageView {
    pub flights: Seq<FlightView>,
    pub total_this_page: TotalsView,
    pub total_from_previous_pages: TotalsView,
    pub total_this_book: TotalsView,
    pub total_overall: TotalsView,
}

/// A book of the logbook as plain values.
pub struct BookView {
    pub pages: Seq<PageView>,
}

/// A page of the logbook: its lines, and four totals for its foot.
#[derive(Debug)]
pub struct JeppesenPage {
    pub flightlinelist: Vec<Flight>,
    /// Over the lines of this page.
    pub total_this_page: TotalLine,
    /// Over every line before this page.
    pub total_from_previous_pages: TotalLine,
    /// Over the lines behind the last end of a book, up to the end of this page.
    pub total_this_book: TotalLine,
    /// Over every line up to the end of this page.
    pub total_overall: TotalLine,
}

impl View for JeppesenPage {
    type V = PageView;

    open spec fn view(&self) -> PageView {
        PageView {
            flights: lines_of(self.flightlinelist@),
            total_this_page: self.total_this_page@,
            total_from_previous_pages: self.total_from_previous_pages@,
            total_this_book: self.total_this_book@,
            total_overall: self.total_overall@,
        }
    }
}

/// The pages of a list as plain values.
pub open spec fn pages_of(pages: Seq<JeppesenPage>) -> Seq<PageView> {
    Seq::new(pages.len(), |i: int| pages[i]@)
}

/// The books of a list as plain values.
pub open spec fn books_of(books: Seq<JeppesenBook>) -> Seq<BookView> {
    Seq::new(books.len(), |i: int| books[i]@)
}

/// A book of the logbook: the pages that were closed before the book was, in their order.
/// It has none where a book ends before its first page does.
#[derive(Debug)]
pub struct JeppesenBook {
    pub pages: Vec<JeppesenPage>,
}

impl View for JeppesenBook {
    type V = BookView;

    open spec fn view(&self) -> BookView {
        BookView { pages: pages_of(self.pages@) }
    }
}

/// The logbook as it is printed: its books in their order.
#[derive(Debug)]
pub struct JeppesenBookShelfHtml {
    pub bookshelf: Vec<JeppesenBook>,
}

impl View for JeppesenBookShelfHtml {
    type V = Seq<BookView>;

    open spec fn view(&self) -> Seq<BookView> {
        books_of(self.bookshelf@)
    }
}

/// Where the making of the logbook stands between two lines: the books that are closed,
/// the pages that are closed in the open book, and the open page with its running totals.
pub struct Paginator {
    pub shelf: Seq<BookView>,
    pub book: Seq<PageView>,
    pub page: PageView,
}

impl Paginator {
    /// Before the first line: nothing closed, an empty page, every total zero.
    pub open spec fn start() -> Paginator {
        Paginator {
            shelf: Seq::empty(),
            book: Seq::empty(),
            page: PageView {
                flights: Seq::empty(),
                total_this_page: TotalsView::zero(),
                total_from_previous_pages: TotalsView::zero(),
                total_this_book: TotalsView::zero(),
                total_overall: TotalsView::zero(),
            },
        }
    }

    /// The open page with one more line, which counts in its three running totals.
    pub open spec fn page_with(self, flight: FlightView) -> PageView {
        PageView {
            flights: self.page.flights.push(flight),
            total_this_page: self.page.total_this_page.plus(TotalsView::of(flight)),
            total_from_previous_pages: self.page.total_from_previous_pages,
            total_this_book: self.page.total_this_book.plus(TotalsView::of(flight)),
            total_overall: self.page.total_overall.plus(TotalsView::of(flight)),
        }
    }

    /// The open page closed: it goes to the open book, and the next page, which has no
    /// line yet, carries forward the totals over all lines so far.
    pub open spec fn close_page(self) -> Paginator {
        Paginator {
            shelf: self.shelf,
            book: self.book.push(self.page),
            page: PageView {
                flights: Seq::empty(),
                total_this_page: TotalsView::zero(),
                total_from_previous_pages: self.page.total_overall,
                total_this_book: self.page.total_this_book,
                total_overall: self.page.total_overall,
            },
        }
    }

    /// The open book closed: it goes to the shelf with the pages that are closed, and the
    /// totals of the book start again at zero. The open page stays open.
    pub open spec fn close_book(self) -> Paginator {
        Paginator {
            shelf: self.shelf.push(BookView { pages: self.book }),
            book: Seq::empty(),
            page: PageView { total_this_book: TotalsView::zero(), ..self.page },
        }
    }

    /// One line further. The line goes to the open page. The page closes behind a line
    /// that is marked as the end of a page, and behind the last line. The book closes
    /// behind a line that is marked as the end of a book, and behind the last line,
    /// whether the page closes there or not; where both close, the page closes first and
    /// is the last of the book.
    pub open spec fn step(self, flight: FlightView, is_last: bool) -> Paginator {
        let with_line = Paginator { page: self.page_with(flight), ..self };
        let paged = if flight.end_of_page || is_last {
            with_line.close_page()
        } else {
            with_line
        };
        if flight.end_of_book || is_last {
            paged.close_book()
        } else {
            paged
        }
    }

    /// The shelf once every line from `next` on has gone in.
    pub open spec fn run(self, flights: Seq<FlightView>, next: int) -> Seq<BookView>
        decreases flights.len() - next,
    {
        if next < 0 || next >= flights.len() {
            self.shelf
        } else {
            self.step(flights[next], next == flights.len() - 1).run(flights, next + 1)
        }
    }
}

/// The logbook that a list of lines makes: its books, their pages, and on each page its
/// lines and its four totals.
pub open spec fn paginate(flights: Seq<FlightView>) -> Seq<BookView> {
    Paginator::start().run(flights, 0)
}

impl JeppesenBookShelfHtml {
    /// Lays the lines of a list out in pages and books, with the totals of each page. A
    /// list without lines makes a shelf without books.
    pub fn build_from(flightlist: &FlightList) -> (shelf: Self)
        ensures
            shelf@ == paginate(flightlist@.flights),
    {
        let ghost all = flightlist@.flights;
        let mut bookshelf: Vec<JeppesenBook> = Vec::new();
        let mut jeppesen_book = JeppesenBook { pages: Vec::new() };
        let mut jeppesen_page = JeppesenPage {
            flightlinelist: Vec::new(),
            total_this_page: TotalLine::zero(),
            total_from_previous_pages: TotalLine::zero(),
            total_this_book: TotalLine::zero(),
            total_overall: TotalLine::zero(),
        };
        let count = flightlist.flights.len();
        let mut index: usize = 0;
        assert(books_of(bookshelf@) =~= Seq::<BookView>::empty());
        assert(pages_of(jeppesen_book.pages@) =~= Seq::<PageView>::empty());
        assert(lines_of(jeppesen_page.flightlinelist@) =~= Seq::<FlightView>::empty());
        while index < count
            invariant
                count == flightlist.flights.len(),
                index <= count,
                all == flightlist@.flights,
                jeppesen_page.total_this_page@.within(index as int),
                jeppesen_page.total_this_book@.within(index as int),
                jeppesen_page.total_overall@.within(index as int),
                paginate(all) == (Paginator {
                    shelf: books_of(bookshelf@),
                    book: pages_of(jeppesen_book.pages@),
                    page: jeppesen_page@,
                }).run(all, index as int),
            decreases count - index,
        {
            let flight = &flightlist.flights[index];
            let ghost before = Paginator {
                shelf: books_of(bookshelf@),
                book: pages_of(jeppesen_book.pages@),
                page: jeppesen_page@,
            };
            let ghost lines = lines_of(jeppesen_page.flightlinelist@);
            assert(all[index as int] == flight@);
            jeppesen_page.flightlinelist.push(flight.clone());
            assert(lines_of(jeppesen_page.flightlinelist@) =~= lines.push(flight@));
            jeppesen_page.total_this_page.add_flight(flight);
            jeppesen_page.total_this_book.add_flight(flight);
            jeppesen_page.total_overall.add_flight(flight);
            proof {
                lemma_line_keeps_within(before.page.total_this_page, flight@, index as int);
                lemma_line_keeps_within(before.page.total_this_book, flight@, index as int);
                lemma_line_keeps_within(before.page.total_overall, flight@, index as int);
            }
            assert(jeppesen_page@ == before.page_with(flight@));

            let ghost with_line = Paginator { page: before.page_with(flight@), ..before };
            if flight.end_of_page || index == count - 1 {
                let mut next_page = JeppesenPage {
                    flightlinelist: Vec::new(),
                    total_this_page: TotalLine::zero(),
                    total_from_previous_pages: jeppesen_page.total_overall,
                    total_this_book: jeppesen_page.total_this_book,
                    total_overall: jeppesen_page.total_overall,
                };
                assert(lines_of(next_page.flightlinelist@) =~= Seq::<FlightView>::empty());
                core::mem::swap(&mut jeppesen_page, &mut next_page);
                let ghost pages = pages_of(jeppesen_book.pages@);
                jeppesen_book.pages.push(next_page);
                assert(pages_of(jeppesen_book.pages@) =~= pages.push(before.page_with(flight@)));
            }
            let ghost paged = Paginator {
                shelf: books_of(bookshelf@),
                book: pages_of(jeppesen_book.pages@),
                page: jeppesen_page@,
            };
            assert(paged == if flight.end_of_page || index == count - 1 {
                with_line.close_page()
            } else {
                with_line
            });
            if flight.end_of_book || index == count - 1 {
                let mut next_book = JeppesenBook { pages: Vec::new() };
                assert(pages_of(next_book.pages@) =~= Seq::<PageView>::empty());
                core::mem::swap(&mut jeppesen_book, &mut next_book);
                let ghost books = books_of(bookshelf@);
                bookshelf.push(next_book);
                assert(books_of(bookshelf@) =~= books.push(BookView { pages: paged.book }));
                jeppesen_page.total_this_book = TotalLine::zero();
            }
            assert((Paginator {
                shelf: books_of(bookshelf@),
                book: pages_of(jeppesen_book.pages@),
                page: jeppesen_page@,
            }) == before.step(flight@, index == count - 1));
            index += 1;
        }
        JeppesenBookShelfHtml { bookshelf }
    }
}

/// The lines of some pages, page after page.
pub open spec fn lines_of_pages(pages: Seq<PageView>) -> Seq<FlightView>
    decreases pages.len(),
{
    if pages.len() == 0 {
        Seq::empty()
    } else {
        lines_of_pages(pages.drop_last()) + pages.last().flights
    }
}

/// The lines of some books, book after book.
pub open spec fn lines_of_books(books: Seq<BookView>) -> Seq<FlightView>
    decreases books.len(),
{
    if books.len() == 0 {
        Seq::empty()
    } else {
        lines_of_books(books.drop_last()) + lines_of_pages(books.last().pages)
    }
}

/// What holds of every page that is printed: it has a line; only its last line is marked
/// as the end of a page, if any is; the total of the page is that of its lines; and the
/// overall total is what was carried forward and the total of the page.
pub open spec fn page_is_sound(page: PageView) -> bool {
    &&& page.flights.len() > 0
    &&& forall|i: int| 0 <= i < page.flights.len() - 1 ==> !(#[trigger] page.flights[i]).end_of_page
    &&& page.total_this_page == TotalsView::sum(page.flights)
    &&& page.total_overall == page.total_from_previous_pages.plus(page.total_this_page)
}

/// Whether every page is sound.
pub open spec fn pages_are_sound(pages: Seq<PageView>) -> bool {
    forall|i: int| 0 <= i < pages.len() ==> page_is_sound(#[trigger] pages[i])
}

/// What holds of every book that is printed where each end of a book is the end of a page
/// as well: it has a page, every page is sound, and the total of the book on its last page
/// is that of all its lines.
pub open spec fn book_is_sound(book: BookView) -> bool {
    &&& book.pages.len() > 0
    &&& pages_are_sound(book.pages)
    &&& book.pages.last().total_this_book == TotalsView::sum(lines_of_pages(book.pages))
}

/// Whether every line that is marked as the end of a book is marked as the end of a page
/// as well.
pub open spec fn ends_of_books_end_pages(flights: Seq<FlightView>) -> bool {
    forall|i: int| 0 <= i < flights.len() && (#[trigger] flights[i]).end_of_book ==> flights[i].end_of_page
}

/// How many of the first `next` lines close a book: those marked as the end of a book, and
/// the last line of the list.
pub open spec fn books_closed(flights: Seq<FlightView>, next: int) -> int
    decreases next,
{
    if next <= 0 || next > flights.len() {
        0
    } else {
        books_closed(flights, next - 1) + if flights[next - 1].end_of_book || next == flights.len() {
            1int
        } else {
            0int
        }
    }
}

/// What holds between two lines, `next` lines having gone in.
spec fn is_on_track(state: Paginator, flights: Seq<FlightView>, next: int) -> bool {
    &&& 0 <= next <= flights.len()
    &&& state.shelf.len() == books_closed(flights, next)
    &&& forall|i: int| 0 <= i < state.shelf.len() ==> pages_are_sound((#[trigger] state.shelf[i]).pages)
    &&& pages_are_sound(state.book)
    &&& forall|i: int| 0 <= i < state.page.flights.len() ==> !(#[trigger] state.page.flights[i]).end_of_page
    &&& lines_of_books(state.shelf) + lines_of_pages(state.book) + state.page.flights
        == flights.take(next)
    &&& state.page.total_this_page == TotalsView::sum(state.page.flights)
    &&& state.page.total_overall == TotalsView::sum(flights.take(next))
    &&& state.page.total_overall == state.page.total_from_previous_pages.plus(
        state.page.total_this_page,
    )
    &&& next == flights.len() ==> state.book.len() == 0 && state.page.flights.len() == 0
    &&& next == flights.len() && next > 0 ==> state.shelf.len() > 0
        && state.shelf.last().pages.len() > 0 && state.shelf.last().pages.last().total_overall
        == TotalsView::sum(flights)
}

/// What holds besides between two lines where each end of a book is the end of a page.
spec fn is_well_kept(state: Paginator) -> bool {
    &&& forall|i: int| 0 <= i < state.shelf.len() ==> book_is_sound(#[trigger] state.shelf[i])
    &&& state.page.total_this_book == TotalsView::sum(
        lines_of_pages(state.book) + state.page.flights,
    )
}

/// The lines of some pages with one more page behind them.
proof fn lemma_lines_of_more_pages(pages: Seq<PageView>, page: PageView)
    ensures
        lines_of_pages(pages.push(page)) == lines_of_pages(pages) + page.flights,
{
    assert(pages.push(page).drop_last() =~= pages);
}

/// The lines of some books with one more book behind them.
proof fn lemma_lines_of_more_books(books: Seq<BookView>, book: BookView)
    ensures
        lines_of_books(books.push(book)) == lines_of_books(books) + lines_of_pages(book.pages),
{
    assert(books.push(book).drop_last() =~= books);
}

/// One line further keeps the making of the logbook on track.
proof fn lemma_step_stays_on_track(state: Paginator, flights: Seq<FlightView>, next: int)
    requires
        is_on_track(state, flights, next),
        next < flights.len(),
    ensures
        is_on_track(state.step(flights[next], next == flights.len() - 1), flights, next + 1),
{
    let flight = flights[next];
    let is_last = next == flights.len() - 1;
    let after = state.step(flight, is_last);
    let page = state.page_with(flight);
    let with_line = Paginator { page, ..state };
    let closes_page = flight.end_of_page || is_last;
    let closes_book = flight.end_of_book || is_last;
    let paged = if closes_page {
        with_line.close_page()
    } else {
        with_line
    };
    assert(flights.take(next + 1) =~= flights.take(next).push(flight));
    assert(flights.take(next + 1).drop_last() =~= flights.take(next));
    assert(page.flights.drop_last() =~= state.page.flights);
    if is_last {
        assert(flights.take(next + 1) =~= flights);
    }
    assert(books_closed(flights, next + 1) == books_closed(flights, next) + if closes_book {
        1int
    } else {
        0int
    });
    // The page.
    if closes_page {
        assert(page_is_sound(page)) by {
            assert forall|i: int| 0 <= i < page.flights.len() - 1 implies !(
            #[trigger] page.flights[i]).end_of_page by {
                assert(page.flights[i] == state.page.flights[i]);
            }
        }
        lemma_lines_of_more_pages(state.book, page);
        assert forall|i: int| 0 <= i < paged.book.len() implies page_is_sound(
            #[trigger] paged.book[i],
        ) by {
            if i < state.book.len() {
                assert(paged.book[i] == state.book[i]);
            }
        }
        assert(lines_of_pages(paged.book) + paged.page.flights =~= lines_of_pages(state.book)
            + page.flights);
    } else {
        assert forall|i: int| 0 <= i < paged.page.flights.len() implies !(
        #[trigger] paged.page.flights[i]).end_of_page by {
            if i < state.page.flights.len() {
                assert(paged.page.flights[i] == state.page.flights[i]);
            }
        }
    }
    assert(lines_of_books(paged.shelf) + lines_of_pages(paged.book) + paged.page.flights
        =~= flights.take(next + 1)) by {
        assert(lines_of_books(state.shelf) + lines_of_pages(state.book) + page.flights =~= (
        lines_of_books(state.shelf) + lines_of_pages(state.book) + state.page.flights).push(flight));
    }
    // The book.
    if closes_book {
        lemma_lines_of_more_books(paged.shelf, BookView { pages: paged.book });
        assert(after.shelf.drop_last() =~= paged.shelf);
        assert forall|i: int| 0 <= i < after.shelf.len() implies pages_are_sound(
            (#[trigger] after.shelf[i]).pages,
        ) by {
            if i < state.shelf.len() {
                assert(after.shelf[i] == state.shelf[i]);
            }
        }
        assert(lines_of_pages(after.book) =~= Seq::<FlightView>::empty());
        assert(lines_of_books(after.shelf) + lines_of_pages(after.book) + after.page.flights
            =~= flights.take(next + 1));
    }
}

/// One line further keeps the books sound, where the line ends no book without ending a
/// page.
proof fn lemma_step_stays_well_kept(state: Paginator, flights: Seq<FlightView>, next: int)
    requires
        is_on_track(state, flights, next),
        is_well_kept(state),
        next < flights.len(),
        flights[next].end_of_book ==> flights[next].end_of_page,
    ensures
        is_well_kept(state.step(flights[next], next == flights.len() - 1)),
{
    let flight = flights[next];
    let is_last = next == flights.len() - 1;
    let after = state.step(flight, is_last);
    let page = state.page_with(flight);
    lemma_step_stays_on_track(state, flights, next);
    assert((lines_of_pages(state.book) + page.flights).drop_last() =~= lines_of_pages(state.book)
        + state.page.flights);
    assert((lines_of_pages(state.book) + page.flights).last() == flight);
    assert(page.total_this_book == TotalsView::sum(lines_of_pages(state.book) + page.flights));
    if flight.end_of_page || is_last {
        lemma_lines_of_more_pages(state.book, page);
        let pages = state.book.push(page);
        assert(lines_of_pages(pages) + Seq::<FlightView>::empty() =~= lines_of_pages(pages));
        if flight.end_of_book || is_last {
            let book = BookView { pages };
            assert(pages.last() == page);
            assert(pages_are_sound(pages)) by {
                assert forall|i: int| 0 <= i < pages.len() implies page_is_sound(
                    #[trigger] pages[i],
                ) by {
                    if i < state.book.len() {
                        assert(pages[i] == state.book[i]);
                    } else {
                        assert forall|j: int| 0 <= j < page.flights.len() - 1 implies !(
                        #[trigger] page.flights[j]).end_of_page by {
                            assert(page.flights[j] == state.page.flights[j]);
                        }
                    }
                }
            }
            assert(book_is_sound(book));
            assert forall|i: int| 0 <= i < after.shelf.len() implies book_is_sound(
                #[trigger] after.shelf[i],
            ) by {
                if i < state.shelf.len() {
                    assert(after.shelf[i] == state.shelf[i]);
                }
            }
            assert(lines_of_pages(after.book) + after.page.flights =~= Seq::<FlightView>::empty());
        }
    }
}

/// From a state on track, the shelf that comes out holds every line in its order, on
/// sound pages, and ends on the totals over all lines.
proof fn lemma_run_stays_on_track(state: Paginator, flights: Seq<FlightView>, next: int)
    requires
        is_on_track(state, flights, next),
    ensures
        lines_of_books(state.run(flights, next)) == flights,
        state.run(flights, next).len() == books_closed(flights, flights.len() as int),
        forall|i: int|
            0 <= i < state.run(flights, next).len() ==> pages_are_sound(
                (#[trigger] state.run(flights, next)[i]).pages,
            ),
        flights.len() > 0 ==> state.run(flights, next).len() > 0 && state.run(
            flights,
            next,
        ).last().pages.len() > 0 && state.run(flights, next).last().pages.last().total_overall
            == TotalsView::sum(flights),
    decreases flights.len() - next,
{
    if next < flights.len() {
        lemma_step_stays_on_track(state, flights, next);
        lemma_run_stays_on_track(
            state.step(flights[next], next == flights.len() - 1),
            flights,
            next + 1,
        );
    } else {
        assert(flights.take(next) =~= flights);
        assert(lines_of_pages(state.book) =~= Seq::<FlightView>::empty());
        assert(lines_of_books(state.shelf) + lines_of_pages(state.book) + state.page.flights
            =~= lines_of_books(state.shelf));
    }
}

/// From a state on track with sound books, the books that come out are sound, where no
/// line ends a book without ending a page.
proof fn lemma_run_stays_well_kept(state: Paginator, flights: Seq<FlightView>, next: int)
    requires
        is_on_track(state, flights, next),
        is_well_kept(state),
        ends_of_books_end_pages(flights),
    ensures
        forall|i: int|
            0 <= i < state.run(flights, next).len() ==> book_is_sound(
                #[trigger] state.run(flights, next)[i],
            ),
    decreases flights.len() - next,
{
    if next < flights.len() {
        assert(flights[next].end_of_book ==> flights[next].end_of_page);
        lemma_step_stays_on_track(state, flights, next);
        lemma_step_stays_well_kept(state, flights, next);
        let after = state.step(flights[next], next == flights.len() - 1);
        lemma_run_stays_well_kept(after, flights, next + 1);
        assert(state.run(flights, next) == after.run(flights, next + 1));
    } else {
        assert(state.run(flights, next) == state.shelf);
    }
}

/// The making of the logbook starts on track.
proof fn lemma_start_is_on_track(flights: Seq<FlightView>)
    ensures
        is_on_track(Paginator::start(), flights, 0),
        is_well_kept(Paginator::start()),
{
    let start = Paginator::start();
    assert(flights.take(0) =~= Seq::<FlightView>::empty());
    assert(lines_of_books(start.shelf) + lines_of_pages(start.book) + start.page.flights
        =~= Seq::<FlightView>::empty());
    assert(lines_of_pages(start.book) + start.page.flights =~= Seq::<FlightView>::empty());
}

/// The overall total on the last page of the last book is the total over every line of the
/// list, whatever pages and books the markers of the lines make.
pub proof fn lemma_last_page_holds_grand_total(flights: Seq<FlightView>)
    requires
        flights.len() > 0,
    ensures
        paginate(flights).len() > 0,
        paginate(flights).last().pages.len() > 0,
        paginate(flights).last().pages.last().total_overall == TotalsView::sum(flights),
{
    lemma_logbook_holds_every_line(flights);
}

/// The logbook holds every line of the list once, in the order of the list, and each of
/// its pages is sound. It has a book for each line that is marked as the end of a book,
/// and one for the last line of the list if that is not marked; so a list without lines
/// makes no book.
pub proof fn lemma_logbook_holds_every_line(flights: Seq<FlightView>)
    ensures
        lines_of_books(paginate(flights)) == flights,
        paginate(flights).len() == books_closed(flights, flights.len() as int),
        forall|i: int|
            0 <= i < paginate(flights).len() ==> pages_are_sound((#[trigger] paginate(flights)[i]).pages),
        flights.len() > 0 ==> paginate(flights).len() > 0 && paginate(flights).last().pages.len()
            > 0 && paginate(flights).last().pages.last().total_overall == TotalsView::sum(flights),
        flights.len() == 0 ==> paginate(flights).len() == 0,
{
    lemma_start_is_on_track(flights);
    lemma_run_stays_on_track(Paginator::start(), flights, 0);
}

/// Where every line that is marked as the end of a book is marked as the end of a page as
/// well, each book of the logbook is sound: none is empty, and the total of the book on
/// its last page is that of its lines.
pub proof fn lemma_logbook_is_sound(flights: Seq<FlightView>)
    requires
        ends_of_books_end_pages(flights),
    ensures
        forall|i: int|
            0 <= i < paginate(flights).len() ==> book_is_sound(#[trigger] paginate(flights)[i]),
{
    lemma_start_is_on_track(flights);
    lemma_run_stays_well_kept(Paginator::start(), flights, 0);
}

} // verus!
