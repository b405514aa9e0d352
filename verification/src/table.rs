//! The table as its owner sees it: a sort selection and a filter text,
//! changed by two kinds of event, and the rows that follow from them.

use vstd::prelude::*;
use crate::comparator::Comparator;
use crate::field::{PartialOrdBy, Sortable};
use crate::filter::{filter, kept, RowFilter};
use crate::order::Direction;
use crate::sort::{apply_sort, is_stable_sort, lemma_stable_sort_unique};
use crate::state::{toggled, SortState};

verus! {

/// What the surface that shows the table reports back.
#[derive(Debug)]
pub enum TableEvent<F> {
    /// The header of a column was clicked.
    HeaderClicked(F),
    /// The text in the search box is now this.
    FilterTextChanged(String),
}

/// The sort selection and the filter text, as plain values.
pub struct Selection<F> {
    pub sort: Option<(F, Direction)>,
    pub filter: Seq<char>,
}

/// The selection after an event: a click changes the sort selection and
/// nothing else, a new text replaces the filter text and nothing else.
pub open spec fn after<F>(s: Selection<F>, event: TableEvent<F>) -> Selection<F> {
    match event {
        TableEvent::HeaderClicked(field) => Selection { sort: toggled(s.sort, field), filter: s.filter },
        TableEvent::FilterTextChanged(text) => Selection { sort: s.sort, filter: text@ },
    }
}

/// The selection after a run of events, taken one after the other.
pub open spec fn after_all<F>(s: Selection<F>, events: Seq<TableEvent<F>>) -> Selection<F>
    decreases events.len(),
{
    if events.len() == 0 {
        s
    } else {
        after(after_all(s, events.drop_last()), events.last())
    }
}

/// The state of a table: which field sorts it, and the text that its rows
/// are searched for. Neither is changed except by its own event.
#[derive(Debug)]
pub struct Table<F> {
    sort: SortState<F>,
    filter: String,
}

impl<F> View for Table<F> {
    type V = Selection<F>;

    closed spec fn view(&self) -> Selection<F> {
        Selection { sort: self.sort@, filter: self.filter@ }
    }
}

impl<F: Sortable> Table<F> {
    /// A table sorted by `field`, ascending, that shows every row.
    pub fn new(field: F) -> (t: Self)
        ensures
            t@.sort == Some((field, Direction::Ascending)),
            t@.filter.len() == 0,
    {
        Table { sort: SortState::new(field), filter: String::new() }
    }

    /// A table with the given sort selection and filter text.
    pub fn with(sort: SortState<F>, filter: String) -> (t: Self)
        ensures
            t@.sort == sort@,
            t@.filter == filter@,
    {
        Table { sort, filter }
    }

    /// The sort selection.
    pub fn sort_state(&self) -> (s: &SortState<F>)
        ensures
            s@ == self@.sort,
    {
        &self.sort
    }

    /// The filter text. The empty text filters nothing out.
    pub fn filter_text(&self) -> (text: &str)
        ensures
            text@ == self@.filter,
    {
        self.filter.as_str()
    }

    /// The click on the header of `field`. The filter text stays.
    pub fn toggle(&mut self, field: F)
        ensures
            final(self)@.sort == toggled(old(self)@.sort, field),
            final(self)@.filter == old(self)@.filter,
    {
        self.sort.toggle(field);
    }

    /// Replaces the filter text. The sort selection stays.
    pub fn set_filter(&mut self, text: String)
        ensures
            final(self)@.filter == text@,
            final(self)@.sort == old(self)@.sort,
    {
        self.filter = text;
    }

    /// Takes in one event.
    pub fn handle(&mut self, event: TableEvent<F>)
        ensures
            final(self)@ == after(old(self)@, event),
    {
        match event {
            TableEvent::HeaderClicked(field) => self.toggle(field),
            TableEvent::FilterTextChanged(text) => self.set_filter(text),
        }
    }
}

/// `out` is what a table shows of `records`: the rows that `predicate`
/// accepts, sorted by the active field, or in the order of `records` when
/// no field is active. Only accepted rows are ever compared.
pub open spec fn is_view<T, F: PartialOrdBy<T>, P: RowFilter<T>>(
    records: Seq<T>,
    predicate: P,
    sort: Option<(F, Direction)>,
    out: Seq<T>,
) -> bool {
    match sort {
        Some((field, direction)) => is_stable_sort(
            Comparator { field, direction },
            kept(predicate, records),
            out,
        ),
        None => out == kept(predicate, records),
    }
}

/// Returns the rows to show: first the filter, then the sort. Neither the
/// predicate nor the sort selection is changed.
pub fn derive_view<T, F: PartialOrdBy<T>, P: RowFilter<T>>(
    records: Vec<T>,
    predicate: &P,
    sort: &SortState<F>,
) -> (out: Vec<T>)
    ensures
        is_view(records@, *predicate, sort@, out@),
{
    let mut rows = filter(records, predicate);
    let comparator = sort.comparator();
    apply_sort(&mut rows, &comparator);
    rows
}

/// Records, predicate and sort selection determine the rows shown: how
/// the selection came about plays no part.
pub proof fn lemma_view_unique<T, F: PartialOrdBy<T>, P: RowFilter<T>>(
    records: Seq<T>,
    predicate: P,
    sort: Option<(F, Direction)>,
    first: Seq<T>,
    second: Seq<T>,
)
    requires
        is_view(records, predicate, sort, first),
        is_view(records, predicate, sort, second),
    ensures
        first == second,
{
    match sort {
        Some((field, direction)) => {
            lemma_stable_sort_unique(
                Comparator { field, direction },
                kept(predicate, records),
                first,
                second,
            );
        },
        None => {},
    }
}

/// A click and a change of the filter text can come in either order: the
/// selection afterwards is the same.
pub proof fn lemma_events_commute<F>(s: Selection<F>, field: F, text: String)
    ensures
        after(after(s, TableEvent::HeaderClicked(field)), TableEvent::FilterTextChanged(text))
            == after(after(s, TableEvent::FilterTextChanged(text)), TableEvent::HeaderClicked(field)),
        after(s, TableEvent::HeaderClicked(field)).filter == s.filter,
        after(s, TableEvent::FilterTextChanged(text)).sort == s.sort,
{
}

/// However clicks and changes of the filter text are interleaved, the
/// sort selection at the end is what the clicks alone lead to, and the
/// filter text at the end is what the changes of the text alone lead to.
pub proof fn lemma_interleaving<F>(s: Selection<F>, events: Seq<TableEvent<F>>)
    ensures
        after_all(s, events).sort == after_all(
            s,
            events.filter(|e: TableEvent<F>| e is HeaderClicked),
        ).sort,
        after_all(s, events).filter == after_all(
            s,
            events.filter(|e: TableEvent<F>| e is FilterTextChanged),
        ).filter,
    decreases events.len(),
{
    let clicks = |e: TableEvent<F>| e is HeaderClicked;
    let texts = |e: TableEvent<F>| e is FilterTextChanged;
    if events.len() == 0 {
        reveal(Seq::filter);
        assert(events.filter(clicks) =~= events);
        assert(events.filter(texts) =~= events);
    } else {
        let front = events.drop_last();
        let last = events.last();
        lemma_interleaving(s, front);
        assert(front.push(last) =~= events);
        front.lemma_filter_push(last, clicks);
        front.lemma_filter_push(last, texts);
        if last is HeaderClicked {
            assert(front.filter(clicks).push(last).drop_last() =~= front.filter(clicks));
        } else {
            assert(front.filter(texts).push(last).drop_last() =~= front.filter(texts));
        }
    }
}

} // verus!
