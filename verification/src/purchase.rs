//! The rows of the purchase table and the fields by which they are sorted.

use vstd::prelude::*;
use crate::comparator::Comparator;
use crate::field::{PartialOrdBy, Sortable};
use crate::filter::{kept, RowFilter};
use crate::order::{NullHandling, Order};
use crate::price::{compare_sizes, Price};
use crate::sort::{is_stable_sort, lemma_stable_sort_unique};
use crate::table::{derive_view, Selection, Table};
use crate::text::{
    chars_of,
    compare_text,
    contains_chars,
    is_substring,
    lowercased,
    occurs_at,
    to_lowercase,
    lemma_lexicographic_reflexive,
    lemma_lexicographic_reverse,
    lemma_lexicographic_transitive,
    text_order,
};

verus! {

/// One row of the table.
#[derive(Clone, Debug)]
pub struct Purchase {
    pub id: usize,
    pub name: String,
    pub description: String,
    pub price: Price,
    pub quantity: usize,
}

impl Purchase {
    /// A row with the given values.
    pub fn new(id: usize, name: &str, description: &str, price: Price, quantity: usize) -> (p:
        Purchase)
        ensures
            p.id == id,
            p.name@ == name@,
            p.description@ == description@,
            p.price == price,
            p.quantity == quantity,
    {
        Purchase {
            name: name.to_owned(),
            description: description.to_owned(),
            id,
            price,
            quantity,
        }
    }
}

/// The columns of the table, each a field of [`Purchase`].
#[derive(Clone, Copy, Debug, PartialEq, Eq, Structural)]
pub enum PurchaseField {
    Id,
    Name,
    Description,
    Price,
    Quantity,
}

impl Default for PurchaseField {
    /// The table starts out sorted by name.
    fn default() -> (f: PurchaseField)
        ensures
            f == PurchaseField::Name,
    {
        PurchaseField::Name
    }
}

impl Sortable for PurchaseField {
    /// Rows without a comparable value go last in every column.
    open spec fn null_placement(&self) -> NullHandling {
        NullHandling::Last
    }

    fn null_handling(&self) -> (r: NullHandling) {
        NullHandling::Last
    }

    fn is_field(&self, other: &Self) -> (r: bool) {
        *self == *other
    }
}

impl PartialOrdBy<Purchase> for PurchaseField {
    /// Texts compare as strings do, numbers as numbers. Only a price can
    /// fail to compare: when it is not a number.
    open spec fn partial_order(&self, a: &Purchase, b: &Purchase) -> Option<Order> {
        match self {
            PurchaseField::Name => Some(text_order(a.name@, b.name@)),
            PurchaseField::Description => Some(text_order(a.description@, b.description@)),
            PurchaseField::Id => Some(Order::of_ints(a.id as int, b.id as int)),
            PurchaseField::Price => a.price.partial_order(b.price),
            PurchaseField::Quantity => Some(Order::of_ints(a.quantity as int, b.quantity as int)),
        }
    }

    fn partial_cmp_by(&self, a: &Purchase, b: &Purchase) -> (r: Option<Order>) {
        match self {
            PurchaseField::Name => Some(compare_text(a.name.as_str(), b.name.as_str())),
            PurchaseField::Description => Some(
                compare_text(a.description.as_str(), b.description.as_str()),
            ),
            PurchaseField::Id => Some(compare_sizes(a.id, b.id)),
            PurchaseField::Price => a.price.partial_compare(b.price),
            PurchaseField::Quantity => Some(compare_sizes(a.quantity, b.quantity)),
        }
    }

    proof fn law_null(&self, a: &Purchase, b: &Purchase) {
    }

    proof fn law_reflexive(&self, a: &Purchase) {
        lemma_lexicographic_reflexive(vstd::utf8::encode_utf8(a.name@));
        lemma_lexicographic_reflexive(vstd::utf8::encode_utf8(a.description@));
    }

    proof fn law_reverse(&self, a: &Purchase, b: &Purchase) {
        lemma_lexicographic_reverse(
            vstd::utf8::encode_utf8(a.name@),
            vstd::utf8::encode_utf8(b.name@),
        );
        lemma_lexicographic_reverse(
            vstd::utf8::encode_utf8(a.description@),
            vstd::utf8::encode_utf8(b.description@),
        );
    }

    proof fn law_transitive(&self, a: &Purchase, b: &Purchase, c: &Purchase) {
        match self {
            PurchaseField::Name => {
                lemma_lexicographic_transitive(
                    vstd::utf8::encode_utf8(a.name@),
                    vstd::utf8::encode_utf8(b.name@),
                    vstd::utf8::encode_utf8(c.name@),
                );
            },
            PurchaseField::Description => {
                lemma_lexicographic_transitive(
                    vstd::utf8::encode_utf8(a.description@),
                    vstd::utf8::encode_utf8(b.description@),
                    vstd::utf8::encode_utf8(c.description@),
                );
            },
            _ => {},
        }
    }
}

/// The search box of the table: it lets a row through when the search text
/// stands in the row's description, capitals and small letters taken as the
/// same. The text is put into lower case once, when the filter is made.
#[derive(Debug)]
pub struct DescriptionFilter {
    pattern: Vec<char>,
}

impl DescriptionFilter {
    /// The search text in lower case.
    pub closed spec fn pattern(&self) -> Seq<char> {
        self.pattern@
    }

    /// The filter for the search text `text`.
    pub fn new(text: &str) -> (f: Self)
        ensures
            f.pattern() == lowercased(text@),
            text@.len() == 0 ==> f.pattern().len() == 0,
    {
        let low = to_lowercase(text);
        DescriptionFilter { pattern: chars_of(low.as_str()) }
    }
}

impl RowFilter<Purchase> for DescriptionFilter {
    open spec fn accepts(&self, row: &Purchase) -> bool {
        is_substring(self.pattern(), lowercased(row.description@))
    }

    fn test(&self, row: &Purchase) -> (r: bool) {
        let low = to_lowercase(row.description.as_str());
        let hay = chars_of(low.as_str());
        contains_chars(&hay, &self.pattern)
    }
}

/// The rows whose description holds the search text `text`, capitals and
/// small letters taken as the same, in the order of `rows`.
pub open spec fn matching(text: Seq<char>, rows: Seq<Purchase>) -> Seq<Purchase> {
    rows.filter(|row: Purchase| is_substring(lowercased(text), lowercased(row.description@)))
}

/// `out` is what a table with the selection `s` shows of `records`: the
/// matching rows, sorted by the active field if there is one.
pub open spec fn shows(records: Seq<Purchase>, s: Selection<PurchaseField>, out: Seq<Purchase>) -> bool {
    match s.sort {
        Some((field, direction)) => is_stable_sort(
            Comparator { field, direction },
            matching(s.filter, records),
            out,
        ),
        None => out == matching(s.filter, records),
    }
}

/// Records, filter text and sort selection determine the rows shown. The
/// order in which clicks and changes of the text led to the selection
/// plays no part.
pub proof fn lemma_shown_rows_unique(
    records: Seq<Purchase>,
    s: Selection<PurchaseField>,
    first: Seq<Purchase>,
    second: Seq<Purchase>,
)
    requires
        shows(records, s, first),
        shows(records, s, second),
    ensures
        first == second,
{
    match s.sort {
        Some((field, direction)) => {
            lemma_stable_sort_unique(
                Comparator { field, direction },
                matching(s.filter, records),
                first,
                second,
            );
        },
        None => {},
    }
}

/// A filter that accepts every row keeps every row.
proof fn lemma_filter_all<T>(rows: Seq<T>, accepts: spec_fn(T) -> bool)
    requires
        forall|i: int| 0 <= i < rows.len() ==> accepts(#[trigger] rows[i]),
    ensures
        rows.filter(accepts) == rows,
    decreases rows.len(),
{
    if rows.len() == 0 {
        reveal(Seq::filter);
        assert(rows.filter(accepts) =~= rows);
    } else {
        let front = rows.drop_last();
        assert(front.push(rows.last()) =~= rows);
        front.lemma_filter_push(rows.last(), accepts);
        lemma_filter_all(front, accepts);
    }
}

/// Returns the rows of `records` that the table shows: those whose
/// description holds the filter text, sorted by the table's sort selection.
/// With an empty filter text no row is left out.
pub fn visible_rows(records: Vec<Purchase>, table: &Table<PurchaseField>) -> (out: Vec<Purchase>)
    ensures
        shows(records@, table@, out@),
        table@.filter.len() == 0 ==> matching(table@.filter, records@) == records@,
{
    let predicate = DescriptionFilter::new(table.filter_text());
    proof {
        let text = table@.filter;
        let by_filter = |row: Purchase| predicate.accepts(&row);
        let by_text = |row: Purchase| is_substring(lowercased(text), lowercased(row.description@));
        assert(by_filter =~= by_text);
        assert(kept(predicate, records@) == matching(text, records@));
        if text.len() == 0 {
            assert forall|i: int| 0 <= i < records@.len() implies by_text(#[trigger] records@[i]) by {
                let hay = lowercased(records@[i].description@);
                assert(hay.subrange(0, 0) =~= predicate.pattern());
                assert(occurs_at(predicate.pattern(), hay, 0));
            }
            lemma_filter_all(records@, by_text);
        }
    }
    derive_view(records, &predicate, table.sort_state())
}

} // verus!
