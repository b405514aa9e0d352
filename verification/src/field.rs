//! What a caller supplies: a closed set of fields, and for each field how two
//! rows compare by it.

use vstd::prelude::*;
use crate::order::{NullHandling, Order};

verus! {

/// A field (a column) by which rows can be ordered. The implementing type
/// is meant to be a plain enum, one variant for each sortable column.
pub trait Sortable: Copy {
    /// Where rows go that have no comparable value in this field.
    spec fn null_placement(&self) -> NullHandling;

    /// Where rows go that have no comparable value in this field.
    fn null_handling(&self) -> (r: NullHandling)
        ensures
            r == self.null_placement(),
    ;

    /// Whether two selectors name the same field.
    fn is_field(&self, other: &Self) -> (r: bool)
        ensures
            r == (*self == *other),
    ;
}

/// How rows of type `T` compare by each field. `None` means that the two
/// rows cannot be compared by the field, because at least one of them has
/// no value there; such a row is called null in that field.
///
/// The proof functions are the laws that make a sort under the field well
/// defined. An implementation has to prove them.
pub trait PartialOrdBy<T>: Sortable {
    /// The outcome of comparing `a` with `b` by this field.
    spec fn partial_order(&self, a: &T, b: &T) -> Option<Order>;

    /// Compares `a` with `b` by this field.
    fn partial_cmp_by(&self, a: &T, b: &T) -> (r: Option<Order>)
        ensures
            r == self.partial_order(a, b),
    ;

    /// Two rows are incomparable exactly when one of them is null.
    proof fn law_null(&self, a: &T, b: &T)
        ensures
            self.partial_order(a, b) is None <==> (self.partial_order(a, a) is None
                || self.partial_order(b, b) is None),
    ;

    /// A row that compares with itself is equal to itself.
    proof fn law_reflexive(&self, a: &T)
        ensures
            self.partial_order(a, a) is Some ==> self.partial_order(a, a) == Some(Order::Equal),
    ;

    /// Swapping the two rows reverses the outcome.
    proof fn law_reverse(&self, a: &T, b: &T)
        ensures
            self.partial_order(a, b) is Some ==> self.partial_order(b, a) == Some(
                self.partial_order(a, b).unwrap().spec_reverse(),
            ),
    ;

    /// "Not greater" is transitive.
    proof fn law_transitive(&self, a: &T, b: &T, c: &T)
        requires
            self.partial_order(a, b) is Some,
            self.partial_order(b, c) is Some,
            self.partial_order(a, b) != Some(Order::Greater),
            self.partial_order(b, c) != Some(Order::Greater),
        ensures
            self.partial_order(a, c) is Some,
            self.partial_order(a, c) != Some(Order::Greater),
    ;
}

/// Whether `a` has no comparable value in `field`.
pub open spec fn is_null<T, F: PartialOrdBy<T>>(field: F, a: &T) -> bool {
    field.partial_order(a, a) is None
}

} // verus!
