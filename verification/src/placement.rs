//! A field with a null placement chosen by the caller.

use vstd::prelude::*;
use crate::field::{PartialOrdBy, Sortable};
use crate::order::{NullHandling, Order};

verus! {

/// The field `field`, with its null rows placed as `nulls` says instead of
/// where the field itself would put them. Rows compare as they do by
/// `field`.
#[derive(Clone, Copy, Debug)]
pub struct Placed<F> {
    pub field: F,
    pub nulls: NullHandling,
}

impl<F: Sortable> Placed<F> {
    /// `field` with its null rows before all others.
    pub fn nulls_first(field: F) -> (p: Self)
        ensures
            p.field == field,
            p.nulls == NullHandling::First,
    {
        Placed { field, nulls: NullHandling::First }
    }

    /// `field` with its null rows after all others.
    pub fn nulls_last(field: F) -> (p: Self)
        ensures
            p.field == field,
            p.nulls == NullHandling::Last,
    {
        Placed { field, nulls: NullHandling::Last }
    }
}

impl<F: Sortable> Sortable for Placed<F> {
    open spec fn null_placement(&self) -> NullHandling {
        self.nulls
    }

    fn null_handling(&self) -> (r: NullHandling) {
        self.nulls
    }

    fn is_field(&self, other: &Self) -> (r: bool) {
        self.field.is_field(&other.field) && self.nulls == other.nulls
    }
}

impl<T, F: PartialOrdBy<T>> PartialOrdBy<T> for Placed<F> {
    open spec fn partial_order(&self, a: &T, b: &T) -> Option<Order> {
        self.field.partial_order(a, b)
    }

    fn partial_cmp_by(&self, a: &T, b: &T) -> (r: Option<Order>) {
        self.field.partial_cmp_by(a, b)
    }

    proof fn law_null(&self, a: &T, b: &T) {
        self.field.law_null(a, b);
    }

    proof fn law_reflexive(&self, a: &T) {
        self.field.law_reflexive(a);
    }

    proof fn law_reverse(&self, a: &T, b: &T) {
        self.field.law_reverse(a, b);
    }

    proof fn law_transitive(&self, a: &T, b: &T, c: &T) {
        self.field.law_transitive(a, b, c);
    }
}

} // verus!
