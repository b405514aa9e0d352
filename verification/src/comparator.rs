//! The total comparison that a field, a direction and a null placement
//! give together.

use vstd::prelude::*;
use crate::field::{is_null, PartialOrdBy, Sortable};
use crate::order::{Direction, NullHandling, Order};

verus! {

/// A field together with the direction in which it orders rows.
#[derive(Clone, Copy, Debug)]
pub struct Comparator<F> {
    pub field: F,
    pub direction: Direction,
}

impl<F> Comparator<F> {
    /// The field's comparison in the comparator's direction: kept when
    /// ascending, reversed when descending. Rows that the field cannot
    /// compare stay incomparable in both directions.
    pub open spec fn directed<T>(self, a: &T, b: &T) -> Option<Order> where F: PartialOrdBy<T> {
        match self.field.partial_order(a, b) {
            Some(o) => Some(self.direction.spec_apply(o)),
            None => None,
        }
    }

    /// The outcome of comparing `a` with `b`.
    ///
    /// Two rows that the field can compare are ordered by it, in the
    /// comparator's direction. A null row goes where the field's null
    /// placement says, whatever the direction; two null rows are equal.
    pub open spec fn order<T>(self, a: &T, b: &T) -> Order where F: PartialOrdBy<T> {
        match self.directed(a, b) {
            Some(o) => o,
            None => if is_null(self.field, a) && is_null(self.field, b) {
                Order::Equal
            } else if is_null(self.field, a) {
                match self.field.null_placement() {
                    NullHandling::First => Order::Less,
                    NullHandling::Last => Order::Greater,
                }
            } else {
                match self.field.null_placement() {
                    NullHandling::First => Order::Greater,
                    NullHandling::Last => Order::Less,
                }
            },
        }
    }

    /// Compares `a` with `b` by the field, in the comparator's direction,
    /// and returns `None` where the field cannot compare them.
    pub fn compare_directed<T>(&self, a: &T, b: &T) -> (r: Option<Order>) where F: PartialOrdBy<T>
        ensures
            r == self.directed(a, b),
    {
        match self.field.partial_cmp_by(a, b) {
            Some(o) => Some(self.direction.apply(o)),
            None => None,
        }
    }

    /// Compares `a` with `b`.
    pub fn compare<T>(&self, a: &T, b: &T) -> (r: Order) where F: PartialOrdBy<T>
        ensures
            r == self.order(a, b),
    {
        match self.compare_directed(a, b) {
            Some(o) => o,
            None => {
                let a_null = self.field.partial_cmp_by(a, a).is_none();
                let b_null = a_null && self.field.partial_cmp_by(b, b).is_none();
                if b_null {
                    Order::Equal
                } else if a_null {
                    match self.field.null_handling() {
                        NullHandling::First => Order::Less,
                        NullHandling::Last => Order::Greater,
                    }
                } else {
                    match self.field.null_handling() {
                        NullHandling::First => Order::Greater,
                        NullHandling::Last => Order::Less,
                    }
                }
            },
        }
    }
}

/// Comparing a row with itself gives `Equal`.
pub proof fn lemma_order_reflexive<T, F: PartialOrdBy<T>>(c: Comparator<F>, a: &T)
    ensures
        c.order(a, a) == Order::Equal,
{
    c.field.law_reflexive(a);
}

/// Swapping the two rows reverses the outcome.
pub proof fn lemma_order_reverse<T, F: PartialOrdBy<T>>(c: Comparator<F>, a: &T, b: &T)
    ensures
        c.order(b, a) == c.order(a, b).spec_reverse(),
{
    c.field.law_null(a, b);
    c.field.law_null(b, a);
    c.field.law_reverse(a, b);
    c.field.law_reverse(b, a);
}

/// "Not greater" is transitive.
pub proof fn lemma_order_transitive<T, F: PartialOrdBy<T>>(c: Comparator<F>, a: &T, b: &T, d: &T)
    requires
        c.order(a, b) != Order::Greater,
        c.order(b, d) != Order::Greater,
    ensures
        c.order(a, d) != Order::Greater,
{
    let f = c.field;
    f.law_null(a, b);
    f.law_null(b, d);
    f.law_null(a, d);
    if !is_null(f, a) && !is_null(f, b) && !is_null(f, d) {
        match c.direction {
            Direction::Ascending => {
                f.law_transitive(a, b, d);
            },
            Direction::Descending => {
                f.law_reverse(a, b);
                f.law_reverse(b, d);
                f.law_transitive(d, b, a);
                f.law_reverse(d, a);
            },
        }
    }
}

/// Reversing the direction reverses the outcome for two rows that the field
/// can compare, and changes nothing where one of them is null: a null row
/// stays where the field's null placement puts it.
pub proof fn lemma_direction_inversion<T, F: PartialOrdBy<T>>(field: F, a: &T, b: &T)
    ensures
        ({
            let up = Comparator { field, direction: Direction::Ascending };
            let down = Comparator { field, direction: Direction::Descending };
            &&& field.partial_order(a, b) is Some ==> down.order(a, b) == up.order(a, b).spec_reverse()
            &&& field.partial_order(a, b) is None ==> up.directed(a, b) is None && down.directed(a, b) is None
            &&& field.partial_order(a, b) is Some ==> (up.order(a, b) == Order::Less
                <==> down.order(a, b) == Order::Greater)
            &&& field.partial_order(a, b) is None ==> down.order(a, b) == up.order(a, b)
            &&& is_null(field, a) && !is_null(field, b) ==> up.order(a, b) == down.order(a, b)
                && up.order(a, b) == (match field.null_placement() {
                NullHandling::First => Order::Less,
                NullHandling::Last => Order::Greater,
            })
            &&& !is_null(field, a) && is_null(field, b) ==> up.order(a, b) == down.order(a, b)
                && up.order(a, b) == (match field.null_placement() {
                NullHandling::First => Order::Greater,
                NullHandling::Last => Order::Less,
            })
        }),
{
    field.law_null(a, b);
}

} // verus!
