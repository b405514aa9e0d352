//! The small vocabulary of ordering: the outcome of a comparison, the
//! direction of a sort, and where rows without a value go.

use vstd::prelude::*;

verus! {

/// The outcome of comparing two rows.
#[derive(Clone, Copy, Debug, PartialEq, Eq, Structural)]
pub enum Order {
    Less,
    Equal,
    Greater,
}

impl Order {
    /// `Less` and `Greater` change places, `Equal` stays.
    pub open spec fn spec_reverse(self) -> Order {
        match self {
            Order::Less => Order::Greater,
            Order::Equal => Order::Equal,
            Order::Greater => Order::Less,
        }
    }

    /// `Less` and `Greater` change places, `Equal` stays.
    #[verifier::when_used_as_spec(spec_reverse)]
    pub fn reverse(self) -> (r: Order)
        ensures
            r == self.spec_reverse(),
    {
        match self {
            Order::Less => Order::Greater,
            Order::Equal => Order::Equal,
            Order::Greater => Order::Less,
        }
    }

    /// The outcome of comparing two integers.
    pub open spec fn of_ints(a: int, b: int) -> Order {
        if a < b {
            Order::Less
        } else if a == b {
            Order::Equal
        } else {
            Order::Greater
        }
    }
}

/// The direction in which the active column orders the rows.
#[derive(Clone, Copy, Debug, PartialEq, Eq, Structural)]
pub enum Direction {
    /// Little to big, A to Z.
    Ascending,
    /// Big to little, Z to A.
    Descending,
}

impl Direction {
    /// The other direction.
    pub open spec fn inverted(self) -> Direction {
        match self {
            Direction::Ascending => Direction::Descending,
            Direction::Descending => Direction::Ascending,
        }
    }

    /// What a comparison outcome becomes under this direction: kept when
    /// ascending, reversed when descending.
    pub open spec fn spec_apply(self, o: Order) -> Order {
        match self {
            Direction::Ascending => o,
            Direction::Descending => o.spec_reverse(),
        }
    }

    /// What a comparison outcome becomes under this direction.
    #[verifier::when_used_as_spec(spec_apply)]
    pub fn apply(self, o: Order) -> (r: Order)
        ensures
            r == self.spec_apply(o),
    {
        match self {
            Direction::Ascending => o,
            Direction::Descending => o.reverse(),
        }
    }
}

/// Calls `dioxus_sortable::Direction::invert`, which turns ascending into
/// descending and descending into ascending. The contract repeats exactly
/// that; the body only carries the value into the outside enum and back.
#[verifier::external_body]
pub(crate) fn invert(d: Direction) -> (r: Direction)
    ensures
        r == d.inverted(),
{
    let outside = match d {
        Direction::Ascending => dioxus_sortable::Direction::Ascending,
        Direction::Descending => dioxus_sortable::Direction::Descending,
    };
    match outside.invert() {
        dioxus_sortable::Direction::Ascending => Direction::Ascending,
        dioxus_sortable::Direction::Descending => Direction::Descending,
    }
}

/// Where rows go whose active field has no value that can be compared
/// (a price that is not a number, say). The placement does not depend on
/// the direction of the sort.
#[derive(Clone, Copy, Debug, PartialEq, Eq, Structural)]
pub enum NullHandling {
    /// Before every row that has a value.
    First,
    /// After every row that has a value.
    Last,
}

impl Default for NullHandling {
    /// Rows without a value go last.
    fn default() -> (r: NullHandling)
        ensures
            r == NullHandling::Last,
    {
        NullHandling::Last
    }
}

} // verus!
