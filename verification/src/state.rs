//! Which field orders the rows, and in which direction.

use vstd::prelude::*;
use crate::comparator::Comparator;
use crate::field::Sortable;
use crate::order::{invert, Direction};

verus! {

/// The sort selection of a table: either no field is active and the rows
/// stay in the order of their source, or one field is active with a
/// direction.
///
/// The only transition is [`SortState::toggle`], the click on a column
/// header. A field that is selected anew starts ascending; the active field
/// goes from ascending to descending and back. Once a field is active the
/// state never returns to "no field".
#[derive(Debug)]
pub struct SortState<F> {
    active: Option<(F, Direction)>,
}

/// The selection after a click on the header of `field`.
pub open spec fn toggled<F>(state: Option<(F, Direction)>, field: F) -> Option<(F, Direction)> {
    match state {
        Some((active, direction)) if active == field => Some((field, direction.inverted())),
        _ => Some((field, Direction::Ascending)),
    }
}

impl<F> View for SortState<F> {
    type V = Option<(F, Direction)>;

    /// The active field with its direction, if a field is active.
    closed spec fn view(&self) -> Option<(F, Direction)> {
        self.active
    }
}

impl<F: Sortable> SortState<F> {
    /// A state in which `field` is active, ascending.
    pub fn new(field: F) -> (s: Self)
        ensures
            s@ == Some((field, Direction::Ascending)),
    {
        SortState { active: Some((field, Direction::Ascending)) }
    }

    /// A state in which `field` is active in the given direction, for a
    /// selection that was kept from an earlier session.
    pub fn sorted_by(field: F, direction: Direction) -> (s: Self)
        ensures
            s@ == Some((field, direction)),
    {
        SortState { active: Some((field, direction)) }
    }

    /// A state in which no field is active.
    pub fn unsorted() -> (s: Self)
        ensures
            s@ is None,
    {
        SortState { active: None }
    }

    /// The active field and its direction; both are `None` when no field
    /// is active.
    pub fn current(&self) -> (r: (Option<F>, Option<Direction>))
        ensures
            r.0 == (match self@ {
                Some((field, _)) => Some(field),
                None => None,
            }),
            r.1 == (match self@ {
                Some((_, direction)) => Some(direction),
                None => None,
            }),
    {
        match self.active {
            Some((field, direction)) => (Some(field), Some(direction)),
            None => (None, None),
        }
    }

    /// The direction to show in the header of `field`: that of the sort if
    /// `field` is the active field, `None` if it is not.
    pub fn direction_of(&self, field: F) -> (r: Option<Direction>)
        ensures
            r == (match self@ {
                Some((active, direction)) if active == field => Some(direction),
                _ => None,
            }),
    {
        match self.active {
            Some((active, direction)) => {
                if active.is_field(&field) {
                    Some(direction)
                } else {
                    None
                }
            },
            None => None,
        }
    }

    /// The click on the header of `field`.
    pub fn toggle(&mut self, field: F)
        ensures
            final(self)@ == toggled(old(self)@, field),
    {
        let direction = match self.active {
            Some((active, direction)) => {
                if active.is_field(&field) {
                    invert(direction)
                } else {
                    Direction::Ascending
                }
            },
            None => Direction::Ascending,
        };
        self.active = Some((field, direction));
    }

    /// The comparator that the selection asks for, or `None` when no field
    /// is active and the rows are to stay in the order of their source.
    /// How two rows compare by the field is what the field type's
    /// implementation of `PartialOrdBy` says.
    pub fn comparator(&self) -> (r: Option<Comparator<F>>)
        ensures
            r == (match self@ {
                Some((field, direction)) => Some(Comparator { field, direction }),
                None => None,
            }),
    {
        match self.active {
            Some((field, direction)) => Some(Comparator { field, direction }),
            None => None,
        }
    }

    /// A copy of the state.
    pub fn duplicate(&self) -> (s: Self)
        ensures
            s@ == self@,
    {
        SortState { active: self.active }
    }
}

/// From no selection, the first click on a header selects its field
/// ascending and the second makes it descending; a third returns to
/// ascending. A click on the header of a field that is not active selects
/// that field ascending, whatever the state was.
pub proof fn lemma_toggle_cycle<F>(state: Option<(F, Direction)>, field: F)
    ensures
        toggled(None, field) == Some((field, Direction::Ascending)),
        toggled(toggled(None, field), field) == Some((field, Direction::Descending)),
        toggled(toggled(toggled(None, field), field), field) == Some((field, Direction::Ascending)),
        (state is None || state.unwrap().0 != field) ==> toggled(state, field) == Some(
            (field, Direction::Ascending),
        ),
        state is Some && state.unwrap().0 == field ==> toggled(state, field) == Some(
            (field, state.unwrap().1.inverted()),
        ),
        toggled(state, field) is Some,
{
}

} // verus!
