use sortable_table::comparator::Comparator;
use sortable_table::order::{Direction, NullHandling, Order};
use sortable_table::purchase::PurchaseField;
use sortable_table::state::SortState;

#[test]
fn unsorted_state_has_no_field_and_no_direction() {
    let state: SortState<PurchaseField> = SortState::unsorted();
    assert_eq!(state.current(), (None, None));
    assert!(state.comparator().is_none());
}

#[test]
fn new_state_is_ascending_on_its_field() {
    let state = SortState::new(PurchaseField::default());
    assert_eq!(PurchaseField::default(), PurchaseField::Name);
    assert_eq!(state.current(), (Some(PurchaseField::Name), Some(Direction::Ascending)));
}

#[test]
fn first_click_selects_ascending_second_descending() {
    let mut state = SortState::unsorted();
    state.toggle(PurchaseField::Price);
    assert_eq!(state.current(), (Some(PurchaseField::Price), Some(Direction::Ascending)));
    state.toggle(PurchaseField::Price);
    assert_eq!(state.current(), (Some(PurchaseField::Price), Some(Direction::Descending)));
}

#[test]
fn third_click_returns_to_ascending_and_never_to_unsorted() {
    let mut state = SortState::unsorted();
    for round in 0..6 {
        state.toggle(PurchaseField::Quantity);
        let expected = if round % 2 == 0 { Direction::Ascending } else { Direction::Descending };
        assert_eq!(state.current(), (Some(PurchaseField::Quantity), Some(expected)));
    }
}

#[test]
fn click_on_another_header_resets_to_ascending() {
    let mut state = SortState::new(PurchaseField::Name);
    state.toggle(PurchaseField::Name);
    assert_eq!(state.current().1, Some(Direction::Descending));
    state.toggle(PurchaseField::Id);
    assert_eq!(state.current(), (Some(PurchaseField::Id), Some(Direction::Ascending)));
    state.toggle(PurchaseField::Description);
    assert_eq!(state.current(), (Some(PurchaseField::Description), Some(Direction::Ascending)));
}

#[test]
fn click_on_the_default_field_makes_it_descending() {
    let mut state = SortState::new(PurchaseField::Name);
    state.toggle(PurchaseField::Name);
    assert_eq!(state.current(), (Some(PurchaseField::Name), Some(Direction::Descending)));
}

#[test]
fn comparator_carries_field_and_direction() {
    let mut state = SortState::new(PurchaseField::Price);
    let c: Comparator<PurchaseField> = state.comparator().unwrap();
    assert_eq!(c.field, PurchaseField::Price);
    assert_eq!(c.direction, Direction::Ascending);
    state.toggle(PurchaseField::Price);
    let c = state.comparator().unwrap();
    assert_eq!(c.field, PurchaseField::Price);
    assert_eq!(c.direction, Direction::Descending);
}

#[test]
fn duplicate_keeps_the_selection() {
    let mut state = SortState::new(PurchaseField::Id);
    state.toggle(PurchaseField::Id);
    let copy = state.duplicate();
    assert_eq!(copy.current(), state.current());
}

#[test]
fn reverse_swaps_less_and_greater() {
    assert_eq!(Order::Less.reverse(), Order::Greater);
    assert_eq!(Order::Greater.reverse(), Order::Less);
    assert_eq!(Order::Equal.reverse(), Order::Equal);
}

#[test]
fn direction_applies_to_an_outcome() {
    assert_eq!(Direction::Ascending.apply(Order::Less), Order::Less);
    assert_eq!(Direction::Descending.apply(Order::Less), Order::Greater);
    assert_eq!(Direction::Descending.apply(Order::Equal), Order::Equal);
}

#[test]
fn nulls_go_last_by_default() {
    assert_eq!(NullHandling::default(), NullHandling::Last);
}

#[test]
fn header_shows_the_direction_of_the_active_field_only() {
    let mut state = SortState::sorted_by(PurchaseField::Price, Direction::Descending);
    assert_eq!(state.current(), (Some(PurchaseField::Price), Some(Direction::Descending)));
    assert_eq!(state.direction_of(PurchaseField::Price), Some(Direction::Descending));
    assert_eq!(state.direction_of(PurchaseField::Name), None);
    state.toggle(PurchaseField::Name);
    assert_eq!(state.direction_of(PurchaseField::Price), None);
    assert_eq!(state.direction_of(PurchaseField::Name), Some(Direction::Ascending));
    let unsorted: SortState<PurchaseField> = SortState::unsorted();
    assert_eq!(unsorted.direction_of(PurchaseField::Name), None);
}
