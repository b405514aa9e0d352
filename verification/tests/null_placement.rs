use sortable_table::comparator::Comparator;
use sortable_table::field::{PartialOrdBy, Sortable};
use sortable_table::order::{Direction, NullHandling, Order};
use sortable_table::placement::Placed;
use sortable_table::price::Price;
use sortable_table::purchase::{Purchase, PurchaseField};
use sortable_table::sort::stable_sort;
use sortable_table::state::SortState;

fn row(id: usize, p: f64) -> Purchase {
    Purchase::new(id, "", "", Price::from_bits(p.to_bits()), 0)
}

fn rows() -> Vec<Purchase> {
    vec![
        row(1, f64::NAN),
        row(2, 20.0),
        row(3, f64::NAN),
        row(4, 10.0),
        row(5, 20.0),
        row(6, 30.0),
    ]
}

fn ids(rows: &[Purchase]) -> Vec<usize> {
    rows.iter().map(|r| r.id).collect()
}

#[test]
fn nulls_first_stay_first_in_both_directions() {
    let field = Placed::nulls_first(PurchaseField::Price);
    let up = Comparator { field, direction: Direction::Ascending };
    assert_eq!(ids(&stable_sort(rows(), &up)), vec![1, 3, 4, 2, 5, 6]);
    let down = Comparator { field, direction: Direction::Descending };
    assert_eq!(ids(&stable_sort(rows(), &down)), vec![1, 3, 6, 2, 5, 4]);
}

#[test]
fn nulls_last_stay_last_in_both_directions() {
    let field = Placed::nulls_last(PurchaseField::Price);
    let up = Comparator { field, direction: Direction::Ascending };
    assert_eq!(ids(&stable_sort(rows(), &up)), vec![4, 2, 5, 6, 1, 3]);
    let down = Comparator { field, direction: Direction::Descending };
    assert_eq!(ids(&stable_sort(rows(), &down)), vec![6, 2, 5, 4, 1, 3]);
}

#[test]
fn directed_comparison_leaves_incomparable_rows_incomparable() {
    let missing = row(1, f64::NAN);
    let ten = row(2, 10.0);
    let twenty = row(3, 20.0);
    for direction in [Direction::Ascending, Direction::Descending] {
        let c = Comparator { field: Placed::nulls_first(PurchaseField::Price), direction };
        assert_eq!(c.compare_directed(&missing, &ten), None);
        assert_eq!(c.compare_directed(&ten, &missing), None);
        assert_eq!(c.compare_directed(&missing, &missing), None);
        assert_eq!(c.compare(&missing, &ten), Order::Less);
        assert_eq!(c.compare(&ten, &missing), Order::Greater);
        assert_eq!(c.compare(&missing, &missing), Order::Equal);
    }
    let up = Comparator { field: PurchaseField::Price, direction: Direction::Ascending };
    let down = Comparator { field: PurchaseField::Price, direction: Direction::Descending };
    assert_eq!(up.compare_directed(&ten, &twenty), Some(Order::Less));
    assert_eq!(down.compare_directed(&ten, &twenty), Some(Order::Greater));
    assert_eq!(up.compare_directed(&ten, &ten), Some(Order::Equal));
    assert_eq!(down.compare_directed(&ten, &ten), Some(Order::Equal));
    assert_eq!(up.compare_directed(&ten, &missing), None);
}

#[test]
fn placed_field_compares_as_its_field_and_keeps_its_placement() {
    let first = Placed::nulls_first(PurchaseField::Price);
    let last = Placed::nulls_last(PurchaseField::Price);
    assert_eq!(first.null_handling(), NullHandling::First);
    assert_eq!(last.null_handling(), NullHandling::Last);
    assert!(first.is_field(&first));
    assert!(!first.is_field(&last));
    assert!(!first.is_field(&Placed::nulls_first(PurchaseField::Id)));
    assert_eq!(first.partial_cmp_by(&row(1, 1.0), &row(2, 2.0)), Some(Order::Less));
    assert_eq!(first.partial_cmp_by(&row(1, f64::NAN), &row(2, 2.0)), None);
}

#[test]
fn sort_state_works_with_a_placed_field() {
    let mut state = SortState::unsorted();
    state.toggle(Placed::nulls_first(PurchaseField::Price));
    state.toggle(Placed::nulls_first(PurchaseField::Price));
    assert_eq!(state.current().1, Some(Direction::Descending));
    let c = state.comparator().unwrap();
    assert_eq!(ids(&stable_sort(rows(), &c)), vec![1, 3, 6, 2, 5, 4]);
    state.toggle(Placed::nulls_last(PurchaseField::Price));
    assert_eq!(state.current().1, Some(Direction::Ascending));
}
