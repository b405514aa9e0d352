use sortable_table::comparator::Comparator;
use sortable_table::field::{PartialOrdBy, Sortable};
use sortable_table::order::{Direction, NullHandling, Order};
use sortable_table::price::{compare_magnitudes, compare_sizes, Price};
use sortable_table::purchase::{Purchase, PurchaseField};
use sortable_table::sort::{apply_sort, reversed, stable_sort};
use sortable_table::text::{compare_bytes, compare_text};

fn price(x: f64) -> Price {
    Price::from_bits(x.to_bits())
}

fn row(id: usize, name: &str, description: &str, p: f64, quantity: usize) -> Purchase {
    Purchase::new(id, name, description, price(p), quantity)
}

fn ids(rows: &[Purchase]) -> Vec<usize> {
    rows.iter().map(|r| r.id).collect()
}

fn by(field: PurchaseField, direction: Direction) -> Comparator<PurchaseField> {
    Comparator { field, direction }
}

fn from_std(o: std::cmp::Ordering) -> Order {
    match o {
        std::cmp::Ordering::Less => Order::Less,
        std::cmp::Ordering::Equal => Order::Equal,
        std::cmp::Ordering::Greater => Order::Greater,
    }
}

fn sample() -> Vec<Purchase> {
    vec![
        row(1, "Pear", "green", 3.5, 2),
        row(2, "Apple", "red", 1.25, 7),
        row(3, "Pear", "yellow", 0.5, 2),
        row(4, "Fig", "dried", 9.0, 1),
        row(5, "Apple", "green", 1.25, 4),
        row(6, "Pear", "brown", 2.0, 9),
    ]
}

#[test]
fn purchase_new_keeps_its_arguments() {
    let p = row(7, "Apple", "iPhone 12", 799.0, 1);
    assert_eq!(p.id, 7);
    assert_eq!(p.name, "Apple");
    assert_eq!(p.description, "iPhone 12");
    assert_eq!(f64::from_bits(p.price.to_bits()), 799.0);
    assert_eq!(p.quantity, 1);
}

#[test]
fn sort_by_name_ascending_keeps_ties_in_source_order() {
    let out = stable_sort(sample(), &by(PurchaseField::Name, Direction::Ascending));
    assert_eq!(ids(&out), vec![2, 5, 4, 1, 3, 6]);
}

#[test]
fn sort_by_name_descending_keeps_ties_in_source_order() {
    let out = stable_sort(sample(), &by(PurchaseField::Name, Direction::Descending));
    assert_eq!(ids(&out), vec![1, 3, 6, 4, 2, 5]);
}

#[test]
fn sort_by_price_ascending_and_descending() {
    let up = stable_sort(sample(), &by(PurchaseField::Price, Direction::Ascending));
    assert_eq!(ids(&up), vec![3, 2, 5, 6, 1, 4]);
    let down = stable_sort(sample(), &by(PurchaseField::Price, Direction::Descending));
    assert_eq!(ids(&down), vec![4, 1, 6, 2, 5, 3]);
}

#[test]
fn sort_by_quantity_id_and_description() {
    let q = stable_sort(sample(), &by(PurchaseField::Quantity, Direction::Ascending));
    assert_eq!(ids(&q), vec![4, 1, 3, 5, 2, 6]);
    let i = stable_sort(sample(), &by(PurchaseField::Id, Direction::Descending));
    assert_eq!(ids(&i), vec![6, 5, 4, 3, 2, 1]);
    let d = stable_sort(sample(), &by(PurchaseField::Description, Direction::Ascending));
    assert_eq!(ids(&d), vec![6, 4, 1, 5, 2, 3]);
}

#[test]
fn sorting_twice_is_sorting_once() {
    for field in [
        PurchaseField::Id,
        PurchaseField::Name,
        PurchaseField::Description,
        PurchaseField::Price,
        PurchaseField::Quantity,
    ] {
        for direction in [Direction::Ascending, Direction::Descending] {
            let once = stable_sort(sample(), &by(field, direction));
            let twice = stable_sort(once.clone(), &by(field, direction));
            assert_eq!(ids(&once), ids(&twice));
        }
    }
}

#[test]
fn sort_of_empty_and_single_row() {
    let none: Vec<Purchase> = Vec::new();
    assert!(stable_sort(none, &by(PurchaseField::Name, Direction::Ascending)).is_empty());
    let one = stable_sort(vec![row(9, "a", "b", 1.0, 1)], &by(PurchaseField::Name, Direction::Descending));
    assert_eq!(ids(&one), vec![9]);
}

#[test]
fn rows_without_a_price_go_last_in_both_directions() {
    let rows = || {
        vec![
            row(1, "a", "", f64::NAN, 0),
            row(2, "b", "", 2.0, 0),
            row(3, "c", "", f64::NAN, 0),
            row(4, "d", "", 1.0, 0),
            row(5, "e", "", 3.0, 0),
        ]
    };
    let up = stable_sort(rows(), &by(PurchaseField::Price, Direction::Ascending));
    assert_eq!(ids(&up), vec![4, 2, 5, 1, 3]);
    let down = stable_sort(rows(), &by(PurchaseField::Price, Direction::Descending));
    assert_eq!(ids(&down), vec![5, 2, 4, 1, 3]);
}

#[test]
fn comparator_puts_a_null_after_a_value_whatever_the_direction() {
    let nan = row(1, "", "", f64::NAN, 0);
    let one = row(2, "", "", 1.0, 0);
    for direction in [Direction::Ascending, Direction::Descending] {
        let c = by(PurchaseField::Price, direction);
        assert_eq!(c.compare(&nan, &one), Order::Greater);
        assert_eq!(c.compare(&one, &nan), Order::Less);
        assert_eq!(c.compare(&nan, &nan), Order::Equal);
    }
}

#[test]
fn descending_reverses_what_ascending_says() {
    let rows = sample();
    for field in [
        PurchaseField::Id,
        PurchaseField::Name,
        PurchaseField::Description,
        PurchaseField::Price,
        PurchaseField::Quantity,
    ] {
        for a in &rows {
            for b in &rows {
                let up = by(field, Direction::Ascending).compare(a, b);
                let down = by(field, Direction::Descending).compare(a, b);
                assert_eq!(down, up.reverse());
            }
        }
    }
}

#[test]
fn apply_sort_sorts_in_place_and_leaves_rows_alone_without_a_comparator() {
    let mut rows = sample();
    apply_sort(&mut rows, &Some(by(PurchaseField::Id, Direction::Descending)));
    assert_eq!(ids(&rows), vec![6, 5, 4, 3, 2, 1]);
    let none: Option<Comparator<PurchaseField>> = None;
    apply_sort(&mut rows, &none);
    assert_eq!(ids(&rows), vec![6, 5, 4, 3, 2, 1]);
}

#[test]
fn sort_agrees_with_the_standard_stable_sort() {
    let mut rows: Vec<Purchase> = Vec::new();
    let mut seed: u64 = 12345;
    for id in 0..200usize {
        seed = seed.wrapping_mul(6364136223846793005).wrapping_add(1442695040888963407);
        let q = ((seed >> 33) % 7) as usize;
        rows.push(row(id, "n", "d", (q as f64) * 0.5, q));
    }
    let mut expected = rows.clone();
    expected.sort_by(|a, b| a.quantity.cmp(&b.quantity));
    let out = stable_sort(rows.clone(), &by(PurchaseField::Quantity, Direction::Ascending));
    assert_eq!(ids(&out), ids(&expected));
    let mut expected = rows.clone();
    expected.sort_by(|a, b| b.quantity.cmp(&a.quantity));
    let out = stable_sort(rows, &by(PurchaseField::Price, Direction::Descending));
    assert_eq!(ids(&out), ids(&expected));
}

#[test]
fn reversed_turns_a_vector_round() {
    assert_eq!(reversed(vec![1, 2, 3]), vec![3, 2, 1]);
    assert_eq!(reversed(Vec::<u8>::new()), Vec::<u8>::new());
}

#[test]
fn text_order_is_that_of_the_standard_library() {
    let words = ["", "a", "A", "ab", "abc", "b", "Zebra", "zebra", "\u{e9}t\u{e9}", "\u{4e2d}", "iPhone 12", "iPhone 12 Pro"];
    for a in words {
        for b in words {
            assert_eq!(compare_text(a, b), from_std(a.cmp(b)), "{:?} {:?}", a, b);
            assert_eq!(compare_bytes(a.as_bytes(), b.as_bytes()), from_std(a.cmp(b)));
        }
    }
    assert_eq!(compare_text("iPhone 12", "iPhone 12 Pro"), Order::Less);
    assert_eq!(compare_text("b", "abc"), Order::Greater);
    assert_eq!(compare_text("same", "same"), Order::Equal);
}

#[test]
fn price_order_is_that_of_the_numbers() {
    let values = [
        0.0,
        -0.0,
        1.0,
        -1.0,
        799.0,
        999.0,
        f64::MIN_POSITIVE,
        5e-324,
        -5e-324,
        f64::MAX,
        f64::MIN,
        f64::INFINITY,
        f64::NEG_INFINITY,
        f64::NAN,
        -f64::NAN,
    ];
    for a in values {
        for b in values {
            let expected = a.partial_cmp(&b).map(from_std);
            assert_eq!(price(a).partial_compare(price(b)), expected, "{:?} {:?}", a, b);
        }
        assert_eq!(price(a).is_not_a_number(), a.is_nan());
    }
    assert_eq!(price(799.0).partial_compare(price(999.0)), Some(Order::Less));
    assert_eq!(price(0.0).partial_compare(price(-0.0)), Some(Order::Equal));
    assert_eq!(price(f64::NAN).partial_compare(price(f64::NAN)), None);
}

#[test]
fn integers_compare_as_integers() {
    assert_eq!(compare_sizes(1, 2), Order::Less);
    assert_eq!(compare_sizes(2, 2), Order::Equal);
    assert_eq!(compare_sizes(3, 2), Order::Greater);
    assert_eq!(compare_magnitudes(u64::MAX, 0), Order::Greater);
    assert_eq!(compare_magnitudes(0, u64::MAX), Order::Less);
    assert_eq!(compare_magnitudes(5, 5), Order::Equal);
}

#[test]
fn purchase_fields_compare_field_by_field() {
    let a = row(1, "Apple", "iPhone 12", 799.0, 1);
    let b = row(2, "Apple", "iPhone 12 Pro", 999.0, 1);
    assert_eq!(PurchaseField::Id.partial_cmp_by(&a, &b), Some(Order::Less));
    assert_eq!(PurchaseField::Name.partial_cmp_by(&a, &b), Some(Order::Equal));
    assert_eq!(PurchaseField::Description.partial_cmp_by(&a, &b), Some(Order::Less));
    assert_eq!(PurchaseField::Price.partial_cmp_by(&b, &a), Some(Order::Greater));
    assert_eq!(PurchaseField::Quantity.partial_cmp_by(&a, &b), Some(Order::Equal));
    let nan = row(3, "", "", f64::NAN, 0);
    assert_eq!(PurchaseField::Price.partial_cmp_by(&a, &nan), None);
    assert_eq!(PurchaseField::Price.partial_cmp_by(&nan, &nan), None);
}

#[test]
fn every_purchase_field_puts_nulls_last() {
    for field in [
        PurchaseField::Id,
        PurchaseField::Name,
        PurchaseField::Description,
        PurchaseField::Price,
        PurchaseField::Quantity,
    ] {
        assert_eq!(field.null_handling(), NullHandling::Last);
        assert!(field.is_field(&field));
    }
    assert!(!PurchaseField::Id.is_field(&PurchaseField::Name));
}
