//! A stable merge sort under a comparator, and what it means for an output
//! to be the stable sort of an input.

use vstd::prelude::*;
use crate::comparator::{
    lemma_order_reflexive,
    lemma_order_reverse,
    lemma_order_transitive,
    Comparator,
};
use crate::field::PartialOrdBy;
use crate::order::Order;

verus! {

/// Whether the row at position `p` of `input` has its place before the row at
/// position `q` once `input` is sorted: the comparator decides, and between
/// rows that it finds equal the earlier position wins.
pub open spec fn precedes<T, F: PartialOrdBy<T>>(
    c: Comparator<F>,
    input: Seq<T>,
    p: int,
    q: int,
) -> bool {
    match c.order(&input[p], &input[q]) {
        Order::Less => true,
        Order::Equal => p < q,
        Order::Greater => false,
    }
}

/// `items[i]` is the row of `input` at position `from[i]`, for every `i`.
pub open spec fn tracks<T>(input: Seq<T>, items: Seq<T>, from: Seq<int>) -> bool {
    &&& from.len() == items.len()
    &&& forall|i: int|
        0 <= i < from.len() ==> 0 <= #[trigger] from[i] < input.len() && items[i] == input[from[i]]
}

/// The positions in `from` are in sorted order, each before the next.
pub open spec fn ascending<T, F: PartialOrdBy<T>>(
    c: Comparator<F>,
    input: Seq<T>,
    from: Seq<int>,
) -> bool {
    forall|i: int, j: int|
        0 <= i < j < from.len() ==> precedes(c, input, #[trigger] from[i], #[trigger] from[j])
}

/// `output` holds the rows of `input` at the positions `from`, each
/// position once.
pub open spec fn rearranges<T>(input: Seq<T>, output: Seq<T>, from: Seq<int>) -> bool {
    &&& from.len() == input.len()
    &&& tracks(input, output, from)
    &&& forall|i: int, j: int|
        0 <= i < j < from.len() ==> #[trigger] from[i] != #[trigger] from[j]
}

/// `output` holds the rows of `input`, each once, in sorted order, and
/// `from` says where each came from: `output[i]` is `input[from[i]]`.
/// Rows that the comparator finds equal keep the order they had in `input`.
pub open spec fn stably_sorts<T, F: PartialOrdBy<T>>(
    c: Comparator<F>,
    input: Seq<T>,
    output: Seq<T>,
    from: Seq<int>,
) -> bool {
    &&& from.len() == input.len()
    &&& tracks(input, output, from)
    &&& ascending(c, input, from)
}

/// `output` is the stable sort of `input` under `c`.
pub open spec fn is_stable_sort<T, F: PartialOrdBy<T>>(
    c: Comparator<F>,
    input: Seq<T>,
    output: Seq<T>,
) -> bool {
    exists|from: Seq<int>| stably_sorts(c, input, output, from)
}

/// No row of `s` is greater than a later one.
pub open spec fn is_sorted<T, F: PartialOrdBy<T>>(c: Comparator<F>, s: Seq<T>) -> bool {
    forall|i: int, j: int| 0 <= i < j < s.len() ==> c.order(&s[i], &s[j]) != Order::Greater
}

/// No position precedes itself.
pub proof fn lemma_precedes_irreflexive<T, F: PartialOrdBy<T>>(
    c: Comparator<F>,
    input: Seq<T>,
    p: int,
)
    ensures
        !precedes(c, input, p, p),
{
    lemma_order_reflexive(c, &input[p]);
}

/// Of two different positions exactly one precedes the other.
pub proof fn lemma_precedes_total<T, F: PartialOrdBy<T>>(
    c: Comparator<F>,
    input: Seq<T>,
    p: int,
    q: int,
)
    requires
        p != q,
    ensures
        precedes(c, input, p, q) != precedes(c, input, q, p),
{
    lemma_order_reverse(c, &input[p], &input[q]);
}

/// If `p` precedes `q` and `q` precedes `r`, then `p` precedes `r`.
pub proof fn lemma_precedes_transitive<T, F: PartialOrdBy<T>>(
    c: Comparator<F>,
    input: Seq<T>,
    p: int,
    q: int,
    r: int,
)
    requires
        precedes(c, input, p, q),
        precedes(c, input, q, r),
    ensures
        precedes(c, input, p, r),
{
    let a = &input[p];
    let b = &input[q];
    let d = &input[r];
    lemma_order_transitive(c, a, b, d);
    if c.order(a, d) == Order::Equal {
        lemma_order_reverse(c, a, d);
        lemma_order_reverse(c, a, b);
        lemma_order_reverse(c, b, d);
        if c.order(a, b) == Order::Less {
            lemma_order_transitive(c, b, d, a);
        }
        if c.order(b, d) == Order::Less {
            lemma_order_transitive(c, d, a, b);
        }
    }
}

/// Moves the rows of `items` into a new vector, last row first.
pub fn reversed<T>(items: Vec<T>) -> (out: Vec<T>)
    ensures
        out@ == items@.reverse(),
{
    let ghost all = items@;
    let mut items = items;
    let mut out: Vec<T> = Vec::new();
    while items.len() > 0
        invariant
            items@ == all.take(items@.len() as int),
            items@.len() <= all.len(),
            out@.len() == all.len() - items@.len(),
            forall|k: int| 0 <= k < out@.len() ==> out@[k] == all[all.len() - 1 - k],
        decreases items@.len(),
    {
        let x = items.pop().unwrap();
        out.push(x);
    }
    assert(out@ =~= all.reverse());
    out
}

/// Merges two sorted runs of rows of `input` into one. `lf` and `rf` say
/// where in `input` the rows of the two runs came from; every row of the
/// left run came from before every row of the right run.
fn merge<T, F: PartialOrdBy<T>>(
    left: Vec<T>,
    right: Vec<T>,
    c: &Comparator<F>,
    Ghost(input): Ghost<Seq<T>>,
    Ghost(lf): Ghost<Seq<int>>,
    Ghost(rf): Ghost<Seq<int>>,
) -> (out: (Vec<T>, Ghost<Seq<int>>))
    requires
        tracks(input, left@, lf),
        tracks(input, right@, rf),
        ascending(*c, input, lf),
        ascending(*c, input, rf),
        forall|i: int, j: int|
            0 <= i < lf.len() && 0 <= j < rf.len() ==> #[trigger] lf[i] < #[trigger] rf[j],
    ensures
        out.1@.len() == lf.len() + rf.len(),
        tracks(input, out.0@, out.1@),
        ascending(*c, input, out.1@),
{
    let mut left = left;
    let mut right = right;
    let mut back: Vec<T> = Vec::new();
    let ghost mut bf: Seq<int> = Seq::empty();
    while left.len() > 0 || right.len() > 0
        invariant
            left@.len() <= lf.len(),
            right@.len() <= rf.len(),
            tracks(input, left@, lf.take(left@.len() as int)),
            tracks(input, right@, rf.take(right@.len() as int)),
            ascending(*c, input, lf),
            ascending(*c, input, rf),
            forall|i: int, j: int|
                0 <= i < lf.len() && 0 <= j < rf.len() ==> #[trigger] lf[i] < #[trigger] rf[j],
            tracks(input, back@, bf),
            bf.len() == (lf.len() - left@.len()) + (rf.len() - right@.len()),
            forall|i: int, j: int|
                0 <= i < j < bf.len() ==> precedes(*c, input, #[trigger] bf[j], #[trigger] bf[i]),
            forall|i: int, k: int|
                0 <= i < left@.len() && 0 <= k < bf.len() ==> precedes(
                    *c,
                    input,
                    #[trigger] lf[i],
                    #[trigger] bf[k],
                ),
            forall|i: int, k: int|
                0 <= i < right@.len() && 0 <= k < bf.len() ==> precedes(
                    *c,
                    input,
                    #[trigger] rf[i],
                    #[trigger] bf[k],
                ),
        decreases left@.len() + right@.len(),
    {
        let l = left.len();
        let r = right.len();
        let take_right = if l == 0 {
            true
        } else if r == 0 {
            false
        } else {
            match c.compare(&left[l - 1], &right[r - 1]) {
                Order::Greater => false,
                _ => true,
            }
        };
        if take_right {
            let ghost px = rf[r - 1];
            assert(lf.take(l as int).len() == l);
            assert(rf.take(r as int)[r - 1] == px);
            assert forall|i: int| 0 <= i < l implies precedes(*c, input, #[trigger] lf[i], px) by {
                assert(lf.take(l as int)[l - 1] == lf[l - 1]);
                assert(precedes(*c, input, lf[l - 1], px));
                if i < l - 1 {
                    lemma_precedes_transitive(*c, input, lf[i], lf[l - 1], px);
                }
            }
            let x = right.pop().unwrap();
            back.push(x);
            proof {
                bf = bf.push(px);
            }
        } else {
            let ghost px = lf[l - 1];
            assert(rf.take(r as int).len() == r);
            assert(lf.take(l as int)[l - 1] == px);
            assert forall|i: int| 0 <= i < r implies precedes(*c, input, #[trigger] rf[i], px) by {
                assert(rf.take(r as int)[r - 1] == rf[r - 1]);
                lemma_order_reverse(*c, &input[px], &input[rf[r - 1]]);
                assert(precedes(*c, input, rf[r - 1], px));
                if i < r - 1 {
                    lemma_precedes_transitive(*c, input, rf[i], rf[r - 1], px);
                }
            }
            let x = left.pop().unwrap();
            back.push(x);
            proof {
                bf = bf.push(px);
            }
        }
    }
    let out = reversed(back);
    (out, Ghost(bf.reverse()))
}

/// Sorts `items` and says where each row of the result came from.
fn merge_sort<T, F: PartialOrdBy<T>>(items: Vec<T>, c: &Comparator<F>) -> (out: (
    Vec<T>,
    Ghost<Seq<int>>,
))
    ensures
        stably_sorts(*c, items@, out.0@, out.1@),
    decreases items@.len(),
{
    let ghost input = items@;
    let n = items.len();
    if n <= 1 {
        let ghost from = Seq::new(n as nat, |i: int| i);
        return (items, Ghost(from));
    }
    let mid = n / 2;
    let mut left = items;
    let right = left.split_off(mid);
    let ghost left_in = left@;
    let ghost right_in = right@;
    let (left, Ghost(lf)) = merge_sort(left, c);
    let (right, Ghost(rf)) = merge_sort(right, c);
    let ghost rf_shifted = Seq::new(rf.len(), |i: int| rf[i] + mid);
    proof {
        assert forall|i: int, j: int| 0 <= i < j < lf.len() implies precedes(
            *c,
            input,
            #[trigger] lf[i],
            #[trigger] lf[j],
        ) by {
            assert(precedes(*c, left_in, lf[i], lf[j]));
            assert(left_in[lf[i]] == input[lf[i]]);
            assert(left_in[lf[j]] == input[lf[j]]);
        }
        assert forall|i: int, j: int| 0 <= i < j < rf_shifted.len() implies precedes(
            *c,
            input,
            #[trigger] rf_shifted[i],
            #[trigger] rf_shifted[j],
        ) by {
            assert(precedes(*c, right_in, rf[i], rf[j]));
            assert(right_in[rf[i]] == input[rf[i] + mid]);
            assert(right_in[rf[j]] == input[rf[j] + mid]);
        }
        assert forall|i: int| 0 <= i < rf_shifted.len() implies 0 <= #[trigger] rf_shifted[i]
            < input.len() && right@[i] == input[rf_shifted[i]] by {
            assert(right_in[rf[i]] == input[rf[i] + mid]);
        }
        assert forall|i: int| 0 <= i < lf.len() implies 0 <= #[trigger] lf[i] < input.len()
            && left@[i] == input[lf[i]] by {
            assert(left_in[lf[i]] == input[lf[i]]);
        }
    }
    merge(left, right, c, Ghost(input), Ghost(lf), Ghost(rf_shifted))
}

/// Returns the rows of `items` in sorted order. Rows that the comparator
/// finds equal stay in the order in which they came. The number of
/// comparisons grows as n log n.
pub fn stable_sort<T, F: PartialOrdBy<T>>(items: Vec<T>, c: &Comparator<F>) -> (out: Vec<T>)
    ensures
        is_stable_sort(*c, items@, out@),
{
    let (out, Ghost(from)) = merge_sort(items, c);
    assert(stably_sorts(*c, items@, out@, from));
    out
}

/// Sorts `items` in place under `comparator`; with no comparator the rows
/// stay as they are.
pub fn apply_sort<T, F: PartialOrdBy<T>>(items: &mut Vec<T>, comparator: &Option<Comparator<F>>)
    ensures
        match *comparator {
            Some(c) => is_stable_sort(c, old(items)@, final(items)@),
            None => final(items)@ == old(items)@,
        },
{
    match comparator {
        Some(c) => {
            let mut taken: Vec<T> = Vec::new();
            core::mem::swap(items, &mut taken);
            let mut sorted = stable_sort(taken, c);
            core::mem::swap(items, &mut sorted);
        },
        None => {},
    }
}

/// In a stable sort no row is greater than a later one.
pub proof fn lemma_stable_sort_is_sorted<T, F: PartialOrdBy<T>>(
    c: Comparator<F>,
    input: Seq<T>,
    output: Seq<T>,
)
    requires
        is_stable_sort(c, input, output),
    ensures
        output.len() == input.len(),
        is_sorted(c, output),
{
    let from = choose|from: Seq<int>| stably_sorts(c, input, output, from);
    assert forall|i: int, j: int| 0 <= i < j < output.len() implies c.order(&output[i], &output[j])
        != Order::Greater by {
        assert(precedes(c, input, from[i], from[j]));
    }
}

/// Rows that the comparator finds equal keep their relative order: of two
/// such rows of the output, the earlier one came from the earlier position
/// of the input.
pub proof fn lemma_ties_keep_order<T, F: PartialOrdBy<T>>(
    c: Comparator<F>,
    input: Seq<T>,
    output: Seq<T>,
    from: Seq<int>,
    i: int,
    j: int,
)
    requires
        stably_sorts(c, input, output, from),
        0 <= i < j < output.len(),
        c.order(&output[i], &output[j]) == Order::Equal,
    ensures
        from[i] < from[j],
{
    assert(precedes(c, input, from[i], from[j]));
}

/// A stable sort takes each row from a position of its own.
pub proof fn lemma_stable_sort_rearranges<T, F: PartialOrdBy<T>>(
    c: Comparator<F>,
    input: Seq<T>,
    output: Seq<T>,
    from: Seq<int>,
)
    requires
        stably_sorts(c, input, output, from),
    ensures
        rearranges(input, output, from),
{
    assert forall|i: int, j: int| 0 <= i < j < from.len() implies #[trigger] from[i]
        != #[trigger] from[j] by {
        lemma_precedes_irreflexive(c, input, from[i]);
        assert(precedes(c, input, from[i], from[j]));
    }
}

/// Every position of the input occurs in `from`: the output leaves no row
/// out, and since both have the same length it holds none twice.
pub proof fn lemma_every_row_is_kept<T, F: PartialOrdBy<T>>(
    c: Comparator<F>,
    input: Seq<T>,
    output: Seq<T>,
    from: Seq<int>,
    p: int,
)
    requires
        stably_sorts(c, input, output, from),
        0 <= p < input.len(),
    ensures
        exists|i: int| 0 <= i < from.len() && from[i] == p,
{
    let n = input.len() as int;
    lemma_stable_sort_rearranges(c, input, output, from);
    assert(from.no_duplicates());
    from.unique_seq_to_set();
    vstd::set_lib::lemma_int_range(0, n);
    let range = vstd::set_lib::set_int_range(0, n);
    assert(from.to_set().subset_of(range)) by {
        assert forall|x: int| from.to_set().contains(x) implies range.contains(x) by {
            let i = choose|i: int| 0 <= i < from.len() && from[i] == x;
            assert(0 <= from[i] < n);
        }
    }
    vstd::set_lib::lemma_subset_equality(from.to_set(), range);
    assert(range.contains(p));
    assert(from.to_set().contains(p));
}

/// A rearrangement holds every row as often as the input does.
pub proof fn lemma_rearrangement_keeps_rows<T>(input: Seq<T>, output: Seq<T>, from: Seq<int>)
    requires
        rearranges(input, output, from),
    ensures
        output.to_multiset() == input.to_multiset(),
    decreases input.len(),
{
    broadcast use vstd::seq_lib::group_to_multiset_ensures;

    let n = input.len() as int;
    if n == 0 {
        assert(output =~= input);
    } else {
        let p = from[n - 1];
        let rest_in = input.remove(p);
        let rest_out = output.drop_last();
        let rest_from = Seq::new(
            (n - 1) as nat,
            |i: int|
                if from[i] > p {
                    from[i] - 1
                } else {
                    from[i]
                },
        );
        assert forall|i: int| 0 <= i < rest_from.len() implies 0 <= #[trigger] rest_from[i]
            < rest_in.len() && rest_out[i] == rest_in[rest_from[i]] by {
            assert(from[i] != from[n - 1]);
        }
        assert forall|i: int, j: int| 0 <= i < j < rest_from.len() implies #[trigger] rest_from[i]
            != #[trigger] rest_from[j] by {
            assert(from[i] != from[j]);
            assert(from[i] != from[n - 1]);
            assert(from[j] != from[n - 1]);
        }
        lemma_rearrangement_keeps_rows(rest_in, rest_out, rest_from);
        assert(rest_out.push(output[n - 1]) =~= output);
        assert(input.to_multiset().count(input[p]) > 0);
        assert(output.to_multiset() =~= input.to_multiset());
    }
}

/// A stable sort holds every row as often as the input does: it loses
/// none and adds none.
pub proof fn lemma_stable_sort_is_permutation<T, F: PartialOrdBy<T>>(
    c: Comparator<F>,
    input: Seq<T>,
    output: Seq<T>,
)
    requires
        is_stable_sort(c, input, output),
    ensures
        output.to_multiset() == input.to_multiset(),
{
    let from = choose|from: Seq<int>| stably_sorts(c, input, output, from);
    lemma_stable_sort_rearranges(c, input, output, from);
    lemma_rearrangement_keeps_rows(input, output, from);
}

/// An input has one stable sort only.
pub proof fn lemma_stable_sort_unique<T, F: PartialOrdBy<T>>(
    c: Comparator<F>,
    input: Seq<T>,
    first: Seq<T>,
    second: Seq<T>,
)
    requires
        is_stable_sort(c, input, first),
        is_stable_sort(c, input, second),
    ensures
        first == second,
{
    let f = choose|from: Seq<int>| stably_sorts(c, input, first, from);
    let g = choose|from: Seq<int>| stably_sorts(c, input, second, from);
    lemma_same_positions(c, input, first, second, f, g, input.len() as int);
    assert forall|i: int| 0 <= i < first.len() implies first[i] == second[i] by {
        assert(first[i] == input[f[i]]);
        assert(second[i] == input[g[i]]);
    }
    assert(first =~= second);
}

/// Two stable sorts of one input take their first `k` rows from the same
/// positions.
proof fn lemma_same_positions<T, F: PartialOrdBy<T>>(
    c: Comparator<F>,
    input: Seq<T>,
    first: Seq<T>,
    second: Seq<T>,
    f: Seq<int>,
    g: Seq<int>,
    k: int,
)
    requires
        stably_sorts(c, input, first, f),
        stably_sorts(c, input, second, g),
        0 <= k <= input.len(),
    ensures
        forall|i: int| 0 <= i < k ==> f[i] == g[i],
    decreases k,
{
    if k > 0 {
        lemma_same_positions(c, input, first, second, f, g, k - 1);
        let m = k - 1;
        let p = f[m];
        let q = g[m];
        if p != q {
            lemma_precedes_total(c, input, p, q);
            lemma_every_row_is_kept(c, input, second, g, p);
            lemma_every_row_is_kept(c, input, first, f, q);
            let jp = choose|i: int| 0 <= i < g.len() && g[i] == p;
            let jq = choose|i: int| 0 <= i < f.len() && f[i] == q;
            lemma_precedes_irreflexive(c, input, p);
            lemma_precedes_irreflexive(c, input, q);
            // `p` is not among the first `m` positions of `g`, which are those of `f`.
            if jp < m {
                assert(f[jp] == g[jp]);
                assert(precedes(c, input, f[jp], f[m]));
            }
            if jq < m {
                assert(f[jq] == g[jq]);
                assert(precedes(c, input, g[jq], g[m]));
            }
            assert(jp > m && jq > m);
            assert(precedes(c, input, g[m], g[jp]));
            assert(precedes(c, input, f[m], f[jq]));
        }
    }
}

/// A sequence in which no row is greater than a later one is its own
/// stable sort.
pub proof fn lemma_sorted_is_fixed<T, F: PartialOrdBy<T>>(c: Comparator<F>, s: Seq<T>)
    requires
        is_sorted(c, s),
    ensures
        is_stable_sort(c, s, s),
{
    let id = Seq::new(s.len(), |i: int| i);
    assert(stably_sorts(c, s, s, id));
}

/// The stable sort of a sorted sequence is the sequence itself.
pub proof fn lemma_sort_of_sorted<T, F: PartialOrdBy<T>>(c: Comparator<F>, s: Seq<T>, out: Seq<T>)
    requires
        is_sorted(c, s),
        is_stable_sort(c, s, out),
    ensures
        out == s,
{
    lemma_sorted_is_fixed(c, s);
    lemma_stable_sort_unique(c, s, s, out);
}

/// Sorting what is already sorted changes nothing: the second of two
/// sorts under one comparator returns what the first returned.
pub proof fn lemma_stable_sort_idempotent<T, F: PartialOrdBy<T>>(
    c: Comparator<F>,
    input: Seq<T>,
    once: Seq<T>,
    twice: Seq<T>,
)
    requires
        is_stable_sort(c, input, once),
        is_stable_sort(c, once, twice),
    ensures
        twice == once,
{
    lemma_stable_sort_is_sorted(c, input, once);
    lemma_sort_of_sorted(c, once, twice);
}

} // verus!
