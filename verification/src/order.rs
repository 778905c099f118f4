//! Strictly ascending sequences, and the laws of the column of unique
//! values that follow from them.

use vstd::prelude::*;

use crate::native::NativeInt;

verus! {

/// Every item is smaller than each item after it.
pub open spec fn strictly_ascending<T: NativeInt>(s: Seq<T>) -> bool {
    forall|i: int, j: int| 0 <= i < j < s.len() ==> s[i].int_value() < s[j].int_value()
}

/// `col` lists the members of `set` in strictly ascending order.
pub open spec fn lists_ascending<T: NativeInt>(col: Seq<T>, set: Set<T>) -> bool {
    &&& strictly_ascending(col)
    &&& col.to_set() == set
}

/// `col` is the column of the unique values of `ints`: it holds exactly the
/// values that occur in `ints`, in strictly ascending order.
pub open spec fn is_column_of<T: NativeInt>(col: Seq<T>, ints: Seq<T>) -> bool {
    lists_ascending(col, ints.to_set())
}

/// `ints` with every item written twice in a row.
pub open spec fn doubled<T>(ints: Seq<T>) -> Seq<T> {
    Seq::new(2 * ints.len(), |i: int| ints[i / 2])
}

/// A sequence is strictly ascending exactly when each item is smaller than
/// its right neighbour.
pub proof fn lemma_ascending_by_neighbours<T: NativeInt>(s: Seq<T>)
    ensures
        strictly_ascending(s) <==> forall|i: int|
            0 <= i < s.len() - 1 ==> (#[trigger] s[i]).int_value() < s[i + 1].int_value(),
{
    let by_neighbours = forall|i: int|
        0 <= i < s.len() - 1 ==> (#[trigger] s[i]).int_value() < s[i + 1].int_value();
    if by_neighbours {
        assert forall|i: int, j: int| 0 <= i < j < s.len() implies s[i].int_value()
            < s[j].int_value() by {
            lemma_neighbours_reach(s, i, j);
        }
    }
}

/// Where each item is smaller than its right neighbour, it is smaller than
/// every item after it.
proof fn lemma_neighbours_reach<T: NativeInt>(s: Seq<T>, i: int, j: int)
    requires
        forall|k: int|
            0 <= k < s.len() - 1 ==> (#[trigger] s[k]).int_value() < s[k + 1].int_value(),
        0 <= i < j < s.len(),
    ensures
        s[i].int_value() < s[j].int_value(),
    decreases j - i,
{
    if i + 1 < j {
        lemma_neighbours_reach(s, i, j - 1);
    }
    assert(s[j - 1].int_value() < s[j - 1 + 1].int_value());
}

/// A strictly ascending sequence holds no value twice.
pub proof fn lemma_ascending_no_duplicates<T: NativeInt>(s: Seq<T>)
    requires
        strictly_ascending(s),
    ensures
        s.no_duplicates(),
{
    assert forall|i: int, j: int| 0 <= i < s.len() && 0 <= j < s.len() && i != j implies s[i]
        != s[j] by {
        if i < j {
            assert(s[i].int_value() < s[j].int_value());
        } else {
            assert(s[j].int_value() < s[i].int_value());
        }
    }
}

/// A set of values has one strictly ascending arrangement only: two strictly
/// ascending sequences with the same values are the same sequence.
pub proof fn lemma_ascending_unique<T: NativeInt>(a: Seq<T>, b: Seq<T>)
    requires
        strictly_ascending(a),
        strictly_ascending(b),
        a.to_set() == b.to_set(),
    ensures
        a == b,
    decreases a.len(),
{
    lemma_ascending_no_duplicates(a);
    lemma_ascending_no_duplicates(b);
    a.unique_seq_to_set();
    b.unique_seq_to_set();
    assert(a.len() == b.len());
    if a.len() > 0 {
        let n = a.len() - 1;
        // The last item of each is the greatest value of the common set.
        assert(a.to_set().contains(a[n]));
        assert(b.to_set().contains(b[n]));
        let i = choose|i: int| 0 <= i < b.len() && b[i] == a[n];
        let j = choose|j: int| 0 <= j < a.len() && a[j] == b[n];
        if i < n {
            assert(b[i].int_value() < b[n].int_value());
        }
        if j < n {
            assert(a[j].int_value() < a[n].int_value());
        }
        T::lemma_order(a[n], b[n]);
        assert(a[n] == b[n]);
        let a0 = a.drop_last();
        let b0 = b.drop_last();
        assert(a0.to_set() =~= b0.to_set()) by {
            assert forall|x: T| a0.to_set().contains(x) <==> b0.to_set().contains(x) by {
                if a0.contains(x) {
                    let k = choose|k: int| 0 <= k < a0.len() && a0[k] == x;
                    assert(a[k] == x);
                    assert(a[k].int_value() < a[n].int_value());
                    assert(b.to_set().contains(x));
                    let m = choose|m: int| 0 <= m < b.len() && b[m] == x;
                    assert(m != n);
                    assert(b0[m] == x);
                }
                if b0.contains(x) {
                    let k = choose|k: int| 0 <= k < b0.len() && b0[k] == x;
                    assert(b[k] == x);
                    assert(b[k].int_value() < b[n].int_value());
                    assert(a.to_set().contains(x));
                    let m = choose|m: int| 0 <= m < a.len() && a[m] == x;
                    assert(m != n);
                    assert(a0[m] == x);
                }
            }
        }
        lemma_ascending_unique(a0, b0);
        assert(a =~= a0.push(a[n]));
        assert(b =~= b0.push(b[n]));
    } else {
        assert(a =~= b);
    }
}

/// The column of a sequence is never longer than the sequence, and it is as
/// long exactly when the sequence holds no value twice.
pub proof fn lemma_column_cardinality<T: NativeInt>(col: Seq<T>, ints: Seq<T>)
    requires
        is_column_of(col, ints),
    ensures
        col.len() == ints.to_set().len(),
        col.len() <= ints.len(),
        col.len() == ints.len() <==> ints.no_duplicates(),
{
    lemma_ascending_no_duplicates(col);
    col.unique_seq_to_set();
    ints.lemma_cardinality_of_set();
    if ints.no_duplicates() {
        ints.unique_seq_to_set();
    }
    if col.len() == ints.len() {
        ints.lemma_no_dup_set_cardinality();
    }
}

/// Writing every item twice adds no value and takes none away.
pub proof fn lemma_doubled_same_values<T>(ints: Seq<T>)
    ensures
        doubled(ints).len() == 2 * ints.len(),
        doubled(ints).to_set() == ints.to_set(),
{
    let d = doubled(ints);
    assert forall|x: T| d.to_set().contains(x) <==> ints.to_set().contains(x) by {
        if d.contains(x) {
            let k = choose|k: int| 0 <= k < d.len() && d[k] == x;
            assert(ints[k / 2] == x);
        }
        if ints.contains(x) {
            let k = choose|k: int| 0 <= k < ints.len() && ints[k] == x;
            assert(d[2 * k] == x);
        }
    }
    assert(d.to_set() =~= ints.to_set());
}

/// Duplicates do not show in the column: a sequence and the same sequence
/// with every item written twice have the same column.
pub proof fn lemma_duplicates_collapse<T: NativeInt>(ints: Seq<T>, col: Seq<T>, col2: Seq<T>)
    requires
        is_column_of(col, ints),
        is_column_of(col2, doubled(ints)),
    ensures
        col == col2,
{
    lemma_doubled_same_values(ints);
    lemma_ascending_unique(col, col2);
}

/// The column depends on the values that occur only, not on their order or
/// on how often each occurs.
pub proof fn lemma_column_of_same_values<T: NativeInt>(
    ints: Seq<T>,
    other: Seq<T>,
    col: Seq<T>,
    col2: Seq<T>,
)
    requires
        ints.to_set() == other.to_set(),
        is_column_of(col, ints),
        is_column_of(col2, other),
    ensures
        col == col2,
{
    lemma_ascending_unique(col, col2);
}

} // verus!
