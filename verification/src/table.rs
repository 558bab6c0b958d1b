//! Tables from keys to values, in the order in which their keys came in.
use vstd::prelude::*;

verus! {

/// The place of the first row for `key`; the number of rows where there is none.
pub open spec fn position<K, V>(rows: Seq<(K, V)>, key: K) -> int
    decreases rows.len(),
{
    if rows.len() == 0 || rows[0].0 == key {
        0
    } else {
        1 + position(rows.drop_first(), key)
    }
}

/// The value for `key`.
pub open spec fn lookup<K, V>(rows: Seq<(K, V)>, key: K) -> Option<V> {
    if position(rows, key) < rows.len() {
        Some(rows[position(rows, key)].1)
    } else {
        None
    }
}

/// The table in which `value` stands for `key`: in the place of the row for it, or else at the end.
pub open spec fn with_row<K, V>(rows: Seq<(K, V)>, key: K, value: V) -> Seq<
    (K, V),
> {
    if position(rows, key) < rows.len() {
        rows.update(position(rows, key), (key, value))
    } else {
        rows.push((key, value))
    }
}

/// The table without the row for `key`.
pub open spec fn without_row<K, V>(rows: Seq<(K, V)>, key: K) -> Seq<
    (K, V),
> {
    if position(rows, key) < rows.len() {
        rows.remove(position(rows, key))
    } else {
        rows
    }
}

/// Whether no two rows have the same key.
pub open spec fn distinct_keys<K, V>(rows: Seq<(K, V)>) -> bool {
    forall|i: int, j: int|
        0 <= i < j < rows.len() ==> (#[trigger] rows[i]).0 != (#[trigger] rows[j]).0
}

/// The place of the first row for a key is where a search finds it.
pub proof fn lemma_position<K, V>(rows: Seq<(K, V)>, key: K, at: int)
    requires
        0 <= at <= rows.len(),
        forall|j: int| 0 <= j < at ==> (#[trigger] rows[j]).0 != key,
        at < rows.len() ==> rows[at].0 == key,
    ensures
        position(rows, key) == at,
    decreases at,
{
    if at > 0 {
        assert(rows[0].0 != key);
        let rest = rows.drop_first();
        assert forall|j: int| 0 <= j < at - 1 implies (#[trigger] rest[j]).0 != key by {
            assert(rest[j] == rows[j + 1]);
        }
        assert(at < rows.len() ==> rest[at - 1] == rows[at]);
        lemma_position(rest, key, at - 1);
    }
}

/// The place of a row lies within the table, and holds its key.
pub proof fn lemma_position_bounds<K, V>(rows: Seq<(K, V)>, key: K)
    ensures
        0 <= position(rows, key) <= rows.len(),
        position(rows, key) < rows.len() ==> rows[position(rows, key)].0 == key,
        forall|j: int| 0 <= j < position(rows, key) ==> (#[trigger] rows[j]).0 != key,
    decreases rows.len(),
{
    if rows.len() > 0 && rows[0].0 != key {
        let rest = rows.drop_first();
        lemma_position_bounds(rest, key);
        let at = position(rest, key);
        assert(position(rows, key) == at + 1);
        assert(at < rest.len() ==> rest[at] == rows[at + 1]);
        assert forall|j: int| 0 <= j < at + 1 implies (#[trigger] rows[j]).0 != key by {
            if j > 0 {
                assert(rest[j - 1] == rows[j]);
            }
        }
    }
}

/// What was written for a key is read for it, and nothing else is changed.
pub proof fn law_reads_what_was_written<K, V>(
    rows: Seq<(K, V)>,
    key: K,
    value: V,
    other: K,
)
    ensures
        lookup(with_row(rows, key, value), key) == Some(value),
        other != key ==> lookup(with_row(rows, key, value), other) == lookup(rows, other),
        distinct_keys(rows) ==> distinct_keys(with_row(rows, key, value)),
{
    lemma_position_bounds(rows, key);
    lemma_position_bounds(rows, other);
    let at = position(rows, key);
    let new = with_row(rows, key, value);
    assert(forall|j: int| 0 <= j < new.len() ==> j != at ==> (#[trigger] new[j]) == rows[j]);
    lemma_position(new, key, at);
    if other != key {
        let old_place = position(rows, other);
        let place = if old_place < rows.len() {
            old_place
        } else {
            new.len() as int
        };
        lemma_position(new, other, place);
    }
}

/// A row that was taken out is no longer there, and nothing else is changed.
pub proof fn law_forgets_what_was_removed<K, V>(
    rows: Seq<(K, V)>,
    key: K,
    other: K,
)
    requires
        distinct_keys(rows),
    ensures
        lookup(without_row(rows, key), key) is None,
        other != key ==> lookup(without_row(rows, key), other) == lookup(rows, other),
        distinct_keys(without_row(rows, key)),
{
    lemma_position_bounds(rows, key);
    lemma_position_bounds(rows, other);
    let at = position(rows, key);
    if at < rows.len() {
        let new = without_row(rows, key);
        assert(forall|j: int|
            0 <= j < new.len() ==> (#[trigger] new[j]) == rows[if j < at {
                j
            } else {
                j + 1
            }]);
        lemma_position(new, key, new.len() as int);
        if other != key {
            let old_place = position(rows, other);
            let place = if old_place < at {
                old_place
            } else {
                old_place - 1
            };
            assert(old_place != at);
            lemma_position(new, other, place);
        }
    } else {
        lemma_position(rows, key, rows.len() as int);
    }
}

} // verus!
