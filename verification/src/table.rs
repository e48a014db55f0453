//! A table kept as a list of rows, seen as a map from key to row.

use vstd::prelude::*;

verus! {

/// The map that a list of rows stands for: each row under its key, a later
/// row before an earlier one of the same key.
pub open spec fn table_of<K, R>(rows: Seq<R>, key: spec_fn(R) -> K) -> Map<K, R>
    decreases rows.len(),
{
    if rows.len() == 0 {
        Map::empty()
    } else {
        table_of(rows.drop_last(), key).insert(key(rows.last()), rows.last())
    }
}

/// No two rows share a key.
pub open spec fn distinct_keys<K, R>(rows: Seq<R>, key: spec_fn(R) -> K) -> bool {
    forall|i: int, j: int|
        0 <= i < j < rows.len() ==> key(#[trigger] rows[i]) != key(#[trigger] rows[j])
}

/// The map of a table holds exactly the keys of its rows; where no two rows
/// share a key, it holds each row under its key.
pub proof fn lemma_table_rows<K, R>(rows: Seq<R>, key: spec_fn(R) -> K)
    ensures
        forall|i: int|
            0 <= i < rows.len() ==> table_of(rows, key).contains_key(key(#[trigger] rows[i])),
        forall|k: K| #[trigger]
            table_of(rows, key).contains_key(k) ==> rows.contains(table_of(rows, key)[k]) && key(
                table_of(rows, key)[k],
            ) == k,
        distinct_keys(rows, key) ==> forall|i: int|
            0 <= i < rows.len() ==> table_of(rows, key)[key(#[trigger] rows[i])] == rows[i],
    decreases rows.len(),
{
    if rows.len() > 0 {
        let rest = rows.drop_last();
        lemma_table_rows(rest, key);
        assert forall|i: int| 0 <= i < rows.len() implies table_of(rows, key).contains_key(
            key(#[trigger] rows[i]),
        ) by {
            if i < rest.len() {
                assert(rows[i] == rest[i]);
            }
        }
        assert forall|k: K| #[trigger] table_of(rows, key).contains_key(k) implies rows.contains(
            table_of(rows, key)[k],
        ) && key(table_of(rows, key)[k]) == k by {
            if k == key(rows.last()) {
                assert(rows[rows.len() - 1] == rows.last());
            } else {
                let found = table_of(rest, key)[k];
                let at = choose|i: int| 0 <= i < rest.len() && rest[i] == found;
                assert(rows[at] == found);
            }
        }
        if distinct_keys(rows, key) {
            assert(distinct_keys(rest, key)) by {
                assert forall|i: int, j: int| 0 <= i < j < rest.len() implies key(
                    #[trigger] rest[i],
                ) != key(#[trigger] rest[j]) by {
                    assert(rest[i] == rows[i] && rest[j] == rows[j]);
                }
            }
            assert forall|i: int| 0 <= i < rows.len() implies table_of(rows, key)[key(
                #[trigger] rows[i],
            )] == rows[i] by {
                if i < rest.len() {
                    assert(rows[i] == rest[i]);
                    assert(rows[rows.len() - 1] == rows.last());
                }
            }
        }
    }
}

/// A row whose key the table does not hold may join it at the end: no two
/// rows share a key then either, and the map gains that one row.
pub proof fn lemma_table_push<K, R>(rows: Seq<R>, key: spec_fn(R) -> K, row: R)
    requires
        distinct_keys(rows, key),
        !table_of(rows, key).contains_key(key(row)),
    ensures
        distinct_keys(rows.push(row), key),
        table_of(rows.push(row), key) == table_of(rows, key).insert(key(row), row),
{
    lemma_table_rows(rows, key);
    let longer = rows.push(row);
    assert(longer.drop_last() =~= rows);
    assert forall|i: int, j: int| 0 <= i < j < longer.len() implies key(#[trigger] longer[i])
        != key(#[trigger] longer[j]) by {
        assert(longer[i] == rows[i]);
        if j < rows.len() {
            assert(longer[j] == rows[j]);
        }
    }
}

/// Keeping some of the rows keeps the keys apart, and the map of what is
/// left holds exactly the rows of the old map that were kept.
pub proof fn lemma_table_filter<K, R>(rows: Seq<R>, key: spec_fn(R) -> K, keep: spec_fn(R) -> bool)
    requires
        distinct_keys(rows, key),
    ensures
        distinct_keys(rows.filter(keep), key),
        table_of(rows.filter(keep), key) == Map::new(
            |k: K| table_of(rows, key).contains_key(k) && keep(table_of(rows, key)[k]),
            |k: K| table_of(rows, key)[k],
        ),
    decreases rows.len(),
{
    reveal(Seq::filter);
    let kept = rows.filter(keep);
    let wanted = Map::new(
        |k: K| table_of(rows, key).contains_key(k) && keep(table_of(rows, key)[k]),
        |k: K| table_of(rows, key)[k],
    );
    if rows.len() == 0 {
        assert(table_of(kept, key) =~= wanted);
    } else {
        let rest = rows.drop_last();
        let last = rows.last();
        assert(distinct_keys(rest, key)) by {
            assert forall|i: int, j: int| 0 <= i < j < rest.len() implies key(#[trigger] rest[i])
                != key(#[trigger] rest[j]) by {
                assert(rest[i] == rows[i] && rest[j] == rows[j]);
            }
        }
        lemma_table_filter(rest, key, keep);
        lemma_table_rows(rest, key);
        lemma_table_rows(rows, key);
        assert(!table_of(rest, key).contains_key(key(last))) by {
            if table_of(rest, key).contains_key(key(last)) {
                let found = table_of(rest, key)[key(last)];
                let at = choose|i: int| 0 <= i < rest.len() && rest[i] == found;
                assert(rows[at] == found);
                assert(rows[rows.len() - 1] == last);
            }
        }
        if keep(last) {
            assert(!table_of(rest.filter(keep), key).contains_key(key(last)));
            lemma_table_push(rest.filter(keep), key, last);
        }
        assert(table_of(kept, key) =~= wanted);
    }
}

} // verus!
