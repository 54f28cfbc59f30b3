//! The record model of the bin section: what a record is to the logic, the
//! collision rule, and the effect of each operation on the sequence of
//! records, with the laws that relate them.
use vstd::prelude::*;

verus! {

/// A record as the logic reads it: its `name` and `path` entries, each present
/// only where the entry is a string.
pub type BinRecord = (Option<Seq<char>>, Option<Seq<char>>);

/// A record collides with a query when its name equals the queried name or
/// its path equals the queried path.
pub open spec fn is_match(r: BinRecord, name: Seq<char>, path: Seq<char>) -> bool {
    r.0 == Some(name) || r.1 == Some(path)
}

/// Some record collides with the query.
pub open spec fn any_match(recs: Seq<BinRecord>, name: Seq<char>, path: Seq<char>) -> bool {
    exists|i: int| 0 <= i < recs.len() && is_match(#[trigger] recs[i], name, path)
}

/// `i` is the lowest index of a record that collides with the query.
pub open spec fn is_first_match(recs: Seq<BinRecord>, name: Seq<char>, path: Seq<char>, i: int) -> bool {
    &&& 0 <= i < recs.len()
    &&& is_match(recs[i], name, path)
    &&& forall|j: int| 0 <= j < i ==> !is_match(#[trigger] recs[j], name, path)
}

/// The lowest index of a colliding record (meaningful where one collides).
pub open spec fn first_match(recs: Seq<BinRecord>, name: Seq<char>, path: Seq<char>) -> int {
    choose|i: int| is_first_match(recs, name, path, i)
}

/// The records after a removal: the first colliding record leaves, if any.
pub open spec fn removed(recs: Seq<BinRecord>, name: Seq<char>, path: Seq<char>) -> Seq<BinRecord> {
    if any_match(recs, name, path) {
        recs.remove(first_match(recs, name, path))
    } else {
        recs
    }
}

/// The records that do not collide with the query, in their order.
pub open spec fn purged(recs: Seq<BinRecord>, name: Seq<char>, path: Seq<char>) -> Seq<BinRecord> {
    recs.filter(|r: BinRecord| !is_match(r, name, path))
}

/// The records after an upsert: every colliding record leaves and the new
/// record is appended.
pub open spec fn added(recs: Seq<BinRecord>, name: Seq<char>, path: Seq<char>) -> Seq<BinRecord> {
    purged(recs, name, path).push((Some(name), Some(path)))
}

/// The first colliding index is unique.
pub proof fn lemma_first_match_is(recs: Seq<BinRecord>, name: Seq<char>, path: Seq<char>, i: int)
    requires
        is_first_match(recs, name, path, i),
    ensures
        any_match(recs, name, path),
        first_match(recs, name, path) == i,
        removed(recs, name, path) == recs.remove(i),
{
    assert(is_match(recs[i], name, path));
    let j = first_match(recs, name, path);
    assert(is_first_match(recs, name, path, j));
    if j < i {
        assert(!is_match(recs[j], name, path));
    } else if i < j {
        assert(!is_match(recs[i], name, path));
    }
}

/// Purging one more record of a prefix keeps it or drops it.
pub proof fn lemma_purged_take_step(recs: Seq<BinRecord>, name: Seq<char>, path: Seq<char>, k: int)
    requires
        0 <= k < recs.len(),
    ensures
        purged(recs.take(k + 1), name, path) == if is_match(recs[k], name, path) {
            purged(recs.take(k), name, path)
        } else {
            purged(recs.take(k), name, path).push(recs[k])
        },
{
    reveal(Seq::filter);
    assert(recs.take(k + 1).drop_last() =~= recs.take(k));
}

/// A sequence with no colliding record is left as it is by purging.
pub proof fn lemma_purged_clean(recs: Seq<BinRecord>, name: Seq<char>, path: Seq<char>)
    requires
        forall|i: int| 0 <= i < recs.len() ==> !is_match(#[trigger] recs[i], name, path),
    ensures
        purged(recs, name, path) == recs,
    decreases recs.len(),
{
    reveal(Seq::filter);
    if recs.len() > 0 {
        lemma_purged_clean(recs.drop_last(), name, path);
        assert(recs.drop_last().push(recs.last()) =~= recs);
    }
}

/// No record left by purging collides with the query.
pub proof fn lemma_purged_no_match(recs: Seq<BinRecord>, name: Seq<char>, path: Seq<char>)
    ensures
        forall|i: int|
            0 <= i < purged(recs, name, path).len() ==> !is_match(
                #[trigger] purged(recs, name, path)[i],
                name,
                path,
            ),
{
    broadcast use vstd::seq_lib::group_filter_ensures;

    assert forall|i: int| 0 <= i < purged(recs, name, path).len() implies !is_match(
        #[trigger] purged(recs, name, path)[i],
        name,
        path,
    ) by {
        recs.lemma_filter_pred(|r: BinRecord| !is_match(r, name, path), i);
    }
}

/// Upsert is idempotent: adding the same record twice leaves the records as
/// one add does, and the record stands once, last, with no other record
/// colliding with it.
pub proof fn law_add_idempotent(recs: Seq<BinRecord>, name: Seq<char>, path: Seq<char>)
    ensures
        added(added(recs, name, path), name, path) == added(recs, name, path),
        added(recs, name, path).last() == (Some(name), Some(path)),
        forall|i: int|
            0 <= i < added(recs, name, path).len() - 1 ==> !is_match(
                #[trigger] added(recs, name, path)[i],
                name,
                path,
            ),
{
    let once = added(recs, name, path);
    let p = purged(recs, name, path);
    lemma_purged_no_match(recs, name, path);
    lemma_purged_clean(p, name, path);
    assert forall|i: int| 0 <= i < once.len() - 1 implies !is_match(#[trigger] once[i], name, path) by {
        assert(once[i] == p[i]);
    }
    assert(once.take(once.len() - 1) =~= p);
    lemma_purged_take_step(once, name, path, once.len() - 1);
    assert(once.take(once.len() as int) =~= once);
}

/// Upsert purges by either field: of two records, one sharing the new name
/// and the other the new path, neither survives.
pub proof fn law_add_purges_both_collisions(
    name_a: Seq<char>,
    path_a: Seq<char>,
    name_b: Seq<char>,
    path_b: Seq<char>,
)
    ensures
        added(seq![(Some(name_a), Some(path_a)), (Some(name_b), Some(path_b))], name_a, path_b) == seq![
            (Some(name_a), Some(path_b)),
        ],
{
    let recs = seq![(Some(name_a), Some(path_a)), (Some(name_b), Some(path_b))];
    assert forall|i: int| 0 <= i < recs.len() implies is_match(#[trigger] recs[i], name_a, path_b) by {}
    lemma_purged_take_step(recs, name_a, path_b, 0);
    lemma_purged_take_step(recs, name_a, path_b, 1);
    reveal(Seq::filter);
    assert(recs.take(0) =~= Seq::<BinRecord>::empty());
    assert(recs.take(2) =~= recs);
    assert(purged(recs, name_a, path_b) =~= Seq::<BinRecord>::empty());
    assert(added(recs, name_a, path_b) =~= seq![(Some(name_a), Some(path_b))]);
}

/// Removal is single-shot: where `i` is the first colliding index and `j` the
/// next, one removal takes out the record at `i` alone, and a second takes
/// out the record that stood at `j`.
pub proof fn law_remove_single_shot(
    recs: Seq<BinRecord>,
    name: Seq<char>,
    path: Seq<char>,
    i: int,
    j: int,
)
    requires
        is_first_match(recs, name, path, i),
        i < j < recs.len(),
        is_match(recs[j], name, path),
        forall|k: int| i < k < j ==> !is_match(#[trigger] recs[k], name, path),
    ensures
        removed(recs, name, path) == recs.remove(i),
        removed(recs, name, path).len() == recs.len() - 1,
        removed(removed(recs, name, path), name, path) == recs.remove(i).remove(j - 1),
{
    lemma_first_match_is(recs, name, path, i);
    let once = recs.remove(i);
    assert forall|k: int| 0 <= k < j - 1 implies !is_match(#[trigger] once[k], name, path) by {
        if k < i {
            assert(once[k] == recs[k]);
        } else {
            assert(once[k] == recs[k + 1]);
        }
    }
    assert(once[j - 1] == recs[j]);
    lemma_first_match_is(once, name, path, j - 1);
}

} // verus!
