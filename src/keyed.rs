//! Sequences of keyed entries with unique keys, viewed as maps.
use vstd::prelude::*;

verus! {

/// No two entries carry the same key.
pub open spec fn unique_names<V>(b: Seq<(Seq<char>, V)>) -> bool {
    forall|i: int, j: int|
        0 <= i < b.len() && 0 <= j < b.len() && i != j ==> #[trigger] b[i].0 != #[trigger] b[j].0
}

/// The map that a sequence of entries denotes; a later entry overrides an
/// earlier one of the same key.
pub open spec fn to_map<V>(b: Seq<(Seq<char>, V)>) -> Map<Seq<char>, V>
    decreases b.len(),
{
    if b.len() == 0 {
        Map::empty()
    } else {
        to_map(b.drop_last()).insert(b.last().0, b.last().1)
    }
}

pub proof fn lemma_to_map_index<V>(b: Seq<(Seq<char>, V)>, i: int)
    requires
        unique_names(b),
        0 <= i < b.len(),
    ensures
        to_map(b).contains_key(b[i].0),
        to_map(b)[b[i].0] == b[i].1,
    decreases b.len(),
{
    if i < b.len() - 1 {
        assert(unique_names(b.drop_last()));
        lemma_to_map_index(b.drop_last(), i);
        assert(b[i].0 != b[b.len() - 1].0);
    }
}

pub proof fn lemma_to_map_absent<V>(b: Seq<(Seq<char>, V)>, k: Seq<char>)
    requires
        forall|i: int| 0 <= i < b.len() ==> #[trigger] b[i].0 != k,
    ensures
        !to_map(b).contains_key(k),
    decreases b.len(),
{
    if b.len() > 0 {
        assert forall|i: int| 0 <= i < b.drop_last().len() implies #[trigger] b.drop_last()[i].0
            != k by {
            assert(b.drop_last()[i] == b[i]);
        }
        lemma_to_map_absent(b.drop_last(), k);
    }
}

pub proof fn lemma_to_map_update<V>(b: Seq<(Seq<char>, V)>, i: int, f: (Seq<char>, V))
    requires
        unique_names(b),
        0 <= i < b.len(),
        b[i].0 == f.0,
    ensures
        to_map(b.update(i, f)) == to_map(b).insert(f.0, f.1),
        unique_names(b.update(i, f)),
    decreases b.len(),
{
    let u = b.update(i, f);
    assert(unique_names(u)) by {
        assert forall|x: int, y: int|
            0 <= x < u.len() && 0 <= y < u.len() && x != y implies #[trigger] u[x].0
            != #[trigger] u[y].0 by {
            assert(u[x].0 == b[x].0);
            assert(u[y].0 == b[y].0);
        }
    }
    if i == b.len() - 1 {
        assert(u.drop_last() =~= b.drop_last());
        assert(to_map(u) =~= to_map(b).insert(f.0, f.1));
    } else {
        assert(unique_names(b.drop_last()));
        lemma_to_map_update(b.drop_last(), i, f);
        assert(u.drop_last() =~= b.drop_last().update(i, f));
        assert(b[i].0 != b[b.len() - 1].0);
        assert(u.last() == b.last());
        assert(to_map(u) =~= to_map(b).insert(f.0, f.1));
    }
}


pub proof fn lemma_push_fresh<V>(b: Seq<(Seq<char>, V)>, f: (Seq<char>, V))
    requires
        unique_names(b),
        !to_map(b).contains_key(f.0),
    ensures
        unique_names(b.push(f)),
        to_map(b.push(f)) == to_map(b).insert(f.0, f.1),
{
    let u = b.push(f);
    assert(u.drop_last() =~= b);
    assert forall|x: int, y: int|
        0 <= x < u.len() && 0 <= y < u.len() && x != y implies #[trigger] u[x].0
        != #[trigger] u[y].0 by {
        if x < b.len() && y < b.len() {
            assert(u[x] == b[x] && u[y] == b[y]);
        } else if x == b.len() {
            lemma_to_map_index(b, y);
        } else {
            lemma_to_map_index(b, x);
        }
    }
}

pub proof fn lemma_to_map_remove<V>(b: Seq<(Seq<char>, V)>, i: int)
    requires
        unique_names(b),
        0 <= i < b.len(),
    ensures
        unique_names(b.remove(i)),
        to_map(b.remove(i)) == to_map(b).remove(b[i].0),
    decreases b.len(),
{
    let u = b.remove(i);
    assert forall|x: int, y: int|
        0 <= x < u.len() && 0 <= y < u.len() && x != y implies #[trigger] u[x].0
        != #[trigger] u[y].0 by {
        let bx = if x < i { x } else { x + 1 };
        let by_ = if y < i { y } else { y + 1 };
        assert(u[x] == b[bx]);
        assert(u[y] == b[by_]);
    }
    if i == b.len() - 1 {
        assert(u =~= b.drop_last());
        lemma_to_map_absent_unique(b.drop_last(), b.last().0, b);
        assert(to_map(u) =~= to_map(b).remove(b[i].0));
    } else {
        assert(unique_names(b.drop_last()));
        lemma_to_map_remove(b.drop_last(), i);
        assert(u.drop_last() =~= b.drop_last().remove(i));
        assert(u.last() == b.last());
        assert(b[i].0 != b.last().0);
        assert(to_map(u) =~= to_map(b).remove(b[i].0));
    }
}

proof fn lemma_to_map_absent_unique<V>(p: Seq<(Seq<char>, V)>, k: Seq<char>, b: Seq<(Seq<char>, V)>)
    requires
        unique_names(b),
        b.len() > 0,
        p == b.drop_last(),
        k == b.last().0,
    ensures
        !to_map(p).contains_key(k),
{
    assert forall|i: int| 0 <= i < p.len() implies #[trigger] p[i].0 != k by {
        assert(p[i] == b[i]);
    }
    lemma_to_map_absent(p, k);
}

/// A key of the map stands at some index of the sequence.
pub proof fn lemma_to_map_key<V>(b: Seq<(Seq<char>, V)>, k: Seq<char>)
    requires
        to_map(b).contains_key(k),
    ensures
        exists|i: int| 0 <= i < b.len() && #[trigger] b[i].0 == k,
    decreases b.len(),
{
    if b.last().0 != k {
        lemma_to_map_key(b.drop_last(), k);
        let i = choose|i: int| 0 <= i < b.drop_last().len() && #[trigger] b.drop_last()[i].0 == k;
        assert(b[i].0 == k);
    } else {
        assert(b[b.len() - 1].0 == k);
    }
}

} // verus!
