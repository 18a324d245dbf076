use vstd::prelude::*;
use crate::text::{text_lt, lemma_text_lt_irreflexive};

verus! {

/// A value stored under a text key.
pub trait Keyed {
    spec fn key(&self) -> Seq<char>;
}

// ---------------------------------------------------------------------------
// Sequences kept sorted strictly by a text key, seen as maps.

/// Ids strictly increase along `recs`.
pub open spec fn ids_sorted<T: Keyed>(recs: Seq<T>) -> bool {
    forall|i: int, j: int| 0 <= i < j < recs.len() ==> text_lt(#[trigger] recs[i].key(), #[trigger] recs[j].key())
}

/// Some record of `recs` has id `id`.
pub open spec fn has_id<T: Keyed>(recs: Seq<T>, id: Seq<char>) -> bool {
    exists|i: int| 0 <= i < recs.len() && (#[trigger] recs[i]).key() == id
}

/// An index of `recs` whose record has id `id`, when there is one.
pub open spec fn index_of_id<T: Keyed>(recs: Seq<T>, id: Seq<char>) -> int {
    choose|i: int| 0 <= i < recs.len() && (#[trigger] recs[i]).key() == id
}

/// The records of `recs`, keyed by id.
pub open spec fn record_map<T: Keyed>(recs: Seq<T>) -> Map<Seq<char>, T> {
    Map::new(|k: Seq<char>| has_id(recs, k), |k: Seq<char>| recs[index_of_id(recs, k)])
}

/// In a sorted sequence the record with an id is the one at its index.
pub proof fn lemma_record_at<T: Keyed>(recs: Seq<T>, i: int)
    requires
        ids_sorted(recs),
        0 <= i < recs.len(),
    ensures
        record_map(recs).contains_key(recs[i].key()),
        record_map(recs)[recs[i].key()] == recs[i],
{
    let k = recs[i].key();
    assert(has_id(recs, k));
    let j = index_of_id(recs, k);
    assert(record_map(recs)[k] == recs[j]);
    if j != i {
        if j < i {
            assert(text_lt(recs[j].key(), recs[i].key()));
        } else {
            assert(text_lt(recs[i].key(), recs[j].key()));
        }
        lemma_text_lt_irreflexive(k);
    }
}

/// Two sorted sequences holding the same records by index agree as maps
/// everywhere their ids agree.
pub proof fn lemma_map_ext<T: Keyed>(a: Seq<T>, b: Seq<T>, m: Map<Seq<char>, T>)
    requires
        ids_sorted(b),
        forall|k: Seq<char>| #[trigger] m.contains_key(k) <==> has_id(b, k),
        forall|i: int| 0 <= i < b.len() ==> m[(#[trigger] b[i]).key()] == b[i],
    ensures
        record_map(b) == m,
{
    assert forall|k: Seq<char>| #[trigger] record_map(b).contains_key(k) implies record_map(b)[k] == m[k] by {
        let i = index_of_id(b, k);
        lemma_record_at(b, i);
    }
    assert(record_map(b) =~= m);
}

pub proof fn lemma_insert_keeps_order<T: Keyed>(recs: Seq<T>, p: int, r: T)
    requires
        ids_sorted(recs),
        0 <= p <= recs.len(),
        forall|i: int| 0 <= i < p ==> text_lt(#[trigger] recs[i].key(), r.key()),
        forall|i: int| p <= i < recs.len() ==> text_lt(r.key(), #[trigger] recs[i].key()),
    ensures
        ids_sorted(recs.insert(p, r)),
        record_map(recs.insert(p, r)) == record_map(recs).insert(r.key(), r),
{
    let b = recs.insert(p, r);
    assert forall|i: int, j: int| 0 <= i < j < b.len() implies text_lt(#[trigger] b[i].key(), #[trigger] b[j].key()) by {
        if i < p && j < p {
        } else if i < p && j == p {
        } else if i < p {
            assert(b[j] == recs[j - 1]);
            assert(text_lt(recs[i].key(), recs[j - 1].key()));
        } else if i == p {
            assert(b[j] == recs[j - 1]);
        } else {
            assert(b[i] == recs[i - 1]);
            assert(b[j] == recs[j - 1]);
        }
    }
    let m = record_map(recs).insert(r.key(), r);
    assert forall|k: Seq<char>| #[trigger] m.contains_key(k) <==> has_id(b, k) by {
        if has_id(recs, k) {
            let i = choose|i: int| 0 <= i < recs.len() && (#[trigger] recs[i]).key() == k;
            if i < p {
                assert(b[i] == recs[i]);
            } else {
                assert(b[i + 1] == recs[i]);
            }
        }
        if has_id(b, k) {
            let i = choose|i: int| 0 <= i < b.len() && (#[trigger] b[i]).key() == k;
            if i < p {
                assert(recs[i] == b[i]);
            } else if i > p {
                assert(recs[i - 1] == b[i]);
            }
        }
        assert(b[p] == r);
    }
    assert forall|i: int| 0 <= i < b.len() implies m[(#[trigger] b[i]).key()] == b[i] by {
        if i == p {
        } else {
            let oi = if i < p { i } else { i - 1 };
            assert(b[i] == recs[oi]);
            lemma_record_at(recs, oi);
            if b[i].key() == r.key() {
                lemma_text_lt_irreflexive(r.key());
            }
        }
    }
    lemma_map_ext(recs, b, m);
}

pub proof fn lemma_update_keeps_order<T: Keyed>(recs: Seq<T>, p: int, r: T)
    requires
        ids_sorted(recs),
        0 <= p < recs.len(),
        recs[p].key() == r.key(),
    ensures
        ids_sorted(recs.update(p, r)),
        record_map(recs.update(p, r)) == record_map(recs).insert(r.key(), r),
{
    let b = recs.update(p, r);
    assert forall|i: int, j: int| 0 <= i < j < b.len() implies text_lt(#[trigger] b[i].key(), #[trigger] b[j].key()) by {
        assert(text_lt(recs[i].key(), recs[j].key()));
    }
    let m = record_map(recs).insert(r.key(), r);
    assert forall|k: Seq<char>| #[trigger] m.contains_key(k) <==> has_id(b, k) by {
        if has_id(recs, k) {
            let i = choose|i: int| 0 <= i < recs.len() && (#[trigger] recs[i]).key() == k;
            assert(b[i].key() == recs[i].key());
        }
        if has_id(b, k) {
            let i = choose|i: int| 0 <= i < b.len() && (#[trigger] b[i]).key() == k;
            assert(recs[i].key() == b[i].key());
        }
        assert(b[p] == r);
    }
    assert forall|i: int| 0 <= i < b.len() implies m[(#[trigger] b[i]).key()] == b[i] by {
        if i != p {
            lemma_record_at(recs, i);
            if recs[i].key() == r.key() {
                if i < p {
                    assert(text_lt(recs[i].key(), recs[p].key()));
                } else {
                    assert(text_lt(recs[p].key(), recs[i].key()));
                }
                lemma_text_lt_irreflexive(r.key());
            }
        }
    }
    lemma_map_ext(recs, b, m);
}

pub proof fn lemma_remove_keeps_order<T: Keyed>(recs: Seq<T>, p: int)
    requires
        ids_sorted(recs),
        0 <= p < recs.len(),
    ensures
        ids_sorted(recs.remove(p)),
        record_map(recs.remove(p)) == record_map(recs).remove(recs[p].key()),
{
    let b = recs.remove(p);
    let id = recs[p].key();
    assert forall|i: int, j: int| 0 <= i < j < b.len() implies text_lt(#[trigger] b[i].key(), #[trigger] b[j].key()) by {
        let oi = if i < p { i } else { i + 1 };
        let oj = if j < p { j } else { j + 1 };
        assert(b[i] == recs[oi]);
        assert(b[j] == recs[oj]);
    }
    let m = record_map(recs).remove(id);
    assert forall|k: Seq<char>| #[trigger] m.contains_key(k) <==> has_id(b, k) by {
        if has_id(recs, k) && k != id {
            let i = choose|i: int| 0 <= i < recs.len() && (#[trigger] recs[i]).key() == k;
            if i < p {
                assert(b[i] == recs[i]);
            } else if i > p {
                assert(b[i - 1] == recs[i]);
            }
        }
        if has_id(b, k) {
            let i = choose|i: int| 0 <= i < b.len() && (#[trigger] b[i]).key() == k;
            let oi = if i < p { i } else { i + 1 };
            assert(recs[oi] == b[i]);
            if k == id {
                if oi < p {
                    assert(text_lt(recs[oi].key(), recs[p].key()));
                } else {
                    assert(text_lt(recs[p].key(), recs[oi].key()));
                }
                lemma_text_lt_irreflexive(k);
            }
        }
    }
    assert forall|i: int| 0 <= i < b.len() implies m[(#[trigger] b[i]).key()] == b[i] by {
        let oi = if i < p { i } else { i + 1 };
        assert(b[i] == recs[oi]);
        lemma_record_at(recs, oi);
        if recs[oi].key() == id {
            if oi < p {
                assert(text_lt(recs[oi].key(), recs[p].key()));
            } else {
                assert(text_lt(recs[p].key(), recs[oi].key()));
            }
            lemma_text_lt_irreflexive(id);
        }
    }
    lemma_map_ext(recs, b, m);
}


/// A record with id `id` is among `recs` pushed with `r` exactly when it is
/// among `recs` or `r` has that id.
pub proof fn lemma_has_id_push<T: Keyed>(recs: Seq<T>, r: T, id: Seq<char>)
    ensures
        has_id(recs.push(r), id) == (has_id(recs, id) || r.key() == id),
{
    let s = recs.push(r);
    if has_id(recs, id) {
        let i = choose|i: int| 0 <= i < recs.len() && (#[trigger] recs[i]).key() == id;
        assert(s[i] == recs[i]);
    }
    if r.key() == id {
        assert(s[recs.len() as int] == r);
    }
    if has_id(s, id) {
        let i = choose|i: int| 0 <= i < s.len() && (#[trigger] s[i]).key() == id;
        if i < recs.len() {
            assert(s[i] == recs[i]);
        }
    }
}

} // verus!
