//! What holds of the operations on item data over all values.
use vstd::prelude::*;
use crate::value::{Cbor, cbor_eq, lemma_cbor_eq};
use crate::item::{
    first_with_text_key, get_path_spec, last_with_key, last_with_text_key, merge_entries,
    merge_entry, merge_spec, nest, set_path_spec, without_key, insert_sorted, sort_entries,
    key_after,
};

verus! {

/// Whether at most one entry of `m` has the text key `k`.
pub open spec fn text_key_once(m: Seq<(Cbor, Cbor)>, k: Seq<char>) -> bool {
    forall|i: int, j: int|
        0 <= i < m.len() && 0 <= j < m.len() && #[trigger] m[i].0 == Cbor::Text(k) && #[trigger]
            m[j].0 == Cbor::Text(k) ==> i == j
}

/// Whether a value set at `path` in `d` is found again at `path`: every step
/// meets `Null`, or a mapping in which at most one entry has the step's key,
/// and a key is missing only at the last step.
pub open spec fn path_settable(d: Cbor, path: Seq<Seq<char>>) -> bool
    decreases path.len(),
{
    if path.len() == 0 {
        true
    } else {
        match d {
            Cbor::Mapping(m) => text_key_once(m, path[0]) && if first_with_text_key(m, path[0])
                < m.len() {
                path_settable(m[first_with_text_key(m, path[0])].1, path.drop_first())
            } else {
                path.len() == 1
            },
            Cbor::Null => true,
            _ => false,
        }
    }
}

/// Whether no two entries of `m` have equal keys (see `cbor_eq`).
pub open spec fn keys_distinct(m: Seq<(Cbor, Cbor)>) -> bool {
    forall|i: int, j: int| 0 <= i < j < m.len() ==> !#[trigger] cbor_eq(m[i].0, m[j].0)
}

/// What merging the entries `b` into the entries `a` leaves under the key `k`:
/// `a`'s value where `b` has none, `b`'s value where `a` has none, and `b`'s
/// value merged into `a`'s where both have one.
pub open spec fn merged_at(a: Seq<(Cbor, Cbor)>, b: Seq<(Cbor, Cbor)>, k: Cbor) -> Option<Cbor> {
    match last_with_key(b, k) {
        None => last_with_key(a, k),
        Some(vb) => Some(
            match last_with_key(a, k) {
                Some(va) => merge_spec(va, vb),
                None => vb,
            },
        ),
    }
}

proof fn lemma_first_is_key(m: Seq<(Cbor, Cbor)>, k: Seq<char>)
    ensures
        0 <= first_with_text_key(m, k) <= m.len(),
        first_with_text_key(m, k) < m.len() ==> m[first_with_text_key(m, k)].0 == Cbor::Text(k),
    decreases m.len(),
{
    if m.len() > 0 && m[0].0 != Cbor::Text(k) {
        lemma_first_is_key(m.drop_first(), k);
    }
}

proof fn lemma_last_text_only(m: Seq<(Cbor, Cbor)>, k: Seq<char>, i: int)
    requires
        0 <= i < m.len(),
        m[i].0 == Cbor::Text(k),
        forall|j: int| 0 <= j < m.len() && j != i ==> m[j].0 != Cbor::Text(k),
    ensures
        last_with_text_key(m, k) == Some(m[i].1),
    decreases m.len(),
{
    if i != m.len() - 1 {
        assert(m.last().0 != Cbor::Text(k));
        lemma_last_text_only(m.drop_last(), k, i);
    }
}

proof fn lemma_get_nest(path: Seq<Seq<char>>, v: Cbor)
    ensures
        get_path_spec(nest(path, v), path) == Some(v),
    decreases path.len(),
{
    if path.len() > 0 {
        let inner = nest(path.drop_first(), v);
        let m = seq![(Cbor::Text(path[0]), inner)];
        assert(m.last() == (Cbor::Text(path[0]), inner));
        assert(last_with_text_key(m, path[0]) == Some(inner));
        lemma_get_nest(path.drop_first(), v);
    }
}

/// A value set at a path is read back at that path, wherever the path can be
/// followed without ambiguity (see `path_settable`).
pub proof fn law_get_after_set(d: Cbor, path: Seq<Seq<char>>, v: Cbor)
    requires
        path_settable(d, path),
    ensures
        set_path_spec(d, path, v) is Some,
        get_path_spec(set_path_spec(d, path, v)->Some_0, path) == Some(v),
    decreases path.len(),
{
    if path.len() > 0 {
        match d {
            Cbor::Mapping(m) => {
                let k = path[0];
                let i = first_with_text_key(m, k);
                lemma_first_is_key(m, k);
                if i < m.len() {
                    law_get_after_set(m[i].1, path.drop_first(), v);
                    let nv = set_path_spec(m[i].1, path.drop_first(), v)->Some_0;
                    let m2 = m.update(i, (m[i].0, nv));
                    assert forall|j: int| 0 <= j < m2.len() && j != i implies m2[j].0 != Cbor::Text(
                        k,
                    ) by {
                        assert(m2[j] == m[j]);
                        if m[j].0 == Cbor::Text(k) {
                            assert(m[i].0 == Cbor::Text(k));
                        }
                    }
                    lemma_last_text_only(m2, k, i);
                    assert(set_path_spec(d, path, v) == Some(Cbor::Mapping(m2)));
                    assert(get_path_spec(Cbor::Mapping(m2), path) == get_path_spec(
                        nv,
                        path.drop_first(),
                    ));
                } else {
                    let m2 = m.push((Cbor::Text(k), v));
                    assert(m2.last() == (Cbor::Text(k), v));
                    assert(path.drop_first().len() == 0);
                    assert(set_path_spec(d, path, v) == Some(Cbor::Mapping(m2)));
                    assert(get_path_spec(v, path.drop_first()) == Some(v));
                    assert(get_path_spec(Cbor::Mapping(m2), path) == get_path_spec(
                        v,
                        path.drop_first(),
                    ));
                }
            },
            Cbor::Null => {
                lemma_get_nest(path, v);
            },
            _ => {},
        }
    }
}

/// Merging a value that is neither a mapping nor `Null` gives that value,
/// whatever it is merged into; so does merging a mapping into something that
/// is not a mapping.  Only two mappings are merged key by key.
pub proof fn law_merge_replaces(x: Cbor, y: Cbor)
    ensures
        !(y is Mapping) && !(y is Null) ==> merge_spec(x, y) == y,
        (y is Mapping) && !(x is Mapping) ==> merge_spec(x, y) == y,
        (x is Mapping) && (y is Mapping) ==> merge_spec(x, y) is Mapping,
{
}

/// Merging `Null` changes nothing, and merging into `Null` gives the merged
/// value.
pub proof fn law_merge_null(x: Cbor)
    ensures
        merge_spec(x, Cbor::Null) == x,
        merge_spec(Cbor::Null, x) == x,
{
}

proof fn lemma_last_absent(m: Seq<(Cbor, Cbor)>, k: Cbor)
    requires
        forall|j: int| 0 <= j < m.len() ==> !cbor_eq(#[trigger] m[j].0, k),
    ensures
        last_with_key(m, k) is None,
    decreases m.len(),
{
    if m.len() > 0 {
        assert(!cbor_eq(m[m.len() - 1].0, k));
        assert forall|j: int| 0 <= j < m.drop_last().len() implies !cbor_eq(#[trigger] m.drop_last()[j].0, k) by {
            assert(m.drop_last()[j] == m[j]);
        }
        lemma_last_absent(m.drop_last(), k);
    }
}

proof fn lemma_last_skips_first(b: Seq<(Cbor, Cbor)>, k: Cbor)
    requires
        b.len() > 0,
        !cbor_eq(b[0].0, k),
    ensures
        last_with_key(b, k) == last_with_key(b.drop_first(), k),
    decreases b.len(),
{
    if b.len() > 1 {
        assert(b.drop_first().len() > 0);
        assert(b.drop_first().last() == b.last());
        if !cbor_eq(b.last().0, k) {
            assert(b.drop_last()[0] == b[0]);
            assert(b.drop_last().drop_first() =~= b.drop_first().drop_last());
            lemma_last_skips_first(b.drop_last(), k);
        }
    } else {
        assert(b.drop_last().len() == 0);
        assert(b.drop_first().len() == 0);
        assert(b.last() == b[0]);
        assert(last_with_key(b.drop_last(), k) is None);
        assert(last_with_key(b.drop_first(), k) is None);
    }
}

/// Looking up keys that are equal finds the same entry.
proof fn lemma_last_same_key(m: Seq<(Cbor, Cbor)>, k1: Cbor, k2: Cbor)
    requires
        cbor_eq(k1, k2),
    ensures
        last_with_key(m, k1) == last_with_key(m, k2),
    decreases m.len(),
{
    if m.len() > 0 {
        let x = m.last().0;
        lemma_cbor_eq(x, k1, k2);
        lemma_cbor_eq(k1, k2, x);
        lemma_cbor_eq(k2, k1, x);
        lemma_cbor_eq(x, k2, k1);
        lemma_last_same_key(m.drop_last(), k1, k2);
    }
}

proof fn lemma_without_key_keeps(m: Seq<(Cbor, Cbor)>, k0: Cbor, k: Cbor)
    requires
        !cbor_eq(k, k0),
    ensures
        last_with_key(without_key(m, k0), k) == last_with_key(m, k),
    decreases m.len(),
{
    if m.len() > 0 {
        lemma_without_key_keeps(m.drop_last(), k0, k);
        let x = m.last().0;
        lemma_cbor_eq(x, k, k0);
        lemma_cbor_eq(k, x, k0);
        if !cbor_eq(x, k0) {
            let w = without_key(m.drop_last(), k0).push(m.last());
            assert(w.last() == m.last());
            assert(w.drop_last() =~= without_key(m.drop_last(), k0));
        } else {
            assert(!cbor_eq(x, k));
        }
    }
}

/// Merging the entries of one mapping into another works key by key: under
/// each key the result holds the merge of the two values (see `merged_at`),
/// where the merged mapping has no two equal keys.
pub proof fn law_merge_by_key(a: Seq<(Cbor, Cbor)>, b: Seq<(Cbor, Cbor)>, k: Cbor)
    requires
        keys_distinct(b),
    ensures
        last_with_key(merge_entries(a, b), k) == merged_at(a, b, k),
    decreases b.len(),
{
    if b.len() == 0 {
    } else {
        let e = b[0];
        let acc = merge_entry(a, e);
        let rest = b.drop_first();
        assert(keys_distinct(rest)) by {
            assert forall|i: int, j: int| 0 <= i < j < rest.len() implies !#[trigger] cbor_eq(rest[i].0, rest[j].0) by {
                assert(rest[i] == b[i + 1] && rest[j] == b[j + 1]);
                assert(!cbor_eq(b[i + 1].0, b[j + 1].0));
            }
        }
        law_merge_by_key(acc, rest, k);
        let pushed = match last_with_key(a, e.0) {
            Some(old) => (e.0, merge_spec(old, e.1)),
            None => e,
        };
        let w = without_key(a, e.0);
        assert(acc == w.push(pushed));
        assert(acc.last() == pushed);
        assert(acc.drop_last() =~= w);
        if cbor_eq(e.0, k) {
            assert forall|j: int| 0 <= j < rest.len() implies !cbor_eq(#[trigger] rest[j].0, k) by {
                assert(rest[j] == b[j + 1]);
                assert(!cbor_eq(b[0].0, b[j + 1].0));
                lemma_cbor_eq(rest[j].0, k, e.0);
                lemma_cbor_eq(e.0, k, rest[j].0);
                lemma_cbor_eq(k, e.0, rest[j].0);
                lemma_cbor_eq(rest[j].0, e.0, k);
            }
            lemma_last_absent(rest, k);
            assert forall|j: int| 0 <= j < b.len() && j != 0 implies !cbor_eq(#[trigger] b[j].0, k) by {
                assert(!cbor_eq(b[0].0, b[j].0));
                lemma_cbor_eq(b[j].0, k, e.0);
                lemma_cbor_eq(e.0, k, b[j].0);
                lemma_cbor_eq(k, e.0, b[j].0);
                lemma_cbor_eq(b[j].0, e.0, k);
            }
            lemma_last_only(b, k, 0);
            lemma_last_same_key(a, e.0, k);
        } else {
            lemma_cbor_eq(k, e.0, k);
            lemma_without_key_keeps(a, e.0, k);
            lemma_last_skips_first(b, k);
        }
    }
}

proof fn lemma_last_only(m: Seq<(Cbor, Cbor)>, k: Cbor, i: int)
    requires
        0 <= i < m.len(),
        cbor_eq(m[i].0, k),
        forall|j: int| 0 <= j < m.len() && j != i ==> !cbor_eq(#[trigger] m[j].0, k),
    ensures
        last_with_key(m, k) == Some(m[i].1),
    decreases m.len(),
{
    if i != m.len() - 1 {
        assert(!cbor_eq(m[m.len() - 1].0, k));
        assert forall|j: int| 0 <= j < m.drop_last().len() && j != i implies !cbor_eq(#[trigger] m.drop_last()[j].0, k) by {
            assert(m.drop_last()[j] == m[j]);
        }
        lemma_last_only(m.drop_last(), k, i);
    }
}

proof fn lemma_insert_sorted_keeps(s: Seq<(Cbor, Cbor)>, e: (Cbor, Cbor))
    ensures
        insert_sorted(s, e).to_multiset() == s.to_multiset().insert(e),
    decreases s.len(),
{
    broadcast use {vstd::seq_lib::to_multiset_build, vstd::multiset::group_multiset_axioms};

    if s.len() == 0 {
        assert(seq![e] =~= Seq::<(Cbor, Cbor)>::empty().push(e));
        assert(s =~= Seq::<(Cbor, Cbor)>::empty());
    } else if key_after(s.last().0, e.0) {
        lemma_insert_sorted_keeps(s.drop_last(), e);
        assert(s.drop_last().push(s.last()) =~= s);
        assert(insert_sorted(s, e).to_multiset() =~= s.to_multiset().insert(e));
    } else {
    }
}

/// Sorting the entries of a mapping by key keeps every entry, as often as it
/// was there.
pub proof fn law_sort_keeps_entries(m: Seq<(Cbor, Cbor)>)
    ensures
        sort_entries(m).to_multiset() == m.to_multiset(),
    decreases m.len(),
{
    broadcast use {vstd::seq_lib::to_multiset_build, vstd::multiset::group_multiset_axioms};

    if m.len() > 0 {
        law_sort_keeps_entries(m.drop_last());
        lemma_insert_sorted_keeps(sort_entries(m.drop_last()), m.last());
        assert(m.drop_last().push(m.last()) =~= m);
    }
}

} // verus!
