use vstd::prelude::*;
use crate::error::{MizeError, MizeResult, texts};
use vstd::std_specs::cmp::PartialEqSpecImpl;
use crate::value::{Cbor, CborValue, Order, cbor_order, cbor_eq, order_values, values_equal, model, models, entry_models, lemma_models, lemma_entry_models, copy_entries, copy_values};
use crate::text::{parse_signed_spec, parse_signed, chars_of, split_spec, split_text, contains_char};

verus! {

broadcast use vstd::std_specs::vec::group_vec_axioms;

/// The data of an item: a CBOR value.
#[derive(Debug)]
pub struct ItemData(pub CborValue);

impl View for ItemData {
    type V = Cbor;

    open spec fn view(&self) -> Cbor {
        self.0@
    }
}

// ---------------------------------------------------------------------------
// Specifications of the operations on item data.
// ---------------------------------------------------------------------------

/// The value of the last entry of `m` whose key is the text `key`, if any.
pub open spec fn last_with_text_key(m: Seq<(Cbor, Cbor)>, key: Seq<char>) -> Option<Cbor>
    decreases m.len(),
{
    if m.len() == 0 {
        None
    } else if m.last().0 == Cbor::Text(key) {
        Some(m.last().1)
    } else {
        last_with_text_key(m.drop_last(), key)
    }
}

/// The index of the first entry of `m` whose key is the text `key`, or
/// `m.len()` when there is none.
pub open spec fn first_with_text_key(m: Seq<(Cbor, Cbor)>, key: Seq<char>) -> int
    decreases m.len(),
{
    if m.len() == 0 {
        0
    } else if m[0].0 == Cbor::Text(key) {
        0
    } else {
        1 + first_with_text_key(m.drop_first(), key)
    }
}

/// The value at `path` in `d`: each step goes into a mapping to the value of
/// the last entry keyed by the step's text, or to `Null` when there is none.
/// `None` when a step meets something that is not a mapping.
pub open spec fn get_path_spec(d: Cbor, path: Seq<Seq<char>>) -> Option<Cbor>
    decreases path.len(),
{
    if path.len() == 0 {
        Some(d)
    } else {
        match d {
            Cbor::Mapping(m) => get_path_spec(
                match last_with_text_key(m, path[0]) {
                    Some(v) => v,
                    None => Cbor::Null,
                },
                path.drop_first(),
            ),
            _ => None,
        }
    }
}

/// `v` under nested single-entry mappings keyed by the steps of `path`.
pub open spec fn nest(path: Seq<Seq<char>>, v: Cbor) -> Cbor
    decreases path.len(),
{
    if path.len() == 0 {
        v
    } else {
        Cbor::Mapping(seq![(Cbor::Text(path[0]), nest(path.drop_first(), v))])
    }
}

/// `d` with `v` set at `path`.  In a mapping the first entry keyed by the step
/// is followed; when there is none an entry with the step as key and `v`
/// itself as value is appended.  `Null` becomes nested mappings that hold `v`.
/// `None` when a step meets something that is neither a mapping nor `Null`.
pub open spec fn set_path_spec(d: Cbor, path: Seq<Seq<char>>, v: Cbor) -> Option<Cbor>
    decreases path.len(),
{
    if path.len() == 0 {
        Some(v)
    } else {
        match d {
            Cbor::Mapping(m) => {
                let i = first_with_text_key(m, path[0]);
                if i < m.len() {
                    match set_path_spec(m[i].1, path.drop_first(), v) {
                        Some(nv) => Some(Cbor::Mapping(m.update(i, (m[i].0, nv)))),
                        None => None,
                    }
                } else {
                    Some(Cbor::Mapping(m.push((Cbor::Text(path[0]), v))))
                }
            },
            Cbor::Null => Some(nest(path, v)),
            _ => None,
        }
    }
}

/// The entries of `m` whose key is not equal to `k` (see `cbor_eq`), in order.
pub open spec fn without_key(m: Seq<(Cbor, Cbor)>, k: Cbor) -> Seq<(Cbor, Cbor)>
    decreases m.len(),
{
    if m.len() == 0 {
        m
    } else if cbor_eq(m.last().0, k) {
        without_key(m.drop_last(), k)
    } else {
        without_key(m.drop_last(), k).push(m.last())
    }
}

/// The value of the last entry of `m` whose key is equal to `k` (see
/// `cbor_eq`), if any.
pub open spec fn last_with_key(m: Seq<(Cbor, Cbor)>, k: Cbor) -> Option<Cbor>
    decreases m.len(),
{
    if m.len() == 0 {
        None
    } else if cbor_eq(m.last().0, k) {
        Some(m.last().1)
    } else {
        last_with_key(m.drop_last(), k)
    }
}

/// `other` merged into `into`: mappings are merged key by key, `Null` leaves
/// `into` as it is, anything else replaces it.
pub open spec fn merge_spec(into: Cbor, other: Cbor) -> Cbor
    decreases other,
{
    match (into, other) {
        (Cbor::Mapping(a), Cbor::Mapping(b)) => Cbor::Mapping(merge_entries(a, b)),
        (_, Cbor::Null) => into,
        _ => other,
    }
}

/// The entries of `b` merged one after the other into `acc`.
pub open spec fn merge_entries(acc: Seq<(Cbor, Cbor)>, b: Seq<(Cbor, Cbor)>) -> Seq<(Cbor, Cbor)>
    decreases b,
{
    if b.len() == 0 {
        acc
    } else {
        merge_entries(merge_entry(acc, b[0]), b.drop_first())
    }
}

/// One entry merged into `acc`: the entries with its key are taken out and
/// the entry goes to the end, its value merged into the value of the last of
/// them when there was one.
pub open spec fn merge_entry(acc: Seq<(Cbor, Cbor)>, e: (Cbor, Cbor)) -> Seq<(Cbor, Cbor)>
    decreases e,
{
    without_key(acc, e.0).push(
        match last_with_key(acc, e.0) {
            Some(old) => (e.0, merge_spec(old, e.1)),
            None => e,
        },
    )
}

/// Whether an entry with key `a` sorts before one with key `b` may not be
/// assumed: `b` orders strictly below `a`.
pub open spec fn key_after(a: Cbor, b: Cbor) -> bool {
    cbor_order(a, b) == Order::Greater
}

/// `e` inserted into `s` after the last entry whose key is not after `e`'s.
pub open spec fn insert_sorted(s: Seq<(Cbor, Cbor)>, e: (Cbor, Cbor)) -> Seq<(Cbor, Cbor)>
    decreases s.len(),
{
    if s.len() == 0 {
        seq![e]
    } else if key_after(s.last().0, e.0) {
        insert_sorted(s.drop_last(), e).push(s.last())
    } else {
        s.push(e)
    }
}

/// The entries of `s` stably sorted by key.
pub open spec fn sort_entries(s: Seq<(Cbor, Cbor)>) -> Seq<(Cbor, Cbor)>
    decreases s.len(),
{
    if s.len() == 0 {
        s
    } else {
        insert_sorted(sort_entries(s.drop_last()), s.last())
    }
}

/// `v` with the entries of every mapping in it sorted by key.
pub open spec fn sort_keys_spec(v: Cbor) -> Cbor
    decreases v,
{
    match v {
        Cbor::Array(a) => Cbor::Array(sort_keys_all(a)),
        Cbor::Mapping(m) => Cbor::Mapping(sort_entries(sort_keys_values(m))),
        _ => v,
    }
}

pub open spec fn sort_keys_all(a: Seq<Cbor>) -> Seq<Cbor>
    decreases a,
{
    if a.len() == 0 {
        a
    } else {
        sort_keys_all(a.drop_last()).push(sort_keys_spec(a.last()))
    }
}

pub open spec fn sort_keys_values(m: Seq<(Cbor, Cbor)>) -> Seq<(Cbor, Cbor)>
    decreases m,
{
    if m.len() == 0 {
        m
    } else {
        sort_keys_values(m.drop_last()).push((m.last().0, sort_keys_spec(m.last().1)))
    }
}

/// The raw bytes at `path` in `v`: the bytes of a byte string, or the UTF-8
/// encoding of a text, found by following the last entry keyed by each step.
/// A byte string or text that is met before the path ends is the answer.
pub open spec fn raw_spec(v: Cbor, path: Seq<Seq<char>>) -> Option<Seq<u8>>
    decreases path.len(),
{
    match v {
        Cbor::Bytes(b) => Some(b),
        Cbor::Text(t) => Some(vstd::utf8::encode_utf8(t)),
        Cbor::Mapping(m) => if path.len() == 0 {
            None
        } else {
            match last_with_text_key(m, path[0]) {
                Some(x) => raw_spec(x, path.drop_first()),
                None => None,
            }
        },
        _ => None,
    }
}

/// The minimal big-endian bytes of `n`.
pub open spec fn be_bytes(n: nat) -> Seq<u8>
    decreases n,
{
    if n == 0 {
        Seq::empty()
    } else {
        be_bytes(n / 256).push((n % 256) as u8)
    }
}

/// What an `i128` becomes as a CBOR value: an integer when it fits in CBOR's
/// integer range, else a bignum tag (2 for positive, 3 for negative numbers)
/// over the minimal big-endian bytes.
pub open spec fn from_i128_spec(v: int) -> Cbor {
    if -0x1_0000_0000_0000_0000 <= v <= 0xFFFF_FFFF_FFFF_FFFF {
        Cbor::Integer(v)
    } else if v < 0 {
        Cbor::Tag(3, Box::new(Cbor::Bytes(be_bytes((-v - 1) as nat))))
    } else {
        Cbor::Tag(2, Box::new(Cbor::Bytes(be_bytes(v as nat))))
    }
}

/// What a text value parses to: `false` is the boolean false, a decimal
/// `i128` is that number, anything else stays text.
pub open spec fn parse_spec(s: Seq<char>) -> Cbor {
    if s == "false"@ {
        Cbor::Bool(false)
    } else {
        match parse_signed_spec(s, i128::MIN as int, i128::MAX as int) {
            Some(i) => from_i128_spec(i),
            None => Cbor::Text(s),
        }
    }
}


// ---------------------------------------------------------------------------
// Executable operations.
// ---------------------------------------------------------------------------

/// Whether `k` is the text `key`.
pub(crate) fn is_text_key(k: &CborValue, key: &String) -> (r: bool)
    ensures
        r == (k@ == Cbor::Text(key@)),
{
    match k {
        CborValue::Text(s) => *s == *key,
        _ => false,
    }
}

proof fn lemma_entry_models_take(m: Seq<(CborValue, CborValue)>, i: int)
    requires
        0 <= i < m.len(),
    ensures
        entry_models(m.take(i + 1)) == entry_models(m.take(i)).push(
            (model(m[i].0), model(m[i].1)),
        ),
{
    assert(m.take(i + 1).drop_last() =~= m.take(i));
}

/// The index of the last entry of `m` keyed by the text `key`.
pub(crate) fn find_last_text_key(m: &Vec<(CborValue, CborValue)>, key: &String) -> (r: Option<usize>)
    ensures
        match r {
            Some(i) => i < m@.len() && last_with_text_key(entry_models(m@), key@) == Some(
                model(m@[i as int].1),
            ),
            None => last_with_text_key(entry_models(m@), key@) is None,
        },
{
    let mut found: Option<usize> = None;
    let mut i: usize = 0;
    assert(m@.take(0) =~= Seq::<(CborValue, CborValue)>::empty());
    while i < m.len()
        invariant
            i <= m.len(),
            match found {
                Some(j) => j < i && last_with_text_key(entry_models(m@.take(i as int)), key@)
                    == Some(model(m@[j as int].1)),
                None => last_with_text_key(entry_models(m@.take(i as int)), key@) is None,
            },
        decreases m.len() - i,
    {
        proof {
            lemma_entry_models_take(m@, i as int);
            let em = entry_models(m@.take(i as int));
            let x = (model(m@[i as int].0), model(m@[i as int].1));
            assert(em.push(x).drop_last() =~= em);
        }
        if is_text_key(&m[i].0, key) {
            found = Some(i);
        }
        i = i + 1;
    }
    assert(m@.take(m@.len() as int) =~= m@);
    found
}

/// The index of the first entry of `m` keyed by the text `key`, or `m.len()`.
pub(crate) fn find_first_text_key(m: &Vec<(CborValue, CborValue)>, key: &String) -> (r: usize)
    ensures
        r as int == first_with_text_key(entry_models(m@), key@),
        r <= m@.len(),
{
    let ghost em = entry_models(m@);
    proof {
        lemma_entry_models(m@);
        lemma_first_with_text_key_bound(em, key@);
    }
    let mut i: usize = 0;
    while i < m.len()
        invariant
            i <= m.len(),
            em == entry_models(m@),
            em.len() == m@.len(),
            forall|j: int| 0 <= j < m@.len() ==> #[trigger] em[j] == (model(m@[j].0), model(m@[j].1)),
            forall|j: int| 0 <= j < i ==> em[j].0 != Cbor::Text(key@),
        decreases m.len() - i,
    {
        if is_text_key(&m[i].0, key) {
            proof {
                lemma_first_with_text_key_at(em, key@, i as int);
            }
            return i;
        }
        i = i + 1;
    }
    proof {
        lemma_first_with_text_key_none(em, key@);
    }
    i
}

proof fn lemma_first_with_text_key_bound(m: Seq<(Cbor, Cbor)>, key: Seq<char>)
    ensures
        0 <= first_with_text_key(m, key) <= m.len(),
    decreases m.len(),
{
    if m.len() > 0 && m[0].0 != Cbor::Text(key) {
        lemma_first_with_text_key_bound(m.drop_first(), key);
    }
}

proof fn lemma_first_with_text_key_at(m: Seq<(Cbor, Cbor)>, key: Seq<char>, i: int)
    requires
        0 <= i < m.len(),
        m[i].0 == Cbor::Text(key),
        forall|j: int| 0 <= j < i ==> m[j].0 != Cbor::Text(key),
    ensures
        first_with_text_key(m, key) == i,
    decreases i,
{
    if i > 0 {
        lemma_first_with_text_key_at(m.drop_first(), key, i - 1);
    }
}

proof fn lemma_first_with_text_key_none(m: Seq<(Cbor, Cbor)>, key: Seq<char>)
    requires
        forall|j: int| 0 <= j < m.len() ==> m[j].0 != Cbor::Text(key),
    ensures
        first_with_text_key(m, key) == m.len(),
    decreases m.len(),
{
    if m.len() > 0 {
        lemma_first_with_text_key_none(m.drop_first(), key);
    }
}

proof fn lemma_get_path_step(d: Cbor, p: Seq<Seq<char>>, i: int)
    requires
        0 <= i < p.len(),
    ensures
        get_path_spec(d, p.subrange(i, p.len() as int)) == match d {
            Cbor::Mapping(m) => get_path_spec(
                match last_with_text_key(m, p[i]) {
                    Some(v) => v,
                    None => Cbor::Null,
                },
                p.subrange(i + 1, p.len() as int),
            ),
            _ => None,
        },
{
    assert(p.subrange(i, p.len() as int).drop_first() =~= p.subrange(i + 1, p.len() as int));
}

/// The value at `path` in `data` (see `get_path_spec`).
pub fn item_data_get_path(data: &CborValue, path: Vec<String>) -> (r: MizeResult<CborValue>)
    ensures
        match r {
            Ok(v) => get_path_spec(data@, texts(path@)) == Some(v@),
            Err(_) => get_path_spec(data@, texts(path@)) is None,
        },
{
    let ghost p = texts(path@);
    let mut cur: &CborValue = data;
    let mut i: usize = 0;
    assert(p.subrange(0, p.len() as int) =~= p);
    while i < path.len()
        invariant
            i <= path.len(),
            p == texts(path@),
            get_path_spec(data@, p) == get_path_spec(cur@, p.subrange(i as int, p.len() as int)),
        decreases path.len() - i,
    {
        proof {
            lemma_get_path_step(cur@, p, i as int);
        }
        match cur {
            CborValue::Mapping(m) => {
                match find_last_text_key(m, &path[i]) {
                    Some(j) => {
                        cur = &m[j].1;
                    },
                    None => {
                        if i + 1 == path.len() {
                            assert(p.subrange(i + 1, p.len() as int).len() == 0);
                            return Ok(CborValue::Null);
                        } else {
                            return Err(
                                MizeError::new().msg(
                                    "Failed to get path from ItemData, the data on the path is not a map",
                                ),
                            );
                        }
                    },
                }
            },
            _ => {
                return Err(
                    MizeError::new().msg(
                        "Failed to get path from ItemData, the data on the path is not a map",
                    ),
                );
            },
        }
        i = i + 1;
    }
    assert(p.subrange(i as int, p.len() as int).len() == 0);
    Ok(cur.copy())
}


proof fn lemma_subrange_step<T>(p: Seq<T>, i: int)
    requires
        0 <= i < p.len(),
    ensures
        p.subrange(i, p.len() as int).drop_first() == p.subrange(i + 1, p.len() as int),
        p.subrange(i, p.len() as int)[0] == p[i],
        p.subrange(i, p.len() as int).len() > 0,
{
    assert(p.subrange(i, p.len() as int).drop_first() =~= p.subrange(i + 1, p.len() as int));
}

/// `v` nested under the steps `path[i..]`.
fn nest_from(path: &Vec<String>, i: usize, v: &CborValue) -> (r: CborValue)
    requires
        i <= path@.len(),
    ensures
        r@ == nest(texts(path@).subrange(i as int, path@.len() as int), v@),
    decreases path@.len() - i,
{
    let ghost p = texts(path@);
    if i == path.len() {
        assert(p.subrange(i as int, p.len() as int).len() == 0);
        v.copy()
    } else {
        proof {
            lemma_subrange_step(p, i as int);
        }
        let inner = nest_from(path, i + 1, v);
        let mut m: Vec<(CborValue, CborValue)> = Vec::new();
        m.push((CborValue::Text(path[i].clone()), inner));
        proof {
            lemma_entry_models(m@);
            assert(entry_models(m@) =~= seq![
                (Cbor::Text(p[i as int]), nest(p.subrange(i + 1, p.len() as int), v@)),
            ]);
        }
        CborValue::Mapping(m)
    }
}

/// `d` with `v` set at `path[i..]` (see `set_path_spec`).
fn set_from(d: &CborValue, path: &Vec<String>, i: usize, v: &CborValue) -> (r: Option<CborValue>)
    requires
        i <= path@.len(),
    ensures
        match r {
            Some(x) => set_path_spec(d@, texts(path@).subrange(i as int, path@.len() as int), v@)
                == Some(x@),
            None => set_path_spec(d@, texts(path@).subrange(i as int, path@.len() as int), v@) is None,
        },
    decreases path@.len() - i,
{
    let ghost p = texts(path@);
    if i == path.len() {
        assert(p.subrange(i as int, p.len() as int).len() == 0);
        return Some(v.copy());
    }
    proof {
        lemma_subrange_step(p, i as int);
    }
    match d {
        CborValue::Mapping(m) => {
            let j = find_first_text_key(m, &path[i]);
            proof {
                lemma_entry_models(m@);
            }
            if j < m.len() {
                match set_from(&m[j].1, path, i + 1, v) {
                    Some(sub) => {
                        let mut entries = copy_entries(m);
                        let k = m[j].0.copy();
                        proof {
                            lemma_entry_models(entries@);
                        }
                        entries.set(j, (k, sub));
                        proof {
                            lemma_entry_models(entries@);
                            let em = entry_models(m@);
                            assert(entry_models(entries@) =~= em.update(
                                j as int,
                                (em[j as int].0, sub@),
                            ));
                        }
                        Some(CborValue::Mapping(entries))
                    },
                    None => None,
                }
            } else {
                let mut entries = copy_entries(m);
                proof {
                    lemma_entry_models(entries@);
                }
                entries.push((CborValue::Text(path[i].clone()), v.copy()));
                proof {
                    lemma_entry_models(entries@);
                    assert(entry_models(entries@) =~= entry_models(m@).push(
                        (Cbor::Text(p[i as int]), v@),
                    ));
                }
                Some(CborValue::Mapping(entries))
            }
        },
        CborValue::Null => Some(nest_from(path, i, v)),
        _ => None,
    }
}

/// Sets `data_to_set` at `path` in `data` (see `set_path_spec`); on an error
/// `data` is left as it was.
pub fn item_data_set_path(data: &mut CborValue, path: Vec<String>, data_to_set: &CborValue) -> (r:
    MizeResult<()>)
    ensures
        match r {
            Ok(_) => set_path_spec(old(data)@, texts(path@), data_to_set@) == Some(final(data)@),
            Err(_) => set_path_spec(old(data)@, texts(path@), data_to_set@) is None && final(data)@
                == old(data)@,
        },
{
    let ghost p = texts(path@);
    assert(p.subrange(0, p.len() as int) =~= p);
    match set_from(data, &path, 0, data_to_set) {
        Some(x) => {
            *data = x;
            Ok(())
        },
        None => Err(
            MizeError::new().msg(
                "Failed to set path in ItemData, the data on the path is not a map",
            ),
        ),
    }
}


/// One entry merged into `acc` (see `merge_entry`).
fn merge_entry_into(acc: &Vec<(CborValue, CborValue)>, e: &(CborValue, CborValue)) -> (r: Vec<
    (CborValue, CborValue),
>)
    ensures
        entry_models(r@) == merge_entry(entry_models(acc@), (e.0@, e.1@)),
    decreases e,
{
    let ghost k = e.0@;
    let mut rest: Vec<(CborValue, CborValue)> = Vec::new();
    let mut found: Option<usize> = None;
    let mut i: usize = 0;
    assert(acc@.take(0) =~= Seq::<(CborValue, CborValue)>::empty());
    while i < acc.len()
        invariant
            i <= acc.len(),
            k == e.0@,
            entry_models(rest@) == without_key(entry_models(acc@.take(i as int)), k),
            match found {
                Some(j) => j < i && last_with_key(entry_models(acc@.take(i as int)), k) == Some(
                    acc@[j as int].1@,
                ),
                None => last_with_key(entry_models(acc@.take(i as int)), k) is None,
            },
        decreases acc.len() - i,
    {
        proof {
            lemma_entry_models_take(acc@, i as int);
            let em = entry_models(acc@.take(i as int));
            let x = (model(acc@[i as int].0), model(acc@[i as int].1));
            assert(em.push(x).drop_last() =~= em);
        }
        if values_equal(&acc[i].0, &e.0) {
            found = Some(i);
        } else {
            let ghost before = rest@;
            let k2 = acc[i].0.copy();
            let v2 = acc[i].1.copy();
            rest.push((k2, v2));
            proof {
                lemma_entry_models(rest@);
                lemma_entry_models(before);
                assert(entry_models(rest@) =~= entry_models(before).push(
                    (model(acc@[i as int].0), model(acc@[i as int].1)),
                ));
            }
        }
        i = i + 1;
    }
    assert(acc@.take(acc@.len() as int) =~= acc@);
    let ghost before = rest@;
    match found {
        Some(j) => {
            let k2 = e.0.copy();
            let v2 = merged(&acc[j].1, &e.1);
            rest.push((k2, v2));
        },
        None => {
            let k2 = e.0.copy();
            let v2 = e.1.copy();
            rest.push((k2, v2));
        },
    }
    proof {
        lemma_entry_models(rest@);
        lemma_entry_models(before);
        assert(entry_models(rest@) =~= entry_models(before).push(
            (model(rest@.last().0), model(rest@.last().1)),
        ));
    }
    rest
}

/// `other` merged into `into` (see `merge_spec`), as a new value.
fn merged(into: &CborValue, other: &CborValue) -> (r: CborValue)
    ensures
        r@ == merge_spec(into@, other@),
    decreases other,
{
    match (into, other) {
        (CborValue::Mapping(a), CborValue::Mapping(b)) => {
            let ghost bs = entry_models(b@);
            let mut acc = copy_entries(a);
            let mut i: usize = 0;
            proof {
                lemma_entry_models(b@);
                assert(bs.subrange(0, bs.len() as int) =~= bs);
            }
            #[verifier::loop_isolation(false)]
            while i < b.len()
                invariant
                    i <= b.len(),
                    bs == entry_models(b@),
                    bs.len() == b@.len(),
                    forall|j: int| 0 <= j < b@.len() ==> #[trigger] bs[j] == (b@[j].0@, b@[j].1@),
                    merge_entries(entry_models(a@), bs) == merge_entries(
                        entry_models(acc@),
                        bs.subrange(i as int, bs.len() as int),
                    ),
                decreases b.len() - i,
            {
                proof {
                    assert(decreases_to!(other => b@[i as int]));
                    lemma_subrange_step(bs, i as int);
                }
                acc = merge_entry_into(&acc, &b[i]);
                i = i + 1;
            }
            assert(bs.subrange(i as int, bs.len() as int).len() == 0);
            CborValue::Mapping(acc)
        },
        (_, CborValue::Null) => into.copy(),
        _ => other.copy(),
    }
}

/// Merges `other` into `merge_into` (see `merge_spec`).
pub fn item_data_merge(merge_into: &mut CborValue, other: &CborValue)
    ensures
        final(merge_into)@ == merge_spec(old(merge_into)@, other@),
{
    let r = merged(merge_into, other);
    *merge_into = r;
}


proof fn lemma_insert_sorted(s: Seq<(Cbor, Cbor)>, e: (Cbor, Cbor), j: int)
    requires
        0 <= j <= s.len(),
        forall|t: int| j <= t < s.len() ==> key_after(#[trigger] s[t].0, e.0),
        j == 0 || !key_after(s[j - 1].0, e.0),
    ensures
        insert_sorted(s, e) == s.take(j).push(e) + s.skip(j),
    decreases s.len(),
{
    if s.len() == 0 {
        assert(s.take(j).push(e) + s.skip(j) =~= seq![e]);
    } else if j == s.len() {
        assert(s.take(j) =~= s);
        assert(s.take(j).push(e) + s.skip(j) =~= s.push(e));
    } else {
        let d = s.drop_last();
        assert(key_after(s[s.len() - 1].0, e.0));
        assert forall|t: int| j <= t < d.len() implies key_after(#[trigger] d[t].0, e.0) by {
            assert(d[t] == s[t]);
        }
        lemma_insert_sorted(d, e, j);
        assert(d.take(j) =~= s.take(j));
        assert((d.take(j).push(e) + d.skip(j)).push(s.last()) =~= s.take(j).push(e) + s.skip(j));
    }
}

/// Inserts `e` into the sorted `out` after the last entry whose key is not
/// after `e`'s (see `insert_sorted`).
fn insert_entry_sorted(out: &mut Vec<(CborValue, CborValue)>, e: (CborValue, CborValue))
    ensures
        entry_models(final(out)@) == insert_sorted(entry_models(old(out)@), (e.0@, e.1@)),
{
    let ghost o = entry_models(out@);
    let ghost em = (e.0@, e.1@);
    proof {
        lemma_entry_models(out@);
    }
    let mut j: usize = out.len();
    while j > 0 && order_values(&out[j - 1].0, &e.0) == Order::Greater
        invariant
            j <= out@.len(),
            o == entry_models(out@),
            o.len() == out@.len(),
            em == (e.0@, e.1@),
            forall|t: int| 0 <= t < out@.len() ==> #[trigger] o[t] == (out@[t].0@, out@[t].1@),
            forall|t: int| j <= t < o.len() ==> key_after(#[trigger] o[t].0, em.0),
        decreases j,
    {
        j = j - 1;
    }
    proof {
        lemma_insert_sorted(o, em, j as int);
    }
    out.insert(j, e);
    proof {
        lemma_entry_models(out@);
        assert(entry_models(out@) =~= o.take(j as int).push(em) + o.skip(j as int));
    }
}

/// The entries stably sorted by key (see `sort_entries`).
fn sort_entries_by_key(s: Vec<(CborValue, CborValue)>) -> (r: Vec<(CborValue, CborValue)>)
    ensures
        entry_models(r@) == sort_entries(entry_models(s@)),
{
    let ghost sm = entry_models(s@);
    proof {
        lemma_entry_models(s@);
        assert(sm.take(0) =~= Seq::<(Cbor, Cbor)>::empty());
    }
    let mut out: Vec<(CborValue, CborValue)> = Vec::new();
    let src = s;
    let mut idx: usize = 0;
    while idx < src.len()
        invariant
            idx <= src@.len(),
            src@ == s@,
            sm == entry_models(s@),
            sm.len() == s@.len(),
            forall|t: int| 0 <= t < s@.len() ==> #[trigger] sm[t] == (s@[t].0@, s@[t].1@),
            entry_models(out@) == sort_entries(sm.take(idx as int)),
        decreases src@.len() - idx,
    {
        let k = src[idx].0.copy();
        let v = src[idx].1.copy();
        proof {
            assert(sm.take(idx + 1).drop_last() =~= sm.take(idx as int));
            assert(sm.take(idx + 1).last() == sm[idx as int]);
        }
        insert_entry_sorted(&mut out, (k, v));
        idx = idx + 1;
    }
    assert(sm.take(sm.len() as int) =~= sm);
    out
}

/// `v` with the entries of every mapping in it sorted by key (see `sort_keys_spec`).
fn sorted_keys(v: &CborValue) -> (r: CborValue)
    ensures
        r@ == sort_keys_spec(v@),
    decreases v,
{
    match v {
        CborValue::Array(a) => {
            let ghost am = models(a@);
            proof {
                lemma_models(a@);
                assert(am.take(0) =~= Seq::<Cbor>::empty());
            }
            let mut out: Vec<CborValue> = Vec::new();
            let mut i: usize = 0;
            #[verifier::loop_isolation(false)]
            while i < a.len()
                invariant
                    i <= a.len(),
                    am == models(a@),
                    models(out@) == sort_keys_all(am.take(i as int)),
                decreases a.len() - i,
            {
                proof {
                    assert(decreases_to!(v => a@[i as int]));
                    assert(am.take(i + 1).drop_last() =~= am.take(i as int));
                    assert(am.take(i + 1).last() == am[i as int]);
                }
                let ghost before = out@;
                let x = sorted_keys(&a[i]);
                out.push(x);
                proof {
                    assert(out@.drop_last() =~= before);
                }
                i = i + 1;
            }
            assert(am.take(am.len() as int) =~= am);
            CborValue::Array(out)
        },
        CborValue::Mapping(m) => {
            let ghost mm = entry_models(m@);
            proof {
                lemma_entry_models(m@);
                assert(mm.take(0) =~= Seq::<(Cbor, Cbor)>::empty());
            }
            let mut vals: Vec<(CborValue, CborValue)> = Vec::new();
            let mut i: usize = 0;
            #[verifier::loop_isolation(false)]
            while i < m.len()
                invariant
                    i <= m.len(),
                    mm == entry_models(m@),
                    entry_models(vals@) == sort_keys_values(mm.take(i as int)),
                decreases m.len() - i,
            {
                proof {
                    assert(decreases_to!(v => m@[i as int]));
                    assert(mm.take(i + 1).drop_last() =~= mm.take(i as int));
                    assert(mm.take(i + 1).last() == mm[i as int]);
                }
                let ghost before = vals@;
                let k = m[i].0.copy();
                let x = sorted_keys(&m[i].1);
                vals.push((k, x));
                proof {
                    assert(vals@.drop_last() =~= before);
                }
                i = i + 1;
            }
            assert(mm.take(mm.len() as int) =~= mm);
            CborValue::Mapping(sort_entries_by_key(vals))
        },
        _ => v.copy(),
    }
}

/// Sorts the entries of every mapping in `data` by key (see `sort_keys_spec`).
pub fn item_data_sort_keys(data: &mut CborValue) -> (r: MizeResult<()>)
    ensures
        r is Ok,
        final(data)@ == sort_keys_spec(old(data)@),
{
    let s = sorted_keys(data);
    *data = s;
    Ok(())
}


fn bytes_to_vec(b: &[u8]) -> (r: Vec<u8>)
    ensures
        r@ == b@,
{
    let mut r: Vec<u8> = Vec::new();
    let mut i: usize = 0;
    while i < b.len()
        invariant
            i <= b@.len(),
            r@ == b@.take(i as int),
        decreases b@.len() - i,
    {
        proof {
            assert(b@.take(i + 1) =~= b@.take(i as int).push(b@[i as int]));
        }
        r.push(b[i]);
        i = i + 1;
    }
    assert(b@.take(b@.len() as int) =~= b@);
    r
}

/// The raw bytes at `path` in `value` (see `raw_spec`).
pub fn get_raw_from_cbor(value: &CborValue, path: &Vec<String>) -> (r: MizeResult<Vec<u8>>)
    ensures
        match r {
            Ok(b) => raw_spec(value@, texts(path@)) == Some(b@),
            Err(_) => raw_spec(value@, texts(path@)) is None,
        },
{
    let ghost p = texts(path@);
    let mut cur: &CborValue = value;
    let mut i: usize = 0;
    assert(p.subrange(0, p.len() as int) =~= p);
    loop
        invariant
            i <= path.len(),
            p == texts(path@),
            raw_spec(value@, p) == raw_spec(cur@, p.subrange(i as int, p.len() as int)),
        decreases path.len() - i,
    {
        match cur {
            CborValue::Bytes(b) => {
                return Ok(bytes_to_vec(b.as_slice()));
            },
            CborValue::Text(t) => {
                let b = t.as_str().as_bytes();
                return Ok(bytes_to_vec(b));
            },
            CborValue::Mapping(m) => {
                if i == path.len() {
                    return Err(
                        MizeError::new().msg(
                            "get_raw_from_cbor: path is empty and the value is neither Bytes nor Text",
                        ),
                    );
                }
                proof {
                    lemma_subrange_step(p, i as int);
                }
                match find_last_text_key(m, &path[i]) {
                    Some(j) => {
                        cur = &m[j].1;
                    },
                    None => {
                        return Err(MizeError::new().msg("get_raw_from_cbor: Path not Found"));
                    },
                }
            },
            _ => {
                return Err(
                    MizeError::new().msg(
                        "get_raw_from_cbor: value is not a map, text or bytes",
                    ),
                );
            },
        }
        i = i + 1;
    }
}

fn be_bytes_of(n: u128) -> (r: Vec<u8>)
    ensures
        r@ == be_bytes(n as nat),
    decreases n,
{
    if n == 0 {
        Vec::new()
    } else {
        let mut v = be_bytes_of(n / 256);
        v.push((n % 256) as u8);
        v
    }
}

/// An `i128` as a CBOR value (see `from_i128_spec`).
pub fn value_from_i128(v: i128) -> (r: CborValue)
    ensures
        r@ == from_i128_spec(v as int),
{
    if -0x1_0000_0000_0000_0000i128 <= v && v <= 0xFFFF_FFFF_FFFF_FFFFi128 {
        CborValue::Integer(v)
    } else if v < 0 {
        let raw: u128 = (-(v + 1)) as u128;
        let inner = CborValue::Bytes(be_bytes_of(raw));
        assert(inner@ == Cbor::Bytes(be_bytes((-v - 1) as nat)));
        let r = CborValue::Tag(3, Box::new(inner));
        assert(r@ == Cbor::Tag(3, Box::new(inner@)));
        r
    } else {
        let inner = CborValue::Bytes(be_bytes_of(v as u128));
        assert(inner@ == Cbor::Bytes(be_bytes(v as nat)));
        let r = CborValue::Tag(2, Box::new(inner));
        assert(r@ == Cbor::Tag(2, Box::new(inner@)));
        r
    }
}

/// Whether `s` is the text `lit`.
pub fn text_is(s: &str, lit: &str) -> (r: bool)
    ensures
        r == (s@ == lit@),
{
    let a = chars_of(s);
    let b = chars_of(lit);
    if a.len() != b.len() {
        return false;
    }
    let mut i: usize = 0;
    while i < a.len()
        invariant
            i <= a.len(),
            a.len() == b.len(),
            a@ == s@,
            b@ == lit@,
            forall|j: int| 0 <= j < i ==> a@[j] == b@[j],
        decreases a.len() - i,
    {
        if a[i] != b[i] {
            return false;
        }
        i = i + 1;
    }
    assert(a@ =~= b@);
    true
}


/// Turns a value into the steps of a path.
pub trait IntoPath: Sized {
    spec fn path_view(&self) -> Seq<Seq<char>>;

    fn into_path(self) -> (r: Vec<String>)
        ensures
            texts(r@) == self.path_view(),
    ;
}

impl IntoPath for &str {
    /// A path written with `/` between its steps.
    open spec fn path_view(&self) -> Seq<Seq<char>> {
        split_spec(self@, '/')
    }

    fn into_path(self) -> (r: Vec<String>) {
        let r = split_text(self, '/');
        assert(texts(r@) =~= split_spec(self@, '/'));
        r
    }
}

impl IntoPath for Vec<String> {
    open spec fn path_view(&self) -> Seq<Seq<char>> {
        texts(self@)
    }

    fn into_path(self) -> (r: Vec<String>) {
        self
    }
}

fn strs_to_strings(v: &[&str]) -> (r: Vec<String>)
    ensures
        texts(r@) == Seq::new(v@.len(), |i: int| v@[i]@),
{
    let mut r: Vec<String> = Vec::new();
    let mut i: usize = 0;
    while i < v.len()
        invariant
            i <= v@.len(),
            r@.len() == i,
            forall|j: int| 0 <= j < i ==> #[trigger] r@[j]@ == v@[j]@,
        decreases v@.len() - i,
    {
        r.push(v[i].to_owned());
        i = i + 1;
    }
    assert(texts(r@) =~= Seq::new(v@.len(), |i: int| v@[i]@));
    r
}

impl IntoPath for Vec<&str> {
    open spec fn path_view(&self) -> Seq<Seq<char>> {
        Seq::new(self@.len(), |i: int| self@[i]@)
    }

    fn into_path(self) -> (r: Vec<String>) {
        strs_to_strings(self.as_slice())
    }
}

impl IntoPath for &[&str] {
    open spec fn path_view(&self) -> Seq<Seq<char>> {
        Seq::new(self@.len(), |i: int| self@[i]@)
    }

    fn into_path(self) -> (r: Vec<String>) {
        strs_to_strings(self)
    }
}

/// Turns a value into item data.
pub trait IntoItemData: Sized {
    spec fn data_view(&self) -> Cbor;

    fn into_item_data(self) -> (r: ItemData)
        ensures
            r@ == self.data_view(),
    ;
}

impl IntoItemData for &str {
    /// A text is parsed (see `parse_spec`).
    open spec fn data_view(&self) -> Cbor {
        parse_spec(self@)
    }

    fn into_item_data(self) -> (r: ItemData) {
        ItemData::parse(self)
    }
}

impl IntoItemData for String {
    open spec fn data_view(&self) -> Cbor {
        Cbor::Text(self@)
    }

    fn into_item_data(self) -> (r: ItemData) {
        ItemData(CborValue::Text(self))
    }
}

impl IntoItemData for &String {
    open spec fn data_view(&self) -> Cbor {
        Cbor::Text(self@)
    }

    fn into_item_data(self) -> (r: ItemData) {
        ItemData(CborValue::Text(self.clone()))
    }
}

impl IntoItemData for CborValue {
    open spec fn data_view(&self) -> Cbor {
        self@
    }

    fn into_item_data(self) -> (r: ItemData) {
        ItemData(self)
    }
}

impl IntoItemData for ItemData {
    open spec fn data_view(&self) -> Cbor {
        self@
    }

    fn into_item_data(self) -> (r: ItemData) {
        self
    }
}

impl IntoItemData for i128 {
    open spec fn data_view(&self) -> Cbor {
        from_i128_spec(*self as int)
    }

    fn into_item_data(self) -> (r: ItemData) {
        ItemData(value_from_i128(self))
    }
}

impl ItemData {
    pub fn new() -> (r: ItemData)
        ensures
            r@ == Cbor::Null,
    {
        ItemData(CborValue::Null)
    }

    pub fn empty() -> (r: ItemData)
        ensures
            r@ == Cbor::Null,
    {
        ItemData(CborValue::Null)
    }

    /// The text held by this data.
    pub fn value_string(self) -> (r: MizeResult<String>)
        ensures
            match r {
                Ok(s) => self@ == Cbor::Text(s@),
                Err(_) => !(self@ is Text),
            },
    {
        match self.0 {
            CborValue::Text(s) => Ok(s),
            _ => Err(MizeError::new().msg("this ItemData has no string value")),
        }
    }

    pub fn from_string(s: &str) -> (r: ItemData)
        ensures
            r@ == Cbor::Text(s@),
    {
        ItemData(CborValue::Text(s.to_owned()))
    }

    /// Merges `other` into this data (see `merge_spec`).
    pub fn merge(&mut self, other: ItemData)
        ensures
            final(self)@ == merge_spec(old(self)@, other@),
    {
        item_data_merge(&mut self.0, &other.0);
    }

    pub fn cbor(&self) -> (r: &CborValue)
        ensures
            r@ == self@,
    {
        &self.0
    }

    pub fn from_cbor(cbor: CborValue) -> (r: ItemData)
        ensures
            r@ == cbor@,
    {
        ItemData(cbor)
    }

    /// Sorts the entries of every mapping by key (see `sort_keys_spec`).
    pub fn sort_keys(&mut self) -> (r: MizeResult<()>)
        ensures
            r is Ok,
            final(self)@ == sort_keys_spec(old(self)@),
    {
        item_data_sort_keys(&mut self.0)
    }

    pub fn null() -> (r: CborValue)
        ensures
            r@ == Cbor::Null,
    {
        CborValue::Null
    }

    /// Parses a text value (see `parse_spec`).
    pub fn parse(value: &str) -> (r: ItemData)
        ensures
            r@ == parse_spec(value@),
    {
        if text_is(value, "false") {
            return ItemData(CborValue::Bool(false));
        }
        match parse_signed(value, i128::MIN, i128::MAX) {
            Some(i) => ItemData(value_from_i128(i)),
            None => ItemData(CborValue::Text(value.to_owned())),
        }
    }

    /// Sets `value` at `path` (see `set_path_spec`); on an error nothing changes.
    pub fn set_path<P: IntoPath, D: IntoItemData>(&mut self, path: P, value: D) -> (r: MizeResult<
        (),
    >)
        ensures
            match r {
                Ok(_) => set_path_spec(old(self)@, path.path_view(), value.data_view()) == Some(
                    final(self)@,
                ),
                Err(_) => set_path_spec(old(self)@, path.path_view(), value.data_view()) is None
                    && final(self)@ == old(self)@,
            },
    {
        let path = path.into_path();
        let value = value.into_item_data();
        item_data_set_path(&mut self.0, path, &value.0)
    }

    /// The data at `path` (see `get_path_spec`).
    pub fn get_path<P: IntoPath>(&self, path: P) -> (r: MizeResult<ItemData>)
        ensures
            match r {
                Ok(d) => get_path_spec(self@, path.path_view()) == Some(d@),
                Err(_) => get_path_spec(self@, path.path_view()) is None,
            },
    {
        let path = path.into_path();
        match item_data_get_path(&self.0, path) {
            Ok(v) => Ok(ItemData(v)),
            Err(e) => Err(e),
        }
    }
}

impl Default for ItemData {
    fn default() -> (r: Self)
        ensures
            r@ == Cbor::Null,
    {
        ItemData::new()
    }
}

impl Clone for ItemData {
    fn clone(&self) -> (r: Self)
        ensures
            r@ == self@,
    {
        ItemData(self.0.copy())
    }
}

impl PartialEq for ItemData {
    fn eq(&self, other: &Self) -> (r: bool) {
        values_equal(&self.0, &other.0)
    }
}

impl PartialEqSpecImpl for ItemData {
    open spec fn obeys_eq_spec() -> bool {
        true
    }

    open spec fn eq_spec(&self, other: &ItemData) -> bool {
        cbor_eq(self@, other@)
    }
}

/// Folds the `path=value` options into `d`, as `data_from_string` does.
pub open spec fn options_fold(d: Cbor, opts: Seq<Seq<char>>) -> Option<Cbor>
    decreases opts.len(),
{
    if opts.len() == 0 {
        Some(d)
    } else {
        let o = opts[0];
        if o.len() == 0 {
            options_fold(d, opts.drop_first())
        } else {
            let parts = split_spec(o, '=');
            if parts.len() < 2 {
                None
            } else {
                match set_path_spec(d, split_spec(parts[0], '.'), parse_spec(parts[1])) {
                    Some(d2) => options_fold(d2, opts.drop_first()),
                    None => None,
                }
            }
        }
    }
}

/// What a config string gives: a text without `=` is that text; otherwise
/// the `:`-separated options `a.b.c=value` are set one after the other into
/// `Null`, each value parsed (see `parse_spec`).
pub open spec fn data_from_string_spec(s: Seq<char>) -> Option<Cbor> {
    if !s.contains('=') {
        Some(Cbor::Text(s))
    } else {
        options_fold(Cbor::Null, split_spec(s, ':'))
    }
}

/// Reads item data from a config string (see `data_from_string_spec`).
pub fn data_from_string(data_string: String) -> (r: MizeResult<ItemData>)
    ensures
        match r {
            Ok(d) => data_from_string_spec(data_string@) == Some(d@),
            Err(_) => data_from_string_spec(data_string@) is None,
        },
{
    if !contains_char(data_string.as_str(), '=') {
        return Ok(ItemData(CborValue::Text(data_string)));
    }
    let opts = split_text(data_string.as_str(), ':');
    let ghost os = split_spec(data_string@, ':');
    let mut data = ItemData::new();
    let mut i: usize = 0;
    assert(os.subrange(0, os.len() as int) =~= os);
    while i < opts.len()
        invariant
            i <= opts@.len(),
            data_string@.contains('='),
            os == split_spec(data_string@, ':'),
            opts@.len() == os.len(),
            forall|j: int| 0 <= j < opts@.len() ==> #[trigger] opts@[j]@ == os[j],
            options_fold(Cbor::Null, os) == options_fold(data@, os.subrange(i as int, os.len() as int)),
        decreases opts@.len() - i,
    {
        proof {
            lemma_subrange_step(os, i as int);
        }
        let option = &opts[i];
        if option.as_str().is_empty() {
        } else {
            let parts = split_text(option.as_str(), '=');
            if parts.len() < 2 {
                proof {
                    let rest = os.subrange(i as int, os.len() as int);
                    assert(rest[0] == os[i as int]);
                    assert(rest[0].len() != 0);
                    assert(split_spec(rest[0], '=').len() < 2);
                    assert(options_fold(data@, rest) is None);
                }
                return Err(
                    MizeError::new().msg("Failed to parse Option: an option has an empty value (thing after =)"),
                );
            }
            let path_vec = split_text(parts[0].as_str(), '.');
            assert(texts(path_vec@) =~= split_spec(parts@[0]@, '.'));
            let value = ItemData::parse(parts[1].as_str());
            let ghost old_data = data@;
            match item_data_set_path(&mut data.0, path_vec, &value.0) {
                Ok(_) => {},
                Err(e) => {
                    proof {
                        let rest = os.subrange(i as int, os.len() as int);
                        assert(rest[0] == os[i as int]);
                        assert(rest[0].len() != 0);
                        assert(options_fold(old_data, rest) is None);
                    }
                    return Err(e);
                },
            }
        }
        i = i + 1;
    }
    Ok(data)
}

} // verus!
