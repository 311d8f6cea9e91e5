//! The items of the server's store: JSON-shaped data (objects are mappings
//! keyed by texts), and the deltas that change them.
use vstd::prelude::*;
use crate::error::{MizeError, MizeResult, texts};
use crate::value::{Cbor, CborValue, entry_models, lemma_entry_models, copy_entries, model};
use crate::item::{first_with_text_key, without_key, find_first_text_key, is_text_key};

verus! {

broadcast use vstd::std_specs::vec::group_vec_axioms;

/// An item that is an array.
#[derive(Debug)]
pub struct Array {}

/// An item of the server: its data, whose object holds its id under
/// `__item__`.
#[derive(Debug)]
pub struct Item {
    pub json: CborValue,
}

/// Changes to an item: each sets the value at a path of keys; a `Null` at a
/// path of at least one key takes the last key out of its object.
#[derive(Debug)]
pub struct Delta {
    pub delta: Vec<(Vec<String>, CborValue)>,
}

/// What one change does: the data after it, the data after a key was taken
/// out (which ends the whole delta), or a failure (nothing changed).
pub enum DeltaStep {
    Written(Cbor),
    Removed(Cbor),
    Failed,
}

/// The object `m` with `c` at its first entry keyed `name` where `i` is that
/// entry, else with `(name, c)` added at the end.
pub open spec fn placed(m: Seq<(Cbor, Cbor)>, i: int, name: Seq<char>, c: Cbor) -> Cbor {
    if i < m.len() {
        Cbor::Mapping(m.update(i, (m[i].0, c)))
    } else {
        Cbor::Mapping(m.push((Cbor::Text(name), c)))
    }
}

/// One change of a delta: follow `path` through objects, making an empty
/// object for a key they lack, and set `value` at its end; a `Null` value at
/// a path of at least one key takes the last key out of the object it ends
/// in instead.  Meeting something that is no object fails.
pub open spec fn delta_step(d: Cbor, path: Seq<Seq<char>>, value: Cbor) -> DeltaStep
    decreases path.len(),
{
    if path.len() == 0 {
        DeltaStep::Written(value)
    } else if path.len() == 1 && value == Cbor::Null {
        match d {
            Cbor::Mapping(m) => DeltaStep::Removed(Cbor::Mapping(without_key(m, Cbor::Text(path[0])))),
            _ => DeltaStep::Failed,
        }
    } else {
        match d {
            Cbor::Mapping(m) => {
                let i = first_with_text_key(m, path[0]);
                let child = if i < m.len() {
                    m[i].1
                } else {
                    Cbor::Mapping(Seq::empty())
                };
                match delta_step(child, path.drop_first(), value) {
                    DeltaStep::Written(c) => DeltaStep::Written(placed(m, i, path[0], c)),
                    DeltaStep::Removed(c) => DeltaStep::Removed(placed(m, i, path[0], c)),
                    DeltaStep::Failed => DeltaStep::Failed,
                }
            },
            _ => DeltaStep::Failed,
        }
    }
}

/// The data after the changes of a delta one after the other, and whether
/// they succeeded: a removal ends the delta with success, a failure ends it
/// with the data as it was before the failing change.
pub open spec fn apply_deltas(d: Cbor, changes: Seq<(Seq<Seq<char>>, Cbor)>) -> (Cbor, bool)
    decreases changes.len(),
{
    if changes.len() == 0 {
        (d, true)
    } else {
        match delta_step(d, changes[0].0, changes[0].1) {
            DeltaStep::Written(c) => apply_deltas(c, changes.drop_first()),
            DeltaStep::Removed(c) => (c, true),
            DeltaStep::Failed => (d, false),
        }
    }
}

/// The changes of a delta as models.
pub open spec fn changes_view(v: Seq<(Vec<String>, CborValue)>) -> Seq<(Seq<Seq<char>>, Cbor)> {
    Seq::new(v.len(), |i: int| (texts(v[i].0@), v[i].1@))
}

/// The id an item's data holds: the text under `__item__` of its object.
pub open spec fn item_id_spec(d: Cbor) -> Option<Seq<char>> {
    match d {
        Cbor::Mapping(m) => {
            let i = first_with_text_key(m, "__item__"@);
            if i < m.len() {
                match m[i].1 {
                    Cbor::Text(t) => Some(t),
                    _ => None,
                }
            } else {
                None
            }
        },
        _ => None,
    }
}

enum Step {
    Written(CborValue),
    Removed(CborValue),
    Failed,
}

spec fn step_view(s: Step) -> DeltaStep {
    match s {
        Step::Written(c) => DeltaStep::Written(c@),
        Step::Removed(c) => DeltaStep::Removed(c@),
        Step::Failed => DeltaStep::Failed,
    }
}

/// `m` with `c` at entry `i`, or with `(name, c)` added where `i` is past its end.
fn place(m: &Vec<(CborValue, CborValue)>, i: usize, name: &String, c: CborValue) -> (r: CborValue)
    requires
        i <= m@.len(),
    ensures
        r@ == placed(entry_models(m@), i as int, name@, c@),
{
    let mut out = copy_entries(m);
    proof {
        lemma_entry_models(m@);
        lemma_entry_models(out@);
    }
    let ghost em = entry_models(m@);
    if i < out.len() {
        let k = out[i].0.copy();
        let ghost ck = c@;
        out.set(i, (k, c));
        proof {
            lemma_entry_models(out@);
            assert(entry_models(out@) =~= em.update(i as int, (em[i as int].0, ck)));
        }
    } else {
        let ghost before = out@;
        let ghost ck = c@;
        out.push((CborValue::Text(name.clone()), c));
        proof {
            lemma_entry_models(out@);
            lemma_entry_models(before);
            assert(entry_models(out@) =~= em.push((Cbor::Text(name@), ck)));
        }
    }
    CborValue::Mapping(out)
}

/// The entries of `m` whose key is not the text `name`, in order.
fn remove_text_key(m: &Vec<(CborValue, CborValue)>, name: &String) -> (r: Vec<(CborValue, CborValue)>)
    ensures
        entry_models(r@) == without_key(entry_models(m@), Cbor::Text(name@)),
{
    let mut out: Vec<(CborValue, CborValue)> = Vec::new();
    let mut i: usize = 0;
    proof {
        lemma_entry_models(m@);
    }
    assert(m@.take(0) =~= Seq::<(CborValue, CborValue)>::empty());
    while i < m.len()
        invariant
            i <= m.len(),
            entry_models(m@).len() == m@.len(),
            forall|j: int| 0 <= j < m@.len() ==> #[trigger] entry_models(m@)[j] == (model(m@[j].0), model(m@[j].1)),
            entry_models(out@) == without_key(entry_models(m@.take(i as int)), Cbor::Text(name@)),
        decreases m.len() - i,
    {
        proof {
            lemma_entry_models(m@.take(i + 1));
            lemma_entry_models(m@.take(i as int));
            assert(entry_models(m@.take(i + 1)).drop_last() =~= entry_models(m@.take(i as int)));
            assert(m@.take(i + 1).drop_last() =~= m@.take(i as int));
        }
        if !is_text_key(&m[i].0, name) {
            let ghost before = out@;
            let k = m[i].0.copy();
            let v = m[i].1.copy();
            out.push((k, v));
            proof {
                lemma_entry_models(out@);
                lemma_entry_models(before);
                assert(entry_models(out@) =~= entry_models(before).push((model(m@[i as int].0), model(m@[i as int].1))));
            }
        }
        i = i + 1;
    }
    assert(m@.take(m@.len() as int) =~= m@);
    out
}

/// One change, from step `i` of `path` on (see `delta_step`).
fn step(d: &CborValue, path: &Vec<String>, i: usize, value: &CborValue) -> (r: Step)
    requires
        i <= path@.len(),
    ensures
        step_view(r) == delta_step(d@, texts(path@).skip(i as int), value@),
    decreases path@.len() - i,
{
    let ghost p = texts(path@).skip(i as int);
    assert(p.len() == path@.len() - i);
    if i == path.len() {
        return Step::Written(value.copy());
    }
    assert(p[0] == path@[i as int]@);
    assert(p.drop_first() =~= texts(path@).skip(i + 1));
    let last_removal = match value {
        CborValue::Null => i + 1 == path.len(),
        _ => false,
    };
    if last_removal {
        return match d {
            CborValue::Mapping(m) => Step::Removed(CborValue::Mapping(remove_text_key(m, &path[i]))),
            _ => Step::Failed,
        };
    }
    match d {
        CborValue::Mapping(m) => {
            let j = find_first_text_key(m, &path[i]);
            proof {
                lemma_entry_models(m@);
            }
            let child = if j < m.len() {
                m[j].1.copy()
            } else {
                let empty: Vec<(CborValue, CborValue)> = Vec::new();
                assert(entry_models(empty@) =~= Seq::<(Cbor, Cbor)>::empty());
                CborValue::Mapping(empty)
            };
            match step(&child, path, i + 1, value) {
                Step::Written(c) => Step::Written(place(m, j, &path[i], c)),
                Step::Removed(c) => Step::Removed(place(m, j, &path[i], c)),
                Step::Failed => Step::Failed,
            }
        },
        _ => Step::Failed,
    }
}

impl Item {
    /// The id this item's data holds (see `item_id_spec`).
    pub fn get_id(&self) -> (r: MizeResult<String>)
        ensures
            match item_id_spec(self.json@) {
                Some(t) => r matches Ok(s) && s@ == t,
                None => r is Err,
            },
    {
        match &self.json {
            CborValue::Mapping(m) => {
                let key = String::from_str("__item__");
                let j = find_first_text_key(m, &key);
                proof {
                    lemma_entry_models(m@);
                    reveal_strlit("__item__");
                }
                if j < m.len() {
                    match &m[j].1 {
                        CborValue::Text(t) => Ok(t.clone()),
                        _ => Err(MizeError::code(11).msg("mize-id field in an item was not a String")),
                    }
                } else {
                    Err(MizeError::code(11).msg("There was no mize-id field in an item"))
                }
            },
            _ => Err(MizeError::code(11).msg("An Item was not a JsonValue::Object")),
        }
    }

    /// Applies the changes of `delta` one after the other (see
    /// `apply_deltas`); where one fails, the changes before it stay.
    pub fn apply_delta(&mut self, delta: Delta) -> (r: MizeResult<()>)
        ensures
            final(self).json@ == apply_deltas(old(self).json@, changes_view(delta.delta@)).0,
            r is Ok <==> apply_deltas(old(self).json@, changes_view(delta.delta@)).1,
    {
        let ghost all = changes_view(delta.delta@);
        let mut k: usize = 0;
        assert(all.skip(0) =~= all);
        while k < delta.delta.len()
            invariant
                k <= delta.delta@.len(),
                all == changes_view(delta.delta@),
                apply_deltas(old(self).json@, all) == apply_deltas(self.json@, all.skip(k as int)),
            decreases delta.delta@.len() - k,
        {
            let ghost rest = all.skip(k as int);
            assert(rest[0] == (texts(delta.delta@[k as int].0@), delta.delta@[k as int].1@));
            assert(rest.drop_first() =~= all.skip(k + 1));
            assert(texts(delta.delta@[k as int].0@).skip(0) =~= texts(delta.delta@[k as int].0@));
            match step(&self.json, &delta.delta[k].0, 0, &delta.delta[k].1) {
                Step::Written(c) => {
                    self.json = c;
                },
                Step::Removed(c) => {
                    self.json = c;
                    return Ok(());
                },
                Step::Failed => {
                    return Err(
                        MizeError::code(11).msg(
                            "Error applying a Delta to an Item. The path could not be followed.",
                        ),
                    );
                },
            }
            k = k + 1;
        }
        assert(all.skip(k as int) =~= Seq::<(Seq<Seq<char>>, Cbor)>::empty());
        Ok(())
    }
}

} // verus!
