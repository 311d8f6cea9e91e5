//! A store that keeps the data of its items in memory, keyed by the number
//! that is the store part of their ids.
use vstd::prelude::*;
use std::collections::HashMap;
use crate::error::{MizeError, MizeResult, texts};
use crate::value::{Cbor, CborValue};
use crate::item::{ItemData, get_path_spec, set_path_spec, raw_spec, item_data_get_path,
    item_data_set_path, get_raw_from_cbor};
use crate::id::{MizeId, IdView};
use crate::text::{parse_unsigned, parse_unsigned_spec, decimal, decimal_text};

verus! {

broadcast use vstd::std_specs::hash::group_hash_axioms;

/// The items of a store in memory, and the number the next new item gets.
#[derive(Debug)]
pub struct MemStore {
    map: HashMap<u64, ItemData>,
    next_id: u64,
}

/// The model of a store: the data under each key, and the next key to hand out.
pub struct StoreView {
    pub items: Map<u64, Cbor>,
    pub next_id: u64,
}

impl View for MemStore {
    type V = StoreView;

    closed spec fn view(&self) -> StoreView {
        StoreView { items: self.map@.map_values(|d: ItemData| d@), next_id: self.next_id }
    }
}

/// The key that a store part names: the part read as a `u64`.
pub open spec fn store_key_spec(part: Seq<char>) -> Option<u64> {
    match parse_unsigned_spec(part, u64::MAX as int) {
        Some(n) => Some(n as u64),
        None => None,
    }
}

/// The data under `key`, `Null` when there is none.
pub open spec fn stored_or_null(items: Map<u64, Cbor>, key: u64) -> Cbor {
    if items.contains_key(key) {
        items[key]
    } else {
        Cbor::Null
    }
}

/// What reading `id` gives: the data at the rest of the path in the data
/// under the key of its store part.
pub open spec fn read_spec(items: Map<u64, Cbor>, id: IdView) -> Option<Cbor> {
    match store_key_spec(id.path[0]) {
        Some(k) => get_path_spec(stored_or_null(items, k), id.path.skip(1)),
        None => None,
    }
}

/// The items after writing `data` at `id`: set at the rest of the path where
/// the key holds data already, else stored whole under the key.  `None` when
/// the write fails.
pub open spec fn write_spec(items: Map<u64, Cbor>, id: IdView, data: Cbor) -> Option<
    Map<u64, Cbor>,
> {
    match store_key_spec(id.path[0]) {
        Some(k) => if items.contains_key(k) {
            match set_path_spec(items[k], id.path.skip(1), data) {
                Some(nv) => Some(items.insert(k, nv)),
                None => None,
            }
        } else {
            Some(items.insert(k, data))
        },
        None => None,
    }
}

/// The raw bytes at `id`: the raw bytes at the rest of the path in the data
/// under the key of its store part, which must hold data.
pub open spec fn raw_read_spec(items: Map<u64, Cbor>, id: IdView) -> Option<Seq<u8>> {
    match store_key_spec(id.path[0]) {
        Some(k) => if items.contains_key(k) {
            raw_spec(items[k], id.path.skip(1))
        } else {
            None
        },
        None => None,
    }
}

/// The smallest key in `lo < k <= hi` that holds data.
pub open spec fn first_key_after(items: Map<u64, Cbor>, lo: int, hi: int) -> Option<u64>
    decreases hi - lo,
{
    if hi <= lo {
        None
    } else if items.contains_key((lo + 1) as u64) {
        Some((lo + 1) as u64)
    } else {
        first_key_after(items, lo + 1, hi)
    }
}

/// The keys in `lo < k <= hi` that hold data, in increasing order.
pub open spec fn keys_between(items: Map<u64, Cbor>, lo: int, hi: int) -> Seq<u64>
    decreases hi - lo,
{
    if hi <= lo {
        Seq::empty()
    } else if items.contains_key(hi as u64) {
        keys_between(items, lo, hi - 1).push(hi as u64)
    } else {
        keys_between(items, lo, hi - 1)
    }
}

/// Every key that `keys_between` lists holds data.
pub proof fn lemma_keys_between_held(items: Map<u64, Cbor>, lo: int, hi: int)
    ensures
        forall|j: int|
            0 <= j < keys_between(items, lo, hi).len() ==> items.contains_key(
                #[trigger] keys_between(items, lo, hi)[j],
            ),
    decreases hi - lo,
{
    if hi > lo {
        lemma_keys_between_held(items, lo, hi - 1);
        let prev = keys_between(items, lo, hi - 1);
        assert forall|j: int| 0 <= j < keys_between(items, lo, hi).len() implies items.contains_key(
            #[trigger] keys_between(items, lo, hi)[j],
        ) by {
            if j < prev.len() {
                assert(keys_between(items, lo, hi)[j] == prev[j]);
            }
        }
    }
}

/// The items of `into` with the data of `keys` in `from` added under the
/// numbers `first`, `first + 1`, ..., one after the other.
pub open spec fn copied_items(into: Map<u64, Cbor>, from: Map<u64, Cbor>, keys: Seq<u64>, first: int) -> Map<
    u64,
    Cbor,
>
    decreases keys.len(),
{
    if keys.len() == 0 {
        into
    } else {
        copied_items(into, from, keys.drop_last(), first).insert(
            (first + keys.len() - 1) as u64,
            from[keys.last()],
        )
    }
}

/// The store `to` after the items of `from` are moved into it: the data of
/// item 0 of `from` (`Null` where it has none) as item 0, then the data of
/// each item of `from` above 0, in increasing order of its key, under the
/// next number that `to` hands out.  `None` where `to` runs out of numbers.
pub open spec fn migrated_store(from: StoreView, to: StoreView) -> Option<StoreView> {
    let keys = keys_between(from.items, 0, from.next_id as int);
    if to.next_id + keys.len() > u64::MAX {
        None
    } else {
        Some(
            StoreView {
                items: copied_items(
                    to.items.insert(0, stored_or_null(from.items, 0)),
                    from.items,
                    keys,
                    to.next_id as int,
                ),
                next_id: (to.next_id + keys.len()) as u64,
            },
        )
    }
}

/// Reads a key of the store from its text.
pub fn str_to_u64(id_str: &str) -> (r: MizeResult<u64>)
    ensures
        match r {
            Ok(n) => store_key_spec(id_str@) == Some(n),
            Err(_) => store_key_spec(id_str@) is None,
        },
{
    match parse_unsigned(id_str, 0xFFFF_FFFF_FFFF_FFFF) {
        Some(n) => Ok(n as u64),
        None => Err(
            MizeError::new().msg(
                "Could not parse the store_part of a mizeid into a u64 for the MemStore",
            ),
        ),
    }
}

/// The key of the store part of `id`.
pub fn id_to_u64(id: &MizeId) -> (r: MizeResult<u64>)
    requires
        id.wf(),
    ensures
        match r {
            Ok(n) => store_key_spec(id@.path[0]) == Some(n),
            Err(_) => store_key_spec(id@.path[0]) is None,
        },
{
    str_to_u64(id.store_part())
}

impl MemStore {
    /// An empty store whose first new item gets the key 0.
    pub fn new() -> (r: MemStore)
        ensures
            r@.items == Map::<u64, Cbor>::empty(),
            r@.next_id == 0,
    {
        let r = MemStore { map: HashMap::new(), next_id: 0 };
        assert(r@.items =~= Map::<u64, Cbor>::empty());
        r
    }

    /// An empty store that hands out numbers from `next_id` on, as a store
    /// whose counter stands at `next_id` does.
    pub fn starting_at(next_id: u64) -> (r: MemStore)
        ensures
            r@.items == Map::<u64, Cbor>::empty(),
            r@.next_id == next_id,
    {
        let r = MemStore { map: HashMap::new(), next_id };
        assert(r@.items =~= Map::<u64, Cbor>::empty());
        r
    }

    /// The number that the next new item gets.
    pub fn next_number(&self) -> (r: u64)
        ensures
            r == self@.next_id,
    {
        self.next_id
    }

    /// Writes `data` at `id` (see `write_spec`); on an error nothing changes.
    pub fn set(&mut self, id: &MizeId, data: ItemData) -> (r: MizeResult<()>)
        requires
            id.wf(),
        ensures
            final(self)@.next_id == old(self)@.next_id,
            match r {
                Ok(_) => write_spec(old(self)@.items, id@, data@) == Some(final(self)@.items),
                Err(_) => write_spec(old(self)@.items, id@, data@) is None && final(self)@
                    == old(self)@,
            },
    {
        let key = match id_to_u64(id) {
            Ok(k) => k,
            Err(e) => {
                return Err(e);
            },
        };
        let ghost items = self@.items;
        match self.map.get(&key) {
            Some(old_data) => {
                let mut d = old_data.clone();
                let path = id.after_store_part();
                match item_data_set_path(&mut d.0, path, &data.0) {
                    Ok(_) => {},
                    Err(e) => {
                        return Err(e);
                    },
                }
                self.map.insert(key, d);
                assert(self@.items =~= items.insert(key, d@));
                Ok(())
            },
            None => {
                self.map.insert(key, data);
                assert(self@.items =~= items.insert(key, data@));
                Ok(())
            },
        }
    }

    /// The ids that `id` links to; this store keeps no links.
    pub fn get_links(&self, id: &MizeId) -> (r: MizeResult<Vec<MizeId>>)
        ensures
            r matches Ok(v) && v@.len() == 0,
    {
        Ok(Vec::new())
    }

    /// The ids that link to `id`; this store keeps no links.
    pub fn get_backlinks(&self, id: &MizeId) -> (r: MizeResult<Vec<MizeId>>)
        ensures
            r matches Ok(v) && v@.len() == 0,
    {
        Ok(Vec::new())
    }

    /// Hands out the next key, in decimal; fails only when the keys are used up.
    pub fn new_id(&mut self) -> (r: MizeResult<String>)
        ensures
            final(self)@.items == old(self)@.items,
            match r {
                Ok(s) => old(self)@.next_id < u64::MAX && s@ == decimal(old(self)@.next_id as nat)
                    && final(self)@.next_id == old(self)@.next_id + 1,
                Err(_) => old(self)@.next_id == u64::MAX && final(self)@.next_id == old(
                    self,
                )@.next_id,
            },
    {
        if self.next_id == u64::MAX {
            return Err(MizeError::new().msg("the MemStore has no ids left"));
        }
        let s = decimal_text(self.next_id);
        self.next_id = self.next_id + 1;
        Ok(s)
    }

    /// The raw bytes at `id`: the item's data must exist (see `raw_read_spec`).
    pub fn get_value_raw(&self, id: &MizeId) -> (r: MizeResult<Vec<u8>>)
        requires
            id.wf(),
        ensures
            match r {
                Ok(b) => raw_read_spec(self@.items, id@) == Some(b@),
                Err(_) => raw_read_spec(self@.items, id@) is None,
            },
    {
        let key = match id_to_u64(id) {
            Ok(k) => k,
            Err(e) => {
                return Err(e);
            },
        };
        match self.map.get(&key) {
            Some(d) => {
                let path = id.after_store_part();
                get_raw_from_cbor(&d.0, &path)
            },
            None => Err(MizeError::new().msg("Item with that store_part does not exist in MemStore")),
        }
    }

    /// The data at `id` (see `read_spec`); a key that holds nothing reads as `Null`.
    pub fn get_value_data_full(&self, id: &MizeId) -> (r: MizeResult<ItemData>)
        requires
            id.wf(),
        ensures
            match r {
                Ok(d) => read_spec(self@.items, id@) == Some(d@),
                Err(_) => read_spec(self@.items, id@) is None,
            },
    {
        let key = match id_to_u64(id) {
            Ok(k) => k,
            Err(e) => {
                return Err(e);
            },
        };
        let data = match self.map.get(&key) {
            Some(d) => d.clone(),
            None => ItemData::new(),
        };
        let path = id.after_store_part();
        match item_data_get_path(&data.0, path) {
            Ok(v) => Ok(ItemData(v)),
            Err(e) => Err(e),
        }
    }

    /// The first key to walk the store from; it is never handed out itself.
    pub fn first_id(&self) -> (r: MizeResult<String>)
        ensures
            r matches Ok(s) && s@ == "0"@,
    {
        Ok(String::from_str("0"))
    }

    /// The smallest key above `prev_id_str`, up to the next key to hand out,
    /// that holds data (see `first_key_after`), in decimal.
    pub fn next_id(&self, prev_id_str: &str) -> (r: MizeResult<Option<String>>)
        ensures
            match store_key_spec(prev_id_str@) {
                None => r is Err,
                Some(prev) => match r {
                    Ok(Some(s)) => first_key_after(self@.items, prev as int, self@.next_id as int)
                        matches Some(k) && s@ == decimal(k as nat),
                    Ok(None) => first_key_after(
                        self@.items,
                        prev as int,
                        self@.next_id as int,
                    ) is None,
                    Err(_) => false,
                },
            },
    {
        let prev = match str_to_u64(prev_id_str) {
            Ok(p) => p,
            Err(e) => {
                return Err(e);
            },
        };
        let ghost hi = self@.next_id as int;
        let mut k: u64 = prev;
        if k >= self.next_id {
            return Ok(None);
        }
        while k < self.next_id
            invariant
                prev <= k <= self.next_id,
                hi == self@.next_id,
                store_key_spec(prev_id_str@) == Some(prev),
                first_key_after(self@.items, prev as int, hi) == first_key_after(
                    self@.items,
                    k as int,
                    hi,
                ),
            decreases self.next_id - k,
        {
            let ghost before = k as int;
            k = k + 1;
            assert(first_key_after(self@.items, before, hi) == if self@.items.contains_key(k) {
                Some(k)
            } else {
                first_key_after(self@.items, k as int, hi)
            });
            if self.map.contains_key(&k) {
                return Ok(Some(decimal_text(k)));
            }
        }
        Ok(None)
    }

    /// The keys that hold data, above the first key and up to the next key to
    /// hand out, in increasing order and in decimal: what walking the store
    /// with `first_id` and `next_id` gives.
    pub fn id_iter(&self) -> (r: MizeResult<Vec<String>>)
        ensures
            r matches Ok(v) && texts(v@) == keys_between(self@.items, 0, self@.next_id as int).map_values(
                |k: u64| decimal(k as nat),
            ),
    {
        let mut out: Vec<String> = Vec::new();
        let mut k: u64 = 0;
        while k < self.next_id
            invariant
                k <= self.next_id,
                texts(out@) == keys_between(self@.items, 0, k as int).map_values(
                    |x: u64| decimal(x as nat),
                ),
            decreases self.next_id - k,
        {
            k = k + 1;
            let ghost before = out@;
            if self.map.contains_key(&k) {
                out.push(decimal_text(k));
                assert(texts(out@) =~= texts(before).push(decimal(k as nat)));
            }
            assert(keys_between(self@.items, 0, k as int) == if self@.items.contains_key(k) {
                keys_between(self@.items, 0, k - 1).push(k)
            } else {
                keys_between(self@.items, 0, k - 1)
            });
            assert(texts(out@) =~= keys_between(self@.items, 0, k as int).map_values(
                |x: u64| decimal(x as nat),
            ));
        }
        Ok(out)
    }
}

} // verus!
