//! An instance: a store, the connections to peers, the subscriptions to
//! items and the namespaces it works in.  It changes only through the calls
//! below, which hand back what must be sent or told to the world outside.
use vstd::prelude::*;
use crate::error::{MizeError, MizeResult, texts};
use crate::value::{Cbor, CborValue};
use crate::item::{ItemData, IntoItemData, text_is};
use crate::id::{MizeId, IdView, Namespace, id_from_steps_spec, id_from_text_spec, id_from_string,
    id_from_vec_string, namespaces_equal, ids_equal};
use crate::memstore::{MemStore, StoreView, write_spec, read_spec, store_key_spec, stored_or_null,
    keys_between, copied_items, migrated_store, lemma_keys_between_held};
use crate::text::{decimal, lemma_decimal_value};
use crate::updater::{numbered_id, lemma_numbered_id};
use crate::text::split_spec;

verus! {

broadcast use vstd::std_specs::vec::group_vec_axioms;

/// The namespace an instance starts in.
pub open spec fn default_namespace() -> Seq<char> {
    "mize.default.namespace"@
}

/// A connection to a peer, known by its number, and the namespace of the peer
/// once it is known.
#[derive(Debug)]
pub struct Connection {
    pub id: u64,
    pub ns: Option<Namespace>,
}

/// The model of a connection.
pub struct ConnView {
    pub id: u64,
    pub ns: Option<Seq<char>>,
}

impl View for Connection {
    type V = ConnView;

    open spec fn view(&self) -> ConnView {
        ConnView {
            id: self.id,
            ns: match self.ns {
                Some(n) => Some(n@),
                None => None,
            },
        }
    }
}

impl Clone for Connection {
    fn clone(&self) -> (r: Self)
        ensures
            r@ == self@,
    {
        Connection {
            id: self.id,
            ns: match &self.ns {
                Some(n) => Some(n.clone()),
                None => None,
            },
        }
    }
}

/// Who is told of the updates of an item: a peer over a connection, or a
/// listener of the program, known by its number.
#[derive(Debug, Clone, Copy, PartialEq, Eq, Structural)]
pub enum Subscription {
    Connection(u64),
    Listener(u64),
}

impl Subscription {
    /// Updates go to the peer over `conn`.
    pub fn from_conn(conn: &Connection) -> (r: Subscription)
        ensures
            r == Subscription::Connection(conn.id),
    {
        Subscription::Connection(conn.id)
    }

    /// Updates go to the listener numbered `listener`.
    pub fn from_listener(listener: u64) -> (r: Subscription)
        ensures
            r == Subscription::Listener(listener),
    {
        Subscription::Listener(listener)
    }
}

/// The subscriptions to one item.
#[derive(Debug)]
pub struct SubEntry {
    pub id: MizeId,
    pub subs: Vec<Subscription>,
}

/// The model of an instance.
pub struct InstanceView {
    pub store: StoreView,
    pub connections: Seq<ConnView>,
    pub next_con_id: u64,
    pub subs: Seq<(IdView, Seq<Subscription>)>,
    pub namespace: Seq<char>,
    pub self_namespace: Seq<char>,
    pub give_waits: Seq<IdView>,
    pub create_wait: bool,
}

/// The heart of the system: where items are kept, and who is connected.
#[derive(Debug)]
pub struct Instance {
    store: MemStore,
    connections: Vec<Connection>,
    next_con_id: u64,
    subs: Vec<SubEntry>,
    namespace: Namespace,
    self_namespace: Namespace,
    give_waits: Vec<MizeId>,
    create_wait: bool,
}

impl View for Instance {
    type V = InstanceView;

    closed spec fn view(&self) -> InstanceView {
        InstanceView {
            store: self.store@,
            connections: Seq::new(self.connections@.len(), |i: int| self.connections@[i]@),
            next_con_id: self.next_con_id,
            subs: Seq::new(self.subs@.len(), |i: int| (self.subs@[i].id@, self.subs@[i].subs@)),
            namespace: self.namespace@,
            self_namespace: self.self_namespace@,
            give_waits: Seq::new(self.give_waits@.len(), |i: int| self.give_waits@[i]@),
            create_wait: self.create_wait,
        }
    }
}

/// The index of the first connection numbered `id`, or the number of
/// connections when there is none.
pub open spec fn conn_index(conns: Seq<ConnView>, id: u64) -> int
    decreases conns.len(),
{
    if conns.len() == 0 {
        0
    } else if conns[0].id == id {
        0
    } else {
        1 + conn_index(conns.drop_first(), id)
    }
}

/// The instance after a connection with the next number is opened to a peer
/// whose namespace is not known yet; `None` when the numbers are used up.
pub open spec fn new_connection_spec(s: InstanceView) -> Option<InstanceView> {
    if s.next_con_id == u64::MAX {
        None
    } else {
        Some(
            InstanceView {
                connections: s.connections.push(ConnView { id: s.next_con_id, ns: None }),
                next_con_id: (s.next_con_id + 1) as u64,
                ..s
            },
        )
    }
}

/// The instance after the peer over connection `id` is recorded to be in
/// namespace `ns`: the first connection with that number gets it.  `None`
/// when no connection has the number.
pub open spec fn set_conn_namespace_spec(s: InstanceView, id: u64, ns: Seq<char>) -> Option<InstanceView> {
    let k = conn_index(s.connections, id);
    if k < s.connections.len() {
        Some(
            InstanceView {
                connections: s.connections.update(k, ConnView { id: id, ns: Some(ns) }),
                ..s
            },
        )
    } else {
        None
    }
}

/// The index of the first connection to a peer in namespace `ns`, or the
/// number of connections when there is none.
pub open spec fn conn_index_by_ns(conns: Seq<ConnView>, ns: Seq<char>) -> int
    decreases conns.len(),
{
    if conns.len() == 0 {
        0
    } else if conns[0].ns == Some(ns) {
        0
    } else {
        1 + conn_index_by_ns(conns.drop_first(), ns)
    }
}

/// The index of the entry of the subscriptions to `id`, or the number of
/// entries when there is none.
pub open spec fn sub_index(subs: Seq<(IdView, Seq<Subscription>)>, id: IdView) -> int
    decreases subs.len(),
{
    if subs.len() == 0 {
        0
    } else if subs[0].0 == id {
        0
    } else {
        1 + sub_index(subs.drop_first(), id)
    }
}

/// The subscriptions to `id`, none when there is no entry for it.
pub open spec fn subs_for(s: InstanceView, id: IdView) -> Seq<Subscription> {
    if sub_index(s.subs, id) < s.subs.len() {
        s.subs[sub_index(s.subs, id)].1
    } else {
        Seq::empty()
    }
}

/// The subscriptions with `sub` added to those of `id`: at the end of its
/// entry, or in a new entry at the end.
pub open spec fn add_sub_spec(subs: Seq<(IdView, Seq<Subscription>)>, id: IdView, sub: Subscription) -> Seq<
    (IdView, Seq<Subscription>),
> {
    if sub_index(subs, id) < subs.len() {
        subs.update(sub_index(subs, id), (id, subs[sub_index(subs, id)].1.push(sub)))
    } else {
        subs.push((id, seq![sub]))
    }
}

fn copy_subs(v: &Vec<Subscription>) -> (r: Vec<Subscription>)
    ensures
        r@ == v@,
{
    let mut r: Vec<Subscription> = Vec::new();
    let mut i: usize = 0;
    while i < v.len()
        invariant
            i <= v@.len(),
            r@ == v@.take(i as int),
        decreases v@.len() - i,
    {
        r.push(v[i]);
        i = i + 1;
        assert(r@ =~= v@.take(i as int));
    }
    assert(v@.take(v@.len() as int) =~= v@);
    r
}

/// The first connection numbered `id` has that number, and none before it has.
pub proof fn lemma_conn_index(conns: Seq<ConnView>, id: u64)
    ensures
        0 <= conn_index(conns, id) <= conns.len(),
        conn_index(conns, id) < conns.len() ==> conns[conn_index(conns, id)].id == id,
        forall|j: int| 0 <= j < conn_index(conns, id) ==> conns[j].id != id,
    decreases conns.len(),
{
    if conns.len() > 0 && conns[0].id != id {
        lemma_conn_index(conns.drop_first(), id);
        assert forall|j: int| 0 <= j < conn_index(conns, id) implies conns[j].id != id by {
            if j > 0 {
                assert(conns[j] == conns.drop_first()[j - 1]);
            }
        }
    }
}

/// The first connection numbered `id` is at `i` where the one at `i` has the
/// number and none before it has.
pub proof fn lemma_conn_index_at(conns: Seq<ConnView>, id: u64, i: int)
    requires
        0 <= i <= conns.len(),
        i < conns.len() ==> conns[i].id == id,
        forall|j: int| 0 <= j < i ==> conns[j].id != id,
    ensures
        conn_index(conns, id) == i,
    decreases conns.len(),
{
    if conns.len() > 0 && i > 0 {
        assert forall|j: int| 0 <= j < i - 1 implies conns.drop_first()[j].id != id by {
            assert(conns.drop_first()[j] == conns[j + 1]);
        }
        lemma_conn_index_at(conns.drop_first(), id, i - 1);
    }
}

/// The first connection in namespace `ns` is at `i` where the one at `i` is
/// in it and none before it is.
pub proof fn lemma_conn_index_by_ns_at(conns: Seq<ConnView>, ns: Seq<char>, i: int)
    requires
        0 <= i <= conns.len(),
        i < conns.len() ==> conns[i].ns == Some(ns),
        forall|j: int| 0 <= j < i ==> conns[j].ns != Some(ns),
    ensures
        conn_index_by_ns(conns, ns) == i,
    decreases conns.len(),
{
    if conns.len() > 0 && i > 0 {
        assert forall|j: int| 0 <= j < i - 1 implies conns.drop_first()[j].ns != Some(ns) by {
            assert(conns.drop_first()[j] == conns[j + 1]);
        }
        lemma_conn_index_by_ns_at(conns.drop_first(), ns, i - 1);
    }
}

/// The entry of the subscriptions to `id` is the first with that key.
pub proof fn lemma_sub_index_at(subs: Seq<(IdView, Seq<Subscription>)>, id: IdView, i: int)
    requires
        0 <= i <= subs.len(),
        i < subs.len() ==> subs[i].0 == id,
        forall|j: int| 0 <= j < i ==> subs[j].0 != id,
    ensures
        sub_index(subs, id) == i,
    decreases subs.len(),
{
    if subs.len() > 0 && i > 0 {
        assert forall|j: int| 0 <= j < i - 1 implies subs.drop_first()[j].0 != id by {
            assert(subs.drop_first()[j] == subs[j + 1]);
        }
        lemma_sub_index_at(subs.drop_first(), id, i - 1);
    }
}

/// Turns a value into an id, read in the namespace of an instance.
pub trait IntoMizeId: Sized {
    /// The id this value names in namespace `ns`, if any.
    spec fn id_view(&self, ns: Seq<char>) -> Option<IdView>;

    fn to_mize_id(self, instance: &Instance) -> (r: MizeResult<MizeId>)
        ensures
            match r {
                Ok(id) => self.id_view(instance@.namespace) == Some(id@) && id.wf(),
                Err(_) => self.id_view(instance@.namespace) is None,
            },
    ;
}

impl IntoMizeId for &str {
    open spec fn id_view(&self, ns: Seq<char>) -> Option<IdView> {
        id_from_text_spec(self@, ns)
    }

    fn to_mize_id(self, instance: &Instance) -> (r: MizeResult<MizeId>) {
        instance.id_from_string(self)
    }
}

impl IntoMizeId for String {
    open spec fn id_view(&self, ns: Seq<char>) -> Option<IdView> {
        id_from_text_spec(self@, ns)
    }

    fn to_mize_id(self, instance: &Instance) -> (r: MizeResult<MizeId>) {
        instance.id_from_string(self.as_str())
    }
}

impl IntoMizeId for &String {
    open spec fn id_view(&self, ns: Seq<char>) -> Option<IdView> {
        id_from_text_spec(self@, ns)
    }

    fn to_mize_id(self, instance: &Instance) -> (r: MizeResult<MizeId>) {
        instance.id_from_string(self.as_str())
    }
}

impl IntoMizeId for Vec<String> {
    open spec fn id_view(&self, ns: Seq<char>) -> Option<IdView> {
        id_from_steps_spec(texts(self@), ns)
    }

    fn to_mize_id(self, instance: &Instance) -> (r: MizeResult<MizeId>) {
        instance.id_from_vec_string(self)
    }
}

fn strs_to_owned(v: &[&str]) -> (r: Vec<String>)
    ensures
        texts(r@) == Seq::new(v@.len(), |i: int| v@[i]@),
{
    let mut r: Vec<String> = Vec::new();
    let mut i: usize = 0;
    while i < v.len()
        invariant
            i <= v@.len(),
            r@.len() == i,
            forall|j: int| 0 <= j < i ==> #[trigger] r@[j]@ == v@[j]@,
        decreases v@.len() - i,
    {
        r.push(v[i].to_owned());
        i = i + 1;
    }
    assert(texts(r@) =~= Seq::new(v@.len(), |i: int| v@[i]@));
    r
}

impl IntoMizeId for Vec<&str> {
    open spec fn id_view(&self, ns: Seq<char>) -> Option<IdView> {
        id_from_steps_spec(Seq::new(self@.len(), |i: int| self@[i]@), ns)
    }

    fn to_mize_id(self, instance: &Instance) -> (r: MizeResult<MizeId>) {
        instance.id_from_vec_string(strs_to_owned(self.as_slice()))
    }
}

impl IntoMizeId for &[&str] {
    open spec fn id_view(&self, ns: Seq<char>) -> Option<IdView> {
        id_from_steps_spec(Seq::new(self@.len(), |i: int| self@[i]@), ns)
    }

    fn to_mize_id(self, instance: &Instance) -> (r: MizeResult<MizeId>) {
        instance.id_from_vec_string(strs_to_owned(self))
    }
}

impl IntoMizeId for MizeId {
    /// An id names itself, when it has a store part.
    open spec fn id_view(&self, ns: Seq<char>) -> Option<IdView> {
        if self@.path.len() > 0 {
            Some(self@)
        } else {
            None
        }
    }

    fn to_mize_id(self, instance: &Instance) -> (r: MizeResult<MizeId>) {
        if self.path.len() == 0 {
            Err(MizeError::new().msg("MizeId was empty"))
        } else {
            Ok(self)
        }
    }
}

/// Reading and writing the item numbered `k` reach the data under key `k`.
pub proof fn lemma_numbered_access(items: Map<u64, Cbor>, k: u64, ns: Seq<char>, d: Cbor)
    ensures
        read_spec(items, numbered_id(k, ns)) == Some(stored_or_null(items, k)),
        write_spec(items, numbered_id(k, ns), d) == Some(items.insert(k, d)),
{
    lemma_decimal_value(k as nat);
    let t = decimal(k as nat);
    assert(crate::text::is_digit(t[0]));
    assert(store_key_spec(t) == Some(k));
    assert(numbered_id(k, ns).path.skip(1) =~= Seq::<Seq<char>>::empty());
}

impl Instance {
    /// An instance with nothing in it: an empty store, no connections and
    /// no subscriptions, in the default namespace, which is also its own.
    fn bare() -> (r: Instance)
        ensures
            r@.store.items == Map::<u64, Cbor>::empty(),
            r@.store.next_id == 0,
            r@.connections.len() == 0,
            r@.next_con_id == 1,
            r@.subs.len() == 0,
            r@.namespace == default_namespace(),
            r@.self_namespace == default_namespace(),
            r@.give_waits.len() == 0,
            !r@.create_wait,
    {
        let i = Instance {
            store: MemStore::new(),
            connections: Vec::new(),
            next_con_id: 1,
            subs: Vec::new(),
            namespace: Namespace("mize.default.namespace".to_owned()),
            self_namespace: Namespace("mize.default.namespace".to_owned()),
            give_waits: Vec::new(),
            create_wait: false,
        };
        assert(i@.connections =~= Seq::<ConnView>::empty());
        assert(i@.subs =~= Seq::<(IdView, Seq<Subscription>)>::empty());
        assert(i@.give_waits =~= Seq::<IdView>::empty());
        i
    }

    /// A new instance whose item 0 holds the configuration it was built
    /// with: no connections and no subscriptions, in the default namespace,
    /// which is also its own.  New items get numbers from 1 on, so that a
    /// new item holds no data.
    pub fn empty(build_config: ItemData) -> (r: MizeResult<Instance>)
        ensures
            r matches Ok(i) && {
                &&& i@.store.items == map![0u64 => build_config@]
                &&& i@.store.next_id == 1
                &&& i@.connections.len() == 0
                &&& i@.next_con_id == 1
                &&& i@.subs.len() == 0
                &&& i@.namespace == default_namespace()
                &&& i@.self_namespace == default_namespace()
                &&& i@.give_waits.len() == 0
                &&& !i@.create_wait
            },
    {
        let mut i = Instance::bare();
        i.store = MemStore::starting_at(1);
        let ghost ns = i@.namespace;
        proof {
            lemma_numbered_id(0, ns);
            reveal_strlit("0");
            assert(decimal(0) =~= "0"@);
            lemma_numbered_access(i@.store.items, 0, ns, build_config@);
        }
        let id = match i.id_from_string("0") {
            Ok(x) => x,
            Err(e) => {
                assert(false);
                return Err(e);
            },
        };
        match i.store.set(&id, build_config) {
            Ok(_) => {},
            Err(e) => {
                assert(false);
                return Err(e);
            },
        }
        assert(i@.store.items =~= map![0u64 => build_config@]);
        Ok(i)
    }

    /// The store of this instance.
    pub fn store(&self) -> (r: &MemStore)
        ensures
            r@ == self@.store,
    {
        &self.store
    }

    /// Reads an id from a `/`-separated text in the namespace of this instance.
    pub fn id_from_string(&self, string: &str) -> (r: MizeResult<MizeId>)
        ensures
            match r {
                Ok(id) => id_from_text_spec(string@, self@.namespace) == Some(id@) && id.wf(),
                Err(_) => id_from_text_spec(string@, self@.namespace) is None,
            },
    {
        id_from_string(string, &self.namespace)
    }

    /// Reads an id from its steps in the namespace of this instance.
    pub fn id_from_vec_string(&self, vec_string: Vec<String>) -> (r: MizeResult<MizeId>)
        ensures
            match r {
                Ok(id) => id_from_steps_spec(texts(vec_string@), self@.namespace) == Some(id@)
                    && id.wf(),
                Err(_) => id_from_steps_spec(texts(vec_string@), self@.namespace) is None,
            },
    {
        id_from_vec_string(vec_string, &self.namespace)
    }

    /// The id that `value` names.
    pub fn new_id<T: IntoMizeId>(&self, value: T) -> (r: MizeResult<MizeId>)
        ensures
            match r {
                Ok(id) => value.id_view(self@.namespace) == Some(id@) && id.wf(),
                Err(_) => value.id_view(self@.namespace) is None,
            },
    {
        value.to_mize_id(self)
    }

    /// The item that `id` names.
    pub fn get<I: IntoMizeId>(&self, id: I) -> (r: MizeResult<Item>)
        ensures
            match r {
                Ok(item) => id.id_view(self@.namespace) == Some(item@) && item.id.wf(),
                Err(_) => id.id_view(self@.namespace) is None,
            },
    {
        match id.to_mize_id(self) {
            Ok(i) => Ok(Item { id: i }),
            Err(e) => Err(e),
        }
    }

    /// The namespace named by `ns_str`.
    pub fn namespace_from_string(&self, ns_str: &str) -> (r: MizeResult<Namespace>)
        ensures
            r matches Ok(n) && n@ == ns_str@,
    {
        Ok(Namespace(ns_str.to_owned()))
    }

    /// Moves this instance into namespace `ns`.
    pub fn set_namespace(&mut self, ns: Namespace) -> (r: MizeResult<()>)
        ensures
            r is Ok,
            final(self)@ == (InstanceView { namespace: ns@, ..old(self)@ }),
    {
        self.namespace = ns;
        Ok(())
    }

    /// The namespace this instance works in.
    pub fn get_namespace(&self) -> (r: MizeResult<Namespace>)
        ensures
            r matches Ok(n) && n@ == self@.namespace,
    {
        Ok(self.namespace.clone())
    }

    /// The namespace of this instance itself.
    pub fn get_self_namespace(&self) -> (r: MizeResult<Namespace>)
        ensures
            r matches Ok(n) && n@ == self@.self_namespace,
    {
        Ok(self.self_namespace.clone())
    }

    /// Whether this instance works in its own namespace, so that it owns the
    /// items it works on.
    pub fn we_are_namespace(&self) -> (r: MizeResult<bool>)
        ensures
            r matches Ok(b) && b == (self@.namespace == self@.self_namespace),
    {
        Ok(namespaces_equal(&self.namespace, &self.self_namespace))
    }

    /// Opens a new connection, with the next number, to a peer whose
    /// namespace is not known yet; fails only when the numbers are used up.
    pub fn new_connection(&mut self) -> (r: MizeResult<u64>)
        ensures
            match r {
                Ok(n) => n == old(self)@.next_con_id && new_connection_spec(old(self)@) == Some(
                    final(self)@,
                ),
                Err(_) => new_connection_spec(old(self)@) is None && final(self)@ == old(self)@,
            },
    {
        if self.next_con_id == u64::MAX {
            return Err(MizeError::new().msg("no connection numbers are left"));
        }
        let n = self.next_con_id;
        let ghost before = self@;
        self.connections.push(Connection { id: n, ns: None });
        self.next_con_id = n + 1;
        assert(self@.connections =~= before.connections.push(ConnView { id: n, ns: None }));
        Ok(n)
    }

    /// The connection numbered `conn_id`: the first one with that number.
    pub fn get_connection(&self, conn_id: u64) -> (r: MizeResult<Connection>)
        ensures
            match r {
                Ok(c) => conn_index(self@.connections, conn_id) < self@.connections.len() && c@
                    == self@.connections[conn_index(self@.connections, conn_id)],
                Err(_) => conn_index(self@.connections, conn_id) == self@.connections.len(),
            },
    {
        let mut i: usize = 0;
        while i < self.connections.len()
            invariant
                i <= self.connections@.len(),
                forall|j: int| 0 <= j < i ==> self.connections@[j].id != conn_id,
            decreases self.connections@.len() - i,
        {
            if self.connections[i].id == conn_id {
                proof {
                    lemma_conn_index_at(self@.connections, conn_id, i as int);
                }
                return Ok(self.connections[i].clone());
            }
            i = i + 1;
        }
        proof {
            lemma_conn_index_at(self@.connections, conn_id, i as int);
        }
        Err(MizeError::new().msg("Connection with that id is not known to the instance"))
    }

    /// The first connection to a peer in namespace `ns`.
    pub fn get_connection_by_ns(&self, ns: &Namespace) -> (r: MizeResult<Connection>)
        ensures
            match r {
                Ok(c) => conn_index_by_ns(self@.connections, ns@) < self@.connections.len() && c@
                    == self@.connections[conn_index_by_ns(self@.connections, ns@)],
                Err(_) => conn_index_by_ns(self@.connections, ns@) == self@.connections.len(),
            },
    {
        let mut i: usize = 0;
        while i < self.connections.len()
            invariant
                i <= self.connections@.len(),
                forall|j: int| 0 <= j < i ==> self@.connections[j].ns != Some(ns@),
            decreases self.connections@.len() - i,
        {
            let same = match &self.connections[i].ns {
                Some(n) => namespaces_equal(n, ns),
                None => false,
            };
            if same {
                proof {
                    lemma_conn_index_by_ns_at(self@.connections, ns@, i as int);
                }
                return Ok(self.connections[i].clone());
            }
            i = i + 1;
        }
        proof {
            lemma_conn_index_by_ns_at(self@.connections, ns@, i as int);
        }
        Err(MizeError::new().msg("Connection with that namespace is not known to the instance"))
    }

    /// Replaces the first connection numbered `conn_id`.
    fn set_connection(&mut self, conn_id: u64, new_connection: Connection) -> (r: MizeResult<()>)
        ensures
            match r {
                Ok(_) => conn_index(old(self)@.connections, conn_id) < old(
                    self,
                )@.connections.len() && final(self)@ == (InstanceView {
                    connections: old(self)@.connections.update(
                        conn_index(old(self)@.connections, conn_id),
                        new_connection@,
                    ),
                    ..old(self)@
                }),
                Err(_) => conn_index(old(self)@.connections, conn_id) == old(
                    self,
                )@.connections.len() && final(self)@ == old(self)@,
            },
    {
        let mut i: usize = 0;
        while i < self.connections.len()
            invariant
                i <= self.connections@.len(),
                *self == *old(self),
                forall|j: int| 0 <= j < i ==> self.connections@[j].id != conn_id,
            decreases self.connections@.len() - i,
        {
            if self.connections[i].id == conn_id {
                proof {
                    lemma_conn_index_at(self@.connections, conn_id, i as int);
                }
                let ghost before = self@;
                let ghost nc = new_connection@;
                self.connections.set(i, new_connection);
                assert(self@.connections =~= before.connections.update(i as int, nc));
                return Ok(());
            }
            i = i + 1;
        }
        proof {
            lemma_conn_index_at(self@.connections, conn_id, i as int);
        }
        Err(MizeError::new().msg("Connection with that id is not known to the instance"))
    }

    /// Records that the peer over connection `conn_id` is in `namespace`.
    pub fn connection_set_namespace(&mut self, conn_id: u64, namespace: Namespace) -> (r:
        MizeResult<()>)
        ensures
            match r {
                Ok(_) => set_conn_namespace_spec(old(self)@, conn_id, namespace@) == Some(final(self)@),
                Err(_) => set_conn_namespace_spec(old(self)@, conn_id, namespace@) is None && final(self)@
                    == old(self)@,
            },
    {
        proof {
            lemma_conn_index(self@.connections, conn_id);
        }
        let mut connection = match self.get_connection(conn_id) {
            Ok(c) => c,
            Err(e) => {
                return Err(e);
            },
        };
        proof {
            lemma_conn_index(self@.connections, conn_id);
        }
        connection.ns = Some(namespace);
        self.set_connection(conn_id, connection)
    }

    /// Writes `data` at `id` in the store (see `write_spec`); nothing else changes.
    pub fn store_set(&mut self, id: &MizeId, data: ItemData) -> (r: MizeResult<()>)
        requires
            id.wf(),
        ensures
            match r {
                Ok(_) => write_spec(old(self)@.store.items, id@, data@) == Some(
                    final(self)@.store.items,
                ) && final(self)@ == (InstanceView {
                    store: StoreView { items: final(self)@.store.items, ..old(self)@.store },
                    ..old(self)@
                }),
                Err(_) => write_spec(old(self)@.store.items, id@, data@) is None && final(self)@
                    == old(self)@,
            },
    {
        self.store.set(id, data)
    }

    /// Hands out the next key of the store, in decimal; nothing else changes.
    pub fn store_new_id(&mut self) -> (r: MizeResult<String>)
        ensures
            match r {
                Ok(s) => old(self)@.store.next_id < u64::MAX && s@ == decimal(
                    old(self)@.store.next_id as nat,
                ) && final(self)@ == (InstanceView {
                    store: StoreView {
                        next_id: (old(self)@.store.next_id + 1) as u64,
                        ..old(self)@.store
                    },
                    ..old(self)@
                }),
                Err(_) => old(self)@.store.next_id == u64::MAX && final(self)@ == old(self)@,
            },
    {
        self.store.new_id()
    }

    /// Moves the items of the store into `new_store`, which then becomes the
    /// store of this instance (see `migrated_store`); nothing else changes.
    /// Where `new_store` runs out of numbers the instance keeps its store.
    pub fn migrate_to_store(&mut self, new_store: MemStore) -> (r: MizeResult<()>)
        ensures
            match r {
                Ok(_) => migrated_store(old(self)@.store, new_store@) == Some(final(self)@.store)
                    && final(self)@ == (InstanceView { store: final(self)@.store, ..old(self)@ }),
                Err(_) => migrated_store(old(self)@.store, new_store@) is None && final(self)@ == old(
                    self,
                )@,
            },
    {
        let ghost from = self@.store;
        let ghost ns = self@.namespace;
        let mut target = new_store;
        proof {
            lemma_numbered_id(0, ns);
            reveal_strlit("0");
            assert(decimal(0) =~= "0"@);
            lemma_numbered_access(from.items, 0, ns, Cbor::Null);
            lemma_numbered_access(target@.items, 0, ns, stored_or_null(from.items, 0));
        }
        let id = match self.id_from_string("0") {
            Ok(i) => i,
            Err(e) => {
                assert(false);
                return Err(e);
            },
        };
        let inst_data = match self.store.get_value_data_full(&id) {
            Ok(d) => d,
            Err(e) => {
                assert(false);
                return Err(e);
            },
        };
        match target.set(&id, inst_data) {
            Ok(_) => {},
            Err(e) => {
                assert(false);
                return Err(e);
            },
        }
        let ids = match self.store.id_iter() {
            Ok(v) => v,
            Err(e) => {
                assert(false);
                return Err(e);
            },
        };
        match self.copy_items_into(&mut target, &ids) {
            Ok(_) => {},
            Err(e) => {
                return Err(e);
            },
        }
        self.store = target;
        Ok(())
    }

    /// Copies the items named by `ids` into `target`, each under the next
    /// number that `target` hands out (see `copied_items`).
    fn copy_items_into(&self, target: &mut MemStore, ids: &Vec<String>) -> (r: MizeResult<()>)
        requires
            texts(ids@) == keys_between(self@.store.items, 0, self@.store.next_id as int).map_values(
                |k: u64| decimal(k as nat),
            ),
        ensures
            ({
                let keys = keys_between(self@.store.items, 0, self@.store.next_id as int);
                match r {
                    Ok(_) => old(target)@.next_id + keys.len() <= u64::MAX && final(target)@ == (StoreView {
                        items: copied_items(
                            old(target)@.items,
                            self@.store.items,
                            keys,
                            old(target)@.next_id as int,
                        ),
                        next_id: (old(target)@.next_id + keys.len()) as u64,
                    }),
                    Err(_) => old(target)@.next_id + keys.len() > u64::MAX,
                }
            }),
    {
        let ghost from = self@.store;
        let ghost ns = self@.namespace;
        let ghost keys = keys_between(from.items, 0, from.next_id as int);
        let ghost start = target@;
        proof {
            lemma_keys_between_held(from.items, 0, from.next_id as int);
        }
        assert(texts(ids@).len() == ids@.len());
        assert(keys.map_values(|k: u64| decimal(k as nat)).len() == keys.len());
        assert(keys.take(0) =~= Seq::<u64>::empty());
        let mut i: usize = 0;
        while i < ids.len()
            invariant
                i <= ids@.len(),
                ids@.len() == keys.len(),
                from == self@.store,
                ns == self@.namespace,
                start == old(target)@,
                keys == keys_between(from.items, 0, from.next_id as int),
                texts(ids@) == keys.map_values(|k: u64| decimal(k as nat)),
                forall|j: int| 0 <= j < keys.len() ==> from.items.contains_key(#[trigger] keys[j]),
                target@.items == copied_items(start.items, from.items, keys.take(i as int), start.next_id as int),
                target@.next_id == start.next_id + i,
            decreases ids@.len() - i,
        {
            let ghost k = keys[i as int];
            assert(texts(ids@)[i as int] == ids@[i as int]@);
            assert(texts(ids@)[i as int] == decimal(k as nat));
            proof {
                lemma_numbered_id(k, ns);
                lemma_numbered_access(from.items, k, ns, Cbor::Null);
            }
            let id = match self.id_from_string(ids[i].as_str()) {
                Ok(x) => x,
                Err(e) => {
                    assert(false);
                    return Err(e);
                },
            };
            let data = match self.store.get_value_data_full(&id) {
                Ok(d) => d,
                Err(e) => {
                    assert(false);
                    return Err(e);
                },
            };
            let ghost n = target@.next_id;
            let nid = match target.new_id() {
                Ok(s) => s,
                Err(e) => {
                    return Err(e);
                },
            };
            proof {
                lemma_numbered_id(n, ns);
                lemma_numbered_access(target@.items, n, ns, data@);
            }
            let id2 = match self.id_from_string(nid.as_str()) {
                Ok(x) => x,
                Err(e) => {
                    assert(false);
                    return Err(e);
                },
            };
            match target.set(&id2, data) {
                Ok(_) => {},
                Err(e) => {
                    assert(false);
                    return Err(e);
                },
            }
            proof {
                assert(keys.take(i + 1).drop_last() =~= keys.take(i as int));
                assert(keys.take(i + 1).last() == k);
            }
            i = i + 1;
        }
        assert(keys.take(keys.len() as int) =~= keys);
        Ok(())
    }

    /// The subscriptions to `id`, in the order they were made.
    pub fn subs_of(&self, id: &MizeId) -> (r: Vec<Subscription>)
        ensures
            r@ == subs_for(self@, id@),
    {
        let mut i: usize = 0;
        while i < self.subs.len()
            invariant
                i <= self.subs@.len(),
                forall|j: int| 0 <= j < i ==> self@.subs[j].0 != id@,
            decreases self.subs@.len() - i,
        {
            if ids_equal(&self.subs[i].id, id) {
                proof {
                    lemma_sub_index_at(self@.subs, id@, i as int);
                }
                return copy_subs(&self.subs[i].subs);
            }
            i = i + 1;
        }
        proof {
            lemma_sub_index_at(self@.subs, id@, i as int);
        }
        Vec::new()
    }

    /// Adds `sub` to the subscriptions to `id` (see `add_sub_spec`).
    pub fn add_sub(&mut self, id: MizeId, sub: Subscription)
        ensures
            final(self)@ == (InstanceView {
                subs: add_sub_spec(old(self)@.subs, id@, sub),
                ..old(self)@
            }),
    {
        let ghost before = self@;
        let mut i: usize = 0;
        while i < self.subs.len()
            invariant
                i <= self.subs@.len(),
                *self == *old(self),
                before == old(self)@,
                forall|j: int| 0 <= j < i ==> self@.subs[j].0 != id@,
            decreases self.subs@.len() - i,
        {
            if ids_equal(&self.subs[i].id, &id) {
                proof {
                    lemma_sub_index_at(self@.subs, id@, i as int);
                }
                let mut entry_subs = copy_subs(&self.subs[i].subs);
                entry_subs.push(sub);
                let entry_id = self.subs[i].id.clone();
                let ghost nv = (entry_id@, entry_subs@);
                self.subs.set(i, SubEntry { id: entry_id, subs: entry_subs });
                assert(self@.subs =~= before.subs.update(i as int, nv));
                return;
            }
            i = i + 1;
        }
        proof {
            lemma_sub_index_at(self@.subs, id@, i as int);
        }
        let mut v: Vec<Subscription> = Vec::new();
        v.push(sub);
        let ghost nv = (id@, v@);
        self.subs.push(SubEntry { id, subs: v });
        assert(self@.subs =~= before.subs.push(nv));
    }

    /// Records that someone waits for a give message with the data of `id`.
    pub fn give_msg_wait(&mut self, id: MizeId)
        ensures
            final(self)@ == (InstanceView {
                give_waits: old(self)@.give_waits.push(id@),
                ..old(self)@
            }),
    {
        let ghost before = self@;
        let ghost v = id@;
        self.give_waits.push(id);
        assert(self@.give_waits =~= before.give_waits.push(v));
    }

    /// Whether someone waits for a give message with the data of `id`.
    pub fn is_waited_for(&self, id: &MizeId) -> (r: bool)
        ensures
            r == self@.give_waits.contains(id@),
    {
        let mut i: usize = 0;
        while i < self.give_waits.len()
            invariant
                i <= self.give_waits@.len(),
                forall|j: int| 0 <= j < i ==> self@.give_waits[j] != id@,
            decreases self.give_waits@.len() - i,
        {
            if ids_equal(&self.give_waits[i], id) {
                assert(self@.give_waits[i as int] == id@);
                return true;
            }
            i = i + 1;
        }
        false
    }

    /// Whether someone waits for the reply to a create message.
    pub fn create_waiting(&self) -> (r: bool)
        ensures
            r == self@.create_wait,
    {
        self.create_wait
    }

    /// Records that someone waits for the reply to a create message.
    pub fn create_msg_wait(&mut self)
        ensures
            final(self)@ == (InstanceView { create_wait: true, ..old(self)@ }),
    {
        self.create_wait = true;
    }
}

/// An item: an id, read and written through an instance.
#[derive(Debug)]
pub struct Item {
    pub id: MizeId,
}

impl View for Item {
    type V = IdView;

    open spec fn view(&self) -> IdView {
        self.id@
    }
}

impl Item {
    pub fn new(id: MizeId) -> (r: Item)
        ensures
            r@ == id@,
    {
        Item { id }
    }

    pub fn id(&self) -> (r: MizeId)
        ensures
            r@ == self@,
    {
        self.id.clone()
    }
}

} // verus!
