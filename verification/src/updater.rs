//! Reading and writing items through an instance, and what an instance does
//! with the operations and messages it is handed.  Where the data of an item
//! lives with a peer, the answer is a request to send and what to do once the
//! data has come back.
use vstd::prelude::*;
use crate::error::{MizeError, MizeResult, texts};
use crate::value::{Cbor, CborValue};
use crate::item::{ItemData, merge_spec, item_data_merge, text_is, raw_spec, get_raw_from_cbor};
use vstd::utf8::{valid_utf8, decode_utf8};
use crate::id::{MizeId, IdView, Namespace, id_from_steps_spec, id_from_text_spec, non_empty};
use crate::text::{decimal, decimal_text, string_from_utf8, is_digit, all_digits, lemma_decimal_digits, lemma_split_without_sep, digits_value};
use crate::instance::IntoMizeId;
use crate::item::IntoItemData;
use crate::memstore::{StoreView, read_spec, write_spec, store_key_spec, str_to_u64};
use crate::instance::{Instance, InstanceView, Item, Connection, ConnView, Subscription,
    conn_index, conn_index_by_ns, subs_for, add_sub_spec, lemma_conn_index};
use crate::proto::{MizeMessage, MessageView, MessageCmd, message_value, cmd_spec, id_spec, data_spec, CMD_GET};


verus! {

broadcast use vstd::std_specs::vec::group_vec_axioms;

/// What reading an item comes to: a failure, the data, or a wait for the data
/// of an id that a peer over a connection is asked for.
pub enum FoundSpec {
    Fails,
    Local(Cbor),
    Remote(IdView, u64),
}

/// What reading `self/con_by_id/<n>/peer/<rest>` comes to: the peer over
/// connection `n` is asked for the item `<rest>`.
pub open spec fn peer_lookup_spec(s: InstanceView, id: IdView) -> FoundSpec {
    if id.path.len() < 4 || id.path[3] != "peer"@ {
        FoundSpec::Fails
    } else {
        match store_key_spec(id.path[2]) {
            None => FoundSpec::Fails,
            Some(c) => match id_from_steps_spec(id.path.skip(4), s.namespace) {
                None => FoundSpec::Fails,
                Some(nid) => if conn_index(s.connections, c) < s.connections.len() {
                    FoundSpec::Remote(nid, c)
                } else {
                    FoundSpec::Fails
                },
            },
        }
    }
}

/// What the instance tells of itself under a second step `step`: the
/// connections' peers, its namespace and its own namespace.  `None` for any
/// other step.
pub open spec fn about_instance_spec(s: InstanceView, id: IdView) -> Option<FoundSpec> {
    if id.path[1] == "con_by_id"@ {
        Some(peer_lookup_spec(s, id))
    } else if id.path[1] == "namespace"@ {
        Some(FoundSpec::Local(Cbor::Text(s.namespace)))
    } else if id.path[1] == "self_namespace"@ {
        Some(FoundSpec::Local(Cbor::Text(s.self_namespace)))
    } else {
        None
    }
}

/// What reading the item `id` through an instance comes to.  The store part
/// `self` asks the instance about itself; an id in the instance's own
/// namespace is read from the store, but for the store part `inst`, which
/// asks the instance about itself too where the next step is one it answers;
/// an id in another namespace is asked of the peer that has that namespace.
pub open spec fn lookup_spec(s: InstanceView, id: IdView) -> FoundSpec {
    if id.path[0] == "self"@ {
        if id.path.len() < 2 {
            FoundSpec::Fails
        } else {
            match about_instance_spec(s, id) {
                Some(f) => f,
                None => FoundSpec::Fails,
            }
        }
    } else if id.namespace == s.self_namespace {
        if id.path[0] == "inst"@ && id.path.len() < 2 {
            FoundSpec::Fails
        } else if id.path[0] == "inst"@ && about_instance_spec(s, id) is Some {
            about_instance_spec(s, id)->Some_0
        } else {
            match read_spec(s.store.items, id) {
                Some(d) => FoundSpec::Local(d),
                None => FoundSpec::Fails,
            }
        }
    } else {
        let i = conn_index_by_ns(s.connections, id.namespace);
        if i < s.connections.len() {
            FoundSpec::Remote(id, s.connections[i].id)
        } else {
            FoundSpec::Fails
        }
    }
}

/// The message that asks for the data of `id` over connection `c`.
pub open spec fn get_msg_spec(id: IdView, c: u64) -> MessageView {
    MessageView { value: message_value(CMD_GET as int, Some(id.path), None), conn_id: c }
}

/// A value that is at hand, or the id whose data must be waited for after
/// the request has been sent.
pub enum Fetch<T> {
    Ready(T),
    Remote(MizeId, MizeMessage),
}

/// Whether `r` is what `f` says a read comes to.
pub open spec fn fetch_matches(r: MizeResult<Fetch<ItemData>>, f: FoundSpec) -> bool {
    match f {
        FoundSpec::Fails => r is Err,
        FoundSpec::Local(d) => r matches Ok(Fetch::Ready(x)) && x@ == d,
        FoundSpec::Remote(w, c) => r matches Ok(Fetch::Remote(wid, m)) && wid@ == w && m@
            == get_msg_spec(w, c),
    }
}

/// The steps of the path of `id` from the `n`-th on.
fn steps_from(id: &MizeId, n: usize) -> (r: Vec<String>)
    requires
        n <= id@.path.len(),
    ensures
        texts(r@) == id@.path.skip(n as int),
{
    let mut r: Vec<String> = Vec::new();
    let mut i: usize = n;
    while i < id.path.len()
        invariant
            n <= i <= id.path@.len(),
            r@.len() == i - n,
            forall|j: int| 0 <= j < r@.len() ==> #[trigger] r@[j]@ == id.path@[j + n]@,
        decreases id.path@.len() - i,
    {
        r.push(id.path[i].clone());
        i = i + 1;
    }
    assert(texts(r@) =~= id@.path.skip(n as int));
    r
}

/// Asks the peer over the connection numbered in the third step for the item
/// named by the steps after the fourth (see `peer_lookup_spec`).
fn value_raw_from_peer(id: &MizeId, instance: &Instance) -> (r: MizeResult<Fetch<ItemData>>)
    requires
        id.wf(),
        id@.path.len() >= 4,
        id@.path[3] == "peer"@,
    ensures
        fetch_matches(r, peer_lookup_spec(instance@, id@)),
{
    let conn_id = match id.nth_part(2) {
        Ok(p) => match str_to_u64(p) {
            Ok(n) => n,
            Err(e) => {
                return Err(e);
            },
        },
        Err(e) => {
            return Err(e);
        },
    };
    let new_id = match instance.id_from_vec_string(steps_from(id, 4)) {
        Ok(i) => i,
        Err(e) => {
            return Err(e);
        },
    };
    let connection = match instance.get_connection(conn_id) {
        Ok(c) => c,
        Err(e) => {
            return Err(e);
        },
    };
    proof {
        lemma_conn_index(instance@.connections, conn_id);
    }
    let msg = MizeMessage::new_get(new_id.clone(), connection.id);
    Ok(Fetch::Remote(new_id, msg))
}

/// Reads the items under `con_by_id`, which must end in `peer` at the
/// fourth step.
fn value_raw_con_by_id(id: &MizeId, instance: &Instance) -> (r: MizeResult<Fetch<ItemData>>)
    requires
        id.wf(),
        id@.path.len() >= 2,
    ensures
        fetch_matches(r, peer_lookup_spec(instance@, id@)),
{
    match id.nth_part(3) {
        Ok(p) => {
            if text_is(p, "peer") {
                value_raw_from_peer(id, instance)
            } else {
                Err(MizeError::new().msg("that id path is not supported"))
            }
        },
        Err(e) => Err(e),
    }
}

/// What the instance tells of itself under the second step of `id`, if it
/// answers that step (see `about_instance_spec`).
fn about_instance(id: &MizeId, instance: &Instance) -> (r: Option<MizeResult<Fetch<ItemData>>>)
    requires
        id.wf(),
        id@.path.len() >= 2,
    ensures
        match about_instance_spec(instance@, id@) {
            Some(f) => r matches Some(x) && fetch_matches(x, f),
            None => r is None,
        },
{
    let step = id.path[1].as_str();
    if text_is(step, "con_by_id") {
        Some(value_raw_con_by_id(id, instance))
    } else if text_is(step, "namespace") {
        match instance.get_namespace() {
            Ok(ns) => Some(Ok(Fetch::Ready(ItemData::from_string(ns.0.as_str())))),
            Err(e) => Some(Err(e)),
        }
    } else if text_is(step, "self_namespace") {
        match instance.get_self_namespace() {
            Ok(ns) => Some(Ok(Fetch::Ready(ItemData::from_string(ns.0.as_str())))),
            Err(e) => Some(Err(e)),
        }
    } else {
        None
    }
}

impl Item {
    /// The data of this item (see `lookup_spec`).
    pub fn as_data_full(&self, instance: &Instance) -> (r: MizeResult<Fetch<ItemData>>)
        requires
            self.id.wf(),
        ensures
            fetch_matches(r, lookup_spec(instance@, self@)),
    {
        let id = &self.id;
        if text_is(id.store_part(), "self") {
            if id.path.len() < 2 {
                return Err(MizeError::new().msg("a /self path needs a second step"));
            }
            return match about_instance(id, instance) {
                Some(x) => x,
                None => Err(
                    MizeError::new().msg(
                        "a /self path, but the next element in the path is not valid",
                    ),
                ),
            };
        }
        let self_ns = match instance.get_self_namespace() {
            Ok(n) => n,
            Err(e) => {
                return Err(e);
            },
        };
        if id.namespace.0 == self_ns.0 {
            if text_is(id.store_part(), "inst") {
                if id.path.len() < 2 {
                    return Err(MizeError::new().msg("an /inst path needs a second step"));
                }
                match about_instance(id, instance) {
                    Some(x) => {
                        return x;
                    },
                    None => {},
                }
            }
            match instance.store().get_value_data_full(id) {
                Ok(d) => Ok(Fetch::Ready(d)),
                Err(e) => Err(e),
            }
        } else {
            let connection = match instance.get_connection_by_ns(&id.namespace) {
                Ok(c) => c,
                Err(e) => {
                    return Err(e);
                },
            };
            let msg = MizeMessage::new_get(id.clone(), connection.id);
            Ok(Fetch::Remote(id.clone(), msg))
        }
    }
}

/// The message of command number `cmd` about `id`, with `data` where given,
/// on connection `c`.
pub open spec fn msg_spec(cmd: i128, id: IdView, data: Option<Cbor>, c: u64) -> MessageView {
    MessageView { value: message_value(cmd as int, Some(id.path), data), conn_id: c }
}

/// Work handed to the instance: set data at an id (coming from a connection,
/// where the connection's peer sent it), or handle a message.
#[derive(Debug)]
pub enum Operation {
    Write(MizeId, ItemData, Option<Connection>),
    Msg(MizeMessage),
}

/// What to do once the data asked of a peer has come back.
#[derive(Debug)]
pub enum Pending {
    /// Merge the value into the data of the id; from the connection given,
    /// and telling the subscribers after where the flag is set.
    Merge(MizeId, ItemData, Option<u64>, bool),
    /// Answer a get over the connection with a give.
    Give(MizeId, u64),
    /// Tell the subscriber over the connection the new data.
    Update(MizeId, u64),
    /// Answer a create over the connection with the id of the new item.
    CreateReply(u64),
    /// The data is the namespace of the peer over the connection.
    JoinNamespace(u64),
}

/// What the instance asks of the world outside.
#[derive(Debug)]
pub enum Action {
    /// Send the message over its connection.
    Send(MizeMessage),
    /// Tell the listener that the item changed.
    Notify(u64, MizeId),
    /// Hand the operation back to the instance later.
    Queue(Operation),
    /// Hand the data to those waiting for a give of the id.
    Give(MizeId, ItemData),
    /// Hand the id to the one waiting for a create reply.
    Created(MizeId),
    /// Wait for a give of the id, send the request, and resume with the data.
    Fetch(MizeId, MizeMessage, Pending),
    /// Wait for a create reply, send the request, and resume with the id.
    AwaitCreate(MizeMessage, Pending),
}

pub enum OperationView {
    Write(IdView, Cbor, Option<u64>),
    Msg(MessageView),
}

pub enum PendingView {
    Merge(IdView, Cbor, Option<u64>, bool),
    Give(IdView, u64),
    Update(IdView, u64),
    CreateReply(u64),
    JoinNamespace(u64),
}

pub enum ActionView {
    Send(MessageView),
    Notify(u64, IdView),
    Queue(OperationView),
    Give(IdView, Cbor),
    Created(IdView),
    Fetch(IdView, MessageView, PendingView),
    AwaitCreate(MessageView, PendingView),
}

impl View for Operation {
    type V = OperationView;

    open spec fn view(&self) -> OperationView {
        match self {
            Operation::Write(id, d, c) => OperationView::Write(
                id@,
                d@,
                match c {
                    Some(x) => Some(x.id),
                    None => None,
                },
            ),
            Operation::Msg(m) => OperationView::Msg(m@),
        }
    }
}

impl View for Pending {
    type V = PendingView;

    open spec fn view(&self) -> PendingView {
        match self {
            Pending::Merge(id, d, c, t) => PendingView::Merge(id@, d@, *c, *t),
            Pending::Give(id, c) => PendingView::Give(id@, *c),
            Pending::Update(id, c) => PendingView::Update(id@, *c),
            Pending::CreateReply(c) => PendingView::CreateReply(*c),
            Pending::JoinNamespace(c) => PendingView::JoinNamespace(*c),
        }
    }
}

impl View for Action {
    type V = ActionView;

    open spec fn view(&self) -> ActionView {
        match self {
            Action::Send(m) => ActionView::Send(m@),
            Action::Notify(n, id) => ActionView::Notify(*n, id@),
            Action::Queue(o) => ActionView::Queue(o@),
            Action::Give(id, d) => ActionView::Give(id@, d@),
            Action::Created(id) => ActionView::Created(id@),
            Action::Fetch(id, m, p) => ActionView::Fetch(id@, m@, p@),
            Action::AwaitCreate(m, p) => ActionView::AwaitCreate(m@, p@),
        }
    }
}

/// The models of a list of actions.
pub open spec fn actions_view(a: Seq<Action>) -> Seq<ActionView> {
    Seq::new(a.len(), |i: int| a[i]@)
}

/// What merging `v` into the data `d` of `id` comes to: where the instance
/// works in its own namespace, the store after the merge is written; else an
/// update request with the merge for the owner of the namespace of `id`.
pub enum MergeSpec {
    Fails,
    Stored(Map<u64, Cbor>),
    Request(u64, Cbor),
}

pub open spec fn merge_write_spec(s: InstanceView, id: IdView, d: Cbor, v: Cbor) -> MergeSpec {
    let m = merge_spec(d, v);
    if s.namespace == s.self_namespace {
        match write_spec(s.store.items, id, m) {
            Some(items) => MergeSpec::Stored(items),
            None => MergeSpec::Fails,
        }
    } else {
        let i = conn_index_by_ns(s.connections, id.namespace);
        if i < s.connections.len() {
            MergeSpec::Request(s.connections[i].id, m)
        } else {
            MergeSpec::Fails
        }
    }
}

/// The instance with its store holding `items`.
pub open spec fn with_items(s: InstanceView, items: Map<u64, Cbor>) -> InstanceView {
    InstanceView { store: StoreView { items, ..s.store }, ..s }
}

/// What telling one subscriber of a change of `id` asks for: nothing for a
/// connection the change came from, or where the data cannot be read; an
/// update message, or a fetch of the data first, for a connection; a note to
/// a listener.
pub open spec fn sub_action(sub: Subscription, id: IdView, origin: Option<u64>, f: FoundSpec) -> Seq<
    ActionView,
> {
    match sub {
        Subscription::Connection(c) => if origin == Some(c) {
            Seq::empty()
        } else {
            match f {
                FoundSpec::Local(d) => seq![ActionView::Send(msg_spec(crate::proto::CMD_UPDATE, id, Some(d), c))],
                FoundSpec::Remote(w, cc) => seq![
                    ActionView::Fetch(w, get_msg_spec(w, cc), PendingView::Update(id, c)),
                ],
                FoundSpec::Fails => Seq::empty(),
            }
        },
        Subscription::Listener(n) => seq![ActionView::Notify(n, id)],
    }
}

/// What telling the subscribers `subs` of a change of `id` asks for, in order.
pub open spec fn sub_actions(subs: Seq<Subscription>, id: IdView, origin: Option<u64>, f: FoundSpec) -> Seq<
    ActionView,
>
    decreases subs.len(),
{
    if subs.len() == 0 {
        Seq::empty()
    } else {
        sub_actions(subs.drop_last(), id, origin, f) + sub_action(subs.last(), id, origin, f)
    }
}

/// What setting `v` at `id`, whose data is `d`, does to the instance, and
/// what it asks for; no actions where it fails.
pub open spec fn finish_set_spec(
    s: InstanceView,
    id: IdView,
    d: Cbor,
    v: Cbor,
    origin: Option<u64>,
    notify: bool,
) -> (InstanceView, Option<Seq<ActionView>>) {
    match merge_write_spec(s, id, d, v) {
        MergeSpec::Fails => (s, None),
        MergeSpec::Stored(items) => {
            let s2 = with_items(s, items);
            (
                s2,
                Some(
                    if notify {
                        sub_actions(subs_for(s2, id), id, origin, lookup_spec(s2, id))
                    } else {
                        Seq::empty()
                    },
                ),
            )
        },
        MergeSpec::Request(c, m) => (
            s,
            Some(
                seq![ActionView::Send(msg_spec(crate::proto::CMD_UPDATE_REQUEST, id, Some(m), c))]
                    + if notify {
                    sub_actions(subs_for(s, id), id, origin, lookup_spec(s, id))
                } else {
                    Seq::empty()
                },
            ),
        ),
    }
}

/// What setting `v` at `id` does: the data of `id` is read first, and
/// fetched from its owner where it lives with a peer.
pub open spec fn set_spec(s: InstanceView, id: IdView, v: Cbor, origin: Option<u64>, notify: bool) -> (
    InstanceView,
    Option<Seq<ActionView>>,
) {
    if id.path.len() == 0 {
        (s, None)
    } else {
        match lookup_spec(s, id) {
            FoundSpec::Fails => (s, None),
            FoundSpec::Local(d) => finish_set_spec(s, id, d, v, origin, notify),
            FoundSpec::Remote(w, c) => (
                s,
                Some(
                    seq![
                        ActionView::Fetch(w, get_msg_spec(w, c), PendingView::Merge(id, v, origin, notify)),
                    ],
                ),
            ),
        }
    }
}

/// Whether the result and the new instance are what `spec` says.
pub open spec fn outcome_matches(
    r: MizeResult<Vec<Action>>,
    after: InstanceView,
    spec: (InstanceView, Option<Seq<ActionView>>),
) -> bool {
    &&& after == spec.0
    &&& match spec.1 {
        Some(a) => r matches Ok(v) && actions_view(v@) == a,
        None => r is Err,
    }
}

/// Tells the subscribers to the item of a change (see `sub_actions`).
fn notify_subs(instance: &Instance, item: &Item, origin: Option<u64>) -> (r: Vec<Action>)
    requires
        item.id.wf(),
    ensures
        actions_view(r@) == sub_actions(
            subs_for(instance@, item@),
            item@,
            origin,
            lookup_spec(instance@, item@),
        ),
{
    let subs = instance.subs_of(&item.id);
    let found = item.as_data_full(instance);
    let ghost f = lookup_spec(instance@, item@);
    let mut out: Vec<Action> = Vec::new();
    let mut i: usize = 0;
    assert(subs@.take(0) =~= Seq::<Subscription>::empty());
    while i < subs.len()
        invariant
            i <= subs@.len(),
            fetch_matches(found, f),
            item.id.wf(),
            actions_view(out@) == sub_actions(subs@.take(i as int), item@, origin, f),
        decreases subs@.len() - i,
    {
        let ghost before = out@;
        let sub = subs[i];
        match sub {
            Subscription::Connection(c) => {
                let skip = match origin {
                    Some(o) => o == c,
                    None => false,
                };
                if !skip {
                    match &found {
                        Ok(Fetch::Ready(d)) => {
                            out.push(
                                Action::Send(MizeMessage::new_update(item.id.clone(), d.clone(), c)),
                            );
                        },
                        Ok(Fetch::Remote(w, m)) => {
                            out.push(
                                Action::Fetch(w.clone(), m.clone(), Pending::Update(item.id.clone(), c)),
                            );
                        },
                        Err(_) => {},
                    }
                }
            },
            Subscription::Listener(n) => {
                out.push(Action::Notify(n, item.id.clone()));
            },
        }
        proof {
            assert(subs@.take(i + 1).drop_last() =~= subs@.take(i as int));
            assert(subs@.take(i + 1).last() == sub);
            assert(actions_view(out@) =~= actions_view(before) + sub_action(sub, item@, origin, f));
        }
        i = i + 1;
    }
    assert(subs@.take(subs@.len() as int) =~= subs@);
    out
}

impl Item {
    /// Merges `value` into `current`, the data of this item, and writes the
    /// result where the instance owns the item, or asks the owner to (see
    /// `merge_write_spec`).
    pub fn merge_into(&self, instance: &mut Instance, current: ItemData, value: ItemData) -> (r:
        MizeResult<Option<MizeMessage>>)
        requires
            self.id.wf(),
        ensures
            match merge_write_spec(old(instance)@, self@, current@, value@) {
                MergeSpec::Fails => r is Err && final(instance)@ == old(instance)@,
                MergeSpec::Stored(items) => r matches Ok(None) && final(instance)@ == with_items(
                    old(instance)@,
                    items,
                ),
                MergeSpec::Request(c, m) => r matches Ok(Some(msg)) && msg@ == msg_spec(
                    crate::proto::CMD_UPDATE_REQUEST,
                    self@,
                    Some(m),
                    c,
                ) && final(instance)@ == old(instance)@,
            },
    {
        let mut data = current;
        data.merge(value);
        let ours = match instance.we_are_namespace() {
            Ok(b) => b,
            Err(e) => {
                return Err(e);
            },
        };
        if ours {
            match instance.store_set(&self.id, data) {
                Ok(_) => {
                    assert(final(instance)@ =~= with_items(old(instance)@, final(instance)@.store.items));
                    Ok(None)
                },
                Err(e) => Err(e),
            }
        } else {
            let connection = match instance.get_connection_by_ns(&self.id.namespace) {
                Ok(c) => c,
                Err(e) => {
                    return Err(e);
                },
            };
            Ok(Some(MizeMessage::new_update_request(self.id.clone(), data, connection.id)))
        }
    }

    /// Merges `value` into the data of this item (see `set_spec`, without
    /// telling the subscribers).
    pub fn merge(&self, instance: &mut Instance, value: ItemData) -> (r: MizeResult<Vec<Action>>)
        requires
            self.id.wf(),
        ensures
            outcome_matches(r, final(instance)@, set_spec(old(instance)@, self@, value@, None, false)),
    {
        match self.as_data_full(instance) {
            Err(e) => Err(e),
            Ok(Fetch::Remote(w, m)) => {
                let mut v: Vec<Action> = Vec::new();
                v.push(Action::Fetch(w, m, Pending::Merge(self.id.clone(), value, None, false)));
                assert(actions_view(v@) =~= set_spec(old(instance)@, self@, value@, None, false).1->Some_0);
                Ok(v)
            },
            Ok(Fetch::Ready(d)) => self.finish_set(instance, d, value, None, false),
        }
    }

    /// Merges `value` into `current`, the data of this item, and tells the
    /// subscribers where `notify` is set (see `finish_set_spec`).
    fn finish_set(
        &self,
        instance: &mut Instance,
        current: ItemData,
        value: ItemData,
        origin: Option<u64>,
        notify: bool,
    ) -> (r: MizeResult<Vec<Action>>)
        requires
            self.id.wf(),
        ensures
            outcome_matches(
                r,
                final(instance)@,
                finish_set_spec(old(instance)@, self@, current@, value@, origin, notify),
            ),
    {
        let mut out: Vec<Action> = Vec::new();
        match self.merge_into(instance, current, value) {
            Err(e) => {
                return Err(e);
            },
            Ok(Some(msg)) => {
                out.push(Action::Send(msg));
            },
            Ok(None) => {},
        }
        if notify {
            let ghost before = out@;
            let mut tell = notify_subs(instance, self, origin);
            out.append(&mut tell);
            assert(actions_view(out@) =~= actions_view(before) + sub_actions(
                subs_for(final(instance)@, self@),
                self@,
                origin,
                lookup_spec(final(instance)@, self@),
            ));
        }
        proof {
            let sp = finish_set_spec(old(instance)@, self@, current@, value@, origin, notify);
            assert(actions_view(out@) =~= sp.1->Some_0);
        }
        Ok(out)
    }
}


/// The id of the item numbered `n` in namespace `ns`.
pub open spec fn numbered_id(n: u64, ns: Seq<char>) -> IdView {
    IdView { path: seq![decimal(n as nat)], namespace: ns }
}

/// The decimal text of a number reads as the id of the item of that number.
pub proof fn lemma_numbered_id(n: u64, ns: Seq<char>)
    ensures
        id_from_text_spec(decimal(n as nat), ns) == Some(numbered_id(n, ns)),
{
    let d = decimal(n as nat);
    lemma_decimal_digits(n as nat);
    assert(!d.contains('/')) by {
        if d.contains('/') {
            let i = choose|i: int| 0 <= i < d.len() && d[i] == '/';
            assert(is_digit(d[i]));
        }
    }
    assert(!d.contains(':')) by {
        if d.contains(':') {
            let i = choose|i: int| 0 <= i < d.len() && d[i] == ':';
            assert(is_digit(d[i]));
        }
    }
    lemma_split_without_sep(d, '/');
    let v = seq![d];
    assert(v.drop_last() =~= Seq::<Seq<char>>::empty());
    assert(non_empty(v.drop_last()) =~= Seq::<Seq<char>>::empty());
    assert(non_empty(v) =~= v);
}

/// What asking for a new item does: where the instance works in another
/// namespace, the owner of that namespace is asked to create it and a reply
/// is awaited; else the store hands out its next number.
pub enum NewItemSpec {
    Fails,
    Remote(u64),
    Local(u64),
}

pub open spec fn new_item_spec(s: InstanceView) -> NewItemSpec {
    if s.namespace != s.self_namespace {
        let i = conn_index_by_ns(s.connections, s.namespace);
        if i < s.connections.len() {
            NewItemSpec::Remote(s.connections[i].id)
        } else {
            NewItemSpec::Fails
        }
    } else if s.store.next_id == u64::MAX {
        NewItemSpec::Fails
    } else {
        NewItemSpec::Local(s.store.next_id)
    }
}

/// The instance after asking for a new item.
pub open spec fn after_new_item(s: InstanceView) -> InstanceView {
    match new_item_spec(s) {
        NewItemSpec::Fails => s,
        NewItemSpec::Remote(_) => InstanceView { create_wait: true, ..s },
        NewItemSpec::Local(n) => InstanceView {
            store: StoreView { next_id: (n + 1) as u64, ..s.store },
            ..s
        },
    }
}

/// The message that asks the peer over `c` to create an item.
pub open spec fn create_msg_spec(c: u64) -> MessageView {
    MessageView { value: message_value(crate::proto::CMD_CREATE as int, None, None), conn_id: c }
}

/// A new item, or the request to send to the owner of the namespace before
/// waiting for its reply.
pub enum NewItem {
    Ready(Item),
    Remote(MizeMessage),
}

/// What subscribing `sub` to `id` does: the subscription is recorded, and
/// where the instance works in another namespace, the owner of the
/// namespace of `id` is asked for the updates.
pub open spec fn sub_spec(s: InstanceView, id: IdView, sub: Subscription) -> (
    InstanceView,
    Option<Seq<ActionView>>,
) {
    let s2 = InstanceView { subs: add_sub_spec(s.subs, id, sub), ..s };
    if s.namespace == s.self_namespace {
        (s2, Some(Seq::empty()))
    } else {
        let i = conn_index_by_ns(s.connections, id.namespace);
        if i < s.connections.len() {
            (s2, Some(seq![ActionView::Send(msg_spec(crate::proto::CMD_SUB, id, None, s.connections[i].id))]))
        } else {
            (s2, None)
        }
    }
}

impl Instance {
    /// Asks for a new item (see `new_item_spec`).
    pub fn new_item(&mut self) -> (r: MizeResult<NewItem>)
        ensures
            final(self)@ == after_new_item(old(self)@),
            match new_item_spec(old(self)@) {
                NewItemSpec::Fails => r is Err,
                NewItemSpec::Remote(c) => r matches Ok(NewItem::Remote(m)) && m@ == create_msg_spec(c),
                NewItemSpec::Local(n) => r matches Ok(NewItem::Ready(item)) && item@ == numbered_id(
                    n,
                    old(self)@.namespace,
                ) && item.id.wf() && (!old(self)@.store.items.contains_key(n) ==> read_spec(
                    final(self)@.store.items,
                    item@,
                ) == Some(Cbor::Null)),
            },
    {
        let ours = match self.we_are_namespace() {
            Ok(b) => b,
            Err(e) => {
                return Err(e);
            },
        };
        if !ours {
            let ns = match self.get_namespace() {
                Ok(n) => n,
                Err(e) => {
                    return Err(e);
                },
            };
            let connection = match self.get_connection_by_ns(&ns) {
                Ok(c) => c,
                Err(e) => {
                    return Err(e);
                },
            };
            let msg = MizeMessage::new_create(connection.id);
            self.create_msg_wait();
            return Ok(NewItem::Remote(msg));
        }
        let ghost n = self@.store.next_id;
        let text = match self.store_new_id() {
            Ok(t) => t,
            Err(e) => {
                return Err(e);
            },
        };
        proof {
            lemma_numbered_id(n, self@.namespace);
            crate::instance::lemma_numbered_access(self@.store.items, n, self@.namespace, Cbor::Null);
        }
        match self.id_from_string(text.as_str()) {
            Ok(id) => Ok(NewItem::Ready(Item { id })),
            Err(e) => Err(e),
        }
    }

    /// Subscribes `sub` to the item `id` (see `sub_spec`).
    pub fn sub(&mut self, id: MizeId, sub: Subscription) -> (r: MizeResult<Vec<Action>>)
        ensures
            outcome_matches(r, final(self)@, sub_spec(old(self)@, id@, sub)),
    {
        let ghost s = self@;
        let target = id.clone();
        self.add_sub(id, sub);
        let ours = match self.we_are_namespace() {
            Ok(b) => b,
            Err(e) => {
                return Err(e);
            },
        };
        let mut out: Vec<Action> = Vec::new();
        if !ours {
            let con = match self.get_connection_by_ns(&target.namespace) {
                Ok(c) => c,
                Err(e) => {
                    return Err(e);
                },
            };
            out.push(Action::Send(MizeMessage::new_sub(target, con.id)));
        }
        assert(actions_view(out@) =~= sub_spec(s, id@, sub).1->Some_0);
        Ok(out)
    }

    /// Sets `value` at `id` now, and tells the subscribers (see `set_spec`).
    pub fn set_blocking<I: IntoMizeId, V: IntoItemData>(&mut self, id: I, value: V) -> (r:
        MizeResult<Vec<Action>>)
        ensures
            match id.id_view(old(self)@.namespace) {
                Some(iv) => outcome_matches(
                    r,
                    final(self)@,
                    set_spec(old(self)@, iv, value.data_view(), None, true),
                ),
                None => r is Err && final(self)@ == old(self)@,
            },
    {
        let id = match id.to_mize_id(self) {
            Ok(i) => i,
            Err(e) => {
                return Err(e);
            },
        };
        handle_operation(Operation::Write(id, value.into_item_data(), None), self)
    }

    /// The operation that sets `value` at `id`, to be handled later.
    pub fn set<I: IntoMizeId, V: IntoItemData>(&self, id: I, value: V) -> (r: MizeResult<Operation>)
        ensures
            match id.id_view(self@.namespace) {
                Some(iv) => r matches Ok(o) && o@ == OperationView::Write(iv, value.data_view(), None),
                None => r is Err,
            },
    {
        let id = match id.to_mize_id(self) {
            Ok(i) => i,
            Err(e) => {
                return Err(e);
            },
        };
        Ok(Operation::Write(id, value.into_item_data(), None))
    }

    /// An instance built with `build_config` (see `Instance::empty`) into
    /// whose item 0 `config` is then set: item 0 holds `config` merged into
    /// the build configuration.
    pub fn with_config(build_config: ItemData, config: ItemData) -> (r: MizeResult<Instance>)
        ensures
            r matches Ok(i) && i@.store.items == map![0u64 => merge_spec(build_config@, config@)]
                && i@.store.next_id == 1 && i@.subs.len() == 0 && i@.connections.len() == 0
                && i@.namespace == i@.self_namespace,
    {
        let ghost b = build_config@;
        let mut instance = match Instance::empty(build_config) {
            Ok(i) => i,
            Err(e) => {
                return Err(e);
            },
        };
        let ghost s = instance@;
        let mut id_steps: Vec<String> = Vec::new();
        id_steps.push(String::from_str("0"));
        proof {
            reveal_strlit("0");
            reveal_strlit("self");
            reveal_strlit("inst");
            reveal_strlit("mize.default.namespace");
            assert(texts(id_steps@) =~= seq!["0"@]);
            assert(!"0"@.contains(':')) by {
                if "0"@.contains(':') {
                    let i = choose|i: int| 0 <= i < "0"@.len() && "0"@[i] == ':';
                    assert(i == 0);
                }
            }
        }
        let id = match instance.id_from_vec_string(id_steps) {
            Ok(i) => i,
            Err(e) => {
                return Err(e);
            },
        };
        proof {
            assert(id@.path =~= seq!["0"@]);
            assert(store_key_spec("0"@) == Some(0u64)) by {
                assert(all_digits("0"@));
                assert("0"@.drop_last() =~= Seq::<char>::empty());
                assert("0"@.last() == '0');
                assert(digits_value("0"@.drop_last()) == 0);
                assert(digits_value("0"@) == 0);
            }
            assert(id@.path.skip(1) =~= Seq::<Seq<char>>::empty());
            assert(s.store.items.contains_key(0u64));
            assert(read_spec(s.store.items, id@) == Some(b));
            assert(lookup_spec(s, id@) == FoundSpec::Local(b));
            assert(write_spec(s.store.items, id@, merge_spec(b, config@)) == Some(
                s.store.items.insert(0u64, merge_spec(b, config@)),
            ));
        }
        let _ = handle_operation(Operation::Write(id, config, None), &mut instance);
        assert(instance@.store.items =~= map![0u64 => merge_spec(b, config@)]);
        Ok(instance)
    }
}

impl MizeMessage {
    /// The id of this message, read in the namespace of `instance`.
    pub fn id(&self, instance: &Instance) -> (r: MizeResult<MizeId>)
        ensures
            match msg_id_spec(instance@, self@) {
                Some(i) => r matches Ok(x) && x@ == i && x.wf(),
                None => r is Err,
            },
    {
        match self.id_str() {
            Ok(v) => instance.id_from_vec_string(v),
            Err(e) => Err(e),
        }
    }
}

/// The id a message names, read in the namespace of the instance.
pub open spec fn msg_id_spec(s: InstanceView, m: MessageView) -> Option<IdView> {
    match id_spec(m.value) {
        Some(p) => id_from_steps_spec(p, s.namespace),
        None => None,
    }
}

/// Whether a connection numbered `c` is known.
pub open spec fn conn_known(s: InstanceView, c: u64) -> bool {
    conn_index(s.connections, c) < s.connections.len()
}

/// What answering a get of `id` over connection `c` asks for.
pub open spec fn give_answer(s: InstanceView, id: IdView, c: u64) -> Option<Seq<ActionView>> {
    match lookup_spec(s, id) {
        FoundSpec::Local(d) => Some(seq![ActionView::Send(msg_spec(crate::proto::CMD_GIVE, id, Some(d), c))]),
        FoundSpec::Remote(w, cc) => Some(seq![ActionView::Fetch(w, get_msg_spec(w, cc), PendingView::Give(id, c))]),
        FoundSpec::Fails => None,
    }
}

/// What handling a message does to the instance and asks for, by command:
/// a get is answered with a give; a get-sub also subscribes the connection;
/// a sub subscribes it; an update or an update request becomes a write
/// queued from the connection; a give goes to those waiting for it; a create
/// makes a new item and replies with its id; a create reply goes to the one
/// waiting for it.  The connection must be known where the answer goes over it.
pub open spec fn handle_msg_spec(s: InstanceView, m: MessageView) -> (
    InstanceView,
    Option<Seq<ActionView>>,
) {
    match cmd_spec(m.value) {
        None => (s, None),
        Some(MessageCmd::Get) => match msg_id_spec(s, m) {
            None => (s, None),
            Some(id) => if conn_known(s, m.conn_id) {
                (s, give_answer(s, id, m.conn_id))
            } else {
                (s, None)
            },
        },
        Some(MessageCmd::GetSub) => match msg_id_spec(s, m) {
            None => (s, None),
            Some(id) => if !conn_known(s, m.conn_id) {
                (s, None)
            } else {
                match give_answer(s, id, m.conn_id) {
                    None => (s, None),
                    Some(a) => {
                        let t = sub_spec(s, id, Subscription::Connection(m.conn_id));
                        (
                            t.0,
                            match t.1 {
                                Some(b) => Some(a + b),
                                None => None,
                            },
                        )
                    },
                }
            },
        },
        Some(MessageCmd::Sub) => match msg_id_spec(s, m) {
            None => (s, None),
            Some(id) => if conn_known(s, m.conn_id) {
                sub_spec(s, id, Subscription::Connection(m.conn_id))
            } else {
                (s, None)
            },
        },
        Some(MessageCmd::Update) | Some(MessageCmd::UpdateRequest) => match (
            data_spec(m.value),
            msg_id_spec(s, m),
        ) {
            (Some(d), Some(id)) => if conn_known(s, m.conn_id) {
                (s, Some(seq![ActionView::Queue(OperationView::Write(id, d, Some(m.conn_id)))]))
            } else {
                (s, None)
            },
            _ => (s, None),
        },
        Some(MessageCmd::Give) => match (msg_id_spec(s, m), data_spec(m.value)) {
            (Some(id), Some(d)) => if s.give_waits.contains(id) {
                (s, Some(seq![ActionView::Give(id, d)]))
            } else {
                (s, Some(Seq::empty()))
            },
            _ => (s, None),
        },
        Some(MessageCmd::Create) => {
            let s2 = after_new_item(s);
            match new_item_spec(s) {
                NewItemSpec::Fails => (s2, None),
                NewItemSpec::Remote(c) => (
                    s2,
                    Some(seq![ActionView::AwaitCreate(create_msg_spec(c), PendingView::CreateReply(m.conn_id))]),
                ),
                NewItemSpec::Local(n) => if conn_known(s2, m.conn_id) {
                    (
                        s2,
                        Some(
                            seq![ActionView::Send(msg_spec(crate::proto::CMD_CREATE_REPLY, numbered_id(n, s.namespace), None, m.conn_id))],
                        ),
                    )
                } else {
                    (s2, None)
                },
            }
        },
        Some(MessageCmd::CreateReply) => if s.create_wait {
            match msg_id_spec(s, m) {
                Some(id) => (s, Some(seq![ActionView::Created(id)])),
                None => (s, None),
            }
        } else {
            (s, Some(Seq::empty()))
        },
    }
}

/// What an operation does (see `set_spec` and `handle_msg_spec`).
pub open spec fn operation_spec(s: InstanceView, o: OperationView) -> (
    InstanceView,
    Option<Seq<ActionView>>,
) {
    match o {
        OperationView::Write(id, v, origin) => set_spec(s, id, v, origin, true),
        OperationView::Msg(m) => handle_msg_spec(s, m),
    }
}

fn one(a: Action) -> (r: Vec<Action>)
    ensures
        actions_view(r@) == seq![a@],
{
    let mut v: Vec<Action> = Vec::new();
    v.push(a);
    assert(actions_view(v@) =~= seq![a@]);
    v
}

/// Handles an operation (see `operation_spec`).
pub fn handle_operation(operation: Operation, instance: &mut Instance) -> (r: MizeResult<Vec<Action>>)
    ensures
        outcome_matches(r, final(instance)@, operation_spec(old(instance)@, operation@)),
{
    match operation {
        Operation::Write(id, value, maybe_conn) => {
            if id.path.len() == 0 {
                return Err(MizeError::new().msg("MizeId was empty"));
            }
            let origin = match &maybe_conn {
                Some(c) => Some(c.id),
                None => None,
            };
            let item = Item { id };
            match item.as_data_full(instance) {
                Err(e) => Err(e),
                Ok(Fetch::Remote(w, m)) => Ok(
                    one(Action::Fetch(w, m, Pending::Merge(item.id.clone(), value, origin, true))),
                ),
                Ok(Fetch::Ready(d)) => item.finish_set(instance, d, value, origin, true),
            }
        },
        Operation::Msg(msg) => handle_msg(&msg, instance),
    }
}

/// Answers a get of `id` over connection `c` (see `give_answer`).
fn answer_get(instance: &Instance, id: &MizeId, c: u64) -> (r: MizeResult<Vec<Action>>)
    requires
        id.wf(),
    ensures
        match give_answer(instance@, id@, c) {
            Some(a) => r matches Ok(v) && actions_view(v@) == a,
            None => r is Err,
        },
{
    let item = Item { id: id.clone() };
    match item.as_data_full(instance) {
        Err(e) => Err(e),
        Ok(Fetch::Ready(d)) => Ok(one(Action::Send(MizeMessage::new_give(id.clone(), d, c)))),
        Ok(Fetch::Remote(w, m)) => Ok(one(Action::Fetch(w, m, Pending::Give(id.clone(), c)))),
    }
}

/// Handles a message (see `handle_msg_spec`).
pub fn handle_msg(msg: &MizeMessage, instance: &mut Instance) -> (r: MizeResult<Vec<Action>>)
    ensures
        outcome_matches(r, final(instance)@, handle_msg_spec(old(instance)@, msg@)),
{
    let cmd = match msg.cmd() {
        Ok(c) => c,
        Err(e) => {
            return Err(e);
        },
    };
    match cmd {
        MessageCmd::Get => {
            let id = match msg.id(instance) {
                Ok(i) => i,
                Err(e) => {
                    return Err(e);
                },
            };
            match instance.get_connection(msg.conn_id()) {
                Ok(_) => {},
                Err(e) => {
                    return Err(e);
                },
            }
            answer_get(instance, &id, msg.conn_id())
        },
        MessageCmd::GetSub => {
            let id = match msg.id(instance) {
                Ok(i) => i,
                Err(e) => {
                    return Err(e);
                },
            };
            let connection = match instance.get_connection(msg.conn_id()) {
                Ok(c) => c,
                Err(e) => {
                    return Err(e);
                },
            };
            proof {
                lemma_conn_index(instance@.connections, msg@.conn_id);
            }
            let mut out = match answer_get(instance, &id, msg.conn_id()) {
                Ok(v) => v,
                Err(e) => {
                    return Err(e);
                },
            };
            let ghost a = out@;
            let mut more = match instance.sub(id, Subscription::from_conn(&connection)) {
                Ok(v) => v,
                Err(e) => {
                    return Err(e);
                },
            };
            let ghost b = more@;
            out.append(&mut more);
            assert(actions_view(out@) =~= actions_view(a) + actions_view(b));
            Ok(out)
        },
        MessageCmd::Sub => {
            let id = match msg.id(instance) {
                Ok(i) => i,
                Err(e) => {
                    return Err(e);
                },
            };
            let connection = match instance.get_connection(msg.conn_id()) {
                Ok(c) => c,
                Err(e) => {
                    return Err(e);
                },
            };
            proof {
                lemma_conn_index(instance@.connections, msg@.conn_id);
            }
            instance.sub(id, Subscription::from_conn(&connection))
        },
        MessageCmd::Update | MessageCmd::UpdateRequest => {
            let data = match msg.data() {
                Ok(d) => d,
                Err(e) => {
                    return Err(e);
                },
            };
            let id = match msg.id(instance) {
                Ok(i) => i,
                Err(e) => {
                    return Err(e);
                },
            };
            let connection = match instance.get_connection(msg.conn_id()) {
                Ok(c) => c,
                Err(e) => {
                    return Err(e);
                },
            };
            proof {
                lemma_conn_index(instance@.connections, msg@.conn_id);
            }
            Ok(one(Action::Queue(Operation::Write(id, data, Some(connection)))))
        },
        MessageCmd::Give => {
            let id = match msg.id(instance) {
                Ok(i) => i,
                Err(e) => {
                    return Err(e);
                },
            };
            let data = match msg.data() {
                Ok(d) => d,
                Err(e) => {
                    return Err(e);
                },
            };
            if instance.is_waited_for(&id) {
                Ok(one(Action::Give(id, data)))
            } else {
                let v: Vec<Action> = Vec::new();
                assert(actions_view(v@) =~= Seq::<ActionView>::empty());
                Ok(v)
            }
        },
        MessageCmd::Create => {
            let made = match instance.new_item() {
                Ok(m) => m,
                Err(e) => {
                    return Err(e);
                },
            };
            match made {
                NewItem::Remote(m) => Ok(one(Action::AwaitCreate(m, Pending::CreateReply(msg.conn_id())))),
                NewItem::Ready(item) => {
                    match instance.get_connection(msg.conn_id()) {
                        Ok(_) => {},
                        Err(e) => {
                            return Err(e);
                        },
                    }
                    Ok(one(Action::Send(MizeMessage::new_create_reply(item.id, msg.conn_id()))))
                },
            }
        },
        MessageCmd::CreateReply => {
            if instance.create_waiting() {
                match msg.id(instance) {
                    Ok(id) => Ok(one(Action::Created(id))),
                    Err(e) => Err(e),
                }
            } else {
                let v: Vec<Action> = Vec::new();
                assert(actions_view(v@) =~= Seq::<ActionView>::empty());
                Ok(v)
            }
        },
    }
}


/// The text that the raw bytes of `d` encode, if they are valid UTF-8.
pub open spec fn text_of_spec(d: Cbor) -> Option<Seq<char>> {
    match raw_spec(d, Seq::empty()) {
        Some(b) => if valid_utf8(b) {
            Some(decode_utf8(b))
        } else {
            None
        },
        None => None,
    }
}

/// The instance once the peer over connection `c` is known to be in
/// namespace `ns`, which the instance then works in.
pub open spec fn joined(s: InstanceView, c: u64, ns: Seq<char>) -> InstanceView {
    let s1 = if conn_known(s, c) {
        InstanceView {
            connections: s.connections.update(conn_index(s.connections, c), ConnView { id: c, ns: Some(ns) }),
            ..s
        }
    } else {
        s
    };
    InstanceView { namespace: ns, ..s1 }
}

/// What resuming with the data `d` that was waited for does.
pub open spec fn resume_spec(s: InstanceView, p: PendingView, d: Cbor) -> (
    InstanceView,
    Option<Seq<ActionView>>,
) {
    match p {
        PendingView::Merge(id, v, origin, notify) => if id.path.len() == 0 {
            (s, None)
        } else {
            finish_set_spec(s, id, d, v, origin, notify)
        },
        PendingView::Give(id, c) => (s, Some(seq![ActionView::Send(msg_spec(crate::proto::CMD_GIVE, id, Some(d), c))])),
        PendingView::Update(id, c) => (s, Some(seq![ActionView::Send(msg_spec(crate::proto::CMD_UPDATE, id, Some(d), c))])),
        PendingView::CreateReply(_) => (s, None),
        PendingView::JoinNamespace(c) => match text_of_spec(d) {
            Some(ns) => (joined(s, c, ns), Some(Seq::empty())),
            None => (s, None),
        },
    }
}

/// What resuming with the id of a new item that was waited for does.
pub open spec fn resume_created_spec(s: InstanceView, p: PendingView, id: IdView) -> (
    InstanceView,
    Option<Seq<ActionView>>,
) {
    match p {
        PendingView::CreateReply(c) => if conn_known(s, c) {
            (s, Some(seq![ActionView::Send(msg_spec(crate::proto::CMD_CREATE_REPLY, id, None, c))]))
        } else {
            (s, None)
        },
        _ => (s, None),
    }
}

/// The raw bytes of `data` (see `raw_spec`).
pub fn data_raw(data: &ItemData) -> (r: MizeResult<Vec<u8>>)
    ensures
        match raw_spec(data@, Seq::empty()) {
            Some(b) => r matches Ok(x) && x@ == b,
            None => r is Err,
        },
{
    let path: Vec<String> = Vec::new();
    assert(texts(path@) =~= Seq::<Seq<char>>::empty());
    get_raw_from_cbor(&data.0, &path)
}

/// The text of `data` (see `text_of_spec`).
pub fn data_string(data: &ItemData) -> (r: MizeResult<String>)
    ensures
        match text_of_spec(data@) {
            Some(t) => r matches Ok(x) && x@ == t,
            None => r is Err,
        },
{
    let raw = match data_raw(data) {
        Ok(b) => b,
        Err(e) => {
            return Err(e);
        },
    };
    match string_from_utf8(raw) {
        Some(s) => Ok(s),
        None => Err(MizeError::new().msg("failed to convert the raw value of an item into a utf-8 string")),
    }
}

/// Joins the namespace `ns`, which the peer over connection `c` is in.
fn join(instance: &mut Instance, c: u64, ns: String)
    ensures
        final(instance)@ == joined(old(instance)@, c, ns@),
{
    let _ = instance.connection_set_namespace(c, Namespace(ns.clone()));
    let _ = instance.set_namespace(Namespace(ns));
}

/// Resumes with the data that was waited for (see `resume_spec`).
pub fn resume(instance: &mut Instance, pending: Pending, data: ItemData) -> (r: MizeResult<Vec<Action>>)
    ensures
        outcome_matches(r, final(instance)@, resume_spec(old(instance)@, pending@, data@)),
{
    match pending {
        Pending::Merge(id, value, origin, notify) => {
            if id.path.len() == 0 {
                return Err(MizeError::new().msg("MizeId was empty"));
            }
            let item = Item { id };
            item.finish_set(instance, data, value, origin, notify)
        },
        Pending::Give(id, c) => Ok(one(Action::Send(MizeMessage::new_give(id, data, c)))),
        Pending::Update(id, c) => Ok(one(Action::Send(MizeMessage::new_update(id, data, c)))),
        Pending::CreateReply(_) => Err(MizeError::new().msg("a create reply waits for an id, not for data")),
        Pending::JoinNamespace(c) => {
            let ns = match data_string(&data) {
                Ok(t) => t,
                Err(e) => {
                    return Err(e);
                },
            };
            join(instance, c, ns);
            let v: Vec<Action> = Vec::new();
            assert(actions_view(v@) =~= Seq::<ActionView>::empty());
            Ok(v)
        },
    }
}

/// Resumes with the id of the new item that was waited for (see
/// `resume_created_spec`).
pub fn resume_created(instance: &mut Instance, pending: Pending, id: MizeId) -> (r: MizeResult<
    Vec<Action>,
>)
    ensures
        outcome_matches(r, final(instance)@, resume_created_spec(old(instance)@, pending@, id@)),
{
    match pending {
        Pending::CreateReply(c) => {
            match instance.get_connection(c) {
                Ok(_) => {},
                Err(e) => {
                    return Err(e);
                },
            }
            Ok(one(Action::Send(MizeMessage::new_create_reply(id, c))))
        },
        _ => Err(MizeError::new().msg("only a create reply waits for an id")),
    }
}

/// The steps of the id under which the peer over connection `c` keeps its
/// namespace.
pub open spec fn peer_namespace_path(c: u64) -> Seq<Seq<char>> {
    seq!["inst"@, "con_by_id"@, decimal(c as nat), "peer"@, "0"@, "config"@, "namespace"@]
}

/// What opening a connection and joining the namespace of its peer does:
/// the namespace is read from the peer's configuration (see `resume_spec`).
pub open spec fn join_spec(s: InstanceView) -> (InstanceView, Option<Seq<ActionView>>) {
    if s.next_con_id == u64::MAX {
        (s, None)
    } else {
        let c = s.next_con_id;
        let s1 = InstanceView {
            connections: s.connections.push(ConnView { id: c, ns: None }),
            next_con_id: (c + 1) as u64,
            ..s
        };
        let id = IdView { path: peer_namespace_path(c), namespace: s1.namespace };
        match lookup_spec(s1, id) {
            FoundSpec::Fails => (s1, None),
            FoundSpec::Local(d) => resume_spec(s1, PendingView::JoinNamespace(c), d),
            FoundSpec::Remote(w, cc) => (
                s1,
                Some(seq![ActionView::Fetch(w, get_msg_spec(w, cc), PendingView::JoinNamespace(c))]),
            ),
        }
    }
}

fn push_text(v: &mut Vec<String>, t: &str)
    ensures
        texts(final(v)@) == texts(old(v)@).push(t@),
{
    let ghost before = v@;
    v.push(t.to_owned());
    assert(texts(v@) =~= texts(before).push(t@));
}

impl Instance {
    /// Opens a connection and joins the namespace of its peer (see
    /// `join_spec`); gives the number of the connection.
    pub fn new_connection_join_namespace(&mut self) -> (r: MizeResult<(u64, Vec<Action>)>)
        ensures
            final(self)@ == join_spec(old(self)@).0,
            match join_spec(old(self)@).1 {
                Some(a) => r matches Ok((c, v)) && c == old(self)@.next_con_id && actions_view(v@) == a,
                None => r is Err,
            },
    {
        let conn_id = match self.new_connection() {
            Ok(c) => c,
            Err(e) => {
                return Err(e);
            },
        };
        let mut steps: Vec<String> = Vec::new();
        push_text(&mut steps, "inst");
        push_text(&mut steps, "con_by_id");
        let num = decimal_text(conn_id);
        push_text(&mut steps, num.as_str());
        push_text(&mut steps, "peer");
        push_text(&mut steps, "0");
        push_text(&mut steps, "config");
        push_text(&mut steps, "namespace");
        proof {
            reveal_strlit("inst");
            assert(texts(steps@) =~= peer_namespace_path(conn_id));
            assert(!"inst"@.contains(':')) by {
                if "inst"@.contains(':') {
                    let i = choose|i: int| 0 <= i < "inst"@.len() && "inst"@[i] == ':';
                }
            }
        }
        let id = match self.id_from_vec_string(steps) {
            Ok(i) => i,
            Err(e) => {
                return Err(e);
            },
        };
        let item = Item { id };
        match item.as_data_full(self) {
            Err(e) => Err(e),
            Ok(Fetch::Remote(w, m)) => Ok((conn_id, one(Action::Fetch(w, m, Pending::JoinNamespace(conn_id))))),
            Ok(Fetch::Ready(d)) => {
                match resume(self, Pending::JoinNamespace(conn_id), d) {
                    Ok(v) => Ok((conn_id, v)),
                    Err(e) => Err(e),
                }
            },
        }
    }
}

impl Item {
    /// The raw bytes of this item (see `raw_spec`), or the request for its
    /// data where a peer holds it.
    pub fn value_raw(&self, instance: &Instance) -> (r: MizeResult<Fetch<Vec<u8>>>)
        requires
            self.id.wf(),
        ensures
            match lookup_spec(instance@, self@) {
                FoundSpec::Fails => r is Err,
                FoundSpec::Local(d) => match raw_spec(d, Seq::empty()) {
                    Some(b) => r matches Ok(Fetch::Ready(x)) && x@ == b,
                    None => r is Err,
                },
                FoundSpec::Remote(w, c) => r matches Ok(Fetch::Remote(wid, m)) && wid@ == w && m@
                    == get_msg_spec(w, c),
            },
    {
        match self.as_data_full(instance) {
            Err(e) => Err(e),
            Ok(Fetch::Remote(w, m)) => Ok(Fetch::Remote(w, m)),
            Ok(Fetch::Ready(d)) => match data_raw(&d) {
                Ok(b) => Ok(Fetch::Ready(b)),
                Err(e) => Err(e),
            },
        }
    }

    /// The text of this item (see `text_of_spec`), or the request for its
    /// data where a peer holds it.
    pub fn value_string(&self, instance: &Instance) -> (r: MizeResult<Fetch<String>>)
        requires
            self.id.wf(),
        ensures
            match lookup_spec(instance@, self@) {
                FoundSpec::Fails => r is Err,
                FoundSpec::Local(d) => match text_of_spec(d) {
                    Some(t) => r matches Ok(Fetch::Ready(x)) && x@ == t,
                    None => r is Err,
                },
                FoundSpec::Remote(w, c) => r matches Ok(Fetch::Remote(wid, m)) && wid@ == w && m@
                    == get_msg_spec(w, c),
            },
    {
        match self.as_data_full(instance) {
            Err(e) => Err(e),
            Ok(Fetch::Remote(w, m)) => Ok(Fetch::Remote(w, m)),
            Ok(Fetch::Ready(d)) => match data_string(&d) {
                Ok(t) => Ok(Fetch::Ready(t)),
                Err(e) => Err(e),
            },
        }
    }
}


} // verus!
