//! What holds of reading and writing items through a store and an instance.
use vstd::prelude::*;
use crate::value::Cbor;
use crate::id::IdView;
use crate::item::{merge_spec, get_path_spec};
use crate::item_laws::{path_settable, law_get_after_set};
use crate::memstore::{read_spec, write_spec, store_key_spec, stored_or_null};
use crate::instance::{InstanceView, Subscription, subs_for, sub_index, add_sub_spec, lemma_sub_index_at,
    ConnView, conn_index, conn_index_by_ns, new_connection_spec, set_conn_namespace_spec, lemma_conn_index,
    lemma_conn_index_at, lemma_conn_index_by_ns_at, lemma_numbered_access};
use crate::updater::{FoundSpec, lookup_spec, set_spec, merge_write_spec, MergeSpec, with_items,
    sub_spec, sub_actions, sub_action, ActionView, new_item_spec, after_new_item, NewItemSpec,
    finish_set_spec, about_instance_spec, resume_spec, PendingView, handle_msg_spec, msg_spec, msg_id_spec, conn_known,
    give_answer, text_of_spec};
use crate::proto::{MessageView, MessageCmd, cmd_spec, CMD_UPDATE, CMD_UPDATE_REQUEST};

verus! {

/// Whether a write at `id` is read back at `id`: the store part names a key,
/// and the rest of the path can be followed in the data under it without
/// ambiguity, or the key holds nothing and the path ends at the store part.
pub open spec fn write_readable(items: Map<u64, Cbor>, id: IdView) -> bool {
    &&& id.path.len() > 0
    &&& store_key_spec(id.path[0]) is Some
    &&& if items.contains_key(store_key_spec(id.path[0])->Some_0) {
        path_settable(items[store_key_spec(id.path[0])->Some_0], id.path.skip(1))
    } else {
        id.path.len() == 1
    }
}

/// What a store gives back of a write is what was written, wherever the
/// write can be read back (see `write_readable`).
pub proof fn law_store_read_after_write(items: Map<u64, Cbor>, id: IdView, data: Cbor)
    requires
        write_readable(items, id),
    ensures
        write_spec(items, id, data) is Some,
        read_spec(write_spec(items, id, data)->Some_0, id) == Some(data),
{
    let k = store_key_spec(id.path[0])->Some_0;
    if items.contains_key(k) {
        law_get_after_set(items[k], id.path.skip(1), data);
    } else {
        assert(id.path.skip(1).len() == 0);
    }
}

/// A write under one key leaves what is read under every other key as it was.
pub proof fn law_store_write_keeps_others(
    items: Map<u64, Cbor>,
    id: IdView,
    data: Cbor,
    other: IdView,
)
    requires
        id.path.len() > 0,
        other.path.len() > 0,
        write_spec(items, id, data) is Some,
        store_key_spec(other.path[0]) != store_key_spec(id.path[0]),
    ensures
        read_spec(write_spec(items, id, data)->Some_0, other) == read_spec(items, other),
{
    let after = write_spec(items, id, data)->Some_0;
    match store_key_spec(other.path[0]) {
        Some(k2) => {
            assert(stored_or_null(after, k2) == stored_or_null(items, k2));
        },
        None => {},
    }
}

/// An instance that owns the item `id` reads back after a write the written
/// value merged into what it read before, where the write can be read back
/// (see `write_readable`) and the id names an item of its store rather than
/// the instance itself.
pub proof fn law_read_after_set(
    s: InstanceView,
    id: IdView,
    v: Cbor,
    origin: Option<u64>,
    notify: bool,
)
    requires
        id.path.len() > 0,
        id.path[0] != "self"@,
        id.path[0] != "inst"@,
        s.namespace == s.self_namespace,
        id.namespace == s.self_namespace,
        write_readable(s.store.items, id),
        read_spec(s.store.items, id) is Some,
    ensures
        set_spec(s, id, v, origin, notify).1 is Some,
        lookup_spec(set_spec(s, id, v, origin, notify).0, id) == FoundSpec::Local(
            merge_spec(read_spec(s.store.items, id)->Some_0, v),
        ),
{
    let d = read_spec(s.store.items, id)->Some_0;
    assert(lookup_spec(s, id) == FoundSpec::Local(d));
    let m = merge_spec(d, v);
    law_store_read_after_write(s.store.items, id, m);
    let items = write_spec(s.store.items, id, m)->Some_0;
    assert(merge_write_spec(s, id, d, v) == MergeSpec::Stored(items));
    let s2 = with_items(s, items);
    assert(set_spec(s, id, v, origin, notify).0 == s2);
    assert(read_spec(s2.store.items, id) == Some(m));
}

/// Asking for a new item twice gives two different numbers.
pub proof fn law_new_items_are_fresh(s: InstanceView)
    requires
        new_item_spec(s) is Local,
        new_item_spec(after_new_item(s)) is Local,
    ensures
        new_item_spec(s)->Local_0 != new_item_spec(after_new_item(s))->Local_0,
{
}

proof fn lemma_sub_actions_notify(subs: Seq<Subscription>, id: IdView, origin: Option<u64>, f: FoundSpec, n: u64)
    requires
        subs.contains(Subscription::Listener(n)),
    ensures
        sub_actions(subs, id, origin, f).contains(ActionView::Notify(n, id)),
    decreases subs.len(),
{
    let rest = sub_actions(subs.drop_last(), id, origin, f);
    let last = sub_action(subs.last(), id, origin, f);
    assert(sub_actions(subs, id, origin, f) == rest + last);
    if subs.last() == Subscription::Listener(n) {
        assert(last == seq![ActionView::Notify(n, id)]);
        assert((rest + last)[rest.len() as int] == ActionView::Notify(n, id));
    } else {
        let i = choose|i: int| 0 <= i < subs.len() && subs[i] == Subscription::Listener(n);
        assert(i != subs.len() - 1);
        assert(subs.drop_last()[i] == Subscription::Listener(n));
        lemma_sub_actions_notify(subs.drop_last(), id, origin, f, n);
        let j = choose|j: int| 0 <= j < rest.len() && rest[j] == ActionView::Notify(n, id);
        assert((rest + last)[j] == ActionView::Notify(n, id));
    }
}

proof fn lemma_added_sub_is_there(s: InstanceView, id: IdView, sub: Subscription)
    ensures
        subs_for(InstanceView { subs: add_sub_spec(s.subs, id, sub), ..s }, id).contains(sub),
{
    let subs = s.subs;
    let i = sub_index(subs, id);
    let s2 = InstanceView { subs: add_sub_spec(subs, id, sub), ..s };
    lemma_sub_index_bound(subs, id);
    if i < subs.len() {
        let nsubs = subs.update(i, (id, subs[i].1.push(sub)));
        assert forall|j: int| 0 <= j < i implies nsubs[j].0 != id by {
            assert(nsubs[j] == subs[j]);
        }
        lemma_sub_index_at(nsubs, id, i);
        assert(nsubs[i].1[nsubs[i].1.len() - 1] == sub);
    } else {
        let nsubs = subs.push((id, seq![sub]));
        assert forall|j: int| 0 <= j < i implies nsubs[j].0 != id by {
            assert(nsubs[j] == subs[j]);
        }
        lemma_sub_index_at(nsubs, id, i);
        assert(nsubs[i].1[0] == sub);
    }
}

proof fn lemma_sub_index_bound(subs: Seq<(IdView, Seq<Subscription>)>, id: IdView)
    ensures
        0 <= sub_index(subs, id) <= subs.len(),
        forall|j: int| 0 <= j < sub_index(subs, id) ==> subs[j].0 != id,
    decreases subs.len(),
{
    if subs.len() > 0 && subs[0].0 != id {
        lemma_sub_index_bound(subs.drop_first(), id);
        assert forall|j: int| 0 <= j < sub_index(subs, id) implies subs[j].0 != id by {
            if j > 0 {
                assert(subs[j] == subs.drop_first()[j - 1]);
            }
        }
    }
}

/// A listener that subscribes to an item of the instance's store hears of
/// the next write to it that succeeds, where the instance owns the item.
pub proof fn law_listener_hears_writes(s: InstanceView, id: IdView, n: u64, v: Cbor)
    requires
        id.path.len() > 0,
        id.path[0] != "self"@,
        id.path[0] != "inst"@,
        s.namespace == s.self_namespace,
        id.namespace == s.self_namespace,
        set_spec(sub_spec(s, id, Subscription::Listener(n)).0, id, v, None, true).1 is Some,
    ensures
        sub_spec(s, id, Subscription::Listener(n)).1 == Some(Seq::<ActionView>::empty()),
        set_spec(sub_spec(s, id, Subscription::Listener(n)).0, id, v, None, true).1->Some_0.contains(
            ActionView::Notify(n, id),
        ),
{
    let s2 = sub_spec(s, id, Subscription::Listener(n)).0;
    lemma_added_sub_is_there(s, id, Subscription::Listener(n));
    match read_spec(s2.store.items, id) {
        Some(d) => {
            assert(lookup_spec(s2, id) == FoundSpec::Local(d));
            match merge_write_spec(s2, id, d, v) {
                MergeSpec::Stored(items) => {
                    let s3 = with_items(s2, items);
                    assert(subs_for(s3, id) == subs_for(s2, id));
                    lemma_sub_actions_notify(subs_for(s3, id), id, None, lookup_spec(s3, id), n);
                },
                _ => {},
            }
        },
        None => {
            assert(lookup_spec(s2, id) == FoundSpec::Fails);
        },
    }
}


/// Whether every connection has a number below the next one to hand out.
pub open spec fn conns_numbered_below(s: InstanceView) -> bool {
    forall|i: int| 0 <= i < s.connections.len() ==> #[trigger] s.connections[i].id < s.next_con_id
}

/// Opening a connection hands out the next number, which no connection had
/// before; afterwards the connection is found under that number, with no
/// namespace, and the next number is one higher.  So connections opened one
/// after the other on one instance get the numbers k, k + 1, ... (1 first, on
/// a new instance) and no number is handed out twice.
pub proof fn law_new_connections_are_fresh(s: InstanceView)
    requires
        conns_numbered_below(s),
        s.next_con_id < u64::MAX,
    ensures
        new_connection_spec(s) matches Some(t) && {
            let n = s.next_con_id;
            &&& conn_index(s.connections, n) == s.connections.len()
            &&& conn_index(t.connections, n) == s.connections.len()
            &&& t.connections[conn_index(t.connections, n)] == (ConnView { id: n, ns: None })
            &&& t.next_con_id == n + 1
            &&& conns_numbered_below(t)
        },
{
    let n = s.next_con_id;
    let t = new_connection_spec(s)->Some_0;
    assert forall|j: int| 0 <= j < s.connections.len() implies s.connections[j].id != n by {
        assert(s.connections[j].id < s.next_con_id);
    }
    lemma_conn_index_at(s.connections, n, s.connections.len() as int);
    assert forall|j: int| 0 <= j < s.connections.len() implies t.connections[j].id != n by {
        assert(t.connections[j] == s.connections[j]);
        assert(s.connections[j].id < s.next_con_id);
    }
    lemma_conn_index_at(t.connections, n, s.connections.len() as int);
    assert forall|i: int| 0 <= i < t.connections.len() implies #[trigger] t.connections[i].id < t.next_con_id by {
        if i < s.connections.len() {
            assert(t.connections[i] == s.connections[i]);
            assert(s.connections[i].id < s.next_con_id);
        }
    }
}

/// Recording the namespace of the peer over a connection that exists is read
/// back: the connection is still found under its number, now with that
/// namespace, and a connection in that namespace is found.  Where no
/// connection has the number, nothing changes (see `set_conn_namespace_spec`).
pub proof fn law_namespace_of_connection_is_read_back(s: InstanceView, id: u64, ns: Seq<char>)
    requires
        conn_index(s.connections, id) < s.connections.len(),
    ensures
        set_conn_namespace_spec(s, id, ns) matches Some(t) && {
            &&& conn_index(t.connections, id) == conn_index(s.connections, id)
            &&& t.connections[conn_index(t.connections, id)] == (ConnView { id: id, ns: Some(ns) })
            &&& conn_index_by_ns(t.connections, ns) <= conn_index(t.connections, id)
            &&& t.connections[conn_index_by_ns(t.connections, ns)].ns == Some(ns)
        },
{
    let k = conn_index(s.connections, id);
    lemma_conn_index(s.connections, id);
    let t = set_conn_namespace_spec(s, id, ns)->Some_0;
    assert forall|j: int| 0 <= j < k implies t.connections[j].id != id by {
        assert(t.connections[j] == s.connections[j]);
    }
    lemma_conn_index_at(t.connections, id, k);
    lemma_first_in_namespace(t.connections, ns, k);
}

/// Where the connection at `i` is in namespace `ns`, the first connection in
/// it is at `i` or before.
proof fn lemma_first_in_namespace(conns: Seq<ConnView>, ns: Seq<char>, i: int)
    requires
        0 <= i < conns.len(),
        conns[i].ns == Some(ns),
    ensures
        conn_index_by_ns(conns, ns) <= i,
        conns[conn_index_by_ns(conns, ns)].ns == Some(ns),
    decreases i,
{
    if exists|j: int| 0 <= j < i && conns[j].ns == Some(ns) {
        let j = choose|j: int| 0 <= j < i && conns[j].ns == Some(ns);
        lemma_first_in_namespace(conns, ns, j);
    } else {
        lemma_conn_index_by_ns_at(conns, ns, i);
    }
}


/// On an instance just made with its build configuration (see
/// `Instance::empty`), a new item is item 1, and it holds no data: reading
/// it gives `Null`, whatever the build configuration is.
pub proof fn law_first_new_item_is_empty(s: InstanceView, build: Cbor)
    requires
        s.store.items == map![0u64 => build],
        s.store.next_id == 1,
        s.namespace == s.self_namespace,
    ensures
        new_item_spec(s) == NewItemSpec::Local(1),
        read_spec(after_new_item(s).store.items, crate::updater::numbered_id(1, s.namespace)) == Some(Cbor::Null),
{
    lemma_numbered_access(s.store.items, 1, s.namespace, Cbor::Null);
}


/// Two connections opened one after the other get the numbers k and k + 1,
/// and both are then found under their numbers, with no namespace; on an
/// instance just made (no connections, next number 1, see
/// `Instance::empty`) these are 1 and 2.
pub proof fn law_successive_connections(s: InstanceView)
    requires
        conns_numbered_below(s),
        s.next_con_id < u64::MAX - 1,
    ensures
        new_connection_spec(s) matches Some(t) && new_connection_spec(t) matches Some(u) && {
            let k = s.next_con_id;
            &&& u.next_con_id == k + 2
            &&& conn_index(u.connections, k) == s.connections.len()
            &&& u.connections[conn_index(u.connections, k)] == (ConnView { id: k, ns: None })
            &&& conn_index(u.connections, (k + 1) as u64) == s.connections.len() + 1
            &&& u.connections[conn_index(u.connections, (k + 1) as u64)] == (ConnView {
                id: (k + 1) as u64,
                ns: None,
            })
            &&& conns_numbered_below(u)
        },
        s.connections.len() == 0 && s.next_con_id == 1 ==> (new_connection_spec(s) matches Some(t)
            && t.connections == seq![ConnView { id: 1, ns: None }]),
{
    law_new_connections_are_fresh(s);
    let t = new_connection_spec(s)->Some_0;
    law_new_connections_are_fresh(t);
    let u = new_connection_spec(t)->Some_0;
    let k = s.next_con_id;
    assert forall|j: int| 0 <= j < s.connections.len() implies u.connections[j].id != k by {
        assert(u.connections[j] == s.connections[j]);
        assert(s.connections[j].id < s.next_con_id);
    }
    lemma_conn_index_at(u.connections, k, s.connections.len() as int);
    if s.connections.len() == 0 {
        assert(t.connections =~= seq![ConnView { id: k, ns: None }]);
    }
}


/// Recording the namespace of a connection number that no connection has
/// fails, and no connection changes (see `Instance::connection_set_namespace`).
pub proof fn law_namespace_of_unknown_connection_fails(s: InstanceView, id: u64, ns: Seq<char>)
    requires
        forall|i: int| 0 <= i < s.connections.len() ==> #[trigger] s.connections[i].id != id,
    ensures
        set_conn_namespace_spec(s, id, ns) is None,
{
    lemma_conn_index_at(s.connections, id, s.connections.len() as int);
}


proof fn lemma_sub_actions_update(subs: Seq<Subscription>, id: IdView, origin: Option<u64>, d: Cbor, c: u64)
    requires
        subs.contains(Subscription::Connection(c)),
        origin != Some(c),
    ensures
        sub_actions(subs, id, origin, FoundSpec::Local(d)).contains(
            ActionView::Send(msg_spec(CMD_UPDATE, id, Some(d), c)),
        ),
    decreases subs.len(),
{
    let f = FoundSpec::Local(d);
    let a = ActionView::Send(msg_spec(CMD_UPDATE, id, Some(d), c));
    let rest = sub_actions(subs.drop_last(), id, origin, f);
    let last = sub_action(subs.last(), id, origin, f);
    assert(sub_actions(subs, id, origin, f) == rest + last);
    if subs.last() == Subscription::Connection(c) {
        assert(last == seq![a]);
        assert((rest + last)[rest.len() as int] == a);
    } else {
        let i = choose|i: int| 0 <= i < subs.len() && subs[i] == Subscription::Connection(c);
        assert(i != subs.len() - 1);
        assert(subs.drop_last()[i] == Subscription::Connection(c));
        lemma_sub_actions_update(subs.drop_last(), id, origin, d, c);
        let j = choose|j: int| 0 <= j < rest.len() && rest[j] == a;
        assert((rest + last)[j] == a);
    }
}

/// A change of `id` reaches every connection subscribed to it but the one
/// the change came from: each gets an update message with the item's data.
pub proof fn law_change_reaches_other_peers(subs: Seq<Subscription>, id: IdView, origin: Option<u64>, d: Cbor, c: u64)
    requires
        subs.contains(Subscription::Connection(c)),
        origin != Some(c),
    ensures
        sub_actions(subs, id, origin, FoundSpec::Local(d)).contains(
            ActionView::Send(msg_spec(CMD_UPDATE, id, Some(d), c)),
        ),
{
    lemma_sub_actions_update(subs, id, origin, d, c);
}

/// Whether an action sends to, or fetches on behalf of, connection `o`.
pub open spec fn action_for_connection(a: ActionView, o: u64) -> bool {
    match a {
        ActionView::Send(m) => m.conn_id == o,
        ActionView::Fetch(_, _, PendingView::Update(_, c)) => c == o,
        _ => false,
    }
}

/// A change that came from connection `o` is not sent back to `o`.
pub proof fn law_change_skips_its_origin(subs: Seq<Subscription>, id: IdView, o: u64, f: FoundSpec)
    ensures
        forall|i: int|
            0 <= i < sub_actions(subs, id, Some(o), f).len() ==> !action_for_connection(
                #[trigger] sub_actions(subs, id, Some(o), f)[i],
                o,
            ),
    decreases subs.len(),
{
    if subs.len() > 0 {
        law_change_skips_its_origin(subs.drop_last(), id, o, f);
        let rest = sub_actions(subs.drop_last(), id, Some(o), f);
        let last = sub_action(subs.last(), id, Some(o), f);
        assert(sub_actions(subs, id, Some(o), f) == rest + last);
        assert forall|i: int| 0 <= i < last.len() implies !action_for_connection(#[trigger] last[i], o) by {
        }
        assert forall|i: int| 0 <= i < (rest + last).len() implies !action_for_connection(#[trigger] (rest + last)[i], o) by {
            if i < rest.len() {
                assert((rest + last)[i] == rest[i]);
            } else {
                assert((rest + last)[i] == last[i - rest.len()]);
            }
        }
    }
}

/// A connection that subscribes to an item of the instance's store hears of
/// the next write to it that does not come from itself: an update message
/// with the written value merged into the item's data, where the write can
/// be read back and the instance owns the item.
pub proof fn law_peer_hears_writes(s: InstanceView, id: IdView, c: u64, v: Cbor, origin: Option<u64>)
    requires
        id.path.len() > 0,
        id.path[0] != "self"@,
        id.path[0] != "inst"@,
        s.namespace == s.self_namespace,
        id.namespace == s.self_namespace,
        write_readable(s.store.items, id),
        read_spec(s.store.items, id) is Some,
        origin != Some(c),
    ensures
        set_spec(sub_spec(s, id, Subscription::Connection(c)).0, id, v, origin, true).1->Some_0.contains(
            ActionView::Send(
                msg_spec(CMD_UPDATE, id, Some(merge_spec(read_spec(s.store.items, id)->Some_0, v)), c),
            ),
        ),
{
    let s2 = sub_spec(s, id, Subscription::Connection(c)).0;
    lemma_added_sub_is_there(s, id, Subscription::Connection(c));
    law_read_after_set(s2, id, v, origin, true);
    let d = read_spec(s.store.items, id)->Some_0;
    let m = merge_spec(d, v);
    assert(lookup_spec(s2, id) == FoundSpec::Local(d));
    let items = write_spec(s2.store.items, id, m)->Some_0;
    assert(merge_write_spec(s2, id, d, v) == MergeSpec::Stored(items));
    let s3 = with_items(s2, items);
    assert(subs_for(s3, id) == subs_for(s2, id));
    assert(lookup_spec(s3, id) == FoundSpec::Local(m));
    lemma_sub_actions_update(subs_for(s3, id), id, origin, m, c);
}

/// A sub message over a known connection subscribes that connection to the
/// item the message names.
pub proof fn law_sub_message_subscribes(s: InstanceView, m: MessageView)
    requires
        cmd_spec(m.value) == Some(MessageCmd::Sub),
        msg_id_spec(s, m) is Some,
        conn_known(s, m.conn_id),
    ensures
        subs_for(handle_msg_spec(s, m).0, msg_id_spec(s, m)->Some_0).contains(Subscription::Connection(m.conn_id)),
        handle_msg_spec(s, m).0.store == s.store,
{
    lemma_added_sub_is_there(s, msg_id_spec(s, m)->Some_0, Subscription::Connection(m.conn_id));
}

/// A get-sub message over a known connection, for an item that can be read,
/// subscribes that connection to the item too.
pub proof fn law_get_sub_message_subscribes(s: InstanceView, m: MessageView)
    requires
        cmd_spec(m.value) == Some(MessageCmd::GetSub),
        msg_id_spec(s, m) is Some,
        conn_known(s, m.conn_id),
        give_answer(s, msg_id_spec(s, m)->Some_0, m.conn_id) is Some,
    ensures
        subs_for(handle_msg_spec(s, m).0, msg_id_spec(s, m)->Some_0).contains(Subscription::Connection(m.conn_id)),
{
    lemma_added_sub_is_there(s, msg_id_spec(s, m)->Some_0, Subscription::Connection(m.conn_id));
}

/// Resuming a write that waited for the item's data writes the value over
/// that data as a write over the same data in the instance would: the
/// written value merged into the fetched data.
pub proof fn law_resume_merge_is_a_write(
    s: InstanceView,
    id: IdView,
    v: Cbor,
    origin: Option<u64>,
    notify: bool,
    d: Cbor,
)
    requires
        id.path.len() > 0,
    ensures
        resume_spec(s, PendingView::Merge(id, v, origin, notify), d) == finish_set_spec(s, id, d, v, origin, notify),
{
}

/// For an item of a peer's namespace, resuming a write with the item's
/// fetched data `d` first sends its owner an update request whose data is the
/// written value `v` merged into `d`.
pub proof fn law_resume_merge_requests_merged(
    s: InstanceView,
    id: IdView,
    v: Cbor,
    origin: Option<u64>,
    notify: bool,
    d: Cbor,
)
    requires
        id.path.len() > 0,
        s.namespace != s.self_namespace,
        conn_index_by_ns(s.connections, id.namespace) < s.connections.len(),
    ensures
        resume_spec(s, PendingView::Merge(id, v, origin, notify), d).1 matches Some(a) && a.len() >= 1 && a[0]
            == ActionView::Send(
            msg_spec(
                CMD_UPDATE_REQUEST,
                id,
                Some(merge_spec(d, v)),
                s.connections[conn_index_by_ns(s.connections, id.namespace)].id,
            ),
        ),
{
}

/// For an item of the instance's own store, resuming a write with the item's
/// fetched data `d` leaves the item reading as the written value `v` merged
/// into `d`, where the write can be read back.
pub proof fn law_resume_merge_stores_merged(
    s: InstanceView,
    id: IdView,
    v: Cbor,
    origin: Option<u64>,
    notify: bool,
    d: Cbor,
)
    requires
        id.path.len() > 0,
        id.path[0] != "self"@,
        id.path[0] != "inst"@,
        s.namespace == s.self_namespace,
        id.namespace == s.self_namespace,
        write_readable(s.store.items, id),
    ensures
        resume_spec(s, PendingView::Merge(id, v, origin, notify), d).1 is Some,
        lookup_spec(resume_spec(s, PendingView::Merge(id, v, origin, notify), d).0, id) == FoundSpec::Local(
            merge_spec(d, v),
        ),
{
    let m = merge_spec(d, v);
    law_store_read_after_write(s.store.items, id, m);
    let items = write_spec(s.store.items, id, m)->Some_0;
    assert(merge_write_spec(s, id, d, v) == MergeSpec::Stored(items));
    let s2 = with_items(s, items);
    assert(read_spec(s2.store.items, id) == Some(m));
}

/// Reading `self/namespace` gives the namespace the instance works in, and
/// `self/self_namespace` its own namespace.
pub proof fn law_instance_tells_its_namespaces(s: InstanceView, id: IdView)
    requires
        id.path.len() == 2,
        id.path[0] == "self"@,
    ensures
        id.path[1] == "namespace"@ ==> lookup_spec(s, id) == FoundSpec::Local(Cbor::Text(s.namespace)),
        id.path[1] == "self_namespace"@ ==> lookup_spec(s, id) == FoundSpec::Local(Cbor::Text(s.self_namespace)),
{
    reveal_strlit("con_by_id");
    reveal_strlit("namespace");
    reveal_strlit("self_namespace");
    assert("namespace"@[0] != "con_by_id"@[0]);
    assert("self_namespace"@.len() != "con_by_id"@.len());
    assert("self_namespace"@.len() != "namespace"@.len());
    if id.path[1] == "namespace"@ {
        assert(id.path[1] != "con_by_id"@);
        assert(about_instance_spec(s, id) == Some(FoundSpec::Local(Cbor::Text(s.namespace))));
    }
    if id.path[1] == "self_namespace"@ {
        assert(id.path[1] != "con_by_id"@);
        assert(id.path[1] != "namespace"@);
        assert(about_instance_spec(s, id) == Some(FoundSpec::Local(Cbor::Text(s.self_namespace))));
    }
}

/// After joining the namespace `ns` that the peer over a connection tells,
/// reading `self/namespace` gives `ns`, while `self/self_namespace` still
/// gives the instance's own namespace.
pub proof fn law_joined_namespace_is_read(s: InstanceView, c: u64, d: Cbor, id: IdView, own: IdView)
    requires
        text_of_spec(d) is Some,
        id.path == seq!["self"@, "namespace"@],
        own.path == seq!["self"@, "self_namespace"@],
    ensures
        resume_spec(s, PendingView::JoinNamespace(c), d).1 is Some,
        lookup_spec(resume_spec(s, PendingView::JoinNamespace(c), d).0, id) == FoundSpec::Local(
            Cbor::Text(text_of_spec(d)->Some_0),
        ),
        lookup_spec(resume_spec(s, PendingView::JoinNamespace(c), d).0, own) == FoundSpec::Local(
            Cbor::Text(s.self_namespace),
        ),
{
    let t = resume_spec(s, PendingView::JoinNamespace(c), d).0;
    law_instance_tells_its_namespaces(t, id);
    law_instance_tells_its_namespaces(t, own);
}

} // verus!
