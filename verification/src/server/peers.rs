//! The peers of the server and what it does with their messages: who is
//! connected, who is subscribed to which item, and how each command of a
//! message is answered.
use vstd::prelude::*;
use crate::error::{MizeError, MizeResult, texts};
use crate::server::ModuleKind;
use crate::server::proto::{MizeId, MizeIdKind, KindView, kind_spec};
use crate::item::text_is;
use crate::server::error::{MizeError as ServerError, MizeCodeLocation, made_error};

verus! {

broadcast use vstd::std_specs::vec::group_vec_axioms;

/// Who a message comes from or goes to: a client, a module (each known by
/// its number), or the upstream server.
#[derive(Debug, Clone, Copy, PartialEq, Eq, Structural)]
pub enum PeerRef {
    Client(u64),
    Module(u64),
    Upstream,
}

/// A module connected to the server.
#[derive(Debug)]
pub struct ServerModule {
    pub name: String,
    pub client_id: u64,
    pub kind: ModuleKind,
    pub registered_types: Vec<String>,
}

/// The model of a connected module: its name, number and kind, and the
/// types it registered.
pub struct ModuleView {
    pub name: Seq<char>,
    pub client_id: u64,
    pub kind: ModuleKind,
    pub registered_types: Seq<Seq<char>>,
}

/// The peers of the server and the subscriptions to its items.
#[derive(Debug)]
pub struct Peers {
    next_free_client_id: u64,
    clients: Vec<u64>,
    modules: Vec<ServerModule>,
    subs: Vec<(String, Vec<PeerRef>)>,
}

/// The model of the peers.
pub struct PeersView {
    pub next_free_client_id: u64,
    pub clients: Seq<u64>,
    pub modules: Seq<ModuleView>,
    pub subs: Seq<(Seq<char>, Seq<PeerRef>)>,
}

impl View for Peers {
    type V = PeersView;

    closed spec fn view(&self) -> PeersView {
        PeersView {
            next_free_client_id: self.next_free_client_id,
            clients: self.clients@,
            modules: Seq::new(
                self.modules@.len(),
                |i: int|
                    ModuleView {
                        name: self.modules@[i].name@,
                        client_id: self.modules@[i].client_id,
                        kind: self.modules@[i].kind,
                        registered_types: texts(self.modules@[i].registered_types@),
                    },
            ),
            subs: Seq::new(self.subs@.len(), |i: int| (self.subs@[i].0@, self.subs@[i].1@)),
        }
    }
}

/// The index of the first entry of the subscriptions to `id`, or their number.
pub open spec fn peer_sub_index(subs: Seq<(Seq<char>, Seq<PeerRef>)>, id: Seq<char>) -> int
    decreases subs.len(),
{
    if subs.len() == 0 {
        0
    } else if subs[0].0 == id {
        0
    } else {
        1 + peer_sub_index(subs.drop_first(), id)
    }
}

proof fn lemma_peer_sub_index_at(subs: Seq<(Seq<char>, Seq<PeerRef>)>, id: Seq<char>, i: int)
    requires
        0 <= i <= subs.len(),
        i < subs.len() ==> subs[i].0 == id,
        forall|j: int| 0 <= j < i ==> subs[j].0 != id,
    ensures
        peer_sub_index(subs, id) == i,
    decreases subs.len(),
{
    if subs.len() > 0 && i > 0 {
        assert forall|j: int| 0 <= j < i - 1 implies subs.drop_first()[j].0 != id by {
            assert(subs.drop_first()[j] == subs[j + 1]);
        }
        lemma_peer_sub_index_at(subs.drop_first(), id, i - 1);
    }
}

/// The subscribers of `id`.
pub open spec fn peer_subs_for(s: PeersView, id: Seq<char>) -> Seq<PeerRef> {
    if peer_sub_index(s.subs, id) < s.subs.len() {
        s.subs[peer_sub_index(s.subs, id)].1
    } else {
        Seq::empty()
    }
}

/// The subscriptions with `p` added to those of `id`.
pub open spec fn add_peer_sub(subs: Seq<(Seq<char>, Seq<PeerRef>)>, id: Seq<char>, p: PeerRef) -> Seq<
    (Seq<char>, Seq<PeerRef>),
> {
    if peer_sub_index(subs, id) < subs.len() {
        subs.update(peer_sub_index(subs, id), (id, subs[peer_sub_index(subs, id)].1.push(p)))
    } else {
        subs.push((id, seq![p]))
    }
}

/// The index of the first of `v` equal to `x`, or the length of `v`.
pub open spec fn index_of_u64(v: Seq<u64>, x: u64) -> int
    decreases v.len(),
{
    if v.len() == 0 {
        0
    } else if v[0] == x {
        0
    } else {
        1 + index_of_u64(v.drop_first(), x)
    }
}

proof fn lemma_index_of_at(v: Seq<u64>, x: u64, i: int)
    requires
        0 <= i <= v.len(),
        i < v.len() ==> v[i] == x,
        forall|j: int| 0 <= j < i ==> v[j] != x,
    ensures
        index_of_u64(v, x) == i,
    decreases v.len(),
{
    if v.len() > 0 && i > 0 {
        assert forall|j: int| 0 <= j < i - 1 implies v.drop_first()[j] != x by {
            assert(v.drop_first()[j] == v[j + 1]);
        }
        lemma_index_of_at(v.drop_first(), x, i - 1);
    }
}

/// The client numbers of the modules.
pub open spec fn module_ids(m: Seq<ModuleView>) -> Seq<u64> {
    Seq::new(m.len(), |i: int| m[i].client_id)
}

fn copy_peers(v: &Vec<PeerRef>) -> (r: Vec<PeerRef>)
    ensures
        r@ == v@,
{
    let mut r: Vec<PeerRef> = Vec::new();
    let mut i: usize = 0;
    while i < v.len()
        invariant
            i <= v@.len(),
            r@ == v@.take(i as int),
        decreases v@.len() - i,
    {
        r.push(v[i]);
        i = i + 1;
        assert(r@ =~= v@.take(i as int));
    }
    assert(v@.take(v@.len() as int) =~= v@);
    r
}

impl Peers {
    /// No peers yet; the first gets the number 0.
    pub fn new() -> (r: Peers)
        ensures
            r@.next_free_client_id == 0,
            r@.clients.len() == 0,
            r@.modules.len() == 0,
            r@.subs.len() == 0,
    {
        let r = Peers { next_free_client_id: 0, clients: Vec::new(), modules: Vec::new(), subs: Vec::new() };
        assert(r@.modules =~= Seq::<ModuleView>::empty());
        assert(r@.subs =~= Seq::<(Seq<char>, Seq<PeerRef>)>::empty());
        r
    }

    /// A peer connects, with the next number: a module where the connection
    /// names one (`Some`, and its name where it could be read), else a
    /// client.  A module whose name could not be read is refused, but its
    /// number is used up.
    pub fn connect(&mut self, module_header: Option<Option<String>>) -> (r: MizeResult<PeerRef>)
        ensures
            old(self)@.next_free_client_id == u64::MAX ==> r is Err && final(self)@ == old(self)@,
            old(self)@.next_free_client_id < u64::MAX ==> {
                let n = old(self)@.next_free_client_id;
                &&& final(self)@.next_free_client_id == n + 1
                &&& final(self)@.subs == old(self)@.subs
                &&& match module_header {
                    None => r == Ok::<PeerRef, MizeError>(PeerRef::Client(n)) && final(self)@.clients
                        == old(self)@.clients.push(n) && final(self)@.modules == old(self)@.modules,
                    Some(Some(name)) => r == Ok::<PeerRef, MizeError>(PeerRef::Module(n))
                        && final(self)@.modules == old(self)@.modules.push(
                        ModuleView {
                            name: name@,
                            client_id: n,
                            kind: ModuleKind::Extern(),
                            registered_types: Seq::empty(),
                        },
                    )
                        && final(self)@.clients == old(self)@.clients,
                    Some(None) => r is Err && final(self)@.modules == old(self)@.modules
                        && final(self)@.clients == old(self)@.clients,
                }
            },
    {
        if self.next_free_client_id == u64::MAX {
            return Err(MizeError::new().msg("no client numbers are left"));
        }
        let n = self.next_free_client_id;
        self.next_free_client_id = n + 1;
        match module_header {
            Some(Some(name)) => {
                let ghost before = self@.modules;
                let ghost nm = name@;
                let types: Vec<String> = Vec::new();
                assert(texts(types@) =~= Seq::<Seq<char>>::empty());
                self.modules.push(ServerModule { name, client_id: n, kind: ModuleKind::Extern(), registered_types: types });
                assert(self@.modules =~= before.push(
                    ModuleView {
                        name: nm,
                        client_id: n,
                        kind: ModuleKind::Extern(),
                        registered_types: Seq::empty(),
                    },
                ));
                Ok(PeerRef::Module(n))
            },
            Some(None) => Err(
                MizeError::new().set_code(113).msg("The mize-module Header could not be decoded into a String."),
            ),
            None => {
                self.clients.push(n);
                Ok(PeerRef::Client(n))
            },
        }
    }

    /// A peer closes its connection: a client or a module leaves the lists.
    /// A client that never connected is an error.
    pub fn close(&mut self, peer: PeerRef) -> (r: MizeResult<()>)
        requires
            peer matches PeerRef::Module(m) ==> index_of_u64(module_ids(old(self)@.modules), m)
                < old(self)@.modules.len(),
        ensures
            final(self)@.next_free_client_id == old(self)@.next_free_client_id,
            final(self)@.subs == old(self)@.subs,
            match peer {
                PeerRef::Client(c) => index_of_u64(old(self)@.clients, c) < old(self)@.clients.len()
                    ==> r is Ok && final(self)@.modules == old(self)@.modules,
                _ => true,
            },
            match peer {
                PeerRef::Client(c) => index_of_u64(old(self)@.clients, c) < old(self)@.clients.len()
                    ==> final(self)@.clients == old(self)@.clients.remove(
                    index_of_u64(old(self)@.clients, c),
                ),
                _ => true,
            },
            match peer {
                PeerRef::Client(c) => index_of_u64(old(self)@.clients, c) >= old(self)@.clients.len()
                    ==> r is Err && final(self)@ == old(self)@,
                _ => true,
            },
            match peer {
                PeerRef::Module(m) => r is Ok && final(self)@.clients == old(self)@.clients,
                _ => true,
            },
            match peer {
                PeerRef::Module(m) => final(self)@.modules == old(self)@.modules.remove(
                    index_of_u64(module_ids(old(self)@.modules), m),
                ),
                _ => true,
            },
            peer is Upstream ==> r is Ok && final(self)@ == old(self)@,
    {
        match peer {
            PeerRef::Client(c) => {
                let mut i: usize = 0;
                while i < self.clients.len()
                    invariant
                        i <= self.clients@.len(),
                        *self == *old(self),
                        peer == PeerRef::Client(c),
                        forall|j: int| 0 <= j < i ==> self.clients@[j] != c,
                    decreases self.clients@.len() - i,
                {
                    if self.clients[i] == c {
                        proof {
                            lemma_index_of_at(self@.clients, c, i as int);
                        }
                        let ghost before = self@;
                        self.clients.remove(i);
                        assert(self@.clients =~= before.clients.remove(i as int));
                        assert(self@.modules =~= before.modules);
                        assert(self@.subs =~= before.subs);
                        return Ok(());
                    }
                    i = i + 1;
                }
                proof {
                    lemma_index_of_at(self@.clients, c, i as int);
                }
                Err(MizeError::new().msg("A Client disconected, that had never connected......"))
            },
            PeerRef::Module(m) => {
                let ghost ids = module_ids(self@.modules);
                let mut i: usize = 0;
                while i < self.modules.len()
                    invariant
                        i <= self.modules@.len(),
                        *self == *old(self),
                        peer == PeerRef::Module(m),
                        ids == module_ids(self@.modules),
                        forall|j: int| 0 <= j < i ==> ids[j] != m,
                        index_of_u64(ids, m) < ids.len(),
                    decreases self.modules@.len() - i,
                {
                    if self.modules[i].client_id == m {
                        proof {
                            lemma_index_of_at(ids, m, i as int);
                        }
                        let ghost before = self@;
                        let _ = self.modules.remove(i);
                        assert(self@.modules =~= before.modules.remove(i as int));
                        assert(self@.clients =~= before.clients);
                        assert(self@.subs =~= before.subs);
                        return Ok(());
                    }
                    i = i + 1;
                }
                proof {
                    lemma_index_of_at(ids, m, i as int);
                }
                Ok(())
            },
            PeerRef::Upstream => Ok(()),
        }
    }

    /// Subscribes `peer` to the item `id`.
    pub fn subscribe(&mut self, id: &str, peer: PeerRef)
        ensures
            final(self)@ == (PeersView { subs: add_peer_sub(old(self)@.subs, id@, peer), ..old(self)@ }),
    {
        let ghost before = self@;
        let mut i: usize = 0;
        while i < self.subs.len()
            invariant
                i <= self.subs@.len(),
                *self == *old(self),
                before == old(self)@,
                forall|j: int| 0 <= j < i ==> self@.subs[j].0 != id@,
            decreases self.subs@.len() - i,
        {
            if text_is(self.subs[i].0.as_str(), id) {
                proof {
                    lemma_peer_sub_index_at(self@.subs, id@, i as int);
                }
                let mut v = copy_peers(&self.subs[i].1);
                v.push(peer);
                let k = self.subs[i].0.clone();
                let ghost nv = (k@, v@);
                self.subs.set(i, (k, v));
                assert(self@.subs =~= before.subs.update(i as int, nv));
                return;
            }
            i = i + 1;
        }
        proof {
            lemma_peer_sub_index_at(self@.subs, id@, i as int);
        }
        let mut v: Vec<PeerRef> = Vec::new();
        v.push(peer);
        let ghost nv = (id@, v@);
        self.subs.push((id.to_owned(), v));
        assert(self@.subs =~= before.subs.push(nv));
    }

    /// The subscribers of the item `id`.
    pub fn subscribers(&self, id: &str) -> (r: Vec<PeerRef>)
        ensures
            r@ == peer_subs_for(self@, id@),
    {
        let mut i: usize = 0;
        while i < self.subs.len()
            invariant
                i <= self.subs@.len(),
                forall|j: int| 0 <= j < i ==> self@.subs[j].0 != id@,
            decreases self.subs@.len() - i,
        {
            if text_is(self.subs[i].0.as_str(), id) {
                proof {
                    lemma_peer_sub_index_at(self@.subs, id@, i as int);
                }
                return copy_peers(&self.subs[i].1);
            }
            i = i + 1;
        }
        proof {
            lemma_peer_sub_index_at(self@.subs, id@, i as int);
        }
        Vec::new()
    }
}

/// The commands of the server's messages, with the ids they name.
#[derive(Debug)]
pub enum JsonCmd {
    ErrMsg,
    Get(MizeId),
    GetSub(MizeId),
    Give(MizeId),
    Create,
    CreatedId(MizeId),
    Delete(MizeId),
    Sub(MizeId),
    Unsub(MizeId),
    UpdateRequest(MizeId),
    Update(MizeId),
}

/// What the server does for a message: read a local item and give it to the
/// sender; apply the update to a local item and send it to the subscribers of
/// the id; create an item and send its id to the sender; delete a local item.
#[derive(Debug)]
pub enum ServerAction {
    GiveLocal(u64),
    UpdateLocal(u64, Vec<PeerRef>),
    CreateItem,
    DeleteLocal(u64),
}

/// The model of what the server does for a message.
pub enum ServerActionView {
    GiveLocal(u64),
    UpdateLocal(u64, Seq<PeerRef>),
    CreateItem,
    DeleteLocal(u64),
}

impl View for ServerAction {
    type V = ServerActionView;

    open spec fn view(&self) -> ServerActionView {
        match self {
            ServerAction::GiveLocal(n) => ServerActionView::GiveLocal(*n),
            ServerAction::UpdateLocal(n, p) => ServerActionView::UpdateLocal(*n, p@),
            ServerAction::CreateItem => ServerActionView::CreateItem,
            ServerAction::DeleteLocal(n) => ServerActionView::DeleteLocal(*n),
        }
    }
}

/// The number of a local id, if the id names a local item.
pub open spec fn local_number(id: Seq<char>) -> Option<u64> {
    match kind_spec(id) {
        Some(KindView::Local(n)) => Some(n),
        _ => None,
    }
}

fn local_of(id: &MizeId) -> (r: MizeResult<u64>)
    ensures
        match local_number(id.text()) {
            Some(n) => r matches Ok(x) && x == n,
            None => r is Err,
        },
{
    match id.kind() {
        Ok(MizeIdKind::Local(n)) => Ok(n),
        Ok(_) => Err(MizeError::new().msg("id type is not implemented")),
        Err(e) => Err(e),
    }
}

/// Handles the command of a message from `origin`: a get of a local item is
/// answered from the store; a get-sub first subscribes the sender; an update
/// request updates a local item and goes to the item's subscribers; a create
/// makes an item; a delete removes a local item; any other command, or an id
/// that names no local item, is an error.
pub fn handle_json_msg(msg: &JsonCmd, origin: PeerRef, peers: &mut Peers) -> (r: MizeResult<ServerAction>)
    ensures
        match msg {
            JsonCmd::GetSub(id) => final(peers)@ == (PeersView {
                subs: add_peer_sub(old(peers)@.subs, id.text(), origin),
                ..old(peers)@
            }),
            _ => final(peers)@ == old(peers)@,
        },
        match msg {
            JsonCmd::Get(id) | JsonCmd::GetSub(id) => match local_number(id.text()) {
                Some(n) => r matches Ok(a) && a@ == ServerActionView::GiveLocal(n),
                None => r is Err,
            },
            JsonCmd::UpdateRequest(id) => match local_number(id.text()) {
                Some(n) => r matches Ok(a) && a@ == ServerActionView::UpdateLocal(
                    n,
                    peer_subs_for(old(peers)@, id.text()),
                ),
                None => r is Err,
            },
            JsonCmd::Create => r matches Ok(a) && a@ == ServerActionView::CreateItem,
            JsonCmd::Delete(id) => match local_number(id.text()) {
                Some(n) => r matches Ok(a) && a@ == ServerActionView::DeleteLocal(n),
                None => r is Err,
            },
            _ => r is Err,
        },
{
    match msg {
        JsonCmd::Get(id) => match local_of(id) {
            Ok(n) => Ok(ServerAction::GiveLocal(n)),
            Err(e) => Err(e),
        },
        JsonCmd::GetSub(id) => {
            let text = id.text_ref();
            peers.subscribe(text, origin);
            match local_of(id) {
                Ok(n) => Ok(ServerAction::GiveLocal(n)),
                Err(e) => Err(e),
            }
        },
        JsonCmd::UpdateRequest(id) => match local_of(id) {
            Ok(n) => Ok(ServerAction::UpdateLocal(n, peers.subscribers(id.text_ref()))),
            Err(_) => Err(MizeError::new().msg("updates to non local items are not handeld yet")),
        },
        JsonCmd::Create => Ok(ServerAction::CreateItem),
        JsonCmd::Delete(id) => match local_of(id) {
            Ok(n) => Ok(ServerAction::DeleteLocal(n)),
            Err(_) => Err(MizeError::new().msg("deleteng non Local items not implemented yet")),
        },
        _ => Err(MizeError::new().msg("ItemMessage cmd not handeld")),
    }
}


/// What arrives on the websocket of a peer: a frame of one of the kinds, or
/// a read that failed.
#[derive(Debug, Clone, Copy, PartialEq, Eq, Structural)]
pub enum SocketEvent {
    ReadFailed,
    Binary,
    Text,
    Close,
    Ping,
    Pong,
}

/// What the connection does for what arrived: nothing (binary frames are
/// not handled yet), hand the text to `handle_json_msg`, close (see
/// `Peers::close`), or send an error back to the peer.
#[derive(Debug)]
pub enum SocketAnswer {
    Ignore,
    HandleText,
    Close,
    SendError(ServerError),
}

/// What the connection does for `event`: a failed read is answered with
/// error 115; a ping or a pong with error 11 and a message that names the
/// frame; a text is handed on; a close closes; a binary frame is left alone.
/// `location` is where the errors are made.
pub fn socket_answer(event: SocketEvent, table: &Vec<ServerError>, location: MizeCodeLocation) -> (r:
    SocketAnswer)
    ensures
        match event {
            SocketEvent::ReadFailed => r matches SocketAnswer::SendError(e) && made_error(
                e,
                115,
                table@,
                location,
                Seq::empty(),
            ),
            SocketEvent::Ping => r matches SocketAnswer::SendError(e) && made_error(
                e,
                11,
                table@,
                location,
                seq!["unhandeld WebSocket-Message type: Ping"@],
            ),
            SocketEvent::Pong => r matches SocketAnswer::SendError(e) && made_error(
                e,
                11,
                table@,
                location,
                seq!["unhandeld WebSocket-Message type: Pong"@],
            ),
            SocketEvent::Binary => r is Ignore,
            SocketEvent::Text => r is HandleText,
            SocketEvent::Close => r is Close,
        },
{
    match event {
        SocketEvent::ReadFailed => SocketAnswer::SendError(ServerError::new(115, table, location)),
        SocketEvent::Ping => {
            let e = ServerError::new(11, table, location).extra_msg("unhandeld WebSocket-Message type: Ping");
            assert(Seq::<Seq<char>>::empty().push("unhandeld WebSocket-Message type: Ping"@) =~= seq![
                "unhandeld WebSocket-Message type: Ping"@,
            ]);
            SocketAnswer::SendError(e)
        },
        SocketEvent::Pong => {
            let e = ServerError::new(11, table, location).extra_msg("unhandeld WebSocket-Message type: Pong");
            assert(Seq::<Seq<char>>::empty().push("unhandeld WebSocket-Message type: Pong"@) =~= seq![
                "unhandeld WebSocket-Message type: Pong"@,
            ]);
            SocketAnswer::SendError(e)
        },
        SocketEvent::Binary => SocketAnswer::Ignore,
        SocketEvent::Text => SocketAnswer::HandleText,
        SocketEvent::Close => SocketAnswer::Close,
    }
}

} // verus!
