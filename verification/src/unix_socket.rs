//! Connections over a local socket in the folder of a store: where the socket
//! is, and what a value read from it means.
use vstd::prelude::*;
use crate::error::MizeResult;
use crate::value::{Cbor, CborValue};
use crate::proto::MizeMessage;
use crate::fsstore::{join_path, join_path_spec};

verus! {

/// Listens for connections on the socket of a store.
#[derive(Debug)]
pub struct UnixListener {
    sock_path: String,
}

impl UnixListener {
    /// A listener on the socket `sock` in the folder of the store.
    pub fn new(store_path: &str) -> (r: MizeResult<UnixListener>)
        ensures
            r matches Ok(l) && l.sock_path_view() == join_path_spec(store_path@, "sock"@),
    {
        Ok(UnixListener { sock_path: join_path(store_path, "sock") })
    }

    pub closed spec fn sock_path_view(&self) -> Seq<char> {
        self.sock_path@
    }

    /// Where the socket is.
    pub fn sock_path(&self) -> (r: &str)
        ensures
            r@ == self.sock_path_view(),
    {
        self.sock_path.as_str()
    }
}

/// What a value read from a connection means: an integer ends the
/// connection; any other value is a message that came in on it.
pub fn incoming_message(value: CborValue, conn_id: u64) -> (r: Option<MizeMessage>)
    ensures
        match value@ {
            Cbor::Integer(_) => r is None,
            _ => r matches Some(m) && m@.value == value@ && m@.conn_id == conn_id,
        },
{
    match value {
        CborValue::Integer(_) => None,
        v => Some(MizeMessage::new(v, conn_id)),
    }
}

} // verus!
