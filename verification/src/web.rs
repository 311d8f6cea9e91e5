//! The web server of an instance: where its socket endpoint is.
use vstd::prelude::*;

verus! {

/// The port the web server listens on.
pub const SERVER_PORT: u16 = 3000;

/// A running web server.
#[derive(Debug)]
pub struct Web {}

impl Web {
    /// The route of the websocket endpoint, `/@mize/socket`.
    pub fn socket_route() -> (r: String)
        ensures
            r@ == "/@mize/socket"@,
    {
        let mut s = String::from_str("/");
        s.append("@mize");
        s.append("/socket");
        proof {
            reveal_strlit("/");
            reveal_strlit("@mize");
            reveal_strlit("/socket");
            reveal_strlit("/@mize/socket");
        }
        assert(s@ =~= "/@mize/socket"@);
        s
    }
}

} // verus!
