//! The reverse-tunnel client's greeting: the fixed upgrade request it sends
//! a tunnel server, built from the device identity and the server name.

use vstd::prelude::*;

verus! {

/// The greeting sent to a tunnel server, with its two holes filled.
pub open spec fn spec_helo(identity: Seq<char>, remotename: Seq<char>) -> Seq<char> {
    "GET /lifeline/1 HTTP/1.1\r\nHost: "@ + remotename
        + "\r\nUpgrade: websocket\r\nConnection: Upgrade\r\nUser-Agent: Mozilla/5.0 (X11; Linux x86_64) AppleWebKit/537.36 (KHTML, like Gecko) Chrome/51.0.2704.63 Safari/537.36\r\nSec-WebSocket-Key: x3JJHMbDL1EzLkh9GBhXDw==\r\nSec-WebSocket-Protocol: chat, superchat\r\nSec-WebSocket-Version: 13\r\nX-LF-Name: "@
        + identity + "\r\n\r\n"@
}

/// Builds the greeting for a tunnel server.
pub fn build_helo(identity: &str, remotename: &str) -> (r: String)
    ensures
        r@ == spec_helo(identity@, remotename@),
{
    let mut out = String::from_str("GET /lifeline/1 HTTP/1.1\r\nHost: ");
    out.append(remotename);
    out.append(
        "\r\nUpgrade: websocket\r\nConnection: Upgrade\r\nUser-Agent: Mozilla/5.0 (X11; Linux x86_64) AppleWebKit/537.36 (KHTML, like Gecko) Chrome/51.0.2704.63 Safari/537.36\r\nSec-WebSocket-Key: x3JJHMbDL1EzLkh9GBhXDw==\r\nSec-WebSocket-Protocol: chat, superchat\r\nSec-WebSocket-Version: 13\r\nX-LF-Name: ",
    );
    out.append(identity);
    out.append("\r\n\r\n");
    proof {
        assert(out@ =~= spec_helo(identity@, remotename@));
    }
    out
}

/// The process logger: carries no state of its own; what it does with a
/// record is the runtime's affair.
pub struct Logger {}

impl Logger {
    /// Creates the logger.
    pub fn new() -> (r: Self)
        ensures
            r == (Logger {  }),
    {
        Self {  }
    }
}

} // verus!
