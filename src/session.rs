//! The decisions of the session supervisor: which direction runs on which
//! connection, which write half closes when a direction ends, and how the
//! end is reported.

use vstd::prelude::*;
use vstd::string::StringExecFns;
use crate::error::{decimal, decimal_string};

verus! {

/// One of the two local connections of a proxy: the one it accepted
/// (`Client`) or the one it dialled (`Server`).
#[derive(Debug, Clone, Copy, PartialEq, Eq, Structural)]
pub enum Side {
    Client,
    Server,
}

/// What a direction does to the bytes it reads.
#[derive(Debug, Clone, Copy, PartialEq, Eq, Structural)]
pub enum Direction {
    Encrypt,
    Decrypt,
}

/// The other connection.
pub open spec fn other(s: Side) -> Side {
    match s {
        Side::Client => Side::Server,
        Side::Server => Side::Client,
    }
}

/// The direction that reads from `reads_from`: a server-side proxy's client
/// is the peer proxy, whose ciphertext it decrypts, and a client-side
/// proxy's server is the peer proxy.
pub open spec fn direction_spec(is_server_proxy: bool, reads_from: Side) -> Direction {
    match (reads_from, is_server_proxy) {
        (Side::Client, true) => Direction::Decrypt,
        (Side::Server, true) => Direction::Encrypt,
        (Side::Client, false) => Direction::Encrypt,
        (Side::Server, false) => Direction::Decrypt,
    }
}

/// Who closed the connection that the direction reading `reads_from` saw end.
pub open spec fn closed_by_spec(is_server_proxy: bool, reads_from: Side) -> Seq<char> {
    match (reads_from, is_server_proxy) {
        (Side::Client, true) => "client proxy"@,
        (Side::Client, false) => "client"@,
        (Side::Server, true) => "server"@,
        (Side::Server, false) => "server proxy"@,
    }
}

/// The direction that runs on the bytes read from `reads_from`.
pub fn direction_for(is_server_proxy: bool, reads_from: Side) -> (r: Direction)
    ensures
        r == direction_spec(is_server_proxy, reads_from),
{
    if (reads_from == Side::Client) == is_server_proxy {
        Direction::Decrypt
    } else {
        Direction::Encrypt
    }
}

/// The connection that a direction writes to: the one it does not read.
pub fn writes_to(reads_from: Side) -> (r: Side)
    ensures
        r == other(reads_from),
{
    match reads_from {
        Side::Client => Side::Server,
        Side::Server => Side::Client,
    }
}

/// What the supervisor does when the first direction ends: the write half
/// to shut down, and who closed the session.
pub struct Shutdown {
    pub close: Side,
    pub closed_by: &'static str,
}

/// Called when the direction reading `reads_from` ends first: shut down the
/// write half it was feeding, so that the far end of that connection sees
/// the end of the stream too.
pub fn on_direction_done(is_server_proxy: bool, reads_from: Side) -> (r: Shutdown)
    ensures
        r.close == other(reads_from),
        r.closed_by@ == closed_by_spec(is_server_proxy, reads_from),
{
    let closed_by = match (reads_from, is_server_proxy) {
        (Side::Client, true) => "client proxy",
        (Side::Client, false) => "client",
        (Side::Server, true) => "server",
        (Side::Server, false) => "server proxy",
    };
    Shutdown { close: writes_to(reads_from), closed_by }
}

/// The end of a stream travels across the tunnel. Let an application end
/// (`from`) close its connection. The proxy next to it (the client-side
/// proxy for `Client`, the server-side one for `Server`) sees that on the
/// `from` connection, where it runs the encrypting direction, and shuts down
/// its write half on the other connection: the tunnel. The far proxy reads
/// the tunnel on its own `from` connection, where it runs the decrypting
/// direction; it sees the end there and shuts down its write half on the
/// other connection, toward the application at the far end.
pub proof fn lemma_eof_propagation(from: Side)
    ensures
        direction_spec(from == Side::Server, from) == Direction::Encrypt,
        direction_spec(from == Side::Client, from) == Direction::Decrypt,
        other(from) != from,
{
}

/// The line that reports how a direction ended.
pub open spec fn finish_text(closed_by: Seq<char>, result: Result<(usize, usize), String>) -> Seq<
    char,
> {
    match result {
        Ok((messages, bytes)) => "closed_by="@ + closed_by + " messages="@ + decimal(
            messages as nat,
        ) + " bytes_transferred="@ + decimal(bytes as nat) + " done"@,
        Err(e) => e@,
    }
}

/// Reports how a direction ended: its counters when it ran to the end of
/// its stream, the failure's own words otherwise.
pub fn reader_finish(closed_by: &str, result: &Result<(usize, usize), String>) -> (r: String)
    ensures
        r@ == finish_text(closed_by@, *result),
{
    match result {
        Ok((messages, bytes)) => {
            let mut s = String::from_str("closed_by=");
            s.append(closed_by);
            s.append(" messages=");
            let d = decimal_string(*messages);
            s.append(d.as_str());
            s.append(" bytes_transferred=");
            let d = decimal_string(*bytes);
            s.append(d.as_str());
            s.append(" done");
            s
        },
        Err(e) => e.clone(),
    }
}

} // verus!
