//! The secretstream codec: a pusher that seals plaintext messages in order
//! and a puller that opens them in the same order, both over a pre-shared
//! key. A puller opens exactly what the pusher with its key and header
//! sealed, message by message.

use vstd::prelude::*;
use crate::error::Error;
use crate::frame::{ABYTES, HEADER_SZ, PLAINTEXT_BUF_SZ};
use crate::sodium::{
    header_from_slice, init_pull, init_push, key_from_slice, open_next, seal_next, sealed_msg,
    sodium_init, Puller, Pusher, StreamTag, KEY_SZ,
};

verus! {

/// Initializes the crypto library once per process, before any stream is
/// made; `LibInit` where it fails.
pub fn init_library() -> (r: Result<(), Error>)
    ensures
        r matches Err(e) ==> e == Error::LibInit,
{
    match sodium_init() {
        Ok(()) => Ok(()),
        Err(()) => Err(Error::LibInit),
    }
}

/// Starts a stream under `key_data`: a pusher and the header that the peer
/// needs to open it. `KeyInit` exactly when the key is not `KEY_SZ` bytes.
pub fn new_pusher(key_data: &[u8]) -> (r: Result<(Pusher, Vec<u8>), Error>)
    ensures
        key_data@.len() == KEY_SZ <==> r is Ok,
        r matches Ok((p, header)) ==> header@.len() == HEADER_SZ && p.key() == key_data@
            && p.header() == header@ && p.sent() == Seq::<Seq<u8>>::empty(),
        r matches Err(e) ==> e == Error::KeyInit,
{
    let key = match key_from_slice(key_data) {
        Some(k) => k,
        None => return Err(Error::KeyInit),
    };
    match init_push(&key) {
        Ok((p, h)) => Ok((p, h)),
        Err(_) => Err(Error::EncryptionStreamInit),
    }
}

/// Opens the stream that `header` started under `key_data`. `KeyInit` when
/// the key is not `KEY_SZ` bytes long, else `HeaderInit` when the header is
/// not `HEADER_SZ` bytes long, else a puller.
pub fn new_puller(key_data: &[u8], header: &[u8]) -> (r: Result<Puller, Error>)
    ensures
        key_data@.len() == KEY_SZ && header@.len() == HEADER_SZ <==> r is Ok,
        key_data@.len() != KEY_SZ <==> r == Err::<Puller, Error>(Error::KeyInit),
        key_data@.len() == KEY_SZ && header@.len() != HEADER_SZ <==> r == Err::<Puller, Error>(
            Error::HeaderInit,
        ),
        r matches Ok(p) ==> p.key() == key_data@ && p.header() == header@ && p.opened()
            == Seq::<Seq<u8>>::empty() && p.in_step(),
{
    let key = match key_from_slice(key_data) {
        Some(k) => k,
        None => return Err(Error::KeyInit),
    };
    let h = match header_from_slice(header) {
        Some(h) => h,
        None => return Err(Error::HeaderInit),
    };
    match init_pull(&h, &key) {
        Ok(p) => Ok(p),
        Err(_) => Err(Error::DecryptionStreamInit),
    }
}

/// Checks a key's length before anything else is done with it: `KeyInit`
/// exactly when it is not `KEY_SZ` bytes.
pub fn check_key(key_data: &[u8]) -> (r: Result<(), Error>)
    ensures
        key_data@.len() == KEY_SZ <==> r is Ok,
        r matches Err(e) ==> e == Error::KeyInit,
{
    match key_from_slice(key_data) {
        Some(_) => Ok(()),
        None => Err(Error::KeyInit),
    }
}

impl Pusher {
    /// Seals the next message of the stream: `sealed_msg` of the stream's
    /// key, header and earlier messages, `ABYTES` longer than the message.
    /// A message of up to a frame's size is always sealed.
    pub fn push(&mut self, plaintext: &[u8]) -> (r: Result<Vec<u8>, Error>)
        ensures
            final(self).key() == old(self).key(),
            final(self).header() == old(self).header(),
            plaintext@.len() <= PLAINTEXT_BUF_SZ ==> r is Ok,
            r matches Ok(c) ==> c@.len() == plaintext@.len() + ABYTES && c@ == sealed_msg(
                old(self).key(),
                old(self).header(),
                old(self).sent(),
                plaintext@,
            ) && final(self).sent() == old(self).sent().push(plaintext@),
            r matches Err(e) ==> e == Error::EncryptMsg && final(self).sent() == old(self).sent(),
    {
        match seal_next(self, plaintext) {
            Ok(c) => Ok(c),
            Err(_) => Err(Error::EncryptMsg),
        }
    }
}

impl Puller {
    /// Opens the next message of the stream: the plaintext is `ABYTES`
    /// shorter than `ciphertext`. A message that does not carry the ordinary
    /// message tag is refused. While in step, the ciphertext that the
    /// matching pusher sealed as its next message opens to that message.
    /// `Err` for a ciphertext too short to hold the overhead, and for one
    /// that fails authentication: tampered, out of order, replayed or sealed
    /// under another key.
    pub fn pull(&mut self, ciphertext: &[u8]) -> (r: Result<Vec<u8>, ()>)
        ensures
            final(self).key() == old(self).key(),
            final(self).header() == old(self).header(),
            ciphertext@.len() < ABYTES ==> r is Err,
            r matches Ok(m) ==> m@.len() + ABYTES == ciphertext@.len(),
            final(self).in_step() == (old(self).in_step() && r is Ok),
            final(self).in_step() ==> (r matches Ok(m) && final(self).opened() == old(
                self,
            ).opened().push(m@)),
            forall|m: Seq<u8>|
                old(self).in_step() && m.len() <= PLAINTEXT_BUF_SZ && #[trigger] sealed_msg(
                    old(self).key(),
                    old(self).header(),
                    old(self).opened(),
                    m,
                ) == ciphertext@ ==> (r matches Ok(v) && v@ == m),
    {
        match open_next(self, ciphertext) {
            Ok((m, StreamTag::Message)) => Ok(m),
            Ok(_) => Err(()),
            Err(_) => Err(()),
        }
    }
}

} // verus!
