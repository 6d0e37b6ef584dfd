//! The sodiumoxide secretstream, held behind trusted wrappers. Each value
//! carries a ghost model that only the wrappers here set, from what they
//! hand to and get back from sodiumoxide: a key's bytes, a stream's key and
//! header bytes, and the messages it sealed or opened so far.

use vstd::prelude::*;
use crate::frame::{ABYTES, HEADER_SZ, PLAINTEXT_BUF_SZ};
use sodiumoxide::crypto::secretstream::{Header, Key, Pull, Push, Stream, Tag};

verus! {

/// Size of a secretstream key.
pub const KEY_SZ: usize = 32;

#[verifier::external_type_specification]
#[verifier::external_body]
pub struct ExKey(Key);

#[verifier::external_type_specification]
#[verifier::external_body]
pub struct ExHeader(Header);

/// The ciphertext that `Stream::<Push>::push` gives for message `m` with
/// `Tag::Message` and no additional data, on a stream made by `init_push`
/// under `key` with header `header` that has pushed the messages `before`,
/// each with `Tag::Message` and no additional data.
pub uninterp spec fn sealed_msg(key: Seq<u8>, header: Seq<u8>, before: Seq<Seq<u8>>, m: Seq<u8>) -> Seq<u8>;

/// A secretstream key and its bytes.
pub struct SecretKey {
    key: Key,
    bytes: Ghost<Seq<u8>>,
}

/// A stream header and its bytes.
pub struct StreamHeader {
    header: Header,
    bytes: Ghost<Seq<u8>>,
}

/// A sodiumoxide `Stream<Push>`. Its type is generic over a trait that
/// Verus cannot declare, so it stays hidden here.
#[verifier::external_body]
struct SealStream {
    stream: Stream<Push>,
}

/// A sodiumoxide `Stream<Pull>`, held as `SealStream` holds its stream.
#[verifier::external_body]
struct OpenStream {
    stream: Stream<Pull>,
}

/// The sealing half of a secretstream.
pub struct Pusher {
    stream: SealStream,
    key: Ghost<Seq<u8>>,
    header: Ghost<Seq<u8>>,
    sent: Ghost<Seq<Seq<u8>>>,
}

/// The opening half of a secretstream.
pub struct Puller {
    stream: OpenStream,
    key: Ghost<Seq<u8>>,
    header: Ghost<Seq<u8>>,
    opened: Ghost<Seq<Seq<u8>>>,
    in_step: Ghost<bool>,
}

/// The tag that a pulled message carried.
#[derive(Debug, Clone, Copy, PartialEq, Eq, Structural)]
pub enum StreamTag {
    Message,
    Push,
    Rekey,
    Final,
}

impl SecretKey {
    /// The key's bytes.
    pub closed spec fn bytes(&self) -> Seq<u8> {
        self.bytes@
    }
}

impl StreamHeader {
    /// The header's bytes.
    pub closed spec fn bytes(&self) -> Seq<u8> {
        self.bytes@
    }
}

impl Pusher {
    /// The key the stream was made under.
    pub closed spec fn key(&self) -> Seq<u8> {
        self.key@
    }

    /// The header the stream was made with.
    pub closed spec fn header(&self) -> Seq<u8> {
        self.header@
    }

    /// The messages sealed so far, in order.
    pub closed spec fn sent(&self) -> Seq<Seq<u8>> {
        self.sent@
    }
}

impl Puller {
    /// The key the stream was made under.
    pub closed spec fn key(&self) -> Seq<u8> {
        self.key@
    }

    /// The header the stream was made with.
    pub closed spec fn header(&self) -> Seq<u8> {
        self.header@
    }

    /// The messages opened so far, in order, while in step.
    pub closed spec fn opened(&self) -> Seq<Seq<u8>> {
        self.opened@
    }

    /// Every pull so far succeeded with `Tag::Message`: the stream's state
    /// is then the one a pusher reaches after sealing `opened()`.
    pub closed spec fn in_step(&self) -> bool {
        self.in_step@
    }
}

/// Relies on `sodiumoxide::init`: `Ok` when libsodium initialized.
#[verifier::external_body]
pub(crate) fn sodium_init() -> (r: Result<(), ()>)
{
    sodiumoxide::init()
}

/// Relies on `Key::from_slice`: a key exactly when the slice has `KEYBYTES`
/// (32) bytes; the key is a copy of those bytes.
#[verifier::external_body]
pub(crate) fn key_from_slice(b: &[u8]) -> (r: Option<SecretKey>)
    ensures
        r is Some <==> b@.len() == KEY_SZ,
        r matches Some(k) ==> k.bytes() == b@,
{
    Key::from_slice(b).map(|key| SecretKey { key, bytes: Ghost(b@) })
}

/// Relies on `Header::from_slice`: a header exactly when the slice has
/// `HEADERBYTES` (24) bytes; the header is a copy of those bytes.
#[verifier::external_body]
pub(crate) fn header_from_slice(b: &[u8]) -> (r: Option<StreamHeader>)
    ensures
        r is Some <==> b@.len() == HEADER_SZ,
        r matches Some(h) ==> h.bytes() == b@,
{
    Header::from_slice(b).map(|header| StreamHeader { header, bytes: Ghost(b@) })
}

/// Relies on `Stream::init_push`: libsodium's
/// `crypto_secretstream_xchacha20poly1305_init_push` always returns 0, so
/// the result is a fresh pusher under the key, with the random header it
/// made (`Header`'s public field of `HEADERBYTES`, 24, bytes).
#[verifier::external_body]
pub(crate) fn init_push(k: &SecretKey) -> (r: Result<(Pusher, Vec<u8>), ()>)
    ensures
        r is Ok,
        r matches Ok((p, h)) ==> h@.len() == HEADER_SZ && p.key() == k.bytes() && p.header()
            == h@ && p.sent() == Seq::<Seq<u8>>::empty(),
{
    Stream::init_push(&k.key).map(|(stream, header)| {
        let h = header.0.to_vec();
        let p = Pusher {
            stream: SealStream { stream },
            key: Ghost(k.bytes@),
            header: Ghost(h@),
            sent: Ghost(Seq::empty()),
        };
        (p, h)
    })
}

/// Relies on `Stream::init_pull`: libsodium's
/// `crypto_secretstream_xchacha20poly1305_init_pull` always returns 0, so
/// the result is a puller under the key and header, with nothing pulled.
#[verifier::external_body]
pub(crate) fn init_pull(h: &StreamHeader, k: &SecretKey) -> (r: Result<Puller, ()>)
    ensures
        r is Ok,
        r matches Ok(p) ==> p.key() == k.bytes() && p.header() == h.bytes() && p.opened()
            == Seq::<Seq<u8>>::empty() && p.in_step(),
{
    Stream::init_pull(&h.header, &k.key).map(|stream| Puller {
        stream: OpenStream { stream },
        key: Ghost(k.bytes@),
        header: Ghost(h.bytes@),
        opened: Ghost(Seq::empty()),
        in_step: Ghost(true),
    })
}

/// Relies on `Stream::<Push>::push` with `Tag::Message` and no additional
/// data. No `Tag::Final` is ever pushed, so the stream is never finalized
/// and the push fails only for a message over `messagebytes_max()`, far
/// above a frame. The ciphertext is `ABYTES` (17) bytes longer than the
/// message and is `sealed_msg` of the stream's key, header and messages.
#[verifier::external_body]
pub(crate) fn seal_next(p: &mut Pusher, m: &[u8]) -> (r: Result<Vec<u8>, ()>)
    ensures
        final(p).key() == old(p).key(),
        final(p).header() == old(p).header(),
        m@.len() <= PLAINTEXT_BUF_SZ ==> r is Ok,
        r matches Ok(c) ==> c@.len() == m@.len() + ABYTES && c@ == sealed_msg(
            old(p).key(),
            old(p).header(),
            old(p).sent(),
            m@,
        ) && final(p).sent() == old(p).sent().push(m@),
        r is Err ==> final(p).sent() == old(p).sent(),
{
    p.stream.stream.push(m, None, Tag::Message)
}

/// Relies on `Stream::<Pull>::pull` with no additional data: `Err` for a
/// ciphertext shorter than `ABYTES` (17) bytes; otherwise the message,
/// `ABYTES` bytes shorter, and its tag. While in step, the ciphertext that
/// the matching pusher sealed as its next message opens to that message
/// with `Tag::Message`. Any other outcome leaves the stream out of step,
/// and nothing more is claimed of it.
#[verifier::external_body]
pub(crate) fn open_next(p: &mut Puller, c: &[u8]) -> (r: Result<(Vec<u8>, StreamTag), ()>)
    ensures
        final(p).key() == old(p).key(),
        final(p).header() == old(p).header(),
        c@.len() < ABYTES ==> r is Err,
        r matches Ok((m, _)) ==> m@.len() + ABYTES == c@.len(),
        final(p).in_step() == (old(p).in_step() && r matches Ok((_, StreamTag::Message))),
        final(p).in_step() ==> (r matches Ok((m, _)) && final(p).opened() == old(p).opened().push(
            m@,
        )),
        forall|m: Seq<u8>|
            old(p).in_step() && m.len() <= PLAINTEXT_BUF_SZ && #[trigger] sealed_msg(
                old(p).key(),
                old(p).header(),
                old(p).opened(),
                m,
            ) == c@ ==> (r matches Ok((v, StreamTag::Message)) && v@ == m),
{
    p.stream.stream.pull(c, None).map(|(m, tag)| {
        let t = match tag {
            Tag::Message => StreamTag::Message,
            Tag::Push => StreamTag::Push,
            Tag::Rekey => StreamTag::Rekey,
            Tag::Final => StreamTag::Final,
        };
        (m, t)
    })
}

} // verus!
