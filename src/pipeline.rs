//! The two directions of a session as state machines. The caller reads a
//! socket, hands the bytes in, and writes out what comes back; each machine
//! keeps its codec state, its partial frame and its counters.

use vstd::prelude::*;
use crate::error::Error;
use crate::frame::{
    depad, pad_frame, padded, payload_of, sentinel_at, well_padded, lemma_depad_pad, IO_BUF_SZ,
    MAX_PLAINTEXT_SZ, PLAINTEXT_BUF_SZ, HEADER_SZ,
};
use crate::secretstream::{new_puller, new_pusher};
use crate::sodium::{sealed_msg, Puller, Pusher, KEY_SZ};

verus! {

/// The plaintext a frame forwards: its payload, or nothing when the frame
/// has no sentinel and is dropped.
pub open spec fn frame_payload(frame: Seq<u8>) -> Seq<u8> {
    if well_padded(frame) {
        payload_of(frame)
    } else {
        Seq::empty()
    }
}

/// The plaintext a sequence of frames forwards, in order.
pub open spec fn carried(frames: Seq<Seq<u8>>) -> Seq<u8>
    decreases frames.len(),
{
    if frames.len() == 0 {
        Seq::empty()
    } else {
        carried(frames.drop_last()) + frame_payload(frames.last())
    }
}

/// How many of the frames have no sentinel and so forward nothing.
pub open spec fn dropped_count(frames: Seq<Seq<u8>>) -> nat
    decreases frames.len(),
{
    if frames.len() == 0 {
        0
    } else {
        dropped_count(frames.drop_last()) + if well_padded(frames.last()) {
            0nat
        } else {
            1nat
        }
    }
}

proof fn lemma_dropped_push(frames: Seq<Seq<u8>>, f: Seq<u8>)
    ensures
        dropped_count(frames.push(f)) == dropped_count(frames) + if well_padded(f) {
            0nat
        } else {
            1nat
        },
        dropped_count(frames) <= frames.len(),
    decreases frames.len(),
{
    assert(frames.push(f).drop_last() =~= frames);
    if frames.len() > 0 {
        lemma_dropped_push(frames.drop_last(), frames.last());
        assert(frames.drop_last().push(frames.last()) =~= frames);
    }
}

/// One more frame forwards its payload after what the earlier ones forwarded.
pub proof fn lemma_carried_push(frames: Seq<Seq<u8>>, f: Seq<u8>)
    ensures
        carried(frames.push(f)) == carried(frames) + frame_payload(f),
{
    assert(frames.push(f).drop_last() =~= frames);
}

/// The bytes of a sequence of frames, one after the other.
pub open spec fn joined(frames: Seq<Seq<u8>>) -> Seq<u8>
    decreases frames.len(),
{
    if frames.len() == 0 {
        Seq::empty()
    } else {
        joined(frames.drop_last()) + frames.last()
    }
}

proof fn lemma_joined_push(frames: Seq<Seq<u8>>, f: Seq<u8>)
    ensures
        joined(frames.push(f)) == joined(frames) + f,
{
    assert(frames.push(f).drop_last() =~= frames);
}

proof fn lemma_mul_succ(x: int, c: int)
    ensures
        (x + 1) * c == x * c + c,
{
    assert((x + 1) * c == x * c + c) by (nonlinear_arith);
}

/// The encrypting direction: plaintext read from a socket becomes padded,
/// sealed frames of `IO_BUF_SZ` bytes.
pub struct Encryptor {
    pusher: Pusher,
    messages_transferred: usize,
    plaintext_bytes_transferred: usize,
    /// Every plaintext byte taken in so far.
    input: Ghost<Seq<u8>>,
    /// Every padded frame handed to the pusher so far, in order.
    sealed: Ghost<Seq<Seq<u8>>>,
    /// Every ciphertext frame handed back for sending so far, in order.
    frames_out: Ghost<Seq<Seq<u8>>>,
}

impl Encryptor {
    /// Frames sealed so far.
    pub closed spec fn messages(&self) -> nat {
        self.messages_transferred as nat
    }

    /// Plaintext bytes sealed so far.
    pub closed spec fn bytes(&self) -> nat {
        self.plaintext_bytes_transferred as nat
    }

    /// Every plaintext byte taken in so far.
    pub closed spec fn input(&self) -> Seq<u8> {
        self.input@
    }

    /// Every padded frame handed to the pusher so far, in order.
    pub closed spec fn sealed(&self) -> Seq<Seq<u8>> {
        self.sealed@
    }

    /// Every ciphertext frame handed back for sending so far, in order.
    pub closed spec fn frames_out(&self) -> Seq<Seq<u8>> {
        self.frames_out@
    }

    /// The key the direction seals under.
    pub closed spec fn key(&self) -> Seq<u8> {
        self.pusher.key()
    }

    /// The header the direction's stream started with.
    pub closed spec fn header(&self) -> Seq<u8> {
        self.pusher.header()
    }

    /// The pusher has sealed exactly the padded frames, and each frame sent
    /// is the sealing of its padded frame after the ones before it.
    pub closed spec fn sealing_kept(&self) -> bool {
        &&& self.pusher.sent() == self.sealed@
        &&& self.frames_out@.len() == self.sealed@.len()
        &&& forall|i: int|
            0 <= i < self.frames_out@.len() ==> (#[trigger] self.frames_out@[i]).len() == IO_BUF_SZ
        &&& forall|i: int|
            0 <= i < self.frames_out@.len() ==> #[trigger] self.frames_out@[i] == sealed_msg(
                self.pusher.key(),
                self.pusher.header(),
                self.sealed@.take(i),
                self.sealed@[i],
            )
    }

    /// The frames sealed so far are well padded and carry exactly the input;
    /// the counters are their number and the input's length.
    pub open spec fn wf(&self) -> bool {
        &&& self.input() == carried(self.sealed())
        &&& forall|i: int|
            0 <= i < self.sealed().len() ==> well_padded(#[trigger] self.sealed()[i])
                && self.sealed()[i].len() == PLAINTEXT_BUF_SZ
        &&& self.messages() == self.sealed().len()
        &&& self.bytes() == self.input().len()
        &&& self.sealing_kept()
    }

    /// Starts the direction under `key_data`: the machine, and the stream
    /// header to send before any frame. `KeyInit` exactly when the key is
    /// not `KEY_SZ` bytes.
    pub fn start(key_data: &[u8]) -> (r: Result<(Encryptor, Vec<u8>), Error>)
        ensures
            key_data@.len() == KEY_SZ <==> r is Ok,
            r matches Ok((e, header)) ==> {
                &&& e.wf()
                &&& e.sealed().len() == 0
                &&& e.input().len() == 0
                &&& e.frames_out().len() == 0
                &&& header@.len() == HEADER_SZ
                &&& e.key() == key_data@
                &&& e.header() == header@
            },
            r matches Err(err) ==> err == Error::KeyInit,
    {
        match new_pusher(key_data) {
            Ok((pusher, header)) => {
                let e = Encryptor {
                    pusher,
                    messages_transferred: 0,
                    plaintext_bytes_transferred: 0,
                    input: Ghost(Seq::empty()),
                    sealed: Ghost(Seq::empty()),
                    frames_out: Ghost(Seq::empty()),
                };
                Ok((e, header))
            },
            Err(err) => Err(err),
        }
    }

    /// Takes one read of plaintext. An empty read is the end of the stream:
    /// `Ok(None)`, nothing changes. Otherwise the bytes are padded into one
    /// frame and sealed, and the `IO_BUF_SZ`-byte ciphertext to send is
    /// returned.
    pub fn on_read(&mut self, data: &[u8]) -> (r: Result<Option<Vec<u8>>, Error>)
        requires
            old(self).wf(),
            data@.len() <= MAX_PLAINTEXT_SZ,
            old(self).messages() < usize::MAX,
            old(self).bytes() + data@.len() <= usize::MAX,
        ensures
            final(self).wf(),
            final(self).key() == old(self).key(),
            final(self).header() == old(self).header(),
            data@.len() == 0 <==> r matches Ok(None),
            data@.len() > 0 <==> r matches Ok(Some(_)),
            r matches Ok(None) ==> *final(self) == *old(self),
            r matches Ok(Some(c)) ==> {
                &&& c@.len() == IO_BUF_SZ
                &&& c@ == sealed_msg(old(self).key(), old(self).header(), old(self).sealed(), padded(data@))
                &&& final(self).sealed() == old(self).sealed().push(padded(data@))
                &&& final(self).frames_out() == old(self).frames_out().push(c@)
                &&& final(self).input() == old(self).input() + data@
            },
            final(self).messages() >= old(self).messages(),
            final(self).bytes() >= old(self).bytes(),
    {
        if data.len() == 0 {
            return Ok(None);
        }
        let frame = pad_frame(data);
        proof {
            lemma_depad_pad(data@);
        }
        match self.pusher.push(frame.as_slice()) {
            Ok(c) => {
                proof {
                    lemma_carried_push(self.sealed(), frame@);
                    assert(self.sealed().push(frame@).take(self.sealed().len() as int)
                        =~= self.sealed());
                    assert forall|i: int| 0 <= i < self.sealed().len() implies
                        #[trigger] self.sealed().push(frame@).take(i) == self.sealed().take(i) by {
                        assert(self.sealed().push(frame@).take(i) =~= self.sealed().take(i));
                    }
                }
                self.sealed = Ghost(self.sealed().push(frame@));
                self.frames_out = Ghost(self.frames_out().push(c@));
                self.input = Ghost(self.input() + data@);
                self.messages_transferred = self.messages_transferred + 1;
                self.plaintext_bytes_transferred = self.plaintext_bytes_transferred + data.len();
                Ok(Some(c))
            },
            Err(e) => Err(e),
        }
    }

    /// The counters: frames sent and plaintext bytes they carried.
    pub fn totals(&self) -> (r: (usize, usize))
        ensures
            r.0 == self.messages() && r.1 == self.bytes(),
    {
        (self.messages_transferred, self.plaintext_bytes_transferred)
    }
}

/// The decrypting direction: ciphertext read from a socket, in reads of up
/// to one frame, is cut into `IO_BUF_SZ`-byte frames that are opened in order and
/// depadded.
pub struct Decryptor {
    puller: Puller,
    buf: Vec<u8>,
    frames_dropped: usize,
    messages_transferred: usize,
    plaintext_bytes_transferred: usize,
    /// Every ciphertext byte taken in so far.
    received: Ghost<Seq<u8>>,
    /// Every ciphertext frame handed to the puller so far, in order.
    fed: Ghost<Seq<Seq<u8>>>,
    /// Every padded frame the puller opened so far, in order.
    opened: Ghost<Seq<Seq<u8>>>,
    /// Every plaintext byte handed back for forwarding so far.
    output: Ghost<Seq<u8>>,
}

impl Decryptor {
    /// Frames opened so far that had no sentinel and forwarded nothing.
    pub closed spec fn dropped(&self) -> nat {
        self.frames_dropped as nat
    }

    /// Frames opened so far.
    pub closed spec fn messages(&self) -> nat {
        self.messages_transferred as nat
    }

    /// Plaintext bytes forwarded so far.
    pub closed spec fn bytes(&self) -> nat {
        self.plaintext_bytes_transferred as nat
    }

    /// Every ciphertext byte taken in so far.
    pub closed spec fn received(&self) -> Seq<u8> {
        self.received@
    }

    /// Every ciphertext frame handed to the puller so far, in order.
    pub closed spec fn fed(&self) -> Seq<Seq<u8>> {
        self.fed@
    }

    /// Every padded frame the puller opened so far, in order: the `i`-th
    /// is what the puller made of the `i`-th frame fed to it.
    pub closed spec fn opened(&self) -> Seq<Seq<u8>> {
        self.opened@
    }

    /// Every plaintext byte handed back for forwarding so far.
    pub closed spec fn output(&self) -> Seq<u8> {
        self.output@
    }

    /// The bytes of a frame not yet complete.
    pub closed spec fn pending(&self) -> Seq<u8> {
        self.buf@
    }

    /// The key the direction opens under.
    pub closed spec fn key(&self) -> Seq<u8> {
        self.puller.key()
    }

    /// The header the direction's stream was started with.
    pub closed spec fn header(&self) -> Seq<u8> {
        self.puller.header()
    }

    /// The puller is in step and has opened exactly the frames logged as
    /// opened, and each
    /// frame fed that is the sealing of a message after the ones opened
    /// before it was opened to that message.
    pub closed spec fn opening_kept(&self) -> bool {
        &&& self.puller.in_step()
        &&& self.puller.opened() == self.opened@
        &&& forall|i: int, m: Seq<u8>|
            0 <= i < self.fed@.len() && m.len() <= PLAINTEXT_BUF_SZ && #[trigger] sealed_msg(
                self.puller.key(),
                self.puller.header(),
                self.opened@.take(i),
                m,
            ) == self.fed@[i] ==> self.opened@[i] == m
    }

    /// The ciphertext taken in is whole frames, one per opened frame, then
    /// less than one frame pending; the output is what the opened frames
    /// carry; the counters are their number, the output's length and the
    /// number of frames dropped; the puller stays in step.
    pub open spec fn wf(&self) -> bool {
        &&& self.pending().len() < IO_BUF_SZ
        &&& self.received().len() == self.opened().len() * IO_BUF_SZ + self.pending().len()
        &&& self.received() == joined(self.fed()) + self.pending()
        &&& self.fed().len() == self.opened().len()
        &&& forall|i: int|
            0 <= i < self.fed().len() ==> (#[trigger] self.fed()[i]).len() == IO_BUF_SZ
        &&& forall|i: int|
            0 <= i < self.opened().len() ==> (#[trigger] self.opened()[i]).len() == PLAINTEXT_BUF_SZ
        &&& self.output() == carried(self.opened())
        &&& self.output().len() <= self.opened().len() * MAX_PLAINTEXT_SZ
        &&& self.messages() == self.opened().len()
        &&& self.bytes() == self.output().len()
        &&& self.dropped() == dropped_count(self.opened())
        &&& self.opening_kept()
    }

    /// Starts the direction under `key_data` with the stream `header` read
    /// from the peer. `KeyInit` for a key that is not `KEY_SZ` bytes, else
    /// `HeaderInit` for a header that is not `HEADER_SZ` bytes, else the
    /// machine.
    pub fn start(key_data: &[u8], header: &[u8]) -> (r: Result<Decryptor, Error>)
        ensures
            key_data@.len() == KEY_SZ && header@.len() == HEADER_SZ <==> r is Ok,
            key_data@.len() != KEY_SZ <==> r == Err::<Decryptor, Error>(Error::KeyInit),
            key_data@.len() == KEY_SZ && header@.len() != HEADER_SZ <==> r == Err::<
                Decryptor,
                Error,
            >(Error::HeaderInit),
            r matches Ok(d) ==> {
                &&& d.wf()
                &&& d.received().len() == 0
                &&& d.fed().len() == 0
                &&& d.opened().len() == 0
                &&& d.key() == key_data@
                &&& d.header() == header@
            },
    {
        match new_puller(key_data, header) {
            Ok(puller) => {
                let d = Decryptor {
                    puller,
                    buf: Vec::with_capacity(IO_BUF_SZ),
                    frames_dropped: 0,
                    messages_transferred: 0,
                    plaintext_bytes_transferred: 0,
                    received: Ghost(Seq::empty()),
                    fed: Ghost(Seq::empty()),
                    opened: Ghost(Seq::empty()),
                    output: Ghost(Seq::empty()),
                };
                proof {
                    assert(carried(d.opened()) =~= Seq::empty());
                    assert(joined(d.fed()) + d.pending() =~= Seq::empty());
                }
                Ok(d)
            },
            Err(e) => Err(e),
        }
    }

    /// How many frames opened so far had no sentinel and were dropped.
    pub fn frames_dropped(&self) -> (r: usize)
        ensures
            r == self.dropped(),
    {
        self.frames_dropped
    }

    /// How many bytes of an incomplete frame are held.
    pub fn pending_len(&self) -> (r: usize)
        ensures
            r == self.pending().len(),
    {
        self.buf.len()
    }

    /// Takes one read of ciphertext, of at most one frame's size. An empty
    /// read is the end of the stream: `Ok(None)`, nothing changes, and a
    /// pending partial frame is dropped. Otherwise the bytes are appended to
    /// the pending frame. When that completes a frame, the frame is opened
    /// and depadded and its payload returned (nothing for a frame without a
    /// sentinel); else the result is empty. A frame that fails to open ends
    /// the direction with `DecryptMsg` (its 1-based index, its size, the
    /// plaintext bytes forwarded before it).
    pub fn on_read(&mut self, data: &[u8]) -> (r: Result<Option<Vec<u8>>, Error>)
        requires
            old(self).wf(),
            data@.len() <= IO_BUF_SZ,
            old(self).messages() < usize::MAX,
            old(self).bytes() + MAX_PLAINTEXT_SZ <= usize::MAX,
        ensures
            data@.len() == 0 <==> r matches Ok(None),
            r matches Ok(None) ==> *final(self) == *old(self),
            old(self).pending().len() + data@.len() < IO_BUF_SZ ==> r is Ok,
            r matches Ok(Some(out)) ==> {
                &&& final(self).wf()
                &&& final(self).received() == old(self).received() + data@
                &&& final(self).output() == old(self).output() + out@
                &&& old(self).pending().len() + data@.len() < IO_BUF_SZ ==> {
                    &&& final(self).fed() == old(self).fed()
                    &&& final(self).opened() == old(self).opened()
                    &&& out@.len() == 0
                }
                &&& old(self).pending().len() + data@.len() >= IO_BUF_SZ ==> {
                    &&& final(self).fed() == old(self).fed().push(
                        (old(self).pending() + data@).take(IO_BUF_SZ as int),
                    )
                    &&& final(self).opened().drop_last() == old(self).opened()
                    &&& final(self).opened().len() == old(self).opened().len() + 1
                    &&& out@ == frame_payload(final(self).opened().last())
                }
            },
            r is Ok ==> final(self).key() == old(self).key() && final(self).header() == old(
                self,
            ).header(),
            old(self).pending().len() + data@.len() >= IO_BUF_SZ ==> forall|m: Seq<u8>|
                m.len() <= PLAINTEXT_BUF_SZ && #[trigger] sealed_msg(
                    old(self).key(),
                    old(self).header(),
                    old(self).opened(),
                    m,
                ) == (old(self).pending() + data@).take(IO_BUF_SZ as int) ==> (r is Ok
                    && final(self).opened().last() == m),
            r matches Err(e) ==> e == Error::DecryptMsg(
                (old(self).messages() + 1) as usize,
                IO_BUF_SZ,
                old(self).bytes() as usize,
            ) && old(self).pending().len() + data@.len() >= IO_BUF_SZ,
    {
        if data.len() == 0 {
            return Ok(None);
        }
        let mut out: Vec<u8> = Vec::new();
        let ghost first = (old(self).pending() + data@).take(IO_BUF_SZ as int);
        let mut i: usize = 0;
        while i < data.len()
            invariant
                i <= data@.len() <= IO_BUF_SZ,
                old(self).wf(),
                old(self).messages() < usize::MAX,
                old(self).bytes() + MAX_PLAINTEXT_SZ <= usize::MAX,
                first == (old(self).pending() + data@).take(IO_BUF_SZ as int),
                self.wf(),
                self.key() == old(self).key(),
                self.header() == old(self).header(),
                self.received() == old(self).received() + data@.take(i as int),
                self.output() == old(self).output() + out@,
                old(self).pending().len() + i < IO_BUF_SZ ==> {
                    &&& self.fed() == old(self).fed()
                    &&& self.opened() == old(self).opened()
                    &&& self.pending() == old(self).pending() + data@.take(i as int)
                    &&& out@.len() == 0
                },
                old(self).pending().len() + i >= IO_BUF_SZ ==> {
                    &&& self.fed() == old(self).fed().push(first)
                    &&& self.opened().drop_last() == old(self).opened()
                    &&& self.opened().len() == old(self).opened().len() + 1
                    &&& out@ == frame_payload(self.opened().last())
                    &&& self.pending().len() == old(self).pending().len() + i - IO_BUF_SZ
                    &&& forall|m: Seq<u8>|
                        m.len() <= PLAINTEXT_BUF_SZ && #[trigger] sealed_msg(
                            old(self).key(),
                            old(self).header(),
                            old(self).opened(),
                            m,
                        ) == first ==> self.opened().last() == m
                },
            decreases data@.len() - i,
        {
            let ghost before = self.pending();
            self.buf.push(data[i]);
            proof {
                assert(old(self).received() + data@.take(i + 1) =~= self.received().push(
                    data@[i as int],
                ));
                if old(self).pending().len() + i < IO_BUF_SZ {
                    assert(old(self).pending() + data@.take(i + 1) =~= before.push(
                        data@[i as int],
                    ));
                }
                assert(joined(self.fed()) + self.buf@ =~= (joined(self.fed()) + before).push(
                    data@[i as int],
                ));
            }
            self.received = Ghost(self.received().push(data@[i as int]));
            i = i + 1;
            if self.buf.len() == IO_BUF_SZ {
                proof {
                    assert(old(self).pending().len() + i == IO_BUF_SZ);
                    assert(self.buf@ =~= first);
                }
                let seq = self.messages_transferred + 1;
                match self.puller.pull(self.buf.as_slice()) {
                    Err(_) => {
                        return Err(
                            Error::DecryptMsg(seq, IO_BUF_SZ, self.plaintext_bytes_transferred),
                        );
                    },
                    Ok(padded_pt) => {
                        match depad(padded_pt.as_slice()) {
                            Some(mut p) => {
                                proof {
                                    let q = choose|q: int| sentinel_at(padded_pt@, q);
                                    assert(sentinel_at(padded_pt@, q));
                                }
                                self.plaintext_bytes_transferred = self.plaintext_bytes_transferred
                                    + p.len();
                                self.output = Ghost(self.output() + p@);
                                out.append(&mut p);
                            },
                            None => {
                                proof {
                                    lemma_dropped_push(self.opened(), padded_pt@);
                                }
                                self.frames_dropped = self.frames_dropped + 1;
                            },
                        }
                        let ghost n = self.opened().len() as int;
                        proof {
                            lemma_carried_push(self.opened(), padded_pt@);
                            lemma_dropped_push(self.opened(), padded_pt@);
                            lemma_joined_push(self.fed(), self.buf@);
                            lemma_mul_succ(n, IO_BUF_SZ as int);
                            lemma_mul_succ(n, MAX_PLAINTEXT_SZ as int);
                            assert(self.opened().push(padded_pt@).drop_last() =~= self.opened());
                            assert(self.opened().push(padded_pt@).take(n) =~= self.opened());
                            assert forall|j: int| 0 <= j < n implies #[trigger] self.opened().push(
                                padded_pt@,
                            ).take(j) == self.opened().take(j) by {
                                assert(self.opened().push(padded_pt@).take(j) =~= self.opened().take(
                                    j,
                                ));
                            }
                        }
                        self.fed = Ghost(self.fed().push(self.buf@));
                        self.opened = Ghost(self.opened().push(padded_pt@));
                        self.messages_transferred = seq;
                        self.buf.clear();
                        proof {
                            assert(joined(self.fed()) + self.buf@ =~= joined(self.fed()));
                        }
                    },
                }
            }
        }
        proof {
            assert(data@.take(data@.len() as int) =~= data@);
        }
        Ok(Some(out))
    }

    /// The counters: frames opened and plaintext bytes forwarded.
    pub fn totals(&self) -> (r: (usize, usize))
        ensures
            r.0 == self.messages() && r.1 == self.bytes(),
    {
        (self.messages_transferred, self.plaintext_bytes_transferred)
    }
}

proof fn lemma_opened_prefix(e: &Encryptor, d: &Decryptor, i: int)
    requires
        e.wf(),
        d.wf(),
        d.key() == e.key(),
        d.header() == e.header(),
        d.fed() == e.frames_out(),
        0 <= i <= d.fed().len(),
    ensures
        d.opened().take(i) == e.sealed().take(i),
    decreases i,
{
    if i == 0 {
        assert(d.opened().take(0) =~= e.sealed().take(0));
    } else {
        let j = i - 1;
        lemma_opened_prefix(e, d, j);
        let m = e.sealed()[j];
        assert(e.frames_out()[j] == sealed_msg(e.key(), e.header(), e.sealed().take(j), m));
        assert(sealed_msg(d.key(), d.header(), d.opened().take(j), m) == d.fed()[j]);
        assert(d.opened()[j] == m);
        assert(d.opened().take(i) =~= e.sealed().take(i));
    }
}

/// Round trip: a decrypting direction under the key and header of an
/// encrypting direction, fed exactly the frames that it sent, in order,
/// opens exactly the frames it sealed and forwards exactly the bytes it
/// took in (none added, dropped or reordered), with the same counters.
pub proof fn lemma_round_trip(e: &Encryptor, d: &Decryptor)
    requires
        e.wf(),
        d.wf(),
        d.key() == e.key(),
        d.header() == e.header(),
        d.fed() == e.frames_out(),
    ensures
        d.opened() == e.sealed(),
        d.output() == e.input(),
        d.messages() == e.messages(),
        d.bytes() == e.bytes(),
{
    let n = d.fed().len() as int;
    lemma_opened_prefix(e, d, n);
    assert(d.opened().take(n) =~= d.opened());
    assert(e.sealed().take(n) =~= e.sealed());
}

proof fn lemma_joined_len(a: Seq<Seq<u8>>, l: int)
    requires
        forall|i: int| 0 <= i < a.len() ==> (#[trigger] a[i]).len() == l,
    ensures
        joined(a).len() == a.len() * l,
    decreases a.len(),
{
    if a.len() > 0 {
        lemma_joined_len(a.drop_last(), l);
        lemma_mul_succ(a.len() - 1, l);
    }
}

proof fn lemma_joined_eq(a: Seq<Seq<u8>>, b: Seq<Seq<u8>>, l: int)
    requires
        a.len() == b.len(),
        forall|i: int| 0 <= i < a.len() ==> (#[trigger] a[i]).len() == l,
        forall|i: int| 0 <= i < b.len() ==> (#[trigger] b[i]).len() == l,
        joined(a) == joined(b),
    ensures
        a == b,
    decreases a.len(),
{
    if a.len() == 0 {
        assert(a =~= b);
    } else {
        let a0 = a.drop_last();
        let b0 = b.drop_last();
        lemma_joined_len(a0, l);
        lemma_joined_len(b0, l);
        let ja = joined(a0);
        let jb = joined(b0);
        let n = joined(a).len() as int;
        assert(ja =~= joined(a).subrange(0, ja.len() as int));
        assert(jb =~= joined(b).subrange(0, jb.len() as int));
        assert(a.last() =~= joined(a).subrange(ja.len() as int, n));
        assert(b.last() =~= joined(b).subrange(jb.len() as int, n));
        lemma_joined_eq(a0, b0, l);
        assert(a =~= a0.push(a.last()));
        assert(b =~= b0.push(b.last()));
    }
}

/// Round trip over the wire, however it is read: a decrypting direction
/// under the key and header of an encrypting direction, that has taken in
/// exactly the bytes of the frames it sent, in reads of any sizes, has fed
/// the puller exactly those frames, holds nothing pending, and forwards
/// exactly the bytes the encrypting direction took in, with the same
/// counters.
pub proof fn lemma_round_trip_any_split(e: &Encryptor, d: &Decryptor)
    requires
        e.wf(),
        d.wf(),
        d.key() == e.key(),
        d.header() == e.header(),
        d.received() == joined(e.frames_out()),
    ensures
        d.fed() == e.frames_out(),
        d.pending().len() == 0,
        d.output() == e.input(),
        d.messages() == e.messages(),
        d.bytes() == e.bytes(),
{
    let l = IO_BUF_SZ as int;
    lemma_joined_len(d.fed(), l);
    lemma_joined_len(e.frames_out(), l);
    let x = d.fed().len() as int;
    let y = e.frames_out().len() as int;
    let p = d.pending().len() as int;
    assert(x * 529 + p == y * 529);
    assert(x == y && p == 0) by (nonlinear_arith)
        requires
            x * 529 + p == y * 529,
            0 <= p < 529,
            x >= 0,
            y >= 0,
    ;
    assert(joined(d.fed()) + d.pending() =~= joined(d.fed()));
    lemma_joined_eq(d.fed(), e.frames_out(), l);
    lemma_round_trip(e, d);
}

} // verus!
