//! Fixed-size plaintext frames with sentinel padding: the payload, one
//! `0x80` byte, then zeros up to `PLAINTEXT_BUF_SZ` bytes.

use vstd::prelude::*;

verus! {

/// Size of a padded plaintext frame.
pub const PLAINTEXT_BUF_SZ: usize = 512;

/// Largest payload a frame carries: one byte is always kept for the sentinel.
pub const MAX_PLAINTEXT_SZ: usize = PLAINTEXT_BUF_SZ - 1;

/// Authentication overhead that the secretstream primitive adds to a message.
pub const ABYTES: usize = 17;

/// Size of one ciphertext frame on the wire.
pub const IO_BUF_SZ: usize = PLAINTEXT_BUF_SZ + ABYTES;

/// Size of the stream header sent before the first frame of a direction.
pub const HEADER_SZ: usize = 24;

/// The byte that closes the payload inside a frame.
pub const SENTINEL: u8 = 0x80;

/// The frame that carries `payload`: the payload, the sentinel, then zeros.
pub open spec fn padded(payload: Seq<u8>) -> Seq<u8> {
    payload + seq![SENTINEL] + Seq::new(
        (PLAINTEXT_BUF_SZ - 1 - payload.len()) as nat,
        |i: int| 0u8,
    )
}

/// `frame` is a full-size frame whose sentinel stands at `p`: the byte at `p`
/// is `0x80` and every byte after it is zero.
pub open spec fn sentinel_at(frame: Seq<u8>, p: int) -> bool {
    &&& frame.len() == PLAINTEXT_BUF_SZ
    &&& 0 <= p < PLAINTEXT_BUF_SZ
    &&& frame[p] == SENTINEL
    &&& forall|i: int| p < i < PLAINTEXT_BUF_SZ ==> #[trigger] frame[i] == 0
}

/// `frame` is well padded: its sentinel stands somewhere.
pub open spec fn well_padded(frame: Seq<u8>) -> bool {
    exists|p: int| sentinel_at(frame, p)
}

/// The payload that a well-padded frame carries: the bytes before its sentinel.
pub open spec fn payload_of(frame: Seq<u8>) -> Seq<u8>
    recommends
        well_padded(frame),
{
    frame.take(choose|p: int| sentinel_at(frame, p))
}

/// A frame has at most one sentinel position.
pub proof fn lemma_sentinel_unique(frame: Seq<u8>, p: int, q: int)
    requires
        sentinel_at(frame, p),
        sentinel_at(frame, q),
    ensures
        p == q,
{
    if p < q {
        assert(frame[q] == 0);
    } else if q < p {
        assert(frame[p] == 0);
    }
}

/// Padding a payload of at most `MAX_PLAINTEXT_SZ` bytes gives a full frame
/// whose sentinel stands right after the payload.
pub proof fn lemma_padded_sentinel(payload: Seq<u8>)
    requires
        payload.len() <= MAX_PLAINTEXT_SZ,
    ensures
        padded(payload).len() == PLAINTEXT_BUF_SZ,
        sentinel_at(padded(payload), payload.len() as int),
        padded(payload).take(payload.len() as int) == payload,
{
    let f = padded(payload);
    assert(f.take(payload.len() as int) =~= payload);
    assert forall|i: int| payload.len() < i < PLAINTEXT_BUF_SZ implies #[trigger] f[i] == 0 by {}
}

/// Every padded frame is well formed: exactly one sentinel position, with
/// zeros after it, and the payload is exactly the bytes before it.
pub proof fn lemma_padding_well_formed(payload: Seq<u8>, p: int)
    requires
        payload.len() <= MAX_PLAINTEXT_SZ,
    ensures
        well_padded(padded(payload)),
        sentinel_at(padded(payload), p) <==> p == payload.len(),
        payload_of(padded(payload)) == payload,
{
    lemma_padded_sentinel(payload);
    let f = padded(payload);
    if sentinel_at(f, p) {
        lemma_sentinel_unique(f, p, payload.len() as int);
    }
    let q = choose|q: int| sentinel_at(f, q);
    lemma_sentinel_unique(f, q, payload.len() as int);
}

/// Depadding undoes padding: for every payload that fits a frame, the
/// payload read back from its padded frame is the payload itself.
pub proof fn lemma_depad_pad(payload: Seq<u8>)
    requires
        payload.len() <= MAX_PLAINTEXT_SZ,
    ensures
        well_padded(padded(payload)),
        payload_of(padded(payload)) == payload,
{
    lemma_padding_well_formed(payload, payload.len() as int);
}

/// Builds the frame that carries `payload`.
pub fn pad_frame(payload: &[u8]) -> (frame: Vec<u8>)
    requires
        payload@.len() <= MAX_PLAINTEXT_SZ,
    ensures
        frame@ == padded(payload@),
{
    let mut frame: Vec<u8> = Vec::with_capacity(PLAINTEXT_BUF_SZ);
    let mut i: usize = 0;
    while i < payload.len()
        invariant
            i <= payload@.len(),
            frame@ == payload@.take(i as int),
        decreases payload@.len() - i,
    {
        frame.push(payload[i]);
        i = i + 1;
        assert(frame@ =~= payload@.take(i as int));
    }
    assert(frame@ =~= payload@);
    frame.push(SENTINEL);
    let ghost head = frame@;
    while frame.len() < PLAINTEXT_BUF_SZ
        invariant
            head == payload@ + seq![SENTINEL],
            head.len() <= frame@.len() <= PLAINTEXT_BUF_SZ,
            frame@.take(head.len() as int) == head,
            forall|j: int| head.len() <= j < frame@.len() ==> #[trigger] frame@[j] == 0,
        decreases PLAINTEXT_BUF_SZ - frame@.len(),
    {
        frame.push(0);
        assert(frame@.take(head.len() as int) =~= head);
    }
    assert(frame@ =~= padded(payload@));
    frame
}

/// Finds the sentinel of a frame by scanning down from its last byte over
/// zeros; `None` when the frame has no sentinel.
pub fn find_sentinel(frame: &[u8]) -> (r: Option<usize>)
    requires
        frame@.len() == PLAINTEXT_BUF_SZ,
    ensures
        r matches Some(p) ==> sentinel_at(frame@, p as int),
        r is None ==> !well_padded(frame@),
{
    let mut end: usize = MAX_PLAINTEXT_SZ;
    while end > 0 && frame[end] == 0
        invariant
            frame@.len() == PLAINTEXT_BUF_SZ,
            end <= MAX_PLAINTEXT_SZ,
            forall|i: int| end < i < PLAINTEXT_BUF_SZ ==> #[trigger] frame@[i] == 0,
        decreases end,
    {
        end = end - 1;
    }
    if frame[end] == SENTINEL {
        Some(end)
    } else {
        assert forall|p: int| !sentinel_at(frame@, p) by {
            if sentinel_at(frame@, p) {
                if p < end {
                    assert(frame@[end as int] == 0);
                }
            }
        }
        None
    }
}

/// The payload of a frame: the bytes before its sentinel, or `None` for a
/// frame without one.
pub fn depad(frame: &[u8]) -> (r: Option<Vec<u8>>)
    requires
        frame@.len() == PLAINTEXT_BUF_SZ,
    ensures
        r is Some <==> well_padded(frame@),
        r matches Some(payload) ==> payload@ == payload_of(frame@),
{
    match find_sentinel(frame) {
        None => None,
        Some(end) => {
            proof {
                let q = choose|q: int| sentinel_at(frame@, q);
                lemma_sentinel_unique(frame@, q, end as int);
            }
            let mut payload: Vec<u8> = Vec::with_capacity(end);
            let mut i: usize = 0;
            while i < end
                invariant
                    end < frame@.len(),
                    i <= end,
                    payload@ == frame@.take(i as int),
                decreases end - i,
            {
                payload.push(frame[i]);
                i = i + 1;
                assert(payload@ =~= frame@.take(i as int));
            }
            Some(payload)
        }
    }
}

} // verus!
