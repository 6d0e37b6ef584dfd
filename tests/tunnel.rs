use wormhole::error::Error;
use wormhole::frame::{HEADER_SZ, IO_BUF_SZ, MAX_PLAINTEXT_SZ};
use wormhole::pipeline::{Decryptor, Encryptor};
use wormhole::secretstream::{check_key, init_library, new_puller, new_pusher};

fn key(b: u8) -> Vec<u8> {
    vec![b; 32]
}

/// Feeds `data` to a fresh encrypting direction in reads of at most
/// `read_sz` bytes; returns the header, the frames, and the final counters.
fn seal(key: &[u8], data: &[u8], read_sz: usize) -> (Vec<u8>, Vec<Vec<u8>>, (usize, usize)) {
    init_library().unwrap();
    let (mut e, header) = Encryptor::start(key).unwrap();
    let mut frames = Vec::new();
    for chunk in data.chunks(read_sz) {
        frames.push(e.on_read(chunk).unwrap().unwrap());
    }
    assert!(e.on_read(&[]).unwrap().is_none());
    (header, frames, e.totals())
}

/// Feeds a wire (after its header) to a fresh decrypting direction in reads
/// of `read_sz` bytes (at most one frame), then the end of the stream.
fn open(key: &[u8], header: &[u8], wire: &[u8], read_sz: usize) -> Result<(Vec<u8>, (usize, usize)), Error> {
    let mut d = Decryptor::start(key, header)?;
    let mut out = Vec::new();
    for chunk in wire.chunks(read_sz) {
        out.extend(d.on_read(chunk)?.unwrap());
    }
    assert!(d.on_read(&[]).unwrap().is_none());
    Ok((out, d.totals()))
}

fn lcg_bytes(seed: u64, n: usize) -> Vec<u8> {
    let mut x = seed;
    (0..n)
        .map(|_| {
            x = x.wrapping_mul(6364136223846793005).wrapping_add(1442695040888963407);
            (x >> 33) as u8
        })
        .collect()
}

#[test]
fn small_payload_is_one_frame() {
    let (header, frames, totals) = seal(&key(1), b"hello", MAX_PLAINTEXT_SZ);
    assert_eq!(header.len(), 24);
    assert_eq!(frames.len(), 1);
    assert_eq!(frames[0].len(), 529);
    assert_eq!(totals, (1, 5));
    let (out, totals) = open(&key(1), &header, &frames.concat(), IO_BUF_SZ).unwrap();
    assert_eq!(out, b"hello".to_vec());
    assert_eq!(totals, (1, 5));
}

#[test]
fn exact_frame_boundary_payload() {
    let data = vec![0xAAu8; 511];
    let (header, frames, _) = seal(&key(2), &data, MAX_PLAINTEXT_SZ);
    assert_eq!(frames.len(), 1);
    assert_eq!(frames[0].len(), IO_BUF_SZ);
    let (out, totals) = open(&key(2), &header, &frames.concat(), 100).unwrap();
    assert_eq!(out, data);
    assert_eq!(totals, (1, 511));
}

#[test]
fn multi_frame_payload() {
    let data: Vec<u8> = (0..2000).map(|i| (i % 256) as u8).collect();
    let (header, frames, totals) = seal(&key(3), &data, MAX_PLAINTEXT_SZ);
    assert_eq!(frames.len(), 4);
    assert!(frames.iter().all(|f| f.len() == 529));
    assert_eq!(totals, (4, 2000));
    let mut d = Decryptor::start(&key(3), &header).unwrap();
    let mut sizes = Vec::new();
    let mut out = Vec::new();
    for f in &frames {
        let p = d.on_read(f).unwrap().unwrap();
        sizes.push(p.len());
        out.extend(p);
    }
    assert_eq!(sizes, vec![511, 511, 511, 467]);
    assert_eq!(out, data);
    assert_eq!(d.totals(), (4, 2000));
}

#[test]
fn round_trip_with_any_read_sizes() {
    let data = lcg_bytes(42, 5000);
    for enc_read in [1usize, 7, 300, 511] {
        let (header, frames, totals) = seal(&key(4), &data, enc_read);
        assert_eq!(totals, (frames.len(), 5000));
        let wire = frames.concat();
        for dec_read in [1usize, 13, 200, 528, 529] {
            let (out, t) = open(&key(4), &header, &wire, dec_read).unwrap();
            assert_eq!(out, data);
            assert_eq!(t, totals);
        }
    }
}

#[test]
fn bidirectional_streams_are_independent() {
    let up = lcg_bytes(1, 1 << 20);
    let down = lcg_bytes(2, 1 << 20);
    let (h_up, f_up, _) = seal(&key(5), &up, MAX_PLAINTEXT_SZ);
    let (h_down, f_down, _) = seal(&key(5), &down, 400);
    let (out_up, _) = open(&key(5), &h_up, &f_up.concat(), IO_BUF_SZ).unwrap();
    let (out_down, _) = open(&key(5), &h_down, &f_down.concat(), 300).unwrap();
    assert_eq!(out_up, up);
    assert_eq!(out_down, down);
}

#[test]
fn wrong_key_fails_first_pull() {
    let (header, frames, _) = seal(&key(6), b"secret", MAX_PLAINTEXT_SZ);
    let r = open(&key(7), &header, &frames.concat(), IO_BUF_SZ);
    assert_eq!(r.unwrap_err(), Error::DecryptMsg(1, 529, 0));
}

#[test]
fn truncated_frame_is_discarded_at_eof() {
    let (header, frames, _) = seal(&key(8), b"hello", MAX_PLAINTEXT_SZ);
    let mut d = Decryptor::start(&key(8), &header).unwrap();
    let out = d.on_read(&frames[0][..200]).unwrap().unwrap();
    assert!(out.is_empty());
    assert_eq!(d.pending_len(), 200);
    assert!(d.on_read(&[]).unwrap().is_none());
    assert_eq!(d.totals(), (0, 0));
}

#[test]
fn read_straddling_two_frames() {
    let data = vec![0x44u8; 600];
    let (header, frames, _) = seal(&key(15), &data, 300);
    let wire = frames.concat();
    let mut d = Decryptor::start(&key(15), &header).unwrap();
    assert_eq!(d.on_read(&wire[..400]).unwrap().unwrap().len(), 0);
    assert_eq!(d.pending_len(), 400);
    assert_eq!(d.on_read(&wire[400..929]).unwrap().unwrap(), vec![0x44u8; 300]);
    assert_eq!(d.pending_len(), 400);
    assert_eq!(d.on_read(&wire[929..]).unwrap().unwrap(), vec![0x44u8; 300]);
    assert_eq!(d.pending_len(), 0);
    assert_eq!(d.totals(), (2, 600));
}

#[test]
fn flipped_bit_is_rejected() {
    let data = vec![0x11u8; 1500];
    let (header, frames, _) = seal(&key(9), &data, MAX_PLAINTEXT_SZ);
    for byte in [0usize, 100, 528] {
        for bit in [0u8, 7] {
            let mut tampered = frames.clone();
            tampered[1][byte] ^= 1 << bit;
            let r = open(&key(9), &header, &tampered.concat(), IO_BUF_SZ);
            assert_eq!(r.unwrap_err(), Error::DecryptMsg(2, 529, 511));
        }
    }
}

#[test]
fn reordered_frames_are_rejected() {
    let data = vec![0x22u8; 1500];
    let (header, frames, _) = seal(&key(10), &data, MAX_PLAINTEXT_SZ);
    let swapped = vec![frames[1].clone(), frames[0].clone(), frames[2].clone()];
    let r = open(&key(10), &header, &swapped.concat(), IO_BUF_SZ);
    assert_eq!(r.unwrap_err(), Error::DecryptMsg(1, 529, 0));
}

#[test]
fn replayed_frame_is_rejected() {
    let data = vec![0x33u8; 1500];
    let (header, frames, _) = seal(&key(11), &data, MAX_PLAINTEXT_SZ);
    let replayed = vec![frames[0].clone(), frames[0].clone()];
    let r = open(&key(11), &header, &replayed.concat(), IO_BUF_SZ);
    assert_eq!(r.unwrap_err(), Error::DecryptMsg(2, 529, 511));
}

#[test]
fn counters_grow_with_each_read() {
    init_library().unwrap();
    let (mut e, _) = Encryptor::start(&key(12)).unwrap();
    assert_eq!(e.totals(), (0, 0));
    e.on_read(b"ab").unwrap();
    assert_eq!(e.totals(), (1, 2));
    e.on_read(&[0u8; 511]).unwrap();
    assert_eq!(e.totals(), (2, 513));
    assert!(e.on_read(&[]).unwrap().is_none());
    assert_eq!(e.totals(), (2, 513));
}

#[test]
fn bad_key_and_header_lengths() {
    init_library().unwrap();
    assert_eq!(Encryptor::start(&[0u8; 31]).err(), Some(Error::KeyInit));
    assert_eq!(Decryptor::start(&[0u8; 33], &[0u8; 24]).err(), Some(Error::KeyInit));
    assert_eq!(Decryptor::start(&[0u8; 32], &[0u8; 23]).err(), Some(Error::HeaderInit));
    assert_eq!(new_pusher(&[]).err(), Some(Error::KeyInit));
    assert_eq!(new_puller(&[0u8; 32], &[0u8; 25]).err(), Some(Error::HeaderInit));
}

#[test]
fn codec_lengths() {
    init_library().unwrap();
    let (mut pusher, header) = new_pusher(&key(13)).unwrap();
    assert_eq!(header.len(), HEADER_SZ);
    let c = pusher.push(b"xyz").unwrap();
    assert_eq!(c.len(), 3 + 17);
    assert_ne!(&c[..3], b"xyz");
    let mut puller = new_puller(&key(13), &header).unwrap();
    assert!(puller.pull(&c[..10]).is_err());
    assert_eq!(puller.pull(&c).unwrap(), b"xyz".to_vec());
}

#[test]
fn headers_differ_between_streams() {
    let (h1, _, _) = seal(&key(14), b"a", 1);
    let (h2, _, _) = seal(&key(14), b"a", 1);
    assert_ne!(h1, h2);
}

#[test]
fn key_length_is_checked_first() {
    assert_eq!(check_key(&[0u8; 32]), Ok(()));
    assert_eq!(check_key(&[0u8; 31]), Err(Error::KeyInit));
    assert_eq!(check_key(&[]), Err(Error::KeyInit));
}

#[test]
fn immediate_eof_sends_only_the_header() {
    let (header, frames, totals) = seal(&[0u8; 32], &[], 1);
    assert_eq!(header.len(), HEADER_SZ);
    assert!(frames.is_empty());
    assert_eq!(totals, (0, 0));
}

#[test]
fn frame_without_sentinel_is_dropped_and_counted() {
    init_library().unwrap();
    let (mut pusher, header) = new_pusher(&key(16)).unwrap();
    let good = pusher.push(&wormhole::frame::pad_frame(b"ok")).unwrap();
    let bad = pusher.push(&[0u8; 512]).unwrap();
    let mut d = Decryptor::start(&key(16), &header).unwrap();
    assert_eq!(d.on_read(&good).unwrap().unwrap(), b"ok".to_vec());
    assert_eq!(d.frames_dropped(), 0);
    assert!(d.on_read(&bad).unwrap().unwrap().is_empty());
    assert_eq!(d.frames_dropped(), 1);
    assert_eq!(d.totals(), (2, 2));
}

#[test]
fn puller_refuses_a_message_with_another_tag() {
    init_library().unwrap();
    let k = sodiumoxide::crypto::secretstream::Key::from_slice(&key(17)).unwrap();
    let (mut s, h) = sodiumoxide::crypto::secretstream::Stream::init_push(&k).unwrap();
    let c = s
        .push(b"end", None, sodiumoxide::crypto::secretstream::Tag::Final)
        .unwrap();
    let mut puller = new_puller(&key(17), &h.0).unwrap();
    assert!(puller.pull(&c).is_err());
}
