use wormhole::frame::{
    depad, find_sentinel, pad_frame, ABYTES, HEADER_SZ, IO_BUF_SZ, MAX_PLAINTEXT_SZ,
    PLAINTEXT_BUF_SZ, SENTINEL,
};

#[test]
fn sizes_are_canonical() {
    assert_eq!(PLAINTEXT_BUF_SZ, 512);
    assert_eq!(MAX_PLAINTEXT_SZ, 511);
    assert_eq!(ABYTES, 17);
    assert_eq!(IO_BUF_SZ, 529);
    assert_eq!(HEADER_SZ, 24);
    assert_eq!(SENTINEL, 0x80);
}

#[test]
fn pad_small_payload() {
    let f = pad_frame(b"abc");
    assert_eq!(f.len(), 512);
    assert_eq!(&f[..3], b"abc");
    assert_eq!(f[3], 0x80);
    assert!(f[4..].iter().all(|b| *b == 0));
}

#[test]
fn pad_empty_payload() {
    let f = pad_frame(&[]);
    assert_eq!(f.len(), 512);
    assert_eq!(f[0], 0x80);
    assert!(f[1..].iter().all(|b| *b == 0));
    assert_eq!(find_sentinel(&f), Some(0));
    assert_eq!(depad(&f), Some(vec![]));
}

#[test]
fn pad_full_payload_keeps_one_sentinel_byte() {
    let payload = vec![0xAAu8; 511];
    let f = pad_frame(&payload);
    assert_eq!(f.len(), 512);
    assert_eq!(f[511], 0x80);
    assert_eq!(find_sentinel(&f), Some(511));
    assert_eq!(depad(&f), Some(payload));
}

#[test]
fn depad_undoes_pad_on_awkward_payloads() {
    let cases: Vec<Vec<u8>> = vec![
        vec![0x80],
        vec![0x00, 0x00],
        vec![0x80, 0x00, 0x80, 0x00],
        (0..300).map(|i| (i % 256) as u8).collect(),
        vec![0u8; 511],
    ];
    for p in cases {
        let f = pad_frame(&p);
        assert_eq!(find_sentinel(&f), Some(p.len()));
        assert_eq!(depad(&f), Some(p));
    }
}

#[test]
fn padding_has_exactly_one_sentinel_position() {
    let p: Vec<u8> = vec![1, 2, 0x80, 3];
    let f = pad_frame(&p);
    let positions: Vec<usize> = (0..512)
        .filter(|&q| f[q] == 0x80 && f[q + 1..].iter().all(|b| *b == 0))
        .collect();
    assert_eq!(positions, vec![4]);
}

#[test]
fn frame_without_sentinel_is_rejected() {
    let zeros = vec![0u8; 512];
    assert_eq!(find_sentinel(&zeros), None);
    assert_eq!(depad(&zeros), None);
    let mut junk = vec![0u8; 512];
    junk[100] = 0x41;
    assert_eq!(find_sentinel(&junk), None);
    assert_eq!(depad(&junk), None);
}

#[test]
fn sentinel_followed_by_nonzero_is_not_a_sentinel() {
    let mut f = vec![0u8; 512];
    f[10] = 0x80;
    f[20] = 0x01;
    assert_eq!(depad(&f), None);
    f[20] = 0x80;
    assert_eq!(depad(&f), Some(f[..20].to_vec()));
}
