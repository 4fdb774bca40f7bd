use iroha_consensus::codec::{bytes_eq, push_all, put_bytes, put_u64};

#[test]
fn compact_length_prefixes() {
    let mut out = Vec::new();
    put_bytes(&mut out, &[7, 8]);
    assert_eq!(out, vec![8, 7, 8]);
    let mut out = Vec::new();
    put_bytes(&mut out, &vec![0u8; 64]);
    assert_eq!(&out[..2], &[0x01, 0x01]);
    assert_eq!(out.len(), 66);
    let mut out = Vec::new();
    put_bytes(&mut out, &vec![0u8; 16384]);
    assert_eq!(&out[..4], &[0x02, 0x00, 0x01, 0x00]);
}

#[test]
fn little_endian_integers() {
    let mut out = vec![9u8];
    put_u64(&mut out, 0x0102030405060708);
    assert_eq!(out, vec![9, 8, 7, 6, 5, 4, 3, 2, 1]);
    let mut a = vec![1u8];
    push_all(&mut a, &[2, 3]);
    assert!(bytes_eq(&a, &[1, 2, 3]));
    assert!(!bytes_eq(&a, &[1, 2]));
}
