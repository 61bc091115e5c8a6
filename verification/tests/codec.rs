use chain_indexer::codec::hash_from_value;
use chain_indexer::error::Error;
use chain_indexer::types::{Dao, Hash32, ShortId};

#[test]
fn dao_from_slice_reads_four_le_words() {
    let mut bytes = [0u8; 32];
    bytes[0] = 0x01; // c = 1
    bytes[8] = 0x02;
    bytes[9] = 0x01; // ar = 0x0102
    bytes[16] = 0xff; // s = 0xff
    bytes[24] = 0x00;
    bytes[31] = 0x80; // u has its top byte set
    let dao = Dao::from_slice(&bytes);
    assert_eq!(dao.c, 1);
    assert_eq!(dao.ar, 0x0102);
    assert_eq!(dao.s, 0xff);
    assert_eq!(dao.u, 0x8000_0000_0000_0000);
}

#[test]
fn dao_from_slice_ignores_trailing_bytes() {
    let mut bytes = vec![0u8; 40];
    bytes[0] = 7;
    bytes[32] = 99;
    let dao = Dao::from_slice(&bytes);
    assert_eq!(dao.c, 7);
}

#[test]
fn hash_round_trips_through_bytes() {
    let h = Hash32 { w0: 0x0123_4567_89ab_cdef, w1: 1, w2: u64::MAX, w3: 42 };
    let bytes = h.to_bytes();
    assert_eq!(bytes.len(), 32);
    assert_eq!(bytes[0], 0xef);
    assert_eq!(bytes[7], 0x01);
    assert_eq!(bytes[8], 1);
    let back = hash_from_value(bytes).expect("32 bytes must decode");
    assert_eq!(back, h);
}

#[test]
fn hash_from_value_rejects_wrong_length() {
    match hash_from_value(vec![0u8; 31]) {
        Err(Error::Data { length, .. }) => assert_eq!(length, 31),
        other => panic!("expected a data error, got {:?}", other),
    }
    match hash_from_value(vec![]) {
        Err(Error::Data { length, .. }) => assert_eq!(length, 0),
        other => panic!("expected a data error, got {:?}", other),
    }
    let r = hash_from_value(vec![0u8; 33]);
    assert!(matches!(r, Err(Error::Data { .. })));
    assert!(hash_from_value(vec![0u8; 32]).is_ok());
}

#[test]
fn short_id_from_slice_reads_ten_bytes() {
    let bytes = [1u8, 0, 0, 0, 0, 0, 0, 0, 0x34, 0x12];
    let sid = ShortId::from_slice(&bytes);
    assert_eq!(sid.w0, 1);
    assert_eq!(sid.w1, 0x1234);
}
