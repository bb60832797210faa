use evm_codec::{BytesToFixedNumber, DecodeError, FixedNumberToBytes, H160, H256, U256};

fn sequential(start: u8, n: usize) -> Vec<u8> {
    (0..n).map(|i| start + i as u8).collect()
}

fn address_from(bytes: &[u8]) -> H160 {
    let mut a = [0u8; 20];
    a.copy_from_slice(bytes);
    H160(a)
}

#[test]
fn scenario_padded_address_read() {
    let mut buf = vec![0u8; 12];
    buf.extend(sequential(0x11, 20));
    let mut d = BytesToFixedNumber::new(buf);
    let a = d.next_h160().unwrap();
    assert_eq!(a, address_from(&sequential(0x11, 20)));
    assert_eq!(a.0[0], 0x11);
    assert_eq!(a.0[19], 0x24);
    assert_eq!(d.position(), 32);
}

#[test]
fn scenario_integer_one() {
    let mut buf = vec![0u8; 31];
    buf.push(1);
    let mut d = BytesToFixedNumber::from(buf);
    let n = d.next_u256().unwrap();
    assert_eq!(n, U256::from_u64(1));
    assert_eq!(d.position(), 32);
}

#[test]
fn scenario_push_256() {
    let mut e = FixedNumberToBytes::new();
    e.push_u256(&U256::from_u64(256));
    let out = e.into_vec();
    assert_eq!(out.len(), 32);
    assert_eq!(out[30], 0x01);
    assert_eq!(out[31], 0x00);
    for (i, b) in out.iter().enumerate() {
        if i != 30 {
            assert_eq!(*b, 0);
        }
    }
}

#[test]
fn scenario_short_hash() {
    let mut d = BytesToFixedNumber::new(vec![7u8; 10]);
    assert_eq!(d.next_h256(), Err(DecodeError::UnexpectedEndOfData));
    assert_eq!(d.position(), 0);
}

#[test]
fn address_round_trip() {
    let a = address_from(&sequential(0xa0, 20));
    let mut e = FixedNumberToBytes::from(vec![0xffu8; 3]);
    e.push_h160(&a);
    let mut d = BytesToFixedNumber::new(e.into_vec());
    d.skip(3).unwrap();
    assert_eq!(d.next_h160().unwrap(), a);
    assert_eq!(d.remaining(), 0);
}

#[test]
fn unpadded_address_round_trip() {
    let a = address_from(&sequential(1, 20));
    let mut e = FixedNumberToBytes::new();
    e.push_h160_not_padded(&a);
    assert_eq!(e.as_vec().len(), 20);
    let mut d = BytesToFixedNumber::new(e.into_vec());
    assert_eq!(d.next_h160_not_padded().unwrap(), a);
    assert_eq!(d.position(), 20);
}

#[test]
fn hash_round_trip() {
    let mut h = [0u8; 32];
    h.copy_from_slice(&sequential(100, 32));
    let h = H256(h);
    let mut e = FixedNumberToBytes::new();
    e.push_h256(&h);
    assert_eq!(e.as_vec().as_slice(), &h.0[..]);
    let mut d = BytesToFixedNumber::new(e.into_vec());
    assert_eq!(d.next_h256().unwrap(), h);
}

#[test]
fn integer_round_trip() {
    let mut bytes = [0u8; 32];
    bytes.copy_from_slice(&sequential(0x40, 32));
    let n = U256::from_be_bytes(bytes);
    let mut e = FixedNumberToBytes::new();
    e.push_u256(&n);
    e.push_u256(&U256::from_u64(u64::MAX));
    let mut d = BytesToFixedNumber::new(e.into_vec());
    assert_eq!(d.next_u256().unwrap(), n);
    assert_eq!(d.next_u256().unwrap(), U256::from_u64(u64::MAX));
    assert_eq!(d.next_u256(), Err(DecodeError::UnexpectedEndOfData));
}

#[test]
fn address_padding_layout() {
    let a = address_from(&[0xeeu8; 20]);
    let mut e = FixedNumberToBytes::from_vec(vec![9u8]);
    e.push_h160(&a);
    let out = e.into_vec();
    assert_eq!(out.len(), 33);
    assert_eq!(out[0], 9);
    assert!(out[1..13].iter().all(|b| *b == 0));
    assert!(out[13..33].iter().all(|b| *b == 0xee));
}

#[test]
fn integer_big_endian_layout() {
    let n = U256::from_u64(0x0102030405060708);
    let bytes = n.to_be_bytes();
    assert!(bytes[..24].iter().all(|b| *b == 0));
    assert_eq!(&bytes[24..], &[1u8, 2, 3, 4, 5, 6, 7, 8]);
    let mut e = FixedNumberToBytes::new();
    e.push_u256(&n);
    assert_eq!(e.as_vec().as_slice(), &bytes[..]);
}

#[test]
fn integer_from_be_bytes_keeps_order() {
    let mut bytes = [0u8; 32];
    bytes[0] = 0x80;
    bytes[31] = 0x01;
    let n = U256::from_be_bytes(bytes);
    assert_eq!(n.to_be_bytes(), bytes);
    assert_ne!(n, U256::from_u64(0x80));
}

#[test]
fn cursor_advances_by_consumed_bytes() {
    let mut d = BytesToFixedNumber::new(sequential(0, 100));
    assert_eq!(d.next_vec(3).unwrap(), vec![0u8, 1, 2]);
    assert_eq!(d.position(), 3);
    d.skip(5).unwrap();
    assert_eq!(d.position(), 8);
    assert_eq!(d.next_h160_not_padded().unwrap().0[0], 8);
    assert_eq!(d.position(), 28);
    d.next_h160().unwrap();
    assert_eq!(d.position(), 60);
    d.next_h256().unwrap();
    assert_eq!(d.position(), 92);
    assert_eq!(d.next_vec(1).unwrap(), vec![92u8]);
    assert_eq!(d.remaining(), 7);
}

#[test]
fn failed_reads_leave_cursor() {
    let mut d = BytesToFixedNumber::new(sequential(0, 12));
    assert_eq!(d.next_h160(), Err(DecodeError::UnexpectedEndOfData));
    assert_eq!(d.position(), 0);
    assert_eq!(d.next_h160_not_padded(), Err(DecodeError::UnexpectedEndOfData));
    assert_eq!(d.next_u256(), Err(DecodeError::UnexpectedEndOfData));
    assert_eq!(d.next_vec(13), Err(DecodeError::UnexpectedEndOfData));
    assert_eq!(d.skip(13), Err(DecodeError::UnexpectedEndOfData));
    assert_eq!(d.position(), 0);
    assert_eq!(d.next_vec(12).unwrap(), sequential(0, 12));
}

#[test]
fn empty_reads_and_writes() {
    let mut d = BytesToFixedNumber::new(Vec::new());
    assert_eq!(d.next_vec(0).unwrap(), Vec::<u8>::new());
    assert_eq!(d.skip(0), Ok(()));
    assert_eq!(d.skip(1), Err(DecodeError::UnexpectedEndOfData));
    assert_eq!(d.position(), 0);
    let mut e = FixedNumberToBytes::new();
    e.push_vec(&Vec::new());
    assert!(e.as_vec().is_empty());
}

#[test]
fn push_vec_appends_in_order() {
    let mut e = FixedNumberToBytes::from(vec![1u8, 2]);
    e.push_vec(&vec![3u8, 4, 5]);
    assert_eq!(e.into_vec(), vec![1u8, 2, 3, 4, 5]);
}

#[test]
fn trailing_bytes_are_not_an_error() {
    let mut buf = vec![0u8; 31];
    buf.push(5);
    buf.extend(vec![0xabu8; 7]);
    let mut d = BytesToFixedNumber::new(buf);
    assert_eq!(d.next_u256().unwrap(), U256::from_u64(5));
    assert_eq!(d.remaining(), 7);
}
