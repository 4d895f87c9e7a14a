//! Tests for the sorted multimap, the merge iterators, the small adaptors
//! and the byte readers.

use zutil::btree_map_vector::BTreeMapVector;
use zutil::iter::{IterLen, MapErrIter, TryMapOkIter};
use zutil::keyed_par_iter::Keyed;
use zutil::keyed_par_iter::KeyedParIter;
use zutil::keyed_par_iter::ParIterValue as KeyedValue;
use zutil::kv_par_iter::KVParIter;
use zutil::kv_par_iter::ParIterValue as KVValue;
use zutil::null_ascii_string::{NullAsciiString, ReadError};
use zutil::ok_or_return::{OkOrReturn, OkOrReturnResult};
use zutil::reader::{read_slice_until_eof, ByteReadError, MemReader, ReadByteArray};

#[test]
fn multimap_insert_sorts_keys_and_values() {
    let mut m = BTreeMapVector::new();
    m.insert(5, 50);
    m.insert(1, 30);
    m.insert(5, 10);
    m.insert(3, 7);
    m.insert(5, 20);
    assert_eq!(m.range(0, u64::MAX), vec![(1, 30), (3, 7), (5, 10), (5, 20), (5, 50)]);
}

#[test]
fn multimap_range_is_half_open() {
    let mut m = BTreeMapVector::new();
    for k in [2u64, 4, 6] {
        m.insert(k, k * 10);
    }
    assert_eq!(m.range(2, 6), vec![(2, 20), (4, 40)]);
    assert_eq!(m.range(3, 4), vec![]);
    assert_eq!(m.range(0, 0), vec![]);
}

#[test]
fn multimap_equal_keys_keep_every_value() {
    let mut m = BTreeMapVector::new();
    m.insert(1, 2);
    m.insert(1, 2);
    m.insert(1, 1);
    assert_eq!(m.range(1, 2), vec![(1, 1), (1, 2), (1, 2)]);
}

#[test]
fn kv_par_iter_merges_sorted_key_value_streams() {
    let left = vec![(1u64, 'a'), (3, 'b'), (4, 'c')];
    let right = vec![(2u64, 'x'), (3, 'y'), (5, 'z')];
    let mut it = KVParIter::new(left, right);
    assert_eq!(it.next(), Some((1, KVValue::Left('a'))));
    assert_eq!(it.next(), Some((2, KVValue::Right('x'))));
    assert_eq!(it.next(), Some((3, KVValue::Both('b', 'y'))));
    assert_eq!(it.next(), Some((4, KVValue::Left('c'))));
    assert_eq!(it.next(), Some((5, KVValue::Right('z'))));
    assert_eq!(it.next(), None);
}

#[test]
fn kv_par_iter_next_left_and_right() {
    let left = vec![(1u64, 'a')];
    let right = vec![(2u64, 'b')];
    let mut it = KVParIter::new(left, right);
    assert_eq!(it.next_left(), Some((1, 'a')));
    assert_eq!(it.next_left(), None);
    assert_eq!(it.next_right(), Some((2, 'b')));
    assert_eq!(it.next_right(), None);
}

#[test]
fn kv_par_iter_into_opt_pair() {
    assert_eq!(KVValue::<u8, u8>::Left(1).into_opt_pair(), (Some(1), None));
    assert_eq!(KVValue::<u8, u8>::Right(2).into_opt_pair(), (None, Some(2)));
    assert_eq!(KVValue::<u8, u8>::Both(1, 2).into_opt_pair(), (Some(1), Some(2)));
}

#[test]
fn keyed_par_iter_merges_and_puts_back() {
    let left = vec![(1u64, "l1"), (2, "l2")];
    let right = vec![(2u64, "r2"), (3, "r3")];
    let mut it = KeyedParIter::new(left, right);
    assert_eq!(it.next(), Some(KeyedValue::Left((1, "l1"))));
    assert_eq!(it.next(), Some(KeyedValue::Both((2, "l2"), (2, "r2"))));
    assert_eq!(it.next(), Some(KeyedValue::Right((3, "r3"))));
    assert_eq!(it.next(), None);
}

#[test]
fn keyed_par_iter_value_accessors() {
    let v: KeyedValue<(u64, &str), (u64, &str)> = KeyedValue::Both((7, "a"), (7, "b"));
    assert_eq!(v.key(), 7);
    assert_eq!(v.key_value(), (7, KeyedValue::Both("a", "b")));
    let v2: KeyedValue<(u64, u32), (u64, u32)> = KeyedValue::Left((1, 10));
    let mapped = v2.map(|l: (u64, u32)| l.1 + 1, |r: (u64, u32)| r.1 + 2);
    assert_eq!(mapped, KeyedValue::Left(11));
    assert_eq!((5u64, "x").key(), 5);
}

#[test]
fn try_map_ok_maps_successes_and_keeps_errors() {
    let items: Vec<Result<u32, char>> = vec![Ok(1), Err('e'), Ok(3)];
    let mut mapped = items.try_map_ok(|v: u32| if v < 3 { Ok(v * 10) } else { Err('b') });
    assert_eq!(mapped.next(), Some(Ok(10)));
    assert_eq!(mapped.next(), Some(Err('e')));
    assert_eq!(mapped.next(), Some(Err('b')));
    assert_eq!(mapped.next(), None);
}

#[test]
fn map_err_maps_errors_and_keeps_successes() {
    let items: Vec<Result<u32, char>> = vec![Ok(1), Err('e')];
    let mut mapped = items.map_err(|e: char| (e, 9u8));
    assert_eq!(mapped.next(), Some(Ok(1)));
    assert_eq!(mapped.next(), Some(Err(('e', 9))));
    assert_eq!(mapped.next(), None);
}

#[test]
fn iter_len_counts() {
    let v = vec![1u8, 2, 3];
    let n = IterLen::from_vec(&v);
    assert_eq!(n.len(), 3);
    assert!(!n.is_empty());
    let empty: Vec<u8> = vec![];
    assert!(IterLen::from_vec(&empty).is_empty());
}

#[test]
fn ok_or_return_branches() {
    let ok: Result<u32, char> = Ok(4);
    match ok.ok_or_return("ret") {
        OkOrReturnResult::Output(v) => assert_eq!(v, 4),
        OkOrReturnResult::Ret(_) => panic!("expected a success"),
    }
    let err: Result<u32, char> = Err('e');
    match err.ok_or_return("ret") {
        OkOrReturnResult::Output(_) => panic!("expected the return value"),
        OkOrReturnResult::Ret(r) => assert_eq!(r, "ret"),
    }
    let none: Option<u32> = None;
    let branched = none.ok_or_return(7u8).branch();
    assert_eq!(branched.err().map(|res| res.into_ret()), Some(7));
    let wrapped: OkOrReturnResult<u32, u8> = OkOrReturnResult::from_output(3);
    assert!(matches!(wrapped.branch(), Ok(3)));
}

#[test]
fn mem_reader_exact_reads() {
    let mut r = MemReader::new(vec![1, 2, 3, 4, 5]);
    assert_eq!(r.remaining(), 5);
    assert_eq!(r.read_byte_array(2), Ok(vec![1, 2]));
    assert_eq!(r.read_byte_array(4), Err(ByteReadError::UnexpectedEof));
    assert_eq!(r.read_byte_array(3), Ok(vec![3, 4, 5]));
    assert_eq!(r.remaining(), 0);
}

#[test]
fn read_until_eof_fills_the_buffer_prefix() {
    let mut r = MemReader::new(vec![9, 8, 7]);
    let mut buf = vec![0u8; 5];
    let unfilled = read_slice_until_eof(&mut r, &mut buf).expect("in-memory reads cannot fail");
    assert_eq!(unfilled, 2);
    assert_eq!(buf, vec![9, 8, 7, 0, 0]);
    let mut r2 = MemReader::new(vec![1, 2, 3, 4]);
    let mut small = vec![0u8; 2];
    let unfilled2 = read_slice_until_eof(&mut r2, &mut small).expect("in-memory reads cannot fail");
    assert_eq!(unfilled2, 0);
    assert_eq!(small, vec![1, 2]);
    assert_eq!(r2.remaining(), 2);
}

#[test]
fn null_ascii_round_trip() {
    let mut buf = vec![b'x'; 8];
    buf.write_string(&b"abc".to_vec());
    assert_eq!(buf, vec![b'a', b'b', b'c', 0, b'x', b'x', b'x', b'x']);
    assert_eq!(buf.read_string(), Ok(b"abc".to_vec()));
}

#[test]
fn null_ascii_read_errors() {
    let no_nul = vec![b'a', b'b'];
    assert_eq!(no_nul.read_string(), Err(ReadError::NoNull));
    let not_ascii = vec![0xFFu8, b'a', 0];
    assert_eq!(not_ascii.read_string(), Err(ReadError::NotAscii));
    // A non-ASCII byte after the null does not matter.
    let after = vec![b'a', 0, 0xFF];
    assert_eq!(after.read_string(), Ok(vec![b'a']));
}
