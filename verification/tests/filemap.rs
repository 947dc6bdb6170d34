use scooby::filemap::_FileMap;
use scooby::keyed::{MapKey, MapValue};
use scooby::scoob::_Scoob;
use scooby::AccountId;

#[test]
fn fresh_map_is_empty() {
    let m: _FileMap<u64, u128> = _FileMap::new();
    assert_eq!(m.length(), 0);
    assert_eq!(m._get(&5), 0);
    assert_eq!(m._lookup(&5), None);
}

#[test]
fn count_is_number_of_distinct_keys() {
    let mut m: _FileMap<u64, u128> = _FileMap::new();
    m._set(1, 10);
    assert_eq!(m.length(), 1);
    m._set(2, 20);
    assert_eq!(m.length(), 2);
    m._set(1, 11);
    assert_eq!(m.length(), 2);
    m._set(3, 30);
    assert_eq!(m.length(), 3);
    m._remove(&2);
    assert_eq!(m.length(), 2);
    m._remove(&2);
    assert_eq!(m.length(), 2);
    m._remove(&1);
    m._remove(&3);
    assert_eq!(m.length(), 0);
    m._set(2, 21);
    assert_eq!(m.length(), 1);
    assert_eq!(m._get(&2), 21);
}

#[test]
fn set_then_get_returns_value() {
    let mut m: _FileMap<u64, u128> = _FileMap::new();
    m._set(7, 70);
    assert_eq!(m._get(&7), 70);
    m._set(7, 71);
    assert_eq!(m._get(&7), 71);
    m._set(8, 80);
    assert_eq!(m._get(&7), 71);
    assert_eq!(m._get(&8), 80);
}

#[test]
fn remove_then_get_returns_default() {
    let mut m: _FileMap<u64, u128> = _FileMap::new();
    m._set(1, 10);
    m._set(2, 20);
    m._set(3, 30);
    m._remove(&2);
    assert_eq!(m._get(&2), 0);
    assert_eq!(m.length(), 2);
    assert_eq!(m._get(&1), 10);
    assert_eq!(m._get(&3), 30);
}

#[test]
fn remove_of_absent_key_changes_nothing() {
    let mut m: _FileMap<u64, u128> = _FileMap::new();
    m._set(1, 10);
    m._remove(&9);
    assert_eq!(m.length(), 1);
    assert_eq!(m._get(&1), 10);
    assert_eq!(m._get(&9), 0);
}

#[test]
fn get_does_not_tell_default_from_absent() {
    let mut m: _FileMap<u64, u128> = _FileMap::new();
    m._set(4, 0);
    assert_eq!(m._get(&4), 0);
    assert_eq!(m._get(&5), 0);
    assert_eq!(m._lookup(&4), Some(0));
    assert_eq!(m._lookup(&5), None);
    assert_eq!(m.length(), 1);
}

#[test]
fn map_keyed_by_account() {
    let a = AccountId::new([1u8; 32]);
    let mut other = [1u8; 32];
    other[31] = 2;
    let b = AccountId::new(other);
    let mut m: _FileMap<AccountId, u64> = _FileMap::new();
    m._set(a, 5);
    m._set(b, 6);
    assert_eq!(m.length(), 2);
    assert_eq!(m._get(&a), 5);
    assert_eq!(m._get(&b), 6);
    m._remove(&a);
    assert_eq!(m._get(&a), 0);
    assert_eq!(m._get(&b), 6);
}

#[test]
fn keys_compare_by_value() {
    let a = AccountId::new([3u8; 32]);
    let b = AccountId::new([3u8; 32]);
    let mut bytes = [3u8; 32];
    bytes[0] = 4;
    let c = AccountId::new(bytes);
    assert!(a.same_key(&b));
    assert!(!a.same_key(&c));
    assert!(7u64.same_key(&7u64));
    assert!(!7u32.same_key(&8u32));
}

#[test]
fn missing_values_are_zero() {
    assert_eq!(<u32 as MapValue>::absent_value(), 0);
    assert_eq!(<u64 as MapValue>::absent_value(), 0);
    assert_eq!(<u128 as MapValue>::absent_value(), 0);
}

#[test]
fn directory_reads_through_to_its_map() {
    let mut filedir: _FileMap<u32, u64> = _FileMap::new();
    filedir._set(1, 100);
    filedir._set(2, 200);
    let dir = _Scoob { filedir, fileowner: vec![9u8, 9u8] };
    assert_eq!(dir._one_file(&1), 100);
    assert_eq!(dir._one_file(&2), 200);
    assert_eq!(dir._one_file(&3), 0);
    assert_eq!(dir.filedir.length(), 2);
    assert_eq!(dir.fileowner, vec![9u8, 9u8]);
}
