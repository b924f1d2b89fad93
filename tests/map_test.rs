use protobuf::bridge::ProtoStr;
use protobuf::map::ProtoMap;
use protobuf::proxied::{MutProxy, ViewProxy};

#[test]
fn test_string_maps() {
    let mut map = ProtoMap::<ProtoStr, ProtoStr>::new();
    let mut m = map.as_mut();
    m.insert("hello".as_bytes(), "world".as_bytes());
    m.insert("fizz".as_bytes(), "buzz".as_bytes());
    assert_eq!(m.len(), 2);
    assert_eq!(m.get("fizz".as_bytes()).unwrap(), "buzz".as_bytes());
    assert_eq!(m.get("not found".as_bytes()), None);
    m.clear();
    assert_eq!(m.len(), 0);
}

#[test]
fn test_bytes_and_string_copied() {
    let mut strings = ProtoMap::<ProtoStr, ProtoStr>::new();
    let mut bytes = ProtoMap::<i32, [u8]>::new();
    {
        let mut sm = strings.as_mut();
        let mut bm = bytes.as_mut();
        // The key and value are dropped right after they are inserted.
        let key = String::from("hello");
        let val = String::from("world");
        sm.insert(key.as_str().as_bytes(), val.as_str().as_bytes());
        bm.insert(1, val.as_bytes());
    }
    assert_eq!(strings.as_mut().get("hello".as_bytes()).unwrap(), "world".as_bytes());
    assert_eq!(bytes.as_mut().get(1).unwrap(), b"world");
}

#[test]
fn test_map_int32_int32() {
    let mut map = ProtoMap::<i32, i32>::new();
    let mut m = map.as_mut();
    assert!(m.insert(i32::default(), i32::default()));
    assert_eq!(m.len(), 1);
}

#[test]
fn test_map_bool_bool() {
    let mut map = ProtoMap::<bool, bool>::new();
    let mut m = map.as_mut();
    assert!(m.insert(bool::default(), bool::default()));
    assert_eq!(m.len(), 1);
}

#[test]
fn test_map_uint64_uint64() {
    let mut map = ProtoMap::<u64, u64>::new();
    let mut m = map.as_mut();
    assert!(m.insert(u64::default(), u64::default()));
    assert_eq!(m.len(), 1);
}

#[test]
fn insert_reports_added_and_replaced() {
    let mut map = ProtoMap::<u32, i64>::new();
    let mut m = map.as_mut();
    assert!(m.insert(5, -1));
    assert!(!m.insert(5, 40));
    assert_eq!(m.len(), 1);
    assert_eq!(m.get(5), Some(40));
    assert!(m.insert(6, 2));
    assert_eq!(m.len(), 2);
    assert_eq!(m.get(6), Some(2));
    assert_eq!(m.get(5), Some(40));
}

#[test]
fn remove_then_get_is_none() {
    let mut map = ProtoMap::<ProtoStr, [u8]>::new();
    let mut m = map.as_mut();
    m.insert(b"a", b"1");
    m.insert(b"b", b"2");
    m.insert(b"c", b"3");
    assert!(m.remove(b"b"));
    assert_eq!(m.get(b"b"), None);
    assert!(!m.remove(b"b"));
    assert_eq!(m.len(), 2);
    assert_eq!(m.get(b"a"), Some(&b"1"[..]));
    assert_eq!(m.get(b"c"), Some(&b"3"[..]));
    assert!(m.insert(b"b", b"22"));
    assert_eq!(m.get(b"b"), Some(&b"22"[..]));
}

#[test]
fn keys_of_different_lengths_do_not_match() {
    let mut map = ProtoMap::<ProtoStr, i32>::new();
    let mut m = map.as_mut();
    m.insert(b"ab", 1);
    assert_eq!(m.get(b"a"), None);
    assert_eq!(m.get(b"abc"), None);
    assert_eq!(m.get(b"ac"), None);
    assert_eq!(m.get(b"ab"), Some(1));
    assert_eq!(m.get(b""), None);
}

#[test]
fn map_scenario_clear_empties() {
    let mut map = ProtoMap::<i64, bool>::new();
    let mut m = map.as_mut();
    m.insert(-3, true);
    m.insert(4, false);
    assert!(!m.is_empty());
    m.clear();
    assert!(m.is_empty());
    assert_eq!(m.get(-3), None);
    drop(m);
    assert_eq!(map.as_view().len(), 0);
}

#[test]
fn map_copy_from_and_set() {
    let mut src = ProtoMap::<ProtoStr, ProtoStr>::new();
    {
        let mut s = src.as_mut();
        s.insert(b"k1", b"v1");
        s.insert(b"k2", b"v2");
    }
    let mut dst = ProtoMap::<ProtoStr, ProtoStr>::new();
    {
        let mut d = dst.as_mut();
        d.insert(b"gone", b"x");
        d.copy_from(src.as_view());
        assert_eq!(d.len(), 2);
        assert_eq!(d.get(b"gone"), None);
        assert_eq!(d.get(b"k2"), Some(&b"v2"[..]));
    }
    let mut other = ProtoMap::<ProtoStr, ProtoStr>::new();
    let mut o = other.as_mut();
    MutProxy::set(&mut o, src.as_view());
    drop(src);
    assert_eq!(o.get(b"k1"), Some(&b"v1"[..]));
    let v = ViewProxy::as_view(&o);
    assert_eq!(v.len(), 2);
    assert_eq!(dst.as_view().get(b"k1"), Some(&b"v1"[..]));
}
