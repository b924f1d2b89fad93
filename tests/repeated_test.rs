use protobuf::bridge::ProtoStr;
use protobuf::proxied::{MutProxy, ViewProxy};
use protobuf::repeated::{Repeated, RepeatedMut};

fn collect_u32(m: &RepeatedMut<'_, u32>) -> Vec<u32> {
    let mut out = Vec::new();
    let mut it = m.iter();
    while let Some(v) = it.next() {
        out.push(v);
    }
    out
}

#[test]
fn test_primitive_repeated() {
    {
        let mut r = Repeated::<u32>::new();
        let mut r = r.as_mut();
        assert_eq!(r.len(), 0);
        assert!(r.iter().next().is_none(), "starts with empty iter");
        assert!(r.iter().next().is_none(), "starts with empty mut iter");
        assert!(r.is_empty(), "starts is_empty");
        let mut expected_len = 0usize;
        for val in [1u32, 2, 3] {
            r.push(val);
            assert_eq!(r.get(expected_len), Some(val));
            expected_len += 1;
            assert_eq!(r.len(), expected_len);
        }
        assert_eq!(collect_u32(&r), vec![1, 2, 3]);
        r.set(0, u32::default());
        assert_eq!(r.get(0).expect("elem 0"), u32::default());
        r.clear();
        assert!(r.is_empty(), "is_empty after clear");
        assert!(r.iter().next().is_none(), "iter empty after clear");
        assert!(r.into_view().iter().next().is_none(), "mut iter empty after clear");
    }
    {
        let mut r = Repeated::<i32>::new();
        let mut r = r.as_mut();
        assert_eq!(r.len(), 0);
        assert!(r.iter().next().is_none(), "starts with empty iter");
        assert!(r.is_empty(), "starts is_empty");
        let mut expected_len = 0usize;
        for val in [1i32, 2] {
            r.push(val);
            assert_eq!(r.get(expected_len), Some(val));
            expected_len += 1;
            assert_eq!(r.len(), expected_len);
        }
        let mut seen = Vec::new();
        let mut it = r.iter();
        while let Some(v) = it.next() {
            seen.push(v);
        }
        assert_eq!(seen, vec![1, 2]);
        r.set(0, i32::default());
        assert_eq!(r.get(0).expect("elem 0"), i32::default());
        r.clear();
        assert!(r.is_empty(), "is_empty after clear");
        assert!(r.iter().next().is_none(), "iter empty after clear");
        assert!(r.into_view().iter().next().is_none(), "mut iter empty after clear");
    }
    {
        let mut r = Repeated::<bool>::new();
        let mut r = r.as_mut();
        assert_eq!(r.len(), 0);
        assert!(r.iter().next().is_none(), "starts with empty iter");
        assert!(r.is_empty(), "starts is_empty");
        let mut expected_len = 0usize;
        for val in [false, true, true, false] {
            r.push(val);
            assert_eq!(r.get(expected_len), Some(val));
            expected_len += 1;
            assert_eq!(r.len(), expected_len);
        }
        let mut seen = Vec::new();
        let mut it = r.iter();
        while let Some(v) = it.next() {
            seen.push(v);
        }
        assert_eq!(seen, vec![false, true, true, false]);
        r.set(0, bool::default());
        assert_eq!(r.get(0).expect("elem 0"), bool::default());
        r.clear();
        assert!(r.is_empty(), "is_empty after clear");
        assert!(r.iter().next().is_none(), "iter empty after clear");
        assert!(r.into_view().iter().next().is_none(), "mut iter empty after clear");
    }
}

#[test]
fn new_repeated_is_empty() {
    let r = Repeated::<i64>::new();
    let v = r.as_view();
    assert_eq!(v.len(), 0);
    assert!(v.is_empty());
    assert!(v.iter().next().is_none());
    assert_eq!(v.get(0), None);
}

#[test]
fn push_grows_by_one_and_get_reads_back() {
    let mut r = Repeated::<u64>::new();
    let mut m = r.as_mut();
    m.push(7);
    m.push(u64::MAX);
    assert_eq!(m.len(), 2);
    assert_eq!(m.get(1), Some(u64::MAX));
    assert_eq!(m.get(0), Some(7));
    assert_eq!(m.get(2), None);
    assert_eq!(m.get_unchecked(1), u64::MAX);
    drop(m);
    assert_eq!(r.as_view().len(), 2);
    assert_eq!(r.as_view().get(0), Some(7));
}

#[test]
fn set_replaces_one_element_and_keeps_length() {
    let mut r = Repeated::<i32>::new();
    let mut m = r.as_mut();
    m.push(1);
    m.push(2);
    m.push(3);
    m.set(1, -20);
    assert_eq!(m.len(), 3);
    assert_eq!(m.get(0), Some(1));
    assert_eq!(m.get(1), Some(-20));
    assert_eq!(m.get(2), Some(3));
}

#[test]
fn repeated_scenario_push_one_two_three() {
    let mut r = Repeated::<i32>::new();
    let mut m = r.as_mut();
    m.push(1);
    m.push(2);
    m.push(3);
    assert_eq!(m.len(), 3);
    assert_eq!(m.get(1), Some(2));
    let mut seen = Vec::new();
    let mut it = m.iter();
    assert_eq!(it.len(), 3);
    while let Some(v) = it.next() {
        seen.push(v);
    }
    assert_eq!(seen, vec![1, 2, 3]);
    assert!(it.next().is_none());
}

#[test]
fn iterators_restart_from_the_first_element() {
    let mut r = Repeated::<u32>::new();
    let mut m = r.as_mut();
    m.push(4);
    m.push(5);
    let mut a = m.iter();
    assert_eq!(a.next(), Some(4));
    let mut b = m.iter();
    assert_eq!(b.next(), Some(4));
    assert_eq!(a.next(), Some(5));
}

#[test]
fn bytes_elements_are_copied_into_the_field() {
    let mut r = Repeated::<[u8]>::new();
    let mut m = r.as_mut();
    {
        let tmp = String::from("temporary");
        m.push(tmp.as_bytes());
        m.push(b"");
    }
    assert_eq!(m.get(0), Some(&b"temporary"[..]));
    assert_eq!(m.get(1), Some(&b""[..]));
    m.set(0, b"other");
    assert_eq!(m.get(0), Some(&b"other"[..]));
    assert_eq!(m.len(), 2);
}

#[test]
fn copy_from_replaces_contents_with_a_deep_copy() {
    let mut src = Repeated::<ProtoStr>::new();
    {
        let mut m = src.as_mut();
        m.push(b"a");
        m.push(b"bc");
    }
    let mut dst = Repeated::<ProtoStr>::new();
    let mut d = dst.as_mut();
    d.push(b"old");
    d.push(b"old2");
    d.push(b"old3");
    d.copy_from(src.as_view());
    assert_eq!(d.len(), 2);
    assert_eq!(d.get(0), Some(&b"a"[..]));
    assert_eq!(d.get(1), Some(&b"bc"[..]));
    drop(d);
    drop(src);
    assert_eq!(dst.as_view().get(1), Some(&b"bc"[..]));
}

#[test]
fn set_through_mutator_copies_a_view() {
    let mut src = Repeated::<u32>::new();
    {
        let mut m = src.as_mut();
        m.push(9);
        m.push(8);
    }
    let mut dst = Repeated::<u32>::new();
    let mut d = dst.as_mut();
    d.push(1);
    MutProxy::set(&mut d, src.as_view());
    assert_eq!(d.len(), 2);
    assert_eq!(d.get(0), Some(9));
    let v = MutProxy::get(&d);
    assert_eq!(v.len(), 2);
    let shorter = d.as_mut();
    assert_eq!(shorter.len(), 2);
}

#[test]
fn views_and_mutators_see_the_same_elements() {
    let mut r = Repeated::<u32>::new();
    let mut m = r.as_mut();
    m.push(3);
    let v = ViewProxy::as_view(&m);
    assert_eq!(v.get(0), Some(3));
    assert_eq!(v.as_raw().len(), 1);
    assert_eq!(m.as_raw().len(), 1);
    assert_eq!(m.raw_arena().num_blocks(), 0);
    let inner = m.into_inner();
    assert_eq!(inner.raw.len(), 1);
}
