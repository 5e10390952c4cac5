use cstrptr::{CStr, CStrPtr, FromBytesWithNulError};
use std::borrow::Cow;
use std::cmp::Ordering;

#[test]
fn pointer_round_trip_keeps_the_content() {
    let v = CStr::from_bytes_with_nul(b"keep me\0").unwrap();
    let back = CStrPtr::from_c_str(v).to_c_str();
    assert_eq!(back.to_bytes(), v.to_bytes());
    assert_eq!(back.to_bytes_with_nul(), v.to_bytes_with_nul());
    let empty = CStr::default();
    assert_eq!(CStrPtr::from_c_str(empty).to_c_str().to_bytes(), b"");
}

#[test]
fn from_c_str_keeps_the_address() {
    let bytes = b"addr\0";
    let v = CStr::from_bytes_with_nul(bytes).unwrap();
    let p = CStrPtr::from_c_str(v);
    assert!(std::ptr::eq(p.as_ptr().as_ptr(), bytes.as_ptr()));
    let q = CStrPtr::from(v);
    assert!(std::ptr::eq(q.as_ptr().as_ptr(), bytes.as_ptr()));
}

#[test]
fn from_ptr_reads_nothing_and_keeps_the_memory() {
    let memory = b"one\0two\0";
    let p = CStrPtr::from_ptr(memory);
    assert_eq!(p.as_ptr(), memory);
    assert_eq!(p.to_bytes(), b"one");
    assert_eq!(p.to_bytes_with_nul(), b"one\0");
}

#[test]
fn pointer_from_bytes_with_nul_validates() {
    let p = CStrPtr::from_bytes_with_nul(b"ok\0").unwrap();
    assert_eq!(p.to_bytes(), b"ok");
    assert!(matches!(
        CStrPtr::from_bytes_with_nul(b"ab\0c\0"),
        Err(FromBytesWithNulError::InteriorNul { position: 2 })
    ));
    assert!(matches!(
        CStrPtr::from_bytes_with_nul(b"abc"),
        Err(FromBytesWithNulError::NotNulTerminated)
    ));
    assert!(matches!(
        CStrPtr::from_bytes_with_nul(b""),
        Err(FromBytesWithNulError::NotNulTerminated)
    ));
}

#[test]
fn pointer_from_bytes_with_nul_unchecked_keeps_the_bytes() {
    let p = CStrPtr::from_bytes_with_nul_unchecked(b"trust\0");
    assert_eq!(p.to_bytes_with_nul(), b"trust\0");
    assert_eq!(p.as_ptr(), b"trust\0");
}

#[test]
fn to_c_str_measures_up_to_the_first_nul() {
    let p = CStrPtr::from_ptr(b"\0\0\0");
    assert_eq!(p.to_c_str().to_bytes_with_nul(), b"\0");
    let q = CStrPtr::from_ptr(b"abc\0");
    assert_eq!(q.to_c_str().to_bytes(), b"abc");
}

#[test]
fn pointer_to_str_and_lossy() {
    let p = CStrPtr::from_ptr(b"caf\xc3\xa9\0\xff\xff");
    assert_eq!(p.to_str(), Ok("caf\u{e9}"));
    assert!(matches!(p.to_string_lossy(), Cow::Borrowed("caf\u{e9}")));
    let bad = CStrPtr::from_ptr(b"\xc3(\0");
    assert!(bad.to_str().is_err());
    assert_eq!(bad.to_string_lossy(), "\u{fffd}(");
}

#[test]
fn borrowed_equals_pointer_at_another_address() {
    let here = b"hi\0".to_vec();
    let there = b"hi\0 something else".to_vec();
    let v = CStr::from_bytes_with_nul(&here).unwrap();
    let p = CStrPtr::from_ptr(&there);
    assert!(!std::ptr::eq(v.as_ptr().as_ptr(), p.as_ptr().as_ptr()));
    assert!(v == p.to_c_str());
    assert!(v.as_c_ptr() == p);
    assert!(p == CStrPtr::from_c_str(v));
}

#[test]
fn pointers_compare_by_content() {
    let a = CStrPtr::from_ptr(b"abc\0zzz");
    let b = CStrPtr::from_ptr(b"abc\0aaa");
    let c = CStrPtr::from_ptr(b"abd\0");
    let short = CStrPtr::from_ptr(b"ab\0");
    assert!(a == b);
    assert!(a != c);
    assert_eq!(a.cmp(&b), Ordering::Equal);
    assert_eq!(a.cmp(&c), Ordering::Less);
    assert_eq!(c.cmp(&a), Ordering::Greater);
    assert_eq!(short.cmp(&a), Ordering::Less);
    assert_eq!(a.partial_cmp(&short), Some(Ordering::Greater));
    assert!(a < c);
    assert!(c > short);
}

#[test]
fn pointer_is_copied_freely() {
    let p = CStrPtr::from_ptr(b"copy\0");
    let q = p;
    let r = p.clone();
    assert_eq!(p.to_bytes(), q.to_bytes());
    assert_eq!(r.to_bytes(), b"copy");
}
