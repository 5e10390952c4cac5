use cstrptr::scan::{memchr, strlen};
use cstrptr::{classify, CStr, FromBytesWithNulError};

#[test]
fn classify_empty_is_not_terminated() {
    assert_eq!(classify(b""), Err(FromBytesWithNulError::NotNulTerminated));
}

#[test]
fn classify_single_nul_is_valid() {
    assert_eq!(classify(b"\0"), Ok(()));
    let s = CStr::from_bytes_with_nul(b"\0").unwrap();
    assert_eq!(s.to_bytes(), b"");
    assert_eq!(s.to_bytes_with_nul(), b"\0");
}

#[test]
fn classify_terminated_bytes_are_valid() {
    assert_eq!(classify(b"hello\0"), Ok(()));
    assert_eq!(classify(b"a\0"), Ok(()));
    assert_eq!(classify(&[0xff, 0x80, 0x01, 0x00]), Ok(()));
}

#[test]
fn classify_interior_nul_reports_first_position() {
    assert_eq!(
        classify(b"ab\0c\0"),
        Err(FromBytesWithNulError::InteriorNul { position: 2 })
    );
    assert_eq!(
        classify(b"\0\0"),
        Err(FromBytesWithNulError::InteriorNul { position: 0 })
    );
    assert_eq!(
        classify(b"ab\0c"),
        Err(FromBytesWithNulError::InteriorNul { position: 2 })
    );
}

#[test]
fn classify_second_nul_is_not_the_reported_one() {
    // A NUL stands at 3, before the last byte, but the first one stands at 1.
    assert_eq!(
        classify(b"a\0b\0c\0"),
        Err(FromBytesWithNulError::InteriorNul { position: 1 })
    );
}

#[test]
fn classify_without_nul_is_not_terminated() {
    assert_eq!(classify(b"abc"), Err(FromBytesWithNulError::NotNulTerminated));
    assert_eq!(classify(&[1u8; 64]), Err(FromBytesWithNulError::NotNulTerminated));
}

#[test]
fn memchr_finds_first_occurrence() {
    assert_eq!(memchr(0, b"ab\0c\0"), Some(2));
    assert_eq!(memchr(b'c', b"ab\0c\0"), Some(3));
    assert_eq!(memchr(b'a', b"aaa"), Some(0));
    assert_eq!(memchr(b'z', b"aaa"), None);
    assert_eq!(memchr(0, b""), None);
}

#[test]
fn strlen_counts_bytes_before_first_nul() {
    assert_eq!(strlen(b"\0"), 0);
    assert_eq!(strlen(b"abc\0"), 3);
    assert_eq!(strlen(b"ab\0cd\0"), 2);
    assert_eq!(strlen(b"\0abc"), 0);
}

#[test]
fn error_constructors_build_the_variants() {
    assert_eq!(
        FromBytesWithNulError::interior_nul(7),
        FromBytesWithNulError::InteriorNul { position: 7 }
    );
    assert_eq!(
        FromBytesWithNulError::not_nul_terminated(),
        FromBytesWithNulError::NotNulTerminated
    );
    assert_ne!(
        FromBytesWithNulError::interior_nul(7),
        FromBytesWithNulError::interior_nul(8)
    );
}

#[test]
fn error_clone_is_equal() {
    let e = FromBytesWithNulError::interior_nul(3);
    assert_eq!(e.clone(), e);
    let n = FromBytesWithNulError::not_nul_terminated();
    assert_eq!(n.clone(), n);
}

#[test]
fn error_messages() {
    assert_eq!(
        FromBytesWithNulError::interior_nul(2).to_string(),
        "data provided contains an interior nul byte at byte pos 2"
    );
    assert_eq!(
        FromBytesWithNulError::interior_nul(0).to_string(),
        "data provided contains an interior nul byte at byte pos 0"
    );
    assert_eq!(
        FromBytesWithNulError::interior_nul(1234567890).to_string(),
        "data provided contains an interior nul byte at byte pos 1234567890"
    );
    assert_eq!(
        FromBytesWithNulError::interior_nul(usize::MAX).to_string(),
        format!(
            "data provided contains an interior nul byte at byte pos {}",
            usize::MAX
        )
    );
    assert_eq!(
        FromBytesWithNulError::not_nul_terminated().to_string(),
        "data provided is not nul terminated"
    );
}
