//! The validator and the borrowed view.
use crate::order::{
    bytes_eq, compare, is_common_prefix_len, lemma_common_prefix_decides,
    lemma_common_prefix_exists, lemma_lex_less_total, lex_less, lex_order,
};
use crate::ptr::CStrPtr;
use crate::scan::{
    c_str_at, has_nul, is_c_str, is_first_occurrence, lemma_c_str_at_c_str,
    lemma_first_occurrence_exists, lemma_first_occurrence_unique, memchr, strlen, strlen_spec,
};
use crate::text::{decimal, push_decimal, str_from_utf8, string_from_utf8_lossy, utf8_lossy};
use core::cmp::Ordering;
use core::str::Utf8Error;
use std::borrow::Cow;
use vstd::prelude::*;
use vstd::slice::slice_subrange;
use vstd::string::*;
use vstd::utf8::{decode_utf8, valid_utf8};

verus! {

/// Why a byte sequence is not a C string.
#[derive(PartialEq, Eq, Debug, Structural)]
pub enum FromBytesWithNulError {
    /// A NUL byte stands before the last byte; `position` is that of the first.
    InteriorNul { position: usize },
    /// No byte is NUL.
    NotNulTerminated,
}

impl Clone for FromBytesWithNulError {
    fn clone(&self) -> (copy: Self)
        ensures
            copy == *self,
    {
        match self {
            FromBytesWithNulError::InteriorNul { position } => FromBytesWithNulError::InteriorNul {
                position: *position,
            },
            FromBytesWithNulError::NotNulTerminated => FromBytesWithNulError::NotNulTerminated,
        }
    }
}

impl FromBytesWithNulError {
    /// The error for a NUL at `position`, before the last byte.
    pub fn interior_nul(position: usize) -> (error: Self)
        ensures
            error == (FromBytesWithNulError::InteriorNul { position }),
    {
        FromBytesWithNulError::InteriorNul { position }
    }

    /// The error for bytes without a NUL.
    pub fn not_nul_terminated() -> (error: Self)
        ensures
            error == FromBytesWithNulError::NotNulTerminated,
    {
        FromBytesWithNulError::NotNulTerminated
    }

    /// The text that describes the error.
    pub open spec fn message(self) -> Seq<char> {
        match self {
            FromBytesWithNulError::InteriorNul { position } => {
                "data provided contains an interior nul byte at byte pos "@ + decimal(
                    position as nat,
                )
            },
            FromBytesWithNulError::NotNulTerminated => "data provided is not nul terminated"@,
        }
    }

    /// Describes the error in words, with the position in decimal.
    pub fn to_string(&self) -> (text: String)
        ensures
            text@ == self.message(),
    {
        match self {
            FromBytesWithNulError::InteriorNul { position } => {
                let mut text = String::from_str(
                    "data provided contains an interior nul byte at byte pos ",
                );
                push_decimal(&mut text, *position);
                text
            },
            FromBytesWithNulError::NotNulTerminated => String::from_str(
                "data provided is not nul terminated",
            ),
        }
    }
}

/// How a byte sequence stands to the C-string shape: `Ok` where its first
/// NUL is its last byte, else the reason why it has not that shape.
pub open spec fn classification(bytes: Seq<u8>) -> Result<(), FromBytesWithNulError> {
    if !has_nul(bytes) {
        Err(FromBytesWithNulError::NotNulTerminated)
    } else if strlen_spec(bytes) + 1 == bytes.len() {
        Ok(())
    } else {
        Err(FromBytesWithNulError::InteriorNul { position: strlen_spec(bytes) as usize })
    }
}

/// Bytes of the C-string shape are classified as valid.
pub proof fn lemma_c_str_classified_valid(bytes: Seq<u8>)
    requires
        is_c_str(bytes),
    ensures
        classification(bytes) == Ok::<(), FromBytesWithNulError>(()),
{
    lemma_c_str_at_c_str(bytes);
}

/// Bytes whose first NUL stands at `p`, before their last byte, are
/// classified as holding an interior NUL at `p`.
pub proof fn lemma_first_interior_nul_classified(bytes: Seq<u8>, p: int)
    requires
        bytes.len() <= usize::MAX,
        is_first_occurrence(0, bytes, p),
        p < bytes.len() - 1,
    ensures
        classification(bytes) == Err::<(), FromBytesWithNulError>(
            FromBytesWithNulError::InteriorNul { position: p as usize },
        ),
{
    lemma_first_occurrence_unique(0, bytes, p);
}

/// Bytes with a NUL at `p`, before their last byte, are classified as
/// holding an interior NUL: at the first NUL, which stands at `p` or before.
pub proof fn lemma_interior_nul_classified(bytes: Seq<u8>, p: int)
    requires
        bytes.len() <= usize::MAX,
        0 <= p < bytes.len() - 1,
        bytes[p] == 0,
    ensures
        match classification(bytes) {
            Err(FromBytesWithNulError::InteriorNul { position }) => position <= p
                && is_first_occurrence(0, bytes, position as int),
            _ => false,
        },
{
    lemma_first_occurrence_exists(0, bytes, p);
}

/// Bytes without a NUL are classified as not terminated.
pub proof fn lemma_no_nul_classified(bytes: Seq<u8>)
    requires
        !has_nul(bytes),
    ensures
        classification(bytes) == Err::<(), FromBytesWithNulError>(
            FromBytesWithNulError::NotNulTerminated,
        ),
{
}

/// Classifies `bytes` by the place of their first NUL.
pub fn classify(bytes: &[u8]) -> (outcome: Result<(), FromBytesWithNulError>)
    ensures
        outcome == classification(bytes@),
        outcome is Ok <==> is_c_str(bytes@),
{
    match memchr(0, bytes) {
        Some(nul_pos) => {
            proof {
                lemma_first_occurrence_unique(0, bytes@, nul_pos as int);
            }
            assert(nul_pos < bytes.len());
            if nul_pos + 1 != bytes.len() {
                Err(FromBytesWithNulError::interior_nul(nul_pos))
            } else {
                Ok(())
            }
        },
        None => Err(FromBytesWithNulError::not_nul_terminated()),
    }
}

/// A borrowed C string: a view of bytes that end in their only NUL.
#[derive(Clone, Copy, Debug)]
pub struct CStr<'a> {
    inner: &'a [u8],
}

impl<'a> View for CStr<'a> {
    type V = Seq<u8>;

    /// The bytes of the string, terminator included.
    closed spec fn view(&self) -> Seq<u8> {
        self.inner@
    }
}

impl<'a> CStr<'a> {
    /// What holds of every value of the type.
    #[verifier::type_invariant]
    pub open spec fn is_valid(self) -> bool {
        is_c_str(self@)
    }

    /// The bytes of the string without its terminator.
    pub open spec fn content(self) -> Seq<u8> {
        self@.drop_last()
    }

    /// Views the string that starts at the first byte of `ptr`, which is
    /// measured first.
    pub fn from_ptr(ptr: &'a [u8]) -> (s: Self)
        requires
            has_nul(ptr@),
        ensures
            s@ == c_str_at(ptr@),
            is_c_str(s@),
    {
        let len = strlen(ptr);
        assert(len < ptr.len());
        Self::from_bytes_with_nul_unchecked(slice_subrange(ptr, 0, len + 1))
    }

    /// Views `bytes` as a C string where they have that shape, and says why
    /// they have not where they have not.
    pub fn from_bytes_with_nul(bytes: &'a [u8]) -> (made: Result<Self, FromBytesWithNulError>)
        ensures
            match classification(bytes@) {
                Ok(()) => made matches Ok(s) && s@ == bytes@ && s.content() == bytes@.drop_last(),
                Err(error) => made == Err::<Self, FromBytesWithNulError>(error),
            },
            made is Ok <==> is_c_str(bytes@),
    {
        match classify(bytes) {
            Ok(()) => Ok(Self::from_bytes_with_nul_unchecked(bytes)),
            Err(error) => Err(error),
        }
    }

    /// Views `bytes`, which are known to have the shape, without a scan.
    pub fn from_bytes_with_nul_unchecked(bytes: &'a [u8]) -> (s: Self)
        requires
            is_c_str(bytes@),
        ensures
            s@ == bytes@,
    {
        CStr { inner: bytes }
    }

    /// The memory at which the string starts.
    pub fn as_ptr(&self) -> (ptr: &'a [u8])
        ensures
            ptr@ == self@,
            is_c_str(ptr@),
    {
        proof {
            use_type_invariant(self);
        }
        self.inner
    }

    /// The pointer view of the string: its address, without its length.
    pub fn as_c_ptr(&self) -> (ptr: CStrPtr<'a>)
        ensures
            ptr.memory() == self@,
            ptr@ == self@,
    {
        CStrPtr::from_c_str(*self)
    }

    fn as_bytes(&self) -> (bytes: &'a [u8])
        ensures
            bytes@ == self.content(),
            is_c_str(self@),
    {
        let bytes = self.as_bytes_with_nul();
        let len = bytes.len() - 1;
        slice_subrange(bytes, 0, len)
    }

    /// The bytes of the string without the terminator.
    pub fn to_bytes(&self) -> (bytes: &'a [u8])
        ensures
            bytes@ == self.content(),
            bytes@.len() + 1 == self@.len(),
            !has_nul(bytes@),
    {
        self.as_bytes()
    }

    fn as_bytes_with_nul(&self) -> (bytes: &'a [u8])
        ensures
            bytes@ == self@,
            is_c_str(bytes@),
    {
        proof {
            use_type_invariant(self);
        }
        self.inner
    }

    /// The bytes of the string with the terminator.
    pub fn to_bytes_with_nul(&self) -> (bytes: &'a [u8])
        ensures
            bytes@ == self@,
            is_c_str(bytes@),
    {
        self.as_bytes_with_nul()
    }

    /// Reads the content as UTF-8; fails where it is not valid UTF-8.
    pub fn to_str(&self) -> (decoded: Result<&'a str, Utf8Error>)
        ensures
            decoded is Ok <==> valid_utf8(self.content()),
            decoded matches Ok(text) ==> text@ == decode_utf8(self.content()),
    {
        str_from_utf8(self.as_bytes())
    }

    /// Reads the content as UTF-8, with U+FFFD in place of what is ill-formed.
    pub fn to_string_lossy(&self) -> (text: Cow<'a, str>)
        ensures
            text@ == utf8_lossy(self.content()),
            valid_utf8(self.content()) ==> text@ == decode_utf8(self.content()),
    {
        string_from_utf8_lossy(self.to_bytes())
    }
}

impl<'a> CStr<'a> {
    /// Compares the contents of two strings lexicographically.
    pub fn cmp(&self, other: &Self) -> (order: Ordering)
        ensures
            order == lex_order(self.content(), other.content()),
    {
        compare(self.to_bytes(), other.to_bytes())
    }
}

/// The terminator does not count in a comparison: two C strings stand to
/// each other as their contents do.
pub proof fn lemma_terminator_does_not_count(a: Seq<u8>, b: Seq<u8>)
    requires
        is_c_str(a),
        is_c_str(b),
    ensures
        a == b <==> a.drop_last() == b.drop_last(),
        lex_less(a, b) <==> lex_less(a.drop_last(), b.drop_last()),
        lex_order(a, b) == lex_order(a.drop_last(), b.drop_last()),
{
    let x = a.drop_last();
    let y = b.drop_last();
    lemma_common_prefix_exists(x, y);
    let k = choose|k: int| is_common_prefix_len(x, y, k);
    lemma_common_prefix_decides(x, y, k);
    if k == x.len() && k == y.len() {
        assert(a =~= x.push(0));
        assert(b =~= y.push(0));
        lemma_lex_less_total(a, b);
    } else {
        assert(a.take(k) =~= x.take(k));
        assert(b.take(k) =~= y.take(k));
        assert(is_common_prefix_len(a, b, k));
        lemma_common_prefix_decides(a, b, k);
    }
}

impl<'a> PartialEq for CStr<'a> {
    fn eq(&self, other: &Self) -> (same: bool) {
        bytes_eq(self.to_bytes(), other.to_bytes())
    }
}

impl<'a> Eq for CStr<'a> {

}

impl<'a> vstd::std_specs::cmp::PartialEqSpecImpl for CStr<'a> {
    open spec fn obeys_eq_spec() -> bool {
        true
    }

    /// Two strings are equal when their contents are.
    open spec fn eq_spec(&self, other: &Self) -> bool {
        self.content() == other.content()
    }
}

impl<'a> PartialOrd for CStr<'a> {
    fn partial_cmp(&self, other: &Self) -> (order: Option<Ordering>) {
        Some(self.cmp(other))
    }
}

impl<'a> vstd::std_specs::cmp::PartialOrdSpecImpl for CStr<'a> {
    open spec fn obeys_partial_cmp_spec() -> bool {
        true
    }

    /// Strings are ordered as their contents are.
    open spec fn partial_cmp_spec(&self, other: &Self) -> Option<Ordering> {
        Some(lex_order(self.content(), other.content()))
    }
}

impl<'a> From<CStrPtr<'a>> for CStr<'a> {
    /// Measures the string pointed to and views it.
    fn from(ptr: CStrPtr<'a>) -> (s: Self)
        ensures
            s@ == ptr@,
    {
        let s = ptr.to_c_str();
        proof {
            let chosen = viewed_from(ptr);
            assert(chosen@ == s@);
            assert(chosen.inner =~= s.inner);
        }
        s
    }
}

impl<'a> vstd::std_specs::convert::FromSpecImpl<CStrPtr<'a>> for CStr<'a> {
    open spec fn obeys_from_spec() -> bool {
        true
    }

    open spec fn from_spec(ptr: CStrPtr<'a>) -> Self {
        viewed_from(ptr)
    }
}

/// The view of the string that `ptr` points to.
pub open spec fn viewed_from<'a>(ptr: CStrPtr<'a>) -> CStr<'a> {
    choose|s: CStr<'a>| s@ == ptr@
}

impl<'a> Default for CStr<'a> {
    /// The empty string.
    fn default() -> (s: Self)
        ensures
            s@ == seq![0u8],
    {
        let bytes: &'static [u8] = &[0u8];
        assert(bytes@ =~= seq![0u8]);
        CStr::from_bytes_with_nul_unchecked(bytes)
    }
}

} // verus!
