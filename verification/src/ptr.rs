//! The pointer view: the address of a C string, whose length is found only
//! when the content is read.
use crate::cstr::{classification, CStr, FromBytesWithNulError};
use crate::order::{bytes_eq, compare, lex_order};
use crate::scan::{c_str_at, has_nul, is_c_str, lemma_c_str_at_c_str};
use crate::text::utf8_lossy;
use core::cmp::Ordering;
use core::str::Utf8Error;
use std::borrow::Cow;
use vstd::prelude::*;
use vstd::std_specs::cmp::PartialEqSpec;
use vstd::utf8::{decode_utf8, valid_utf8};

verus! {

/// The address of a C string. It holds the memory that can be read from the
/// address on, in which a NUL occurs; the string ends at the first one.
#[derive(Clone, Copy, Debug)]
pub struct CStrPtr<'a> {
    inner: &'a [u8],
}

impl<'a> View for CStrPtr<'a> {
    type V = Seq<u8>;

    /// The bytes of the string pointed to, terminator included.
    open spec fn view(&self) -> Seq<u8> {
        c_str_at(self.memory())
    }
}

impl<'a> CStrPtr<'a> {
    /// The memory from the address on.
    pub closed spec fn memory(self) -> Seq<u8> {
        self.inner@
    }

    /// What holds of every value of the type.
    #[verifier::type_invariant]
    pub open spec fn is_valid(self) -> bool {
        has_nul(self.memory())
    }

    /// The bytes of the string pointed to, without the terminator.
    pub open spec fn content(self) -> Seq<u8> {
        self@.drop_last()
    }

    /// Points at `s`. The length that `s` knows is given up.
    pub fn from_c_str(s: CStr<'a>) -> (ptr: Self)
        ensures
            ptr.memory() == s@,
            ptr@ == s@,
    {
        let bytes = s.as_ptr();
        proof {
            lemma_c_str_at_c_str(bytes@);
        }
        CStrPtr { inner: bytes }
    }

    /// Points at the string that starts at the first byte of `ptr`. Nothing
    /// is read.
    pub fn from_ptr(ptr: &'a [u8]) -> (made: Self)
        requires
            has_nul(ptr@),
        ensures
            made.memory() == ptr@,
    {
        CStrPtr { inner: ptr }
    }

    /// Points at `bytes` where they have the C-string shape, and says why
    /// they have not where they have not.
    pub fn from_bytes_with_nul(bytes: &'a [u8]) -> (made: Result<Self, FromBytesWithNulError>)
        ensures
            match classification(bytes@) {
                Ok(()) => made matches Ok(ptr) && ptr.memory() == bytes@ && ptr@ == bytes@,
                Err(error) => made == Err::<Self, FromBytesWithNulError>(error),
            },
            made is Ok <==> is_c_str(bytes@),
    {
        match CStr::from_bytes_with_nul(bytes) {
            Ok(s) => Ok(Self::from_c_str(s)),
            Err(error) => Err(error),
        }
    }

    /// Points at `bytes`, which are known to have the C-string shape.
    pub fn from_bytes_with_nul_unchecked(bytes: &'a [u8]) -> (ptr: Self)
        requires
            is_c_str(bytes@),
        ensures
            ptr.memory() == bytes@,
            ptr@ == bytes@,
    {
        proof {
            lemma_c_str_at_c_str(bytes@);
        }
        Self::from_ptr(bytes)
    }

    /// The memory at which the string starts.
    pub fn as_ptr(self) -> (ptr: &'a [u8])
        ensures
            ptr@ == self.memory(),
            has_nul(ptr@),
    {
        proof {
            use_type_invariant(self);
        }
        self.inner
    }

    /// The bytes of the string without the terminator, found by measuring it.
    pub fn to_bytes(self) -> (bytes: &'a [u8])
        ensures
            bytes@ == self.content(),
            !has_nul(bytes@),
    {
        self.to_c_str().to_bytes()
    }

    /// The bytes of the string with the terminator, found by measuring it.
    pub fn to_bytes_with_nul(self) -> (bytes: &'a [u8])
        ensures
            bytes@ == self@,
            is_c_str(bytes@),
    {
        self.to_c_str().to_bytes_with_nul()
    }

    /// Measures the string and views it.
    pub fn to_c_str(self) -> (s: CStr<'a>)
        ensures
            s@ == self@,
            is_c_str(s@),
    {
        proof {
            use_type_invariant(self);
        }
        CStr::from_ptr(self.inner)
    }

    /// Reads the content as UTF-8; fails where it is not valid UTF-8.
    pub fn to_str(self) -> (decoded: Result<&'a str, Utf8Error>)
        ensures
            decoded is Ok <==> valid_utf8(self.content()),
            decoded matches Ok(text) ==> text@ == decode_utf8(self.content()),
    {
        self.to_c_str().to_str()
    }

    /// Reads the content as UTF-8, with U+FFFD in place of what is ill-formed.
    pub fn to_string_lossy(self) -> (text: Cow<'a, str>)
        ensures
            text@ == utf8_lossy(self.content()),
            valid_utf8(self.content()) ==> text@ == decode_utf8(self.content()),
    {
        self.to_c_str().to_string_lossy()
    }

    /// Compares the contents of the two strings pointed to lexicographically.
    pub fn cmp(&self, other: &Self) -> (order: Ordering)
        ensures
            order == lex_order(self.content(), other.content()),
    {
        compare(self.to_bytes(), other.to_bytes())
    }
}

/// A pointer made from a borrowed view, when measured again, gives a view
/// of the same string: `from_c_str` keeps the bytes of `v` as its memory, and
/// `to_c_str` views the string that starts there.
pub proof fn lemma_pointer_round_trip(v: CStr<'_>)
    requires
        v.is_valid(),
    ensures
        has_nul(v@),
        c_str_at(v@) == v@,
        c_str_at(v@).drop_last() == v.content(),
{
    lemma_c_str_at_c_str(v@);
}

/// Equality goes by content: a borrowed view and the view measured from a
/// pointer are equal where both hold the same string, wherever the two lie
/// and whatever memory follows the pointer's string.
pub proof fn lemma_equal_by_content(v: CStr<'_>, ptr: CStrPtr<'_>, measured: CStr<'_>)
    requires
        v.is_valid(),
        ptr.is_valid(),
        measured@ == ptr@,
        ptr@ == v@,
    ensures
        v.eq_spec(&measured),
        measured.eq_spec(&v),
{
}

impl<'a> From<CStr<'a>> for CStrPtr<'a> {
    /// Points at `s`.
    fn from(s: CStr<'a>) -> (ptr: Self)
        ensures
            ptr.memory() == s@,
            ptr@ == s@,
    {
        let ptr = Self::from_c_str(s);
        proof {
            let chosen = pointer_to(s);
            assert(chosen.memory() == ptr.memory());
            assert(chosen.inner =~= ptr.inner);
        }
        ptr
    }
}

impl<'a> vstd::std_specs::convert::FromSpecImpl<CStr<'a>> for CStrPtr<'a> {
    open spec fn obeys_from_spec() -> bool {
        true
    }

    open spec fn from_spec(s: CStr<'a>) -> Self {
        pointer_to(s)
    }
}

/// The pointer whose memory is the bytes of `s`.
pub open spec fn pointer_to<'a>(s: CStr<'a>) -> CStrPtr<'a> {
    choose|ptr: CStrPtr<'a>| ptr.memory() == s@
}

impl<'a> PartialEq for CStrPtr<'a> {
    fn eq(&self, other: &Self) -> (same: bool) {
        bytes_eq(self.to_bytes(), other.to_bytes())
    }
}

impl<'a> Eq for CStrPtr<'a> {

}

impl<'a> vstd::std_specs::cmp::PartialEqSpecImpl for CStrPtr<'a> {
    open spec fn obeys_eq_spec() -> bool {
        true
    }

    /// Two pointers are equal when the strings they point to have the same
    /// content, wherever they may lie.
    open spec fn eq_spec(&self, other: &Self) -> bool {
        self.content() == other.content()
    }
}

impl<'a> PartialOrd for CStrPtr<'a> {
    fn partial_cmp(&self, other: &Self) -> (order: Option<Ordering>) {
        Some(self.cmp(other))
    }
}

impl<'a> vstd::std_specs::cmp::PartialOrdSpecImpl for CStrPtr<'a> {
    open spec fn obeys_partial_cmp_spec() -> bool {
        true
    }

    /// Pointers are ordered as the contents of their strings are.
    open spec fn partial_cmp_spec(&self, other: &Self) -> Option<Ordering> {
        Some(lex_order(self.content(), other.content()))
    }
}

} // verus!
