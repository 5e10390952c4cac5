//! The owned buffer.
use crate::cstr::{
    classification, classify, lemma_c_str_classified_valid, CStr, FromBytesWithNulError,
};
use crate::ptr::CStrPtr;
use crate::scan::{
    c_str_at, has_nul, is_c_str, lemma_c_str_at_c_str, lemma_c_str_at_shape, strlen,
};
use crate::text::string_from_utf8;
use vstd::prelude::*;
use vstd::slice::slice_to_vec;
use vstd::utf8::{decode_utf8, valid_utf8};

verus! {

/// An owned C string: a buffer of bytes that end in their only NUL.
#[derive(Debug)]
pub struct CString {
    inner: Vec<u8>,
}

impl View for CString {
    type V = Seq<u8>;

    /// The bytes of the string, terminator included.
    closed spec fn view(&self) -> Seq<u8> {
        self.inner@
    }
}

impl CString {
    /// What holds of every value of the type.
    #[verifier::type_invariant]
    pub open spec fn is_valid(self) -> bool {
        is_c_str(self@)
    }

    /// The bytes of the string without its terminator.
    pub open spec fn content(self) -> Seq<u8> {
        self@.drop_last()
    }

    /// Makes a string of `bytes` and a terminator put behind them. Bytes that
    /// hold a NUL anywhere, at their end too, are handed back as they came.
    pub fn new(bytes: Vec<u8>) -> (made: Result<Self, Vec<u8>>)
        ensures
            match made {
                Ok(s) => !has_nul(bytes@) && s@ == bytes@.push(0) && s.content() == bytes@,
                Err(rejected) => has_nul(bytes@) && rejected == bytes,
            },
    {
        match classify(bytes.as_slice()) {
            Err(FromBytesWithNulError::NotNulTerminated) => Ok(Self::from_vec_unchecked(bytes)),
            _ => Err(bytes),
        }
    }

    /// Takes `bytes` as a string where they have the C-string shape, and
    /// hands them back as they came where they have not.
    pub fn from_bytes_with_nul(bytes: Vec<u8>) -> (made: Result<Self, Vec<u8>>)
        ensures
            match made {
                Ok(s) => is_c_str(bytes@) && s@ == bytes@,
                Err(rejected) => !is_c_str(bytes@) && rejected == bytes,
            },
            made is Ok <==> classification(bytes@) is Ok,
    {
        match classify(bytes.as_slice()) {
            Ok(()) => Ok(Self::from_bytes_with_nul_unchecked(bytes)),
            Err(_) => Err(bytes),
        }
    }

    /// Makes a string of bytes known to hold no NUL, and a terminator.
    pub fn from_vec_unchecked(v: Vec<u8>) -> (s: Self)
        requires
            !has_nul(v@),
        ensures
            s@ == v@.push(0),
            s.content() == v@,
    {
        let mut bytes = v;
        bytes.push(0);
        assert(bytes@.drop_last() =~= v@);
        Self::from_bytes_with_nul_unchecked(bytes)
    }

    /// Takes bytes known to have the C-string shape, without a scan.
    pub fn from_bytes_with_nul_unchecked(bytes: Vec<u8>) -> (s: Self)
        requires
            is_c_str(bytes@),
        ensures
            s@ == bytes@,
    {
        CString { inner: bytes }
    }

    /// Takes over the string that starts at the first byte of the buffer
    /// `ptr`, which is measured first.
    pub fn from_raw(ptr: Vec<u8>) -> (s: Self)
        requires
            has_nul(ptr@),
        ensures
            s@ == c_str_at(ptr@),
    {
        let len = strlen(ptr.as_slice());
        assert(len < ptr.len());
        let mut bytes = ptr;
        bytes.truncate(len + 1);
        proof {
            lemma_c_str_at_shape(ptr@);
        }
        CString { inner: bytes }
    }

    /// Gives up the string for its buffer, whose length is no longer known
    /// to be that of the string.
    pub fn into_raw(self) -> (ptr: Vec<u8>)
        ensures
            ptr@ == self@,
            has_nul(ptr@),
            c_str_at(ptr@) == self@,
    {
        proof {
            use_type_invariant(&self);
            lemma_c_str_at_c_str(self@);
        }
        self.inner
    }

    /// Reads the content as UTF-8 text; where it is not valid UTF-8, the
    /// string comes back as it was.
    pub fn into_string(self) -> (made: Result<String, Self>)
        ensures
            match made {
                Ok(text) => valid_utf8(self.content()) && text@ == decode_utf8(self.content()),
                Err(s) => !valid_utf8(self.content()) && s@ == self@,
            },
    {
        proof {
            use_type_invariant(&self);
        }
        let ghost whole = self@;
        match string_from_utf8(self.into_bytes()) {
            Ok(text) => Ok(text),
            Err(bytes) => {
                assert(bytes@.push(0) =~= whole);
                Err(Self::from_vec_unchecked(bytes))
            },
        }
    }

    /// The bytes of the string without the terminator.
    pub fn into_bytes(self) -> (bytes: Vec<u8>)
        ensures
            bytes@ == self.content(),
            !has_nul(bytes@),
    {
        proof {
            use_type_invariant(&self);
        }
        let mut vec = self.inner;
        let _nul = vec.pop();
        assert(_nul == Some(0u8));
        vec
    }

    /// The bytes of the string with the terminator.
    pub fn into_bytes_with_nul(self) -> (bytes: Vec<u8>)
        ensures
            bytes@ == self@,
            is_c_str(bytes@),
    {
        proof {
            use_type_invariant(&self);
        }
        self.inner
    }

    /// Views the string without taking it.
    pub fn as_c_str(&self) -> (s: CStr<'_>)
        ensures
            s@ == self@,
    {
        proof {
            use_type_invariant(self);
        }
        CStr::from_bytes_with_nul_unchecked(self.inner.as_slice())
    }
}

/// A string given up for its buffer and taken over again is the same
/// string: `into_raw` hands out the bytes of `s`, and `from_raw` takes the
/// string that starts there.
pub proof fn lemma_raw_round_trip(s: CString)
    requires
        s.is_valid(),
    ensures
        has_nul(s@),
        c_str_at(s@) == s@,
        c_str_at(s@).drop_last() == s.content(),
{
    lemma_c_str_at_c_str(s@);
}

/// The bytes of a string pass validation again: they are classified as
/// valid, so `from_bytes_with_nul` takes them as they are.
pub proof fn lemma_revalidation_succeeds(s: CString)
    requires
        s.is_valid(),
    ensures
        is_c_str(s@),
        classification(s@) == Ok::<(), FromBytesWithNulError>(()),
{
    lemma_c_str_classified_valid(s@);
}

impl<'a> From<CStr<'a>> for CString {
    /// Copies the string into a buffer of its own.
    fn from(s: CStr<'a>) -> (owned: Self)
        ensures
            owned@ == s@,
    {
        s.to_owned()
    }
}

impl<'a> vstd::std_specs::convert::FromSpecImpl<CStr<'a>> for CString {
    /// Two buffers of the same bytes need not be one value, so the copy is
    /// known by its bytes only.
    open spec fn obeys_from_spec() -> bool {
        false
    }

    open spec fn from_spec(s: CStr<'a>) -> Self {
        choose|owned: CString| owned@ == s@
    }
}

impl<'a> From<CStrPtr<'a>> for CString {
    /// Measures the string pointed to and copies it into a buffer of its own.
    fn from(ptr: CStrPtr<'a>) -> (owned: Self)
        ensures
            owned@ == ptr@,
    {
        ptr.to_c_str().to_owned()
    }
}

impl<'a> vstd::std_specs::convert::FromSpecImpl<CStrPtr<'a>> for CString {
    open spec fn obeys_from_spec() -> bool {
        false
    }

    open spec fn from_spec(ptr: CStrPtr<'a>) -> Self {
        choose|owned: CString| owned@ == ptr@
    }
}

impl Clone for CString {
    /// Copies the buffer.
    fn clone(&self) -> (copy: Self)
        ensures
            copy@ == self@,
    {
        self.as_c_str().to_owned()
    }
}

impl<'a> CStr<'a> {
    /// Copies the string into a buffer of its own.
    pub fn to_owned(&self) -> (s: CString)
        ensures
            s@ == self@,
    {
        CString::from_bytes_with_nul_unchecked(slice_to_vec(self.to_bytes_with_nul()))
    }
}

} // verus!
