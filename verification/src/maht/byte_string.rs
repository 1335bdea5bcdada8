//! Byte strings whose equality is exact (`CS == true`) or ignores ASCII case (`CS == false`),
//! with a splitting iterator that expects the pattern to occur.
use crate::http::cibstr::{find_pattern, slice_range, split_step};
use crate::text::{bytes_eq, bytes_eq_ignore_case, ci_bytes_eq, str_from_utf8};
use std::str::Utf8Error;
use vstd::prelude::*;
use vstd::std_specs::cmp::PartialEqSpecImpl;
use vstd::slice::slice_to_vec;
use vstd::utf8::{decode_utf8, valid_utf8};

verus! {

/// An owned byte string; `CS` says whether comparisons respect ASCII case.
#[derive(Debug, Clone)]
pub struct ByteString<const CS: bool>(Vec<u8>);

/// A borrowed byte string; `CS` says whether comparisons respect ASCII case.
#[derive(Debug, Clone, Copy)]
pub struct ByteStr<'a, const CS: bool>(&'a [u8]);

impl<const CS: bool> View for ByteString<CS> {
    type V = Seq<u8>;

    closed spec fn view(&self) -> Seq<u8> {
        self.0@
    }
}

impl<'a, const CS: bool> View for ByteStr<'a, CS> {
    type V = Seq<u8>;

    closed spec fn view(&self) -> Seq<u8> {
        self.0@
    }
}

/// Turns owned bytes into a byte string.
pub trait ToByteString: Sized {
    fn to_byte_string<const CS: bool>(self) -> ByteString<CS>;

    fn case_sensitive(self) -> ByteString<true>;

    fn case_insensitive(self) -> ByteString<false>;
}

impl ToByteString for Vec<u8> {
    fn to_byte_string<const CS: bool>(self) -> (r: ByteString<CS>)
        ensures
            r@ == self@,
    {
        ByteString(self)
    }

    fn case_sensitive(self) -> (r: ByteString<true>)
        ensures
            r@ == self@,
    {
        self.to_byte_string::<true>()
    }

    fn case_insensitive(self) -> (r: ByteString<false>)
        ensures
            r@ == self@,
    {
        self.to_byte_string::<false>()
    }
}

/// Views borrowed bytes as a byte string.
pub trait ToByteStr {
    fn to_byte_str<const CS: bool>(&self) -> ByteStr<'_, CS>;

    fn case_sensitive(&self) -> ByteStr<'_, true>;

    fn case_insensitive(&self) -> ByteStr<'_, false>;
}

impl ToByteStr for [u8] {
    fn to_byte_str<const CS: bool>(&self) -> (r: ByteStr<'_, CS>)
        ensures
            r@ == self@,
    {
        ByteStr(self)
    }

    fn case_sensitive(&self) -> (r: ByteStr<'_, true>)
        ensures
            r@ == self@,
    {
        self.to_byte_str::<true>()
    }

    fn case_insensitive(&self) -> (r: ByteStr<'_, false>)
        ensures
            r@ == self@,
    {
        self.to_byte_str::<false>()
    }
}

impl<'a> PartialEq for ByteStr<'a, true> {
    fn eq(&self, other: &Self) -> (r: bool) {
        bytes_eq(self.0, other.0)
    }
}

impl<'a> PartialEqSpecImpl for ByteStr<'a, true> {
    open spec fn obeys_eq_spec() -> bool {
        true
    }

    open spec fn eq_spec(&self, other: &Self) -> bool {
        self@ == other@
    }
}

impl<'a> Eq for ByteStr<'a, true> {}

impl<'a> PartialEq for ByteStr<'a, false> {
    fn eq(&self, other: &Self) -> (r: bool) {
        bytes_eq_ignore_case(self.0, other.0)
    }
}

impl<'a> PartialEqSpecImpl for ByteStr<'a, false> {
    open spec fn obeys_eq_spec() -> bool {
        true
    }

    open spec fn eq_spec(&self, other: &Self) -> bool {
        ci_bytes_eq(self@, other@)
    }
}

impl<'a> Eq for ByteStr<'a, false> {}

impl PartialEq for ByteString<true> {
    fn eq(&self, other: &Self) -> (r: bool) {
        bytes_eq(self.0.as_slice(), other.0.as_slice())
    }
}

impl PartialEqSpecImpl for ByteString<true> {
    open spec fn obeys_eq_spec() -> bool {
        true
    }

    open spec fn eq_spec(&self, other: &Self) -> bool {
        self@ == other@
    }
}

impl Eq for ByteString<true> {}

impl PartialEq for ByteString<false> {
    fn eq(&self, other: &Self) -> (r: bool) {
        bytes_eq_ignore_case(self.0.as_slice(), other.0.as_slice())
    }
}

impl PartialEqSpecImpl for ByteString<false> {
    open spec fn obeys_eq_spec() -> bool {
        true
    }

    open spec fn eq_spec(&self, other: &Self) -> bool {
        ci_bytes_eq(self@, other@)
    }
}

impl Eq for ByteString<false> {}

impl ByteString<true> {
    /// The same bytes, compared without regard to ASCII case.
    pub fn case_insensitive(self) -> (r: ByteString<false>)
        ensures
            r@ == self@,
    {
        ByteString(self.0)
    }
}

impl ByteString<false> {
    /// The same bytes, compared exactly.
    pub fn case_sensitive(self) -> (r: ByteString<true>)
        ensures
            r@ == self@,
    {
        ByteString(self.0)
    }
}

impl<'a> ByteStr<'a, true> {
    /// The same bytes, compared without regard to ASCII case.
    pub fn case_insensitive(&self) -> (r: ByteStr<'a, false>)
        ensures
            r@ == self@,
    {
        ByteStr(self.0)
    }
}

impl<'a> ByteStr<'a, false> {
    /// The same bytes, compared exactly.
    pub fn case_sensitive(&self) -> (r: ByteStr<'a, true>)
        ensures
            r@ == self@,
    {
        ByteStr(self.0)
    }
}

impl<const CS: bool> ByteString<CS> {
    /// The byte string as a borrowed byte string (what `Deref`, `AsRef` and `Borrow` give in
    /// the standard library's idiom).
    pub fn as_byte_str(&self) -> (r: ByteStr<'_, CS>)
        ensures
            r@ == self@,
    {
        ByteStr(self.0.as_slice())
    }
}

impl<'a, const CS: bool> ByteStr<'a, CS> {
    /// The bytes.
    pub(crate) fn bytes_of(&self) -> (r: &'a [u8])
        ensures
            r@ == self@,
    {
        self.0
    }

    /// The pieces of the byte string between the occurrences of `pat`, in order; `pat`
    /// must not be empty.
    pub fn split_pat_naive(&self, pat: ByteStr<'a, CS>) -> (r: ByteStrSplitPatNaiveIterator<'a, CS>)
        ensures
            r.rest() == self@,
            r.pattern() == pat@,
    {
        ByteStrSplitPatNaiveIterator { string: *self, pat }
    }

    /// The text that the bytes encode, when they are valid UTF-8.
    pub fn as_str(&self) -> (r: Result<&'a str, Utf8Error>)
        ensures
            r is Ok <==> valid_utf8(self@),
            r matches Ok(s) ==> s@ == decode_utf8(self@),
    {
        str_from_utf8(self.0)
    }

    /// An owned copy.
    pub fn to_owned(&self) -> (r: ByteString<CS>)
        ensures
            r@ == self@,
    {
        ByteString(slice_to_vec(self.0))
    }
}

/// The pieces of a byte string between the occurrences of a pattern, one by one.
pub struct ByteStrSplitPatNaiveIterator<'a, const CS: bool> {
    string: ByteStr<'a, CS>,
    pat: ByteStr<'a, CS>,
}

impl<'a, const CS: bool> ByteStrSplitPatNaiveIterator<'a, CS> {
    /// What is still to be split.
    pub closed spec fn rest(&self) -> Seq<u8> {
        self.string@
    }

    /// The pattern.
    pub closed spec fn pattern(&self) -> Seq<u8> {
        self.pat@
    }

    /// The next piece: the bytes before the next occurrence of the pattern, or all that is
    /// left when it does not occur; `None` once nothing is left. A pattern that ends the
    /// string does not leave an empty piece after it.
    pub fn next(&mut self) -> (r: Option<ByteStr<'a, CS>>)
        requires
            old(self).pattern().len() > 0,
        ensures
            final(self).pattern() == old(self).pattern(),
            match split_step(old(self).rest(), old(self).pattern(), CS) {
                None => r is None && final(self).rest() == old(self).rest(),
                Some((piece, rest)) => r matches Some(x) && x@ == piece && final(self).rest() == rest,
            },
    {
        let s = self.string.0;
        if s.len() == 0 {
            return None;
        }
        let m = self.pat.0.len();
        let i = find_pattern(CS, s, self.pat.0);
        let ret = ByteStr(slice_range(s, 0, i));
        if i < s.len() && i + m < s.len() {
            self.string = ByteStr(slice_range(s, i + m, s.len()));
        } else {
            self.string = ByteStr(slice_range(s, 0, 0));
        }
        Some(ret)
    }
}

} // verus!
