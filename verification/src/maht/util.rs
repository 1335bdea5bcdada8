//! Searching byte slices for a pattern.
use crate::http::cibstr::{find_pattern, find_pattern_from, lemma_find_pattern_bounds, slice_range, split_step};
use vstd::prelude::*;

verus! {

/// Pattern search on byte slices.
pub trait ByteSliceExt {
    fn find_pattern_naive(&self, pat: &[u8]) -> Option<usize>;

    fn find_pattern_all_naive<'a>(&'a self, pat: &'a [u8]) -> ByteSliceFindPatternAllNaiveIterator<'a>;
}

impl ByteSliceExt for [u8] {
    /// The position of the first occurrence of `pat`; `0` for an empty pattern.
    fn find_pattern_naive(&self, pat: &[u8]) -> (r: Option<usize>)
        ensures
            match find_pattern_from(self@, pat@, true, 0) {
                Some(i) => r matches Some(x) && x == i,
                None => r is None,
            },
    {
        if pat.len() == 0 {
            assert(self@.subrange(0, 0) =~= pat@);
            return Some(0);
        }
        let i = find_pattern(true, self, pat);
        if i < self.len() {
            Some(i)
        } else {
            None
        }
    }

    /// The pieces of the slice between the occurrences of `pat`, one by one.
    fn find_pattern_all_naive<'a>(&'a self, pat: &'a [u8]) -> (r: ByteSliceFindPatternAllNaiveIterator<'a>)
        ensures
            r.rest() == self@,
            r.pattern() == pat@,
    {
        ByteSliceFindPatternAllNaiveIterator { slice: self, pat }
    }
}

/// The pieces of a byte slice between the occurrences of a pattern, one by one.
pub struct ByteSliceFindPatternAllNaiveIterator<'a> {
    slice: &'a [u8],
    pat: &'a [u8],
}

impl<'a> ByteSliceFindPatternAllNaiveIterator<'a> {
    /// What is still to be split.
    pub closed spec fn rest(&self) -> Seq<u8> {
        self.slice@
    }

    /// The pattern.
    pub closed spec fn pattern(&self) -> Seq<u8> {
        self.pat@
    }

    /// The next piece: the bytes before the next occurrence of the pattern, or all that is
    /// left when it does not occur; `None` once nothing is left. A pattern that ends the
    /// slice does not leave an empty piece after it.
    pub fn next(&mut self) -> (r: Option<&'a [u8]>)
        requires
            old(self).pattern().len() > 0,
        ensures
            final(self).pattern() == old(self).pattern(),
            match split_step(old(self).rest(), old(self).pattern(), true) {
                None => r is None && final(self).rest() == old(self).rest(),
                Some((piece, rest)) => r matches Some(x) && x@ == piece && final(self).rest() == rest,
            },
    {
        let s = self.slice;
        if s.len() == 0 {
            return None;
        }
        let m = self.pat.len();
        let i = find_pattern(true, s, self.pat);
        let ret = slice_range(s, 0, i);
        if i < s.len() && i + m < s.len() {
            self.slice = slice_range(s, i + m, s.len());
        } else {
            self.slice = slice_range(s, 0, 0);
        }
        Some(ret)
    }
}

/// Taking a prefix off a byte slice.
pub trait ByteSliceRefExt {
    fn take_until_dropped_pattern(&mut self, pat: &[u8]) -> Option<&[u8]>;
}

impl<'b> ByteSliceRefExt for &'b [u8] {
    /// The bytes before the first occurrence of `pat`, which is then dropped together with
    /// them; `None`, and the slice unchanged, when `pat` does not occur.
    fn take_until_dropped_pattern(&mut self, pat: &[u8]) -> (r: Option<&[u8]>)
        ensures
            match find_pattern_from(old(self)@, pat@, true, 0) {
                Some(i) => r matches Some(x) && x@ == old(self)@.subrange(0, i) && final(self)@
                    == old(self)@.subrange(i + pat@.len(), old(self)@.len() as int),
                None => r is None && final(self)@ == old(self)@,
            },
    {
        let s: &'b [u8] = *self;
        if pat.len() == 0 {
            assert(s@.subrange(0, 0) =~= pat@);
            *self = slice_range(s, 0, s.len());
            assert(s@.subrange(0, s@.len() as int) =~= s@);
            return Some(slice_range(s, 0, 0));
        }
        let i = find_pattern(true, s, pat);
        proof {
            lemma_find_pattern_bounds(s@, pat@, true, 0);
        }
        if i < s.len() {
            let cut = slice_range(s, 0, i);
            *self = slice_range(s, i + pat.len(), s.len());
            Some(cut)
        } else {
            None
        }
    }
}

} // verus!
