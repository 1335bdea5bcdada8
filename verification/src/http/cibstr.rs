//! Byte strings whose equality is exact (`CS == true`) or ignores ASCII case (`CS == false`).
use crate::text::{bytes_eq, bytes_eq_ignore_case, ci_bytes_eq, lower_byte, str_from_utf8};
use std::str::Utf8Error;
use vstd::prelude::*;
use vstd::std_specs::cmp::PartialEqSpecImpl;
use vstd::slice::slice_to_vec;
use vstd::utf8::{decode_utf8, valid_utf8};

verus! {

/// An owned byte string; `CS` says whether comparisons respect ASCII case.
#[derive(Debug, Clone)]
pub struct ByteString<const CS: bool>(Vec<u8>);

/// A borrowed byte string; `CS` says whether comparisons respect ASCII case.
#[derive(Debug, Clone, Copy)]
pub struct ByteStr<'a, const CS: bool>(&'a [u8]);

impl<const CS: bool> View for ByteString<CS> {
    type V = Seq<u8>;

    closed spec fn view(&self) -> Seq<u8> {
        self.0@
    }
}

impl<'a, const CS: bool> View for ByteStr<'a, CS> {
    type V = Seq<u8>;

    closed spec fn view(&self) -> Seq<u8> {
        self.0@
    }
}

/// Equality of byte strings: exact when `cs`, without regard to ASCII case otherwise.
pub open spec fn bytes_match(cs: bool, a: Seq<u8>, b: Seq<u8>) -> bool {
    if cs {
        a == b
    } else {
        ci_bytes_eq(a, b)
    }
}

/// Compares two byte slices the way a byte string of kind `cs` does.
pub fn match_bytes(cs: bool, a: &[u8], b: &[u8]) -> (r: bool)
    ensures
        r == bytes_match(cs, a@, b@),
{
    if cs {
        bytes_eq(a, b)
    } else {
        bytes_eq_ignore_case(a, b)
    }
}

/// Turns owned bytes into a byte string.
pub trait ToByteString: Sized {
    fn to_byte_string<const CS: bool>(self) -> ByteString<CS>;

    fn case_sensitive(self) -> ByteString<true>;

    fn case_insensitive(self) -> ByteString<false>;
}

impl ToByteString for Vec<u8> {
    fn to_byte_string<const CS: bool>(self) -> (r: ByteString<CS>)
        ensures
            r@ == self@,
    {
        ByteString(self)
    }

    fn case_sensitive(self) -> (r: ByteString<true>)
        ensures
            r@ == self@,
    {
        self.to_byte_string::<true>()
    }

    fn case_insensitive(self) -> (r: ByteString<false>)
        ensures
            r@ == self@,
    {
        self.to_byte_string::<false>()
    }
}

/// Views borrowed bytes as a byte string.
pub trait ToByteStr {
    fn to_byte_str<const CS: bool>(&self) -> ByteStr<'_, CS>;

    fn case_sensitive(&self) -> ByteStr<'_, true>;

    fn case_insensitive(&self) -> ByteStr<'_, false>;
}

impl ToByteStr for [u8] {
    fn to_byte_str<const CS: bool>(&self) -> (r: ByteStr<'_, CS>)
        ensures
            r@ == self@,
    {
        ByteStr(self)
    }

    fn case_sensitive(&self) -> (r: ByteStr<'_, true>)
        ensures
            r@ == self@,
    {
        self.to_byte_str::<true>()
    }

    fn case_insensitive(&self) -> (r: ByteStr<'_, false>)
        ensures
            r@ == self@,
    {
        self.to_byte_str::<false>()
    }
}

impl<'a> PartialEq for ByteStr<'a, true> {
    fn eq(&self, other: &Self) -> (r: bool) {
        bytes_eq(self.0, other.0)
    }
}

impl<'a> PartialEqSpecImpl for ByteStr<'a, true> {
    open spec fn obeys_eq_spec() -> bool {
        true
    }

    open spec fn eq_spec(&self, other: &Self) -> bool {
        self@ == other@
    }
}

impl<'a> Eq for ByteStr<'a, true> {}

impl<'a> PartialEq for ByteStr<'a, false> {
    fn eq(&self, other: &Self) -> (r: bool) {
        bytes_eq_ignore_case(self.0, other.0)
    }
}

impl<'a> PartialEqSpecImpl for ByteStr<'a, false> {
    open spec fn obeys_eq_spec() -> bool {
        true
    }

    open spec fn eq_spec(&self, other: &Self) -> bool {
        ci_bytes_eq(self@, other@)
    }
}

impl<'a> Eq for ByteStr<'a, false> {}

impl PartialEq for ByteString<true> {
    fn eq(&self, other: &Self) -> (r: bool) {
        bytes_eq(self.0.as_slice(), other.0.as_slice())
    }
}

impl PartialEqSpecImpl for ByteString<true> {
    open spec fn obeys_eq_spec() -> bool {
        true
    }

    open spec fn eq_spec(&self, other: &Self) -> bool {
        self@ == other@
    }
}

impl Eq for ByteString<true> {}

impl PartialEq for ByteString<false> {
    fn eq(&self, other: &Self) -> (r: bool) {
        bytes_eq_ignore_case(self.0.as_slice(), other.0.as_slice())
    }
}

impl PartialEqSpecImpl for ByteString<false> {
    open spec fn obeys_eq_spec() -> bool {
        true
    }

    open spec fn eq_spec(&self, other: &Self) -> bool {
        ci_bytes_eq(self@, other@)
    }
}

impl Eq for ByteString<false> {}

impl ByteString<true> {
    /// The same bytes, compared without regard to ASCII case.
    pub fn case_insensitive(self) -> (r: ByteString<false>)
        ensures
            r@ == self@,
    {
        ByteString(self.0)
    }
}

impl ByteString<false> {
    /// The same bytes, compared exactly.
    pub fn case_sensitive(self) -> (r: ByteString<true>)
        ensures
            r@ == self@,
    {
        ByteString(self.0)
    }
}

impl<'a> ByteStr<'a, true> {
    /// The same bytes, compared without regard to ASCII case.
    pub fn case_insensitive(&self) -> (r: ByteStr<'a, false>)
        ensures
            r@ == self@,
    {
        ByteStr(self.0)
    }
}

impl<'a> ByteStr<'a, false> {
    /// The same bytes, compared exactly.
    pub fn case_sensitive(&self) -> (r: ByteStr<'a, true>)
        ensures
            r@ == self@,
    {
        ByteStr(self.0)
    }
}

impl<const CS: bool> ByteString<CS> {
    /// The byte string as a borrowed byte string (what `Deref`, `AsRef` and `Borrow` give in
    /// the standard library's idiom).
    pub fn as_byte_str(&self) -> (r: ByteStr<'_, CS>)
        ensures
            r@ == self@,
    {
        ByteStr(self.0.as_slice())
    }
}

/// The first position at or after `p` where `pat` occurs in `s`, compared as a byte string of
/// kind `cs` compares.
pub open spec fn find_pattern_from(s: Seq<u8>, pat: Seq<u8>, cs: bool, p: int) -> Option<int>
    decreases s.len() + 1 - p,
    when p >= 0
{
    if p + pat.len() > s.len() {
        None
    } else if bytes_match(cs, s.subrange(p, p + pat.len()), pat) {
        Some(p)
    } else {
        find_pattern_from(s, pat, cs, p + 1)
    }
}

/// Where `find_pattern_from` finds the pattern, it occurs, within `s` and at or after `p`.
pub proof fn lemma_find_pattern_bounds(s: Seq<u8>, pat: Seq<u8>, cs: bool, p: int)
    requires
        p >= 0,
    ensures
        find_pattern_from(s, pat, cs, p) matches Some(i) ==> p <= i && i + pat.len() <= s.len()
            && bytes_match(cs, s.subrange(i, i + pat.len()), pat),
    decreases s.len() + 1 - p,
{
    if p + pat.len() <= s.len() && !bytes_match(cs, s.subrange(p, p + pat.len()), pat) {
        lemma_find_pattern_bounds(s, pat, cs, p + 1);
    }
}

/// One step of splitting `s` at `pat`: the part before the first occurrence (all of `s` if
/// there is none) and what follows that occurrence (nothing when it ends `s`). `None` once
/// `s` is empty.
pub open spec fn split_step(s: Seq<u8>, pat: Seq<u8>, cs: bool) -> Option<(Seq<u8>, Seq<u8>)> {
    if s.len() == 0 {
        None
    } else {
        let i = match find_pattern_from(s, pat, cs, 0) {
            Some(p) => p,
            None => s.len() as int,
        };
        Some(
            (
                s.subrange(0, i),
                if i + pat.len() < s.len() {
                    s.subrange(i + pat.len(), s.len() as int)
                } else {
                    Seq::empty()
                },
            ),
        )
    }
}

/// All the pieces that splitting `s` at `pat` gives, one `split_step` after another.
pub open spec fn split_pieces(s: Seq<u8>, pat: Seq<u8>, cs: bool) -> Seq<Seq<u8>>
    decreases s.len(),
{
    match split_step(s, pat, cs) {
        None => seq![],
        Some((piece, rest)) => if rest.len() < s.len() {
            seq![piece] + split_pieces(rest, pat, cs)
        } else {
            seq![piece]
        },
    }
}

/// The pieces joined with `pat` between each two.
pub open spec fn join_pieces(pieces: Seq<Seq<u8>>, pat: Seq<u8>) -> Seq<u8>
    decreases pieces.len(),
{
    if pieces.len() == 0 {
        seq![]
    } else if pieces.len() == 1 {
        pieces[0]
    } else {
        pieces[0] + pat + join_pieces(pieces.drop_first(), pat)
    }
}

/// `bytes_match` is reflexive.
proof fn lemma_match_refl(cs: bool, a: Seq<u8>)
    ensures
        bytes_match(cs, a, a),
{
}

/// `bytes_match` goes through concatenation.
proof fn lemma_match_concat(cs: bool, a1: Seq<u8>, a2: Seq<u8>, b1: Seq<u8>, b2: Seq<u8>)
    requires
        bytes_match(cs, a1, b1),
        bytes_match(cs, a2, b2),
    ensures
        bytes_match(cs, a1 + a2, b1 + b2),
{
    if cs {
    } else {
        assert forall|i: int| 0 <= i < (a1 + a2).len() implies lower_byte(#[trigger] (a1 + a2)[i]) == lower_byte(
            (b1 + b2)[i],
        ) by {
            if i < a1.len() {
                assert((a1 + a2)[i] == a1[i] && (b1 + b2)[i] == b1[i]);
            } else {
                assert((a1 + a2)[i] == a2[i - a1.len()] && (b1 + b2)[i] == b2[i - a1.len()]);
            }
        }
    }
}

/// No window of `s` matches `pat` from `p` on before the position that `find_pattern_from`
/// gives (anywhere, when it gives none).
proof fn lemma_no_match_before(s: Seq<u8>, pat: Seq<u8>, cs: bool, p: int)
    requires
        p >= 0,
    ensures
        forall|q: int|
            p <= q && q + pat.len() <= s.len() && (find_pattern_from(s, pat, cs, p) matches Some(i) ==> q < i)
                ==> !bytes_match(cs, #[trigger] s.subrange(q, q + pat.len()), pat),
    decreases s.len() + 1 - p,
{
    if p + pat.len() <= s.len() && !bytes_match(cs, s.subrange(p, p + pat.len()), pat) {
        lemma_no_match_before(s, pat, cs, p + 1);
    }
}

/// Where no window from `q` on matches, `find_pattern_from` finds nothing.
proof fn lemma_none_from(t: Seq<u8>, pat: Seq<u8>, cs: bool, q: int)
    requires
        q >= 0,
        forall|r: int| q <= r && r + pat.len() <= t.len() ==> !bytes_match(cs, #[trigger] t.subrange(r, r + pat.len()), pat),
    ensures
        find_pattern_from(t, pat, cs, q) is None,
    decreases t.len() + 1 - q,
{
    if q + pat.len() <= t.len() {
        lemma_none_from(t, pat, cs, q + 1);
    }
}

/// The first piece of a split holds no occurrence of the pattern.
proof fn lemma_piece_clean(s: Seq<u8>, pat: Seq<u8>, cs: bool)
    requires
        pat.len() > 0,
        s.len() > 0,
    ensures
        split_step(s, pat, cs) matches Some((piece, rest)) && find_pattern_from(piece, pat, cs, 0) is None,
{
    let i = match find_pattern_from(s, pat, cs, 0) {
        Some(p) => p,
        None => s.len() as int,
    };
    lemma_find_pattern_bounds(s, pat, cs, 0);
    lemma_no_match_before(s, pat, cs, 0);
    let t = s.subrange(0, i);
    assert forall|r: int| 0 <= r && r + pat.len() <= t.len() implies !bytes_match(
        cs,
        #[trigger] t.subrange(r, r + pat.len()),
        pat,
    ) by {
        assert(t.subrange(r, r + pat.len()) =~= s.subrange(r, r + pat.len()));
    }
    lemma_none_from(t, pat, cs, 0);
}

/// Splitting a byte string at a non-empty pattern and joining the pieces with the pattern
/// gives the string back, up to one occurrence of the pattern that ended it, compared as
/// the byte string compares. There are pieces exactly when the string is not empty, no
/// piece holds an occurrence of the pattern, and the first piece is what comes before the
/// first occurrence (all of the string when there is none).
pub proof fn lemma_split_round_trip(s: Seq<u8>, pat: Seq<u8>, cs: bool)
    requires
        pat.len() > 0,
    ensures
        (split_pieces(s, pat, cs).len() == 0) == (s.len() == 0),
        forall|k: int|
            0 <= k < split_pieces(s, pat, cs).len() ==> find_pattern_from(
                #[trigger] split_pieces(s, pat, cs)[k],
                pat,
                cs,
                0,
            ) is None,
        s.len() > 0 ==> split_pieces(s, pat, cs)[0] == s.subrange(
            0,
            match find_pattern_from(s, pat, cs, 0) {
                Some(i) => i,
                None => s.len() as int,
            },
        ),
        bytes_match(cs, s, join_pieces(split_pieces(s, pat, cs), pat)) || bytes_match(
            cs,
            s,
            join_pieces(split_pieces(s, pat, cs), pat) + pat,
        ),
    decreases s.len(),
{
    let ps = split_pieces(s, pat, cs);
    if s.len() == 0 {
        lemma_match_refl(cs, s);
        assert(join_pieces(ps, pat) =~= s);
        return;
    }
    lemma_find_pattern_bounds(s, pat, cs, 0);
    lemma_piece_clean(s, pat, cs);
    let (piece, rest) = split_step(s, pat, cs)->0;
    match find_pattern_from(s, pat, cs, 0) {
        None => {
            assert(piece =~= s);
            assert(rest.len() == 0);
            assert(split_pieces(rest, pat, cs) =~= Seq::<Seq<u8>>::empty());
            assert(ps =~= seq![piece]);
            lemma_match_refl(cs, s);
        },
        Some(i) => {
            let m = pat.len() as int;
            if i + m < s.len() {
                assert(rest =~= s.subrange(i + m, s.len() as int));
                lemma_split_round_trip(rest, pat, cs);
                let qs = split_pieces(rest, pat, cs);
                assert(ps =~= seq![piece] + qs);
                assert(ps.drop_first() =~= qs);
                assert(join_pieces(ps, pat) == piece + pat + join_pieces(qs, pat));
                assert forall|k: int| 0 <= k < ps.len() implies find_pattern_from(#[trigger] ps[k], pat, cs, 0) is None by {
                    if k > 0 {
                        assert(ps[k] == qs[k - 1]);
                    }
                }
                lemma_match_refl(cs, piece);
                let head = piece + s.subrange(i, i + m);
                lemma_match_concat(cs, piece, s.subrange(i, i + m), piece, pat);
                assert(s =~= head + rest);
                let j = join_pieces(qs, pat);
                if bytes_match(cs, rest, j) {
                    lemma_match_concat(cs, head, rest, piece + pat, j);
                    assert(piece + pat + j =~= (piece + pat) + j);
                } else {
                    lemma_match_concat(cs, head, rest, piece + pat, j + pat);
                    assert((piece + pat) + (j + pat) =~= piece + pat + j + pat);
                }
            } else {
                assert(rest.len() == 0);
                assert(split_pieces(rest, pat, cs) =~= Seq::<Seq<u8>>::empty());
                assert(ps =~= seq![piece]);
                lemma_match_refl(cs, piece);
                lemma_match_concat(cs, piece, s.subrange(i, s.len() as int), piece, pat);
                assert(s =~= piece + s.subrange(i, s.len() as int));
            }
        },
    }
}

/// The first occurrence of `pat` in `s`, or the length of `s`.
pub fn find_pattern(cs: bool, s: &[u8], pat: &[u8]) -> (r: usize)
    requires
        pat@.len() > 0,
    ensures
        r <= s@.len(),
        r < s@.len() ==> r + pat@.len() <= s@.len(),
        (find_pattern_from(s@, pat@, cs, 0) is Some) == (r < s@.len()),
        match find_pattern_from(s@, pat@, cs, 0) {
            Some(p) => r == p,
            None => r == s@.len(),
        },
{
    let m = pat.len();
    let n = s.len();
    let mut p: usize = 0;
    while p <= n && m <= n - p
        invariant
            m == pat@.len(),
            m > 0,
            n == s@.len(),
            find_pattern_from(s@, pat@, cs, 0) == find_pattern_from(s@, pat@, cs, p as int),
        decreases n + 1 - p,
    {
        let window = slice_range(s, p, p + m);
        if match_bytes(cs, window, pat) {
            return p;
        }
        p = p + 1;
    }
    n
}

/// The bytes `s[lo..hi]`, borrowed from `s`.
pub fn slice_range<'a>(s: &'a [u8], lo: usize, hi: usize) -> (r: &'a [u8])
    requires
        lo <= hi <= s@.len(),
    ensures
        r@ == s@.subrange(lo as int, hi as int),
{
    &s[lo..hi]
}

impl<'a, const CS: bool> ByteStr<'a, CS> {
    /// The bytes.
    pub fn bytes(&self) -> (r: &'a [u8])
        ensures
            r@ == self@,
    {
        self.0
    }

    /// The pieces of the byte string between the occurrences of `pat`, in order; `pat`
    /// must not be empty.
    pub fn split_pat_naive(&self, pat: ByteStr<'a, CS>) -> (r: ByteStrSplitPatNaiveIterator<'a, CS>)
        ensures
            r.rest() == self@,
            r.pattern() == pat@,
    {
        ByteStrSplitPatNaiveIterator { string: *self, pat }
    }

    /// The text that the bytes encode, when they are valid UTF-8.
    pub fn as_str(&self) -> (r: Result<&'a str, Utf8Error>)
        ensures
            r is Ok <==> valid_utf8(self@),
            r matches Ok(s) ==> s@ == decode_utf8(self@),
    {
        str_from_utf8(self.0)
    }

    /// An owned copy.
    pub fn to_owned(&self) -> (r: ByteString<CS>)
        ensures
            r@ == self@,
    {
        ByteString(slice_to_vec(self.0))
    }
}

/// The pieces of a byte string between the occurrences of a pattern, one by one.
pub struct ByteStrSplitPatNaiveIterator<'a, const CS: bool> {
    string: ByteStr<'a, CS>,
    pat: ByteStr<'a, CS>,
}

impl<'a, const CS: bool> ByteStrSplitPatNaiveIterator<'a, CS> {
    /// What is still to be split.
    pub closed spec fn rest(&self) -> Seq<u8> {
        self.string@
    }

    /// The pattern.
    pub closed spec fn pattern(&self) -> Seq<u8> {
        self.pat@
    }

    /// The next piece: the bytes before the next occurrence of the pattern, or all that is
    /// left when it does not occur; `None` once nothing is left. A pattern that ends the
    /// string does not leave an empty piece after it.
    pub fn next(&mut self) -> (r: Option<ByteStr<'a, CS>>)
        requires
            old(self).pattern().len() > 0,
        ensures
            final(self).pattern() == old(self).pattern(),
            match split_step(old(self).rest(), old(self).pattern(), CS) {
                None => r is None && final(self).rest() == old(self).rest(),
                Some((piece, rest)) => r matches Some(x) && x@ == piece && final(self).rest() == rest,
            },
    {
        let s = self.string.0;
        if s.len() == 0 {
            return None;
        }
        let m = self.pat.0.len();
        let i = find_pattern(CS, s, self.pat.0);
        let ret = ByteStr(slice_range(s, 0, i));
        if i < s.len() && i + m < s.len() {
            self.string = ByteStr(slice_range(s, i + m, s.len()));
        } else {
            self.string = ByteStr(slice_range(s, 0, 0));
        }
        Some(ret)
    }
}

} // verus!
