//! Character- and byte-level helpers shared by the HTTP parsers: ASCII case folding,
//! searching, splitting, trimming and decimal numbers, each with a mathematical model.
use vstd::prelude::*;
use std::str::Utf8Error;
use std::string::FromUtf8Error;
use vstd::string::StrSliceExecFns;
use vstd::utf8::{decode_utf8, valid_utf8};

verus! {

// ---------------------------------------------------------------------------
// Case folding
// ---------------------------------------------------------------------------

/// The code of `c` after ASCII lower-casing (only `A`..=`Z` change).
pub open spec fn lower_code(c: char) -> u32 {
    if 'A' <= c && c <= 'Z' {
        (c as u32 + 32) as u32
    } else {
        c as u32
    }
}

/// Two characters that are equal after ASCII lower-casing.
pub open spec fn ci_char_eq(a: char, b: char) -> bool {
    lower_code(a) == lower_code(b)
}

/// Two character sequences that are equal after ASCII lower-casing.
pub open spec fn ci_eq(a: Seq<char>, b: Seq<char>) -> bool {
    &&& a.len() == b.len()
    &&& forall|i: int| 0 <= i < a.len() ==> ci_char_eq(#[trigger] a[i], b[i])
}

/// A byte after ASCII lower-casing.
pub open spec fn lower_byte(b: u8) -> u8 {
    if 0x41 <= b && b <= 0x5a {
        (b + 32) as u8
    } else {
        b
    }
}

/// Two byte sequences that are equal after ASCII lower-casing.
pub open spec fn ci_bytes_eq(a: Seq<u8>, b: Seq<u8>) -> bool {
    &&& a.len() == b.len()
    &&& forall|i: int| 0 <= i < a.len() ==> lower_byte(#[trigger] a[i]) == lower_byte(b[i])
}

/// The code of `c` after ASCII lower-casing.
pub fn lower_code_of(c: char) -> (r: u32)
    ensures
        r == lower_code(c),
{
    if 'A' <= c && c <= 'Z' {
        c as u32 + 32
    } else {
        c as u32
    }
}

/// `b` after ASCII lower-casing.
pub fn lower_byte_of(b: u8) -> (r: u8)
    ensures
        r == lower_byte(b),
{
    if 0x41 <= b && b <= 0x5a {
        b + 32
    } else {
        b
    }
}

// ---------------------------------------------------------------------------
// Strings and character vectors
// ---------------------------------------------------------------------------

/// The characters of `s`, in order.
pub fn chars_of(s: &str) -> (v: Vec<char>)
    ensures
        v@ == s@,
{
    let mut v: Vec<char> = Vec::new();
    for c in it: s.chars()
        invariant
            v@ == it.seq().take(it.index() as int),
    {
        v.push(c);
    }
    v
}

/// Appends one character to a string (`String::push`).
#[verifier::external_body]
pub(crate) fn push_char(s: &mut String, c: char)
    ensures
        final(s)@ == old(s)@.push(c),
{
    s.push(c);
}

#[verifier::external_type_specification]
#[verifier::external_body]
pub struct ExFromUtf8Error(FromUtf8Error);

#[verifier::external_type_specification]
#[verifier::external_body]
pub struct ExUtf8Error(Utf8Error);

/// `String::from_utf8`: the string that the bytes encode, when they are valid UTF-8.
#[verifier::external_body]
pub(crate) fn string_from_utf8(bytes: Vec<u8>) -> (r: Result<String, FromUtf8Error>)
    ensures
        r is Ok <==> valid_utf8(bytes@),
        r matches Ok(s) ==> s@ == decode_utf8(bytes@),
{
    String::from_utf8(bytes)
}

/// `std::str::from_utf8`: the string slice that the bytes encode, when they are valid UTF-8.
#[verifier::external_body]
pub(crate) fn str_from_utf8(bytes: &[u8]) -> (r: Result<&str, Utf8Error>)
    ensures
        r is Ok <==> valid_utf8(bytes@),
        r matches Ok(s) ==> s@ == decode_utf8(bytes@),
{
    std::str::from_utf8(bytes)
}

/// A new string holding the characters `v[lo..hi]`.
pub fn string_from_chars(v: &Vec<char>, lo: usize, hi: usize) -> (r: String)
    requires
        lo <= hi <= v@.len(),
    ensures
        r@ == v@.subrange(lo as int, hi as int),
{
    let mut r = String::new();
    let mut i = lo;
    while i < hi
        invariant
            lo <= i <= hi <= v@.len(),
            r@ == v@.subrange(lo as int, i as int),
        decreases hi - i,
    {
        push_char(&mut r, v[i]);
        i = i + 1;
        assert(r@ =~= v@.subrange(lo as int, i as int));
    }
    r
}

/// The part of `s` between character positions `lo` and `hi`, borrowed from `s`.
pub fn str_range<'a>(s: &'a str, lo: usize, hi: usize) -> (r: &'a str)
    requires
        lo <= hi <= s@.len(),
    ensures
        r@ == s@.subrange(lo as int, hi as int),
{
    s.substring_char(lo, hi)
}

/// A new string equal to `s`.
pub fn owned(s: &str) -> (r: String)
    ensures
        r@ == s@,
{
    s.to_owned()
}

/// Appends the bytes `s` to `buf`.
pub fn extend_bytes(buf: &mut Vec<u8>, s: &[u8])
    ensures
        final(buf)@ == old(buf)@ + s@,
{
    buf.extend_from_slice(s);
    assert(buf@ =~= old(buf)@ + s@);
}

/// ASCII case-insensitive equality of two character vectors.
pub fn chars_eq_ignore_case(a: &Vec<char>, b: &Vec<char>) -> (r: bool)
    ensures
        r == ci_eq(a@, b@),
{
    if a.len() != b.len() {
        return false;
    }
    let mut i: usize = 0;
    while i < a.len()
        invariant
            a@.len() == b@.len(),
            i <= a@.len(),
            forall|j: int| 0 <= j < i ==> ci_char_eq(#[trigger] a@[j], b@[j]),
        decreases a@.len() - i,
    {
        if lower_code_of(a[i]) != lower_code_of(b[i]) {
            return false;
        }
        i = i + 1;
    }
    true
}

/// ASCII case-insensitive equality of two strings.
pub fn str_eq_ignore_case(a: &str, b: &str) -> (r: bool)
    ensures
        r == ci_eq(a@, b@),
{
    let va = chars_of(a);
    let vb = chars_of(b);
    chars_eq_ignore_case(&va, &vb)
}

/// The sign of the comparison of `a` and `b` character by character after ASCII
/// lower-casing, a shorter prefix coming first: `-1`, `0` or `1`.
pub open spec fn ci_sign(a: Seq<char>, b: Seq<char>) -> int
    decreases a.len(),
{
    if a.len() == 0 {
        if b.len() == 0 {
            0
        } else {
            -1
        }
    } else if b.len() == 0 {
        1
    } else if lower_code(a[0]) < lower_code(b[0]) {
        -1
    } else if lower_code(a[0]) > lower_code(b[0]) {
        1
    } else {
        ci_sign(a.drop_first(), b.drop_first())
    }
}

/// Compares two strings without regard to ASCII case.
pub fn ci_compare(x: &str, y: &str) -> (r: i8)
    ensures
        r == ci_sign(x@, y@),
{
    let a = chars_of(x);
    let b = chars_of(y);
    let mut i: usize = 0;
    assert(a@.skip(0) =~= a@);
    assert(b@.skip(0) =~= b@);
    while i < a.len() && i < b.len()
        invariant
            i <= a@.len(),
            i <= b@.len(),
            a@ == x@,
            b@ == y@,
            ci_sign(a@, b@) == ci_sign(a@.skip(i as int), b@.skip(i as int)),
        decreases a@.len() - i,
    {
        let p = lower_code_of(a[i]);
        let q = lower_code_of(b[i]);
        assert(a@.skip(i as int)[0] == a@[i as int]);
        assert(b@.skip(i as int)[0] == b@[i as int]);
        if p < q {
            return -1;
        } else if p > q {
            return 1;
        }
        assert(a@.skip(i as int).drop_first() =~= a@.skip(i + 1));
        assert(b@.skip(i as int).drop_first() =~= b@.skip(i + 1));
        i = i + 1;
    }
    if i < a.len() {
        1
    } else if i < b.len() {
        -1
    } else {
        0
    }
}

/// `ci_sign` is zero exactly on strings equal without regard to ASCII case.
pub proof fn lemma_ci_sign_equal(a: Seq<char>, b: Seq<char>)
    ensures
        (ci_sign(a, b) == 0) == ci_eq(a, b),
    decreases a.len(),
{
    if a.len() > 0 && b.len() > 0 {
        lemma_ci_sign_equal(a.drop_first(), b.drop_first());
        if ci_eq(a, b) {
            assert(ci_char_eq(a[0], b[0]));
            assert forall|i: int| 0 <= i < a.len() - 1 implies ci_char_eq(
                #[trigger] a.drop_first()[i],
                b.drop_first()[i],
            ) by {
                assert(ci_char_eq(a[i + 1], b[i + 1]));
            }
        }
        if ci_sign(a, b) == 0 {
            assert forall|i: int| 0 <= i < a.len() implies ci_char_eq(#[trigger] a[i], b[i]) by {
                if i > 0 {
                    assert(a[i] == a.drop_first()[i - 1]);
                    assert(b[i] == b.drop_first()[i - 1]);
                }
            }
        }
    }
}

/// Swapping the operands of `ci_sign` negates it.
pub proof fn lemma_ci_sign_antisymmetric(a: Seq<char>, b: Seq<char>)
    ensures
        ci_sign(a, b) == -ci_sign(b, a),
    decreases a.len(),
{
    if a.len() > 0 && b.len() > 0 {
        lemma_ci_sign_antisymmetric(a.drop_first(), b.drop_first());
    }
}

/// `ci_sign` orders transitively: `a` before `b` before `c` puts `a` before `c`.
pub proof fn lemma_ci_sign_transitive(a: Seq<char>, b: Seq<char>, c: Seq<char>)
    requires
        ci_sign(a, b) < 0,
        ci_sign(b, c) < 0,
    ensures
        ci_sign(a, c) < 0,
    decreases a.len(),
{
    if a.len() > 0 && b.len() > 0 && c.len() > 0 {
        if lower_code(a[0]) == lower_code(b[0]) && lower_code(b[0]) == lower_code(c[0]) {
            lemma_ci_sign_transitive(a.drop_first(), b.drop_first(), c.drop_first());
        }
    }
}

/// ASCII case-insensitive equality of two byte slices.
pub fn bytes_eq_ignore_case(a: &[u8], b: &[u8]) -> (r: bool)
    ensures
        r == ci_bytes_eq(a@, b@),
{
    if a.len() != b.len() {
        return false;
    }
    let mut i: usize = 0;
    while i < a.len()
        invariant
            a@.len() == b@.len(),
            i <= a@.len(),
            forall|j: int| 0 <= j < i ==> lower_byte(#[trigger] a@[j]) == lower_byte(b@[j]),
        decreases a@.len() - i,
    {
        if lower_byte_of(a[i]) != lower_byte_of(b[i]) {
            return false;
        }
        i = i + 1;
    }
    true
}

/// Exact equality of two byte slices.
pub fn bytes_eq(a: &[u8], b: &[u8]) -> (r: bool)
    ensures
        r == (a@ == b@),
{
    if a.len() != b.len() {
        return false;
    }
    let mut i: usize = 0;
    while i < a.len()
        invariant
            a@.len() == b@.len(),
            i <= a@.len(),
            forall|j: int| 0 <= j < i ==> #[trigger] a@[j] == b@[j],
        decreases a@.len() - i,
    {
        if a[i] != b[i] {
            return false;
        }
        i = i + 1;
    }
    assert(a@ =~= b@);
    true
}

// ---------------------------------------------------------------------------
// Searching and splitting
// ---------------------------------------------------------------------------

/// The position of the first `x` in `s`, if any.
pub open spec fn index_of<A>(s: Seq<A>, x: A) -> Option<int>
    decreases s.len(),
{
    if s.len() == 0 {
        None
    } else if s[0] == x {
        Some(0)
    } else {
        match index_of(s.drop_first(), x) {
            Some(i) => Some(i + 1),
            None => None,
        }
    }
}

/// `index_of` is the first position holding `x`.
pub proof fn lemma_index_of<A>(s: Seq<A>, x: A, i: int)
    requires
        0 <= i <= s.len(),
        forall|j: int| 0 <= j < i ==> s[j] != x,
        i == s.len() || s[i] == x,
    ensures
        i == s.len() ==> index_of(s, x) is None,
        i < s.len() ==> index_of(s, x) == Some(i),
    decreases s.len(),
{
    if s.len() > 0 && i > 0 {
        assert forall|j: int| 0 <= j < i - 1 implies s.drop_first()[j] != x by {
            assert(s.drop_first()[j] == s[j + 1]);
        }
        if i < s.len() {
            assert(s.drop_first()[i - 1] == s[i]);
        }
        lemma_index_of(s.drop_first(), x, i - 1);
    }
}

/// What `index_of` returns, in terms of positions.
pub proof fn lemma_index_of_props<A>(s: Seq<A>, x: A)
    ensures
        index_of(s, x) matches Some(i) ==> 0 <= i < s.len() && s[i] == x && forall|j: int|
            0 <= j < i ==> s[j] != x,
        index_of(s, x) is None ==> forall|j: int| 0 <= j < s.len() ==> s[j] != x,
    decreases s.len(),
{
    if s.len() > 0 && s[0] != x {
        lemma_index_of_props(s.drop_first(), x);
        assert forall|j: int| 1 <= j < s.len() implies s[j] == s.drop_first()[j - 1] by {}
    }
}

/// The first position of `x` in `v[lo..hi]`, counted from the start of `v`.
pub fn find_char(v: &Vec<char>, lo: usize, hi: usize, x: char) -> (r: Option<usize>)
    requires
        lo <= hi <= v@.len(),
    ensures
        match index_of(v@.subrange(lo as int, hi as int), x) {
            Some(i) => r matches Some(j) && j == lo + i,
            None => r is None,
        },
        r matches Some(i) ==> lo <= i < hi && v@[i as int] == x && forall|j: int| lo <= j < i ==> v@[j] != x,
        r is None ==> forall|j: int| lo <= j < hi ==> v@[j] != x,
{
    let mut i = lo;
    while i < hi
        invariant
            lo <= i <= hi <= v@.len(),
            forall|j: int| lo <= j < i ==> v@[j] != x,
        decreases hi - i,
    {
        if v[i] == x {
            proof {
                let s = v@.subrange(lo as int, hi as int);
                lemma_index_of(s, x, i - lo);
            }
            return Some(i);
        }
        i = i + 1;
    }
    proof {
        let s = v@.subrange(lo as int, hi as int);
        lemma_index_of(s, x, hi - lo);
    }
    None
}

/// The pieces of `s` between the occurrences of `sep` (`str::split` with a single character).
pub open spec fn split<A>(s: Seq<A>, sep: A) -> Seq<Seq<A>>
    decreases s.len(),
{
    match index_of(s, sep) {
        None => seq![s],
        Some(i) => if 0 <= i < s.len() {
            seq![s.subrange(0, i)] + split(s.subrange(i + 1, s.len() as int), sep)
        } else {
            seq![s]
        },
    }
}

/// How many times `x` occurs in `s`.
pub open spec fn count_of<A>(s: Seq<A>, x: A) -> nat
    decreases s.len(),
{
    if s.len() == 0 {
        0
    } else {
        (if s[0] == x { 1nat } else { 0nat }) + count_of(s.drop_first(), x)
    }
}

/// Counting goes through concatenation.
pub proof fn lemma_count_concat<A>(a: Seq<A>, b: Seq<A>, x: A)
    ensures
        count_of(a + b, x) == count_of(a, x) + count_of(b, x),
    decreases a.len(),
{
    if a.len() > 0 {
        assert((a + b).drop_first() =~= a.drop_first() + b);
        lemma_count_concat(a.drop_first(), b, x);
    } else {
        assert(a + b =~= b);
    }
}

/// A sequence in which `x` does not occur counts none of it.
proof fn lemma_count_absent<A>(s: Seq<A>, x: A)
    requires
        forall|j: int| 0 <= j < s.len() ==> s[j] != x,
    ensures
        count_of(s, x) == 0,
    decreases s.len(),
{
    if s.len() > 0 {
        assert forall|j: int| 0 <= j < s.drop_first().len() implies s.drop_first()[j] != x by {
            assert(s.drop_first()[j] == s[j + 1]);
        }
        lemma_count_absent(s.drop_first(), x);
    }
}

/// Splitting at `sep` gives one part more than there are separators, and no part holds one.
pub proof fn lemma_split_count<A>(s: Seq<A>, sep: A)
    ensures
        split(s, sep).len() == count_of(s, sep) + 1,
        forall|k: int, j: int|
            0 <= k < split(s, sep).len() && 0 <= j < split(s, sep)[k].len() ==> #[trigger] split(s, sep)[k][j] != sep,
    decreases s.len(),
{
    lemma_index_of_props(s, sep);
    match index_of(s, sep) {
        None => {
            lemma_count_absent(s, sep);
        },
        Some(i) => {
            let a = s.subrange(0, i);
            let b = s.subrange(i + 1, s.len() as int);
            lemma_split_count(b, sep);
            assert(s =~= a + (seq![sep] + b));
            lemma_count_concat(a, seq![sep] + b, sep);
            lemma_count_concat(seq![sep], b, sep);
            assert(seq![sep].drop_first() =~= Seq::<A>::empty());
            assert(count_of(Seq::<A>::empty(), sep) == 0);
            assert(count_of(seq![sep], sep) == 1);
            lemma_count_absent(a, sep);
            let parts = split(s, sep);
            assert(parts == seq![a] + split(b, sep));
            assert forall|k: int, j: int| 0 <= k < parts.len() && 0 <= j < parts[k].len() implies #[trigger] parts[k][j]
                != sep by {
                if k > 0 {
                    assert(parts[k] == split(b, sep)[k - 1]);
                }
            }
        },
    }
}

/// The parts of `v` that the position pairs `rs` delimit.
pub open spec fn slices<A>(v: Seq<A>, rs: Seq<(usize, usize)>) -> Seq<Seq<A>> {
    rs.map_values(|r: (usize, usize)| v.subrange(r.0 as int, r.1 as int))
}

/// Every pair in `rs` delimits a part of a sequence of length `n`.
pub open spec fn ranges_within(rs: Seq<(usize, usize)>, n: int) -> bool {
    forall|k: int| 0 <= k < rs.len() ==> (#[trigger] rs[k]).0 <= rs[k].1 <= n
}

/// Unfolds `split` at its first separator.
proof fn lemma_split_step(v: Seq<char>, pos: int, i: int, hi: int, sep: char)
    requires
        0 <= pos <= i < hi <= v.len(),
        v[i] == sep,
        forall|j: int| pos <= j < i ==> v[j] != sep,
    ensures
        split(v.subrange(pos, hi), sep) == seq![v.subrange(pos, i)] + split(v.subrange(i + 1, hi), sep),
{
    let s = v.subrange(pos, hi);
    lemma_index_of(s, sep, i - pos);
    assert(s.subrange(0, i - pos) =~= v.subrange(pos, i));
    assert(s.subrange(i - pos + 1, s.len() as int) =~= v.subrange(i + 1, hi));
}

/// The positions of the pieces of `v[lo..hi]` split at `sep`.
pub fn split_ranges(v: &Vec<char>, lo: usize, hi: usize, sep: char) -> (r: Vec<(usize, usize)>)
    requires
        lo <= hi <= v@.len(),
    ensures
        slices(v@, r@) == split(v@.subrange(lo as int, hi as int), sep),
        ranges_within(r@, v@.len() as int),
        r@.len() >= 1,
{
    let mut r: Vec<(usize, usize)> = Vec::new();
    let mut pos = lo;
    loop
        invariant
            lo <= pos <= hi <= v@.len(),
            split(v@.subrange(lo as int, hi as int), sep) == slices(v@, r@) + split(
                v@.subrange(pos as int, hi as int),
                sep,
            ),
            ranges_within(r@, v@.len() as int),
        decreases hi - pos,
    {
        let ghost old_r = r@;
        match find_char(v, pos, hi, sep) {
            None => {
                proof {
                    lemma_index_of_props(v@.subrange(pos as int, hi as int), sep);
                }
                r.push((pos, hi));
                assert(slices(v@, r@) =~= slices(v@, old_r) + seq![v@.subrange(pos as int, hi as int)]);
                return r;
            },
            Some(i) => {
                proof {
                    lemma_index_of_props(v@.subrange(pos as int, hi as int), sep);
                    assert forall|j: int| pos <= j < i implies v@[j] != sep by {
                        assert(v@[j] == v@.subrange(pos as int, hi as int)[j - pos]);
                    }
                    assert(v@[i as int] == v@.subrange(pos as int, hi as int)[i - pos]);
                    lemma_split_step(v@, pos as int, i as int, hi as int, sep);
                }
                r.push((pos, i));
                assert(slices(v@, r@) =~= slices(v@, old_r) + seq![v@.subrange(pos as int, i as int)]);
                pos = i + 1;
            },
        }
    }
}

/// A line without its final carriage return, if it has one.
pub open spec fn strip_cr(s: Seq<char>) -> Seq<char> {
    if s.len() > 0 && s.last() == '\r' {
        s.drop_last()
    } else {
        s
    }
}

/// `str::lines`: the text split at each `\n`, a `\r` just before it dropped too, with no
/// empty last line after a final line ending.
pub open spec fn lines(s: Seq<char>) -> Seq<Seq<char>>
    decreases s.len(),
{
    if s.len() == 0 {
        seq![]
    } else {
        match index_of(s, '\n') {
            None => seq![s],
            Some(i) => if 0 <= i < s.len() {
                seq![strip_cr(s.subrange(0, i))] + lines(s.subrange(i + 1, s.len() as int))
            } else {
                seq![s]
            },
        }
    }
}

/// How `lines` splits: text without `\n` is one line (none when empty), and a line ended
/// by `\n` comes first, without the `\n` and without a `\r` just before it, followed by
/// the lines of the rest.
pub proof fn lemma_lines_shape(a: Seq<char>, b: Seq<char>)
    requires
        forall|i: int| 0 <= i < a.len() ==> #[trigger] a[i] != '\n',
    ensures
        lines(Seq::empty()) == Seq::<Seq<char>>::empty(),
        a.len() > 0 ==> lines(a) == seq![a],
        lines(a + seq!['\n'] + b) == seq![strip_cr(a)] + lines(b),
{
    lemma_index_of(a, '\n', a.len() as int);
    let s = a + seq!['\n'] + b;
    assert forall|j: int| 0 <= j < a.len() implies s[j] != '\n' by {
        assert(s[j] == a[j]);
    }
    lemma_index_of(s, '\n', a.len() as int);
    assert(s.subrange(0, a.len() as int) =~= a);
    assert(s.subrange(a.len() + 1int, s.len() as int) =~= b);
}

/// The positions of the lines of `v[lo..hi]`.
pub fn line_ranges(v: &Vec<char>, lo: usize, hi: usize) -> (r: Vec<(usize, usize)>)
    requires
        lo <= hi <= v@.len(),
    ensures
        slices(v@, r@) == lines(v@.subrange(lo as int, hi as int)),
        ranges_within(r@, v@.len() as int),
{
    let mut r: Vec<(usize, usize)> = Vec::new();
    let mut pos = lo;
    while pos < hi
        invariant
            lo <= pos <= hi <= v@.len(),
            lines(v@.subrange(lo as int, hi as int)) == slices(v@, r@) + lines(
                v@.subrange(pos as int, hi as int),
            ),
            ranges_within(r@, v@.len() as int),
        decreases hi - pos,
    {
        let ghost old_r = r@;
        let ghost s = v@.subrange(pos as int, hi as int);
        proof {
            lemma_index_of_props(s, '\n');
        }
        match find_char(v, pos, hi, '\n') {
            None => {
                r.push((pos, hi));
                assert(slices(v@, r@) =~= slices(v@, old_r) + seq![s]);
                assert(v@.subrange(hi as int, hi as int) =~= Seq::<char>::empty());
                pos = hi;
            },
            Some(i) => {
                let end = if i > pos && v[i - 1] == '\r' {
                    i - 1
                } else {
                    i
                };
                assert(s.subrange(0, i - pos) =~= v@.subrange(pos as int, i as int));
                assert(s.subrange(i - pos + 1, s.len() as int) =~= v@.subrange(i + 1, hi as int));
                assert(v@.subrange(pos as int, end as int) =~= strip_cr(v@.subrange(pos as int, i as int)));
                r.push((pos, end));
                assert(slices(v@, r@) =~= slices(v@, old_r) + seq![v@.subrange(pos as int, end as int)]);
                pos = i + 1;
            },
        }
    }
    assert(v@.subrange(pos as int, hi as int) =~= Seq::<char>::empty());
    assert(slices(v@, r@) + Seq::<Seq<char>>::empty() =~= slices(v@, r@));
    r
}

// ---------------------------------------------------------------------------
// Trimming
// ---------------------------------------------------------------------------

/// ASCII whitespace as `u8::is_ascii_whitespace` and `str::trim_ascii` see it.
pub open spec fn is_ascii_ws(c: char) -> bool {
    c == ' ' || c == '\t' || c == '\n' || c == '\x0C' || c == '\r'
}

/// ASCII whitespace bytes.
pub open spec fn is_ascii_ws_byte(b: u8) -> bool {
    b == 0x20 || b == 0x09 || b == 0x0a || b == 0x0c || b == 0x0d
}

/// `s` without its leading ASCII whitespace.
pub open spec fn trim_start_ascii(s: Seq<char>) -> Seq<char>
    decreases s.len(),
{
    if s.len() > 0 && is_ascii_ws(s[0]) {
        trim_start_ascii(s.drop_first())
    } else {
        s
    }
}

/// `s` without its trailing ASCII whitespace.
pub open spec fn trim_end_ascii(s: Seq<char>) -> Seq<char>
    decreases s.len(),
{
    if s.len() > 0 && is_ascii_ws(s.last()) {
        trim_end_ascii(s.drop_last())
    } else {
        s
    }
}

/// `str::trim_ascii`: no leading or trailing ASCII whitespace.
pub open spec fn trim_ascii(s: Seq<char>) -> Seq<char> {
    trim_end_ascii(trim_start_ascii(s))
}

/// Whether `c` is ASCII whitespace.
pub fn is_ascii_ws_char(c: char) -> (r: bool)
    ensures
        r == is_ascii_ws(c),
{
    c == ' ' || c == '\t' || c == '\n' || c == '\x0C' || c == '\r'
}

/// The bounds of `trim_ascii(v[lo..hi])` in `v`.
pub fn trim_range(v: &Vec<char>, lo: usize, hi: usize) -> (r: (usize, usize))
    requires
        lo <= hi <= v@.len(),
    ensures
        lo <= r.0 <= r.1 <= hi,
        v@.subrange(r.0 as int, r.1 as int) == trim_ascii(v@.subrange(lo as int, hi as int)),
{
    let mut a = lo;
    while a < hi && is_ascii_ws_char(v[a])
        invariant
            lo <= a <= hi <= v@.len(),
            trim_start_ascii(v@.subrange(lo as int, hi as int)) == trim_start_ascii(
                v@.subrange(a as int, hi as int),
            ),
        decreases hi - a,
    {
        assert(v@.subrange(a as int, hi as int).drop_first() =~= v@.subrange(a + 1, hi as int));
        a = a + 1;
    }
    let mut b = hi;
    while b > a && is_ascii_ws_char(v[b - 1])
        invariant
            lo <= a <= b <= hi <= v@.len(),
            trim_start_ascii(v@.subrange(lo as int, hi as int)) == v@.subrange(a as int, hi as int),
            trim_end_ascii(v@.subrange(a as int, hi as int)) == trim_end_ascii(
                v@.subrange(a as int, b as int),
            ),
        decreases b - a,
    {
        assert(v@.subrange(a as int, b as int).drop_last() =~= v@.subrange(a as int, b - 1));
        b = b - 1;
    }
    (a, b)
}

/// `s` without its leading ASCII whitespace bytes.
pub open spec fn trim_start_ascii_bytes(s: Seq<u8>) -> Seq<u8>
    decreases s.len(),
{
    if s.len() > 0 && is_ascii_ws_byte(s[0]) {
        trim_start_ascii_bytes(s.drop_first())
    } else {
        s
    }
}

/// `s` without its trailing ASCII whitespace bytes.
pub open spec fn trim_end_ascii_bytes(s: Seq<u8>) -> Seq<u8>
    decreases s.len(),
{
    if s.len() > 0 && is_ascii_ws_byte(s.last()) {
        trim_end_ascii_bytes(s.drop_last())
    } else {
        s
    }
}

/// `<[u8]>::trim_ascii`: no leading or trailing ASCII whitespace bytes.
pub open spec fn trim_ascii_bytes(s: Seq<u8>) -> Seq<u8> {
    trim_end_ascii_bytes(trim_start_ascii_bytes(s))
}

/// Whether `b` is an ASCII whitespace byte.
pub fn is_ascii_ws_u8(b: u8) -> (r: bool)
    ensures
        r == is_ascii_ws_byte(b),
{
    b == 0x20 || b == 0x09 || b == 0x0a || b == 0x0c || b == 0x0d
}

/// The bounds of `trim_ascii_bytes(v[lo..hi])` in `v`.
pub fn trim_bytes_range(v: &[u8], lo: usize, hi: usize) -> (r: (usize, usize))
    requires
        lo <= hi <= v@.len(),
    ensures
        lo <= r.0 <= r.1 <= hi,
        v@.subrange(r.0 as int, r.1 as int) == trim_ascii_bytes(v@.subrange(lo as int, hi as int)),
{
    let mut a = lo;
    while a < hi && is_ascii_ws_u8(v[a])
        invariant
            lo <= a <= hi <= v@.len(),
            trim_start_ascii_bytes(v@.subrange(lo as int, hi as int)) == trim_start_ascii_bytes(
                v@.subrange(a as int, hi as int),
            ),
        decreases hi - a,
    {
        assert(v@.subrange(a as int, hi as int).drop_first() =~= v@.subrange(a + 1, hi as int));
        a = a + 1;
    }
    let mut b = hi;
    while b > a && is_ascii_ws_u8(v[b - 1])
        invariant
            lo <= a <= b <= hi <= v@.len(),
            trim_start_ascii_bytes(v@.subrange(lo as int, hi as int)) == v@.subrange(a as int, hi as int),
            trim_end_ascii_bytes(v@.subrange(a as int, hi as int)) == trim_end_ascii_bytes(
                v@.subrange(a as int, b as int),
            ),
        decreases b - a,
    {
        assert(v@.subrange(a as int, b as int).drop_last() =~= v@.subrange(a as int, b - 1));
        b = b - 1;
    }
    (a, b)
}

/// Whitespace as `char::is_whitespace` sees it (the Unicode `White_Space` property).
pub open spec fn is_unicode_ws(c: char) -> bool {
    ('\u{9}' <= c && c <= '\u{d}') || c == ' ' || c == '\u{85}' || c == '\u{a0}' || c == '\u{1680}'
        || ('\u{2000}' <= c && c <= '\u{200a}') || c == '\u{2028}' || c == '\u{2029}' || c
        == '\u{202f}' || c == '\u{205f}' || c == '\u{3000}'
}

/// `s` without its leading whitespace.
pub open spec fn trim_start_unicode(s: Seq<char>) -> Seq<char>
    decreases s.len(),
{
    if s.len() > 0 && is_unicode_ws(s[0]) {
        trim_start_unicode(s.drop_first())
    } else {
        s
    }
}

/// `s` without its trailing whitespace.
pub open spec fn trim_end_unicode(s: Seq<char>) -> Seq<char>
    decreases s.len(),
{
    if s.len() > 0 && is_unicode_ws(s.last()) {
        trim_end_unicode(s.drop_last())
    } else {
        s
    }
}

/// `str::trim`: no leading or trailing whitespace.
pub open spec fn trim_unicode(s: Seq<char>) -> Seq<char> {
    trim_end_unicode(trim_start_unicode(s))
}

/// Whether `c` is whitespace (`char::is_whitespace`).
pub fn is_unicode_ws_char(c: char) -> (r: bool)
    ensures
        r == is_unicode_ws(c),
{
    ('\u{9}' <= c && c <= '\u{d}') || c == ' ' || c == '\u{85}' || c == '\u{a0}' || c == '\u{1680}'
        || ('\u{2000}' <= c && c <= '\u{200a}') || c == '\u{2028}' || c == '\u{2029}' || c
        == '\u{202f}' || c == '\u{205f}' || c == '\u{3000}'
}

/// The bounds of `trim_unicode(v[lo..hi])` in `v`.
pub fn trim_unicode_range(v: &Vec<char>, lo: usize, hi: usize) -> (r: (usize, usize))
    requires
        lo <= hi <= v@.len(),
    ensures
        lo <= r.0 <= r.1 <= hi,
        v@.subrange(r.0 as int, r.1 as int) == trim_unicode(v@.subrange(lo as int, hi as int)),
{
    let mut a = lo;
    while a < hi && is_unicode_ws_char(v[a])
        invariant
            lo <= a <= hi <= v@.len(),
            trim_start_unicode(v@.subrange(lo as int, hi as int)) == trim_start_unicode(
                v@.subrange(a as int, hi as int),
            ),
        decreases hi - a,
    {
        assert(v@.subrange(a as int, hi as int).drop_first() =~= v@.subrange(a + 1, hi as int));
        a = a + 1;
    }
    let mut b = hi;
    while b > a && is_unicode_ws_char(v[b - 1])
        invariant
            lo <= a <= b <= hi <= v@.len(),
            trim_start_unicode(v@.subrange(lo as int, hi as int)) == v@.subrange(a as int, hi as int),
            trim_end_unicode(v@.subrange(a as int, hi as int)) == trim_end_unicode(
                v@.subrange(a as int, b as int),
            ),
        decreases b - a,
    {
        assert(v@.subrange(a as int, b as int).drop_last() =~= v@.subrange(a as int, b - 1));
        b = b - 1;
    }
    (a, b)
}

/// What `trim_start_ascii` drops is a run of whitespace, and what it keeps starts with
/// something else.
proof fn lemma_trim_start_shape(s: Seq<char>) -> (a: int)
    ensures
        0 <= a <= s.len(),
        trim_start_ascii(s) == s.subrange(a, s.len() as int),
        forall|i: int| 0 <= i < a ==> is_ascii_ws(#[trigger] s[i]),
        a < s.len() ==> !is_ascii_ws(s[a]),
    decreases s.len(),
{
    if s.len() > 0 && is_ascii_ws(s[0]) {
        let a = lemma_trim_start_shape(s.drop_first());
        assert(s.drop_first().subrange(a, s.len() - 1) =~= s.subrange(a + 1, s.len() as int));
        assert forall|i: int| 0 <= i < a + 1 implies is_ascii_ws(#[trigger] s[i]) by {
            if i > 0 {
                assert(s[i] == s.drop_first()[i - 1]);
            }
        }
        a + 1
    } else {
        assert(s.subrange(0, s.len() as int) =~= s);
        0
    }
}

/// What `trim_end_ascii` drops is a run of whitespace, and what it keeps ends with
/// something else.
proof fn lemma_trim_end_shape(s: Seq<char>) -> (b: int)
    ensures
        0 <= b <= s.len(),
        trim_end_ascii(s) == s.subrange(0, b),
        forall|i: int| b <= i < s.len() ==> is_ascii_ws(#[trigger] s[i]),
        b > 0 ==> !is_ascii_ws(s[b - 1]),
    decreases s.len(),
{
    if s.len() > 0 && is_ascii_ws(s.last()) {
        let b = lemma_trim_end_shape(s.drop_last());
        assert(s.drop_last().subrange(0, b) =~= s.subrange(0, b));
        assert forall|i: int| b <= i < s.len() implies is_ascii_ws(#[trigger] s[i]) by {
            if i < s.len() - 1 {
                assert(s[i] == s.drop_last()[i]);
            }
        }
        b
    } else {
        assert(s.subrange(0, s.len() as int) =~= s);
        s.len() as int
    }
}

/// `trim_ascii` keeps a contiguous part of the text: everything before it and after it is
/// ASCII whitespace, and the part kept, when not empty, neither starts nor ends with ASCII
/// whitespace. Whitespace inside the text is kept.
pub proof fn lemma_trim_ascii_shape(s: Seq<char>)
    ensures
        exists|a: int, b: int|
            #![trigger s.subrange(a, b)]
            0 <= a <= b <= s.len() && trim_ascii(s) == s.subrange(a, b) && (forall|i: int|
                0 <= i < a ==> is_ascii_ws(#[trigger] s[i])) && (forall|i: int|
                b <= i < s.len() ==> is_ascii_ws(#[trigger] s[i])) && (a < b ==> !is_ascii_ws(s[a])
                && !is_ascii_ws(s[b - 1])),
{
    let a = lemma_trim_start_shape(s);
    let t = s.subrange(a, s.len() as int);
    let b = lemma_trim_end_shape(t);
    assert(t.subrange(0, b) =~= s.subrange(a, a + b));
    assert forall|i: int| a + b <= i < s.len() implies is_ascii_ws(#[trigger] s[i]) by {
        assert(s[i] == t[i - a]);
    }
    if 0 < b {
        assert(s[a + b - 1] == t[b - 1]);
    }
    assert(s.subrange(a, a + b) == trim_ascii(s));
}

/// What `trim_start_ascii_bytes` drops is a run of whitespace, and what it keeps starts
/// with something else.
proof fn lemma_trim_start_bytes_shape(s: Seq<u8>) -> (a: int)
    ensures
        0 <= a <= s.len(),
        trim_start_ascii_bytes(s) == s.subrange(a, s.len() as int),
        forall|i: int| 0 <= i < a ==> is_ascii_ws_byte(#[trigger] s[i]),
        a < s.len() ==> !is_ascii_ws_byte(s[a]),
    decreases s.len(),
{
    if s.len() > 0 && is_ascii_ws_byte(s[0]) {
        let a = lemma_trim_start_bytes_shape(s.drop_first());
        assert(s.drop_first().subrange(a, s.len() - 1) =~= s.subrange(a + 1, s.len() as int));
        assert forall|i: int| 0 <= i < a + 1 implies is_ascii_ws_byte(#[trigger] s[i]) by {
            if i > 0 {
                assert(s[i] == s.drop_first()[i - 1]);
            }
        }
        a + 1
    } else {
        assert(s.subrange(0, s.len() as int) =~= s);
        0
    }
}

/// What `trim_end_ascii_bytes` drops is a run of whitespace, and what it keeps ends with
/// something else.
proof fn lemma_trim_end_bytes_shape(s: Seq<u8>) -> (b: int)
    ensures
        0 <= b <= s.len(),
        trim_end_ascii_bytes(s) == s.subrange(0, b),
        forall|i: int| b <= i < s.len() ==> is_ascii_ws_byte(#[trigger] s[i]),
        b > 0 ==> !is_ascii_ws_byte(s[b - 1]),
    decreases s.len(),
{
    if s.len() > 0 && is_ascii_ws_byte(s.last()) {
        let b = lemma_trim_end_bytes_shape(s.drop_last());
        assert(s.drop_last().subrange(0, b) =~= s.subrange(0, b));
        assert forall|i: int| b <= i < s.len() implies is_ascii_ws_byte(#[trigger] s[i]) by {
            if i < s.len() - 1 {
                assert(s[i] == s.drop_last()[i]);
            }
        }
        b
    } else {
        assert(s.subrange(0, s.len() as int) =~= s);
        s.len() as int
    }
}

/// `trim_ascii_bytes` keeps a contiguous part of the bytes: everything before it and after
/// it is ASCII whitespace, and the part kept, when not empty, neither starts nor ends with
/// ASCII whitespace. Whitespace inside is kept.
pub proof fn lemma_trim_ascii_bytes_shape(s: Seq<u8>)
    ensures
        exists|a: int, b: int|
            #![trigger s.subrange(a, b)]
            0 <= a <= b <= s.len() && trim_ascii_bytes(s) == s.subrange(a, b) && (forall|i: int|
                0 <= i < a ==> is_ascii_ws_byte(#[trigger] s[i])) && (forall|i: int|
                b <= i < s.len() ==> is_ascii_ws_byte(#[trigger] s[i])) && (a < b ==> !is_ascii_ws_byte(s[a])
                && !is_ascii_ws_byte(s[b - 1])),
{
    let a = lemma_trim_start_bytes_shape(s);
    let t = s.subrange(a, s.len() as int);
    let b = lemma_trim_end_bytes_shape(t);
    assert(t.subrange(0, b) =~= s.subrange(a, a + b));
    assert forall|i: int| a + b <= i < s.len() implies is_ascii_ws_byte(#[trigger] s[i]) by {
        assert(s[i] == t[i - a]);
    }
    if 0 < b {
        assert(s[a + b - 1] == t[b - 1]);
    }
    assert(s.subrange(a, a + b) == trim_ascii_bytes(s));
}

// ---------------------------------------------------------------------------
// Decimal numbers
// ---------------------------------------------------------------------------

/// A decimal digit.
pub open spec fn is_digit(c: char) -> bool {
    '0' <= c && c <= '9'
}

/// The value of a decimal digit.
pub open spec fn digit_value(c: char) -> nat {
    (c as u32 - '0' as u32) as nat
}

/// The number written by the decimal digits `s` (most significant first).
pub open spec fn digits_value(s: Seq<char>) -> nat
    decreases s.len(),
{
    if s.len() == 0 {
        0
    } else {
        digits_value(s.drop_last()) * 10 + digit_value(s.last())
    }
}

/// Every character of `s` is a decimal digit.
pub open spec fn all_digits(s: Seq<char>) -> bool {
    forall|i: int| 0 <= i < s.len() ==> is_digit(#[trigger] s[i])
}

/// The digits of an unsigned number in `FromStr`: an optional `+`, then at least one digit.
pub open spec fn unsigned_digits(s: Seq<char>) -> Option<Seq<char>> {
    let d = if s.len() > 0 && s[0] == '+' { s.drop_first() } else { s };
    if d.len() > 0 && all_digits(d) {
        Some(d)
    } else {
        None
    }
}

/// `<uN as FromStr>::from_str` for an unsigned type whose largest value is `max`.
pub open spec fn parse_unsigned(s: Seq<char>, max: nat) -> Option<nat> {
    match unsigned_digits(s) {
        Some(d) => if digits_value(d) <= max {
            Some(digits_value(d))
        } else {
            None
        },
        None => None,
    }
}

proof fn lemma_digits_value_monotone(s: Seq<char>, i: int)
    requires
        0 <= i <= s.len(),
        all_digits(s),
    ensures
        digits_value(s.subrange(0, i)) <= digits_value(s),
    decreases s.len() - i,
{
    if i < s.len() {
        lemma_digits_value_monotone(s, i + 1);
        assert(s.subrange(0, i + 1).drop_last() =~= s.subrange(0, i));
    } else {
        assert(s.subrange(0, i) =~= s);
    }
}

/// `str::parse` for an unsigned type whose largest value is `max`: `Some` exactly when the
/// text is an optional `+` followed by decimal digits whose value is at most `max`.
pub fn parse_unsigned_max(s: &str, max: u64) -> (r: Option<u64>)
    ensures
        match parse_unsigned(s@, max as nat) {
            Some(n) => r == Some(n as u64),
            None => r is None,
        },
{
    let v = chars_of(s);
    let mut start: usize = 0;
    if v.len() > 0 && v[0] == '+' {
        start = 1;
    }
    let ghost d = v@.subrange(start as int, v@.len() as int);
    assert(d =~= (if v@.len() > 0 && v@[0] == '+' { v@.drop_first() } else { v@ }));
    if start == v.len() {
        return None;
    }
    let mut acc: u64 = 0;
    let mut i = start;
    while i < v.len()
        invariant
            start <= i <= v@.len(),
            start < v@.len(),
            v@ == s@,
            d == v@.subrange(start as int, v@.len() as int),
            d == (if v@.len() > 0 && v@[0] == '+' { v@.drop_first() } else { v@ }),
            all_digits(v@.subrange(start as int, i as int)),
            acc as nat == digits_value(v@.subrange(start as int, i as int)),
            acc <= max,
        decreases v@.len() - i,
    {
        let c = v[i];
        if !('0' <= c && c <= '9') {
            assert(!is_digit(d[i - start]));
            return None;
        }
        let dv: u64 = (c as u32 - '0' as u32) as u64;
        let ghost pre = v@.subrange(start as int, i + 1);
        assert(pre.drop_last() =~= v@.subrange(start as int, i as int));
        assert(all_digits(pre)) by {
            assert forall|j: int| 0 <= j < i + 1 - start implies is_digit(#[trigger] pre[j]) by {
                if j < i - start {
                    assert(pre[j] == v@.subrange(start as int, i as int)[j]);
                }
            }
        }
        assert(digits_value(pre) == acc * 10 + dv);
        let next: u128 = acc as u128 * 10 + dv as u128;
        if next > max as u128 {
            proof {
                if all_digits(d) {
                    lemma_digits_value_monotone(d, i + 1 - start);
                    assert(d.subrange(0, i + 1 - start) =~= pre);
                }
            }
            return None;
        }
        acc = next as u64;
        i = i + 1;
    }
    assert(v@.subrange(start as int, i as int) =~= d);
    Some(acc)
}

/// `str::parse::<u64>()`.
pub fn parse_u64(s: &str) -> (r: Option<u64>)
    ensures
        match parse_unsigned(s@, u64::MAX as nat) {
            Some(n) => r == Some(n as u64),
            None => r is None,
        },
{
    parse_unsigned_max(s, u64::MAX)
}

/// `str::parse::<u16>()`.
pub fn parse_u16(s: &str) -> (r: Option<u16>)
    ensures
        match parse_unsigned(s@, u16::MAX as nat) {
            Some(n) => r == Some(n as u16),
            None => r is None,
        },
{
    match parse_unsigned_max(s, 0xffff) {
        Some(n) => Some(n as u16),
        None => None,
    }
}

/// The digit character for `d < 10`.
pub open spec fn digit_char(d: nat) -> char {
    (d + 0x30) as char
}

/// The decimal digits of `n`, most significant first, without leading zeros.
pub open spec fn decimal(n: nat) -> Seq<char>
    decreases n,
{
    if n < 10 {
        seq![digit_char(n)]
    } else {
        decimal(n / 10).push(digit_char(n % 10))
    }
}

/// Appends the decimal digits of `n`.
pub fn push_decimal(s: &mut String, n: usize)
    ensures
        final(s)@ == old(s)@ + decimal(n as nat),
    decreases n,
{
    if n >= 10 {
        push_decimal(s, n / 10);
    }
    let d: u8 = (n % 10) as u8;
    let c = (0x30u8 + d) as char;
    assert(c == digit_char((n % 10) as nat));
    push_char(s, c);
    assert(s@ =~= old(s)@ + decimal(n as nat));
}

/// The decimal text of `n` (`usize::to_string`).
pub fn decimal_string(n: usize) -> (r: String)
    ensures
        r@ == decimal(n as nat),
{
    let mut s = String::new();
    push_decimal(&mut s, n);
    assert(s@ =~= decimal(n as nat));
    s
}

/// Decimal text is all digits and reads back as the number it was written from.
pub proof fn lemma_decimal_digits(n: nat)
    ensures
        decimal(n).len() > 0,
        all_digits(decimal(n)),
        digits_value(decimal(n)) == n,
    decreases n,
{
    if n >= 10 {
        lemma_decimal_digits(n / 10);
        let s = decimal(n);
        assert(s.drop_last() =~= decimal(n / 10));
        assert(s.last() == digit_char(n % 10));
        assert(digit_value(digit_char(n % 10)) == n % 10);
        assert(digits_value(s) == digits_value(decimal(n / 10)) * 10 + n % 10);
        assert((n / 10) * 10 + n % 10 == n);
        assert forall|i: int| 0 <= i < s.len() implies is_digit(#[trigger] s[i]) by {
            if i < s.len() - 1 {
                assert(s[i] == decimal(n / 10)[i]);
            }
        }
    } else {
        assert(digit_value(digit_char(n)) == n);
        assert(decimal(n).drop_last() =~= Seq::<char>::empty());
        assert(digits_value(Seq::<char>::empty()) == 0);
        assert(decimal(n).last() == digit_char(n));
        assert(digits_value(decimal(n)) == digits_value(decimal(n).drop_last()) * 10 + digit_value(decimal(n).last()));
    }
}

/// Reading the decimal text of `n` as an unsigned number gives `n` back, when it fits.
pub proof fn lemma_parse_decimal(n: nat, max: nat)
    requires
        n <= max,
    ensures
        parse_unsigned(decimal(n), max) == Some(n),
{
    lemma_decimal_digits(n);
    assert(decimal(n)[0] != '+');
}

} // verus!
