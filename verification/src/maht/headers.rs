//! Header blocks read from raw bytes, names compared without regard to ASCII case.
use super::byte_string::{ByteStr, ByteString, ToByteStr};
use super::error::{Error, ErrorView};
use super::util::{ByteSliceExt, ByteSliceFindPatternAllNaiveIterator};
use crate::http::cibstr::{find_pattern_from, lemma_find_pattern_bounds, slice_range, split_step};
use crate::text::{bytes_eq_ignore_case, ci_bytes_eq, index_of, lemma_index_of_props, trim_ascii_bytes, trim_bytes_range};
use vstd::prelude::*;
use vstd::slice::slice_to_vec;

verus! {

/// The entries of a header map: each name with its values, in order.
pub type HeadersView = Seq<(Seq<u8>, Seq<Seq<u8>>)>;

/// The first entry at or after `k` whose name equals `key` without regard to ASCII case.
pub open spec fn find_key(h: HeadersView, key: Seq<u8>, k: int) -> Option<int>
    decreases h.len() - k,
    when k >= 0
{
    if k >= h.len() {
        None
    } else if ci_bytes_eq(h[k].0, key) {
        Some(k)
    } else {
        find_key(h, key, k + 1)
    }
}

/// Where `find_key` finds an entry, it is at or after `k` and within `h`.
pub proof fn lemma_find_key_bounds(h: HeadersView, key: Seq<u8>, k: int)
    requires
        k >= 0,
    ensures
        find_key(h, key, k) matches Some(i) ==> k <= i < h.len() && ci_bytes_eq(h[i].0, key),
    decreases h.len() - k,
{
    if k < h.len() && !ci_bytes_eq(h[k].0, key) {
        lemma_find_key_bounds(h, key, k + 1);
    }
}

/// `value` added after the values of the first entry named `key`, or under a new entry.
pub open spec fn header_insert(h: HeadersView, key: Seq<u8>, value: Seq<u8>) -> HeadersView {
    match find_key(h, key, 0) {
        Some(i) => h.update(i, (h[i].0, h[i].1.push(value))),
        None => h.push((key, seq![value])),
    }
}

/// Every name has at least one value.
pub open spec fn values_nonempty(h: HeadersView) -> bool {
    forall|i: int| 0 <= i < h.len() ==> (#[trigger] h[i]).1.len() > 0
}

/// Adding a value keeps every name with a value.
proof fn lemma_insert_nonempty(h: HeadersView, key: Seq<u8>, value: Seq<u8>)
    requires
        values_nonempty(h),
    ensures
        values_nonempty(header_insert(h, key, value)),
{
    lemma_find_key_bounds(h, key, 0);
}

/// The pieces of `s` between the occurrences of `pat`, as the splitting iterator gives them.
pub open spec fn split_all(s: Seq<u8>, pat: Seq<u8>) -> Seq<Seq<u8>>
    decreases s.len(),
{
    match split_step(s, pat, true) {
        None => seq![],
        Some((piece, rest)) => if rest.len() < s.len() {
            seq![piece] + split_all(rest, pat)
        } else {
            seq![piece]
        },
    }
}

/// How reading a header block ends.
pub enum HeaderOutcome {
    Parsed(HeadersView),
    Failed(ErrorView),
    /// A line whose name is empty, which the reader cannot inspect.
    Undefined,
}

/// One line added to `h`: the name before the first `:`, the value after it trimmed of ASCII
/// whitespace; a name with a space at either end is refused, or trimmed when allowed.
pub open spec fn parse_line(h: HeadersView, line: Seq<u8>, allow_untrimmed: bool) -> HeaderOutcome {
    match index_of(line, 0x3au8) {
        None => HeaderOutcome::Failed(ErrorView::MalformedHeaderLine(line)),
        Some(i) => {
            let key = line.subrange(0, i);
            let value = trim_ascii_bytes(line.subrange(i + 1, line.len() as int));
            if key.len() == 0 {
                HeaderOutcome::Undefined
            } else if key[0] == 0x20 || key.last() == 0x20 {
                if allow_untrimmed {
                    HeaderOutcome::Parsed(header_insert(h, trim_ascii_bytes(key), value))
                } else {
                    HeaderOutcome::Failed(ErrorView::UntrimmedHeaderKey)
                }
            } else {
                HeaderOutcome::Parsed(header_insert(h, key, value))
            }
        },
    }
}

/// The lines added one after the other; the first failure decides.
#[verifier::opaque]
pub open spec fn parse_lines(h: HeadersView, ls: Seq<Seq<u8>>, allow_untrimmed: bool) -> HeaderOutcome
    decreases ls.len(),
{
    if ls.len() == 0 {
        HeaderOutcome::Parsed(h)
    } else {
        match parse_line(h, ls[0], allow_untrimmed) {
            HeaderOutcome::Parsed(h2) => parse_lines(h2, ls.drop_first(), allow_untrimmed),
            other => other,
        }
    }
}

/// `find_key` depends only on the names of the entries.
proof fn lemma_find_key_names(h1: HeadersView, h2: HeadersView, key: Seq<u8>, k: int)
    requires
        k >= 0,
        h1.len() == h2.len(),
        forall|i: int| 0 <= i < h1.len() ==> #[trigger] h1[i].0 == h2[i].0,
    ensures
        find_key(h1, key, k) == find_key(h2, key, k),
    decreases h1.len() - k,
{
    if k < h1.len() {
        lemma_find_key_names(h1, h2, key, k + 1);
    }
}

/// An entry appended after no match is where `find_key` finds a matching name.
proof fn lemma_find_key_push(h: HeadersView, e: (Seq<u8>, Seq<Seq<u8>>), key: Seq<u8>, k: int)
    requires
        0 <= k <= h.len(),
        find_key(h, key, k) is None,
        ci_bytes_eq(e.0, key),
    ensures
        find_key(h.push(e), key, k) == Some(h.len() as int),
    decreases h.len() - k,
{
    if k < h.len() {
        assert(h.push(e)[k] == h[k]);
        lemma_find_key_push(h, e, key, k + 1);
    }
}

/// A read after a write: after adding `value` under `key`, the first entry named `key`
/// holds the values it held before with `value` after them, or `value` alone when there
/// was none.
pub proof fn lemma_get_after_insert(h: HeadersView, key: Seq<u8>, value: Seq<u8>)
    ensures
        ({
            let h2 = header_insert(h, key, value);
            find_key(h2, key, 0) matches Some(i) && h2[i].1 == match find_key(h, key, 0) {
                Some(j) => h[j].1.push(value),
                None => seq![value],
            }
        }),
{
    lemma_find_key_bounds(h, key, 0);
    match find_key(h, key, 0) {
        Some(j) => {
            let h2 = h.update(j, (h[j].0, h[j].1.push(value)));
            lemma_find_key_names(h2, h, key, 0);
        },
        None => {
            lemma_find_key_push(h, (key, seq![value]), key, 0);
        },
    }
}

/// A header line keeps its whole value. For a line made of a name that is not empty, holds
/// no `:` and neither starts nor ends with a space, a `:` and any bytes, reading the line
/// adds exactly the bytes after the `:`, trimmed of their surrounding ASCII whitespace
/// (inner spaces, parentheses and further `:`s kept), as the last value under the name.
pub proof fn lemma_header_line_value(h: HeadersView, key: Seq<u8>, value: Seq<u8>, allow_untrimmed: bool)
    requires
        key.len() > 0,
        forall|i: int| 0 <= i < key.len() ==> #[trigger] key[i] != 0x3au8,
        key[0] != 0x20u8,
        key.last() != 0x20u8,
    ensures
        parse_line(h, key + seq![0x3au8] + value, allow_untrimmed) == HeaderOutcome::Parsed(
            header_insert(h, key, trim_ascii_bytes(value)),
        ),
        ({
            let h2 = header_insert(h, key, trim_ascii_bytes(value));
            find_key(h2, key, 0) matches Some(i) && h2[i].1.last() == trim_ascii_bytes(value)
        }),
{
    let line = key + seq![0x3au8] + value;
    assert forall|j: int| 0 <= j < key.len() implies line[j] != 0x3au8 by {
        assert(line[j] == key[j]);
    }
    crate::text::lemma_index_of(line, 0x3au8, key.len() as int);
    assert(line.subrange(0, key.len() as int) =~= key);
    assert(line.subrange(key.len() + 1int, line.len() as int) =~= value);
    lemma_get_after_insert(h, key, trim_ascii_bytes(value));
}

/// In a line without CR, followed by CR LF and anything, the first CR LF is the one after
/// the line.
proof fn lemma_crlf_after(line: Seq<u8>, rest: Seq<u8>, q: int)
    requires
        0 <= q <= line.len(),
        forall|i: int| 0 <= i < line.len() ==> #[trigger] line[i] != 0x0du8,
    ensures
        find_pattern_from(line + crlf() + rest, crlf(), true, q) == Some(line.len() as int),
    decreases line.len() - q,
{
    let s = line + crlf() + rest;
    if q < line.len() {
        assert(s.subrange(q, q + 2)[0] == line[q]);
        assert(s.subrange(q, q + 2) != crlf());
        lemma_crlf_after(line, rest, q + 1);
    } else {
        assert(s.subrange(q, q + 2) =~= crlf());
    }
}

/// A line without CR holds no CR LF.
proof fn lemma_no_crlf(line: Seq<u8>, q: int)
    requires
        0 <= q,
        forall|i: int| 0 <= i < line.len() ==> #[trigger] line[i] != 0x0du8,
    ensures
        find_pattern_from(line, crlf(), true, q) is None,
    decreases line.len() + 1 - q,
{
    if q + 2 <= line.len() {
        assert(line.subrange(q, q + 2)[0] == line[q]);
        lemma_no_crlf(line, q + 1);
    }
}

/// How a header block is cut into lines: a block without CR is one line (none when empty),
/// and a line followed by CR LF comes first, followed by the lines of the rest; a final
/// CR LF leaves no empty line after it.
pub proof fn lemma_split_lines(line: Seq<u8>, rest: Seq<u8>)
    requires
        forall|i: int| 0 <= i < line.len() ==> #[trigger] line[i] != 0x0du8,
    ensures
        split_all(Seq::empty(), crlf()) == Seq::<Seq<u8>>::empty(),
        line.len() > 0 ==> split_all(line, crlf()) == seq![line],
        split_all(line + crlf() + rest, crlf()) == seq![line] + split_all(rest, crlf()),
{
    lemma_crlf_after(line, rest, 0);
    lemma_no_crlf(line, 0);
    let s = line + crlf() + rest;
    assert(s.subrange(0, line.len() as int) =~= line);
    assert(s.subrange(line.len() + 2int, s.len() as int) =~= rest);
    if line.len() > 0 {
        assert(line.subrange(0, line.len() as int) =~= line);
        assert(split_all(Seq::<u8>::empty(), crlf()) =~= Seq::<Seq<u8>>::empty());
    }
    assert(s.len() > 0);
    if rest.len() == 0 {
        assert(split_step(s, crlf(), true) == Some((line, Seq::<u8>::empty())));
        assert(split_all(rest, crlf()) =~= Seq::<Seq<u8>>::empty());
        assert(split_all(s, crlf()) == seq![line] + split_all(Seq::<u8>::empty(), crlf()));
        assert(seq![line] + split_all(rest, crlf()) =~= seq![line]);
    } else {
        assert(split_step(s, crlf(), true) == Some((line, rest)));
    }
}

/// Reading lines one after the other: no lines leave the map as it is, and one more line is
/// read into what the lines before it gave, unless they failed or stopped.
pub proof fn lemma_parse_lines_push(h: HeadersView, ls: Seq<Seq<u8>>, l: Seq<u8>, allow_untrimmed: bool)
    ensures
        parse_lines(h, Seq::empty(), allow_untrimmed) == HeaderOutcome::Parsed(h),
        parse_lines(h, ls.push(l), allow_untrimmed) == match parse_lines(h, ls, allow_untrimmed) {
            HeaderOutcome::Parsed(h2) => parse_line(h2, l, allow_untrimmed),
            other => other,
        },
    decreases ls.len(),
{
    lemma_parse_lines_unfold(h, Seq::empty(), allow_untrimmed);
    lemma_parse_lines_unfold(h, ls.push(l), allow_untrimmed);
    lemma_parse_lines_unfold(h, ls, allow_untrimmed);
    if ls.len() == 0 {
        assert(ls.push(l).drop_first() =~= Seq::<Seq<u8>>::empty());
        match parse_line(h, l, allow_untrimmed) {
            HeaderOutcome::Parsed(h2) => lemma_parse_lines_unfold(h2, Seq::empty(), allow_untrimmed),
            _ => {},
        }
    } else {
        assert(ls.push(l)[0] == ls[0]);
        assert(ls.push(l).drop_first() =~= ls.drop_first().push(l));
        match parse_line(h, ls[0], allow_untrimmed) {
            HeaderOutcome::Parsed(h2) => lemma_parse_lines_push(h2, ls.drop_first(), l, allow_untrimmed),
            _ => {},
        }
    }
}

/// A header block of one line, ended by CR LF, is read as a map with that one name and the
/// whole value after its `:`, trimmed of surrounding ASCII whitespace.
pub proof fn lemma_header_block_single(key: Seq<u8>, value: Seq<u8>, allow_untrimmed: bool)
    requires
        key.len() > 0,
        forall|i: int| 0 <= i < key.len() ==> #[trigger] key[i] != 0x3au8 && key[i] != 0x0du8,
        forall|i: int| 0 <= i < value.len() ==> #[trigger] value[i] != 0x0du8,
        key[0] != 0x20u8,
        key.last() != 0x20u8,
    ensures
        parse_block(key + seq![0x3au8] + value + crlf(), allow_untrimmed) == HeaderOutcome::Parsed(
            seq![(key, seq![trim_ascii_bytes(value)])],
        ),
{
    let line = key + seq![0x3au8] + value;
    assert forall|i: int| 0 <= i < line.len() implies #[trigger] line[i] != 0x0du8 by {
        if i < key.len() {
            assert(line[i] == key[i]);
        } else if i > key.len() {
            assert(line[i] == value[i - key.len() - 1]);
        }
    }
    lemma_crlf_after(line, Seq::empty(), 0);
    assert(line + crlf() + Seq::<u8>::empty() =~= line + crlf());
    let s = line + crlf();
    let (piece, rest) = split_step(s, crlf(), true)->0;
    assert(piece =~= line);
    assert(rest.len() == 0);
    assert(split_all(rest, crlf()) =~= Seq::<Seq<u8>>::empty());
    assert(split_all(s, crlf()) =~= seq![line]);
    let e = Seq::<(Seq<u8>, Seq<Seq<u8>>)>::empty();
    lemma_header_line_value(e, key, value, allow_untrimmed);
    lemma_parse_lines_unfold(e, seq![line], allow_untrimmed);
    let h2 = header_insert(e, key, trim_ascii_bytes(value));
    assert(seq![line].drop_first() =~= Seq::<Seq<u8>>::empty());
    lemma_parse_lines_unfold(h2, Seq::<Seq<u8>>::empty(), allow_untrimmed);
    assert(h2 =~= seq![(key, seq![trim_ascii_bytes(value)])]);
}

/// A line that is read keeps every name with a value.
proof fn lemma_parse_line_nonempty(h: HeadersView, line: Seq<u8>, allow_untrimmed: bool)
    requires
        values_nonempty(h),
    ensures
        parse_line(h, line, allow_untrimmed) matches HeaderOutcome::Parsed(h2) ==> values_nonempty(h2),
{
    match index_of(line, 0x3au8) {
        None => {},
        Some(i) => {
            let key = line.subrange(0, i);
            let value = trim_ascii_bytes(line.subrange(i + 1, line.len() as int));
            lemma_insert_nonempty(h, trim_ascii_bytes(key), value);
            lemma_insert_nonempty(h, key, value);
        },
    }
}

proof fn lemma_parse_lines_unfold(h: HeadersView, ls: Seq<Seq<u8>>, allow_untrimmed: bool)
    ensures
        ls.len() == 0 ==> parse_lines(h, ls, allow_untrimmed) == HeaderOutcome::Parsed(h),
        ls.len() > 0 ==> parse_lines(h, ls, allow_untrimmed) == match parse_line(h, ls[0], allow_untrimmed) {
            HeaderOutcome::Parsed(h2) => parse_lines(h2, ls.drop_first(), allow_untrimmed),
            other => other,
        },
{
    reveal(parse_lines);
}

/// CR LF.
pub open spec fn crlf() -> Seq<u8> {
    seq![0x0du8, 0x0au8]
}

/// What `Headers::parse` gives for a header block.
pub open spec fn parse_block(buf: Seq<u8>, allow_untrimmed: bool) -> HeaderOutcome {
    parse_lines(Seq::empty(), split_all(buf, crlf()), allow_untrimmed)
}

/// How the header block of a request is read.
#[derive(Clone)]
pub struct HeaderPolicy {
    allow_untrimmed_key: bool,
}

impl HeaderPolicy {
    /// Whether a header name with a space around it is accepted (and trimmed).
    pub closed spec fn allows_untrimmed_key(&self) -> bool {
        self.allow_untrimmed_key
    }
}

impl Default for HeaderPolicy {
    /// The strict policy: untrimmed header names are refused.
    fn default() -> (r: Self)
        ensures
            !r.allows_untrimmed_key(),
    {
        HeaderPolicy { allow_untrimmed_key: false }
    }
}

/// A header map.
pub struct Headers(Vec<(ByteString<false>, Vec<ByteString<true>>)>);

/// The mathematical content of the entries of a header map.
pub open spec fn entries_view(e: Seq<(ByteString<false>, Vec<ByteString<true>>)>) -> HeadersView {
    e.map_values(|x: (ByteString<false>, Vec<ByteString<true>>)| (x.0@, x.1@.map_values(|s: ByteString<true>| s@)))
}

impl View for Headers {
    type V = HeadersView;

    closed spec fn view(&self) -> HeadersView {
        entries_view(self.0@)
    }
}

impl Default for Headers {
    /// The empty map.
    fn default() -> (r: Self)
        ensures
            r@ == Seq::<(Seq<u8>, Seq<Seq<u8>>)>::empty(),
    {
        let r = Headers(Vec::new());
        assert(r@ =~= Seq::<(Seq<u8>, Seq<Seq<u8>>)>::empty());
        r
    }
}

/// The first entry named `key`.
fn find_entry(entries: &Vec<(ByteString<false>, Vec<ByteString<true>>)>, key: &[u8]) -> (r: Option<usize>)
    ensures
        match find_key(entries_view(entries@), key@, 0) {
            Some(i) => r matches Some(x) && x == i,
            None => r is None,
        },
        r matches Some(x) ==> x < entries@.len(),
{
    let ghost h = entries_view(entries@);
    proof {
        lemma_find_key_bounds(h, key@, 0);
    }
    let mut i: usize = 0;
    while i < entries.len()
        invariant
            i <= entries@.len(),
            h == entries_view(entries@),
            find_key(h, key@, 0) == find_key(h, key@, i as int),
        decreases entries@.len() - i,
    {
        if bytes_eq_ignore_case(entries[i].0.as_byte_str().bytes_of(), key) {
            return Some(i);
        }
        i = i + 1;
    }
    None
}

/// Adds `value` under `key`.
fn insert_entry(entries: &mut Vec<(ByteString<false>, Vec<ByteString<true>>)>, key: &[u8], value: &[u8])
    ensures
        entries_view(final(entries)@) == header_insert(entries_view(old(entries)@), key@, value@),
{
    let ghost h = entries_view(entries@);
    let v = value.to_byte_str::<true>().to_owned();
    match find_entry(entries, key) {
        Some(i) => {
            let (k, mut vals) = entries.remove(i);
            let ghost old_vals = vals@;
            vals.push(v);
            assert(vals@.map_values(|s: ByteString<true>| s@) =~= old_vals.map_values(|s: ByteString<true>| s@).push(value@));
            entries.insert(i, (k, vals));
            assert(entries_view(entries@) =~= header_insert(h, key@, value@));
        },
        None => {
            let mut vals: Vec<ByteString<true>> = Vec::new();
            vals.push(v);
            assert(vals@.map_values(|s: ByteString<true>| s@) =~= seq![value@]);
            entries.push((key.to_byte_str::<false>().to_owned(), vals));
            assert(entries_view(entries@) =~= header_insert(h, key@, value@));
        },
    }
}

/// Adds one line.
fn add_line(entries: &mut Vec<(ByteString<false>, Vec<ByteString<true>>)>, line: &[u8], allow: bool) -> (r: Result<(), Error>)
    requires
        !(parse_line(entries_view(old(entries)@), line@, allow) is Undefined),
    ensures
        match parse_line(entries_view(old(entries)@), line@, allow) {
            HeaderOutcome::Parsed(h) => r is Ok && entries_view(final(entries)@) == h,
            HeaderOutcome::Failed(e) => r matches Err(x) && x@ == e,
            HeaderOutcome::Undefined => false,
        },
{
    proof {
        lemma_index_of_props(line@, 0x3au8);
    }
    let mut i: usize = 0;
    while i < line.len() && line[i] != 0x3a
        invariant
            i <= line@.len(),
            forall|j: int| 0 <= j < i ==> line@[j] != 0x3au8,
        decreases line@.len() - i,
    {
        i = i + 1;
    }
    if i == line.len() {
        proof {
            crate::text::lemma_index_of(line@, 0x3au8, i as int);
        }
        return Err(Error::MalformedHeaderLine(slice_to_vec(line)));
    }
    proof {
        crate::text::lemma_index_of(line@, 0x3au8, i as int);
    }
    let (va, vb) = trim_bytes_range(line, i + 1, line.len());
    let value = slice_range(line, va, vb);
    let key = slice_range(line, 0, i);
    if key[0] == 0x20 || key[i - 1] == 0x20 {
        if !allow {
            return Err(Error::UntrimmedHeaderKey);
        }
        let (ka, kb) = trim_bytes_range(line, 0, i);
        insert_entry(entries, slice_range(line, ka, kb), value);
    } else {
        insert_entry(entries, key, value);
    }
    Ok(())
}

impl Headers {
    #[verifier::type_invariant]
    spec fn inv(self) -> bool {
        values_nonempty(self@)
    }

    /// Reads a header block: the lines between CR LFs (no empty line after a final CR LF),
    /// each a name before the first `:` and a value after it, trimmed of ASCII whitespace.
    /// A line without `:` is an error, and so is a name with a space at either end unless the
    /// policy allows it (the name is then trimmed). Values under names that are equal without
    /// regard to ASCII case are kept together, in order. Blocks with a line whose name is
    /// empty are excluded.
    pub fn parse(buf: &[u8], policy: &HeaderPolicy) -> (r: Result<Self, Error>)
        requires
            !(parse_block(buf@, policy.allows_untrimmed_key()) is Undefined),
        ensures
            match parse_block(buf@, policy.allows_untrimmed_key()) {
                HeaderOutcome::Parsed(h) => r matches Ok(x) && x@ == h,
                HeaderOutcome::Failed(e) => r matches Err(x) && x@ == e,
                HeaderOutcome::Undefined => false,
            },
    {
        let allow = policy.allow_untrimmed_key;
        let pat: [u8; 2] = [0x0d, 0x0a];
        let p = pat.as_slice();
        assert(p@ =~= crlf());
        let mut it = buf.find_pattern_all_naive(p);
        let mut entries: Vec<(ByteString<false>, Vec<ByteString<true>>)> = Vec::new();
        assert(entries_view(entries@) =~= Seq::<(Seq<u8>, Seq<Seq<u8>>)>::empty());
        loop
            invariant
                it.pattern() == crlf(),
                allow == policy.allows_untrimmed_key(),
                parse_block(buf@, allow) == parse_lines(entries_view(entries@), split_all(it.rest(), crlf()), allow),
                !(parse_block(buf@, allow) is Undefined),
                values_nonempty(entries_view(entries@)),
            decreases it.rest().len(),
        {
            let ghost before = it.rest();
            let ghost h = entries_view(entries@);
            match it.next() {
                None => {
                    proof {
                        lemma_parse_lines_unfold(h, split_all(before, crlf()), allow);
                    }
                    let r = Headers(entries);
                    assert(r@ == entries_view(entries@));
                    return Ok(r);
                },
                Some(line) => {
                    proof {
                        let rest = it.rest();
                        lemma_find_pattern_bounds(before, crlf(), true, 0);
                        assert(rest.len() < before.len());
                        assert(split_all(before, crlf()) == seq![line@] + split_all(rest, crlf()));
                        lemma_parse_lines_unfold(h, split_all(before, crlf()), allow);
                        assert((seq![line@] + split_all(rest, crlf())).drop_first() =~= split_all(rest, crlf()));
                    }
                    proof {
                        lemma_parse_line_nonempty(h, line@, allow);
                    }
                    match add_line(&mut entries, line, allow) {
                        Ok(()) => {},
                        Err(e) => {
                            return Err(e);
                        },
                    }
                },
            }
        }
    }

    /// The values under `key`, compared without regard to ASCII case.
    pub fn get(&self, key: ByteStr<'_, false>) -> (r: Option<Vec<ByteStr<'_, true>>>)
        ensures
            values_nonempty(self@),
            match find_key(self@, key@, 0) {
                Some(i) => r matches Some(v) && v@.map_values(|s: ByteStr<'_, true>| s@) == self@[i].1,
                None => r is None,
            },
    {
        proof {
            use_type_invariant(self);
        }
        match find_entry(&self.0, key.bytes_of()) {
            Some(i) => {
                let vals = &self.0[i].1;
                let mut out: Vec<ByteStr<'_, true>> = Vec::new();
                let mut j: usize = 0;
                while j < vals.len()
                    invariant
                        j <= vals@.len(),
                        out@.map_values(|s: ByteStr<'_, true>| s@) == vals@.take(j as int).map_values(|s: ByteString<true>| s@),
                    decreases vals@.len() - j,
                {
                    let ghost before = out@;
                    out.push(vals[j].as_byte_str());
                    assert(out@.map_values(|s: ByteStr<'_, true>| s@) =~= before.map_values(|s: ByteStr<'_, true>| s@).push(vals@[j as int]@));
                    assert(vals@.take(j + 1) =~= vals@.take(j as int).push(vals@[j as int]));
                    assert(vals@.take(j + 1).map_values(|s: ByteString<true>| s@) =~= vals@.take(j as int).map_values(|s: ByteString<true>| s@).push(vals@[j as int]@));
                    j = j + 1;
                }
                assert(vals@.take(j as int) =~= vals@);
                Some(out)
            },
            None => None,
        }
    }
}

} // verus!
