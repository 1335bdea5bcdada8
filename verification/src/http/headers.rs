//! Header fields: names compared without regard to ASCII case, each with its values in the
//! order they were added.
use super::cistr::{lemma_ci_eq_equivalence, AsCaseInsensitive, CaseInsensitiveStr, CaseInsensitiveString};
use super::error::{Error, ErrorView};
use crate::text::{
    chars_of, ci_eq, find_char, index_of, lemma_index_of_props, line_ranges, lines, slices,
    str_eq_ignore_case, string_from_chars, trim_ascii, trim_range,
};
use vstd::prelude::*;

verus! {

/// The entries of a header map: each name with its values.
pub type HeadersView = Seq<(Seq<char>, Seq<Seq<char>>)>;

/// No two names are equal without regard to ASCII case, and every name has a value.
pub open spec fn headers_wf(h: HeadersView) -> bool {
    &&& forall|i: int, j: int|
        #![trigger h[i], h[j]]
        0 <= i < j < h.len() ==> !ci_eq(h[i].0, h[j].0)
    &&& forall|i: int| 0 <= i < h.len() ==> (#[trigger] h[i]).1.len() > 0
}

/// Some entry's name equals `key` without regard to ASCII case.
pub open spec fn has_key(h: HeadersView, key: Seq<char>) -> bool {
    exists|i: int| 0 <= i < h.len() && ci_eq(#[trigger] h[i].0, key)
}

/// The entry whose name equals `key` without regard to ASCII case.
pub open spec fn key_index(h: HeadersView, key: Seq<char>) -> int {
    choose|i: int| 0 <= i < h.len() && ci_eq(#[trigger] h[i].0, key)
}

/// The values under `key`, if there are any.
pub open spec fn header_values(h: HeadersView, key: Seq<char>) -> Option<Seq<Seq<char>>> {
    if has_key(h, key) {
        Some(h[key_index(h, key)].1)
    } else {
        None
    }
}

/// `value` added after the values under `key`; a new entry, named `key`, at the end when
/// there are none.
pub open spec fn header_insert(h: HeadersView, key: Seq<char>, value: Seq<char>) -> HeadersView {
    if has_key(h, key) {
        let i = key_index(h, key);
        h.update(i, (h[i].0, h[i].1.push(value)))
    } else {
        h.push((key, seq![value]))
    }
}

/// In a well-formed map, the entry whose name matches `key` is the one `key_index` picks.
pub proof fn lemma_key_index_unique(h: HeadersView, key: Seq<char>, i: int)
    requires
        headers_wf(h),
        0 <= i < h.len(),
        ci_eq(h[i].0, key),
    ensures
        has_key(h, key),
        key_index(h, key) == i,
{
    let j = key_index(h, key);
    lemma_ci_eq_equivalence(h[j].0, key, h[i].0);
    lemma_ci_eq_equivalence(key, h[i].0, key);
    lemma_ci_eq_equivalence(h[i].0, key, h[j].0);
    lemma_ci_eq_equivalence(key, h[j].0, key);
    if i < j {
        assert(!ci_eq(h[i].0, h[j].0));
    } else if j < i {
        assert(!ci_eq(h[j].0, h[i].0));
    }
}

/// Adding a value keeps a map well formed.
pub proof fn lemma_insert_wf(h: HeadersView, key: Seq<char>, value: Seq<char>)
    requires
        headers_wf(h),
    ensures
        headers_wf(header_insert(h, key, value)),
{
    let r = header_insert(h, key, value);
    if !has_key(h, key) {
        assert forall|i: int, j: int| 0 <= i < j < r.len() implies !ci_eq(
            #[trigger] r[i].0,
            #[trigger] r[j].0,
        ) by {
            if j == h.len() {
                if ci_eq(r[i].0, r[j].0) {
                    assert(ci_eq(h[i].0, key));
                }
            }
        }
    }
}

/// A read after a write: the values under a name after adding `value` under `key` are the
/// values before with `value` after them when the names match, and unchanged otherwise.
pub proof fn lemma_get_after_insert(h: HeadersView, key: Seq<char>, value: Seq<char>, other: Seq<char>)
    requires
        headers_wf(h),
    ensures
        header_values(header_insert(h, key, value), other) == if ci_eq(key, other) {
            Some(
                match header_values(h, key) {
                    Some(vs) => vs.push(value),
                    None => seq![value],
                },
            )
        } else {
            header_values(h, other)
        },
{
    let r = header_insert(h, key, value);
    lemma_insert_wf(h, key, value);
    if has_key(h, key) {
        let i = key_index(h, key);
        lemma_key_index_unique(h, key, i);
        if ci_eq(key, other) {
            lemma_ci_eq_equivalence(h[i].0, key, other);
            lemma_key_index_unique(r, other, i);
        } else {
            if has_key(h, other) {
                let j = key_index(h, other);
                if j == i {
                    lemma_ci_eq_equivalence(h[i].0, key, other);
                    lemma_ci_eq_equivalence(key, h[i].0, other);
                }
                assert(j != i) by {
                    if j == i {
                        lemma_ci_eq_equivalence(key, h[i].0, other);
                    }
                }
                lemma_key_index_unique(r, other, j);
            } else {
                assert forall|k: int| 0 <= k < r.len() implies !ci_eq(#[trigger] r[k].0, other) by {
                    assert(r[k].0 == h[k].0);
                }
            }
        }
    } else {
        if ci_eq(key, other) {
            lemma_ci_eq_equivalence(key, other, key);
            lemma_key_index_unique(r, other, h.len() as int);
        } else {
            if has_key(h, other) {
                let j = key_index(h, other);
                lemma_key_index_unique(r, other, j);
            } else {
                assert forall|k: int| 0 <= k < r.len() implies !ci_eq(#[trigger] r[k].0, other) by {
                    if k < h.len() {
                        assert(r[k].0 == h[k].0);
                    }
                }
            }
        }
    }
}

/// How the header block of a request is read.
#[derive(Clone)]
pub struct HeaderPolicy {
    allow_untrimmed_key: bool,
}

impl HeaderPolicy {
    /// Whether a header name with ASCII whitespace around it is accepted (and trimmed).
    pub closed spec fn allows_untrimmed_key(&self) -> bool {
        self.allow_untrimmed_key
    }
}

impl Default for HeaderPolicy {
    /// The strict policy: untrimmed header names are refused.
    fn default() -> (r: Self)
        ensures
            !r.allows_untrimmed_key(),
    {
        HeaderPolicy { allow_untrimmed_key: false }
    }
}

/// A header map.
pub struct Headers {
    entries: Vec<(CaseInsensitiveString, Vec<String>)>,
}

/// The mathematical content of the entries of a header map.
pub open spec fn entries_view(e: Seq<(CaseInsensitiveString, Vec<String>)>) -> HeadersView {
    e.map_values(|x: (CaseInsensitiveString, Vec<String>)| (x.0@, x.1@.map_values(|s: String| s@)))
}

impl View for Headers {
    type V = HeadersView;

    closed spec fn view(&self) -> HeadersView {
        entries_view(self.entries@)
    }
}

impl Default for Headers {
    /// The empty map.
    fn default() -> (r: Self)
        ensures
            r@ == Seq::<(Seq<char>, Seq<Seq<char>>)>::empty(),
    {
        let r = Headers { entries: Vec::new() };
        assert(r@ =~= Seq::<(Seq<char>, Seq<Seq<char>>)>::empty());
        r
    }
}

/// The value of one line of a header block added to `h`.
pub open spec fn parse_header_line(h: HeadersView, line: Seq<char>, allow_untrimmed: bool) -> Result<HeadersView, ErrorView> {
    match index_of(line, ':') {
        None => Err(ErrorView::MalformedHeaderLine(line)),
        Some(i) => {
            let key = line.subrange(0, i);
            let value = trim_ascii(line.subrange(i + 1, line.len() as int));
            if trim_ascii(key).len() != key.len() {
                if allow_untrimmed {
                    Ok(header_insert(h, trim_ascii(key), value))
                } else {
                    Err(ErrorView::UntrimmedHeaderKey)
                }
            } else {
                Ok(header_insert(h, key, value))
            }
        },
    }
}

/// The lines of a header block added to `h` one after the other; the first failing line
/// decides the error.
#[verifier::opaque]
pub open spec fn parse_header_lines(h: HeadersView, ls: Seq<Seq<char>>, allow_untrimmed: bool) -> Result<HeadersView, ErrorView>
    decreases ls.len(),
{
    if ls.len() == 0 {
        Ok(h)
    } else {
        match parse_header_line(h, ls[0], allow_untrimmed) {
            Ok(h2) => parse_header_lines(h2, ls.drop_first(), allow_untrimmed),
            Err(e) => Err(e),
        }
    }
}

/// One step of `parse_header_lines`.
proof fn lemma_parse_lines_unfold(h: HeadersView, ls: Seq<Seq<char>>, allow_untrimmed: bool)
    ensures
        ls.len() > 0 ==> parse_header_lines(h, ls, allow_untrimmed) == match parse_header_line(h, ls[0], allow_untrimmed) {
            Ok(h2) => parse_header_lines(h2, ls.drop_first(), allow_untrimmed),
            Err(e) => Err(e),
        },
        ls.len() == 0 ==> parse_header_lines(h, ls, allow_untrimmed) == Ok::<HeadersView, ErrorView>(h),
{
    reveal(parse_header_lines);
}

/// Reading lines one after the other: no lines leave the map as it is, and one more line is
/// read into what the lines before it gave, unless they failed.
pub proof fn lemma_parse_lines_push(h: HeadersView, ls: Seq<Seq<char>>, l: Seq<char>, allow_untrimmed: bool)
    ensures
        parse_header_lines(h, Seq::empty(), allow_untrimmed) == Ok::<HeadersView, ErrorView>(h),
        parse_header_lines(h, ls.push(l), allow_untrimmed) == match parse_header_lines(h, ls, allow_untrimmed) {
            Ok(h2) => parse_header_line(h2, l, allow_untrimmed),
            Err(e) => Err(e),
        },
    decreases ls.len(),
{
    lemma_parse_lines_unfold(h, Seq::empty(), allow_untrimmed);
    lemma_parse_lines_unfold(h, ls.push(l), allow_untrimmed);
    lemma_parse_lines_unfold(h, ls, allow_untrimmed);
    if ls.len() == 0 {
        assert(ls.push(l).drop_first() =~= Seq::<Seq<char>>::empty());
        match parse_header_line(h, l, allow_untrimmed) {
            Ok(h2) => lemma_parse_lines_unfold(h2, Seq::empty(), allow_untrimmed),
            Err(_) => {},
        }
    } else {
        assert(ls.push(l)[0] == ls[0]);
        assert(ls.push(l).drop_first() =~= ls.drop_first().push(l));
        match parse_header_line(h, ls[0], allow_untrimmed) {
            Ok(h2) => lemma_parse_lines_push(h2, ls.drop_first(), l, allow_untrimmed),
            Err(_) => {},
        }
    }
}

/// A header line keeps its whole value. For a line made of a name (without `:`, line breaks
/// or surrounding ASCII whitespace), a `:` and any text without line breaks, reading it as a
/// header block adds exactly the text after the `:`, trimmed of its surrounding ASCII
/// whitespace (inner spaces, commas and further `:`s kept), as the last value under the
/// name; alone, it gives a map with that one name and that one value.
pub proof fn lemma_header_line_value(h: HeadersView, key: Seq<char>, value: Seq<char>, allow_untrimmed: bool)
    requires
        headers_wf(h),
        forall|i: int| 0 <= i < key.len() ==> #[trigger] key[i] != ':' && key[i] != '\n',
        forall|i: int| 0 <= i < value.len() ==> #[trigger] value[i] != '\n',
        trim_ascii(key) == key,
    ensures
        ({
            let line = key + seq![':'] + value;
            let v = trim_ascii(value);
            &&& parse_header_lines(h, lines(line), allow_untrimmed) == Ok::<HeadersView, ErrorView>(
                header_insert(h, key, v),
            )
            &&& header_values(header_insert(h, key, v), key) == Some(
                match header_values(h, key) {
                    Some(vs) => vs.push(v),
                    None => seq![v],
                },
            )
            &&& parse_header_lines(Seq::empty(), lines(line), allow_untrimmed) == Ok::<HeadersView, ErrorView>(
                seq![(key, seq![v])],
            )
        }),
{
    let line = key + seq![':'] + value;
    let v = trim_ascii(value);
    assert forall|j: int| 0 <= j < key.len() implies line[j] != ':' by {
        assert(line[j] == key[j]);
    }
    crate::text::lemma_index_of(line, ':', key.len() as int);
    assert forall|j: int| 0 <= j < line.len() implies line[j] != '\n' by {
        if j < key.len() {
            assert(line[j] == key[j]);
        } else if j > key.len() {
            assert(line[j] == value[j - key.len() - 1]);
        }
    }
    crate::text::lemma_index_of(line, '\n', line.len() as int);
    assert(lines(line) == seq![line]);
    assert(line.subrange(0, key.len() as int) =~= key);
    assert(line.subrange(key.len() + 1int, line.len() as int) =~= value);
    lemma_parse_lines_unfold(h, lines(line), allow_untrimmed);
    lemma_parse_lines_unfold(header_insert(h, key, v), lines(line).drop_first(), allow_untrimmed);
    lemma_parse_lines_unfold(Seq::empty(), lines(line), allow_untrimmed);
    let e = Seq::<(Seq<char>, Seq<Seq<char>>)>::empty();
    lemma_parse_lines_unfold(header_insert(e, key, v), lines(line).drop_first(), allow_untrimmed);
    assert(!has_key(e, key));
    assert(header_insert(e, key, v) =~= seq![(key, seq![v])]);
    lemma_get_after_insert(h, key, v, key);
    lemma_ci_eq_equivalence(key, key, key);
}

/// The position of the entry named `key`, if any.
fn find_entry(entries: &Vec<(CaseInsensitiveString, Vec<String>)>, key: CaseInsensitiveStr) -> (r: Option<usize>)
    ensures
        match r {
            Some(i) => i < entries@.len() && ci_eq(entries_view(entries@)[i as int].0, key@),
            None => !has_key(entries_view(entries@), key@),
        },
{
    let ghost h = entries_view(entries@);
    let mut i: usize = 0;
    while i < entries.len()
        invariant
            i <= entries@.len(),
            h == entries_view(entries@),
            forall|j: int| 0 <= j < i ==> !ci_eq(#[trigger] h[j].0, key@),
        decreases entries@.len() - i,
    {
        if str_eq_ignore_case(entries[i].0.as_ci_str().case_sensitive(), key.case_sensitive()) {
            return Some(i);
        }
        i = i + 1;
    }
    None
}

/// Adds `value` under `key` to a well-formed list of entries.
fn insert_entry(entries: &mut Vec<(CaseInsensitiveString, Vec<String>)>, key: CaseInsensitiveStr, value: String)
    requires
        headers_wf(entries_view(old(entries)@)),
    ensures
        entries_view(final(entries)@) == header_insert(entries_view(old(entries)@), key@, value@),
        headers_wf(entries_view(final(entries)@)),
{
    let ghost h = entries_view(entries@);
    proof {
        lemma_insert_wf(h, key@, value@);
    }
    match find_entry(entries, key) {
        Some(i) => {
            proof {
                lemma_key_index_unique(h, key@, i as int);
            }
            let (k, mut vals) = entries.remove(i);
            let ghost old_vals = vals@;
            vals.push(value);
            assert(vals@.map_values(|s: String| s@) =~= old_vals.map_values(|s: String| s@).push(value@));
            entries.insert(i, (k, vals));
            assert(entries_view(entries@) =~= header_insert(h, key@, value@));
        },
        None => {
            let mut vals: Vec<String> = Vec::new();
            vals.push(value);
            assert(vals@.map_values(|s: String| s@) =~= seq![value@]);
            entries.push((key.to_owned(), vals));
            assert(entries_view(entries@) =~= header_insert(h, key@, value@));
        },
    }
}

/// Adds the header line `v[a..b]` to a well-formed list of entries.
fn add_line(entries: &mut Vec<(CaseInsensitiveString, Vec<String>)>, v: &Vec<char>, a: usize, b: usize, allow: bool) -> (r: Result<(), Error>)
    requires
        a <= b <= v@.len(),
        headers_wf(entries_view(old(entries)@)),
    ensures
        headers_wf(entries_view(final(entries)@)),
        match parse_header_line(entries_view(old(entries)@), v@.subrange(a as int, b as int), allow) {
            Ok(h) => r is Ok && entries_view(final(entries)@) == h,
            Err(e) => r matches Err(err) && err@ == e,
        },
{
    let ghost line = v@.subrange(a as int, b as int);
    proof {
        lemma_index_of_props(line, ':');
    }
    match find_char(v, a, b, ':') {
        None => {
            let l = string_from_chars(v, a, b);
            Err(Error::MalformedHeaderLine(l))
        },
        Some(i) => {
            assert(line.subrange(0, i - a) =~= v@.subrange(a as int, i as int));
            assert(line.subrange(i - a + 1, line.len() as int) =~= v@.subrange(i + 1, b as int));
            let (ka, kb) = trim_range(v, a, i);
            let (va, vb) = trim_range(v, i + 1, b);
            let value = string_from_chars(v, va, vb);
            let key = if kb - ka != i - a {
                if !allow {
                    return Err(Error::UntrimmedHeaderKey);
                }
                string_from_chars(v, ka, kb)
            } else {
                string_from_chars(v, a, i)
            };
            insert_entry(entries, key.as_str().case_insensitive(), value);
            Ok(())
        },
    }
}

impl Headers {
    #[verifier::type_invariant]
    spec fn inv(self) -> bool {
        headers_wf(self@)
    }

    /// Reads a header block: one field per line (`str::lines`), the name before the first
    /// `:` and the value after it, trimmed of ASCII whitespace. A line without `:` is an
    /// error, and so is a name with whitespace around it unless the policy allows it (the
    /// name is then trimmed). Values under names that are equal without regard to ASCII case
    /// are kept together, in the order of their lines.
    #[verifier::rlimit(30)]
    pub fn parse(buf: &str, policy: &HeaderPolicy) -> (r: Result<Self, Error>)
        ensures
            match parse_header_lines(Seq::empty(), lines(buf@), policy.allows_untrimmed_key()) {
                Ok(h) => r matches Ok(headers) && headers@ == h,
                Err(e) => r matches Err(err) && err@ == e,
            },
            r matches Ok(headers) ==> headers_wf(headers@),
    {
        let allow = policy.allow_untrimmed_key;
        let v = chars_of(buf);
        let ranges = line_ranges(&v, 0, v.len());
        let ghost ls = lines(buf@);
        assert(v@.subrange(0, v@.len() as int) =~= v@);
        let mut entries: Vec<(CaseInsensitiveString, Vec<String>)> = Vec::new();
        assert(entries_view(entries@) =~= Seq::<(Seq<char>, Seq<Seq<char>>)>::empty());
        let mut k: usize = 0;
        assert(ls.skip(0) =~= ls);
        assert(allow == policy.allows_untrimmed_key());
        while k < ranges.len()
            invariant
                k <= ranges@.len(),
                v@ == buf@,
                ls == lines(buf@),
                allow == policy.allows_untrimmed_key(),
                ls == slices(v@, ranges@),
                forall|m: int| 0 <= m < ranges@.len() ==> (#[trigger] ranges@[m]).0 <= ranges@[m].1 <= v@.len(),
                headers_wf(entries_view(entries@)),
                parse_header_lines(Seq::empty(), ls, allow) == parse_header_lines(
                    entries_view(entries@),
                    ls.skip(k as int),
                    allow,
                ),
            decreases ranges@.len() - k,
        {
            let (a, b) = ranges[k];
            assert(ls.skip(k as int)[0] == v@.subrange(a as int, b as int));
            assert(ls.skip(k as int).drop_first() =~= ls.skip(k + 1));
            let ghost h = entries_view(entries@);
            let step = add_line(&mut entries, &v, a, b, allow);
            proof {
                lemma_parse_lines_unfold(h, ls.skip(k as int), allow);
            }
            match step {
                Ok(()) => {},
                Err(e) => {
                    return Err(e);
                },
            }
            k = k + 1;
        }
        assert(ls.skip(k as int) =~= Seq::<Seq<char>>::empty());
        proof {
            lemma_parse_lines_unfold(entries_view(entries@), ls.skip(k as int), allow);
        }
        let r = Headers { entries };
        assert(r@ == entries_view(entries@));
        Ok(r)
    }

    /// The values under `key`, compared without regard to ASCII case.
    pub fn get(&self, key: CaseInsensitiveStr) -> (r: Option<&Vec<String>>)
        ensures
            match header_values(self@, key@) {
                Some(vs) => r matches Some(v) && v@.map_values(|s: String| s@) == vs,
                None => r is None,
            },
            headers_wf(self@),
    {
        proof {
            use_type_invariant(self);
        }
        match find_entry(&self.entries, key) {
            Some(i) => {
                proof {
                    lemma_key_index_unique(self@, key@, i as int);
                }
                Some(&self.entries[i].1)
            },
            None => None,
        }
    }

    /// The entries, in the order their names were first added.
    pub fn iter(&self) -> (r: &[(CaseInsensitiveString, Vec<String>)])
        ensures
            entries_view(r@) == self@,
            headers_wf(self@),
    {
        proof {
            use_type_invariant(self);
        }
        self.entries.as_slice()
    }

    /// Adds `value` after the values under `key`, or under a new entry named `key`.
    pub fn insert(&mut self, key: CaseInsensitiveStr, value: String)
        ensures
            final(self)@ == header_insert(old(self)@, key@, value@),
            headers_wf(old(self)@),
            headers_wf(final(self)@),
    {
        proof {
            use_type_invariant(&*self);
        }
        let mut entries: Vec<(CaseInsensitiveString, Vec<String>)> = Vec::new();
        std::mem::swap(&mut entries, &mut self.entries);
        insert_entry(&mut entries, key, value);
        self.entries = entries;
    }
}

} // verus!
