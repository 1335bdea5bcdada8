//! Responses and the bytes of their status line and header block.
use super::headers::{Headers, HeadersView, entries_view};
use super::status::Status;
use super::version::Version;
use crate::text::{chars_of, extend_bytes, str_range, trim_ascii, trim_range};
use vstd::prelude::*;
use vstd::string::StringSliceAdditionalSpecFns;
use vstd::utf8::encode_utf8;

verus! {

/// A response without its body.
pub struct Response {
    pub version: Version,
    pub status: Status,
    pub headers: Headers,
}

/// One header line: the name trimmed of ASCII whitespace, `": "`, the value, CR LF.
pub open spec fn header_line_bytes(key: Seq<char>, value: Seq<char>) -> Seq<u8> {
    encode_utf8(trim_ascii(key)) + seq![0x3au8, 0x20u8] + encode_utf8(value) + seq![0x0du8, 0x0au8]
}

/// The lines of one header name, one per value, in order.
pub open spec fn entry_bytes(key: Seq<char>, values: Seq<Seq<char>>) -> Seq<u8>
    decreases values.len(),
{
    if values.len() == 0 {
        seq![]
    } else {
        entry_bytes(key, values.drop_last()) + header_line_bytes(key, values.last())
    }
}

/// The lines of a header map, entry after entry.
pub open spec fn headers_bytes(h: HeadersView) -> Seq<u8>
    decreases h.len(),
{
    if h.len() == 0 {
        seq![]
    } else {
        headers_bytes(h.drop_last()) + entry_bytes(h.last().0, h.last().1)
    }
}

/// The status line, then the header lines.
pub open spec fn response_bytes(version: Version, status: Status, h: HeadersView) -> Seq<u8> {
    encode_utf8(version.name()) + seq![0x20u8] + encode_utf8(status.text()) + seq![0x0du8, 0x0au8]
        + headers_bytes(h)
}

/// The bytes of a response's head: the status line, then one line for every value of every
/// header, header after header in the map's order and value after value: adding an entry
/// to the map adds its lines at the end, and adding a value to an entry adds one line,
/// `name: value` with the name trimmed of ASCII whitespace, at the end of that entry's
/// lines. An empty map and an entry without values give no lines.
pub proof fn lemma_response_lines(
    version: Version,
    status: Status,
    h: HeadersView,
    key: Seq<char>,
    values: Seq<Seq<char>>,
    value: Seq<char>,
)
    ensures
        response_bytes(version, status, h) == encode_utf8(version.name()) + seq![0x20u8] + encode_utf8(status.text())
            + seq![0x0du8, 0x0au8] + headers_bytes(h),
        headers_bytes(Seq::empty()) == Seq::<u8>::empty(),
        headers_bytes(h.push((key, values))) == headers_bytes(h) + entry_bytes(key, values),
        entry_bytes(key, Seq::empty()) == Seq::<u8>::empty(),
        entry_bytes(key, values.push(value)) == entry_bytes(key, values) + encode_utf8(trim_ascii(key)) + seq![
            0x3au8,
            0x20u8,
        ] + encode_utf8(value) + seq![0x0du8, 0x0au8],
        headers_bytes(seq![(key, seq![value])]) == encode_utf8(trim_ascii(key)) + seq![0x3au8, 0x20u8] + encode_utf8(
            value,
        ) + seq![0x0du8, 0x0au8],
{
    assert(h.push((key, values)).drop_last() =~= h);
    assert(values.push(value).drop_last() =~= values);
    let one = seq![(key, seq![value])];
    assert(one.drop_last() =~= Seq::<(Seq<char>, Seq<Seq<char>>)>::empty());
    assert(seq![value].drop_last() =~= Seq::<Seq<char>>::empty());
    let e = Seq::<(Seq<char>, Seq<Seq<char>>)>::empty();
    let ev = Seq::<Seq<char>>::empty();
    assert(headers_bytes(e) == Seq::<u8>::empty());
    assert(entry_bytes(key, ev) == Seq::<u8>::empty());
    assert(one.last() == (key, seq![value]));
    assert(seq![value].last() == value);
    assert(entry_bytes(key, seq![value]) == entry_bytes(key, ev) + header_line_bytes(key, value));
    assert(entry_bytes(key, seq![value]) =~= header_line_bytes(key, value));
    assert(headers_bytes(one) == headers_bytes(e) + entry_bytes(key, seq![value]));
    assert(headers_bytes(one) =~= entry_bytes(key, seq![value]));
}

/// Appends the UTF-8 bytes of `s`.
fn push_str(buf: &mut Vec<u8>, s: &str)
    ensures
        final(buf)@ == old(buf)@ + encode_utf8(s@),
{
    extend_bytes(buf, s.as_bytes());
}

impl Response {
    /// The status line and the header lines of the response, each ended by CR LF: the bytes
    /// that precede the blank line and the body on the wire.
    pub fn to_bytes(&self) -> (r: Vec<u8>)
        ensures
            r@ == response_bytes(self.version, self.status, self.headers@),
    {
        let mut buf: Vec<u8> = Vec::with_capacity(512);
        push_str(&mut buf, self.version.as_str());
        buf.push(0x20);
        push_str(&mut buf, self.status.as_str());
        buf.push(0x0d);
        buf.push(0x0a);
        let ghost head = buf@;
        let entries = self.headers.iter();
        let ghost h = entries_view(entries@);
        assert(h.take(0) =~= Seq::<(Seq<char>, Seq<Seq<char>>)>::empty());
        assert(buf@ =~= head + headers_bytes(h.take(0)));
        let mut k: usize = 0;
        while k < entries.len()
            invariant
                k <= entries@.len(),
                h == entries_view(entries@),
                buf@ == head + headers_bytes(h.take(k as int)),
            decreases entries@.len() - k,
        {
            let key = entries[k].0.case_sensitive_ref().as_str();
            let values = &entries[k].1;
            let kc = chars_of(key);
            let (ka, kb) = trim_range(&kc, 0, kc.len());
            assert(kc@.subrange(0, kc@.len() as int) =~= kc@);
            let trimmed = str_range(key, ka, kb);
            let ghost vs = values@.map_values(|s: String| s@);
            let ghost before = buf@;
            assert(vs.take(0) =~= Seq::<Seq<char>>::empty());
            assert(buf@ =~= before + entry_bytes(key@, vs.take(0)));
            let mut j: usize = 0;
            while j < values.len()
                invariant
                    j <= values@.len(),
                    vs == values@.map_values(|s: String| s@),
                    trimmed@ == trim_ascii(key@),
                    buf@ == before + entry_bytes(key@, vs.take(j as int)),
                decreases values@.len() - j,
            {
                let ghost b0 = buf@;
                push_str(&mut buf, trimmed);
                buf.push(0x3a);
                buf.push(0x20);
                push_str(&mut buf, values[j].as_str());
                buf.push(0x0d);
                buf.push(0x0a);
                assert(vs.take(j + 1).drop_last() =~= vs.take(j as int));
                assert(buf@ =~= b0 + header_line_bytes(key@, vs[j as int]));
                assert(buf@ =~= before + entry_bytes(key@, vs.take(j + 1)));
                j = j + 1;
            }
            assert(vs.take(j as int) =~= vs);
            assert(h.take(k + 1).drop_last() =~= h.take(k as int));
            assert(h[k as int] == (key@, vs));
            assert(buf@ =~= head + headers_bytes(h.take(k + 1)));
            k = k + 1;
        }
        assert(h.take(k as int) =~= h);
        buf
    }
}

} // verus!
