//! Responses whose header lines must be ASCII, and the bytes of their head.
use super::error::{Error, ErrorView};
use crate::http::status::Status;
use crate::http::version::Version;
use crate::text::{chars_of, extend_bytes, owned, str_range, trim_unicode, trim_unicode_range};
use vstd::prelude::*;
use vstd::utf8::encode_utf8;

verus! {

/// A response: its version and status, its header fields (each name with its values) and
/// its body.
pub struct Response {
    pub version: Version,
    pub status: Status,
    pub headers: Vec<(String, Vec<String>)>,
    pub body: Vec<u8>,
}

/// Every character of `s` is ASCII.
pub open spec fn all_ascii(s: Seq<char>) -> bool {
    forall|i: int| 0 <= i < s.len() ==> (#[trigger] s[i]) as u32 <= 0x7f
}

/// One header line: name and value trimmed of whitespace, `": "` between them, CR LF after.
pub open spec fn ascii_line(key: Seq<char>, value: Seq<char>) -> Seq<u8> {
    encode_utf8(trim_unicode(key)) + seq![0x3au8, 0x20u8] + encode_utf8(trim_unicode(value)) + seq![0x0du8, 0x0au8]
}

/// The lines of one header name, one per value in order; the first value that is not ASCII
/// is refused.
pub open spec fn values_out(key: Seq<char>, values: Seq<Seq<char>>) -> Result<Seq<u8>, ErrorView>
    decreases values.len(),
{
    if values.len() == 0 {
        Ok(seq![])
    } else {
        match values_out(key, values.drop_last()) {
            Err(e) => Err(e),
            Ok(b) => if all_ascii(values.last()) {
                Ok(b + ascii_line(key, values.last()))
            } else {
                Err(ErrorView::NonAsciiValue(values.last()))
            },
        }
    }
}

/// The lines of the header fields in order; a name that is not ASCII is refused before its
/// values are looked at, and the first refusal decides.
pub open spec fn fields_out(h: Seq<(Seq<char>, Seq<Seq<char>>)>) -> Result<Seq<u8>, ErrorView>
    decreases h.len(),
{
    if h.len() == 0 {
        Ok(seq![])
    } else {
        match fields_out(h.drop_last()) {
            Err(e) => Err(e),
            Ok(b) => if !all_ascii(h.last().0) {
                Err(ErrorView::NonAsciiKey(h.last().0))
            } else {
                match values_out(h.last().0, h.last().1) {
                    Err(e) => Err(e),
                    Ok(x) => Ok(b + x),
                }
            },
        }
    }
}

/// The views of the header fields.
pub open spec fn fields_view(h: Seq<(String, Vec<String>)>) -> Seq<(Seq<char>, Seq<Seq<char>>)> {
    h.map_values(|e: (String, Vec<String>)| (e.0@, e.1@.map_values(|s: String| s@)))
}

/// The status line followed by the header lines, or the refusal of a field.
pub open spec fn head_out(version: Version, status: Status, h: Seq<(Seq<char>, Seq<Seq<char>>)>) -> Result<Seq<u8>, ErrorView> {
    match fields_out(h) {
        Err(e) => Err(e),
        Ok(b) => Ok(encode_utf8(version.name()) + seq![0x20u8] + encode_utf8(status.text()) + seq![0x0du8, 0x0au8] + b),
    }
}

/// A refusal among the first `m` values stays the refusal of all of them.
proof fn lemma_values_err_persists(key: Seq<char>, vs: Seq<Seq<char>>, m: int)
    requires
        0 <= m <= vs.len(),
        values_out(key, vs.take(m)) is Err,
    ensures
        values_out(key, vs) == values_out(key, vs.take(m)),
    decreases vs.len(),
{
    if vs.len() == m {
        assert(vs.take(m) =~= vs);
    } else {
        assert(vs.drop_last().take(m) =~= vs.take(m));
        lemma_values_err_persists(key, vs.drop_last(), m);
    }
}

/// A refusal among the first `m` fields stays the refusal of all of them.
proof fn lemma_fields_err_persists(h: Seq<(Seq<char>, Seq<Seq<char>>)>, m: int)
    requires
        0 <= m <= h.len(),
        fields_out(h.take(m)) is Err,
    ensures
        fields_out(h) == fields_out(h.take(m)),
    decreases h.len(),
{
    if h.len() == m {
        assert(h.take(m) =~= h);
    } else {
        assert(h.drop_last().take(m) =~= h.take(m));
        lemma_fields_err_persists(h.drop_last(), m);
    }
}

/// Whether all the characters of `s` are ASCII.
fn str_is_ascii(s: &str) -> (r: bool)
    ensures
        r == all_ascii(s@),
{
    let v = chars_of(s);
    let mut i: usize = 0;
    while i < v.len()
        invariant
            v@ == s@,
            i <= v@.len(),
            forall|j: int| 0 <= j < i ==> (#[trigger] v@[j]) as u32 <= 0x7f,
        decreases v@.len() - i,
    {
        if v[i] as u32 > 0x7f {
            return false;
        }
        i = i + 1;
    }
    true
}

/// `s` without its leading and trailing whitespace, borrowed from `s`.
fn trimmed(s: &str) -> (r: &str)
    ensures
        r@ == trim_unicode(s@),
{
    let v = chars_of(s);
    assert(v@.subrange(0, v@.len() as int) =~= v@);
    let (a, b) = trim_unicode_range(&v, 0, v.len());
    str_range(s, a, b)
}

/// Appends the UTF-8 bytes of `s`.
fn push_str(buf: &mut Vec<u8>, s: &str)
    ensures
        final(buf)@ == old(buf)@ + encode_utf8(s@),
{
    extend_bytes(buf, s.as_bytes());
}

impl Response {
    /// The status line and the header lines, each ended by CR LF, the fields in order and the
    /// values of each in order; an error when a header name or value is not ASCII (the first
    /// such, a name before its values). The body is not part of it.
    pub fn to_bytes(&self) -> (r: Result<Vec<u8>, Error>)
        ensures
            match head_out(self.version, self.status, fields_view(self.headers@)) {
                Ok(b) => r matches Ok(x) && x@ == b,
                Err(e) => r matches Err(x) && x@ == e,
            },
    {
        let mut buf: Vec<u8> = Vec::with_capacity(self.body.len() / 2 + 512);
        push_str(&mut buf, self.version.as_str());
        buf.push(0x20);
        push_str(&mut buf, self.status.as_str());
        buf.push(0x0d);
        buf.push(0x0a);
        let ghost head = buf@;
        let ghost h = fields_view(self.headers@);
        assert(h.take(0) =~= Seq::<(Seq<char>, Seq<Seq<char>>)>::empty());
        assert(buf@ =~= head + Seq::<u8>::empty());
        let mut k: usize = 0;
        while k < self.headers.len()
            invariant
                k <= self.headers@.len(),
                h == fields_view(self.headers@),
                fields_out(h.take(k as int)) matches Ok(b) && buf@ == head + b,
            decreases self.headers@.len() - k,
        {
            let key = self.headers[k].0.as_str();
            let values = &self.headers[k].1;
            let ghost vs = values@.map_values(|s: String| s@);
            let ghost before = buf@;
            assert(h.take(k + 1).drop_last() =~= h.take(k as int));
            assert(h[k as int] == (key@, vs));
            if !str_is_ascii(key) {
                proof {
                    lemma_fields_err_persists(h, k + 1);
                }
                return Err(Error::NonAsciiKey(owned(key)));
            }
            let tk = trimmed(key);
            assert(vs.take(0) =~= Seq::<Seq<char>>::empty());
            assert(buf@ =~= before + Seq::<u8>::empty());
            let mut j: usize = 0;
            while j < values.len()
                invariant
                    j <= values@.len(),
                    vs == values@.map_values(|s: String| s@),
                    tk@ == trim_unicode(key@),
                    values_out(key@, vs.take(j as int)) matches Ok(b) && buf@ == before + b,
                    k < self.headers@.len(),
                    h == fields_view(self.headers@),
                    h[k as int] == (key@, vs),
                    all_ascii(key@),
                    h.take(k + 1).drop_last() == h.take(k as int),
                    fields_out(h.take(k as int)) matches Ok(b) && before == head + b,
                decreases values@.len() - j,
            {
                let ghost b0 = buf@;
                let v = values[j].as_str();
                assert(vs.take(j + 1).drop_last() =~= vs.take(j as int));
                assert(vs[j as int] == v@);
                if !str_is_ascii(v) {
                    proof {
                        lemma_values_err_persists(key@, vs, j + 1);
                        assert(values_out(key@, vs) is Err);
                        lemma_fields_err_persists(h, k + 1);
                    }
                    return Err(Error::NonAsciiValue(owned(v)));
                }
                push_str(&mut buf, tk);
                buf.push(0x3a);
                buf.push(0x20);
                push_str(&mut buf, trimmed(v));
                buf.push(0x0d);
                buf.push(0x0a);
                assert(buf@ =~= b0 + ascii_line(key@, v@));
                j = j + 1;
            }
            assert(vs.take(j as int) =~= vs);
            k = k + 1;
        }
        assert(h.take(k as int) =~= h);
        Ok(buf)
    }
}

} // verus!
