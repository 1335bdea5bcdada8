//! Decoding of URL components.
use super::error::{Error, ErrorView};
use crate::text::{owned, string_from_utf8};
use vstd::prelude::*;
use vstd::string::StringSliceAdditionalSpecFns;
use vstd::utf8::{decode_utf8, valid_utf8};

verus! {

/// The value of a hexadecimal digit byte, either case.
pub open spec fn hex_digit(b: u8) -> Option<u8> {
    if 0x30 <= b && b <= 0x39 {
        Some((b - 0x30) as u8)
    } else if 0x61 <= b && b <= 0x66 {
        Some((b - 0x61 + 10) as u8)
    } else if 0x41 <= b && b <= 0x46 {
        Some((b - 0x41 + 10) as u8)
    } else {
        None
    }
}

/// The byte that a group ending in the digits `d1` and `d2` decodes to: `d1` shifted left by
/// `4 + d2` bits, within a byte.
pub open spec fn percent_code(d1: u8, d2: u8) -> u8 {
    d1 << ((4 + d2) as u8)
}

/// How decoding a byte sequence ends.
pub enum DecodeOutcome {
    /// The decoded bytes.
    Decoded(Seq<u8>),
    /// A group is cut short by the end of the input.
    Truncated,
    /// A byte where a hexadecimal digit is expected (the byte).
    BadDigit(u8),
    /// A group whose second digit is 4 or more: its shift does not fit in a byte.
    ShiftOverflow,
}

/// `p` before the decoded bytes of `o`; any other outcome unchanged.
pub open spec fn prepend(p: Seq<u8>, o: DecodeOutcome) -> DecodeOutcome {
    match o {
        DecodeOutcome::Decoded(r) => DecodeOutcome::Decoded(p + r),
        _ => o,
    }
}

/// Decoding as `url_decode` does it: the input is read in groups of three bytes. The first
/// byte of a group is kept unless it is `%`; the other two are hexadecimal digits, and the
/// group then gives `percent_code` of them.
pub open spec fn decode_groups(b: Seq<u8>) -> DecodeOutcome
    decreases b.len(),
{
    if b.len() == 0 {
        DecodeOutcome::Decoded(seq![])
    } else if b.len() < 3 {
        DecodeOutcome::Truncated
    } else {
        let kept = if b[0] != 0x25 { seq![b[0]] } else { Seq::<u8>::empty() };
        match (hex_digit(b[1]), hex_digit(b[2])) {
            (None, _) => DecodeOutcome::BadDigit(b[1]),
            (Some(_), None) => DecodeOutcome::BadDigit(b[2]),
            (Some(d1), Some(d2)) => if d2 >= 4 {
                DecodeOutcome::ShiftOverflow
            } else {
                prepend(kept + seq![percent_code(d1, d2)], decode_groups(b.subrange(3, b.len() as int)))
            },
        }
    }
}

fn parse_percent_digit(b: u8) -> (r: Result<u8, Error>)
    ensures
        match hex_digit(b) {
            Some(d) => r matches Ok(x) && x == d,
            None => r matches Err(e) && e@ == ErrorView::InvalidHexDigit(b),
        },
{
    match b {
        0x30 => Ok(0),
        0x31 => Ok(1),
        0x32 => Ok(2),
        0x33 => Ok(3),
        0x34 => Ok(4),
        0x35 => Ok(5),
        0x36 => Ok(6),
        0x37 => Ok(7),
        0x38 => Ok(8),
        0x39 => Ok(9),
        0x61 | 0x41 => Ok(0xA),
        0x62 | 0x42 => Ok(0xB),
        0x63 | 0x43 => Ok(0xC),
        0x64 | 0x44 => Ok(0xD),
        0x65 | 0x45 => Ok(0xE),
        0x66 | 0x46 => Ok(0xF),
        _ => Err(Error::InvalidHexDigit(b)),
    }
}

fn parse_percent_code(b1: u8, b2: u8) -> (r: Result<u8, Error>)
    requires
        hex_digit(b1) is Some && hex_digit(b2) is Some ==> hex_digit(b2)->0 < 4,
    ensures
        match (hex_digit(b1), hex_digit(b2)) {
            (None, _) => r matches Err(e) && e@ == ErrorView::InvalidHexDigit(b1),
            (Some(_), None) => r matches Err(e) && e@ == ErrorView::InvalidHexDigit(b2),
            (Some(d1), Some(d2)) => r matches Ok(x) && x == percent_code(d1, d2),
        },
{
    let d1 = parse_percent_digit(b1)?;
    let d2 = parse_percent_digit(b2)?;
    Ok(d1 << (4 + d2))
}

/// One successful group of `decode_groups`.
proof fn lemma_decode_step(b: Seq<u8>, d1: u8, d2: u8)
    requires
        b.len() >= 3,
        hex_digit(b[1]) == Some(d1),
        hex_digit(b[2]) == Some(d2),
        d2 < 4,
    ensures
        decode_groups(b) == prepend(
            (if b[0] != 0x25 { seq![b[0]] } else { Seq::<u8>::empty() }) + seq![percent_code(d1, d2)],
            decode_groups(b.subrange(3, b.len() as int)),
        ),
{
}

proof fn lemma_prepend_prepend(p: Seq<u8>, q: Seq<u8>, o: DecodeOutcome)
    ensures
        prepend(p, prepend(q, o)) == prepend(p + q, o),
{
    if let DecodeOutcome::Decoded(r) = o {
        assert(p + (q + r) =~= (p + q) + r);
    }
}

/// Decodes a URL component: the bytes are read in groups
/// of three; the first byte of each group is kept unless it is `%`, and the next two are
/// hexadecimal digits whose `percent_code` follows. A group cut short is
/// `InvalidEncodedUrl`, a non-digit `InvalidHexDigit`, and a result that is not UTF-8
/// `InvalidUtf8`. Inputs on which the shift of a group would not fit in a byte are excluded.
pub fn url_decode(src: &str) -> (r: Result<String, Error>)
    requires
        !(decode_groups(src.spec_bytes()) is ShiftOverflow),
    ensures
        match decode_groups(src.spec_bytes()) {
            DecodeOutcome::Decoded(bytes) => if valid_utf8(bytes) {
                r matches Ok(s) && s@ == decode_utf8(bytes)
            } else {
                r matches Err(e) && e@ == ErrorView::InvalidUtf8
            },
            DecodeOutcome::Truncated => r matches Err(e) && e@ == ErrorView::InvalidEncodedUrl(src@),
            DecodeOutcome::BadDigit(b) => r matches Err(e) && e@ == ErrorView::InvalidHexDigit(b),
            DecodeOutcome::ShiftOverflow => false,
        },
{
    let bytes = src.as_bytes();
    let ghost all = bytes@;
    let mut result: Vec<u8> = Vec::new();
    let mut i: usize = 0;
    assert(all.subrange(0, all.len() as int) =~= all);
    assert(Seq::<u8>::empty() + all =~= all);
    while i < bytes.len()
        invariant
            i <= bytes@.len(),
            all == bytes@,
            all == src.spec_bytes(),
            decode_groups(all) == prepend(result@, decode_groups(all.subrange(i as int, all.len() as int))),
            !(decode_groups(all) is ShiftOverflow),
        decreases bytes@.len() - i,
    {
        let ghost t = all.subrange(i as int, all.len() as int);
        let ch = bytes[i];
        let ghost before = result@;
        if ch != 0x25 {
            result.push(ch);
        }
        let ghost kept = if ch != 0x25 { seq![ch] } else { Seq::<u8>::empty() };
        assert(result@ =~= before + kept);
        if i + 1 >= bytes.len() {
            return Err(Error::InvalidEncodedUrl(owned(src)));
        }
        if i + 2 >= bytes.len() {
            return Err(Error::InvalidEncodedUrl(owned(src)));
        }
        let b1 = bytes[i + 1];
        let b2 = bytes[i + 2];
        assert(t[0] == ch && t[1] == b1 && t[2] == b2);
        let code = parse_percent_code(b1, b2)?;
        proof {
            let d1 = hex_digit(b1)->0;
            let d2 = hex_digit(b2)->0;
            lemma_decode_step(t, d1, d2);
            assert(t.subrange(3, t.len() as int) =~= all.subrange(i + 3, all.len() as int));
            lemma_prepend_prepend(before, kept + seq![code], decode_groups(t.subrange(3, t.len() as int)));
        }
        let ghost before2 = result@;
        result.push(code);
        assert(result@ =~= before + (kept + seq![code]));
        i = i + 3;
    }
    assert(all.subrange(i as int, all.len() as int) =~= Seq::<u8>::empty());
    assert(result@ + Seq::<u8>::empty() =~= result@);
    match string_from_utf8(result) {
        Ok(s) => Ok(s),
        Err(_) => Err(Error::InvalidUtf8),
    }
}

} // verus!
