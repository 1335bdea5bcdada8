//! Protocol versions.
use super::cistr::CaseInsensitiveStr;
use super::version_names;
use crate::text::{ci_eq, str_eq_ignore_case};
use vstd::prelude::*;

verus! {

/// The protocol versions this library speaks.
#[derive(Debug, Copy, Clone, PartialEq, Eq, Structural, PartialOrd, Ord, Hash)]
pub enum Version {
    Http10,
    Http11,
    Http20,
}

impl Version {
    /// The name of the version, as `as_str` gives it.
    pub open spec fn name(self) -> Seq<char> {
        match self {
            Version::Http10 => seq!['H', 'T', 'T', 'P', '/', '1', '.', '0'],
            Version::Http11 => seq!['H', 'T', 'T', 'P', '/', '1', '.', '1'],
            Version::Http20 => seq!['H', 'T', 'T', 'P', '/', '2', '.', '0'],
        }
    }
}

/// The version whose name equals `s` without regard to ASCII case.
pub open spec fn parse_version(s: Seq<char>) -> Option<Version> {
    if ci_eq(s, Version::Http10.name()) {
        Some(Version::Http10)
    } else if ci_eq(s, Version::Http11.name()) {
        Some(Version::Http11)
    } else if ci_eq(s, Version::Http20.name()) {
        Some(Version::Http20)
    } else {
        None
    }
}

impl Version {
    /// The version named `value`, whatever its ASCII case; `None` for any other text.
    pub fn parse(value: CaseInsensitiveStr) -> (r: Option<Self>)
        ensures
            r == parse_version(value@),
    {
        proof {
            reveal_strlit("HTTP/1.0");
            reveal_strlit("HTTP/1.1");
            reveal_strlit("HTTP/2.0");
        }
        let v = value.case_sensitive();
        if str_eq_ignore_case(v, version_names::HTTP10) {
            Some(Self::Http10)
        } else if str_eq_ignore_case(v, version_names::HTTP11) {
            Some(Self::Http11)
        } else if str_eq_ignore_case(v, version_names::HTTP20) {
            Some(Self::Http20)
        } else {
            None
        }
    }

    /// The name of the version.
    pub fn as_str(&self) -> (r: &'static str)
        ensures
            r@ == self.name(),
    {
        proof {
            reveal_strlit("HTTP/1.0");
            reveal_strlit("HTTP/1.1");
            reveal_strlit("HTTP/2.0");
        }
        match self {
            Version::Http10 => version_names::HTTP10,
            Version::Http11 => version_names::HTTP11,
            Version::Http20 => version_names::HTTP20,
        }
    }
}

/// Parsing the name of a version gives the version back.
pub proof fn lemma_version_parse_name(v: Version)
    ensures
        parse_version(v.name()) == Some(v),
{
    assert(ci_eq(v.name(), v.name()));
}

} // verus!
