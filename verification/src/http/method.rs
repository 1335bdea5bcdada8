//! Request methods.
use super::cistr::CaseInsensitiveStr;
use super::method_names;
use crate::text::{ci_eq, str_eq_ignore_case};
use vstd::prelude::*;

verus! {

/// The methods of RFC 9110 and PATCH.
#[derive(Debug, Copy, Clone, PartialEq, Eq, Structural, PartialOrd, Ord, Hash)]
pub enum Method {
    GET,
    HEAD,
    POST,
    PUT,
    DELETE,
    CONNECT,
    OPTIONS,
    TRACE,
    PATCH,
}

impl Method {
    /// The name of the method, upper-case, as `as_str` gives it.
    pub open spec fn name(self) -> Seq<char> {
        match self {
            Method::GET => seq!['G', 'E', 'T'],
            Method::HEAD => seq!['H', 'E', 'A', 'D'],
            Method::POST => seq!['P', 'O', 'S', 'T'],
            Method::PUT => seq!['P', 'U', 'T'],
            Method::DELETE => seq!['D', 'E', 'L', 'E', 'T', 'E'],
            Method::CONNECT => seq!['C', 'O', 'N', 'N', 'E', 'C', 'T'],
            Method::OPTIONS => seq!['O', 'P', 'T', 'I', 'O', 'N', 'S'],
            Method::TRACE => seq!['T', 'R', 'A', 'C', 'E'],
            Method::PATCH => seq!['P', 'A', 'T', 'C', 'H'],
        }
    }
}

/// The method whose name equals `s` without regard to ASCII case.
pub open spec fn parse_method(s: Seq<char>) -> Option<Method> {
    if ci_eq(s, Method::GET.name()) {
        Some(Method::GET)
    } else if ci_eq(s, Method::HEAD.name()) {
        Some(Method::HEAD)
    } else if ci_eq(s, Method::POST.name()) {
        Some(Method::POST)
    } else if ci_eq(s, Method::PUT.name()) {
        Some(Method::PUT)
    } else if ci_eq(s, Method::DELETE.name()) {
        Some(Method::DELETE)
    } else if ci_eq(s, Method::CONNECT.name()) {
        Some(Method::CONNECT)
    } else if ci_eq(s, Method::OPTIONS.name()) {
        Some(Method::OPTIONS)
    } else if ci_eq(s, Method::TRACE.name()) {
        Some(Method::TRACE)
    } else if ci_eq(s, Method::PATCH.name()) {
        Some(Method::PATCH)
    } else {
        None
    }
}

impl Method {
    /// The method named `value`, whatever its ASCII case; `None` for any other text.
    pub fn parse(value: CaseInsensitiveStr) -> (r: Option<Self>)
        ensures
            r == parse_method(value@),
    {
        proof {
            reveal_strlit("GET");
            reveal_strlit("HEAD");
            reveal_strlit("POST");
            reveal_strlit("PUT");
            reveal_strlit("DELETE");
            reveal_strlit("CONNECT");
            reveal_strlit("OPTIONS");
            reveal_strlit("TRACE");
            reveal_strlit("PATCH");
        }
        let v = value.case_sensitive();
        if str_eq_ignore_case(v, method_names::GET) {
            Some(Self::GET)
        } else if str_eq_ignore_case(v, method_names::HEAD) {
            Some(Self::HEAD)
        } else if str_eq_ignore_case(v, method_names::POST) {
            Some(Self::POST)
        } else if str_eq_ignore_case(v, method_names::PUT) {
            Some(Self::PUT)
        } else if str_eq_ignore_case(v, method_names::DELETE) {
            Some(Self::DELETE)
        } else if str_eq_ignore_case(v, method_names::CONNECT) {
            Some(Self::CONNECT)
        } else if str_eq_ignore_case(v, method_names::OPTIONS) {
            Some(Self::OPTIONS)
        } else if str_eq_ignore_case(v, method_names::TRACE) {
            Some(Self::TRACE)
        } else if str_eq_ignore_case(v, method_names::PATCH) {
            Some(Self::PATCH)
        } else {
            None
        }
    }

    /// The name of the method.
    pub fn as_str(&self) -> (r: &'static str)
        ensures
            r@ == self.name(),
    {
        proof {
            reveal_strlit("GET");
            reveal_strlit("HEAD");
            reveal_strlit("POST");
            reveal_strlit("PUT");
            reveal_strlit("DELETE");
            reveal_strlit("CONNECT");
            reveal_strlit("OPTIONS");
            reveal_strlit("TRACE");
            reveal_strlit("PATCH");
        }
        match self {
            Self::GET => method_names::GET,
            Self::HEAD => method_names::HEAD,
            Self::POST => method_names::POST,
            Self::PUT => method_names::PUT,
            Self::DELETE => method_names::DELETE,
            Self::CONNECT => method_names::CONNECT,
            Self::OPTIONS => method_names::OPTIONS,
            Self::TRACE => method_names::TRACE,
            Self::PATCH => method_names::PATCH,
        }
    }
}

/// Parsing the name of a method gives the method back.
pub proof fn lemma_method_parse_name(m: Method)
    ensures
        parse_method(m.name()) == Some(m),
{
    assert(ci_eq(m.name(), m.name()));
}

} // verus!
