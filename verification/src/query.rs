//! Query strings: `key=value` phrases separated by `&`, each side URL-decoded.
use crate::http::error::{Error, ErrorView};
use crate::http::pub_util::{decode_groups, url_decode, DecodeOutcome};
use crate::text::{
    chars_of, find_char, index_of, lemma_index_of, lemma_index_of_props, slices, split, split_ranges,
    str_range, trim_unicode, trim_unicode_range,
};
use vstd::prelude::*;
use vstd::string::StringSliceAdditionalSpecFns;
use vstd::utf8::{decode_utf8, encode_utf8, valid_utf8};

verus! {

/// Why a query string could not be read.
#[derive(Debug)]
pub enum QueryError {
    /// A phrase without `=` (the phrase, trimmed).
    InvalidPhrase(String),
    /// A key that did not decode.
    Key(Error),
    /// A value that did not decode.
    Value(Error),
}

/// The mathematical content of a `QueryError`.
pub enum QueryErrorView {
    InvalidPhrase(Seq<char>),
    Key(ErrorView),
    Value(ErrorView),
}

impl View for QueryError {
    type V = QueryErrorView;

    open spec fn view(&self) -> QueryErrorView {
        match self {
            QueryError::InvalidPhrase(s) => QueryErrorView::InvalidPhrase(s@),
            QueryError::Key(e) => QueryErrorView::Key(e@),
            QueryError::Value(e) => QueryErrorView::Value(e@),
        }
    }
}

/// Keys, each with its values in order.
pub type QueryView = Seq<(Seq<char>, Seq<Seq<char>>)>;

/// The mathematical content of a list of keys with their values.
pub open spec fn query_view(q: Seq<(String, Vec<String>)>) -> QueryView {
    q.map_values(|e: (String, Vec<String>)| (e.0@, e.1@.map_values(|s: String| s@)))
}

/// The keys of a query, in order.
pub open spec fn query_keys(q: QueryView) -> Seq<Seq<char>> {
    q.map_values(|e: (Seq<char>, Seq<Seq<char>>)| e.0)
}

/// `value` added after the values of `key`, or under a new key at the end.
pub open spec fn query_push(q: QueryView, key: Seq<char>, value: Seq<char>) -> QueryView {
    match index_of(query_keys(q), key) {
        Some(i) => q.update(i, (key, q[i].1.push(value))),
        None => q.push((key, seq![value])),
    }
}

/// What `url_decode` gives for `s`, or `None` where it is not defined.
pub open spec fn decoded(s: Seq<char>) -> Option<Result<Seq<char>, ErrorView>> {
    match decode_groups(encode_utf8(s)) {
        DecodeOutcome::Decoded(b) => Some(
            if valid_utf8(b) {
                Ok(decode_utf8(b))
            } else {
                Err(ErrorView::InvalidUtf8)
            },
        ),
        DecodeOutcome::Truncated => Some(Err(ErrorView::InvalidEncodedUrl(s))),
        DecodeOutcome::BadDigit(x) => Some(Err(ErrorView::InvalidHexDigit(x))),
        DecodeOutcome::ShiftOverflow => None,
    }
}

/// How reading a query ends.
pub enum QueryOutcome {
    Parsed(QueryView),
    Failed(QueryErrorView),
    /// A key or value on which `url_decode` is not defined.
    Undefined,
}

/// One phrase added to `q`: trimmed of whitespace, skipped when empty, split at its first
/// `=`, both sides decoded.
pub open spec fn query_step(q: QueryView, phrase: Seq<char>) -> QueryOutcome {
    let p = trim_unicode(phrase);
    if p.len() == 0 {
        QueryOutcome::Parsed(q)
    } else {
        match index_of(p, '=') {
            None => QueryOutcome::Failed(QueryErrorView::InvalidPhrase(p)),
            Some(i) => match decoded(p.subrange(0, i)) {
                None => QueryOutcome::Undefined,
                Some(Err(e)) => QueryOutcome::Failed(QueryErrorView::Key(e)),
                Some(Ok(k)) => match decoded(p.subrange(i + 1, p.len() as int)) {
                    None => QueryOutcome::Undefined,
                    Some(Err(e)) => QueryOutcome::Failed(QueryErrorView::Value(e)),
                    Some(Ok(v)) => QueryOutcome::Parsed(query_push(q, k, v)),
                },
            },
        }
    }
}

/// The phrases added one after the other; the first failure decides.
#[verifier::opaque]
pub open spec fn query_fold(q: QueryView, phrases: Seq<Seq<char>>) -> QueryOutcome
    decreases phrases.len(),
{
    if phrases.len() == 0 {
        QueryOutcome::Parsed(q)
    } else {
        match query_step(q, phrases[0]) {
            QueryOutcome::Parsed(q2) => query_fold(q2, phrases.drop_first()),
            other => other,
        }
    }
}

/// What `parse` gives for a query string: its `&`-separated phrases read in order.
pub open spec fn parse_query(raw: Seq<char>) -> QueryOutcome {
    query_fold(Seq::empty(), split(raw, '&'))
}

proof fn lemma_fold_unfold(q: QueryView, phrases: Seq<Seq<char>>)
    ensures
        phrases.len() == 0 ==> query_fold(q, phrases) == QueryOutcome::Parsed(q),
        phrases.len() > 0 ==> query_fold(q, phrases) == match query_step(q, phrases[0]) {
            QueryOutcome::Parsed(q2) => query_fold(q2, phrases.drop_first()),
            other => other,
        },
{
    reveal(query_fold);
}

/// `url_decode` in terms of `decoded`.
fn decode(s: &str) -> (r: Result<String, Error>)
    requires
        decoded(s@) is Some,
    ensures
        match decoded(s@) {
            Some(Ok(d)) => r matches Ok(x) && x@ == d,
            Some(Err(e)) => r matches Err(x) && x@ == e,
            None => false,
        },
{
    assert(s.spec_bytes() == encode_utf8(s@));
    url_decode(s)
}

/// Adds `value` under `key`.
fn push_value(q: &mut Vec<(String, Vec<String>)>, key: String, value: String)
    ensures
        query_view(final(q)@) == query_push(query_view(old(q)@), key@, value@),
{
    let ghost keys = query_keys(query_view(q@));
    let kv = chars_of(key.as_str());
    let mut i: usize = 0;
    while i < q.len()
        invariant
            i <= q@.len(),
            keys == query_keys(query_view(q@)),
            kv@ == key@,
            q@ == old(q)@,
            forall|j: int| 0 <= j < i ==> keys[j] != key@,
        decreases q@.len() - i,
    {
        let other = chars_of(q[i].0.as_str());
        let mut same = other.len() == kv.len();
        let mut j: usize = 0;
        while same && j < kv.len()
            invariant
                j <= kv@.len(),
                kv@ == key@,
                other@ == q@[i as int].0@,
                same ==> other@.len() == kv@.len(),
                same ==> forall|m: int| 0 <= m < j ==> other@[m] == kv@[m],
                !same ==> other@ != kv@,
            decreases kv@.len() - j,
        {
            if other[j] != kv[j] {
                same = false;
            }
            j = j + 1;
        }
        if same {
            assert(other@ =~= kv@);
            proof {
                lemma_index_of(keys, key@, i as int);
            }
            let (k, mut vals) = q.remove(i);
            let ghost old_vals = vals@;
            vals.push(value);
            assert(vals@.map_values(|s: String| s@) =~= old_vals.map_values(|s: String| s@).push(value@));
            q.insert(i, (k, vals));
            assert(query_view(q@) =~= query_push(query_view(old(q)@), key@, value@));
            return;
        }
        i = i + 1;
    }
    proof {
        lemma_index_of(keys, key@, i as int);
    }
    let mut vals: Vec<String> = Vec::new();
    vals.push(value);
    assert(vals@.map_values(|s: String| s@) =~= seq![value@]);
    q.push((key, vals));
    assert(query_view(q@) =~= query_push(query_view(old(q)@), key@, value@));
}

/// Adds the phrase `v[a..b]` of `raw`.
fn add_phrase(q: &mut Vec<(String, Vec<String>)>, raw: &str, v: &Vec<char>, a: usize, b: usize) -> (r: Result<(), QueryError>)
    requires
        v@ == raw@,
        a <= b <= v@.len(),
        !(query_step(query_view(old(q)@), v@.subrange(a as int, b as int)) is Undefined),
    ensures
        match query_step(query_view(old(q)@), v@.subrange(a as int, b as int)) {
            QueryOutcome::Parsed(q2) => r is Ok && query_view(final(q)@) == q2,
            QueryOutcome::Failed(e) => r matches Err(x) && x@ == e,
            QueryOutcome::Undefined => false,
        },
{
    let (ta, tb) = trim_unicode_range(v, a, b);
    let ghost p = v@.subrange(ta as int, tb as int);
    if ta == tb {
        assert(p.len() == 0);
        return Ok(());
    }
    proof {
        lemma_index_of_props(p, '=');
    }
    match find_char(v, ta, tb, '=') {
        None => {
            Err(QueryError::InvalidPhrase(crate::text::owned(str_range(raw, ta, tb))))
        },
        Some(i) => {
            assert(p.subrange(0, i - ta) =~= v@.subrange(ta as int, i as int));
            assert(p.subrange(i - ta + 1, p.len() as int) =~= v@.subrange(i + 1, tb as int));
            let key_text = str_range(raw, ta, i);
            let key = match decode(key_text) {
                Ok(k) => k,
                Err(e) => {
                    return Err(QueryError::Key(e));
                },
            };
            let value_text = str_range(raw, i + 1, tb);
            let value = match decode(value_text) {
                Ok(x) => x,
                Err(e) => {
                    return Err(QueryError::Value(e));
                },
            };
            push_value(q, key, value);
            Ok(())
        },
    }
}

/// Reads a query string: the phrases between `&`s, each trimmed of whitespace and skipped
/// when empty, are `key=value` (split at the first `=`), both sides decoded with
/// `url_decode`; the values of equal keys are kept together in order, keys in the order
/// they first appear. Inputs on which `url_decode` is not defined are excluded.
pub fn parse(raw: &str) -> (r: Result<Vec<(String, Vec<String>)>, QueryError>)
    requires
        !(parse_query(raw@) is Undefined),
    ensures
        match parse_query(raw@) {
            QueryOutcome::Parsed(q) => r matches Ok(x) && query_view(x@) == q,
            QueryOutcome::Failed(e) => r matches Err(x) && x@ == e,
            QueryOutcome::Undefined => false,
        },
{
    let v = chars_of(raw);
    assert(v@.subrange(0, v@.len() as int) =~= v@);
    let ranges = split_ranges(&v, 0, v.len(), '&');
    let ghost phrases = split(raw@, '&');
    let mut q: Vec<(String, Vec<String>)> = Vec::new();
    assert(query_view(q@) =~= Seq::<(Seq<char>, Seq<Seq<char>>)>::empty());
    assert(phrases.skip(0) =~= phrases);
    let mut k: usize = 0;
    while k < ranges.len()
        invariant
            k <= ranges@.len(),
            v@ == raw@,
            phrases == split(raw@, '&'),
            phrases == slices(v@, ranges@),
            forall|m: int| 0 <= m < ranges@.len() ==> (#[trigger] ranges@[m]).0 <= ranges@[m].1 <= v@.len(),
            parse_query(raw@) == query_fold(query_view(q@), phrases.skip(k as int)),
            !(parse_query(raw@) is Undefined),
        decreases ranges@.len() - k,
    {
        let (a, b) = ranges[k];
        assert(phrases.skip(k as int)[0] == v@.subrange(a as int, b as int));
        assert(phrases.skip(k as int).drop_first() =~= phrases.skip(k + 1));
        proof {
            lemma_fold_unfold(query_view(q@), phrases.skip(k as int));
        }
        match add_phrase(&mut q, raw, &v, a, b) {
            Ok(()) => {},
            Err(e) => {
                return Err(e);
            },
        }
        k = k + 1;
    }
    assert(phrases.skip(k as int) =~= Seq::<Seq<char>>::empty());
    proof {
        lemma_fold_unfold(query_view(q@), phrases.skip(k as int));
    }
    Ok(q)
}

} // verus!
