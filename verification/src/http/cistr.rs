//! Strings whose equality and order ignore ASCII case.
use crate::text::{
    ci_eq, ci_sign, ci_compare, lemma_ci_sign_equal, lemma_ci_sign_antisymmetric, lemma_ci_sign_transitive,
    owned, str_eq_ignore_case,
};
use std::cmp::Ordering;
use vstd::prelude::*;
use vstd::std_specs::cmp::PartialEqSpecImpl;

verus! {

/// An owned string compared without regard to ASCII case.
#[derive(Debug, Clone)]
pub struct CaseInsensitiveString(String);

/// A borrowed string compared without regard to ASCII case.
#[derive(Debug, Clone, Copy)]
pub struct CaseInsensitiveStr<'a>(&'a str);

impl View for CaseInsensitiveString {
    type V = Seq<char>;

    closed spec fn view(&self) -> Seq<char> {
        self.0@
    }
}

impl<'a> View for CaseInsensitiveStr<'a> {
    type V = Seq<char>;

    closed spec fn view(&self) -> Seq<char> {
        self.0@
    }
}

impl Default for CaseInsensitiveString {
    fn default() -> (r: Self)
        ensures
            r@ == Seq::<char>::empty(),
    {
        CaseInsensitiveString(String::new())
    }
}

impl<'a> PartialEq for CaseInsensitiveStr<'a> {
    fn eq(&self, other: &Self) -> (r: bool) {
        str_eq_ignore_case(self.0, other.0)
    }
}

impl<'a> PartialEqSpecImpl for CaseInsensitiveStr<'a> {
    open spec fn obeys_eq_spec() -> bool {
        true
    }

    open spec fn eq_spec(&self, other: &Self) -> bool {
        ci_eq(self@, other@)
    }
}

impl<'a> Eq for CaseInsensitiveStr<'a> {}

impl PartialEq for CaseInsensitiveString {
    fn eq(&self, other: &Self) -> (r: bool) {
        str_eq_ignore_case(self.0.as_str(), other.0.as_str())
    }
}

impl PartialEqSpecImpl for CaseInsensitiveString {
    open spec fn obeys_eq_spec() -> bool {
        true
    }

    open spec fn eq_spec(&self, other: &Self) -> bool {
        ci_eq(self@, other@)
    }
}

impl Eq for CaseInsensitiveString {}

/// The order of `CaseInsensitiveStr`: lexicographic over ASCII-lower-cased characters.
pub open spec fn ci_order(a: Seq<char>, b: Seq<char>) -> Ordering {
    if ci_sign(a, b) < 0 {
        Ordering::Less
    } else if ci_sign(a, b) == 0 {
        Ordering::Equal
    } else {
        Ordering::Greater
    }
}

/// Turns a value into its case-insensitive counterpart.
pub trait AsCaseInsensitive {
    type Target;

    fn case_insensitive(self) -> Self::Target;
}

impl AsCaseInsensitive for String {
    type Target = CaseInsensitiveString;

    fn case_insensitive(self) -> (r: CaseInsensitiveString)
        ensures
            r@ == self@,
    {
        CaseInsensitiveString(self)
    }
}

impl<'a> AsCaseInsensitive for &'a str {
    type Target = CaseInsensitiveStr<'a>;

    fn case_insensitive(self) -> (r: CaseInsensitiveStr<'a>)
        ensures
            r@ == self@,
    {
        CaseInsensitiveStr(self)
    }
}

impl CaseInsensitiveString {
    /// The underlying string.
    pub fn case_sensitive(self) -> (r: String)
        ensures
            r@ == self@,
    {
        self.0
    }

    /// The underlying string, borrowed.
    pub fn case_sensitive_ref(&self) -> (r: &String)
        ensures
            r@ == self@,
    {
        &self.0
    }

    /// The underlying string, borrowed mutably: what is written through it is the new value.
    pub fn case_sensitive_mut(&mut self) -> (r: &mut String)
        ensures
            r@ == old(self)@,
            final(self)@ == final(r)@,
    {
        &mut self.0
    }

    /// The string as a borrowed case-insensitive string (what `Deref`, `AsRef` and `Borrow`
    /// give in the standard library's idiom).
    pub fn as_ci_str(&self) -> (r: CaseInsensitiveStr<'_>)
        ensures
            r@ == self@,
    {
        CaseInsensitiveStr(self.0.as_str())
    }
}

impl<'a> CaseInsensitiveStr<'a> {
    /// The underlying string slice.
    pub fn case_sensitive(&self) -> (r: &'a str)
        ensures
            r@ == self@,
    {
        self.0
    }

    /// An owned copy.
    pub fn to_owned(&self) -> (r: CaseInsensitiveString)
        ensures
            r@ == self@,
    {
        CaseInsensitiveString(owned(self.0))
    }

    /// Compares without regard to ASCII case, character by character.
    pub fn cmp(&self, other: &Self) -> (r: Ordering)
        ensures
            r == ci_order(self@, other@),
    {
        let sign = ci_compare(self.0, other.0);
        if sign < 0 {
            Ordering::Less
        } else if sign == 0 {
            Ordering::Equal
        } else {
            Ordering::Greater
        }
    }
}

impl CaseInsensitiveString {
    /// Compares without regard to ASCII case.
    pub fn cmp(&self, other: &Self) -> (r: Ordering)
        ensures
            r == ci_order(self@, other@),
    {
        self.as_ci_str().cmp(&other.as_ci_str())
    }
}

/// Case-insensitive equality is reflexive, symmetric and transitive.
pub proof fn lemma_ci_eq_equivalence(a: Seq<char>, b: Seq<char>, c: Seq<char>)
    ensures
        ci_eq(a, a),
        ci_eq(a, b) ==> ci_eq(b, a),
        ci_eq(a, b) && ci_eq(b, c) ==> ci_eq(a, c),
{
}

/// The order agrees with equality: two strings compare `Equal` exactly when they are equal
/// without regard to ASCII case.
pub proof fn lemma_ci_order_equal(a: Seq<char>, b: Seq<char>)
    ensures
        (ci_order(a, b) == Ordering::Equal) == ci_eq(a, b),
{
    lemma_ci_sign_equal(a, b);
}

/// The order is antisymmetric: swapping the operands reverses the result.
pub proof fn lemma_ci_order_antisymmetric(a: Seq<char>, b: Seq<char>)
    ensures
        (ci_order(a, b) == Ordering::Less) == (ci_order(b, a) == Ordering::Greater),
        (ci_order(a, b) == Ordering::Equal) == (ci_order(b, a) == Ordering::Equal),
{
    lemma_ci_sign_antisymmetric(a, b);
}

/// The order is transitive, so with `lemma_ci_order_equal` and
/// `lemma_ci_order_antisymmetric` it is a total order on strings taken without regard to
/// ASCII case.
pub proof fn lemma_ci_order_transitive(a: Seq<char>, b: Seq<char>, c: Seq<char>)
    ensures
        ci_order(a, b) == Ordering::Less && ci_order(b, c) == Ordering::Less ==> ci_order(a, c) == Ordering::Less,
        ci_order(a, b) == Ordering::Equal && ci_order(b, c) == Ordering::Equal ==> ci_order(a, c) == Ordering::Equal,
{
    if ci_sign(a, b) < 0 && ci_sign(b, c) < 0 {
        lemma_ci_sign_transitive(a, b, c);
    }
    lemma_ci_sign_equal(a, b);
    lemma_ci_sign_equal(b, c);
    lemma_ci_sign_equal(a, c);
    lemma_ci_eq_equivalence(a, b, c);
}

/// `key` matches the name at position `i` of `m` without regard to ASCII case, and no name
/// before it.
pub open spec fn first_ci_key<T>(m: Seq<(CaseInsensitiveString, T)>, key: Seq<char>, i: int) -> bool {
    &&& 0 <= i < m.len()
    &&& ci_eq(m[i].0@, key)
    &&& forall|j: int| 0 <= j < i ==> !ci_eq(#[trigger] m[j].0@, key)
}

/// No name of `m` matches `key` without regard to ASCII case.
pub open spec fn no_ci_key<T>(m: Seq<(CaseInsensitiveString, T)>, key: Seq<char>) -> bool {
    forall|j: int| 0 <= j < m.len() ==> !ci_eq(#[trigger] m[j].0@, key)
}

/// The position of the first name of `m` that matches `key` without regard to ASCII case.
fn position_ci<T>(m: &Vec<(CaseInsensitiveString, T)>, key: &str) -> (r: Option<usize>)
    ensures
        match r {
            Some(i) => first_ci_key(m@, key@, i as int),
            None => no_ci_key(m@, key@),
        },
{
    let mut i: usize = 0;
    while i < m.len()
        invariant
            i <= m@.len(),
            forall|j: int| 0 <= j < i ==> !ci_eq(#[trigger] m@[j].0@, key@),
        decreases m@.len() - i,
    {
        if str_eq_ignore_case(m[i].0.0.as_str(), key) {
            return Some(i);
        }
        i = i + 1;
    }
    None
}

/// Lookups in a map keyed by case-insensitive strings, with a plain string as the key.
pub trait GetWithStr<T> {
    fn get_with_str(&self, key: &str) -> Option<&T>;

    fn get_mut_with_str(&mut self, key: &mut str) -> Option<&mut T>;
}

impl<T> GetWithStr<T> for Vec<(CaseInsensitiveString, T)> {
    /// The value under the first name that equals `key` without regard to ASCII case.
    fn get_with_str(&self, key: &str) -> (r: Option<&T>)
        ensures
            match r {
                Some(x) => exists|i: int| first_ci_key(self@, key@, i) && *x == self@[i].1,
                None => no_ci_key(self@, key@),
            },
    {
        match position_ci(self, key) {
            Some(i) => Some(&self[i].1),
            None => None,
        }
    }

    /// The value under the first name that equals `key` without regard to ASCII case, to be
    /// changed in place.
    fn get_mut_with_str(&mut self, key: &mut str) -> (r: Option<&mut T>)
        ensures
            final(key)@ == old(key)@,
            match r {
                Some(x) => exists|i: int|
                    first_ci_key(old(self)@, old(key)@, i) && *x == old(self)@[i].1 && final(self)@ == old(
                        self,
                    )@.update(i, (old(self)@[i].0, *final(x))),
                None => no_ci_key(old(self)@, old(key)@) && final(self)@ == old(self)@,
            },
    {
        match position_ci(self, key) {
            Some(i) => Some(&mut self[i].1),
            None => None,
        }
    }
}

} // verus!
