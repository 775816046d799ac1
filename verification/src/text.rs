//! Comparing and copying the plain values that attribute declarations are made of.

use vstd::prelude::*;

verus! {

/// A double-precision number, held as its IEEE 754 bit pattern. The resolver never
/// computes with such a number: it only carries it along and compares it, and two
/// numbers are the same exactly when their bit patterns are.
#[derive(Clone, Copy, Debug, PartialEq, Eq, Hash, Structural)]
pub struct Double {
    /// The bit pattern of the number.
    pub bits: u64,
}

/// Whether two optional texts are the same.
pub fn same_opt_text(a: &Option<String>, b: &Option<String>) -> (same: bool)
    ensures
        same == (a.deep_view() == b.deep_view()),
{
    match (a, b) {
        (None, None) => true,
        (Some(x), Some(y)) => *x == *y,
        _ => false,
    }
}

/// Whether two lists of texts are the same.
pub fn same_texts(a: &Vec<String>, b: &Vec<String>) -> (same: bool)
    ensures
        same == (a.deep_view() == b.deep_view()),
{
    if a.len() != b.len() {
        assert(a.deep_view().len() != b.deep_view().len());
        return false;
    }
    let mut i: usize = 0;
    while i < a.len()
        invariant
            a.len() == b.len(),
            i <= a.len(),
            forall|j: int| 0 <= j < i ==> a[j]@ == b[j]@,
        decreases a.len() - i,
    {
        if !(a[i] == b[i]) {
            assert(a.deep_view()[i as int] != b.deep_view()[i as int]);
            return false;
        }
        i += 1;
    }
    assert(a.deep_view() =~= b.deep_view());
    true
}

/// Whether two lists of integers are the same.
pub fn same_ints(a: &Vec<i64>, b: &Vec<i64>) -> (same: bool)
    ensures
        same == (a@ == b@),
{
    if a.len() != b.len() {
        return false;
    }
    let mut i: usize = 0;
    while i < a.len()
        invariant
            a.len() == b.len(),
            i <= a.len(),
            forall|j: int| 0 <= j < i ==> a[j] == b[j],
        decreases a.len() - i,
    {
        if a[i] != b[i] {
            return false;
        }
        i += 1;
    }
    assert(a@ =~= b@);
    true
}

/// Whether two lists of truth values are the same.
pub fn same_bools(a: &Vec<bool>, b: &Vec<bool>) -> (same: bool)
    ensures
        same == (a@ == b@),
{
    if a.len() != b.len() {
        return false;
    }
    let mut i: usize = 0;
    while i < a.len()
        invariant
            a.len() == b.len(),
            i <= a.len(),
            forall|j: int| 0 <= j < i ==> a[j] == b[j],
        decreases a.len() - i,
    {
        if a[i] != b[i] {
            return false;
        }
        i += 1;
    }
    assert(a@ =~= b@);
    true
}

/// Whether two lists of double-precision numbers are the same.
pub fn same_doubles(a: &Vec<Double>, b: &Vec<Double>) -> (same: bool)
    ensures
        same == (a@ == b@),
{
    if a.len() != b.len() {
        return false;
    }
    let mut i: usize = 0;
    while i < a.len()
        invariant
            a.len() == b.len(),
            i <= a.len(),
            forall|j: int| 0 <= j < i ==> a[j] == b[j],
        decreases a.len() - i,
    {
        if a[i].bits != b[i].bits {
            return false;
        }
        i += 1;
    }
    assert(a@ =~= b@);
    true
}

/// A copy of an optional text.
pub fn copy_opt_text(a: &Option<String>) -> (copy: Option<String>)
    ensures
        copy.deep_view() == a.deep_view(),
{
    match a {
        Some(text) => Some(text.clone()),
        None => None,
    }
}

/// A copy of a list of texts.
pub fn copy_texts(a: &Vec<String>) -> (copy: Vec<String>)
    ensures
        copy.deep_view() == a.deep_view(),
{
    let copy = a.clone();
    assert(copy.deep_view() =~= a.deep_view());
    copy
}

} // verus!
