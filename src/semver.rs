//! Recognition of semantic versions (`MAJOR.MINOR.PATCH`, an optional
//! `-pre.release` and an optional `+build.metadata`).

use vstd::prelude::*;
use crate::text::{index_or_len, lemma_index_or_len, find_char};

verus! {

pub open spec fn is_digit(c: char) -> bool {
    '0' <= c <= '9'
}

pub open spec fn is_ident_char(c: char) -> bool {
    is_digit(c) || ('a' <= c <= 'z') || ('A' <= c <= 'Z') || c == '-'
}

pub open spec fn all_digits(s: Seq<char>) -> bool {
    forall|i: int| 0 <= i < s.len() ==> is_digit(#[trigger] s[i])
}

/// A non-empty run of digits without a leading zero (`0` itself is allowed).
pub open spec fn is_numeric(s: Seq<char>) -> bool {
    s.len() > 0 && all_digits(s) && (s.len() == 1 || s[0] != '0')
}

/// One identifier of a pre-release (`pre`) or of build metadata: non-empty,
/// of ASCII letters, digits and hyphens; a numeric pre-release identifier has
/// no leading zero.
pub open spec fn is_ident(s: Seq<char>, pre: bool) -> bool {
    &&& s.len() > 0
    &&& forall|i: int| 0 <= i < s.len() ==> is_ident_char(#[trigger] s[i])
    &&& (pre && all_digits(s) ==> is_numeric(s))
}

/// A dot-separated, non-empty list of identifiers.
pub open spec fn is_ident_list(s: Seq<char>, pre: bool) -> bool
    decreases s.len(),
{
    let d = index_or_len(s, '.');
    if 0 <= d < s.len() {
        is_ident(s.subrange(0, d), pre) && is_ident_list(s.subrange(d + 1, s.len() as int), pre)
    } else {
        is_ident(s, pre)
    }
}

/// `MAJOR.MINOR.PATCH`.
pub open spec fn is_core(s: Seq<char>) -> bool {
    let a = index_or_len(s, '.');
    let t = s.subrange(a + 1, s.len() as int);
    let b = index_or_len(t, '.');
    &&& a < s.len()
    &&& is_numeric(s.subrange(0, a))
    &&& b < t.len()
    &&& is_numeric(t.subrange(0, b))
    &&& is_numeric(t.subrange(b + 1, t.len() as int))
}

/// Whether `s` is a semantic version: a core, then an optional pre-release
/// after the first `-`, then optional build metadata after the first `+`.
pub open spec fn is_semver(s: Seq<char>) -> bool {
    let p = index_or_len(s, '+');
    let head = s.subrange(0, p);
    let m = index_or_len(head, '-');
    &&& is_core(head.subrange(0, m))
    &&& (m < head.len() ==> is_ident_list(head.subrange(m + 1, head.len() as int), true))
    &&& (p < s.len() ==> is_ident_list(s.subrange(p + 1, s.len() as int), false))
}

fn check_digits(s: &str) -> (r: bool)
    ensures
        r == all_digits(s@),
{
    let n = s.unicode_len();
    let mut i: usize = 0;
    while i < n
        invariant
            n == s@.len(),
            i <= n,
            forall|j: int| 0 <= j < i ==> is_digit(#[trigger] s@[j]),
        decreases n - i,
    {
        let c = s.get_char(i);
        if !('0' <= c && c <= '9') {
            return false;
        }
        i = i + 1;
    }
    true
}

fn check_numeric(s: &str) -> (r: bool)
    ensures
        r == is_numeric(s@),
{
    let n = s.unicode_len();
    if n == 0 || !check_digits(s) {
        return false;
    }
    n == 1 || s.get_char(0) != '0'
}

fn check_ident(s: &str, pre: bool) -> (r: bool)
    ensures
        r == is_ident(s@, pre),
{
    let n = s.unicode_len();
    if n == 0 {
        return false;
    }
    let mut i: usize = 0;
    while i < n
        invariant
            n == s@.len(),
            i <= n,
            forall|j: int| 0 <= j < i ==> is_ident_char(#[trigger] s@[j]),
        decreases n - i,
    {
        let c = s.get_char(i);
        if !(('0' <= c && c <= '9') || ('a' <= c && c <= 'z') || ('A' <= c && c <= 'Z') || c == '-') {
            return false;
        }
        i = i + 1;
    }
    if pre && check_digits(s) {
        check_numeric(s)
    } else {
        true
    }
}

fn check_ident_list(s: &str, pre: bool) -> (r: bool)
    ensures
        r == is_ident_list(s@, pre),
    decreases s@.len(),
{
    let n = s.unicode_len();
    let d = find_char(s, '.');
    proof { lemma_index_or_len(s@, '.'); }
    if d < n {
        check_ident(s.substring_char(0, d), pre) && check_ident_list(s.substring_char(d + 1, n), pre)
    } else {
        check_ident(s, pre)
    }
}

fn check_core(s: &str) -> (r: bool)
    ensures
        r == is_core(s@),
{
    let n = s.unicode_len();
    let a = find_char(s, '.');
    proof { lemma_index_or_len(s@, '.'); }
    if a >= n {
        return false;
    }
    let t = s.substring_char(a + 1, n);
    let tn = t.unicode_len();
    let b = find_char(t, '.');
    proof { lemma_index_or_len(t@, '.'); }
    if b >= tn {
        return false;
    }
    check_numeric(s.substring_char(0, a)) && check_numeric(t.substring_char(0, b))
        && check_numeric(t.substring_char(b + 1, tn))
}

/// Whether `s` is a semantic version, and so selects one exact package.
pub fn is_semver_text(s: &str) -> (r: bool)
    ensures
        r == is_semver(s@),
{
    let n = s.unicode_len();
    let p = find_char(s, '+');
    proof { lemma_index_or_len(s@, '+'); }
    let head = s.substring_char(0, p);
    let hn = head.unicode_len();
    let m = find_char(head, '-');
    proof { lemma_index_or_len(head@, '-'); }
    if !check_core(head.substring_char(0, m)) {
        return false;
    }
    if m < hn && !check_ident_list(head.substring_char(m + 1, hn), true) {
        return false;
    }
    if p < n && !check_ident_list(s.substring_char(p + 1, n), false) {
        return false;
    }
    true
}

} // verus!
