//! Byte-level scanning of the status reply.
//!
//! The status reply is a line-oriented byte text.  This module holds the
//! small scanning vocabulary the parser is specified with: finding the first
//! occurrence of a separator byte, equality and prefix tests, and splitting
//! a fragment once at a separator.

use vstd::prelude::*;

verus! {

/// The index of the first occurrence of `sep` in `s`, if any.
pub open spec fn spec_find(s: Seq<u8>, sep: u8) -> Option<int>
    decreases s.len(),
{
    if s.len() == 0 {
        None
    } else if s[0] == sep {
        Some(0int)
    } else {
        match spec_find(s.skip(1), sep) {
            None => None,
            Some(j) => Some(j + 1),
        }
    }
}

/// What `spec_find` returns: the least index holding `sep`, or nothing when
/// no index holds it.
pub proof fn lemma_find(s: Seq<u8>, sep: u8)
    ensures
        match spec_find(s, sep) {
            Some(i) => 0 <= i < s.len() && s[i] == sep && (forall|j: int|
                0 <= j < i ==> s[j] != sep),
            None => forall|j: int| 0 <= j < s.len() ==> s[j] != sep,
        },
    decreases s.len(),
{
    if s.len() != 0 && s[0] != sep {
        let t = s.skip(1);
        lemma_find(t, sep);
        assert(forall|j: int| 0 <= j < t.len() ==> t[j] == s[j + 1]);
        match spec_find(t, sep) {
            Some(i) => {
                assert(s[i + 1] == t[i]);
                assert forall|j: int| 0 <= j < i + 1 implies s[j] != sep by {
                    if j > 0 {
                        assert(s[j] == t[j - 1]);
                    }
                }
            },
            None => {
                assert forall|j: int| 0 <= j < s.len() implies s[j] != sep by {
                    if j > 0 {
                        assert(s[j] == t[j - 1]);
                    }
                }
            },
        }
    }
}

/// A witness that `i` is the first occurrence pins `spec_find` down.
pub proof fn lemma_find_at(s: Seq<u8>, sep: u8, i: int)
    requires
        0 <= i < s.len(),
        s[i] == sep,
        forall|j: int| 0 <= j < i ==> s[j] != sep,
    ensures
        spec_find(s, sep) == Some(i),
    decreases s.len(),
{
    if i > 0 {
        assert(forall|j: int| 0 <= j < s.skip(1).len() ==> s.skip(1)[j] == s[j + 1]);
        lemma_find_at(s.skip(1), sep, i - 1);
    }
}

/// Absence of `sep` everywhere pins `spec_find` to nothing.
pub proof fn lemma_find_none(s: Seq<u8>, sep: u8)
    requires
        forall|j: int| 0 <= j < s.len() ==> s[j] != sep,
    ensures
        spec_find(s, sep).is_none(),
{
    lemma_find(s, sep);
    if spec_find(s, sep).is_some() {
        assert(s[spec_find(s, sep).unwrap()] == sep);
    }
}

/// Finds the first occurrence of `sep` in `s`.
pub fn find_byte(s: &[u8], sep: u8) -> (r: Option<usize>)
    ensures
        match r {
            Some(i) => spec_find(s@, sep) == Some(i as int),
            None => spec_find(s@, sep).is_none(),
        },
{
    let n = s.len();
    let mut i: usize = 0;
    while i < n
        invariant
            n == s@.len(),
            0 <= i <= n,
            forall|j: int| 0 <= j < i ==> s@[j] != sep,
        decreases n - i,
    {
        if s[i] == sep {
            proof {
                lemma_find_at(s@, sep, i as int);
            }
            return Some(i);
        }
        i = i + 1;
    }
    proof {
        lemma_find_none(s@, sep);
    }
    None
}

/// Whether two byte fragments hold the same bytes.
pub fn bytes_eq(a: &[u8], b: &[u8]) -> (r: bool)
    ensures
        r == (a@ == b@),
{
    let n = a.len();
    if n != b.len() {
        return false;
    }
    let mut i: usize = 0;
    while i < n
        invariant
            n == a@.len(),
            n == b@.len(),
            0 <= i <= n,
            forall|j: int| 0 <= j < i ==> a@[j] == b@[j],
        decreases n - i,
    {
        if a[i] != b[i] {
            return false;
        }
        i = i + 1;
    }
    proof {
        assert(a@ =~= b@);
    }
    true
}

/// Whether `p` is a prefix of `s`.
pub open spec fn spec_starts_with(s: Seq<u8>, p: Seq<u8>) -> bool {
    p.len() <= s.len() && s.subrange(0, p.len() as int) == p
}

/// Prefix test on byte fragments.
pub fn starts_with(s: &[u8], p: &[u8]) -> (r: bool)
    ensures
        r == spec_starts_with(s@, p@),
{
    let np = p.len();
    if np > s.len() {
        return false;
    }
    let head = vstd::slice::slice_subrange(s, 0, np);
    bytes_eq(head, p)
}

/// Appends a byte fragment to a growing byte text.
pub fn append_bytes(out: &mut Vec<u8>, b: &[u8])
    ensures
        final(out)@ == old(out)@ + b@,
{
    let n = b.len();
    let mut i: usize = 0;
    while i < n
        invariant
            n == b@.len(),
            0 <= i <= n,
            out@ == old(out)@ + b@.subrange(0, i as int),
        decreases n - i,
    {
        out.push(b[i]);
        proof {
            assert(out@ =~= old(out)@ + b@.subrange(0, i + 1));
        }
        i = i + 1;
    }
    proof {
        assert(b@.subrange(0, n as int) =~= b@);
    }
}

/// The key and the rest of a fragment split once at the first `sep`: the
/// bytes before it and the bytes after it.
pub open spec fn spec_split_once(s: Seq<u8>, sep: u8) -> Option<(Seq<u8>, Seq<u8>)> {
    match spec_find(s, sep) {
        None => None,
        Some(i) => Some((s.subrange(0, i), s.subrange(i + 1, s.len() as int))),
    }
}

/// Splits a fragment once at the first `sep`, into the bytes before and the
/// bytes after it.
pub fn split_once<'a>(s: &'a [u8], sep: u8) -> (r: Option<(&'a [u8], &'a [u8])>)
    ensures
        match r {
            Some((k, v)) => spec_split_once(s@, sep) == Some((k@, v@)),
            None => spec_split_once(s@, sep).is_none(),
        },
{
    match find_byte(s, sep) {
        None => None,
        Some(i) => {
            let n = s.len();
            proof {
                lemma_find(s@, sep);
                assert((i as int) < n as int);
            }
            let k = vstd::slice::slice_subrange(s, 0, i);
            let v = vstd::slice::slice_subrange(s, i + 1, n);
            Some((k, v))
        },
    }
}

} // verus!
