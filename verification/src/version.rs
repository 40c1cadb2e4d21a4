//! The grammar of a schema version: three components separated by two dots.
//!
//! A component is a run of one or more ASCII digits. It may be of any length and
//! may start with zeros; it carries no sign.

use vstd::prelude::*;
use vstd::string::{is_ascii, is_ascii_spec_bytes, StrSliceExecFns, StringSliceAdditionalSpecFns};

verus! {

/// An ASCII decimal digit.
pub open spec fn is_digit(c: char) -> bool {
    '0' <= c <= '9'
}

/// One component of a version: a run of ASCII digits, at least one, of any length.
pub open spec fn is_component(s: Seq<char>) -> bool {
    &&& s.len() > 0
    &&& forall|i: int| 0 <= i < s.len() ==> is_digit(#[trigger] s[i])
}

/// Three components with a dot after the first and after the second.
pub open spec fn is_semver(s: Seq<char>) -> bool {
    exists|i: int, j: int| splits_at(s, i, j)
}

/// `s` is a component, a dot at `i`, a component, a dot at `j`, and a component.
pub open spec fn splits_at(s: Seq<char>, i: int, j: int) -> bool {
    &&& 0 <= i < j < s.len()
    &&& s[i] == '.'
    &&& s[j] == '.'
    &&& is_component(s.subrange(0, i))
    &&& is_component(s.subrange(i + 1, j))
    &&& is_component(s.subrange(j + 1, s.len() as int))
}

/// No character of a component is a dot, and every one is ASCII.
pub proof fn lemma_component_chars(s: Seq<char>, k: int)
    requires
        is_component(s),
        0 <= k < s.len(),
    ensures
        s[k] != '.',
        '\0' <= s[k] <= '\u{7f}',
{
    assert(is_digit(s[k]));
}

/// A version is made of ASCII characters and has exactly two dots, where it splits.
pub proof fn lemma_semver_shape(s: Seq<char>, i: int, j: int)
    requires
        splits_at(s, i, j),
    ensures
        vstd::utf8::is_ascii_chars(s),
        forall|k: int| 0 <= k < s.len() && #[trigger] s[k] == '.' ==> k == i || k == j,
{
    assert forall|k: int| 0 <= k < s.len() implies '\0' <= #[trigger] s[k] <= '\u{7f}' && (s[k]
        == '.' ==> k == i || k == j) by {
        if k < i {
            lemma_component_chars(s.subrange(0, i), k);
        } else if i < k < j {
            lemma_component_chars(s.subrange(i + 1, j), k - i - 1);
        } else if j < k {
            lemma_component_chars(s.subrange(j + 1, s.len() as int), k - j - 1);
        }
    }
}

/// Whether the characters of `s` from `start` up to `end` form a component.
fn component_at(s: &str, start: usize, end: usize) -> (ok: bool)
    requires
        is_ascii(s),
        start <= end <= s@.len(),
    ensures
        ok == is_component(s@.subrange(start as int, end as int)),
{
    let ghost part = s@.subrange(start as int, end as int);
    if start == end {
        return false;
    }
    let mut i: usize = start;
    while i < end
        invariant
            is_ascii(s),
            start <= i <= end <= s@.len(),
            part == s@.subrange(start as int, end as int),
            forall|k: int| 0 <= k < i - start ==> is_digit(#[trigger] part[k]),
        decreases end - i,
    {
        let b: u8 = s.get_ascii(i);
        proof {
            assert(part[i - start] == s@[i as int]);
            assert(s@[i as int] <= '\u{7f}');
        }
        if b < 48u8 || b > 57u8 {
            return false;
        }
        i += 1;
    }
    true
}

/// The position of the first dot at or after `start`, or the length of `s` if there is none.
fn next_dot(s: &str, start: usize) -> (end: usize)
    requires
        is_ascii(s),
        start <= s@.len(),
        s@.len() <= usize::MAX,
    ensures
        start <= end <= s@.len(),
        forall|k: int| start <= k < end ==> s@[k] != '.',
        end < s@.len() ==> s@[end as int] == '.',
{
    let n: usize = s.len();
    proof {
        is_ascii_spec_bytes(s);
    }
    let mut i: usize = start;
    while i < n
        invariant
            is_ascii(s),
            n == s@.len(),
            start <= i <= n,
            forall|k: int| start <= k < i ==> s@[k] != '.',
        decreases n - i,
    {
        let b: u8 = s.get_ascii(i);
        assert(s@[i as int] <= '\u{7f}');
        if b == 46u8 {
            return i;
        }
        i += 1;
    }
    i
}

/// Whether `s` is a version: exactly three components, separated by dots.
pub fn is_valid_schema_version(s: &str) -> (ok: bool)
    ensures
        ok == is_semver(s@),
{
    if !s.is_ascii() {
        proof {
            if is_semver(s@) {
                let (i, j) = choose|i: int, j: int| splits_at(s@, i, j);
                lemma_semver_shape(s@, i, j);
            }
        }
        return false;
    }
    proof {
        is_ascii_spec_bytes(s);
    }
    let n: usize = s.as_bytes().len();
    assert(n == s@.len());
    let first: usize = next_dot(s, 0);
    let second: usize = if first < n { next_dot(s, first + 1) } else { n };
    let third: usize = if second < n { next_dot(s, second + 1) } else { n };
    if first == n || second == n || third != n {
        proof {
            if is_semver(s@) {
                let (i, j) = choose|i: int, j: int| splits_at(s@, i, j);
                lemma_semver_shape(s@, i, j);
            }
        }
        return false;
    }
    let ok = component_at(s, 0, first) && component_at(s, first + 1, second) && component_at(
        s,
        second + 1,
        n,
    );
    proof {
        if ok {
            assert(splits_at(s@, first as int, second as int));
        }
        if is_semver(s@) {
            let (i, j) = choose|i: int, j: int| splits_at(s@, i, j);
            lemma_semver_shape(s@, i, j);
            assert(i == first && j == second);
        }
    }
    ok
}

} // verus!
