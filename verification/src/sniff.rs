//! Decides from the rendered fragment which optional bundles a document needs.
//!
//! The decision is a substring search over the serialized fragment, not a walk
//! over a tree: text that merely looks like a marker counts as one.

use vstd::prelude::*;
use vstd::string::StringSliceAdditionalSpecFns;

verus! {

/// `needle` stands in `hay` at offset `at`.
pub open spec fn occurs_at(hay: Seq<u8>, needle: Seq<u8>, at: int) -> bool {
    &&& 0 <= at
    &&& at + needle.len() <= hay.len()
    &&& forall|k: int| 0 <= k < needle.len() ==> hay[at + k] == needle[k]
}

/// `needle` stands somewhere in `hay`.
pub open spec fn contains_bytes(hay: Seq<u8>, needle: Seq<u8>) -> bool {
    exists|at: int| occurs_at(hay, needle, at)
}

/// The bytes that end a fenced code block in a rendered fragment.
pub open spec fn code_marker() -> Seq<u8> {
    "</code></pre>".spec_bytes()
}

/// The bytes that open a math escape in a rendered fragment.
pub open spec fn math_marker() -> Seq<u8> {
    "#{{".spec_bytes()
}

/// What a fragment was found to need.
#[derive(Clone, Copy, Debug, PartialEq, Eq, Structural)]
pub struct Sniffed {
    pub has_code: bool,
    pub has_math: bool,
}

/// What a fragment with these bytes needs: highlighting where it is allowed
/// and the fragment holds the end of a fenced code block, math rendering where
/// it is allowed and the fragment holds the math escape.
pub open spec fn sniffed(fragment: Seq<u8>, no_highlight: bool, no_mathjax: bool) -> Sniffed {
    Sniffed {
        has_code: !no_highlight && contains_bytes(fragment, code_marker()),
        has_math: !no_mathjax && contains_bytes(fragment, math_marker()),
    }
}

/// Tells whether `needle` stands in `hay` at offset `at`.
fn matches_at(hay: &[u8], needle: &[u8], at: usize) -> (found: bool)
    requires
        at + needle@.len() <= hay@.len(),
    ensures
        found == occurs_at(hay@, needle@, at as int),
{
    let total: usize = hay.len();
    let mut k: usize = 0;
    while k < needle.len()
        invariant
            k <= needle@.len(),
            at + needle@.len() <= hay@.len(),
            hay@.len() == total,
            forall|j: int| 0 <= j < k ==> hay@[at + j] == needle@[j],
        decreases needle@.len() - k,
    {
        if hay[at + k] != needle[k] {
            return false;
        }
        k += 1;
    }
    true
}

/// Tells whether `needle` stands somewhere in `hay`.
pub fn contains(hay: &[u8], needle: &[u8]) -> (found: bool)
    ensures
        found == contains_bytes(hay@, needle@),
{
    if needle.len() > hay.len() {
        assert(forall|at: int| !occurs_at(hay@, needle@, at));
        return false;
    }
    if needle.len() == 0 {
        assert(occurs_at(hay@, needle@, 0));
        return true;
    }
    let last: usize = hay.len() - needle.len();
    let mut at: usize = 0;
    while at <= last
        invariant
            last == hay@.len() - needle@.len(),
            needle@.len() > 0,
            hay@.len() <= usize::MAX,
            at <= last + 1,
            forall|j: int| 0 <= j < at ==> !occurs_at(hay@, needle@, j),
        decreases last + 1 - at,
    {
        if matches_at(hay, needle, at) {
            return true;
        }
        at += 1;
    }
    assert(forall|j: int| !occurs_at(hay@, needle@, j));
    false
}

/// Inspects a rendered fragment. Highlighting is needed when it is allowed and
/// the fragment holds the end of a fenced code block; math rendering is needed
/// when it is allowed and the fragment holds the math escape.
pub fn sniff(fragment: &str, no_highlight: bool, no_mathjax: bool) -> (found: Sniffed)
    ensures
        found == sniffed(fragment.spec_bytes(), no_highlight, no_mathjax),
{
    let bytes = fragment.as_bytes();
    let has_code = !no_highlight && contains(bytes, "</code></pre>".as_bytes());
    let has_math = !no_mathjax && contains(bytes, "#{{".as_bytes());
    Sniffed { has_code, has_math }
}

} // verus!
