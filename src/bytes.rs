//! Prefix and suffix tests on byte records, and the fixed markers of a dump.
use vstd::prelude::*;

verus! {

/// The bytes of an ASCII text.
pub open spec fn ascii_bytes(s: Seq<char>) -> Seq<u8> {
    s.map_values(|c: char| c as u8)
}

pub open spec fn has_prefix(line: Seq<u8>, pat: Seq<u8>) -> bool {
    pat.len() <= line.len() && line.subrange(0, pat.len() as int) == pat
}

pub open spec fn has_suffix(line: Seq<u8>, pat: Seq<u8>) -> bool {
    pat.len() <= line.len() && line.subrange(line.len() - pat.len(), line.len() as int) == pat
}

/// Whether `line` begins with `pat`.
pub fn starts_with(line: &[u8], pat: &[u8]) -> (r: bool)
    ensures
        r == has_prefix(line@, pat@),
{
    if pat.len() > line.len() {
        return false;
    }
    let mut i: usize = 0;
    while i < pat.len()
        invariant
            pat@.len() <= line@.len(),
            i <= pat@.len(),
            forall|k: int| 0 <= k < i ==> line@[k] == pat@[k],
        decreases pat@.len() - i,
    {
        if line[i] != pat[i] {
            assert(line@.subrange(0, pat@.len() as int)[i as int] != pat@[i as int]);
            return false;
        }
        i = i + 1;
    }
    assert(line@.subrange(0, pat@.len() as int) =~= pat@);
    true
}

/// Whether `line` ends with `pat`.
pub fn ends_with(line: &[u8], pat: &[u8]) -> (r: bool)
    ensures
        r == has_suffix(line@, pat@),
{
    if pat.len() > line.len() {
        return false;
    }
    let n: usize = line.len();
    let off: usize = n - pat.len();
    let mut i: usize = 0;
    while i < pat.len()
        invariant
            n == line@.len(),
            pat@.len() <= line@.len(),
            off + pat@.len() == line@.len(),
            i <= pat@.len(),
            forall|k: int| 0 <= k < i ==> line@[off + k] == pat@[k],
        decreases pat@.len() - i,
    {
        if line[off + i] != pat[i] {
            assert(line@.subrange(off as int, line@.len() as int)[i as int] != pat@[i as int]);
            return false;
        }
        i = i + 1;
    }
    assert(line@.subrange(off as int, line@.len() as int) =~= pat@);
    true
}

/// The bytes of `s`, a text of ASCII characters.
pub fn ascii_marker(s: &str) -> (r: &[u8])
    requires
        vstd::utf8::is_ascii_chars(s@),
    ensures
        r@ == ascii_bytes(s@),
{
    proof {
        vstd::string::is_ascii_spec_bytes(s);
    }
    let r = s.as_bytes();
    assert(r@ =~= ascii_bytes(s@));
    r
}

} // verus!
