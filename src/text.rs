//! Case-insensitive matching of a copy header against block names.
use vstd::prelude::*;
use vstd::string::*;

verus! {

/// What `str::to_lowercase` makes of a text.
pub uninterp spec fn lower_of(s: Seq<char>) -> Seq<char>;

/// Relies on `String::from_utf8`: it accepts exactly the well-formed UTF-8
/// sequences and decodes them.
#[verifier::external_body]
pub(crate) fn decode_text(b: &[u8]) -> (r: Option<String>)
    ensures
        r is Some <==> vstd::utf8::valid_utf8(b@),
        r is Some ==> r->0@ == vstd::utf8::decode_utf8(b@),
{
    String::from_utf8(b.to_vec()).ok()
}

/// Relies on `str::to_lowercase`: the result depends on the characters alone.
#[verifier::external_body]
pub(crate) fn lowercase(s: &str) -> (r: String)
    ensures
        r@ == lower_of(s@),
{
    s.to_lowercase()
}

/// `pat` occurs in `hay` as a run of consecutive characters.
pub open spec fn contains_text(hay: Seq<char>, pat: Seq<char>) -> bool {
    exists|i: int| 0 <= i && i + pat.len() <= hay.len() && #[trigger] hay.subrange(i, i + pat.len()) == pat
}

/// Relies on `str::contains` with a `&str` pattern: whether the pattern
/// occurs as a substring.
#[verifier::external_body]
pub(crate) fn text_contains(hay: &str, pat: &str) -> (r: bool)
    ensures
        r == contains_text(hay@, pat@),
{
    hay.contains(pat)
}

/// Some text of `needles` occurs in `text`.
pub open spec fn any_occurs(text: Seq<char>, needles: Seq<Seq<char>>) -> bool {
    exists|k: int| 0 <= k < needles.len() && contains_text(text, #[trigger] needles[k])
}

pub open spec fn texts_of(v: Seq<String>) -> Seq<Seq<char>> {
    v.map_values(|s: String| s@)
}

/// The text that names block `block` of schema `schema` in a copy header.
pub open spec fn copy_needle(schema: Seq<char>, block: Seq<char>) -> Seq<char> {
    "COPY "@ + schema + "."@ + block + " "@
}

/// Whether some text of `needles` occurs in `text`.
pub fn occurs_any(text: &str, needles: &Vec<String>) -> (r: bool)
    ensures
        r == any_occurs(text@, texts_of(needles@)),
{
    let mut k: usize = 0;
    while k < needles.len()
        invariant
            k <= needles@.len(),
            forall|j: int| 0 <= j < k ==> !contains_text(text@, #[trigger] needles@[j]@),
        decreases needles@.len() - k,
    {
        if text_contains(text, needles[k].as_str()) {
            assert(texts_of(needles@)[k as int] == needles@[k as int]@);
            return true;
        }
        k = k + 1;
    }
    assert forall|j: int| 0 <= j < texts_of(needles@).len() implies !contains_text(text@, #[trigger] texts_of(needles@)[j]) by {
        assert(texts_of(needles@)[j] == needles@[j]@);
    }
    false
}

/// The lowered copy needle of each block name.
pub fn lowered_needles(schema: &str, blocks: &Vec<String>) -> (r: Vec<String>)
    ensures
        texts_of(r@) == texts_of(blocks@).map_values(|b: Seq<char>| lower_of(copy_needle(schema@, b))),
{
    let mut r: Vec<String> = Vec::new();
    let mut k: usize = 0;
    while k < blocks.len()
        invariant
            k <= blocks@.len(),
            r@.len() == k,
            forall|j: int| 0 <= j < k ==> #[trigger] r@[j]@ == lower_of(copy_needle(schema@, blocks@[j]@)),
        decreases blocks@.len() - k,
    {
        let needle = String::from_str("COPY ").concat(schema).concat(".").concat(blocks[k].as_str()).concat(" ");
        proof {
            reveal_strlit("COPY ");
            reveal_strlit(".");
            reveal_strlit(" ");
        }
        assert(needle@ == copy_needle(schema@, blocks@[k as int]@));
        r.push(lowercase(needle.as_str()));
        k = k + 1;
    }
    assert(texts_of(r@) =~= texts_of(blocks@).map_values(|b: Seq<char>| lower_of(copy_needle(schema@, b))));
    r
}

} // verus!
