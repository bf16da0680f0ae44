//! Slugs: the lowercase, dash-joined stem that a note's file name is built on.

use vstd::prelude::*;

verus! {

/// The slug that the `slug` crate derives from a title. It depends on the
/// title's characters and on nothing else; the transliteration tables behind
/// it are the crate's own and are not restated here.
pub uninterp spec fn slug_of(title: Seq<char>) -> Seq<char>;

/// The characters a slug is made of.
pub open spec fn is_slug_char(c: char) -> bool {
    ('a' <= c && c <= 'z') || ('0' <= c && c <= '9') || c == '-'
}

/// The shape of every slug: lowercase letters, digits and single dashes, with
/// no dash at either end.
pub open spec fn is_slug(s: Seq<char>) -> bool {
    &&& forall|i: int| 0 <= i < s.len() ==> is_slug_char(#[trigger] s[i])
    &&& forall|i: int| 0 <= i < s.len() - 1 ==> !(#[trigger] s[i] == '-' && s[i + 1] == '-')
    &&& s.len() > 0 ==> s.first() != '-' && s.last() != '-'
}

/// Calls `slug::slugify`. Trusted: the result is the crate's slug for exactly
/// these characters, and it has the shape the crate documents (only `a-z`,
/// `0-9` and `-`, never two dashes in a row, none leading or trailing).
#[verifier::external_body]
fn slugify_call(title: &str) -> (slug: String)
    ensures
        slug@ == slug_of(title@),
        is_slug(slug@),
{
    slug::slugify(title)
}

/// The slug of a raw title. The same title always gives the same slug.
pub fn slugify(title: &str) -> (slug: String)
    ensures
        slug@ == slug_of(title@),
        is_slug(slug@),
{
    slugify_call(title)
}

/// Titles with the same characters have the same slug: slugging has no hidden
/// state.
pub proof fn lemma_slug_deterministic(first: Seq<char>, second: Seq<char>)
    requires
        first =~= second,
    ensures
        slug_of(first) == slug_of(second),
{
}

} // verus!
