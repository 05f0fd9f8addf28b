//! The slug of a title: its ASCII letters and digits in lower case, every
//! run of other characters between two of them replaced by one hyphen.

use vstd::prelude::*;

verus! {

/// The character that stands between the words of a slug.
pub const SEPARATOR: char = '-';

/// Whether `c` is an ASCII letter or digit.
pub open spec fn is_alnum(c: char) -> bool {
    ||| '0' <= c <= '9'
    ||| 'a' <= c <= 'z'
    ||| 'A' <= c <= 'Z'
}

/// `c` in lower case, where it is an ASCII capital; else `c` itself.
pub open spec fn lower(c: char) -> char {
    if 'A' <= c <= 'Z' {
        ((c as u8) + 32) as char
    } else {
        c
    }
}

/// The slug of a title.
///
/// Read from the left: a character that is no letter or digit adds
/// nothing; a letter or digit is added in lower case, after a separator if
/// something was skipped since the last character added.
pub open spec fn slug_of(title: Seq<char>) -> Seq<char>
    decreases title.len(),
{
    if title.len() == 0 {
        Seq::empty()
    } else {
        let before = title.drop_last();
        let c = title.last();
        if !is_alnum(c) {
            slug_of(before)
        } else if slug_of(before).len() > 0 && !is_alnum(before.last()) {
            slug_of(before).push(SEPARATOR).push(lower(c))
        } else {
            slug_of(before).push(lower(c))
        }
    }
}

/// Whether `s` has the form of a slug: lower-case letters, digits and
/// separators only, no separator at either end and no two in a row.
pub open spec fn is_slug(s: Seq<char>) -> bool {
    &&& forall|i: int| 0 <= i < s.len() ==> (is_alnum(#[trigger] s[i]) && lower(s[i]) == s[i]) || s[i] == SEPARATOR
    &&& s.len() > 0 ==> s[0] != SEPARATOR && s.last() != SEPARATOR
    &&& forall|i: int| 0 <= i < s.len() - 1 ==> !(#[trigger] s[i] == SEPARATOR && s[i + 1] == SEPARATOR)
}

/// Whether `c` is an ASCII letter or digit.
pub fn char_is_alnum(c: char) -> (r: bool)
    ensures
        r == is_alnum(c),
{
    (c >= '0' && c <= '9') || (c >= 'a' && c <= 'z') || (c >= 'A' && c <= 'Z')
}

/// `c` in lower case, where it is an ASCII capital; else `c` itself.
pub fn char_lower(c: char) -> (r: char)
    ensures
        r == lower(c),
{
    if c >= 'A' && c <= 'Z' {
        ((c as u8) + 32) as char
    } else {
        c
    }
}

/// Derives the slug of `title`.
pub fn slugify(title: &str) -> (slug: String)
    ensures
        slug@ == slug_of(title@),
{
    broadcast use vstd::string::group_string_axioms;

    let mut slug = String::new();
    let mut after_gap = false;
    for c in it: title.chars()
        invariant
            it.seq() == title@,
            slug@ == slug_of(title@.take(it.index() as int)),
            after_gap == (it.index() > 0 && !is_alnum(title@[it.index() - 1])),
    {
        proof {
            let i = it.index() as int;
            assert(title@.take(i + 1).drop_last() == title@.take(i));
            assert(title@.take(i + 1).last() == c);
            assert(i > 0 ==> title@.take(i).last() == title@[i - 1]);
        }
        if char_is_alnum(c) {
            if after_gap && !slug.as_str().is_empty() {
                slug.push(SEPARATOR);
            }
            slug.push(char_lower(c));
            after_gap = false;
        } else {
            after_gap = true;
        }
    }
    assert(title@.take(title@.len() as int) == title@);
    slug
}

/// Every slug has the form of a slug, and ends in a letter or digit unless
/// it is empty.
pub proof fn lemma_slug_is_slug(title: Seq<char>)
    ensures
        is_slug(slug_of(title)),
    decreases title.len(),
{
    if title.len() > 0 {
        lemma_slug_is_slug(title.drop_last());
    }
}

/// Of a text in slug form, the slug of its first `k` characters is those
/// characters, less a separator at their end.
proof fn lemma_slug_of_prefix(s: Seq<char>, k: int)
    requires
        is_slug(s),
        0 <= k <= s.len(),
    ensures
        slug_of(s.take(k)) == if k > 0 && s[k - 1] == SEPARATOR {
            s.take(k - 1)
        } else {
            s.take(k)
        },
    decreases k,
{
    if k > 0 {
        lemma_slug_of_prefix(s, k - 1);
        let c = s[k - 1];
        assert(s.take(k).drop_last() == s.take(k - 1));
        assert(s.take(k).last() == c);
        if k > 1 {
            assert(s.take(k - 1).last() == s[k - 2]);
        }
        if c == SEPARATOR {
            assert(k > 1);
            assert(!(s[k - 2] == SEPARATOR && s[k - 2 + 1] == SEPARATOR));
        } else if k > 1 && s[k - 2] == SEPARATOR {
            assert(k > 2);
            assert(s.take(k - 2).push(SEPARATOR).push(lower(c)) == s.take(k));
        } else {
            assert(s.take(k - 1).push(lower(c)) == s.take(k));
        }
    }
}

/// A text in slug form is its own slug.
pub proof fn lemma_slug_fixed(s: Seq<char>)
    requires
        is_slug(s),
    ensures
        slug_of(s) == s,
{
    lemma_slug_of_prefix(s, s.len() as int);
    assert(s.take(s.len() as int) == s);
}

/// Deriving the slug of a slug changes nothing.
pub proof fn lemma_slug_idempotent(title: Seq<char>)
    ensures
        slug_of(slug_of(title)) == slug_of(title),
{
    lemma_slug_is_slug(title);
    lemma_slug_fixed(slug_of(title));
}

} // verus!
