//! Small helpers on owned text, each with the view of what it returns.

use vstd::prelude::*;

verus! {

/// The view of an optional text.
pub open spec fn opt_text(o: Option<String>) -> Option<Seq<char>> {
    match o {
        Some(s) => Some(s@),
        None => None,
    }
}

/// A copy of an optional text.
pub fn clone_opt(o: &Option<String>) -> (r: Option<String>)
    ensures
        r == *o,
{
    match o {
        Some(s) => Some(s.clone()),
        None => None,
    }
}

/// Whether two texts hold the same characters.
pub fn same_text(a: &str, b: &str) -> (r: bool)
    ensures
        r == (a@ == b@),
{
    a.eq(b)
}

/// `stored`, or `change` where there is one.
pub open spec fn replaced(stored: Seq<char>, change: Option<Seq<char>>) -> Seq<char> {
    match change {
        Some(text) => text,
        None => stored,
    }
}

/// `stored`, or `change` where there is one.
pub open spec fn replaced_opt(stored: Option<Seq<char>>, change: Option<Seq<char>>) -> Option<
    Seq<char>,
> {
    match change {
        Some(text) => Some(text),
        None => stored,
    }
}

/// A copy of `stored`, or of `change` where there is one.
pub fn replace_text(stored: &String, change: &Option<String>) -> (r: String)
    ensures
        r@ == replaced(stored@, opt_text(*change)),
{
    match change {
        Some(text) => text.clone(),
        None => stored.clone(),
    }
}

/// A copy of `stored`, or of `change` where there is one.
pub fn replace_opt(stored: &Option<String>, change: &Option<String>) -> (r: Option<String>)
    ensures
        opt_text(r) == replaced_opt(opt_text(*stored), opt_text(*change)),
{
    match change {
        Some(text) => Some(text.clone()),
        None => clone_opt(stored),
    }
}

} // verus!
