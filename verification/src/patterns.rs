use vstd::prelude::*;

verus! {

/// Whether `pattern` is a syntactically valid regular expression: whether
/// `regex::Regex::new` accepts it. Compilation depends on the pattern text
/// alone.
pub uninterp spec fn regex_ok(pattern: Seq<char>) -> bool;

/// Whether the regular expression `pattern` matches anywhere in `url`: what
/// `regex::Regex::is_match` returns for the pair. The outcome depends on the
/// two texts alone.
pub uninterp spec fn regex_accepts(pattern: Seq<char>, url: Seq<char>) -> bool;

/// The patterns of `s` that compile, in order.
pub open spec fn compiled_only(s: Seq<Seq<char>>) -> Seq<Seq<char>> {
    s.filter(|p: Seq<char>| regex_ok(p))
}

/// Relies on regex::Regex::new: it returns `Ok` or `Err` from the pattern
/// text alone and never panics.
#[verifier::external_body]
pub fn regex_compiles(pattern: &str) -> (r: bool)
    ensures
        r == regex_ok(pattern@),
{
    regex::Regex::new(pattern).is_ok()
}

/// Relies on regex::Regex::new and regex::Regex::is_match: a pattern that
/// compiles matches a haystack, or not, from the two texts alone.
#[verifier::external_body]
pub fn regex_matches(pattern: &str, url: &str) -> (r: bool)
    requires
        regex_ok(pattern@),
    ensures
        r == regex_accepts(pattern@, url@),
{
    match regex::Regex::new(pattern) {
        Ok(re) => re.is_match(url),
        Err(_) => false,
    }
}

} // verus!
