use vstd::prelude::*;

verus! {

use crate::domain::domain_of;
use crate::matcher::verdict;

/// An exact-match rule blocks the very URL it names: the exact store is
/// consulted first, so neither a domain rule nor any pattern can override
/// it.
pub proof fn lemma_exact_rule_blocks(
    filters: Set<Seq<char>>,
    domains: Map<Seq<char>, bool>,
    patterns: Seq<Seq<char>>,
    url: Seq<char>,
)
    ensures
        verdict(filters.insert(url), domains, patterns, url),
{
}

/// A rule for a URL's extracted domain decides that URL, unless the exact
/// store holds the very URL: a flag of `false` overrides even a matching
/// pattern, and a flag of `true` needs no pattern.
pub proof fn lemma_domain_rule_decides(
    filters: Set<Seq<char>>,
    domains: Map<Seq<char>, bool>,
    patterns: Seq<Seq<char>>,
    url: Seq<char>,
    domain: Seq<char>,
    block: bool,
)
    requires
        !filters.contains(url),
        domain_of(url) == domain,
    ensures
        verdict(filters, domains.insert(domain, block), patterns, url) == block,
{
}

/// Adding the same exact-match rule twice leaves the store exactly as one
/// addition leaves it; since `add_filter_rule` touches nothing else, the
/// second call changes nothing observable.
pub proof fn lemma_filter_rule_idempotent(filters: Set<Seq<char>>, url: Seq<char>)
    ensures
        filters.insert(url).insert(url) == filters.insert(url),
{
    assert(filters.insert(url).insert(url) =~= filters.insert(url));
}

} // verus!
