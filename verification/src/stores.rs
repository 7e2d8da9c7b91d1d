use vstd::prelude::*;
use hashbrown::HashMap;
use hashbrown::HashSet;

verus! {

/// What a `UrlSet` holds, as a set of character sequences.
pub uninterp spec fn url_set_contents(s: UrlSet) -> Set<Seq<char>>;

/// Exact-match store: a set of literal URL strings, held in a
/// `hashbrown::HashSet<String>` that Verus does not read. The wrappers below
/// state what each call does to `url_set_contents`.
#[verifier::external_body]
pub struct UrlSet {
    inner: HashSet<String>,
}

impl UrlSet {
    /// Relies on hashbrown::HashSet::new: the new set holds nothing.
    #[verifier::external_body]
    pub fn new() -> (r: UrlSet)
        ensures
            url_set_contents(r) == Set::<Seq<char>>::empty(),
    {
        UrlSet { inner: HashSet::new() }
    }

    /// Relies on hashbrown::HashSet::insert: afterwards the value is a
    /// member; no other membership changes. The call returns normally on
    /// every input.
    #[verifier::external_body]
    pub fn insert(&mut self, url: &str)
        ensures
            url_set_contents(*final(self)) == url_set_contents(*old(self)).insert(url@),
        no_unwind
    {
        self.inner.insert(url.to_owned());
    }

    /// Relies on hashbrown::HashSet::contains: exact membership test.
    #[verifier::external_body]
    pub fn contains(&self, url: &str) -> (r: bool)
        ensures
            r == url_set_contents(*self).contains(url@),
    {
        self.inner.contains(url)
    }
}

/// What a `DomainFlags` holds, as a map from domain text to its flag.
pub uninterp spec fn domain_flags_contents(m: DomainFlags) -> Map<Seq<char>, bool>;

/// The empty domain-flag map.
pub open spec fn no_flags() -> Map<Seq<char>, bool> {
    Map::empty()
}

/// Domain rule store: a block/allow flag per domain string, held in a
/// `hashbrown::HashMap<String, bool>` that Verus does not read. The wrappers
/// below state what each call does to `domain_flags_contents`.
#[verifier::external_body]
pub struct DomainFlags {
    inner: HashMap<String, bool>,
}

impl DomainFlags {
    /// Relies on hashbrown::HashMap::new: the new map holds nothing.
    #[verifier::external_body]
    pub fn new() -> (r: DomainFlags)
        ensures
            domain_flags_contents(r) == no_flags(),
    {
        DomainFlags { inner: HashMap::new() }
    }

    /// Relies on hashbrown::HashMap::insert: afterwards the key carries the
    /// given flag, overwriting any earlier one; no other entry changes.
    #[verifier::external_body]
    pub fn set_flag(&mut self, domain: &str, block: bool)
        ensures
            domain_flags_contents(*final(self)) == domain_flags_contents(*old(self)).insert(
                domain@,
                block,
            ),
        no_unwind
    {
        self.inner.insert(domain.to_owned(), block);
    }

    /// Relies on hashbrown::HashMap::get: the stored flag, or nothing when
    /// the key has no entry.
    #[verifier::external_body]
    pub fn lookup(&self, domain: &str) -> (r: Option<bool>)
        ensures
            match r {
                Some(b) => domain_flags_contents(*self).contains_key(domain@)
                    && domain_flags_contents(*self)[domain@] == b,
                None => !domain_flags_contents(*self).contains_key(domain@),
            },
    {
        self.inner.get(domain).copied()
    }
}

} // verus!
