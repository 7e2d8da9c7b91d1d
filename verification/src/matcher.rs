use vstd::prelude::*;

verus! {

use crate::domain::domain_of;
use crate::domain::extract_domain;
use crate::patterns::compiled_only;
use crate::patterns::regex_accepts;
use crate::patterns::regex_compiles;
use crate::patterns::regex_matches;
use crate::patterns::regex_ok;
use crate::ruleset::decode_ruleset;
use crate::ruleset::ruleset_domains;
use crate::ruleset::ruleset_filters;
use crate::ruleset::ruleset_ok;
use crate::ruleset::ruleset_patterns;
use crate::stores::domain_flags_contents;
use crate::stores::url_set_contents;
use crate::stores::DomainFlags;
use crate::stores::UrlSet;

/// Taking one more element of a sequence adds exactly that element to the
/// set of the prefix taken so far.
proof fn lemma_take_to_set_step(s: Seq<Seq<char>>, i: int)
    requires
        0 <= i < s.len(),
    ensures
        s.take(i + 1).to_set() == s.take(i).to_set().insert(s[i]),
{
    assert forall|x: Seq<char>| s.take(i + 1).to_set().contains(x) implies s.take(
        i,
    ).to_set().insert(s[i]).contains(x) by {
        let j = choose|j: int| 0 <= j < s.take(i + 1).len() && #[trigger] s.take(i + 1)[j] == x;
        if j < i {
            assert(s.take(i)[j] == x);
            assert(s.take(i).contains(x));
        } else {
            assert(x == s[i]);
        }
    }
    assert forall|x: Seq<char>| s.take(i).to_set().insert(s[i]).contains(x) implies s.take(
        i + 1,
    ).to_set().contains(x) by {
        if x == s[i] {
            assert(s.take(i + 1)[i] == x);
            assert(s.take(i + 1).contains(x));
        } else {
            let j = choose|j: int| 0 <= j < s.take(i).len() && #[trigger] s.take(i)[j] == x;
            assert(s.take(i + 1)[j] == x);
            assert(s.take(i + 1).contains(x));
        }
    }
    assert(s.take(i + 1).to_set() =~= s.take(i).to_set().insert(s[i]));
}

/// Taking one more pattern extends the compiled prefix by it exactly when
/// it compiles.
proof fn lemma_compiled_only_step(s: Seq<Seq<char>>, i: int)
    requires
        0 <= i < s.len(),
    ensures
        regex_ok(s[i]) ==> compiled_only(s.take(i + 1)) == compiled_only(s.take(i)).push(s[i]),
        !regex_ok(s[i]) ==> compiled_only(s.take(i + 1)) == compiled_only(s.take(i)),
{
    reveal(Seq::filter);
    let t = s.take(i + 1);
    assert(t.len() == i + 1);
    assert(t.drop_last() =~= s.take(i));
    assert(t.last() == s[i]);
}

/// Some stored pattern matches the URL.
pub open spec fn pattern_hit(patterns: Seq<Seq<char>>, url: Seq<char>) -> bool {
    exists|i: int| 0 <= i < patterns.len() && regex_accepts(patterns[i], url)
}

/// The match-priority cascade over the three stores: an exact entry blocks;
/// else a rule for the URL's extracted domain decides, whatever the patterns
/// say; else any pattern match blocks; else the URL is allowed.
pub open spec fn verdict(
    filters: Set<Seq<char>>,
    domains: Map<Seq<char>, bool>,
    patterns: Seq<Seq<char>>,
    url: Seq<char>,
) -> bool {
    if filters.contains(url) {
        true
    } else if domains.contains_key(domain_of(url)) {
        domains[domain_of(url)]
    } else {
        pattern_hit(patterns, url)
    }
}

/// URL-filtering engine: an exact-match store, a domain rule store and a
/// pattern store, queried under the fixed precedence of `verdict`.
pub struct AdBlocker {
    filter_rules: UrlSet,
    regex_rules: Vec<String>,
    domain_rules: DomainFlags,
}

impl AdBlocker {
    /// The exact-match store's contents.
    pub closed spec fn filters(self) -> Set<Seq<char>> {
        url_set_contents(self.filter_rules)
    }

    /// The pattern store's contents, in insertion order.
    pub closed spec fn patterns(self) -> Seq<Seq<char>> {
        self.regex_rules.deep_view()
    }

    /// The domain rule store's contents.
    pub closed spec fn domains(self) -> Map<Seq<char>, bool> {
        domain_flags_contents(self.domain_rules)
    }

    /// Every stored pattern compiled.
    #[verifier::type_invariant]
    spec fn wf(self) -> bool {
        forall|i: int|
            0 <= i < self.regex_rules@.len() ==> regex_ok(#[trigger] self.regex_rules@[i]@)
    }

    /// A fresh matcher with all three stores empty.
    pub fn new() -> (r: AdBlocker)
        ensures
            r.filters() == Set::<Seq<char>>::empty(),
            r.patterns() == Seq::<Seq<char>>::empty(),
            r.domains() == Map::<Seq<char>, bool>::empty(),
    {
        let r = AdBlocker {
            filter_rules: UrlSet::new(),
            regex_rules: Vec::new(),
            domain_rules: DomainFlags::new(),
        };
        proof {
            assert(r.patterns() =~= Seq::<Seq<char>>::empty());
        }
        r
    }

    /// Inserts the literal URL into the exact-match store, idempotently; the
    /// other stores do not change.
    pub fn add_filter_rule(&mut self, rule: &str)
        ensures
            final(self).filters() == old(self).filters().insert(rule@),
            final(self).patterns() == old(self).patterns(),
            final(self).domains() == old(self).domains(),
    {
        proof {
            use_type_invariant(&*self);
        }
        self.filter_rules.insert(rule);
    }

    /// Compiles the pattern; on success appends it to the pattern store, on
    /// failure changes nothing. No error is surfaced either way.
    pub fn add_regex_rule(&mut self, pattern: &str)
        ensures
            regex_ok(pattern@) ==> final(self).patterns() == old(self).patterns().push(pattern@),
            !regex_ok(pattern@) ==> final(self).patterns() == old(self).patterns(),
            final(self).filters() == old(self).filters(),
            final(self).domains() == old(self).domains(),
    {
        proof {
            use_type_invariant(&*self);
        }
        if regex_compiles(pattern) {
            let mut rules: Vec<String> = Vec::new();
            core::mem::swap(&mut rules, &mut self.regex_rules);
            rules.push(pattern.to_owned());
            core::mem::swap(&mut rules, &mut self.regex_rules);
            proof {
                assert(self.patterns() =~= old(self).patterns().push(pattern@));
            }
        }
    }

    /// Sets the block/allow flag for the domain, overwriting any earlier
    /// entry; the other stores do not change.
    pub fn add_domain_rule(&mut self, domain: &str, block: bool)
        ensures
            final(self).domains() == old(self).domains().insert(domain@, block),
            final(self).filters() == old(self).filters(),
            final(self).patterns() == old(self).patterns(),
    {
        proof {
            use_type_invariant(&*self);
        }
        self.domain_rules.set_flag(domain, block);
    }

    /// Adds every string of `fs` to the exact-match store, in order.
    fn load_filters(&mut self, fs: &Vec<String>)
        ensures
            final(self).filters() == old(self).filters().union(fs.deep_view().to_set()),
            final(self).patterns() == old(self).patterns(),
            final(self).domains() == old(self).domains(),
    {
        proof {
            assert(fs.deep_view().take(0).to_set() =~= Set::<Seq<char>>::empty());
            assert(old(self).filters().union(Set::<Seq<char>>::empty()) =~= old(self).filters());
        }
        let n = fs.len();
        let mut i: usize = 0;
        while i < n
            invariant
                0 <= i <= n,
                n == fs@.len(),
                self.filters() == old(self).filters().union(fs.deep_view().take(i as int).to_set()),
                self.patterns() == old(self).patterns(),
                self.domains() == old(self).domains(),
            decreases n - i,
        {
            self.add_filter_rule(fs[i].as_str());
            proof {
                assert(fs.deep_view()[i as int] == fs@[i as int]@);
                lemma_take_to_set_step(fs.deep_view(), i as int);
                assert(old(self).filters().union(fs.deep_view().take(i as int).to_set()).insert(
                    fs@[i as int]@,
                ) =~= old(self).filters().union(fs.deep_view().take(i as int + 1).to_set()));
            }
            i += 1;
        }
        proof {
            assert(fs.deep_view().take(n as int) =~= fs.deep_view());
        }
    }

    /// Offers every string of `ps` to the pattern store, in order; the ones
    /// that compile are appended.
    fn load_patterns(&mut self, ps: &Vec<String>)
        ensures
            final(self).patterns() == old(self).patterns() + compiled_only(ps.deep_view()),
            final(self).filters() == old(self).filters(),
            final(self).domains() == old(self).domains(),
    {
        proof {
            assert(compiled_only(ps.deep_view().take(0)) =~= Seq::<Seq<char>>::empty());
            assert(old(self).patterns() + Seq::<Seq<char>>::empty() =~= old(self).patterns());
        }
        let n = ps.len();
        let mut i: usize = 0;
        while i < n
            invariant
                0 <= i <= n,
                n == ps@.len(),
                self.patterns() == old(self).patterns() + compiled_only(
                    ps.deep_view().take(i as int),
                ),
                self.filters() == old(self).filters(),
                self.domains() == old(self).domains(),
            decreases n - i,
        {
            self.add_regex_rule(ps[i].as_str());
            proof {
                assert(ps.deep_view()[i as int] == ps@[i as int]@);
                lemma_compiled_only_step(ps.deep_view(), i as int);
                if regex_ok(ps@[i as int]@) {
                    assert((old(self).patterns() + compiled_only(
                        ps.deep_view().take(i as int),
                    )).push(ps@[i as int]@) =~= old(self).patterns() + compiled_only(
                        ps.deep_view().take(i as int + 1),
                    ));
                }
            }
            i += 1;
        }
        proof {
            assert(ps.deep_view().take(n as int) =~= ps.deep_view());
        }
    }

    /// Sets every domain entry of `ds`, in order; `dm` names the map the
    /// entries carry.
    fn load_domains(&mut self, ds: &Vec<(String, bool)>, dm: Ghost<Map<Seq<char>, bool>>)
        requires
            forall|q: int| 0 <= q < ds@.len() ==> dm@.contains_pair(#[trigger] ds@[q].0@, ds@[q].1),
            forall|k: Seq<char>| #[trigger] dm@.contains_key(k) ==> exists|q: int|
                0 <= q < ds@.len() && ds@[q].0@ == k,
        ensures
            final(self).domains() == old(self).domains().union_prefer_right(dm@),
            final(self).filters() == old(self).filters(),
            final(self).patterns() == old(self).patterns(),
    {
        let n = ds.len();
        let mut i: usize = 0;
        while i < n
            invariant
                0 <= i <= n,
                n == ds@.len(),
                forall|q: int| 0 <= q < ds@.len() ==> dm@.contains_pair(
                    #[trigger] ds@[q].0@,
                    ds@[q].1,
                ),
                forall|k: Seq<char>| #[trigger] dm@.contains_key(k) ==> exists|q: int|
                    0 <= q < ds@.len() && ds@[q].0@ == k,
                forall|k: Seq<char>| #[trigger] self.domains().contains_key(k) <==> old(
                    self,
                ).domains().contains_key(k) || (exists|q: int| 0 <= q < i && ds@[q].0@ == k),
                forall|q: int| 0 <= q < i ==> self.domains().contains_key(#[trigger] ds@[q].0@)
                    && self.domains()[ds@[q].0@] == dm@[ds@[q].0@],
                forall|k: Seq<char>| #[trigger] self.domains().contains_key(k) && !dm@.contains_key(
                    k,
                ) ==> old(self).domains().contains_key(k) && self.domains()[k] == old(
                    self,
                ).domains()[k],
                self.filters() == old(self).filters(),
                self.patterns() == old(self).patterns(),
            decreases n - i,
        {
            self.add_domain_rule(ds[i].0.as_str(), ds[i].1);
            proof {
                assert(dm@.contains_pair(ds@[i as int].0@, ds@[i as int].1));
                assert forall|k: Seq<char>| #[trigger] self.domains().contains_key(k) implies old(
                    self,
                ).domains().contains_key(k) || (exists|q: int|
                    0 <= q < i + 1 && ds@[q].0@ == k) by {
                    if k == ds@[i as int].0@ {
                        assert(0 <= (i as int) < i + 1 && ds@[i as int].0@ == k);
                    }
                }
            }
            i += 1;
        }
        proof {
            assert forall|k: Seq<char>| #[trigger] self.domains().contains_key(k) <==> old(
                self,
            ).domains().union_prefer_right(dm@).contains_key(k) by {
                if dm@.contains_key(k) {
                    let q = choose|q: int| 0 <= q < ds@.len() && ds@[q].0@ == k;
                    assert(self.domains().contains_key(ds@[q].0@));
                }
            }
            assert forall|k: Seq<char>| #[trigger] self.domains().contains_key(k) implies self.domains()[k] == old(
                self,
            ).domains().union_prefer_right(dm@)[k] by {
                if dm@.contains_key(k) {
                    let q = choose|q: int| 0 <= q < ds@.len() && ds@[q].0@ == k;
                    assert(self.domains()[ds@[q].0@] == dm@[ds@[q].0@]);
                }
            }
            assert(self.domains() =~= old(self).domains().union_prefer_right(dm@));
        }
    }

    /// Decodes the ruleset document and fans its rules out to the three
    /// stores: every exact rule and every domain entry is taken, and each
    /// pattern that compiles is appended, in document order. A text that
    /// does not decode returns `false` and changes nothing: decode failure
    /// is atomic.
    pub fn load_rules_from_json(&mut self, json_str: &str) -> (r: bool)
        ensures
            r == ruleset_ok(json_str@),
            (!r ==> final(self).filters() == old(self).filters()),
            (!r ==> final(self).patterns() == old(self).patterns()),
            (!r ==> final(self).domains() == old(self).domains()),
            (r ==> final(self).filters() == old(self).filters().union(
                ruleset_filters(json_str@).to_set(),
            )),
            (r ==> final(self).patterns() == old(self).patterns() + compiled_only(
                ruleset_patterns(json_str@),
            )),
            (r ==> final(self).domains() == old(self).domains().union_prefer_right(
                ruleset_domains(json_str@),
            )),
    {
        match decode_ruleset(json_str) {
            None => false,
            Some(rules) => {
                let (fs, ps, ds) = rules;
                self.load_filters(&fs);
                self.load_patterns(&ps);
                self.load_domains(&ds, Ghost(ruleset_domains(json_str@)));
                true
            },
        }
    }

    /// Whether the URL is blocked: the exact store first, then a rule for
    /// the extracted domain, then the patterns; default allow. Total: every
    /// string gets a boolean.
    pub fn should_block_url(&self, url: &str) -> (r: bool)
        ensures
            r == verdict(self.filters(), self.domains(), self.patterns(), url@),
    {
        proof {
            use_type_invariant(self);
        }
        if self.filter_rules.contains(url) {
            return true;
        }
        let d = extract_domain(url);
        match self.domain_rules.lookup(d.as_str()) {
            Some(block) => {
                return block;
            },
            None => {},
        }
        let n = self.regex_rules.len();
        let mut i: usize = 0;
        while i < n
            invariant
                0 <= i <= n,
                n == self.regex_rules.len(),
                self.wf(),
                !self.filters().contains(url@),
                !self.domains().contains_key(domain_of(url@)),
                forall|j: int| 0 <= j < i ==> !regex_accepts(self.regex_rules@[j]@, url@),
            decreases n - i,
        {
            if regex_matches(self.regex_rules[i].as_str(), url) {
                proof {
                    assert(self.patterns()[i as int] == self.regex_rules@[i as int]@);
                    assert(regex_accepts(self.patterns()[i as int], url@));
                }
                return true;
            }
            i += 1;
        }
        proof {
            assert forall|j: int|
                0 <= j < self.patterns().len() implies !regex_accepts(
                self.patterns()[j],
                url@,
            ) by {
                assert(self.patterns()[j] == self.regex_rules@[j]@);
            }
            assert(!pattern_hit(self.patterns(), url@));
        }
        false
    }
}

} // verus!
