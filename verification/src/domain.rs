use vstd::prelude::*;

verus! {

/// `p` stands at the start of `s`.
pub open spec fn has_prefix(s: Seq<char>, p: Seq<char>) -> bool {
    s.len() >= p.len() && s.subrange(0, p.len() as int) == p
}

/// The URL with one literal scheme prefix removed: `http://` if it stands
/// there, else `https://` if it stands there, else nothing. Only one prefix
/// is removed, and the comparison is case-sensitive.
pub open spec fn strip_scheme(url: Seq<char>) -> Seq<char> {
    if has_prefix(url, "http://"@) {
        url.skip("http://"@.len() as int)
    } else if has_prefix(url, "https://"@) {
        url.skip("https://"@.len() as int)
    } else {
        url
    }
}

/// Index of the first `/` in `s`, or `s.len()` if there is none.
pub open spec fn slash_idx(s: Seq<char>) -> int
    decreases s.len(),
{
    if s.len() == 0 {
        0
    } else if s[0] == '/' {
        0
    } else {
        1 + slash_idx(s.skip(1))
    }
}

/// The domain of a URL: what stands between the scheme prefix, if any, and
/// the first `/` of the remainder (the whole remainder if it has no `/`).
pub open spec fn domain_of(url: Seq<char>) -> Seq<char> {
    strip_scheme(url).take(slash_idx(strip_scheme(url)))
}

/// The first-slash index lies within the sequence, nothing before it is a
/// slash, and a slash stands at it unless there is none at all.
pub proof fn lemma_slash_idx_bounds(s: Seq<char>)
    ensures
        0 <= slash_idx(s) <= s.len(),
        forall|j: int| 0 <= j < slash_idx(s) ==> s[j] != '/',
        slash_idx(s) < s.len() ==> s[slash_idx(s)] == '/',
    decreases s.len(),
{
    if s.len() == 0 {
    } else if s[0] == '/' {
    } else {
        lemma_slash_idx_bounds(s.skip(1));
        assert forall|j: int| 0 <= j < slash_idx(s) implies s[j] != '/' by {
            if j > 0 {
                assert(s.skip(1)[j - 1] == s[j]);
                assert(s.skip(1)[j - 1] != '/');
            }
        }
        if slash_idx(s) < s.len() {
            assert(s.skip(1)[slash_idx(s) - 1] == s[slash_idx(s)]);
        }
    }
}

/// A position with no slash before it, holding a slash or standing at the
/// end, is the first-slash index.
proof fn lemma_slash_idx_of(s: Seq<char>, i: int)
    requires
        0 <= i <= s.len(),
        forall|j: int| 0 <= j < i ==> s[j] != '/',
        i < s.len() ==> s[i] == '/',
    ensures
        slash_idx(s) == i,
    decreases s.len(),
{
    if s.len() == 0 {
    } else if s[0] == '/' {
        if i > 0 {
            assert(s[0] != '/');
        }
    } else {
        assert(i >= 1) by {
            if i == 0 {
                assert(s[0] == '/');
            }
        }
        assert forall|j: int| 0 <= j < i - 1 implies s.skip(1)[j] != '/' by {
            assert(s.skip(1)[j] == s[j + 1]);
        }
        assert(i - 1 < s.skip(1).len() ==> s.skip(1)[i - 1] == '/') by {
            if i - 1 < s.skip(1).len() {
                assert(s.skip(1)[i - 1] == s[i]);
            }
        }
        lemma_slash_idx_of(s.skip(1), i - 1);
    }
}

/// Whether `s` starts with `prefix`, character for character.
fn starts_with_str(s: &str, prefix: &str) -> (r: bool)
    ensures
        r == has_prefix(s@, prefix@),
{
    let n = prefix.unicode_len();
    if s.unicode_len() < n {
        return false;
    }
    let mut i: usize = 0;
    while i < n
        invariant
            0 <= i <= n,
            n == prefix@.len(),
            s@.len() >= n,
            forall|j: int| 0 <= j < i ==> s@[j] == prefix@[j],
        decreases n - i,
    {
        if s.get_char(i) != prefix.get_char(i) {
            assert(s@.subrange(0, n as int)[i as int] != prefix@[i as int]);
            return false;
        }
        i += 1;
    }
    assert(s@.subrange(0, n as int) =~= prefix@);
    true
}

/// Index of the first `/` of `s`, or its length if there is none.
fn find_slash(s: &str) -> (r: usize)
    ensures
        r == slash_idx(s@),
{
    let n = s.unicode_len();
    let mut i: usize = 0;
    while i < n
        invariant
            0 <= i <= n,
            n == s@.len(),
            forall|j: int| 0 <= j < i ==> s@[j] != '/',
        decreases n - i,
    {
        if s.get_char(i) == '/' {
            proof {
                lemma_slash_idx_of(s@, i as int);
            }
            return i;
        }
        i += 1;
    }
    proof {
        lemma_slash_idx_of(s@, n as int);
    }
    n
}

/// The domain part of a URL, per the fixed extraction rule: drop one leading
/// `http://` or `https://` if present, then keep everything up to (and
/// excluding) the first `/`. Total: every string yields a domain.
pub fn extract_domain(url: &str) -> (r: String)
    ensures
        r@ == domain_of(url@),
{
    proof {
        reveal_strlit("http://");
        reveal_strlit("https://");
    }
    let n = url.unicode_len();
    let rest: &str = if starts_with_str(url, "http://") {
        url.substring_char(7, n)
    } else if starts_with_str(url, "https://") {
        url.substring_char(8, n)
    } else {
        url
    };
    assert(rest@ =~= strip_scheme(url@));
    let e = find_slash(rest);
    proof {
        lemma_slash_idx_bounds(rest@);
    }
    let d = rest.substring_char(0, e);
    assert(d@ =~= domain_of(url@));
    d.to_owned()
}

} // verus!
