use vstd::prelude::*;
use vstd::string::StrSliceExecFns;
use vstd::utf8::encode_utf8;
use axum::http::HeaderValue;

verus! {

/// Whether `s` ends with `suffix`.
pub open spec fn ends_with(s: Seq<char>, suffix: Seq<char>) -> bool {
    suffix.len() <= s.len() && s.subrange(s.len() - suffix.len(), s.len() as int) == suffix
}

/// A path names a navigable document when it ends in `.html` or `/`, or
/// has no `.` at all (an extension-less route to an index document).
pub open spec fn html_like(path: Seq<char>) -> bool {
    ends_with(path, seq!['.', 'h', 't', 'm', 'l']) || ends_with(path, seq!['/'])
        || !path.contains('.')
}

/// The policy that a path gets: the document policy for HTML-like paths,
/// the asset policy for all others.
pub open spec fn chosen_policy(asset: Seq<char>, html: Seq<char>, path: Seq<char>) -> Seq<char> {
    if html_like(path) {
        html
    } else {
        asset
    }
}

/// A byte that may stand in a header value: visible ASCII, obs-text, or tab.
pub open spec fn header_byte_ok(b: u8) -> bool {
    (b >= 32 && b != 127) || b == 9
}

/// Text that can be encoded as a header value: each of its UTF-8 bytes may stand in one.
pub open spec fn header_text_ok(s: Seq<char>) -> bool {
    forall|i: int| 0 <= i < encode_utf8(s).len() ==> header_byte_ok(#[trigger] encode_utf8(s)[i])
}

/// Relies on http::HeaderValue::from_str, which accepts the text exactly when
/// every byte is at least 32 and not 127, or is a tab.
#[verifier::external_body]
pub(crate) fn header_value_accepts(s: &str) -> (r: bool)
    ensures
        r == header_text_ok(s@),
{
    HeaderValue::from_str(s).is_ok()
}

fn ends_with_exec(s: &str, suffix: &str) -> (r: bool)
    ensures
        r == ends_with(s@, suffix@),
{
    let n = s.unicode_len();
    let m = suffix.unicode_len();
    if m > n {
        return false;
    }
    let mut j: usize = 0;
    while j < m
        invariant
            m <= n,
            n == s@.len(),
            m == suffix@.len(),
            j <= m,
            forall|k: int| 0 <= k < j ==> s@[n - m + k] == suffix@[k],
        decreases m - j,
    {
        if s.get_char(n - m + j) != suffix.get_char(j) {
            assert(s@.subrange(n - m, n as int)[j as int] != suffix@[j as int]);
            return false;
        }
        j = j + 1;
    }
    assert(s@.subrange(n - m, n as int) =~= suffix@);
    true
}

fn contains_char(s: &str, c: char) -> (r: bool)
    ensures
        r == s@.contains(c),
{
    let n = s.unicode_len();
    let mut i: usize = 0;
    while i < n
        invariant
            n == s@.len(),
            i <= n,
            forall|k: int| 0 <= k < i ==> s@[k] != c,
        decreases n - i,
    {
        if s.get_char(i) == c {
            assert(s@[i as int] == c);
            return true;
        }
        i = i + 1;
    }
    false
}

/// Classifies a request path: `true` for a navigable document, `false` for an asset.
pub fn is_html_like(path: &str) -> (r: bool)
    ensures
        r == html_like(path@),
{
    proof {
        reveal_strlit(".html");
        reveal_strlit("/");
    }
    assert(".html"@ =~= seq!['.', 'h', 't', 'm', 'l']);
    assert("/"@ =~= seq!['/']);
    ends_with_exec(path, ".html") || ends_with_exec(path, "/") || !contains_char(path, '.')
}

/// The two cache policies of a deployment: one for assets, one for documents.
/// A single uniform policy is the case where both are the same text.
pub struct CacheControl {
    pub static_cache: String,
    pub html_cache: String,
}

impl CacheControl {
    pub fn new(static_cache: String, html_cache: String) -> (r: CacheControl)
        ensures
            r.static_cache@ == static_cache@,
            r.html_cache@ == html_cache@,
    {
        CacheControl { static_cache, html_cache }
    }

    /// One policy for every response, whatever its path.
    pub fn uniform(policy: String) -> (r: CacheControl)
        ensures
            r.static_cache@ == policy@,
            r.html_cache@ == policy@,
    {
        let html_cache = policy.clone();
        CacheControl { static_cache: policy, html_cache }
    }

    /// The policy text for a request path.
    pub fn policy_for(&self, path: &str) -> (r: &String)
        ensures
            r@ == chosen_policy(self.static_cache@, self.html_cache@, path@),
    {
        if is_html_like(path) {
            &self.html_cache
        } else {
            &self.static_cache
        }
    }
}

} // verus!
