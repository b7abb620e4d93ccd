//! The URL matcher: normalisation of URLs and patterns, and the allow/deny
//! rule over a snapshot of blacklist and whitelist entries.

use vstd::prelude::*;
use vstd::slice::slice_subrange;
use crate::text::{chars_of, starts_with_at, views};

verus! {

/// The scheme token `https://`.
pub open spec fn https_scheme() -> Seq<char> {
    seq!['h', 't', 't', 'p', 's', ':', '/', '/']
}

/// The scheme token `http://`.
pub open spec fn http_scheme() -> Seq<char> {
    seq!['h', 't', 't', 'p', ':', '/', '/']
}

/// The host label `www.`.
pub open spec fn www_label() -> Seq<char> {
    seq!['w', 'w', 'w', '.']
}

/// `s` without one leading scheme token, if it has one.
pub open spec fn strip_scheme(s: Seq<char>) -> Seq<char> {
    if https_scheme().is_prefix_of(s) {
        s.skip(8)
    } else if http_scheme().is_prefix_of(s) {
        s.skip(7)
    } else {
        s
    }
}

/// `s` without one leading `www.` label, if it has one.
pub open spec fn strip_www(s: Seq<char>) -> Seq<char> {
    if www_label().is_prefix_of(s) {
        s.skip(4)
    } else {
        s
    }
}

/// The comparison form of a URL or pattern: one leading scheme token is
/// removed, then one leading `www.` label.
pub open spec fn normalize(url: Seq<char>) -> Seq<char> {
    strip_www(strip_scheme(url))
}

/// `s` without its trailing `*` wildcard markers.
pub open spec fn trim_wildcard(s: Seq<char>) -> Seq<char>
    decreases s.len(),
{
    if s.len() > 0 && s.last() == '*' {
        trim_wildcard(s.drop_last())
    } else {
        s
    }
}

/// The prefix that a whitelist pattern stands for.
pub open spec fn whitelist_prefix(pattern: Seq<char>) -> Seq<char> {
    trim_wildcard(normalize(pattern))
}

/// Some blacklist entry, normalised, is a prefix of the normalised URL.
pub open spec fn blacklisted(blacklist: Seq<Seq<char>>, url: Seq<char>) -> bool {
    exists|i: int|
        0 <= i < blacklist.len() && (#[trigger] normalize(blacklist[i])).is_prefix_of(
            normalize(url),
        )
}

/// Some whitelist pattern, normalised and without its wildcard markers, is a
/// prefix of the normalised URL.
pub open spec fn whitelisted(whitelist: Seq<Seq<char>>, url: Seq<char>) -> bool {
    exists|i: int|
        0 <= i < whitelist.len() && (#[trigger] whitelist_prefix(whitelist[i])).is_prefix_of(
            normalize(url),
        )
}

/// The decision rule: a URL is denied when it is blacklisted and no whitelist
/// pattern overrides the hit.
pub open spec fn blocked(blacklist: Seq<Seq<char>>, whitelist: Seq<Seq<char>>, url: Seq<char>)
    -> bool {
    blacklisted(blacklist, url) && !whitelisted(whitelist, url)
}

/// Index at which the normalised form of `chars` begins.
fn normalized_start(chars: &[char]) -> (k: usize)
    ensures
        k <= chars.len(),
        chars@.skip(k as int) == normalize(chars@),
{
    let https: [char; 8] = ['h', 't', 't', 'p', 's', ':', '/', '/'];
    let http: [char; 7] = ['h', 't', 't', 'p', ':', '/', '/'];
    let www: [char; 4] = ['w', 'w', 'w', '.'];
    assert(https@ =~= https_scheme());
    assert(http@ =~= http_scheme());
    assert(www@ =~= www_label());
    assert(chars@.skip(0) =~= chars@);
    let after_scheme: usize = if starts_with_at(chars, 0, https.as_slice()) {
        8
    } else if starts_with_at(chars, 0, http.as_slice()) {
        7
    } else {
        0
    };
    assert(chars@.skip(after_scheme as int) =~= strip_scheme(chars@));
    if starts_with_at(chars, after_scheme, www.as_slice()) {
        assert(chars@.skip(after_scheme as int).skip(4) =~= chars@.skip(after_scheme + 4));
        after_scheme + 4
    } else {
        after_scheme
    }
}

/// Normalises a URL: strips one leading `https://` or `http://` and then one
/// leading `www.`.
pub fn remove_http_www(url_string: String) -> (normalized: String)
    ensures
        normalized@ == normalize(url_string@),
{
    let chars = chars_of(url_string.as_str());
    let k = normalized_start(chars.as_slice());
    let rest = url_string.as_str().substring_char(k, chars.len());
    assert(url_string@.subrange(k as int, chars@.len() as int) =~= url_string@.skip(k as int));
    rest.to_owned()
}

/// Index at which the trailing `*` markers of `chars[start..]` begin.
fn wildcard_end(chars: &[char], start: usize) -> (end: usize)
    requires
        start <= chars.len(),
    ensures
        start <= end <= chars.len(),
        chars@.subrange(start as int, end as int) == trim_wildcard(chars@.skip(start as int)),
{
    let mut end: usize = chars.len();
    assert(chars@.subrange(start as int, end as int) =~= chars@.skip(start as int));
    while end > start && chars[end - 1] == '*'
        invariant
            start <= end <= chars.len(),
            trim_wildcard(chars@.subrange(start as int, end as int)) == trim_wildcard(
                chars@.skip(start as int),
            ),
        decreases end,
    {
        assert(chars@.subrange(start as int, end as int).drop_last() =~= chars@.subrange(
            start as int,
            end - 1,
        ));
        end -= 1;
    }
    end
}

/// Whether some entry of `blacklist`, normalised, is a prefix of `target`.
fn any_blacklist_prefix(blacklist: &Vec<String>, target: &[char]) -> (hit: bool)
    ensures
        hit == exists|i: int|
            0 <= i < blacklist@.len() && (#[trigger] normalize(views(blacklist@)[i])).is_prefix_of(
                target@,
            ),
{
    let mut i: usize = 0;
    while i < blacklist.len()
        invariant
            i <= blacklist@.len(),
            forall|j: int|
                0 <= j < i ==> !(#[trigger] normalize(views(blacklist@)[j])).is_prefix_of(target@),
        decreases blacklist.len() - i,
    {
        let entry = chars_of(blacklist[i].as_str());
        let from = normalized_start(entry.as_slice());
        let prefix = slice_subrange(entry.as_slice(), from, entry.len());
        assert(prefix@ =~= normalize(views(blacklist@)[i as int]));
        assert(target@.skip(0) =~= target@);
        if starts_with_at(target, 0, prefix) {
            return true;
        }
        i += 1;
    }
    false
}

/// Whether some pattern of `whitelist`, normalised and without its wildcard
/// markers, is a prefix of `target`.
fn any_whitelist_prefix(whitelist: &Vec<String>, target: &[char]) -> (hit: bool)
    ensures
        hit == exists|i: int|
            0 <= i < whitelist@.len() && (#[trigger] whitelist_prefix(
                views(whitelist@)[i],
            )).is_prefix_of(target@),
{
    let mut i: usize = 0;
    while i < whitelist.len()
        invariant
            i <= whitelist@.len(),
            forall|j: int|
                0 <= j < i ==> !(#[trigger] whitelist_prefix(views(whitelist@)[j])).is_prefix_of(
                    target@,
                ),
        decreases whitelist.len() - i,
    {
        let pattern = chars_of(whitelist[i].as_str());
        let from = normalized_start(pattern.as_slice());
        let to = wildcard_end(pattern.as_slice(), from);
        let prefix = slice_subrange(pattern.as_slice(), from, to);
        assert(prefix@ =~= whitelist_prefix(views(whitelist@)[i as int]));
        assert(target@.skip(0) =~= target@);
        if starts_with_at(target, 0, prefix) {
            return true;
        }
        i += 1;
    }
    false
}

/// Whether the URL hits the blacklist: some entry, normalised, is a prefix of
/// the normalised URL.
pub fn is_blacklisted(blacklist: &Vec<String>, url: &str) -> (hit: bool)
    ensures
        hit == blacklisted(views(blacklist@), url@),
{
    let chars = chars_of(url);
    let from = normalized_start(chars.as_slice());
    let target = slice_subrange(chars.as_slice(), from, chars.len());
    assert(target@ =~= normalize(url@));
    any_blacklist_prefix(blacklist, target)
}

/// Whether the URL hits the whitelist: some pattern, normalised and without
/// its trailing `*` markers, is a prefix of the normalised URL.
pub fn is_whitelisted(whitelist: &Vec<String>, url: &str) -> (hit: bool)
    ensures
        hit == whitelisted(views(whitelist@), url@),
{
    let chars = chars_of(url);
    let from = normalized_start(chars.as_slice());
    let target = slice_subrange(chars.as_slice(), from, chars.len());
    assert(target@ =~= normalize(url@));
    any_whitelist_prefix(whitelist, target)
}

/// Decides a URL against a snapshot of the active lists. The URL is denied
/// exactly when it is blacklisted and not whitelisted: a whitelist hit
/// overrides any blacklist hit.
pub fn is_blocked(blacklist: &Vec<String>, whitelist: &Vec<String>, url: &str) -> (denied: bool)
    ensures
        denied == blocked(views(blacklist@), views(whitelist@), url@),
{
    let chars = chars_of(url);
    let from = normalized_start(chars.as_slice());
    let target = slice_subrange(chars.as_slice(), from, chars.len());
    assert(target@ =~= normalize(url@));
    any_blacklist_prefix(blacklist, target) && !any_whitelist_prefix(whitelist, target)
}

/// A URL whose normalised form matches no blacklist entry is allowed,
/// whatever the whitelist holds.
pub proof fn lemma_unlisted_is_allowed(
    blacklist: Seq<Seq<char>>,
    whitelist: Seq<Seq<char>>,
    url: Seq<char>,
)
    requires
        !blacklisted(blacklist, url),
    ensures
        !blocked(blacklist, whitelist, url),
{
}

/// An empty blacklist denies nothing.
pub proof fn lemma_empty_blacklist_allows(whitelist: Seq<Seq<char>>, url: Seq<char>)
    ensures
        !blocked(Seq::empty(), whitelist, url),
{
}

/// A URL whose normalised form starts with a normalised blacklist entry is
/// denied when no whitelist pattern matches it.
pub proof fn lemma_blacklist_hit_is_denied(
    blacklist: Seq<Seq<char>>,
    whitelist: Seq<Seq<char>>,
    entry: int,
    url: Seq<char>,
)
    requires
        0 <= entry < blacklist.len(),
        normalize(blacklist[entry]).is_prefix_of(normalize(url)),
        !whitelisted(whitelist, url),
    ensures
        blocked(blacklist, whitelist, url),
{
}

/// A whitelist hit overrides a blacklist hit: a URL matching both is allowed.
pub proof fn lemma_whitelist_overrides(
    blacklist: Seq<Seq<char>>,
    whitelist: Seq<Seq<char>>,
    entry: int,
    pattern: int,
    url: Seq<char>,
)
    requires
        0 <= entry < blacklist.len(),
        normalize(blacklist[entry]).is_prefix_of(normalize(url)),
        0 <= pattern < whitelist.len(),
        whitelist_prefix(whitelist[pattern]).is_prefix_of(normalize(url)),
    ensures
        blacklisted(blacklist, url),
        !blocked(blacklist, whitelist, url),
{
}

/// Normalising strips exactly one scheme token and one `www.` label: what
/// follows them is kept as it is, even where it begins with another one.
pub proof fn lemma_normalize_strips_once(rest: Seq<char>)
    ensures
        normalize(https_scheme() + www_label() + rest) == rest,
        normalize(http_scheme() + www_label() + rest) == rest,
        normalize(https_scheme() + rest) == strip_www(rest),
        normalize(http_scheme() + rest) == strip_www(rest),
        normalize(www_label() + rest) == rest,
{
    let a = https_scheme() + www_label() + rest;
    assert(a.subrange(0, 8) =~= https_scheme());
    assert(a.skip(8) =~= www_label() + rest);
    assert((www_label() + rest).subrange(0, 4) =~= www_label());
    assert((www_label() + rest).skip(4) =~= rest);
    let b = http_scheme() + www_label() + rest;
    assert(b.subrange(0, 7) =~= http_scheme());
    assert(b[4] == ':');
    assert(b.subrange(0, 8)[4] == ':');
    assert(b.skip(7) =~= www_label() + rest);
    let c = https_scheme() + rest;
    assert(c.subrange(0, 8) =~= https_scheme());
    assert(c.skip(8) =~= rest);
    let d = http_scheme() + rest;
    assert(d.subrange(0, 7) =~= http_scheme());
    assert(d[4] == ':');
    assert(d.len() >= 8 ==> d.subrange(0, 8)[4] == ':');
    assert(d.skip(7) =~= rest);
    let e = www_label() + rest;
    assert(e[0] == 'w');
    assert(e.len() >= 8 ==> e.subrange(0, 8)[0] == 'w');
    assert(e.len() >= 7 ==> e.subrange(0, 7)[0] == 'w');
}

/// Whether a normal form is stable: it begins with neither a scheme token nor
/// a `www.` label.
pub open spec fn is_bare(s: Seq<char>) -> bool {
    !https_scheme().is_prefix_of(s) && !http_scheme().is_prefix_of(s) && !www_label().is_prefix_of(
        s,
    )
}

/// Normalising is idempotent exactly on the inputs whose normal form is bare.
/// (`https://https://a` is not one of them: its normal form is `https://a`.)
pub proof fn lemma_normalize_idempotent(url: Seq<char>)
    ensures
        is_bare(normalize(url)) <==> normalize(normalize(url)) == normalize(url),
{
    let n = normalize(url);
    if https_scheme().is_prefix_of(n) {
        assert(strip_scheme(n).len() < n.len());
    } else if http_scheme().is_prefix_of(n) {
        assert(strip_scheme(n).len() < n.len());
    } else if www_label().is_prefix_of(n) {
        assert(normalize(n).len() < n.len());
    }
}

} // verus!
