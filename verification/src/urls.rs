//! The candidate URLs of a download: the direct URL first, then its mirrors.

use crate::text::{has_prefix, join3, str_opt, texts, trim_end, without_trailing};
use vstd::prelude::*;

verus! {

/// Host whose downloads can also be fetched through the proxies.
pub const GITHUB_RAW: &'static str = "https://github.com/";

/// Seconds that one attempt on one URL may take before it is given up.
pub const DOWNLOAD_TIMEOUT_SECS: u64 = 10;

/// Number of built-in proxies.
pub const BUILTIN_PROXY_COUNT: usize = 4;

/// The `i`-th built-in proxy prefix.
pub open spec fn builtin_proxy_spec(i: int) -> Seq<char> {
    if i == 0 {
        "https://gh-proxy.org"@
    } else if i == 1 {
        "https://hk.gh-proxy.org"@
    } else if i == 2 {
        "https://cdn.gh-proxy.org"@
    } else {
        "https://edgeone.gh-proxy.org"@
    }
}

/// The `i`-th built-in proxy prefix.
pub fn builtin_proxy(i: usize) -> (prefix: &'static str)
    requires
        i < BUILTIN_PROXY_COUNT,
    ensures
        prefix@ == builtin_proxy_spec(i as int),
{
    if i == 0 {
        "https://gh-proxy.org"
    } else if i == 1 {
        "https://hk.gh-proxy.org"
    } else if i == 2 {
        "https://cdn.gh-proxy.org"
    } else {
        "https://edgeone.gh-proxy.org"
    }
}

/// `url` as fetched through the proxy `prefix`.
pub open spec fn proxied(prefix: Seq<char>, url: Seq<char>) -> Seq<char> {
    prefix + "/"@ + url
}

/// The candidate of a user-supplied proxy: the proxy without its trailing
/// slashes, unless nothing is left of it.
pub open spec fn custom_candidates(url: Seq<char>, custom: Option<Seq<char>>) -> Seq<Seq<char>> {
    match custom {
        Some(p) => if trim_end(p, '/').len() > 0 {
            seq![proxied(trim_end(p, '/'), url)]
        } else {
            seq![]
        },
        None => seq![],
    }
}

/// Whether `url` is fetched through proxies too: only when proxying is on
/// and the URL points at the direct-download host.
pub open spec fn uses_proxies(url: Seq<char>, use_proxy: bool) -> bool {
    use_proxy && GITHUB_RAW@.is_prefix_of(url)
}

/// The URLs to try for `url`, in order: the URL itself; then, when proxies
/// are used, the user's proxy if one is given, and the built-in proxies.
pub open spec fn candidates(url: Seq<char>, use_proxy: bool, custom: Option<Seq<char>>) -> Seq<
    Seq<char>,
> {
    if uses_proxies(url, use_proxy) {
        seq![url] + custom_candidates(url, custom) + Seq::new(
            BUILTIN_PROXY_COUNT as nat,
            |i: int| proxied(builtin_proxy_spec(i), url),
        )
    } else {
        seq![url]
    }
}

/// The URLs to try for `url`, in order. `custom_proxy` is the proxy prefix
/// that the user configured, if any.
pub fn download_urls(url: &str, use_proxy: bool, custom_proxy: Option<&str>) -> (out: Vec<String>)
    ensures
        texts(out@) == candidates(url@, use_proxy, str_opt(custom_proxy)),
        out@.len() >= 1,
        out@[0]@ == url@,
{
    let mut out: Vec<String> = Vec::new();
    out.push(String::from_str(url));
    assert(texts(out@) =~= seq![url@]);
    if !use_proxy || !has_prefix(url, GITHUB_RAW) {
        return out;
    }
    if let Some(proxy) = custom_proxy {
        let custom = without_trailing(proxy, '/');
        if custom.unicode_len() > 0 {
            out.push(join3(custom, "/", url));
        }
    }
    assert(texts(out@) =~= seq![url@] + custom_candidates(url@, str_opt(custom_proxy)));
    let ghost head = texts(out@);
    let mut i: usize = 0;
    while i < BUILTIN_PROXY_COUNT
        invariant
            i <= BUILTIN_PROXY_COUNT,
            out@.len() >= 1,
            out@[0]@ == url@,
            texts(out@) == head + Seq::new(
                i as nat,
                |k: int| proxied(builtin_proxy_spec(k), url@),
            ),
        decreases BUILTIN_PROXY_COUNT - i,
    {
        let ghost before = texts(out@);
        let ghost built = Seq::new(i as nat, |k: int| proxied(builtin_proxy_spec(k), url@));
        out.push(join3(builtin_proxy(i), "/", url));
        assert(texts(out@) =~= before.push(proxied(builtin_proxy_spec(i as int), url@)));
        assert(Seq::new((i + 1) as nat, |k: int| proxied(builtin_proxy_spec(k), url@)) =~= built.push(
            proxied(builtin_proxy_spec(i as int), url@),
        ));
        assert(texts(out@) =~= head + Seq::new(
            (i + 1) as nat,
            |k: int| proxied(builtin_proxy_spec(k), url@),
        ));
        i = i + 1;
    }
    out
}

} // verus!
