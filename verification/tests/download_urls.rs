use helper_binaries::urls::{builtin_proxy, download_urls, BUILTIN_PROXY_COUNT, DOWNLOAD_TIMEOUT_SECS, GITHUB_RAW};

const URL: &str = "https://github.com/yt-dlp/yt-dlp/releases/download/2024.05.27/yt-dlp";

#[test]
fn without_proxies_only_the_direct_url_is_tried() {
    assert_eq!(download_urls(URL, false, None), vec![URL.to_string()]);
    assert_eq!(download_urls(URL, false, Some("https://mirror.example")), vec![URL.to_string()]);
}

#[test]
fn another_host_is_never_proxied() {
    let url = "https://example.org/dl/tool.zip";
    assert_eq!(download_urls(url, true, Some("https://mirror.example")), vec![url.to_string()]);
    let near = "https://github.com";
    assert_eq!(download_urls(near, true, None), vec![near.to_string()]);
}

#[test]
fn the_direct_url_comes_first_then_the_built_in_proxies() {
    assert_eq!(
        download_urls(URL, true, None),
        vec![
            URL.to_string(),
            format!("https://gh-proxy.org/{}", URL),
            format!("https://hk.gh-proxy.org/{}", URL),
            format!("https://cdn.gh-proxy.org/{}", URL),
            format!("https://edgeone.gh-proxy.org/{}", URL),
        ]
    );
}

#[test]
fn the_users_proxy_comes_second_without_its_trailing_slashes() {
    let urls = download_urls(URL, true, Some("https://mirror.example//"));
    assert_eq!(urls.len(), 6);
    assert_eq!(urls[0], URL);
    assert_eq!(urls[1], format!("https://mirror.example/{}", URL));
    assert_eq!(urls[2], format!("https://gh-proxy.org/{}", URL));
}

#[test]
fn a_users_proxy_of_slashes_only_is_left_out() {
    assert_eq!(download_urls(URL, true, Some("///")).len(), 5);
    assert_eq!(download_urls(URL, true, Some("")).len(), 5);
}

#[test]
fn the_constants_are_as_published() {
    assert_eq!(GITHUB_RAW, "https://github.com/");
    assert_eq!(DOWNLOAD_TIMEOUT_SECS, 10);
    assert_eq!(BUILTIN_PROXY_COUNT, 4);
    assert_eq!(builtin_proxy(0), "https://gh-proxy.org");
    assert_eq!(builtin_proxy(3), "https://edgeone.gh-proxy.org");
}
