//! Web addresses: what the viewer reads of a parsed URL, and the origin rules
//! that decide which pages may talk to the native side.
use vstd::prelude::*;

use crate::text::{concat, contains_seq, contains_text, ends_with, is_prefix_of, is_suffix_of, starts_with, text_eq};

verus! {

/// The parts of a parsed absolute URL that the viewer reads.
#[derive(Debug)]
pub struct WebUrl {
    /// The whole URL, serialized.
    pub href: String,
    /// The scheme, lower-cased, without the `:`.
    pub scheme: String,
    /// The host, when the URL has one.
    pub host: Option<String>,
    /// The explicit port, or else the scheme's well-known default port.
    pub port: Option<u16>,
    /// The path.
    pub path: String,
}

/// The mathematical value of a `WebUrl`.
pub struct WebUrlData {
    pub href: Seq<char>,
    pub scheme: Seq<char>,
    pub host: Option<Seq<char>>,
    pub port: Option<u16>,
    pub path: Seq<char>,
}

impl View for WebUrl {
    type V = WebUrlData;

    open spec fn view(&self) -> WebUrlData {
        WebUrlData {
            href: self.href@,
            scheme: self.scheme@,
            host: match self.host {
                Some(h) => Some(h@),
                None => None,
            },
            port: self.port,
            path: self.path@,
        }
    }
}

/// What the `url` crate's parser makes of `input`: the parsed URL, or the
/// text of the parse error.
pub uninterp spec fn parsed_url(input: Seq<char>) -> Result<WebUrlData, Seq<char>>;

/// `r` is what parsing `input` gives.
pub open spec fn parse_result_is(r: Result<WebUrl, String>, input: Seq<char>) -> bool {
    match r {
        Ok(u) => parsed_url(input) == Ok::<WebUrlData, Seq<char>>(u@),
        Err(e) => parsed_url(input) == Err::<WebUrlData, Seq<char>>(e@),
    }
}

/// Parses an absolute URL with `url::Url::parse` and reads its serialization,
/// scheme, host (`host_str`), port (`port_or_known_default`) and path.
/// Trusted: the result is the named value `parsed_url` of the input; an error
/// is carried by its `Display` text.
#[verifier::external_body]
pub(crate) fn parse_url(input: &str) -> (r: Result<WebUrl, String>)
    ensures
        match r {
            Ok(u) => parsed_url(input@) == Ok::<WebUrlData, Seq<char>>(u@),
            Err(e) => parsed_url(input@) == Err::<WebUrlData, Seq<char>>(e@),
        },
{
    match url::Url::parse(input) {
        Ok(u) => Ok(
            WebUrl {
                href: u.as_str().to_string(),
                scheme: u.scheme().to_string(),
                host: u.host_str().map(|h| h.to_string()),
                port: u.port_or_known_default(),
                path: u.path().to_string(),
            },
        ),
        Err(e) => Err(e.to_string()),
    }
}

/// The host of the viewer's own pages.
pub open spec fn is_local_host(host: Option<Seq<char>>) -> bool {
    host == Some("tauri.localhost"@) || host == Some("localhost"@)
}

/// The page is one of the viewer's own pages.
pub fn is_local_url(url: &WebUrl) -> (r: bool)
    ensures
        r == is_local_host(url@.host),
{
    match &url.host {
        Some(h) => text_eq(h.as_str(), "tauri.localhost") || text_eq(h.as_str(), "localhost"),
        None => false,
    }
}

/// `url` has the same scheme, host and port as `saved`, or `saved` is the
/// UniFi cloud console and `url` is an https page of `ui.com` or one of its
/// subdomains.
pub open spec fn origin_matches(saved: WebUrlData, url: WebUrlData) -> bool {
    let exact_origin = saved.scheme == url.scheme && saved.host == url.host && saved.port
        == url.port;
    let unifi_cloud_redirect = saved.host == Some("unifi.ui.com"@) && url.scheme == "https"@
        && match url.host {
        Some(h) => h == "ui.com"@ || is_suffix_of(".ui.com"@, h),
        None => false,
    };
    exact_origin || unifi_cloud_redirect
}

fn same_host(a: &Option<String>, b: &Option<String>) -> (r: bool)
    ensures
        r == ((match a {
            Some(h) => Some(h@),
            None => None::<Seq<char>>,
        }) == (match b {
            Some(h) => Some(h@),
            None => None::<Seq<char>>,
        })),
{
    match (a, b) {
        (Some(x), Some(y)) => text_eq(x.as_str(), y.as_str()),
        (None, None) => true,
        _ => false,
    }
}

/// Whether `url` belongs to the origin of the saved console address `saved`.
pub fn origin_matches_url(saved: &WebUrl, url: &WebUrl) -> (r: bool)
    ensures
        r == origin_matches(saved@, url@),
{
    let exact_origin = text_eq(saved.scheme.as_str(), url.scheme.as_str()) && same_host(
        &saved.host,
        &url.host,
    ) && saved.port == url.port;
    let saved_is_cloud = match &saved.host {
        Some(h) => text_eq(h.as_str(), "unifi.ui.com"),
        None => false,
    };
    let cloud_page = match &url.host {
        Some(h) => text_eq(h.as_str(), "ui.com") || ends_with(h.as_str(), ".ui.com"),
        None => false,
    };
    let unifi_cloud_redirect = saved_is_cloud && text_eq(url.scheme.as_str(), "https")
        && cloud_page;
    exact_origin || unifi_cloud_redirect
}

/// The address of one of the viewer's own pages.
pub open spec fn local_page_address(page: Seq<char>) -> Seq<char> {
    "http://tauri.localhost/html/"@ + page
}

/// The URL of one of the viewer's own pages.
pub fn local_url(page: &str) -> (r: Result<WebUrl, String>)
    ensures
        parse_result_is(r, local_page_address(page@)),
{
    let address = concat("http://tauri.localhost/html/", page);
    parse_url(address.as_str())
}

/// The target is a web address rather than the name of a local page.
pub open spec fn is_web_address(target: Seq<char>) -> bool {
    is_prefix_of("http://"@, target) || is_prefix_of("https://"@, target)
}

/// Where navigating to `target` goes: a web address is parsed as it is; any
/// other target names one of the viewer's own pages.
pub fn navigation_url(target: &str) -> (r: Result<WebUrl, String>)
    ensures
        is_web_address(target@) ==> parse_result_is(r, target@),
        !is_web_address(target@) ==> parse_result_is(r, local_page_address(target@)),
{
    if starts_with(target, "http://") || starts_with(target, "https://") {
        parse_url(target)
    } else {
        local_url(target)
    }
}

/// The page shows UniFi Protect (its path contains `/protect/`).
pub open spec fn is_camera_path(path: Seq<char>) -> bool {
    contains_seq(path, "/protect/"@)
}

/// Whether the page shows UniFi Protect.
pub fn is_camera_page(url: &WebUrl) -> (r: bool)
    ensures
        r == is_camera_path(url@.path),
{
    contains_text(url.path.as_str(), "/protect/")
}

/// The scheme is `http` or `https`.
pub open spec fn is_web_scheme(scheme: Seq<char>) -> bool {
    scheme == "http"@ || scheme == "https"@
}

/// Checks a link that is to be opened in the system browser: it must parse,
/// and only http(s) links are allowed.
pub fn external_link(target: &str) -> (r: Result<WebUrl, String>)
    ensures
        match parsed_url(target@) {
            Err(m) => r matches Err(e) && e@ == m,
            Ok(u) => if is_web_scheme(u.scheme) {
                r matches Ok(v) && v@ == u
            } else {
                r matches Err(e) && e@ == "only http(s) URLs are allowed"@
            },
        },
{
    let parsed = parse_url(target)?;
    if text_eq(parsed.scheme.as_str(), "http") || text_eq(parsed.scheme.as_str(), "https") {
        Ok(parsed)
    } else {
        Err("only http(s) URLs are allowed".to_owned())
    }
}

/// The host named in the log when a profile is launched: the host of its
/// address, or `invalid host` when the address does not parse or has none.
pub open spec fn host_label_of(target: Seq<char>) -> Seq<char> {
    match parsed_url(target) {
        Ok(u) => match u.host {
            Some(h) => h,
            None => "invalid host"@,
        },
        Err(_) => "invalid host"@,
    }
}

/// The host named in the log when a profile is launched.
pub fn host_label(target: &str) -> (r: String)
    ensures
        r@ == host_label_of(target@),
{
    match parse_url(target) {
        Ok(u) => match u.host {
            Some(h) => h,
            None => "invalid host".to_owned(),
        },
        Err(_) => "invalid host".to_owned(),
    }
}

} // verus!
