//! The proxy that outgoing HTTP requests go through, written as a URL.

use vstd::prelude::*;
use crate::text::{chars_of, string_of, dec_digits, decimal};
use crate::text::split::extend_chars;
use crate::subtitle_merge::transcript::chars_eq;

verus! {

/// The proxy settings of the application.
#[derive(Clone, Debug, Default, PartialEq, Eq)]
pub struct ProxySettings {
    pub enabled: bool,
    /// `"http"`, `"https"` or `"socks5"`; anything else is read as `"http"`.
    pub proxy_type: String,
    pub host: String,
    pub port: u16,
    pub username: String,
    pub password: String,
}

/// The URL scheme of a proxy type.
pub open spec fn proxy_scheme(proxy_type: Seq<char>) -> Seq<char> {
    if proxy_type == "socks5"@ {
        "socks5"@
    } else if proxy_type == "https"@ {
        "https"@
    } else {
        "http"@
    }
}

/// The proxy URL: none when the proxy is off or has no host; otherwise
/// `scheme://host:port`, with `user:password@` before the host when a user
/// name is set.
pub open spec fn proxy_url_spec(p: ProxySettings) -> Option<Seq<char>> {
    if !p.enabled || p.host@.len() == 0 {
        None
    } else if p.username@.len() > 0 {
        Some(
            proxy_scheme(p.proxy_type@) + "://"@ + p.username@ + seq![':'] + p.password@ + seq!['@']
                + p.host@ + seq![':'] + dec_digits(p.port as nat),
        )
    } else {
        Some(proxy_scheme(p.proxy_type@) + "://"@ + p.host@ + seq![':'] + dec_digits(p.port as nat))
    }
}

fn scheme_chars(proxy_type: &str) -> (r: Vec<char>)
    ensures
        r@ == proxy_scheme(proxy_type@),
{
    let t = chars_of(proxy_type);
    let socks = chars_of("socks5");
    let https = chars_of("https");
    if chars_eq(t.as_slice(), socks.as_slice()) {
        socks
    } else if chars_eq(t.as_slice(), https.as_slice()) {
        https
    } else {
        chars_of("http")
    }
}

/// The URL of the proxy that `proxy` describes, if it is in use.
pub fn proxy_url(proxy: &ProxySettings) -> (r: Option<String>)
    ensures
        match r {
            Some(u) => proxy_url_spec(*proxy) == Some(u@),
            None => proxy_url_spec(*proxy) is None,
        },
{
    let host = chars_of(proxy.host.as_str());
    if !proxy.enabled || host.len() == 0 {
        return None;
    }
    let mut out = scheme_chars(proxy.proxy_type.as_str());
    let sep = chars_of("://");
    extend_chars(&mut out, sep.as_slice());
    let user = chars_of(proxy.username.as_str());
    if user.len() > 0 {
        extend_chars(&mut out, user.as_slice());
        out.push(':');
        let pass = chars_of(proxy.password.as_str());
        extend_chars(&mut out, pass.as_slice());
        out.push('@');
    }
    extend_chars(&mut out, host.as_slice());
    out.push(':');
    let port = decimal(proxy.port as u64);
    extend_chars(&mut out, port.as_slice());
    proof {
        if user@.len() > 0 {
            assert(out@ =~= proxy_url_spec(*proxy).unwrap());
        } else {
            assert(out@ =~= proxy_url_spec(*proxy).unwrap());
        }
    }
    Some(string_of(out.as_slice()))
}

} // verus!
