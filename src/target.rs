use vstd::prelude::*;

use crate::chars::{chars_of, lead, lead_before, same_chars};
use crate::error::HttpError;

verus! {

/// The path and, if the host is a domain name, the domain of a URL; `None`
/// when the URL does not parse.
pub uninterp spec fn url_parts(s: Seq<char>) -> Option<(Seq<char>, Option<Seq<char>>)>;

/// Whether a string is accepted as the name a TLS server is checked against.
pub uninterp spec fn tls_name_valid(s: Seq<char>) -> bool;

pub open spec fn opt_view(o: Option<String>) -> Option<Seq<char>> {
    match o {
        Some(s) => Some(s@),
        None => None,
    }
}

/// Relies on `url::Url::parse` to parse the URL, and on `Url::path` and
/// `Url::domain` of the parsed URL for its path and its domain.
#[verifier::external_body]
fn split_url(s: &str) -> (r: Option<(String, Option<String>)>)
    ensures
        match url_parts(s@) {
            None => r is None,
            Some(p) => match r {
                Some(q) => q.0@ == p.0 && opt_view(q.1) == p.1,
                None => false,
            },
        },
{
    match url::Url::parse(s) {
        Ok(u) => Some((u.path().to_string(), u.domain().map(|d| d.to_string()))),
        Err(_) => None,
    }
}

/// Relies on `rustls::ServerName::try_from`, which accepts a DNS name or an
/// IP address as the identity of a TLS server.
#[verifier::external_body]
fn tls_name_accepted(s: &str) -> (r: bool)
    ensures
        r == tls_name_valid(s@),
{
    rustls::ServerName::try_from(s).is_ok()
}

/// Where a request goes: over TLS or not, the path to ask for, and the
/// host's domain name if it has one.
pub struct Target {
    pub tls: bool,
    pub path: String,
    pub domain: Option<String>,
}

/// Whether `port` is the one that selects TLS.
pub open spec fn uses_tls(port: u16) -> bool {
    port == 443
}

/// Parses the URL of a task and picks the transport for `port`.
pub fn plan_target(url: &str, port: u16) -> (r: Result<Target, HttpError>)
    ensures
        match url_parts(url@) {
            None => r == Err::<Target, HttpError>(HttpError::UrlInvalid),
            Some(p) => match r {
                Ok(t) => t.tls == uses_tls(port) && t.path@ == p.0 && opt_view(t.domain) == p.1,
                Err(_) => false,
            },
        },
{
    match split_url(url) {
        None => Err(HttpError::UrlInvalid),
        Some((path, domain)) => Ok(Target { tls: port == 443, path, domain }),
    }
}

/// The name a TLS session checks the server against: the URL's domain, or
/// the resolved address written out when the URL has no domain.
pub open spec fn server_name_of(domain: Option<Seq<char>>, address: Seq<char>) -> Seq<char> {
    match domain {
        Some(d) => d,
        None => address,
    }
}

/// The TLS server name for a target; fails when TLS does not accept it.
pub fn server_name(domain: &Option<String>, address: &str) -> (r: Result<String, HttpError>)
    ensures
        tls_name_valid(server_name_of(opt_view(*domain), address@)) ==> match r {
            Ok(s) => s@ == server_name_of(opt_view(*domain), address@),
            Err(_) => false,
        },
        !tls_name_valid(server_name_of(opt_view(*domain), address@)) ==> r
            == Err::<String, HttpError>(HttpError::TlsSetupFailure),
{
    let name: String = match domain {
        Some(d) => d.clone(),
        None => address.to_owned(),
    };
    if tls_name_accepted(name.as_str()) {
        Ok(name)
    } else {
        Err(HttpError::TlsSetupFailure)
    }
}

/// The value of the `Host` header: the domain, or the resolved address
/// written out when the URL has no domain.
pub fn host_name(domain: &Option<String>, address: &str) -> (r: String)
    ensures
        r@ == server_name_of(opt_view(*domain), address@),
{
    match domain {
        Some(d) => d.clone(),
        None => address.to_owned(),
    }
}

/// A write of the request head must take every byte it was given.
pub fn check_written(written: usize, expected: usize) -> (r: Result<(), HttpError>)
    ensures
        r == if written == expected {
            Ok::<(), HttpError>(())
        } else {
            Err(HttpError::ShortWrite)
        },
{
    if written == expected {
        Ok(())
    } else {
        Err(HttpError::ShortWrite)
    }
}

/// `https`
pub open spec fn https_word() -> Seq<char> {
    seq!['h', 't', 't', 'p', 's']
}

/// `http:`
pub open spec fn http_scheme() -> Seq<char> {
    seq!['h', 't', 't', 'p', ':']
}

/// `https:`
pub open spec fn https_scheme() -> Seq<char> {
    seq!['h', 't', 't', 'p', 's', ':']
}

/// The port a URL implies: 443 when what stands before its first colon is
/// `https` (white space around it aside), else 80.
pub open spec fn implied_port(u: Seq<char>) -> u16 {
    if lead_before(u, ':') == https_word() {
        443
    } else {
        80
    }
}

/// The port of a task: the one set explicitly, else the one its URL implies.
pub fn get_port(explicit: Option<u16>, url: &str) -> (r: u16)
    ensures
        r == match explicit {
            Some(p) => p,
            None => implied_port(url@),
        },
{
    match explicit {
        Some(p) => p,
        None => {
            let u = chars_of(url);
            let head = lead(&u, ':');
            let w: Vec<char> = vec!['h', 't', 't', 'p', 's'];
            if same_chars(&head, &w) {
                443
            } else {
                80
            }
        },
    }
}

/// Whether a URL is one this engine serves: what stands before its first
/// slash is `http:` or `https:`, white space around it aside.
pub open spec fn serves_url(u: Seq<char>) -> bool {
    let scheme = lead_before(u, '/');
    scheme == http_scheme() || scheme == https_scheme()
}

/// Whether the engine serves a URL, by its scheme.
pub fn accept_url(url: &str) -> (r: bool)
    ensures
        r == serves_url(url@),
{
    let u = chars_of(url);
    let scheme = lead(&u, '/');
    let a: Vec<char> = vec!['h', 't', 't', 'p', ':'];
    let b: Vec<char> = vec!['h', 't', 't', 'p', 's', ':'];
    same_chars(&scheme, &a) || same_chars(&scheme, &b)
}

} // verus!
