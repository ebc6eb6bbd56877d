//! Absolute URLs, as the `url` crate (re-exported by `reqwest`) parses them.
use vstd::prelude::*;

verus! {

/// The parts of a parsed absolute URL that the library reads.
#[derive(Debug, Clone)]
pub struct UrlParts {
    /// `Url::scheme`
    pub scheme: String,
    /// `Url::host_str`
    pub host: Option<String>,
    /// `Url::port`: the explicit port, absent when it is the scheme's default.
    pub port: Option<u16>,
    /// `Url::as_str`: the serialized URL.
    pub href: String,
}

/// The same parts as character sequences.
pub struct UrlView {
    pub scheme: Seq<char>,
    pub host: Option<Seq<char>>,
    pub port: Option<u16>,
    pub href: Seq<char>,
}

pub open spec fn option_string_view(o: Option<String>) -> Option<Seq<char>> {
    match o {
        Some(s) => Some(s@),
        None => None,
    }
}

impl View for UrlParts {
    type V = UrlView;

    open spec fn view(&self) -> UrlView {
        UrlView {
            scheme: self.scheme@,
            host: option_string_view(self.host),
            port: self.port,
            href: self.href@,
        }
    }
}

/// What `reqwest::Url::parse` makes of `text`: nothing when it is not a
/// valid absolute URL, else the parts read by `scheme`, `host_str`, `port`
/// and `as_str`. The WHATWG URL algorithm behind it is not restated here.
pub uninterp spec fn url_parse(text: Seq<char>) -> Option<UrlView>;

/// Calls `reqwest::Url::parse` (the `url` crate's `Url::parse`) and reads
/// the parsed URL's scheme, host, explicit port and serialization. The
/// contract claims only that the result is `url_parse` of the text.
#[verifier::external_body]
pub(crate) fn parse_url(text: &str) -> (r: Option<UrlParts>)
    ensures
        r matches Some(u) ==> url_parse(text@) == Some(u@),
        r is None ==> url_parse(text@) is None,
{
    match reqwest::Url::parse(text) {
        Ok(url) => Some(
            UrlParts {
                scheme: url.scheme().to_owned(),
                host: url.host_str().map(str::to_owned),
                port: url.port(),
                href: url.as_str().to_owned(),
            },
        ),
        Err(_) => None,
    }
}

/// Whether `text` parses as an absolute URL.
pub open spec fn is_valid_url(text: Seq<char>) -> bool {
    url_parse(text) is Some
}

/// The host that `reqwest::Url::parse` reads from `text`, if any.
pub open spec fn url_host(text: Seq<char>) -> Option<Seq<char>> {
    match url_parse(text) {
        Some(u) => u.host,
        None => None,
    }
}

} // verus!
