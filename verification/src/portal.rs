//! The Dr.COM portal: the password transform, the login form, how a reply
//! page is read, how a captive portal is recognised, and what a login
//! attempt amounts to once the connectivity probe has answered.
use vstd::prelude::*;

use crate::config::AppConfig;
use crate::text;
use crate::text::{
    chars_eq_str, chars_of, contains_str, decimal_chars, extend_chars, extend_str, find_str,
    leading_digits_from, parse_digits_chars, slice_chars, string_of, suffix_from,
};
use crate::url;
use crate::url::{UrlParts, UrlView, parse_url};

verus! {

pub const PASSWORD_PID: &'static str = "2";

pub const PASSWORD_CALG: &'static str = "12345678";

pub const LOGIN_OK_MESSAGE: &'static str = "portal reported a successful login";

pub const INVALID_CREDENTIALS_MESSAGE: &'static str = "invalid username or password";

// ---------------------------------------------------------------------------
// Password transform
// ---------------------------------------------------------------------------

/// The MD5 digest of `data`. The algorithm is not restated here.
pub uninterp spec fn md5_digest(data: Seq<u8>) -> Seq<u8>;

/// Calls `md5::compute` and returns the digest's 16 bytes. Claims the
/// result is `md5_digest` of the input and, as `md5::Digest([u8; 16])`
/// shows, that it is 16 bytes long.
#[verifier::external_body]
fn md5_compute(data: &[u8]) -> (d: Vec<u8>)
    ensures
        d@ == md5_digest(data@),
        d@.len() == 16,
{
    md5::compute(data).0.to_vec()
}

/// The lower-case hexadecimal digit for `n` (which is below 16).
pub open spec fn hex_digit(n: nat) -> char {
    if n < 10 {
        crate::text::digit_char(n)
    } else if n == 10 {
        'a'
    } else if n == 11 {
        'b'
    } else if n == 12 {
        'c'
    } else if n == 13 {
        'd'
    } else if n == 14 {
        'e'
    } else {
        'f'
    }
}

/// Two lower-case hexadecimal digits per byte, as `{:x}` prints an
/// `md5::Digest`.
pub open spec fn lower_hex(bytes: Seq<u8>) -> Seq<char>
    decreases bytes.len(),
{
    if bytes.len() == 0 {
        Seq::empty()
    } else {
        lower_hex(bytes.drop_last()) + seq![
            hex_digit((bytes.last() / 16) as nat),
            hex_digit((bytes.last() % 16) as nat),
        ]
    }
}

fn hex_digit_exec(n: u8) -> (c: char)
    requires
        n < 16,
    ensures
        c == hex_digit(n as nat),
{
    if n < 10 {
        let d = crate::text::decimal_chars(n as u64);
        d[0]
    } else if n == 10 {
        'a'
    } else if n == 11 {
        'b'
    } else if n == 12 {
        'c'
    } else if n == 13 {
        'd'
    } else if n == 14 {
        'e'
    } else {
        'f'
    }
}

/// Lower-case hexadecimal text of `bytes`.
pub fn lower_hex_chars(bytes: &Vec<u8>) -> (r: Vec<char>)
    ensures
        r@ == lower_hex(bytes@),
{
    let mut r: Vec<char> = Vec::new();
    let mut i: usize = 0;
    while i < bytes.len()
        invariant
            i <= bytes@.len(),
            r@ == lower_hex(bytes@.subrange(0, i as int)),
        decreases bytes@.len() - i,
    {
        let b = bytes[i];
        proof {
            let s = bytes@.subrange(0, i + 1);
            assert(s.drop_last() =~= bytes@.subrange(0, i as int));
            assert(s.last() == b);
        }
        r.push(hex_digit_exec(b / 16));
        r.push(hex_digit_exec(b % 16));
        i = i + 1;
    }
    assert(bytes@.subrange(0, bytes@.len() as int) =~= bytes@);
    r
}

/// The transform the portal's login script applies to a password:
/// `md5("2" + password + "12345678")` in lower-case hex, then `"12345678"`
/// and `"2"`.
pub open spec fn encoded_password(password: Seq<char>) -> Seq<char> {
    lower_hex(md5_digest(vstd::utf8::encode_utf8(PASSWORD_PID@ + password + PASSWORD_CALG@))) + PASSWORD_CALG@
        + PASSWORD_PID@
}

/// The password as the login form submits it.
pub fn encode_password(password: &str) -> (r: String)
    ensures
        r@ == encoded_password(password@),
        r@.len() == 32 + PASSWORD_CALG@.len() + PASSWORD_PID@.len(),
        r@.subrange(32, r@.len() as int) == PASSWORD_CALG@ + PASSWORD_PID@,
{
    let mut input = String::from_str(PASSWORD_PID);
    input.append(password);
    input.append(PASSWORD_CALG);
    let digest = md5_compute(input.as_str().as_bytes());
    proof {
        lemma_encoded_password_shape(password@);
    }
    let mut out = lower_hex_chars(&digest);
    extend_str(&mut out, PASSWORD_CALG);
    extend_str(&mut out, PASSWORD_PID);
    string_of(&out)
}

// ---------------------------------------------------------------------------
// Reading the reply page
// ---------------------------------------------------------------------------

/// What `String::from_utf8_lossy` makes of `bytes`: the text, with each
/// invalid sequence replaced by U+FFFD. The replacement rule is not
/// restated here.
pub uninterp spec fn utf8_lossy(bytes: Seq<u8>) -> Seq<char>;

/// Calls `String::from_utf8_lossy`. Claims the result is `utf8_lossy` of
/// the bytes, and, as its documentation says, that valid UTF-8 comes back
/// exactly as the text it encodes.
#[verifier::external_body]
pub(crate) fn decode_body(bytes: &[u8]) -> (s: String)
    ensures
        s@ == utf8_lossy(bytes@),
        vstd::utf8::valid_utf8(bytes@) ==> s@ == vstd::utf8::decode_utf8(bytes@),
{
    String::from_utf8_lossy(bytes).into_owned()
}

/// What the reply page to a login says.
#[derive(Debug, Clone, PartialEq, Eq)]
pub enum BodyResult {
    Success(String),
    Failure(String),
    Unknown,
}

pub enum BodyVerdict {
    Success(Seq<char>),
    Failure(Seq<char>),
    Unknown,
}

impl View for BodyResult {
    type V = BodyVerdict;

    open spec fn view(&self) -> BodyVerdict {
        match self {
            BodyResult::Success(s) => BodyVerdict::Success(s@),
            BodyResult::Failure(s) => BodyVerdict::Failure(s@),
            BodyResult::Unknown => BodyVerdict::Unknown,
        }
    }
}

/// The number written right after the first occurrence of `prefix`: the
/// run of digits there, if it is non-empty and fits in a `u32`.
pub open spec fn assignment_value(body: Seq<char>, prefix: Seq<char>) -> Option<nat> {
    match text::find(body, prefix) {
        Some(i) => text::parse_digits(
            text::leading_digits(body.subrange(i + prefix.len(), body.len() as int)),
            u32::MAX as nat,
        ),
        None => None,
    }
}

/// The text between the first occurrence of `prefix` and the next `'`.
pub open spec fn quoted_value(body: Seq<char>, prefix: Seq<char>) -> Option<Seq<char>> {
    match text::find(body, prefix) {
        Some(i) => {
            let rest = body.subrange(i + prefix.len(), body.len() as int);
            match text::find(rest, seq!['\'']) {
                Some(e) => Some(rest.subrange(0, e)),
                None => None,
            }
        },
        None => None,
    }
}

/// Why the portal refused the credentials, read from its `msga='...'`.
pub open spec fn failure_reason(body: Seq<char>) -> Seq<char> {
    match quoted_value(body, "msga='"@) {
        Some(m) => if m.len() == 0 || m == "userid error3"@ {
            INVALID_CREDENTIALS_MESSAGE@
        } else if m == "error0"@ {
            "this IP does not allow web login"@
        } else if m == "error1"@ {
            "this account does not allow web login"@
        } else if m == "error2"@ {
            "this account does not allow password changes"@
        } else {
            "portal rejected the login: "@ + m
        },
        None => INVALID_CREDENTIALS_MESSAGE@,
    }
}

/// What a portal message code means.
pub open spec fn code_verdict(body: Seq<char>, code: nat) -> BodyVerdict {
    if code == 0 || code == 1 {
        BodyVerdict::Failure(failure_reason(body))
    } else if code == 2 {
        BodyVerdict::Failure("the account is already in use"@)
    } else if code == 3 {
        BodyVerdict::Failure("the account is restricted to a specific address"@)
    } else if code == 4 {
        BodyVerdict::Failure("the account is out of quota or time"@)
    } else if code == 5 {
        BodyVerdict::Failure("the account is suspended"@)
    } else if code == 6 {
        BodyVerdict::Failure("the portal system buffer is full"@)
    } else if code == 8 {
        BodyVerdict::Failure("the account is already in use and cannot be modified"@)
    } else if code == 11 {
        BodyVerdict::Failure("the account can only be used from a bound device"@)
    } else if code == 14 {
        BodyVerdict::Failure("portal reported logout success instead of login"@)
    } else if code == 15 {
        BodyVerdict::Success(LOGIN_OK_MESSAGE@)
    } else {
        BodyVerdict::Failure("portal returned Msg="@ + text::decimal(code))
    }
}

/// How a login reply page is read: an explicit success marker first, then
/// "already online", then the `Msg=` code, else nothing is known.
pub open spec fn login_body_verdict(body: Seq<char>) -> BodyVerdict {
    if text::contains(body, "Msg=15"@) || text::contains(body, "登录成功"@) {
        BodyVerdict::Success(LOGIN_OK_MESSAGE@)
    } else if text::contains(body, "Msg=7"@) {
        BodyVerdict::Success("account is already online"@)
    } else {
        match assignment_value(body, "Msg="@) {
            Some(code) => code_verdict(body, code),
            None => BodyVerdict::Unknown,
        }
    }
}

fn find_range(body: &Vec<char>, prefix: &str) -> (r: Option<usize>)
    ensures
        r matches Some(start) ==> text::find(body@, prefix@) matches Some(i) && start == i + prefix@.len()
            && start <= body@.len(),
        r is None ==> text::find(body@, prefix@) is None,
{
    match find_str(body, prefix) {
        Some(i) => {
            proof {
                crate::text::lemma_find(body@, prefix@);
            }
            let n = prefix.unicode_len();
            let len = body.len();
            assert(i + n <= len);
            Some(i + n)
        },
        None => None,
    }
}

fn numeric_assignment(body: &Vec<char>, prefix: &str) -> (r: Option<u32>)
    ensures
        r matches Some(v) ==> assignment_value(body@, prefix@) == Some(v as nat),
        r is None ==> assignment_value(body@, prefix@) is None,
{
    match find_range(body, prefix) {
        None => None,
        Some(start) => {
            let digits = leading_digits_from(body, start);
            assert(digits@.subrange(0, digits@.len() as int) =~= digits@);
            match parse_digits_chars(&digits, 0, 0xffff_ffffu64) {
                Some(v) => Some(v as u32),
                None => None,
            }
        },
    }
}

/// The number assigned right after `prefix` (as in `Msg=01`).
pub fn extract_numeric_assignment(body: &str, prefix: &str) -> (r: Option<u32>)
    ensures
        r matches Some(v) ==> assignment_value(body@, prefix@) == Some(v as nat),
        r is None ==> assignment_value(body@, prefix@) is None,
{
    let b = chars_of(body);
    numeric_assignment(&b, prefix)
}

fn quoted(body: &Vec<char>, prefix: &str) -> (r: Option<Vec<char>>)
    ensures
        r matches Some(v) ==> quoted_value(body@, prefix@) == Some(v@),
        r is None ==> quoted_value(body@, prefix@) is None,
{
    match find_range(body, prefix) {
        None => None,
        Some(start) => {
            let rest = suffix_from(body, start);
            let mut quote: Vec<char> = Vec::new();
            quote.push('\'');
            assert(quote@ =~= seq!['\'']);
            match crate::text::find_chars(&rest, &quote) {
                Some(e) => {
                    proof {
                        crate::text::lemma_find(rest@, quote@);
                    }
                    Some(slice_chars(&rest, 0, e))
                },
                None => None,
            }
        },
    }
}

/// The text quoted with `'` right after `prefix` (as in `msga='error0'`).
pub fn extract_single_quoted_value(body: &str, prefix: &str) -> (r: Option<String>)
    ensures
        url::option_string_view(r) == quoted_value(body@, prefix@),
{
    let b = chars_of(body);
    match quoted(&b, prefix) {
        Some(v) => Some(string_of(&v)),
        None => None,
    }
}

fn failure_message_of(body: &Vec<char>) -> (r: String)
    ensures
        r@ == failure_reason(body@),
{
    match quoted(body, "msga='") {
        Some(m) => {
            if m.len() == 0 || chars_eq_str(&m, "userid error3") {
                String::from_str(INVALID_CREDENTIALS_MESSAGE)
            } else if chars_eq_str(&m, "error0") {
                String::from_str("this IP does not allow web login")
            } else if chars_eq_str(&m, "error1") {
                String::from_str("this account does not allow web login")
            } else if chars_eq_str(&m, "error2") {
                String::from_str("this account does not allow password changes")
            } else {
                let mut out = chars_of("portal rejected the login: ");
                extend_chars(&mut out, &m);
                string_of(&out)
            }
        },
        None => String::from_str(INVALID_CREDENTIALS_MESSAGE),
    }
}

/// Why the portal refused the login, in words.
pub fn parse_failure_message(body: &str) -> (r: String)
    ensures
        r@ == failure_reason(body@),
{
    let b = chars_of(body);
    failure_message_of(&b)
}

/// Reads a login reply page.
pub fn classify_login_body(body: &str) -> (r: BodyResult)
    ensures
        r@ == login_body_verdict(body@),
{
    let b = chars_of(body);
    if contains_str(&b, "Msg=15") || contains_str(&b, "登录成功") {
        return BodyResult::Success(String::from_str(LOGIN_OK_MESSAGE));
    }
    if contains_str(&b, "Msg=7") {
        return BodyResult::Success(String::from_str("account is already online"));
    }
    match numeric_assignment(&b, "Msg=") {
        Some(code) => {
            if code == 0 || code == 1 {
                BodyResult::Failure(failure_message_of(&b))
            } else if code == 2 {
                BodyResult::Failure(String::from_str("the account is already in use"))
            } else if code == 3 {
                BodyResult::Failure(
                    String::from_str("the account is restricted to a specific address"),
                )
            } else if code == 4 {
                BodyResult::Failure(String::from_str("the account is out of quota or time"))
            } else if code == 5 {
                BodyResult::Failure(String::from_str("the account is suspended"))
            } else if code == 6 {
                BodyResult::Failure(String::from_str("the portal system buffer is full"))
            } else if code == 8 {
                BodyResult::Failure(
                    String::from_str("the account is already in use and cannot be modified"),
                )
            } else if code == 11 {
                BodyResult::Failure(
                    String::from_str("the account can only be used from a bound device"),
                )
            } else if code == 14 {
                BodyResult::Failure(
                    String::from_str("portal reported logout success instead of login"),
                )
            } else if code == 15 {
                BodyResult::Success(String::from_str(LOGIN_OK_MESSAGE))
            } else {
                let mut out = chars_of("portal returned Msg=");
                let d = decimal_chars(code as u64);
                extend_chars(&mut out, &d);
                BodyResult::Failure(string_of(&out))
            }
        },
        None => BodyResult::Unknown,
    }
}

// ---------------------------------------------------------------------------
// Recognising the captive portal
// ---------------------------------------------------------------------------

/// A probe reply comes from the captive portal: it ended on the portal's
/// host, the server calls itself `DrcomServer`, or the page carries one of
/// the portal's login-form markers.
pub open spec fn is_portal_reply(
    final_host: Option<Seq<char>>,
    server_header: Seq<char>,
    snippet: Seq<char>,
    portal_host: Option<Seq<char>>,
) -> bool {
    ||| (portal_host is Some && final_host == portal_host)
    ||| text::contains(server_header, "DrcomServer"@)
    ||| text::contains(snippet, "Dr.COMWebLoginID"@)
    ||| text::contains(snippet, "name=\"DDDDD\""@)
    ||| text::contains(snippet, "name=\"upass\""@)
    ||| text::contains(snippet, "function ee()"@)
}

fn same_host(a: &Option<String>, b: &Option<String>) -> (r: bool)
    requires
        b is Some,
    ensures
        r == (url::option_string_view(*a) == url::option_string_view(*b)),
{
    match (a, b) {
        (Some(x), Some(y)) => {
            let xv = chars_of(x.as_str());
            chars_eq_str(&xv, y.as_str())
        },
        _ => false,
    }
}

/// Whether a probe reply is the captive portal's page.
pub fn looks_like_portal(
    final_host: &Option<String>,
    server_header: &str,
    snippet: &str,
    portal_host: &Option<String>,
) -> (r: bool)
    ensures
        r == is_portal_reply(
            url::option_string_view(*final_host),
            server_header@,
            snippet@,
            url::option_string_view(*portal_host),
        ),
{
    if portal_host.is_some() && same_host(final_host, portal_host) {
        return true;
    }
    let server = chars_of(server_header);
    if contains_str(&server, "DrcomServer") {
        return true;
    }
    let page = chars_of(snippet);
    contains_str(&page, "Dr.COMWebLoginID") || contains_str(&page, "name=\"DDDDD\"")
        || contains_str(&page, "name=\"upass\"") || contains_str(&page, "function ee()")
}

/// The host of the configured portal URL, if it parses.
pub fn portal_host(portal_url: &str) -> (r: Option<String>)
    ensures
        url::option_string_view(r) == url::url_host(portal_url@),
{
    match parse_url(portal_url) {
        Some(u) => u.host,
        None => None,
    }
}

// ---------------------------------------------------------------------------
// The login request
// ---------------------------------------------------------------------------

/// `scheme://host[:port]` of a URL, as the `Origin` header carries it.
pub open spec fn origin_text(u: UrlView) -> Seq<char> {
    u.scheme + "://"@ + (match u.host {
        Some(h) => h,
        None => Seq::empty(),
    }) + (match u.port {
        Some(p) => seq![':'] + text::decimal(p as nat),
        None => Seq::empty(),
    })
}

/// The `Origin` header value for a portal URL.
pub fn portal_origin(u: &UrlParts) -> (r: String)
    ensures
        r@ == origin_text(u@),
{
    let mut out = chars_of(u.scheme.as_str());
    extend_str(&mut out, "://");
    match &u.host {
        Some(h) => extend_str(&mut out, h.as_str()),
        None => {},
    }
    match u.port {
        Some(p) => {
            out.push(':');
            let d = decimal_chars(p as u64);
            extend_chars(&mut out, &d);
        },
        None => {},
    }
    string_of(&out)
}

/// The fields of the login form, in the order they are sent.
pub open spec fn login_form_fields(username: Seq<char>, password: Seq<char>) -> Seq<
    (Seq<char>, Seq<char>),
> {
    seq![
        ("DDDDD"@, username),
        ("upass"@, encoded_password(password)),
        ("R1"@, "0"@),
        ("R2"@, "1"@),
        ("para"@, "00"@),
        ("0MKKey"@, "123456"@),
        ("v6ip"@, ""@),
    ]
}

pub open spec fn pairs_view(form: Seq<(String, String)>) -> Seq<(Seq<char>, Seq<char>)> {
    form.map_values(|p: (String, String)| (p.0@, p.1@))
}

/// A login POST to send to the portal.
#[derive(Debug, Clone)]
pub struct LoginRequest {
    /// Where to post: the portal URL as `reqwest::Url` serializes it.
    pub url: String,
    pub referer: String,
    pub origin: String,
    /// The `application/x-www-form-urlencoded` fields.
    pub form: Vec<(String, String)>,
}

/// Why a login request could not be formed.
#[derive(Debug, Clone, PartialEq, Eq)]
pub enum PortalError {
    InvalidPortalUrl,
}

impl PortalError {
    pub fn message(&self) -> (m: String)
        ensures
            m@ == "portal_url is invalid"@,
    {
        String::from_str("portal_url is invalid")
    }
}

fn pair(a: &str, b: String) -> (r: (String, String))
    ensures
        r.0@ == a@,
        r.1 == b,
{
    (String::from_str(a), b)
}

/// The login request for the configured account: refused when the portal
/// URL does not parse; otherwise posted to it, with its origin and the
/// form that carries the user name and the transformed password.
pub fn login_request(config: &AppConfig) -> (r: Result<LoginRequest, PortalError>)
    ensures
        match url::url_parse(config.auth.portal_url@) {
            None => r is Err,
            Some(u) => (r matches Ok(req) && req.url@ == u.href && req.referer@ == u.href
                && req.origin@ == origin_text(u) && pairs_view(req.form@) == login_form_fields(
                config.auth.username@,
                config.auth.password@,
            )),
        },
{
    let parts = match parse_url(config.auth.portal_url.as_str()) {
        Some(p) => p,
        None => {
            return Err(PortalError::InvalidPortalUrl);
        },
    };
    let origin = portal_origin(&parts);
    let encoded = encode_password(config.auth.password.as_str());
    let mut form: Vec<(String, String)> = Vec::new();
    form.push(pair("DDDDD", config.auth.username.clone()));
    form.push(pair("upass", encoded));
    form.push(pair("R1", String::from_str("0")));
    form.push(pair("R2", String::from_str("1")));
    form.push(pair("para", String::from_str("00")));
    form.push(pair("0MKKey", String::from_str("123456")));
    form.push(pair("v6ip", String::from_str("")));
    assert(pairs_view(form@) =~= login_form_fields(
        config.auth.username@,
        config.auth.password@,
    ));
    Ok(LoginRequest { url: parts.href.clone(), referer: parts.href, origin, form })
}

// ---------------------------------------------------------------------------
// Probe and login outcomes
// ---------------------------------------------------------------------------

/// What the connectivity probe found.
#[derive(Debug, Clone, PartialEq, Eq)]
pub enum ProbeStatus {
    Online,
    NeedsLogin,
    Unreachable(String),
}

pub enum ProbeView {
    Online,
    NeedsLogin,
    Unreachable(Seq<char>),
}

impl View for ProbeStatus {
    type V = ProbeView;

    open spec fn view(&self) -> ProbeView {
        match self {
            ProbeStatus::Online => ProbeView::Online,
            ProbeStatus::NeedsLogin => ProbeView::NeedsLogin,
            ProbeStatus::Unreachable(d) => ProbeView::Unreachable(d@),
        }
    }
}

#[derive(Debug, Clone, Copy, PartialEq, Eq, Structural)]
pub enum LoginStatus {
    Success,
    Failed,
}

#[derive(Debug, Clone, PartialEq, Eq)]
pub struct LoginOutcome {
    pub status: LoginStatus,
    pub detail: String,
}

/// What a login attempt amounts to, given how the reply page read and what
/// the probe found afterwards: a reachable probe URL is success whatever
/// the page said; anything else is a failure, explained.
pub open spec fn login_verdict(body: BodyVerdict, probe: ProbeView) -> (LoginStatus, Seq<char>) {
    match (body, probe) {
        (_, ProbeView::Online) => (
            LoginStatus::Success,
            "authentication passed and the probe URL is reachable"@,
        ),
        (BodyVerdict::Failure(reason), _) => (LoginStatus::Failed, reason),
        (BodyVerdict::Success(reason), ProbeView::NeedsLogin) => (
            LoginStatus::Failed,
            reason + ", but the probe URL is still redirected to the portal"@,
        ),
        (BodyVerdict::Success(reason), ProbeView::Unreachable(d)) => (
            LoginStatus::Failed,
            reason + ", but the connectivity check failed: "@ + d,
        ),
        (BodyVerdict::Unknown, ProbeView::NeedsLogin) => (
            LoginStatus::Failed,
            "portal still intercepts traffic after login"@,
        ),
        (BodyVerdict::Unknown, ProbeView::Unreachable(d)) => (
            LoginStatus::Failed,
            "login result was unclear and the probe failed: "@ + d,
        ),
    }
}

/// Combines the reading of the reply page with the probe that followed.
pub fn login_outcome(body: BodyResult, probe: ProbeStatus) -> (r: LoginOutcome)
    ensures
        (r.status, r.detail@) == login_verdict(body@, probe@),
{
    match (body, probe) {
        (_, ProbeStatus::Online) => LoginOutcome {
            status: LoginStatus::Success,
            detail: String::from_str("authentication passed and the probe URL is reachable"),
        },
        (BodyResult::Failure(reason), _) => LoginOutcome { status: LoginStatus::Failed, detail: reason },
        (BodyResult::Success(reason), ProbeStatus::NeedsLogin) => {
            let mut detail = reason;
            detail.append(", but the probe URL is still redirected to the portal");
            LoginOutcome { status: LoginStatus::Failed, detail }
        },
        (BodyResult::Success(reason), ProbeStatus::Unreachable(d)) => {
            let mut detail = reason;
            detail.append(", but the connectivity check failed: ");
            detail.append(d.as_str());
            LoginOutcome { status: LoginStatus::Failed, detail }
        },
        (BodyResult::Unknown, ProbeStatus::NeedsLogin) => LoginOutcome {
            status: LoginStatus::Failed,
            detail: String::from_str("portal still intercepts traffic after login"),
        },
        (BodyResult::Unknown, ProbeStatus::Unreachable(d)) => {
            let mut detail = String::from_str("login result was unclear and the probe failed: ");
            detail.append(d.as_str());
            LoginOutcome { status: LoginStatus::Failed, detail }
        },
    }
}

/// How a probe request failed, as `reqwest::Error` classifies it.
#[derive(Debug, Clone, Copy, PartialEq, Eq)]
pub enum RequestFailure {
    TimedOut,
    ConnectFailed,
    NotSent,
    Other,
}

pub open spec fn unreachable_text(kind: RequestFailure, error: Seq<char>) -> Seq<char> {
    match kind {
        RequestFailure::TimedOut => "request timed out: "@ + error,
        RequestFailure::ConnectFailed => "connection failed: "@ + error,
        RequestFailure::NotSent => "request could not be sent: "@ + error,
        RequestFailure::Other => "request failed: "@ + error,
    }
}

/// The probe status for a request that failed, with the error's text.
pub fn unreachable_status(kind: RequestFailure, error: &str) -> (r: ProbeStatus)
    ensures
        r@ == ProbeView::Unreachable(unreachable_text(kind, error@)),
{
    let mut detail = match kind {
        RequestFailure::TimedOut => String::from_str("request timed out: "),
        RequestFailure::ConnectFailed => String::from_str("connection failed: "),
        RequestFailure::NotSent => String::from_str("request could not be sent: "),
        RequestFailure::Other => String::from_str("request failed: "),
    };
    detail.append(error);
    ProbeStatus::Unreachable(detail)
}

/// The probe status for a reply that arrived.
pub fn reply_status(
    final_host: &Option<String>,
    server_header: &str,
    snippet: &str,
    portal_url: &str,
) -> (r: ProbeStatus)
    ensures
        r@ == (if is_portal_reply(
            url::option_string_view(*final_host),
            server_header@,
            snippet@,
            url::url_host(portal_url@),
        ) {
            ProbeView::NeedsLogin
        } else {
            ProbeView::Online
        }),
{
    let host = portal_host(portal_url);
    if looks_like_portal(final_host, server_header, snippet, &host) {
        ProbeStatus::NeedsLogin
    } else {
        ProbeStatus::Online
    }
}

} // verus!

verus! {

/// Reads a login reply from the bytes received.
pub fn classify_login_reply(body: &[u8]) -> (r: BodyResult)
    ensures
        r@ == login_body_verdict(utf8_lossy(body@)),
{
    let text = decode_body(body);
    classify_login_body(text.as_str())
}

/// The probe status for a reply that arrived, from the bytes of the start
/// of its page.
pub fn probe_reply_status(
    final_host: &Option<String>,
    server_header: &str,
    snippet: &[u8],
    portal_url: &str,
) -> (r: ProbeStatus)
    ensures
        r@ == (if is_portal_reply(
            url::option_string_view(*final_host),
            server_header@,
            utf8_lossy(snippet@),
            url::url_host(portal_url@),
        ) {
            ProbeView::NeedsLogin
        } else {
            ProbeView::Online
        }),
{
    let text = decode_body(snippet);
    reply_status(final_host, server_header, text.as_str(), portal_url)
}

} // verus!

verus! {

/// A login counts as successful exactly when the probe afterwards reaches
/// the internet, whatever the reply page said.
pub proof fn lemma_login_success_iff_online(body: BodyVerdict, probe: ProbeView)
    ensures
        (login_verdict(body, probe).0 == LoginStatus::Success) <==> probe is Online,
{
}

/// A reply carrying `Msg=15` is a successful login, whatever else it says.
pub proof fn lemma_success_code_wins(body: Seq<char>)
    requires
        text::contains(body, "Msg=15"@),
    ensures
        login_body_verdict(body) == BodyVerdict::Success(LOGIN_OK_MESSAGE@),
{
}

/// Two hexadecimal digits per byte.
pub proof fn lemma_lower_hex_len(bytes: Seq<u8>)
    ensures
        lower_hex(bytes).len() == 2 * bytes.len(),
    decreases bytes.len(),
{
    if bytes.len() > 0 {
        lemma_lower_hex_len(bytes.drop_last());
    }
}

/// The transformed password, given a 16-byte digest: 32 hexadecimal
/// digits followed by `"12345678"` and `"2"`.
proof fn lemma_encoded_password_shape(password: Seq<char>)
    requires
        md5_digest(vstd::utf8::encode_utf8(PASSWORD_PID@ + password + PASSWORD_CALG@)).len() == 16,
    ensures
        encoded_password(password).len() == 32 + PASSWORD_CALG@.len() + PASSWORD_PID@.len(),
        encoded_password(password).subrange(32, encoded_password(password).len() as int)
            == PASSWORD_CALG@ + PASSWORD_PID@,
{
    let d = md5_digest(vstd::utf8::encode_utf8(PASSWORD_PID@ + password + PASSWORD_CALG@));
    lemma_lower_hex_len(d);
    let e = encoded_password(password);
    assert(e.subrange(32, e.len() as int) =~= PASSWORD_CALG@ + PASSWORD_PID@);
}


/// Each sign of the portal is enough on its own, whatever the others say:
/// ending on the portal's host, a `DrcomServer` server header, or any of
/// the login page's markers, wherever the probe ended. A reply with none of
/// them is not the portal's.
pub proof fn lemma_portal_signs(
    final_host: Option<Seq<char>>,
    server_header: Seq<char>,
    snippet: Seq<char>,
    portal_host: Option<Seq<char>>,
)
    ensures
        (portal_host is Some && final_host == portal_host) ==> is_portal_reply(
            final_host,
            server_header,
            snippet,
            portal_host,
        ),
        text::contains(server_header, "DrcomServer"@) ==> is_portal_reply(
            final_host,
            server_header,
            snippet,
            portal_host,
        ),
        text::contains(snippet, "Dr.COMWebLoginID"@) ==> is_portal_reply(
            final_host,
            server_header,
            snippet,
            portal_host,
        ),
        text::contains(snippet, "name=\"DDDDD\""@) ==> is_portal_reply(
            final_host,
            server_header,
            snippet,
            portal_host,
        ),
        text::contains(snippet, "name=\"upass\""@) ==> is_portal_reply(
            final_host,
            server_header,
            snippet,
            portal_host,
        ),
        text::contains(snippet, "function ee()"@) ==> is_portal_reply(
            final_host,
            server_header,
            snippet,
            portal_host,
        ),
        !(portal_host is Some && final_host == portal_host) && !text::contains(
            server_header,
            "DrcomServer"@,
        ) && !text::contains(snippet, "Dr.COMWebLoginID"@) && !text::contains(
            snippet,
            "name=\"DDDDD\""@,
        ) && !text::contains(snippet, "name=\"upass\""@) && !text::contains(
            snippet,
            "function ee()"@,
        ) ==> !is_portal_reply(final_host, server_header, snippet, portal_host),
{
}

} // verus!
