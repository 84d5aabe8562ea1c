//! The parcferme.cc device API, as values and decisions.
//!
//! The HTTP round trips are the application's; what each response means is
//! decided here: which sim a download belongs to, what a token-endpoint
//! error code says, which status becomes which error, and how the origin
//! and relative URLs are put together.
use vstd::prelude::*;

use crate::error::Error;
use crate::sim::{spec_from_filename, spec_from_id, Sim};
use crate::text::{
    debug_quoted, debug_text, decimal, find_sub, find_sub_chars, push_decimal, slice_chars,
    starts_with, string_of, to_chars, trim_end_char, trim_end_char_chars,
};

verus! {

/// Production web origin. The `www.` host is the canonical one: the apex
/// answers with a 308 redirect, and a 308 on POST is not followed.
pub const DEFAULT_BASE_URL: &'static str = "https://www.parcferme.cc";

/// OAuth client identifier for the desktop tray app.
pub const CLIENT_ID: &'static str = "pf-desktop";

/// Device-grant type per RFC 8628.
pub const DEVICE_GRANT_TYPE: &'static str = "urn:ietf:params:oauth:grant-type:device_code";

/// Response of `POST /api/device/code` (RFC 8628 §3.2).
#[derive(Debug, Clone)]
pub struct DeviceCodeResponse {
    /// Secret used by the device to poll for the token. Never shown.
    pub device_code: String,
    /// Short human code the user types at the verification URI.
    pub user_code: String,
    /// Where the user goes to approve.
    pub verification_uri: String,
    /// Verification URI with the user code pre-filled, if provided.
    pub verification_uri_complete: Option<String>,
    /// Lifetime of the codes, in seconds.
    pub expires_in: u64,
    /// Minimum seconds between polls.
    pub interval: u64,
}

/// The signed-in user the device is linked to.
#[derive(Debug, Clone, PartialEq, Eq)]
pub struct DeviceUser {
    pub id: String,
    pub name: Option<String>,
    pub image: Option<String>,
}

/// Successful token response from `POST /api/device/token`.
#[derive(Debug, Clone)]
pub struct TokenResponse {
    pub access_token: String,
    pub user: Option<DeviceUser>,
}

/// Everything needed to install one setup file, from the device download
/// endpoint.
#[derive(Debug, Clone)]
pub struct DownloadInfo {
    /// Short-lived presigned URL for the setup bytes.
    pub url: String,
    /// The setup file's name. Sanitized before use.
    pub filename: String,
    /// Which sim the server tagged the setup for, raw; see
    /// [`DownloadInfo::resolved_sim`].
    pub sim: Option<String>,
    /// Car folder name — the `<car>` subfolder.
    pub car: String,
    /// Track folder name, for sims that nest by track.
    pub track: Option<String>,
    /// The setup's display name.
    pub name: Option<String>,
}

/// One setup the linked account can install.
#[derive(Debug, Clone, PartialEq, Eq)]
pub struct SetupSummary {
    pub id: String,
    pub name: String,
    pub car: String,
    pub track: Option<String>,
}

/// The setup an upload created: its id and page URL.
#[derive(Debug, Clone, PartialEq, Eq)]
pub struct UploadResult {
    pub id: String,
    pub url: String,
}

/// The sim a download belongs to: the file's extension when it names one
/// (it is ground truth), else the server's tag, else iRacing.
pub open spec fn download_sim(tag: Option<Seq<char>>, filename: Seq<char>) -> Sim {
    let tagged = match tag {
        Some(t) => spec_from_id(t),
        None => None,
    };
    match (tagged, spec_from_filename(filename)) {
        (_, Some(fmt)) => fmt,
        (Some(t), None) => t,
        (None, None) => Sim::IRacing,
    }
}

impl DownloadInfo {
    /// Decide which sim this file actually belongs to. The extension wins
    /// over a contradicting server tag; the tag decides only when the
    /// extension is unrecognized; neither present means iRacing.
    pub fn resolved_sim(&self) -> (r: Sim)
        ensures
            r == download_sim(
                match self.sim {
                    Some(t) => Some(t@),
                    None => None,
                },
                self.filename@,
            ),
    {
        let tagged = match &self.sim {
            Some(t) => Sim::from_id(t.as_str()),
            None => None,
        };
        let by_format = Sim::from_filename(self.filename.as_str());
        match (tagged, by_format) {
            (Some(tag), Some(fmt)) => {
                if tag != fmt {
                    fmt
                } else {
                    tag
                }
            },
            (Some(tag), None) => tag,
            (None, Some(fmt)) => fmt,
            (None, None) => Sim::IRacing,
        }
    }
}

/// A recognized extension always decides the sim, whatever the server's
/// tag says.
pub proof fn law_extension_is_ground_truth(tag: Option<Seq<char>>, filename: Seq<char>)
    ensures
        spec_from_filename(filename) matches Some(fmt) ==> download_sim(tag, filename) == fmt,
{
}

/// Outcome of one poll of the device-token endpoint.
#[derive(Debug)]
pub enum TokenPoll {
    /// The user approved; the token and its owner are enclosed.
    Granted(TokenResponse),
    /// Not approved yet — keep polling.
    Pending,
    /// Polling too fast — back off first.
    SlowDown,
    /// The user declined.
    Denied,
    /// The device code expired before approval.
    Expired,
}

/// The RFC 8628 error code `code` read as a poll outcome; anything unknown
/// is expiry, so the UI fails closed rather than polling forever.
pub open spec fn token_outcome(code: Seq<char>) -> TokenPoll {
    if code == "authorization_pending"@ {
        TokenPoll::Pending
    } else if code == "slow_down"@ {
        TokenPoll::SlowDown
    } else if code == "access_denied"@ {
        TokenPoll::Denied
    } else {
        TokenPoll::Expired
    }
}

fn text_is(a: &str, b: &str) -> (r: bool)
    ensures
        r == (a@ == b@),
{
    crate::text::chars_eq(&to_chars(a), &to_chars(b))
}

/// Map an RFC 8628 token-endpoint error code to a [`TokenPoll`].
pub fn map_token_error(code: &str) -> (r: TokenPoll)
    ensures
        r == token_outcome(code@),
{
    if text_is(code, "authorization_pending") {
        TokenPoll::Pending
    } else if text_is(code, "slow_down") {
        TokenPoll::SlowDown
    } else if text_is(code, "access_denied") {
        TokenPoll::Denied
    } else if text_is(code, "expired_token") {
        TokenPoll::Expired
    } else {
        TokenPoll::Expired
    }
}

/// A client bound to one parcferme.cc origin (trailing slashes stripped).
#[derive(Debug, Clone)]
pub struct ApiClient {
    base_url: String,
}

impl ApiClient {
    /// The origin this client talks to.
    pub closed spec fn origin(&self) -> Seq<char> {
        self.base_url@
    }

    /// A client for an explicit base URL.
    pub fn new(base_url: String) -> (r: ApiClient)
        ensures
            r.origin() == trim_end_char(base_url@, '/'),
    {
        ApiClient { base_url: normalize_base(base_url) }
    }

    /// The origin, as text.
    pub fn base_url(&self) -> (r: &str)
        ensures
            r@ == self.origin(),
    {
        self.base_url.as_str()
    }

    /// The full URL of an API path.
    pub fn url(&self, path: &str) -> (r: String)
        ensures
            r@ == self.origin() + path@,
    {
        let mut s = self.base_url.clone();
        s.append(path);
        s
    }

    /// Resolve a possibly-relative URL returned by the web API against this
    /// client's origin. Absolute `http(s)` URLs are returned unchanged.
    pub fn absolutize(&self, url: String) -> (r: String)
        ensures
            r@ == absolutized(self.origin(), url@),
    {
        let v = to_chars(url.as_str());
        let http: Vec<char> = vec!['h', 't', 't', 'p', ':', '/', '/'];
        let https: Vec<char> = vec!['h', 't', 't', 'p', 's', ':', '/', '/'];
        assert(http@ =~= http_prefix());
        assert(https@ =~= https_prefix());
        if crate::text::starts_with_chars(&v, &http) || crate::text::starts_with_chars(&v, &https) {
            url
        } else if v.len() > 0 && v[0] == '/' {
            let mut s = self.base_url.clone();
            s.append(url.as_str());
            s
        } else {
            let mut s = self.base_url.clone();
            s.push('/');
            s.append(url.as_str());
            s
        }
    }
}

pub open spec fn http_prefix() -> Seq<char> {
    seq!['h', 't', 't', 'p', ':', '/', '/']
}

pub open spec fn https_prefix() -> Seq<char> {
    seq!['h', 't', 't', 'p', 's', ':', '/', '/']
}

/// `url` resolved against `origin`.
pub open spec fn absolutized(origin: Seq<char>, url: Seq<char>) -> Seq<char> {
    if starts_with(url, http_prefix()) || starts_with(url, https_prefix()) {
        url
    } else if url.len() > 0 && url[0] == '/' {
        origin + url
    } else {
        origin + seq!['/'] + url
    }
}

/// Strip trailing slashes so paths can be joined uniformly.
pub fn normalize_base(base: String) -> (r: String)
    ensures
        r@ == trim_end_char(base@, '/'),
{
    string_of(&trim_end_char_chars(&to_chars(base.as_str()), '/'))
}

/// The token response with the user's avatar URL resolved against the
/// client's origin (the web API returns custom avatars as relative URLs).
pub fn granted(token: TokenResponse, client: &ApiClient) -> (r: TokenPoll)
    ensures
        r matches TokenPoll::Granted(t) && t.access_token == token.access_token && match token.user {
            Some(u) => t.user matches Some(v) && v.id == u.id && v.name == u.name && match u.image {
                Some(img) => v.image matches Some(w) && w@ == absolutized(client.origin(), img@),
                None => v.image is None,
            },
            None => t.user is None,
        },
{
    let TokenResponse { access_token, user } = token;
    let user = match user {
        Some(u) => {
            let DeviceUser { id, name, image } = u;
            let image = match image {
                Some(img) => Some(client.absolutize(img)),
                None => None,
            };
            Some(DeviceUser { id, name, image })
        },
        None => None,
    };
    TokenPoll::Granted(TokenResponse { access_token, user })
}

/// The error for a non-success status from `/api/device/code`.
pub fn device_code_http_error(code: u16) -> (r: Error)
    ensures
        r matches Error::Api(m) && m@ == "server returned HTTP "@ + decimal(code as nat)
            + " for /api/device/code — is the ParcFermé desktop API deployed at this URL?"@,
{
    let mut m = String::from_str("server returned HTTP ");
    push_decimal(&mut m, code as u64);
    m.append(" for /api/device/code — is the ParcFermé desktop API deployed at this URL?");
    Error::Api(m)
}

/// The error for a non-success status from the download endpoint, given
/// the `error` field of the response body (empty when there was none): 401
/// is a revoked device, 403 no access, 404 a stale link; anything else is an
/// API error quoting the status and the server's text.
pub fn download_http_error(code: u16, body_error: &str) -> (r: Error)
    ensures
        code == 401 ==> r == Error::DeviceRevoked,
        code == 403 ==> r == Error::AccessDenied,
        code == 404 ==> r == Error::SetupNotFound,
        code != 401 && code != 403 && code != 404 ==> (r matches Error::Api(m) && m@
            == "download failed (HTTP "@ + decimal(code as nat) + ")"@ + (if body_error@.len()
            == 0 {
            Seq::empty()
        } else {
            ": "@ + body_error@
        })),
{
    if code == 401 {
        return Error::DeviceRevoked;
    }
    if code == 403 {
        return Error::AccessDenied;
    }
    if code == 404 {
        return Error::SetupNotFound;
    }
    let mut m = String::from_str("download failed (HTTP ");
    push_decimal(&mut m, code as u64);
    m.append(")");
    if body_error.unicode_len() > 0 {
        m.append(": ");
        m.append(body_error);
    }
    Error::Api(m)
}

/// Whether a response's content type announces JSON.
pub fn is_json_content(content_type: &str) -> (r: bool)
    ensures
        r == (find_sub(content_type@, seq!['j', 's', 'o', 'n']) is Some),
{
    let json: Vec<char> = vec!['j', 's', 'o', 'n'];
    assert(json@ =~= seq!['j', 's', 'o', 'n']);
    find_sub_chars(&to_chars(content_type), &json).is_some()
}

/// The error for a successful response that is not JSON (an HTML page, a
/// redirect body, a proxy error), quoting the first 80 characters of it.
pub fn unexpected_body_error(status: u16, content_type: &str, body: &str) -> (r: Error)
    ensures
        r matches Error::Api(m) && m@ == "expected JSON but got HTTP "@ + decimal(status as nat)
            + " ("@ + content_type@ + "). Is the desktop API deployed at this URL? Response began: "@
            + debug_text(if body@.len() <= 80 {
            body@
        } else {
            body@.take(80)
        }),
{
    let v = to_chars(body);
    let n: usize = if v.len() <= 80 {
        v.len()
    } else {
        80
    };
    let snippet = string_of(&slice_chars(&v, 0, n));
    assert(snippet@ =~= (if body@.len() <= 80 {
        body@
    } else {
        body@.take(80)
    }));
    let mut m = String::from_str("expected JSON but got HTTP ");
    push_decimal(&mut m, status as u64);
    m.append(" (");
    m.append(content_type);
    m.append("). Is the desktop API deployed at this URL? Response began: ");
    m.append(debug_quoted(snippet.as_str()).as_str());
    Error::Api(m)
}

/// The error for a JSON body that does not parse; `detail` is the parser's
/// message.
pub fn invalid_json_error(status: u16, detail: &str) -> (r: Error)
    ensures
        r matches Error::Api(m) && m@ == "invalid JSON from server (HTTP "@ + decimal(status as nat)
            + "): "@ + detail@,
{
    let mut m = String::from_str("invalid JSON from server (HTTP ");
    push_decimal(&mut m, status as u64);
    m.append("): ");
    m.append(detail);
    Error::Api(m)
}

} // verus!
