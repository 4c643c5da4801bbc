//! The parts of talking to the server that are decisions on plain values:
//! the base URL, and how error responses are described.

use vstd::prelude::*;

use crate::text::{
    chars_of, contains_chars, ends_with_chars, has_substring, has_suffix, owned, string_from_chars,
    trim, trim_chars,
};

verus! {

broadcast use vstd::string::group_string_axioms;

/// How many characters of a response body an error message keeps.
pub const MAX_RESPONSE_BODY_CHARS: usize = 4096;

/// The parts of a parsed URL that the checks look at.
#[derive(Debug)]
pub struct UrlParts {
    pub scheme: String,
    pub host: Option<String>,
    pub path: String,
    pub query: Option<String>,
    pub fragment: Option<String>,
}

/// The characters of the parts of a parsed URL.
pub ghost struct UrlPartsView {
    pub scheme: Seq<char>,
    pub host: Option<Seq<char>>,
    pub path: Seq<char>,
    pub query: Option<Seq<char>>,
    pub fragment: Option<Seq<char>>,
}

impl View for UrlParts {
    type V = UrlPartsView;

    open spec fn view(&self) -> UrlPartsView {
        UrlPartsView {
            scheme: self.scheme@,
            host: crate::dto::opt_view(self.host),
            path: self.path@,
            query: crate::dto::opt_view(self.query),
            fragment: crate::dto::opt_view(self.fragment),
        }
    }
}

/// What `Url::parse` gives for `input`: the parts of the URL, or the text of
/// the parse error.
pub uninterp spec fn parsed_url(input: Seq<char>) -> Result<UrlPartsView, Seq<char>>;

/// The view of a parse result.
pub open spec fn parse_result_view(r: Result<UrlParts, String>) -> Result<UrlPartsView, Seq<char>> {
    match r {
        Ok(p) => Ok(p@),
        Err(e) => Err(e@),
    }
}

/// `url::Url::parse` (through `reqwest::Url`): parses `input` as an absolute
/// URL and gives its scheme, host, path, query and fragment, or the text of
/// the parse error.
#[verifier::external_body]
fn parse_url(input: &str) -> (r: Result<UrlParts, String>)
    ensures
        parse_result_view(r) == parsed_url(input@),
{
    match reqwest::Url::parse(input) {
        Ok(url) => Ok(UrlParts {
            scheme: url.scheme().to_string(),
            host: url.host_str().map(|h| h.to_string()),
            path: url.path().to_string(),
            query: url.query().map(|q| q.to_string()),
            fragment: url.fragment().map(|f| f.to_string()),
        }),
        Err(error) => Err(error.to_string()),
    }
}

/// Why a base URL was refused.
#[derive(Debug)]
pub enum UrlError {
    Empty,
    Invalid { cause: String },
    UnsupportedScheme,
    MissingHost,
    HasQuery,
    HasFragment,
}

/// `s` without trailing slashes.
pub open spec fn trim_trailing_slashes(s: Seq<char>) -> Seq<char>
    decreases s.len(),
{
    if s.len() > 0 && s.last() == '/' {
        trim_trailing_slashes(s.drop_last())
    } else {
        s
    }
}

/// The base URL as given, trimmed and without trailing slashes.
pub open spec fn cleaned_base_url(value: Seq<char>) -> Seq<char> {
    trim_trailing_slashes(trim(value))
}

/// The API root for a checked base URL: kept where its path already names
/// an API, else extended with the default API path.
pub open spec fn api_root(base: Seq<char>, path: Seq<char>) -> Seq<char> {
    if has_substring(path, "/api/"@) {
        base
    } else if has_suffix(base, "/app"@) {
        base + "/api/v1"@
    } else {
        base + "/app/api/v1"@
    }
}

/// Whether `r` is what a cleaned base URL `base`, parsed as `parsed`, gives:
/// the parse error; else the first refused part (scheme, host, query,
/// fragment); else the API root.
pub open spec fn root_result(
    base: Seq<char>,
    parsed: Result<UrlPartsView, Seq<char>>,
    r: Result<String, UrlError>,
) -> bool {
    match parsed {
        Err(cause) => r matches Err(UrlError::Invalid { cause: c }) && c@ == cause,
        Ok(parts) => if parts.scheme != "http"@ && parts.scheme != "https"@ {
            r matches Err(UrlError::UnsupportedScheme)
        } else if parts.host is None {
            r matches Err(UrlError::MissingHost)
        } else if parts.query is Some {
            r matches Err(UrlError::HasQuery)
        } else if parts.fragment is Some {
            r matches Err(UrlError::HasFragment)
        } else {
            r matches Ok(s) && s@ == api_root(base, parts.path)
        },
    }
}

/// Whether `normalize_base_url` gives `r` for `value`.
pub open spec fn base_url_result(value: Seq<char>, r: Result<String, UrlError>) -> bool {
    let base = cleaned_base_url(value);
    if base.len() == 0 {
        r matches Err(UrlError::Empty)
    } else {
        root_result(base, parsed_url(base), r)
    }
}

fn trim_slashes_end(v: &Vec<char>) -> (r: Vec<char>)
    ensures
        r@ == trim_trailing_slashes(v@),
{
    let mut end: usize = v.len();
    assert(v@.take(end as int) =~= v@);
    while end > 0 && v[end - 1] == '/'
        invariant
            end <= v@.len(),
            trim_trailing_slashes(v@) == trim_trailing_slashes(v@.take(end as int)),
        decreases end,
    {
        assert(v@.take(end as int).drop_last() =~= v@.take(end - 1));
        end -= 1;
    }
    let mut r: Vec<char> = Vec::new();
    let mut k: usize = 0;
    while k < end
        invariant
            k <= end <= v@.len(),
            r@ == v@.take(k as int),
        decreases end - k,
    {
        r.push(v[k]);
        assert(v@.take(k + 1) == v@.take(k as int).push(v@[k as int]));
        k += 1;
    }
    r
}

fn str_is(s: &String, lit: &str) -> (r: bool)
    ensures
        r == (s@ == lit@),
{
    let t = owned(lit);
    s.eq(&t)
}

/// The API root for a base URL given by the user, either an origin
/// (`http://host`) or an API URL (`http://host/app/api/v1`).
pub fn normalize_base_url(value: &str) -> (r: Result<String, UrlError>)
    ensures
        base_url_result(value@, r),
{
    let chars = chars_of(value);
    let trimmed = trim_chars(&chars);
    let base_chars = trim_slashes_end(&trimmed);
    if base_chars.len() == 0 {
        return Err(UrlError::Empty);
    }
    let base = string_from_chars(&base_chars);
    let parsed = parse_url(base.as_str());
    api_root_for(base, parsed)
}

/// The API root for the cleaned base URL `base`, given what parsing it gave:
/// refuses a parse error, a scheme other than `http` or `https`, a missing
/// host, a query or a fragment; keeps a URL whose path names an API; else
/// appends the default API path.
pub fn api_root_for(base: String, parsed: Result<UrlParts, String>) -> (r: Result<String, UrlError>)
    ensures
        root_result(base@, parse_result_view(parsed), r),
{
    let parts = match parsed {
        Ok(p) => p,
        Err(cause) => {
            return Err(UrlError::Invalid { cause });
        },
    };
    if !str_is(&parts.scheme, "http") && !str_is(&parts.scheme, "https") {
        return Err(UrlError::UnsupportedScheme);
    }
    if parts.host.is_none() {
        return Err(UrlError::MissingHost);
    }
    if parts.query.is_some() {
        return Err(UrlError::HasQuery);
    }
    if parts.fragment.is_some() {
        return Err(UrlError::HasFragment);
    }
    let path = chars_of(parts.path.as_str());
    let marker = chars_of("/api/");
    if contains_chars(&path, &marker) {
        return Ok(base);
    }
    let base_chars = chars_of(base.as_str());
    let app = chars_of("/app");
    let mut result = base;
    if ends_with_chars(&base_chars, &app) {
        result.append("/api/v1");
    } else {
        result.append("/app/api/v1");
    }
    Ok(result)
}

/// The message that reports a refused base URL.
pub open spec fn url_error_message(e: UrlError) -> Seq<char> {
    match e {
        UrlError::Empty => "--base-url cannot be empty"@,
        UrlError::Invalid { .. } => "--base-url is not a valid URL"@,
        UrlError::UnsupportedScheme => "--base-url must use http or https"@,
        UrlError::MissingHost => "--base-url must contain a host"@,
        UrlError::HasQuery => "--base-url must not contain query parameters"@,
        UrlError::HasFragment => "--base-url must not contain a fragment"@,
    }
}

impl UrlError {
    /// The message that reports this error (the parse error, if any, is its cause).
    pub fn message(&self) -> (r: String)
        ensures
            r@ == url_error_message(*self),
    {
        match self {
            UrlError::Empty => owned("--base-url cannot be empty"),
            UrlError::Invalid { .. } => owned("--base-url is not a valid URL"),
            UrlError::UnsupportedScheme => owned("--base-url must use http or https"),
            UrlError::MissingHost => owned("--base-url must contain a host"),
            UrlError::HasQuery => owned("--base-url must not contain query parameters"),
            UrlError::HasFragment => owned("--base-url must not contain a fragment"),
        }
    }
}

// ---------------------------------------------------------------------------
// Error responses
// ---------------------------------------------------------------------------

/// A response body as an error message shows it: at most
/// `MAX_RESPONSE_BODY_CHARS` characters, marked when cut; a placeholder when
/// empty.
pub open spec fn limited_body(body: Seq<char>) -> Seq<char> {
    if body.len() == 0 {
        "<empty body>"@
    } else if body.len() > MAX_RESPONSE_BODY_CHARS {
        body.take(MAX_RESPONSE_BODY_CHARS as int) + "…<truncated>"@
    } else {
        body
    }
}

/// A response body shortened for an error message.
pub fn limited_response_body(body: &str) -> (r: String)
    ensures
        r@ == limited_body(body@),
{
    let chars = chars_of(body);
    let mut taken: Vec<char> = Vec::new();
    let mut i: usize = 0;
    while i < chars.len() && i < MAX_RESPONSE_BODY_CHARS
        invariant
            i <= chars@.len(),
            i <= MAX_RESPONSE_BODY_CHARS,
            taken@ == chars@.take(i as int),
        decreases chars@.len() - i,
    {
        taken.push(chars[i]);
        assert(chars@.take(i + 1) == chars@.take(i as int).push(chars@[i as int]));
        i += 1;
    }
    let mut result = string_from_chars(&taken);
    if chars.len() > MAX_RESPONSE_BODY_CHARS {
        result.append("…<truncated>");
    } else {
        assert(chars@.take(i as int) == chars@);
    }
    if result.as_str().is_empty() {
        owned("<empty body>")
    } else {
        result
    }
}

/// The body text of an error response, with a hint for authentication (401)
/// and permission (403) failures.
pub open spec fn status_description(status: u16, body: Seq<char>) -> Seq<char> {
    if status == 401 {
        body + "; check APPSCREENER_TOKEN"@
    } else if status == 403 {
        body + "; token has no permission to modify this rule"@
    } else {
        body
    }
}

/// Describes an error response by its (already shortened) body and status.
pub fn describe_status(status: u16, body: String) -> (r: String)
    ensures
        r@ == status_description(status, body@),
{
    let mut result = body;
    if status == 401 {
        result.append("; check APPSCREENER_TOKEN");
    } else if status == 403 {
        result.append("; token has no permission to modify this rule");
    }
    result
}

// ---------------------------------------------------------------------------
// Requests
// ---------------------------------------------------------------------------

/// The value of the `Authorization` header for a bearer token.
pub fn bearer_value(token: &str) -> (r: String)
    ensures
        r@ == "Bearer "@ + token@,
{
    let mut r = owned("Bearer ");
    r.append(token);
    r
}

/// The endpoint that describes a custom rule.
pub fn rule_info_endpoint(rule_id: &str) -> (r: String)
    ensures
        r@ == "/rules/custom/"@ + rule_id@ + "/info"@,
{
    let mut r = owned("/rules/custom/");
    r.append(rule_id);
    r.append("/info");
    r
}

/// The endpoint that lists the patterns of a custom rule.
pub fn rule_patterns_endpoint(rule_id: &str) -> (r: String)
    ensures
        r@ == "/rules/custom/"@ + rule_id@ + "/patterns"@,
{
    let mut r = owned("/rules/custom/");
    r.append(rule_id);
    r.append("/patterns");
    r
}

/// The endpoint that creates, saves and deletes single patterns.
pub fn pattern_endpoint() -> (r: &'static str)
    ensures
        r@ == "/patterns/pattern"@,
{
    "/patterns/pattern"
}

/// The URL of an endpoint under the API root.
pub fn endpoint_url(base_url: &str, endpoint: &str) -> (r: String)
    ensures
        r@ == base_url@ + endpoint@,
{
    let mut r = owned(base_url);
    r.append(endpoint);
    r
}

/// How a request on one pattern is named in errors: the verb, then the
/// pattern's name as `{:?}` writes it (`create pattern "name"`).
pub fn pattern_action(verb: &str, name: &str) -> (r: String)
    ensures
        r@ == verb@ + " pattern "@ + crate::text::debug_text(name@),
{
    let mut r = owned(verb);
    r.append(" pattern ");
    let quoted = crate::text::debug_quoted(name);
    r.append(quoted.as_str());
    r
}

} // verus!
