//! The API client's state (service addresses and tokens) and its
//! decisions: which service a path goes to, whether a request carries the
//! bearer token, what a response means, and how a token refresh is applied.
//! Sending requests is left to the caller.
use vstd::prelude::*;
use crate::num::{decimal, decimal_u64};
use crate::text::{
    append_chars, append_str, chars_of, owned, starts_with, starts_with_str, string_of,
    trim_end_matches, trim_end_matches_chars,
};

verus! {

broadcast use vstd::string::group_string_axioms;

/// Why a request failed.
#[derive(Debug)]
pub enum ApiError {
    /// The request could not be sent or the reply not read.
    Network(String),
    /// A body could not be decoded.
    Json(String),
    /// The service answered with an error status.
    Server { status: u16, message: String },
    /// The service refused the credentials.
    Unauthorized,
}

/// The message shown for an error.
pub open spec fn api_error_text(e: ApiError) -> Seq<char> {
    match e {
        ApiError::Network(m) => "网络请求失败: "@ + m@,
        ApiError::Json(m) => "JSON 解析失败: "@ + m@,
        ApiError::Server { status, message } => "服务端错误 ("@ + decimal(status as nat) + "): "@
            + message@,
        ApiError::Unauthorized => "未授权，请重新登录"@,
    }
}

impl ApiError {
    /// The message shown for this error.
    pub fn message(&self) -> (r: String)
        ensures
            r@ == api_error_text(*self),
    {
        let mut v: Vec<char> = Vec::new();
        match self {
            ApiError::Network(m) => {
                append_str(&mut v, "网络请求失败: ");
                append_str(&mut v, m.as_str());
            },
            ApiError::Json(m) => {
                append_str(&mut v, "JSON 解析失败: ");
                append_str(&mut v, m.as_str());
            },
            ApiError::Server { status, message } => {
                append_str(&mut v, "服务端错误 (");
                let d = decimal_u64(*status as u64);
                append_chars(&mut v, &d);
                append_str(&mut v, "): ");
                append_str(&mut v, message.as_str());
            },
            ApiError::Unauthorized => {
                append_str(&mut v, "未授权，请重新登录");
            },
        }
        string_of(&v)
    }

    /// Whether this is the refusal of the credentials.
    pub fn is_unauthorized(&self) -> (r: bool)
        ensures
            r == (*self is Unauthorized),
    {
        match self {
            ApiError::Unauthorized => true,
            _ => false,
        }
    }
}

/// What the message field of a JSON body is: `None` when the text is not
/// JSON, `Some(None)` when it has no string field "message".
pub uninterp spec fn json_message(text: Seq<char>) -> Option<Option<Seq<char>>>;

/// Calls `serde_json::from_str` into a `serde_json::Value`, then reads the
/// string field "message" with `Value::get` and `Value::as_str`. The result
/// is named `json_message` of the text; what JSON parsing accepts is not
/// written out here.
#[verifier::external_body]
fn read_json_message(text: &str) -> (r: Option<Option<String>>)
    ensures
        match r {
            None => json_message(text@) is None,
            Some(None) => json_message(text@) == Some(None::<Seq<char>>),
            Some(Some(m)) => json_message(text@) == Some(Some(m@)),
        },
{
    match serde_json::from_str::<serde_json::Value>(text) {
        Ok(v) => Some(v.get("message").and_then(|m| m.as_str()).map(|m| m.to_string())),
        Err(_) => None,
    }
}

/// The error for an error status: the body's message field when the body
/// is JSON (or "Unknown error" when it has none), else the body itself.
pub open spec fn server_error_text(parsed: Option<Option<Seq<char>>>, body: Seq<char>) -> Seq<char> {
    match parsed {
        Some(Some(m)) => m,
        Some(None) => "Unknown error"@,
        None => body,
    }
}

/// The error for status `status` with body `body`, given what reading the
/// body as JSON gave (`parsed`, see `json_message`).
pub fn server_error(status: u16, parsed: Option<Option<String>>, body: &str) -> (r: ApiError)
    ensures
        r matches ApiError::Server { status: s, message } && s == status && message@
            == server_error_text(
            match parsed {
                Some(Some(m)) => Some(Some(m@)),
                Some(None) => Some(None),
                None => None,
            },
            body@,
        ),
{
    let message = match parsed {
        Some(Some(m)) => m,
        Some(None) => owned("Unknown error"),
        None => owned(body),
    };
    ApiError::Server { status, message }
}

/// What a response means: 401 is `Unauthorized`; 400 and above is a
/// server error (see `server_error`); anything else is a body to decode.
pub fn response_outcome(status: u16, body: &str) -> (r: Result<String, ApiError>)
    ensures
        status == 401 ==> r matches Err(ApiError::Unauthorized),
        status != 401 && status >= 400 ==> (r matches Err(ApiError::Server { status: s, message })
            && s == status && message@ == server_error_text(json_message(body@), body@)),
        status < 400 ==> (r matches Ok(b) && b@ == body@),
{
    if status == 401 {
        return Err(ApiError::Unauthorized);
    }
    if status >= 400 {
        let parsed = read_json_message(body);
        return Err(server_error(status, parsed, body));
    }
    Ok(owned(body))
}

/// `data`, or the server error (`status`, `message`) when it is absent.
pub fn data_or<T>(data: Option<T>, status: u16, message: &str) -> (r: Result<T, ApiError>)
    ensures
        match data {
            Some(d) => r == Ok::<T, ApiError>(d),
            None => r matches Err(ApiError::Server { status: s, message: m }) && s == status && m@
                == message@,
        },
{
    match data {
        Some(d) => Ok(d),
        None => Err(ApiError::Server { status, message: owned(message) }),
    }
}

/// A total read from a paged response, as the client reports it: absent
/// means 0, and the value is cut to `u32` as `as` does.
pub fn count_from_total(total: Option<i64>) -> (r: u32)
    ensures
        r == (match total {
            Some(t) => t,
            None => 0,
        }) as u32,
{
    match total {
        Some(t) => t as u32,
        None => 0,
    }
}

/// The first of `data` and `list` that is present, else an empty list.
pub fn data_or_list<T>(data: Option<Vec<T>>, list: Option<Vec<T>>) -> (r: Vec<T>)
    ensures
        match (data, list) {
            (Some(d), _) => r == d,
            (None, Some(l)) => r == l,
            (None, None) => r@.len() == 0,
        },
{
    match data {
        Some(d) => d,
        None => match list {
            Some(l) => l,
            None => Vec::new(),
        },
    }
}

/// The client: the team service's address, the auth service's address and
/// the two tokens.
#[derive(Clone, Debug)]
pub struct ApiClient {
    base_url: String,
    auth_url: String,
    access_token: String,
    refresh_token: String,
}

/// The mathematical value of a client.
pub struct ClientView {
    pub base_url: Seq<char>,
    pub auth_url: Seq<char>,
    pub access_token: Seq<char>,
    pub refresh_token: Seq<char>,
}

impl View for ApiClient {
    type V = ClientView;

    closed spec fn view(&self) -> ClientView {
        ClientView {
            base_url: self.base_url@,
            auth_url: self.auth_url@,
            access_token: self.access_token@,
            refresh_token: self.refresh_token@,
        }
    }
}

/// Whether a path goes to the auth service.
pub open spec fn auth_path(path: Seq<char>) -> bool {
    starts_with(path, "/api/v1/auth"@)
}

/// The URL of `path` for client `c`: a path starting with "http" as it is;
/// otherwise the auth or team address (without trailing '/') followed by the path.
pub open spec fn url_for(c: ClientView, path: Seq<char>) -> Seq<char> {
    if starts_with(path, "http"@) {
        path
    } else if auth_path(path) {
        trim_end_matches(c.auth_url, seq!['/']) + path
    } else {
        trim_end_matches(c.base_url, seq!['/']) + path
    }
}

/// The HTTP methods the client sends.
#[derive(Clone, Copy, Debug, PartialEq, Eq, Structural)]
pub enum Method {
    Get,
    Post,
    Put,
    Delete,
}

/// The Authorization header every request carries: "Bearer " and the
/// access token, when there is one.
pub open spec fn authorization_for(c: ClientView) -> Option<Seq<char>> {
    if c.access_token.len() == 0 {
        None
    } else {
        Some("Bearer "@ + c.access_token)
    }
}

impl ApiClient {
    /// A client for the team service at `base_url`; the auth service is at
    /// the same address, and there are no tokens yet.
    pub fn new(base_url: String) -> (r: ApiClient)
        ensures
            r@.base_url == base_url@,
            r@.auth_url == base_url@,
            r@.access_token.len() == 0,
            r@.refresh_token.len() == 0,
    {
        ApiClient {
            auth_url: base_url.clone(),
            base_url,
            access_token: String::new(),
            refresh_token: String::new(),
        }
    }

    /// The same client with the auth service at `auth_url`.
    pub fn with_auth_url(self, auth_url: String) -> (r: ApiClient)
        ensures
            r@ == (ClientView { auth_url: auth_url@, ..self@ }),
    {
        ApiClient { auth_url, ..self }
    }

    /// Replaces the access token.
    pub fn set_token(&mut self, token: &str)
        ensures
            final(self)@ == (ClientView { access_token: token@, ..old(self)@ }),
    {
        self.access_token = owned(token);
    }

    /// The access token.
    pub fn get_token(&self) -> (r: String)
        ensures
            r@ == self@.access_token,
    {
        self.access_token.clone()
    }

    /// Replaces the refresh token.
    pub fn set_refresh_token(&mut self, token: &str)
        ensures
            final(self)@ == (ClientView { refresh_token: token@, ..old(self)@ }),
    {
        self.refresh_token = owned(token);
    }

    /// The refresh token.
    pub fn get_refresh_token(&self) -> (r: String)
        ensures
            r@ == self@.refresh_token,
    {
        self.refresh_token.clone()
    }

    /// A client for the team service on the local machine.
    pub fn default() -> (r: ApiClient)
        ensures
            r@.base_url == "http://localhost:30101"@,
            r@.auth_url == "http://localhost:30101"@,
            r@.access_token.len() == 0,
            r@.refresh_token.len() == 0,
    {
        ApiClient::new(owned("http://localhost:30101"))
    }

    /// Whether a path goes to the auth service.
    pub fn is_auth_path(path: &str) -> (r: bool)
        ensures
            r == auth_path(path@),
    {
        let p = chars_of(path);
        starts_with_str(&p, "/api/v1/auth")
    }

    /// The URL a request for `path` goes to.
    pub fn resolve_url(&self, path: &str) -> (r: String)
        ensures
            r@ == url_for(self@, path@),
    {
        let p = chars_of(path);
        if starts_with_str(&p, "http") {
            return owned(path);
        }
        let base = if ApiClient::is_auth_path(path) {
            chars_of(self.auth_url.as_str())
        } else {
            chars_of(self.base_url.as_str())
        };
        let mut slash: Vec<char> = Vec::new();
        slash.push('/');
        assert(slash@ =~= seq!['/']);
        let mut v = trim_end_matches_chars(&base, &slash);
        append_chars(&mut v, &p);
        string_of(&v)
    }

    /// The Authorization header every request carries: "Bearer " and the
    /// access token, whatever the method and path; none without a token.
    pub fn authorization(&self) -> (r: Option<String>)
        ensures
            r.deep_view() == authorization_for(self@),
    {
        if self.access_token.as_str().is_empty() {
            return None;
        }
        let mut v = chars_of("Bearer ");
        append_str(&mut v, self.access_token.as_str());
        Some(string_of(&v))
    }

    /// Whether a refresh can be tried: there is a refresh token.
    pub fn can_refresh(&self) -> (r: bool)
        ensures
            r == (self@.refresh_token.len() > 0),
    {
        !self.refresh_token.as_str().is_empty()
    }

    /// Applies the answer to a refresh request: on status 200 with data,
    /// the new access token (and the new refresh token, when one came) is
    /// kept and `true` returned; otherwise nothing changes and `false` is
    /// returned. `data` holds the access token and the optional refresh
    /// token of the reply (`None` when the reply had no data or was not
    /// readable).
    pub fn apply_refresh(&mut self, status: u16, data: Option<(String, Option<String>)>) -> (r: bool)
        ensures
            r == (status == 200 && data is Some),
            !r ==> final(self)@ == old(self)@,
            r ==> (data matches Some((a, rt)) && final(self)@ == (ClientView {
                access_token: a@,
                refresh_token: match rt {
                    Some(t) => t@,
                    None => old(self)@.refresh_token,
                },
                ..old(self)@
            })),
    {
        if status != 200 {
            return false;
        }
        match data {
            Some((access, refresh)) => {
                self.access_token = access;
                match refresh {
                    Some(t) => {
                        self.refresh_token = t;
                    },
                    None => {},
                }
                true
            },
            None => false,
        }
    }
}

/// The next move of a request that may be refused for an expired token.
#[derive(Clone, Copy, Debug, PartialEq, Eq, Structural)]
pub enum RetryStep {
    /// Hand the reply back to the caller.
    Deliver,
    /// Ask for new tokens with the refresh token.
    Refresh,
    /// Send the request once more with the new token.
    Resend,
    /// Hand back that the credentials were refused.
    GiveUp,
}

/// What follows a reply: a refusal of the credentials to the first
/// attempt is met by refreshing the tokens; any other reply, and every
/// reply to the request sent again, goes back to the caller.
pub open spec fn reply_step(unauthorized: bool, resent: bool) -> RetryStep {
    if unauthorized && !resent {
        RetryStep::Refresh
    } else {
        RetryStep::Deliver
    }
}

/// What follows a refresh: the request is sent again when new tokens came,
/// else the refusal goes back to the caller.
pub open spec fn refresh_step(refreshed: bool) -> RetryStep {
    if refreshed {
        RetryStep::Resend
    } else {
        RetryStep::GiveUp
    }
}

/// What follows the reply `outcome`; `resent` tells whether the request
/// was already sent again after a refresh.
pub fn after_reply(outcome: &Result<String, ApiError>, resent: bool) -> (r: RetryStep)
    ensures
        r == reply_step(outcome matches Err(ApiError::Unauthorized), resent),
{
    let unauthorized = match outcome {
        Err(e) => e.is_unauthorized(),
        Ok(_) => false,
    };
    if unauthorized && !resent {
        RetryStep::Refresh
    } else {
        RetryStep::Deliver
    }
}

/// What follows a refresh that did (`true`) or did not bring new tokens.
pub fn after_refresh(refreshed: bool) -> (r: RetryStep)
    ensures
        r == refresh_step(refreshed),
{
    if refreshed {
        RetryStep::Resend
    } else {
        RetryStep::GiveUp
    }
}

} // verus!
