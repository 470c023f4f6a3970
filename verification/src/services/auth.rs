//! Sign-in: request and response types and the stages of authentication.
use vstd::prelude::*;
use crate::services::client::{ApiClient, ApiError, ClientView, api_error_text};
use crate::text::{append_str, chars_of, owned, string_of};

verus! {

broadcast use vstd::string::group_string_axioms;

/// A sign-in request (by password, mobile code or e-mail code).
#[derive(Debug)]
pub struct LoginRequest {
    pub username: Option<String>,
    pub password: Option<String>,
    pub mobile: Option<String>,
    pub email: Option<String>,
    pub code: Option<String>,
    pub captcha_id: Option<String>,
    pub captcha: Option<String>,
    pub region: Option<String>,
}

/// The answer to a sign-in.
#[derive(Clone, Debug)]
pub struct LoginResponse {
    pub access_token: String,
    pub refresh_token: String,
    pub expires_in: i64,
    pub refresh_expires_in: i64,
    pub user_info: UserInfo,
    pub tenant_list: Option<Vec<TenantInfo>>,
}

/// The signed-in user.
#[derive(Clone, Debug)]
pub struct UserInfo {
    pub id: String,
    pub nickname: String,
    pub avatar: Option<String>,
}

/// A tenant the user may act for.
#[derive(Clone, Debug, PartialEq)]
pub struct TenantInfo {
    pub id: String,
    pub name: String,
    pub is_owner: Option<bool>,
}

/// A request to act for a tenant.
#[derive(Debug)]
pub struct SelectTenantRequest {
    pub tenant_id: i64,
    pub temp_token: String,
}

/// The answer to a tenant selection.
#[derive(Clone, Debug)]
pub struct SelectTenantResponse {
    pub access_token: String,
    pub refresh_token: String,
    pub expires_in: i64,
    pub refresh_expires_in: i64,
    pub user_info: UserInfo,
}

/// A request for a new access token.
#[derive(Debug)]
pub struct RefreshTokenRequest {
    pub refresh_token: String,
}

/// The answer to a token refresh.
#[derive(Clone, Debug)]
pub struct RefreshTokenResponse {
    pub access_token: String,
    pub refresh_token: String,
    pub expires_in: i64,
}

/// An image captcha.
#[derive(Clone, Debug)]
pub struct ImageCaptchaResponse {
    pub captcha_id: String,
    pub image_base64: String,
}

/// Where authentication stands.
#[derive(Clone, Debug, PartialEq)]
pub enum AuthStage {
    /// Not signed in.
    Unauthenticated,
    /// Signed in; a tenant must be chosen.
    NeedTenant { temp_token: String, tenant_list: Vec<TenantInfo> },
    /// Signed in for a tenant.
    Authenticated,
}


// ------------------------------------------------------------------
// Signing in
// ------------------------------------------------------------------

/// The reason a sign-in form is not sent: the user name or password is
/// missing, or the captcha (or the identifier of the captcha shown) is.
pub open spec fn form_problem(user: Seq<char>, pass: Seq<char>, captcha: Seq<char>, captcha_id: Seq<char>) -> Option<
    Seq<char>,
> {
    if user.len() == 0 || pass.len() == 0 {
        Some("请输入用户名和密码"@)
    } else if captcha.len() == 0 || captcha_id.len() == 0 {
        Some("请输入验证码"@)
    } else {
        None
    }
}

/// The reason a sign-in form is not sent, if any.
pub fn login_form_error(username: &str, password: &str, captcha: &str, captcha_id: &str) -> (r: Option<
    &'static str,
>)
    ensures
        match r {
            Some(m) => form_problem(username@, password@, captcha@, captcha_id@) == Some(m@),
            None => form_problem(username@, password@, captcha@, captcha_id@) is None,
        },
{
    if username.is_empty() || password.is_empty() {
        Some("请输入用户名和密码")
    } else if captcha.is_empty() || captcha_id.is_empty() {
        Some("请输入验证码")
    } else {
        None
    }
}

/// The request that signs in by user name, password and image captcha.
pub fn password_login(username: String, password: String, captcha_id: String, captcha: String) -> (r: LoginRequest)
    ensures
        r == (LoginRequest {
            username: Some(username),
            password: Some(password),
            mobile: None,
            email: None,
            code: None,
            captcha_id: Some(captcha_id),
            captcha: Some(captcha),
            region: None,
        }),
{
    LoginRequest {
        username: Some(username),
        password: Some(password),
        mobile: None,
        email: None,
        code: None,
        captcha_id: Some(captcha_id),
        captcha: Some(captcha),
        region: None,
    }
}

/// What a sign-in leads to.
#[derive(Debug)]
pub enum SignInStep {
    /// The user belongs to several tenants and must choose one; the access
    /// token serves as the temporary token of that choice.
    ChooseTenant { stage: AuthStage, refresh_token: String, user_info: UserInfo },
    /// Signed in: the tokens to use and keep, and the user.
    SignedIn { access_token: String, refresh_token: String, user_info: UserInfo },
    /// The sign-in failed; the message to show.
    Failed { message: String },
}

/// The message for a failed request: `prefix` and the error's text.
fn failure(prefix: &str, e: &ApiError) -> (r: SignInStep)
    ensures
        r matches SignInStep::Failed { message } && message@ == prefix@ + api_error_text(*e),
{
    let mut v = chars_of(prefix);
    let m = e.message();
    append_str(&mut v, m.as_str());
    SignInStep::Failed { message: string_of(&v) }
}

/// What the answer to a sign-in leads to: a choice of tenant when more
/// than one tenant is listed, else the session; an error is reported as
/// "登录失败：" and its text.
pub fn after_login(answer: Result<LoginResponse, ApiError>) -> (r: SignInStep)
    ensures
        match answer {
            Ok(resp) => {
                let signed_in = SignInStep::SignedIn {
                    access_token: resp.access_token,
                    refresh_token: resp.refresh_token,
                    user_info: resp.user_info,
                };
                match resp.tenant_list {
                    Some(ts) => if ts.len() > 1 {
                        r == (SignInStep::ChooseTenant {
                            stage: AuthStage::NeedTenant { temp_token: resp.access_token, tenant_list: ts },
                            refresh_token: resp.refresh_token,
                            user_info: resp.user_info,
                        })
                    } else {
                        r == signed_in
                    },
                    None => r == signed_in,
                }
            },
            Err(e) => r matches SignInStep::Failed { message } && message@ == "登录失败："@
                + api_error_text(e),
        },
{
    match answer {
        Ok(resp) => {
            let LoginResponse { access_token, refresh_token, user_info, tenant_list, .. } = resp;
            match tenant_list {
                Some(ts) => {
                    if ts.len() > 1 {
                        return SignInStep::ChooseTenant {
                            stage: AuthStage::NeedTenant { temp_token: access_token, tenant_list: ts },
                            refresh_token,
                            user_info,
                        };
                    }
                },
                None => {},
            }
            SignInStep::SignedIn { access_token, refresh_token, user_info }
        },
        Err(e) => failure("登录失败：", &e),
    }
}

/// What the answer to a tenant choice leads to: the session, or the error
/// reported as "选择组织失败：" and its text.
pub fn after_tenant_selected(answer: Result<SelectTenantResponse, ApiError>) -> (r: SignInStep)
    ensures
        match answer {
            Ok(resp) => r == (SignInStep::SignedIn {
                access_token: resp.access_token,
                refresh_token: resp.refresh_token,
                user_info: resp.user_info,
            }),
            Err(e) => r matches SignInStep::Failed { message } && message@ == "选择组织失败："@
                + api_error_text(e),
        },
{
    match answer {
        Ok(resp) => {
            let SelectTenantResponse { access_token, refresh_token, user_info, .. } = resp;
            SignInStep::SignedIn { access_token, refresh_token, user_info }
        },
        Err(e) => failure("选择组织失败：", &e),
    }
}

/// Whether `d` is a decimal digit.
pub open spec fn is_digit(d: char) -> bool {
    '0' <= d <= '9'
}

/// The value of the decimal digits `s`.
pub open spec fn digits_value(s: Seq<char>) -> int
    decreases s.len(),
{
    if s.len() == 0 {
        0
    } else {
        digits_value(s.drop_last()) * 10 + (s.last() as int - '0' as int)
    }
}

/// The text after the sign, if `s` starts with one.
pub open spec fn unsigned_part(s: Seq<char>) -> Seq<char> {
    if s.len() > 0 && (s[0] == '-' || s[0] == '+') {
        s.drop_first()
    } else {
        s
    }
}

/// Whether every character of `d` is a decimal digit.
pub open spec fn all_digits(d: Seq<char>) -> bool {
    forall|i: int| 0 <= i < d.len() ==> is_digit(#[trigger] d[i])
}

/// The integer that `s` writes, as `str::parse::<i64>` reads it: an
/// optional sign and one or more decimal digits, within the range of
/// `i64`; `None` for anything else.
pub open spec fn i64_text(s: Seq<char>) -> Option<i64> {
    let d = unsigned_part(s);
    let v = if s.len() > 0 && s[0] == '-' {
        -digits_value(d)
    } else {
        digits_value(d)
    };
    if d.len() > 0 && all_digits(d) && i64::MIN <= v <= i64::MAX {
        Some(v as i64)
    } else {
        None
    }
}

/// The value of decimal digits is never negative, and appending a digit
/// does not lower it.
proof fn lemma_digits_value(s: Seq<char>)
    requires
        forall|i: int| 0 <= i < s.len() ==> is_digit(#[trigger] s[i]),
    ensures
        digits_value(s) >= 0,
    decreases s.len(),
{
    if s.len() > 0 {
        lemma_digits_value(s.drop_last());
    }
}

/// The value of the decimal digit `ch`; `None` when it is not one.
fn digit_of(ch: char) -> (r: Option<u128>)
    ensures
        match r {
            Some(v) => is_digit(ch) && v == ch as int - '0' as int,
            None => !is_digit(ch),
        },
{
    match ch {
        '0' => Some(0),
        '1' => Some(1),
        '2' => Some(2),
        '3' => Some(3),
        '4' => Some(4),
        '5' => Some(5),
        '6' => Some(6),
        '7' => Some(7),
        '8' => Some(8),
        '9' => Some(9),
        _ => None,
    }
}

/// Reads an integer as `str::parse::<i64>` does: an optional `+` or `-`,
/// then one or more decimal digits, within the range of `i64`.
pub fn parse_i64(s: &str) -> (r: Option<i64>)
    ensures
        r == i64_text(s@),
{
    let c = chars_of(s);
    let n = c.len();
    let neg = n > 0 && c[0] == '-';
    let start: usize = if n > 0 && (c[0] == '-' || c[0] == '+') {
        1
    } else {
        0
    };
    let ghost d = c@.subrange(start as int, n as int);
    assert(c@ == s@);
    proof {
        if start == 1 {
            assert(d =~= c@.drop_first());
        } else {
            assert(d =~= c@);
        }
        assert(d == unsigned_part(s@));
    }
    if start == n {
        return None;
    }
    let limit: u128 = 0x8000_0000_0000_0000;
    let mut v: u128 = 0;
    let mut big = false;
    let mut i: usize = start;
    while i < n
        invariant
            start <= i <= n,
            n == c.len(),
            limit == 0x8000_0000_0000_0000u128,
            d == c@.subrange(start as int, n as int),
            d == unsigned_part(s@),
            forall|k: int| 0 <= k < i - start ==> is_digit(#[trigger] d[k]),
            big ==> digits_value(d.take(i - start)) > limit,
            !big ==> v == digits_value(d.take(i - start)) && v <= limit,
        decreases n - i,
    {
        let ch = c[i];
        let ghost j = i - start;
        assert(d[j] == ch);
        let dg = match digit_of(ch) {
            Some(x) => x,
            None => {
                assert(!is_digit(d[j]));
                assert(!all_digits(d));
                return None;
            },
        };
        proof {
            assert(d.take(j + 1).drop_last() =~= d.take(j));
            assert(d.take(j + 1).last() == d[j]);
            assert(forall|k: int| 0 <= k < j ==> is_digit(#[trigger] d.take(j)[k]));
            lemma_digits_value(d.take(j));
        }
        if !big {
            let w = v * 10 + dg;
            if w > limit {
                big = true;
            } else {
                v = w;
            }
        }
        i = i + 1;
    }
    assert(d.take(n - start) =~= d);
    if big {
        return None;
    }
    if neg {
        Some((0i128 - (v as i128)) as i64)
    } else if v < limit {
        Some(v as i64)
    } else {
        None
    }
}

/// The numeric identifier of a tenant (0 when its identifier is not a
/// number).
pub fn tenant_id_of(tenant: &TenantInfo) -> (r: i64)
    ensures
        r == match i64_text(tenant.id@) {
            Some(v) => v,
            None => 0,
        },
{
    match parse_i64(tenant.id.as_str()) {
        Some(v) => v,
        None => 0,
    }
}

/// The request that picks tenant `tenant` with the temporary token.
pub fn tenant_request(tenant: &TenantInfo, temp_token: String) -> (r: SelectTenantRequest)
    ensures
        r.tenant_id == (match i64_text(tenant.id@) {
            Some(v) => v,
            None => 0,
        }),
        r.temp_token == temp_token,
{
    SelectTenantRequest { tenant_id: tenant_id_of(tenant), temp_token }
}

/// What the periodic token refresh leads to.
#[derive(Debug)]
pub enum RefreshStep {
    /// New tokens: the session keeps them both.
    Renewed { access_token: String, refresh_token: String },
    /// The refresh token has expired too: the session ends.
    SignedOut,
    /// Nothing changes.
    Unchanged,
}

/// Applies the answer to a periodic token refresh: the client takes the
/// new access token, and the new refresh token when one came; when the
/// refresh fails while signed in, the session ends.
pub fn after_token_refresh(client: &mut ApiClient, stage: &AuthStage, answer: Result<RefreshTokenResponse, ApiError>) -> (r: RefreshStep)
    ensures
        match answer {
            Ok(resp) => {
                &&& final(client)@ == (ClientView {
                    access_token: resp.access_token@,
                    refresh_token: if resp.refresh_token@.len() > 0 {
                        resp.refresh_token@
                    } else {
                        old(client)@.refresh_token
                    },
                    ..old(client)@
                })
                &&& r == (RefreshStep::Renewed { access_token: resp.access_token, refresh_token: resp.refresh_token })
            },
            Err(_) => {
                &&& final(client)@ == old(client)@
                &&& (if *stage is Authenticated {
                    r is SignedOut
                } else {
                    r is Unchanged
                })
            },
        },
{
    match answer {
        Ok(resp) => {
            client.set_token(resp.access_token.as_str());
            if !resp.refresh_token.as_str().is_empty() {
                client.set_refresh_token(resp.refresh_token.as_str());
            }
            RefreshStep::Renewed { access_token: resp.access_token, refresh_token: resp.refresh_token }
        },
        Err(_) => match stage {
            AuthStage::Authenticated => RefreshStep::SignedOut,
            _ => RefreshStep::Unchanged,
        },
    }
}


/// The session restored from what the browser kept: signed in when both
/// tokens were kept, with the user when one was kept; signed out, with
/// no tokens and no user, otherwise.
pub fn restored_session(access: String, refresh: String, user: Option<UserInfo>) -> (r: (
    AuthStage,
    String,
    String,
    Option<UserInfo>,
))
    ensures
        if access@.len() == 0 || refresh@.len() == 0 {
            r.0 == AuthStage::Unauthenticated && r.1@.len() == 0 && r.2@.len() == 0 && r.3 is None
        } else {
            r == (AuthStage::Authenticated, access, refresh, user)
        },
{
    if access.as_str().is_empty() || refresh.as_str().is_empty() {
        (AuthStage::Unauthenticated, String::new(), String::new(), None)
    } else {
        (AuthStage::Authenticated, access, refresh, user)
    }
}

/// The client of a restored session: it carries the access token when
/// there is one.
pub fn session_client(base_url: &str, access: &str) -> (r: ApiClient)
    ensures
        r@.base_url == base_url@,
        r@.auth_url == base_url@,
        r@.access_token == access@,
        r@.refresh_token.len() == 0,
{
    let mut client = ApiClient::new(owned(base_url));
    if !access.is_empty() {
        client.set_token(access);
    }
    client
}

} // verus!
