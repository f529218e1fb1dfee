use vstd::prelude::*;
use crate::cookie::{cookie_value, find_cookie, opt_chars, set_string};

verus! {

/// The name of the cookie that holds the session token.
pub const AUTH_COOKIE: &'static str = "auth_token";

/// The token that the login button stores.
pub const DEMO_TOKEN: &'static str = "example_id_token_from_cognito";

/// What a look at the cookie store found.
#[derive(Debug, Clone, PartialEq)]
pub enum AuthStatus {
    /// A token is stored; it is carried here.
    LoggedIn(String),
    /// No token is stored.
    NotLoggedIn,
    /// The cookie store could not be read; the message says why.
    Error(String),
}

/// The status that a cookie read gives: a token, none, or the read's error.
pub open spec fn status_of_read(read: Result<Option<Seq<char>>, Seq<char>>) -> AuthStatusView {
    match read {
        Ok(Some(t)) => AuthStatusView::LoggedIn(t),
        Ok(None) => AuthStatusView::NotLoggedIn,
        Err(e) => AuthStatusView::Error(e),
    }
}

/// An `AuthStatus` with its strings as character sequences.
pub enum AuthStatusView {
    LoggedIn(Seq<char>),
    NotLoggedIn,
    Error(Seq<char>),
}

impl View for AuthStatus {
    type V = AuthStatusView;

    open spec fn view(&self) -> AuthStatusView {
        match self {
            AuthStatus::LoggedIn(t) => AuthStatusView::LoggedIn(t@),
            AuthStatus::NotLoggedIn => AuthStatusView::NotLoggedIn,
            AuthStatus::Error(e) => AuthStatusView::Error(e@),
        }
    }
}

/// A cookie read with its strings as character sequences.
pub open spec fn read_chars(read: Result<Option<String>, String>) -> Result<Option<Seq<char>>, Seq<char>> {
    match read {
        Ok(Some(t)) => Ok(Some(t@)),
        Ok(None) => Ok(None),
        Err(e) => Err(e@),
    }
}

/// The text that the page shows for a status, or for one still being looked up.
pub open spec fn shown_text(status: Option<AuthStatusView>) -> Seq<char> {
    match status {
        Some(AuthStatusView::LoggedIn(t)) => "Logged in with token: "@ + t,
        Some(AuthStatusView::NotLoggedIn) => "Not logged in"@,
        Some(AuthStatusView::Error(e)) => "Error: "@ + e,
        None => "Loading..."@,
    }
}

/// Maps the outcome of reading the token cookie to the status it stands for.
pub fn auth_status(read: Result<Option<String>, String>) -> (r: AuthStatus)
    ensures
        r@ == status_of_read(read_chars(read)),
{
    match read {
        Ok(Some(token)) => AuthStatus::LoggedIn(token),
        Ok(None) => AuthStatus::NotLoggedIn,
        Err(e) => AuthStatus::Error(e),
    }
}

/// What reading the cookie `name` gives, from the document's cookie string,
/// or `None` where the document would not hand that string out.
pub fn read_cookie(cookies: Option<&str>, name: &str) -> (r: Result<Option<String>, String>)
    ensures
        match cookies {
            Some(c) => r is Ok && opt_chars(r->Ok_0) == cookie_value(c@, name@),
            None => r is Err && r->Err_0@ == "Failed to access cookies"@,
        },
{
    match cookies {
        Some(c) => Ok(find_cookie(c, name)),
        None => Err("Failed to access cookies".to_owned()),
    }
}

/// The text that the page shows for a status, or for one still being looked up.
pub fn status_text(status: &Option<AuthStatus>) -> (r: String)
    ensures
        r@ == shown_text(match status {
            Some(s) => Some(s@),
            None => None,
        }),
{
    match status {
        Some(AuthStatus::LoggedIn(token)) => {
            let mut r = "Logged in with token: ".to_owned();
            r.append(token.as_str());
            r
        },
        Some(AuthStatus::NotLoggedIn) => "Not logged in".to_owned(),
        Some(AuthStatus::Error(msg)) => {
            let mut r = "Error: ".to_owned();
            r.append(msg.as_str());
            r
        },
        None => "Loading...".to_owned(),
    }
}

/// The string that sets cookie `name` to `value` for the whole site, expiring
/// at `expires` (an HTTP date).
pub fn cookie_string(name: &str, value: &str, expires: &str) -> (r: String)
    ensures
        r@ == set_string(name@, value@, expires@),
{
    let mut r = name.to_owned();
    r.append("=");
    r.append(value);
    r.append("; expires=");
    r.append(expires);
    r.append("; path=/");
    proof {
        reveal_strlit("=");
        reveal_strlit("; expires=");
        reveal_strlit("; path=/");
    }
    assert(r@ =~= set_string(name@, value@, expires@));
    r
}

/// The cookie string that the login button writes: the demo token under the
/// token cookie's name.
pub fn login_cookie(expires: &str) -> (r: String)
    ensures
        r@ == set_string(AUTH_COOKIE@, DEMO_TOKEN@, expires@),
{
    cookie_string(AUTH_COOKIE, DEMO_TOKEN, expires)
}

/// The refresh key after a click, which makes the status be looked up again.
pub fn next_refresh_key(key: u64) -> (r: u64)
    ensures
        r != key,
        r == (if key == u64::MAX { 0 } else { key + 1 }),
{
    key.wrapping_add(1)
}

} // verus!
