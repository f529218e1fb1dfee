use cookie_auth::cookie::find_cookie;
use cookie_auth::status::{
    auth_status, cookie_string, login_cookie, next_refresh_key, read_cookie, status_text,
    AuthStatus, AUTH_COOKIE, DEMO_TOKEN,
};

const EXPIRES: &str = "Tue, 01 Jan 2030 00:00:00 GMT";

fn lookup(cookies: &str) -> AuthStatus {
    auth_status(read_cookie(Some(cookies), AUTH_COOKIE))
}

#[test]
fn single_cookie_is_found() {
    assert_eq!(find_cookie("auth_token=abc", "auth_token"), Some("abc".to_string()));
}

#[test]
fn absent_names_are_not_found() {
    let jar = "theme=dark; lang=en; auth_token=abc";
    for name in ["session", "auth", "token", "dark", "auth_token2", "en"] {
        assert_eq!(find_cookie(jar, name), None);
    }
    assert_eq!(read_cookie(Some(jar), "session"), Ok(None));
}

#[test]
fn empty_cookie_string_has_no_cookies() {
    assert_eq!(find_cookie("", "auth_token"), None);
    assert_eq!(find_cookie(";;", "auth_token"), None);
}

#[test]
fn longer_name_with_same_start_is_not_a_match() {
    assert_eq!(find_cookie("auth_token_old=1; auth_token=2", "auth_token"), Some("2".to_string()));
    assert_eq!(find_cookie("xauth_token=1", "auth_token"), None);
}

#[test]
fn multiple_cookies_in_any_order() {
    let entries = ["a=1", "auth_token=tok", "b=2"];
    let orders = [[0, 1, 2], [0, 2, 1], [1, 0, 2], [1, 2, 0], [2, 0, 1], [2, 1, 0]];
    for order in orders {
        let parts: Vec<&str> = order.iter().map(|i| entries[*i]).collect();
        let jar = parts.join("; ");
        assert_eq!(find_cookie(&jar, "auth_token"), Some("tok".to_string()));
        assert_eq!(find_cookie(&jar, "a"), Some("1".to_string()));
        assert_eq!(find_cookie(&jar, "b"), Some("2".to_string()));
    }
}

#[test]
fn first_matching_piece_wins() {
    assert_eq!(find_cookie("k=first; k=second", "k"), Some("first".to_string()));
}

#[test]
fn pieces_are_trimmed() {
    assert_eq!(find_cookie("  auth_token=v \t;x=1", "auth_token"), Some("v".to_string()));
    assert_eq!(find_cookie("x=1;\u{2003}auth_token=w\u{3000}", "auth_token"), Some("w".to_string()));
}

#[test]
fn value_may_hold_equals_signs_and_be_empty() {
    assert_eq!(find_cookie("k=a=b", "k"), Some("a=b".to_string()));
    assert_eq!(find_cookie("k=; j=1", "k"), Some(String::new()));
}

#[test]
fn cookie_string_has_expiry_and_root_path() {
    assert_eq!(
        cookie_string("auth_token", "abc", EXPIRES),
        "auth_token=abc; expires=Tue, 01 Jan 2030 00:00:00 GMT; path=/"
    );
}

#[test]
fn set_then_get_returns_the_value() {
    let set = cookie_string("auth_token", "v123", EXPIRES);
    assert_eq!(find_cookie(&set, "auth_token"), Some("v123".to_string()));
    let jar = format!("theme=dark; {}", set.split(';').next().unwrap());
    assert_eq!(find_cookie(&jar, "auth_token"), Some("v123".to_string()));
}

#[test]
fn random_alphanumeric_tokens_round_trip() {
    let alphabet: Vec<char> = ('a'..='z').chain('A'..='Z').chain('0'..='9').collect();
    let mut state: u64 = 0x2545_f491_4f6c_dd1d;
    for _ in 0..1000 {
        state = state.wrapping_mul(6364136223846793005).wrapping_add(1442695040888963407);
        let len = 1 + (state >> 58) as usize;
        let mut token = String::new();
        for _ in 0..len {
            state = state.wrapping_mul(6364136223846793005).wrapping_add(1442695040888963407);
            token.push(alphabet[(state >> 33) as usize % alphabet.len()]);
        }
        let set = cookie_string(AUTH_COOKIE, &token, EXPIRES);
        assert_eq!(find_cookie(&set, AUTH_COOKIE), Some(token.clone()));
        let jar = format!("lang=en; auth_token={}; theme=dark", token);
        assert_eq!(lookup(&jar), AuthStatus::LoggedIn(token));
    }
}

#[test]
fn login_click_twice_writes_the_same_token() {
    let first = login_cookie("Mon, 01 Jan 2029 00:00:00 GMT");
    let second = login_cookie("Tue, 02 Jan 2029 00:00:00 GMT");
    assert_eq!(find_cookie(&first, AUTH_COOKIE), Some(DEMO_TOKEN.to_string()));
    assert_eq!(find_cookie(&second, AUTH_COOKIE), Some(DEMO_TOKEN.to_string()));
    let key = next_refresh_key(next_refresh_key(0));
    assert_eq!(key, 2);
    let jar = "auth_token=example_id_token_from_cognito";
    let status = lookup(jar);
    assert_eq!(status, AuthStatus::LoggedIn("example_id_token_from_cognito".to_string()));
    assert_eq!(
        status_text(&Some(status)),
        "Logged in with token: example_id_token_from_cognito"
    );
}

#[test]
fn cleared_cookie_means_not_logged_in() {
    assert_eq!(lookup("theme=dark"), AuthStatus::NotLoggedIn);
    assert_eq!(lookup(""), AuthStatus::NotLoggedIn);
    assert_eq!(status_text(&Some(lookup(""))), "Not logged in");
}

#[test]
fn unreadable_cookies_give_an_error() {
    let read = read_cookie(None, AUTH_COOKIE);
    assert_eq!(read, Err("Failed to access cookies".to_string()));
    let status = auth_status(read);
    assert_eq!(status, AuthStatus::Error("Failed to access cookies".to_string()));
    assert_eq!(status_text(&Some(status)), "Error: Failed to access cookies");
}

#[test]
fn status_from_each_read_outcome() {
    assert_eq!(auth_status(Ok(Some("t".to_string()))), AuthStatus::LoggedIn("t".to_string()));
    assert_eq!(auth_status(Ok(None)), AuthStatus::NotLoggedIn);
    assert_eq!(auth_status(Err("No window available".to_string())), AuthStatus::Error("No window available".to_string()));
}

#[test]
fn pending_status_shows_loading() {
    assert_eq!(status_text(&None), "Loading...");
}

#[test]
fn refresh_key_always_changes() {
    assert_eq!(next_refresh_key(0), 1);
    assert_eq!(next_refresh_key(41), 42);
    assert_eq!(next_refresh_key(u64::MAX), 0);
}
