//! What the service answers to a registration and to a token.

use crate::account::Account;
use crate::models::block::Number;
use vstd::prelude::*;

verus! {

/// The settings of the service.
#[derive(Debug)]
pub struct AppConfig {
    /// The host of the mail relay.
    pub smtp: String,
    /// The address of the site, to which a token is appended.
    pub site: String,
    /// The name that mail is sent under.
    pub from_name: String,
    /// The address that mail is sent from.
    pub from_email: String,
}

/// Over how many hours the pools are ranked where the caller names no
/// window.
pub const TOP_POOLS_HOURS: u32 = 24;

/// The range of blocks of a ranking over the last `window_hours` hours
/// before the latest block: the blocks after the first number up to and
/// including the second, which is the latest. `None` where the chain is
/// younger than the window.
pub fn pools_top_range(latest: &Number, window_hours: u32) -> (range: Option<(Number, Number)>)
    ensures
        range.is_some() <==> latest.hours_before(window_hours as nat) >= 0,
        range.is_some() ==> range.unwrap().0@ == latest.hours_before(window_hours as nat)
            && range.unwrap().1 == *latest,
{
    match latest.checked_hours_ago(window_hours) {
        Some(start) => Some((start, *latest)),
        None => None,
    }
}

/// The status of an answer to a token that opens an account.
pub const STATUS_OK: u16 = 200;

/// The status of an answer to a token that opens none.
pub const STATUS_UNAUTHORIZED: u16 = 401;

/// The name of the cookie that carries the token.
pub const TOKEN_COOKIE: &'static str = "token";

/// The answer to a request that presents a token.
#[derive(Debug)]
pub struct AuthResponse {
    pub status: u16,
    pub body: String,
    /// The cookie to set, as name and value.
    pub cookie: Option<(String, String)>,
}

/// The answer to a registration, and the link to mail.
#[derive(Debug)]
pub struct Registration {
    pub status: u16,
    pub body: String,
    /// The link that opens the account: the site's address and the token.
    pub url: String,
}

/// The answer to `token`, given the account that the store holds under it:
/// with an account, its email address and the token as a cookie; without
/// one, `bad token` and no cookie.
pub fn auth(token: &str, found: Option<Account>) -> (response: AuthResponse)
    ensures
        match found {
            Some(account) => {
                &&& response.status == STATUS_OK
                &&& response.body == account.email
                &&& response.cookie matches Some(cookie) && cookie.0@ == TOKEN_COOKIE@ && cookie.1@
                    == token@
            },
            None => {
                &&& response.status == STATUS_UNAUTHORIZED
                &&& response.body@ == "bad token"@
                &&& response.cookie.is_none()
            },
        },
{
    match found {
        Some(account) => AuthResponse {
            status: STATUS_OK,
            body: account.email,
            cookie: Some((String::from_str(TOKEN_COOKIE), String::from_str(token))),
        },
        None => AuthResponse {
            status: STATUS_UNAUTHORIZED,
            body: String::from_str("bad token"),
            cookie: None,
        },
    }
}

/// The answer to the registration of `account`: its email address, and the
/// link to mail to it.
pub fn register(app_config: &AppConfig, account: &Account) -> (registration: Registration)
    ensures
        registration.status == STATUS_OK,
        registration.body@ == account.email@,
        registration.url@ == app_config.site@ + account.token@,
{
    let mut url = app_config.site.clone();
    url.append(account.token.as_str());
    Registration { status: STATUS_OK, body: account.email.clone(), url }
}

} // verus!
