//! Access-token claims and their expiry arithmetic.
//!
//! The claims carry who the token was issued to and when it expires, in
//! milliseconds since the epoch. Signing the claims into a token string and
//! reading them back is the embedding application's, with its JWT library;
//! what is decided here is the expiry.

use vstd::prelude::*;

verus! {

/// Hours an access token stays valid.
pub const ACCESS_TOKEN_TIME: u16 = 2 * 24;

/// Hours a refresh token stays valid.
pub const REFRESH_TOKEN_TIME: u16 = 7 * 24;

/// Milliseconds in an hour.
pub const MILLIS_PER_HOUR: u64 = 3600000;

/// The claims of one issued token.
#[derive(Debug)]
pub struct AccessToken {
    /// The subject's numeric id.
    pub user_id: u64,
    /// The subject's display name.
    pub user_name: String,
    /// The subject's account.
    pub user_account: String,
    /// The application the token was issued for.
    pub app_id: String,
    /// When the token expires, in milliseconds since the epoch.
    pub exp: u128,
}

impl Clone for AccessToken {
    /// An exact copy, field by field.
    fn clone(&self) -> (r: Self)
        ensures
            r == *self,
    {
        AccessToken {
            user_id: self.user_id,
            user_name: self.user_name.clone(),
            user_account: self.user_account.clone(),
            app_id: self.app_id.clone(),
            exp: self.exp,
        }
    }
}

/// The moment `timeout_hour` hours after `now_millis`, in milliseconds.
pub open spec fn spec_expiry(now_millis: u128, timeout_hour: u16) -> int {
    now_millis + (MILLIS_PER_HOUR as int) * (timeout_hour as int)
}

impl AccessToken {
    /// The claims of a token issued at `now_millis` and valid for
    /// `timeout_hour` hours.
    pub fn with_expiry(
        user_id: u64,
        user_account: &String,
        user_name: &String,
        app_id: &String,
        timeout_hour: u16,
        now_millis: u128,
    ) -> (r: AccessToken)
        requires
            spec_expiry(now_millis, timeout_hour) <= u128::MAX,
        ensures
            r.user_id == user_id,
            r.user_account == *user_account,
            r.user_name == *user_name,
            r.app_id == *app_id,
            r.exp == spec_expiry(now_millis, timeout_hour),
    {
        AccessToken {
            user_id,
            user_account: user_account.clone(),
            user_name: user_name.clone(),
            app_id: app_id.clone(),
            exp: now_millis + (MILLIS_PER_HOUR as u128) * (timeout_hour as u128),
        }
    }

    /// The claims are expired once the clock has passed `exp`.
    pub open spec fn spec_expired_at(self, now_millis: u128) -> bool {
        self.exp < now_millis
    }

    /// Whether the claims are expired at the given moment.
    pub fn is_expired_at(&self, now_millis: u128) -> (r: bool)
        ensures
            r == self.spec_expired_at(now_millis),
    {
        self.exp < now_millis
    }

    /// Whether the claims are expired now, by the system clock.
    pub fn is_expired(&self) -> bool {
        let now = current_unix_millis();
        self.is_expired_at(now)
    }
}

/// Milliseconds of the system clock since the epoch.
///
/// Relies on `std::time::SystemTime::now` against `UNIX_EPOCH`: what it
/// returns depends on the wall clock, so nothing is assumed of the value; a
/// clock reading before the epoch is reported as zero.
#[verifier::external_body]
fn current_unix_millis() -> u128 {
    match std::time::SystemTime::now().duration_since(std::time::UNIX_EPOCH) {
        Ok(d) => d.as_millis(),
        Err(_) => 0,
    }
}

/// The claims of an access token issued at `now_millis`, expiring
/// [`ACCESS_TOKEN_TIME`] hours later. The embedding application signs them
/// with its secret.
pub fn create_access_token(
    user_id: u64,
    user_account: &String,
    user_name: &String,
    app_id: &String,
    now_millis: u128,
) -> (r: AccessToken)
    requires
        spec_expiry(now_millis, ACCESS_TOKEN_TIME) <= u128::MAX,
    ensures
        r.user_id == user_id,
        r.user_account == *user_account,
        r.user_name == *user_name,
        r.app_id == *app_id,
        r.exp == spec_expiry(now_millis, ACCESS_TOKEN_TIME),
{
    AccessToken::with_expiry(user_id, user_account, user_name, app_id, ACCESS_TOKEN_TIME, now_millis)
}

/// The claims of a refresh token issued at `now_millis`, expiring
/// [`REFRESH_TOKEN_TIME`] hours later.
pub fn create_refresh_token(
    user_id: u64,
    user_account: &String,
    user_name: &String,
    app_id: &String,
    now_millis: u128,
) -> (r: AccessToken)
    requires
        spec_expiry(now_millis, REFRESH_TOKEN_TIME) <= u128::MAX,
    ensures
        r.user_id == user_id,
        r.user_account == *user_account,
        r.user_name == *user_name,
        r.app_id == *app_id,
        r.exp == spec_expiry(now_millis, REFRESH_TOKEN_TIME),
{
    AccessToken::with_expiry(
        user_id,
        user_account,
        user_name,
        app_id,
        REFRESH_TOKEN_TIME,
        now_millis,
    )
}

} // verus!
