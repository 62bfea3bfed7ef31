//! Settings of both accounts, and which old posts each may delete.
use vstd::prelude::*;

verus! {

/// The registered Mastodon application and its access token.
pub struct MastodonApp {
    pub base: String,
    pub client_id: String,
    pub client_secret: String,
    pub redirect: String,
    pub token: String,
}

pub struct MastodonConfig {
    pub app: MastodonApp,
    pub delete_older_statuses: bool,
    pub delete_older_favs: bool,
}

pub struct TwitterConfig {
    pub consumer_key: String,
    pub consumer_secret: String,
    pub access_token: String,
    pub access_token_secret: String,
    pub user_id: u64,
    pub user_name: String,
    pub delete_older_statuses: bool,
    pub delete_older_favs: bool,
}

pub struct Config {
    pub mastodon: MastodonConfig,
    pub twitter: TwitterConfig,
}

/// A deletion switch that the settings leave out is off.
pub fn config_false_default() -> (r: bool)
    ensures
        !r,
{
    false
}

} // verus!
