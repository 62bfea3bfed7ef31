//! Keeps a Mastodon account and a Twitter account mirrored: decides which
//! posts are missing on either side, and which cached posts are old enough to
//! be deleted.
pub mod text;
pub mod normalize;
pub mod sync;
pub mod cache;
pub mod delete_statuses;
pub mod config;
