//! Verified core of the xzar Nix binary cache: the text formats, validation
//! rules and decision procedures shared by the cache server and its client.

pub mod admin;
pub mod admin_cli;
pub mod api_types;
pub mod auth;
pub mod client;
pub mod client_config;
pub mod config;
pub mod crypto;
pub mod duration;
pub mod gc;
pub mod error;
pub mod models;
pub mod nar_hash;
pub mod narinfo;
pub mod oidc;
pub mod nix_base32;
pub mod nix_query;
pub mod pin_tree;
pub mod pins;
pub mod retry;
pub mod sorting;
pub mod storage;
pub mod store_path;
pub mod text;
pub mod ui;
pub mod upload;
pub mod userinfo;

use vstd::prelude::*;

verus! {

} // verus!
