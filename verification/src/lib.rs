//! The decisions and the wire grammar of a chat client for an OpenGrok server,
//! stated and proved.

pub mod text;
pub mod send_policy;
pub mod error;
pub mod clock;
pub mod reachability;
pub mod visibility;
pub mod json;
pub mod strmap;
pub mod user_form;
pub mod gen_ui;
pub mod activity;
pub mod client;
pub mod timing;
pub mod pending;
pub mod credential;
pub mod types;
pub mod prefs;
pub mod local_exec;
pub mod session;
pub mod requests;
