//! Verified core of the portus window manager: protocol values, authenticated-session
//! consent, validation rules and the pure parts of the daemon.
use vstd::prelude::*;

pub mod auth_domain;
pub mod authority;
pub mod broker;
pub mod database;
pub mod dispatch;
pub mod cli;
pub mod consent;
pub mod ini;
pub mod interaction;
pub mod ipc;
pub mod keyed;
pub mod layout;
pub mod media;
pub mod media_runtime;
pub mod observation;
pub mod observability;
pub mod protocol;
pub mod registry;
pub mod screenshot;
pub mod text;
pub mod urls;
pub mod video_service;
pub mod web_profile;
pub mod web_video;
pub mod window_core;
pub mod window_manager;
pub mod workspace;

verus! {

} // verus!
