//! Verified core of the Antigravity client: timestamps, proxy and IDE
//! settings, launch and keyring command planning.

pub mod client;
pub mod credentials;
pub mod json;
pub mod launch;
pub mod platform;
pub mod proxy;
pub mod settings;
pub mod text;
pub mod timefmt;
pub mod unix_path;
