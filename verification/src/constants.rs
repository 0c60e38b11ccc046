//! Names and defaults of the service.
use vstd::prelude::*;

verus! {

pub const STREMIO_URL: &'static str = "https://web.stremio.com";

pub const APP_IDENTIFIER: &'static str = "com.stremio.service";

pub const APP_NAME: &'static str = "StremioService";

pub const DESKTOP_FILE_PATH: &'static str = "/usr/share/applications";

pub const DESKTOP_FILE_NAME: &'static str = "com.stremio.service.desktop";

pub const AUTOSTART_CONFIG_PATH: &'static str = ".config/autostart";

pub const LAUNCH_AGENTS_PATH: &'static str = "Library/LaunchAgents";

/// The port the gateway binds to by default: the well-known port of Stremio
/// streaming servers.
pub const DEFAULT_GATEWAY_PORT: u16 = 11470;

/// The address the gateway binds to by default.
pub const DEFAULT_GATEWAY_BIND: &'static str = "127.0.0.1";

/// The base URL of the Torbox API.
pub const TORBOX_API_BASE: &'static str = "https://api.torbox.app";

} // verus!
