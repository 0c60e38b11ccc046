//! The configuration of the service: what the command line, the environment
//! and the config file say, in this order of precedence.
use vstd::prelude::*;
use vstd::string::*;
use vstd::utf8::*;

use crate::args::Args;
use crate::constants::{DEFAULT_GATEWAY_BIND, DEFAULT_GATEWAY_PORT};
use crate::text::{texts, trim, trimmed};

verus! {

/// A directory that the operating system gives the user.
#[derive(Debug, Clone, Copy, PartialEq, Eq, Structural)]
pub enum BaseDir {
    Home,
    Cache,
    Runtime,
    Config,
}

/// A path below one of the user's directories; the empty path where there is
/// no base.
#[derive(Debug, Clone)]
pub struct HostPath {
    pub base: Option<BaseDir>,
    pub components: Vec<String>,
}

/// What a [`HostPath`] stands for.
pub struct HostPathView {
    pub base: Option<BaseDir>,
    pub components: Seq<Seq<char>>,
}

impl View for HostPath {
    type V = HostPathView;

    open spec fn view(&self) -> HostPathView {
        HostPathView { base: self.base, components: texts(self.components@) }
    }
}

/// What the configuration depends on of the machine.
#[derive(Debug, Clone, Copy)]
pub struct Host {
    /// Whether there is a home directory.
    pub home_dir: bool,
    /// Whether there is a cache directory.
    pub cache_dir: bool,
    /// Whether there is a runtime directory.
    pub runtime_dir: bool,
    /// Whether the machine runs Linux.
    pub linux: bool,
    /// Whether `DISPLAY` is set.
    pub display: bool,
    /// Whether `WAYLAND_DISPLAY` is set.
    pub wayland_display: bool,
}

/// The configuration of the service.
#[derive(Clone)]
pub struct Config {
    /// The user's home directory.
    pub home_dir: HostPath,
    /// The directory of the tray icon.
    pub tray_icon: HostPath,
    /// The file that guards against a second instance.
    pub lockfile: HostPath,
    /// The gateway and its upstream.
    pub gateway: GatewayConfig,
    /// Whether to run without a tray icon.
    pub headless: bool,
}

/// What affects the gateway and its Torbox upstream. It holds the key of the
/// account, so it has no textual form; [`masked_key`] shows the key.
#[derive(Clone)]
pub struct GatewayConfig {
    pub torbox_api_key: String,
    /// The IP address to bind to, in its usual notation.
    pub bind: String,
    pub port: u16,
    /// Origins that may call the gateway besides the built-in ones.
    pub extra_allowed_origins: Vec<String>,
    /// The URL at which the gateway is reached, where a proxy stands before
    /// it.
    pub public_base_url: Option<String>,
    /// Whether clients shall always transcode.
    pub force_transcode: bool,
    /// Whether transcoded playlists are redirected to Torbox instead of
    /// proxied.
    pub direct_hls: bool,
}

/// The config file. Every setting is optional.
#[derive(Clone)]
pub struct FileConfig {
    pub torbox_api_key: Option<String>,
    pub bind: Option<String>,
    pub port: Option<u16>,
    pub extra_allowed_origins: Vec<String>,
    pub public_base_url: Option<String>,
    pub force_transcode: Option<bool>,
    pub direct_hls: Option<bool>,
}

impl FileConfig {
    /// A file that says nothing.
    pub open spec fn says_nothing(self) -> bool {
        &&& self.torbox_api_key is None
        &&& self.bind is None
        &&& self.port is None
        &&& self.extra_allowed_origins@.len() == 0
        &&& self.public_base_url is None
        &&& self.force_transcode is None
        &&& self.direct_hls is None
    }
}

impl Default for FileConfig {
    fn default() -> (r: Self)
        ensures
            r.says_nothing(),
            r.torbox_api_key is None && r.bind is None && r.port is None,
            r.extra_allowed_origins@.len() == 0,
            r.public_base_url is None && r.force_transcode is None && r.direct_hls is None,
    {
        FileConfig {
            torbox_api_key: None,
            bind: None,
            port: None,
            extra_allowed_origins: Vec::new(),
            public_base_url: None,
            force_transcode: None,
            direct_hls: None,
        }
    }
}

/// What became of reading the config file.
pub enum FileRead {
    /// There is no path to read.
    NoPath,
    /// There is no file at the path.
    Missing,
    /// The file at the path could not be read.
    Unreadable { path: String },
    /// The file at the path was read but is no config file.
    Invalid { path: String, reason: String },
    /// The file was read.
    Parsed(FileConfig),
}

/// The config file: a file that is not there says nothing, one that cannot be
/// used is an error.
pub fn load_file_config(read: FileRead) -> (r: Result<FileConfig, String>)
    ensures
        match read {
            FileRead::NoPath | FileRead::Missing => r matches Ok(f) && f.says_nothing(),
            FileRead::Unreadable { path } => r matches Err(m) && m@
                == "Failed to read config file at "@ + path@,
            FileRead::Invalid { path, reason } => r matches Err(m) && m@
                == "Invalid config file at "@ + path@ + ": "@ + reason@,
            FileRead::Parsed(file) => r == Ok::<FileConfig, String>(file),
        },
{
    match read {
        FileRead::NoPath => Ok(FileConfig::default()),
        FileRead::Missing => Ok(FileConfig::default()),
        FileRead::Unreadable { path } => {
            let mut m = "Failed to read config file at ".to_owned();
            m.append(&path);
            Err(m)
        },
        FileRead::Invalid { path, reason } => {
            let mut m = "Invalid config file at ".to_owned();
            m.append(&path);
            m.append(": ");
            m.append(&reason);
            Err(m)
        },
        FileRead::Parsed(file) => Ok(file),
    }
}

fn path_of(base: BaseDir, component: &str) -> (r: HostPath)
    ensures
        r@ == (HostPathView { base: Some(base), components: seq![component@] }),
{
    let mut components: Vec<String> = Vec::new();
    components.push(component.to_owned());
    proof {
        assert(texts(components@) == seq![component@]);
    }
    HostPath { base: Some(base), components }
}

/// Where the config file lies by default.
pub fn default_config_path(has_config_dir: bool) -> (r: Option<HostPath>)
    ensures
        r is Some <==> has_config_dir,
        r matches Some(p) ==> p@ == (HostPathView {
            base: Some(BaseDir::Config),
            components: seq!["stremio-service"@, "config.toml"@],
        }),
{
    if !has_config_dir {
        return None;
    }
    let mut components: Vec<String> = Vec::new();
    components.push("stremio-service".to_owned());
    components.push("config.toml".to_owned());
    proof {
        assert(texts(components@) == seq!["stremio-service"@, "config.toml"@]);
    }
    Some(HostPath { base: Some(BaseDir::Config), components })
}

/// Whether the machine has no graphical session: on Linux, where neither
/// display variable is set.
pub fn is_headless_environment(host: &Host) -> (r: bool)
    ensures
        r == (host.linux && !host.display && !host.wayland_display),
{
    host.linux && !host.display && !host.wayland_display
}

/// What the operator reads who gave no key.
pub const KEY_NOT_SET: &'static str =
    "Torbox API key not set. Pass --torbox-api-key, set TORBOX_API_KEY, or add `torbox_api_key = \"…\"` to ~/.config/stremio-service/config.toml.";

/// A setting of the command line, else of the file.
pub open spec fn first_of<T>(arg: Option<T>, file: Option<T>) -> Option<T> {
    if arg is Some {
        arg
    } else {
        file
    }
}

fn first_set<T>(arg: Option<T>, file: Option<T>) -> (r: Option<T>)
    ensures
        r == first_of(arg, file),
{
    match arg {
        Some(value) => Some(value),
        None => file,
    }
}

/// The key that the settings give, without white space around it; none where
/// it is blank.
pub open spec fn chosen_key(args: Args, file: FileConfig) -> Option<Seq<char>> {
    match first_of(args.torbox_api_key, file.torbox_api_key) {
        Some(key) => if trimmed(key@).len() == 0 {
            None
        } else {
            Some(trimmed(key@))
        },
        None => None,
    }
}

/// The error of a configuration, the first in order.
pub open spec fn config_error(
    args: Args,
    host: Host,
    file: Result<FileConfig, String>,
) -> Option<Seq<char>> {
    if !host.home_dir {
        Some("Failed to get home dir"@)
    } else if !host.cache_dir {
        Some("Failed to get cache dir"@)
    } else {
        match file {
            Err(reason) => Some(reason@),
            Ok(f) => if chosen_key(args, f) is None {
                Some(KEY_NOT_SET@)
            } else {
                None
            },
        }
    }
}

/// Whether the gateway is configured as the command line and the file say, the
/// command line first, and by default where neither says.
pub open spec fn gateway_follows(g: GatewayConfig, args: Args, file: FileConfig) -> bool {
    &&& chosen_key(args, file) == Some(g.torbox_api_key@)
    &&& g.bind@ == (match first_of(args.bind, file.bind) {
        Some(bind) => bind@,
        None => DEFAULT_GATEWAY_BIND@,
    })
    &&& g.port == (match first_of(args.port, file.port) {
        Some(port) => port,
        None => DEFAULT_GATEWAY_PORT,
    })
    &&& g.extra_allowed_origins == file.extra_allowed_origins
    &&& g.public_base_url == file.public_base_url
    &&& g.force_transcode == (file.force_transcode == Some(true))
    &&& g.direct_hls == (first_of(args.direct_hls, file.direct_hls) == Some(true))
}

impl Config {
    /// Puts the configuration together. The tray icon lies in the runtime
    /// directory, or in the cache directory where there is none.
    pub fn new(args: Args, host: &Host, file: Result<FileConfig, String>) -> (r: Result<
        Self,
        String,
    >)
        ensures
            r is Err <==> config_error(args, *host, file) is Some,
            r matches Err(m) ==> config_error(args, *host, file) == Some(m@),
            r matches Ok(c) ==> {
                &&& file matches Ok(f) && gateway_follows(c.gateway, args, f)
                &&& c.home_dir@ == (HostPathView {
                    base: Some(BaseDir::Home),
                    components: Seq::empty(),
                })
                &&& c.tray_icon@ == (if !host.linux {
                    HostPathView { base: None, components: Seq::empty() }
                } else if host.runtime_dir {
                    HostPathView {
                        base: Some(BaseDir::Runtime),
                        components: seq!["stremio-service"@],
                    }
                } else {
                    HostPathView {
                        base: Some(BaseDir::Cache),
                        components: seq!["stremio-service"@],
                    }
                })
                &&& c.lockfile@ == (HostPathView {
                    base: Some(BaseDir::Cache),
                    components: seq!["stremio-service.lock"@],
                })
                &&& c.headless == (args.headless || (host.linux && !host.display
                    && !host.wayland_display))
            },
    {
        if !host.home_dir {
            return Err("Failed to get home dir".to_owned());
        }
        if !host.cache_dir {
            return Err("Failed to get cache dir".to_owned());
        }
        let file = match file {
            Ok(f) => f,
            Err(reason) => return Err(reason),
        };
        let headless = args.headless || is_headless_environment(host);
        let torbox_api_key = match first_set(args.torbox_api_key, file.torbox_api_key) {
            Some(key) => {
                let key = trim(&key);
                if key.is_empty() {
                    return Err(KEY_NOT_SET.to_owned());
                }
                key.to_owned()
            },
            None => return Err(KEY_NOT_SET.to_owned()),
        };
        let bind = match first_set(args.bind, file.bind) {
            Some(bind) => bind,
            None => DEFAULT_GATEWAY_BIND.to_owned(),
        };
        let port: u16 = match first_set(args.port, file.port) {
            Some(port) => port,
            None => DEFAULT_GATEWAY_PORT,
        };
        let force_transcode = match file.force_transcode {
            Some(b) => b,
            None => false,
        };
        let direct_hls = match first_set(args.direct_hls, file.direct_hls) {
            Some(b) => b,
            None => false,
        };
        let tray_icon = if !host.linux {
            let components: Vec<String> = Vec::new();
            proof {
                assert(texts(components@) == Seq::<Seq<char>>::empty());
            }
            HostPath { base: None, components }
        } else if host.runtime_dir {
            path_of(BaseDir::Runtime, "stremio-service")
        } else {
            path_of(BaseDir::Cache, "stremio-service")
        };
        let home: Vec<String> = Vec::new();
        proof {
            assert(texts(home@) == Seq::<Seq<char>>::empty());
        }
        Ok(
            Config {
                home_dir: HostPath { base: Some(BaseDir::Home), components: home },
                tray_icon,
                lockfile: path_of(BaseDir::Cache, "stremio-service.lock"),
                gateway: GatewayConfig {
                    torbox_api_key,
                    bind,
                    port,
                    extra_allowed_origins: file.extra_allowed_origins,
                    public_base_url: file.public_base_url,
                    force_transcode,
                    direct_hls,
                },
                headless,
            },
        )
    }
}

/// Whether a key can be cut four bytes from either end, or need not be.
pub open spec fn can_mask(key: Seq<char>) -> bool {
    let bytes = encode_utf8(key);
    bytes.len() > 8 ==> is_char_boundary(bytes, 4) && is_char_boundary(bytes, bytes.len() - 4)
}

/// A key as logs may show it: a long one by its first and last four bytes, a
/// short one not at all.
pub open spec fn masked(key: Seq<char>) -> Seq<char> {
    let bytes = encode_utf8(key);
    if bytes.len() > 8 {
        decode_utf8(bytes.subrange(0, 4)) + "…"@ + decode_utf8(
            bytes.subrange(bytes.len() - 4, bytes.len() as int),
        )
    } else if bytes.len() == 0 {
        "<unset>"@
    } else {
        "<redacted>"@
    }
}

/// Shows a key without giving it away.
pub fn masked_key(key: &str) -> (r: String)
    requires
        can_mask(key@),
    ensures
        r@ == masked(key@),
{
    let n: usize = key.as_bytes().len();
    if n > 8 {
        let (head, _) = key.split_at(4);
        let (_, tail) = key.split_at(n - 4);
        proof {
            encode_utf8_decode_utf8(head@);
            encode_utf8_decode_utf8(tail@);
        }
        let mut out = head.to_owned();
        out.append("…");
        out.append(tail);
        out
    } else if n == 0 {
        "<unset>".to_owned()
    } else {
        "<redacted>".to_owned()
    }
}

// ---------------------------------------------------------------------------
// Laws
// ---------------------------------------------------------------------------

/// The command line goes before the file: a key given there is the one that is
/// used, whatever the file says.
pub proof fn argument_key_wins(args: Args, file: FileConfig, key: String)
    requires
        args.torbox_api_key == Some(key),
        trimmed(key@).len() > 0,
    ensures
        chosen_key(args, file) == Some(trimmed(key@)),
{
}

/// What the command line says of the address, the port and direct streaming is
/// what is used; the file only fills in what it leaves open.
pub proof fn arguments_win(g: GatewayConfig, args: Args, file: FileConfig)
    requires
        gateway_follows(g, args, file),
    ensures
        args.bind matches Some(bind) ==> g.bind@ == bind@,
        args.bind is None ==> (file.bind matches Some(bind) ==> g.bind@ == bind@),
        args.port matches Some(port) ==> g.port == port,
        args.port is None ==> (file.port matches Some(port) ==> g.port == port),
        args.direct_hls matches Some(direct) ==> g.direct_hls == direct,
        args.direct_hls is None ==> (file.direct_hls matches Some(direct) ==> g.direct_hls
            == direct),
{
}

/// The key in use is never blank.
pub proof fn key_is_not_blank(g: GatewayConfig, args: Args, file: FileConfig)
    requires
        gateway_follows(g, args, file),
    ensures
        g.torbox_api_key@.len() > 0,
{
}

/// A masked long key shows nothing of what lies between its first and its last
/// four bytes.
pub proof fn mask_hides_the_middle(a: Seq<char>, b: Seq<char>)
    requires
        encode_utf8(a).len() > 8,
        encode_utf8(b).len() > 8,
        encode_utf8(a).subrange(0, 4) == encode_utf8(b).subrange(0, 4),
        encode_utf8(a).subrange(encode_utf8(a).len() - 4, encode_utf8(a).len() as int)
            == encode_utf8(b).subrange(encode_utf8(b).len() - 4, encode_utf8(b).len() as int),
    ensures
        masked(a) == masked(b),
{
}

/// All short keys look the same once masked.
pub proof fn mask_hides_short_keys(a: Seq<char>, b: Seq<char>)
    requires
        0 < encode_utf8(a).len() <= 8,
        0 < encode_utf8(b).len() <= 8,
    ensures
        masked(a) == masked(b),
{
}

} // verus!
