use stremio_service::args::{env_switch, parse_bool_lenient, Args};
use stremio_service::config::{
    default_config_path, is_headless_environment, load_file_config, masked_key, BaseDir, Config,
    FileConfig, FileRead, Host, KEY_NOT_SET,
};
use stremio_service::gateway::build_cors;

fn args() -> Args {
    Args {
        open: None,
        config: None,
        torbox_api_key: None,
        bind: None,
        port: None,
        headless: false,
        direct_hls: None,
    }
}

fn host() -> Host {
    Host {
        home_dir: true,
        cache_dir: true,
        runtime_dir: true,
        linux: true,
        display: true,
        wayland_display: false,
    }
}

#[test]
fn booleans_are_read_leniently() {
    for yes in ["1", "true", "YES", " on ", "True"] {
        assert_eq!(parse_bool_lenient(yes), Ok(true));
        assert!(env_switch(yes));
    }
    for no in ["0", "false", "No", "OFF", "", "  "] {
        assert_eq!(parse_bool_lenient(no), Ok(false));
        assert!(!env_switch(no));
    }
    assert_eq!(
        parse_bool_lenient(" Maybe"),
        Err("expected a boolean (1/0, true/false, yes/no, on/off), got `maybe`".to_owned())
    );
    assert!(!env_switch("maybe"));
}

#[test]
fn a_missing_file_says_nothing() {
    for read in [FileRead::NoPath, FileRead::Missing] {
        let file = load_file_config(read).ok().unwrap();
        assert!(file.torbox_api_key.is_none());
        assert!(file.port.is_none());
        assert!(file.extra_allowed_origins.is_empty());
    }
}

#[test]
fn a_bad_file_is_an_error() {
    let unreadable = load_file_config(FileRead::Unreadable { path: "/c.toml".to_owned() });
    assert_eq!(unreadable.err().unwrap(), "Failed to read config file at /c.toml");
    let invalid = load_file_config(FileRead::Invalid {
        path: "/c.toml".to_owned(),
        reason: "no".to_owned(),
    });
    assert_eq!(invalid.err().unwrap(), "Invalid config file at /c.toml: no");
}

#[test]
fn a_read_file_is_kept() {
    let mut file = FileConfig::default();
    file.port = Some(7);
    let kept = load_file_config(FileRead::Parsed(file)).ok().unwrap();
    assert_eq!(kept.port, Some(7));
}

#[test]
fn defaults_apply() {
    let mut a = args();
    a.torbox_api_key = Some("  key  ".to_owned());
    let config = Config::new(a, &host(), Ok(FileConfig::default())).ok().unwrap();
    assert_eq!(config.gateway.torbox_api_key, "key");
    assert_eq!(config.gateway.bind, "127.0.0.1");
    assert_eq!(config.gateway.port, 11470);
    assert!(!config.gateway.force_transcode);
    assert!(!config.gateway.direct_hls);
    assert!(!config.headless);
    assert_eq!(config.home_dir.base, Some(BaseDir::Home));
    assert_eq!(config.tray_icon.base, Some(BaseDir::Runtime));
    assert_eq!(config.tray_icon.components, vec!["stremio-service"]);
    assert_eq!(config.lockfile.base, Some(BaseDir::Cache));
    assert_eq!(config.lockfile.components, vec!["stremio-service.lock"]);
}

#[test]
fn arguments_go_before_the_file() {
    let file = FileConfig {
        torbox_api_key: Some("file-key".to_owned()),
        bind: Some("10.0.0.1".to_owned()),
        port: Some(1),
        extra_allowed_origins: vec!["https://a.example".to_owned()],
        public_base_url: Some("https://b.example".to_owned()),
        force_transcode: Some(true),
        direct_hls: Some(true),
    };
    let from_file = Config::new(args(), &host(), Ok(file.clone())).ok().unwrap();
    assert_eq!(from_file.gateway.torbox_api_key, "file-key");
    assert_eq!(from_file.gateway.bind, "10.0.0.1");
    assert_eq!(from_file.gateway.port, 1);
    assert_eq!(from_file.gateway.public_base_url.as_deref(), Some("https://b.example"));
    assert!(from_file.gateway.force_transcode);
    assert!(from_file.gateway.direct_hls);

    let mut a = args();
    a.torbox_api_key = Some("arg-key".to_owned());
    a.bind = Some("0.0.0.0".to_owned());
    a.port = Some(2);
    a.direct_hls = Some(false);
    a.headless = true;
    let config = Config::new(a, &host(), Ok(file)).ok().unwrap();
    assert_eq!(config.gateway.torbox_api_key, "arg-key");
    assert_eq!(config.gateway.bind, "0.0.0.0");
    assert_eq!(config.gateway.port, 2);
    assert!(!config.gateway.direct_hls);
    assert!(config.headless);
}

#[test]
fn configuration_errors_in_order() {
    let mut no_home = host();
    no_home.home_dir = false;
    no_home.cache_dir = false;
    let error = Config::new(args(), &no_home, Ok(FileConfig::default())).err().unwrap();
    assert_eq!(error, "Failed to get home dir");
    let mut no_cache = host();
    no_cache.cache_dir = false;
    let error = Config::new(args(), &no_cache, Err("bad".to_owned())).err().unwrap();
    assert_eq!(error, "Failed to get cache dir");
    let error = Config::new(args(), &host(), Err("bad".to_owned())).err().unwrap();
    assert_eq!(error, "bad");
    let error = Config::new(args(), &host(), Ok(FileConfig::default())).err().unwrap();
    assert_eq!(error, KEY_NOT_SET);
    let mut blank = args();
    blank.torbox_api_key = Some("   ".to_owned());
    let error = Config::new(blank, &host(), Ok(FileConfig::default())).err().unwrap();
    assert_eq!(error, KEY_NOT_SET);
}

#[test]
fn headless_without_a_display() {
    let mut h = host();
    assert!(!is_headless_environment(&h));
    h.display = false;
    assert!(is_headless_environment(&h));
    h.wayland_display = true;
    assert!(!is_headless_environment(&h));
    h.wayland_display = false;
    h.linux = false;
    assert!(!is_headless_environment(&h));
}

#[test]
fn the_default_config_file() {
    assert!(default_config_path(false).is_none());
    let path = default_config_path(true).unwrap();
    assert_eq!(path.base, Some(BaseDir::Config));
    assert_eq!(path.components, vec!["stremio-service", "config.toml"]);
}

#[test]
fn keys_are_masked() {
    assert_eq!(masked_key(""), "<unset>");
    assert_eq!(masked_key("12345678"), "<redacted>");
    assert_eq!(masked_key("short"), masked_key("other"));
    assert_eq!(masked_key("123456789"), "1234…6789");
    assert_eq!(masked_key("abcdSECRETwxyz"), masked_key("abcd-another-one-wxyz"));
}

#[test]
fn who_may_call() {
    let mut a = args();
    a.torbox_api_key = Some("key".to_owned());
    let mut file = FileConfig::default();
    file.extra_allowed_origins.push("https://my-fork.example.com".to_owned());
    let config = Config::new(a, &host(), Ok(file)).ok().unwrap();
    let cors = build_cors(&config.gateway);
    for origin in [
        "https://web.stremio.com",
        "https://stremio.github.io",
        "https://my-fork.example.com",
        "https://beta.strem.io",
        "https://a.b.stremio.com",
        "http://127.0.0.1:8080",
        "https://localhost:1",
        "null",
    ] {
        assert!(cors.allows(Some(origin)), "{origin}");
    }
    for origin in [
        "https://example.com",
        "https://evilstrem.io",
        "https://.strem.io",
        "http://beta.strem.io",
        "https://a/b.strem.io",
        "http://localhost",
        "",
    ] {
        assert!(!cors.allows(Some(origin)), "{origin}");
    }
    assert!(!cors.allows(None));
    assert!(!cors.credentials);
    assert_eq!(cors.methods, vec!["GET", "POST", "PUT", "DELETE", "OPTIONS", "HEAD"]);
    assert_eq!(cors.exposed_headers, vec!["content-length", "content-range", "content-type"]);
}
