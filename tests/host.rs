use diosic::api::{APIError, APIErrorType, DiosicID, PubMediaInfo, UserInfo, UserPermission, user_token};
use diosic::config::{to_libraries, option_path, Commands, Config, ConfigError, Meta};
use diosic::model::{AudioProperties, FileKind, LibraryInfo, MediaInfo, MediaMetaInfo, TagFields};
use diosic::plugin::{
    entries_in_order, is_plugin_directory, load_order, read_callback, write_plan, ModuleOutcome,
    PluginRun,
};
use diosic::text::calc_hash;

fn record(title: &str) -> MediaInfo {
    let tags = TagFields {
        title: Some(title.to_string()),
        album: Some("Kind of Blue".to_string()),
        artist: Some("Miles".to_string()),
        genre: Some("Jazz".to_string()),
        year: Some(1959),
    };
    let props = AudioProperties {
        sample_rate: None,
        bit_depth: None,
        audio_bitrate: None,
        overall_bitrate: None,
        channels: None,
        duration_seconds: 10,
    };
    let meta = MediaMetaInfo::from_tags("so_what", Some(tags), props, &FileKind::Mpeg);
    let config = Config {
        libraries: Vec::new(),
        data_path: None,
        covers_cached_path: None,
        host: String::new(),
        port: 0,
        public_url: String::new(),
    };
    let lib = LibraryInfo { path: "/m".to_string(), title: "M".to_string() };
    MediaInfo::from_meta(meta, &config, &lib, 1, "/m/so_what.mp3".to_string(), false)
}

fn user(name: &str, admin: bool) -> UserInfo {
    UserInfo {
        id: 1,
        username: name.to_string(),
        password: "secret-pass".to_string(),
        alias: name.to_string(),
        is_admin: admin,
    }
}

#[test]
fn plugin_uppercases_title() {
    let given = record("So What");
    let mut upper = given.clone();
    upper.title = given.title.to_uppercase();
    let mut run = PluginRun::new(given, 1);
    assert!(!run.is_done());
    run.step(ModuleOutcome::Returned(upper));
    assert!(run.is_done());
    assert_eq!(run.finish().title, "SO WHAT");
}

#[test]
fn pipeline_keeps_last_good_value() {
    let first = record("First");
    let second = record("Second");
    let mut run = PluginRun::new(record("Start"), 5);
    run.step(ModuleOutcome::Returned(first));
    run.step(ModuleOutcome::Malformed);
    run.step(ModuleOutcome::Returned(second));
    run.step(ModuleOutcome::Failed);
    run.step(ModuleOutcome::NoCallback);
    assert!(run.is_done());
    assert_eq!(run.finish().title, "Second");
    let mut idle = PluginRun::new(record("Start"), 2);
    idle.step(ModuleOutcome::Skipped);
    idle.step(ModuleOutcome::Malformed);
    assert_eq!(idle.finish().title, "Start");
}

#[test]
fn callback_bounds_are_checked() {
    let memory: Vec<u8> = (0u8..16).collect();
    assert_eq!(read_callback(&memory, 4, 3), Some(vec![4, 5, 6]));
    assert_eq!(read_callback(&memory, 16, 0), Some(vec![]));
    assert_eq!(read_callback(&memory, 14, 3), None);
    assert_eq!(read_callback(&memory, u32::MAX, u32::MAX), None);
    assert_eq!(write_plan(65536, 300), Some((0, 300)));
    assert_eq!(write_plan(100, 101), None);
}

#[test]
fn plugin_directories_in_sorted_order() {
    assert!(is_plugin_directory("/data/plugins/diosic-plugin-upper"));
    assert!(!is_plugin_directory("/data/plugins/upper"));
    assert!(!is_plugin_directory("/"));
    let dirs = vec![
        "/p/diosic-plugin-zeta".to_string(),
        "/p/other".to_string(),
        "/p/diosic-plugin-alpha".to_string(),
    ];
    let in_order = entries_in_order(&dirs);
    assert_eq!(in_order[0].name, "diosic-plugin-zeta");
    let entries = load_order(dirs);
    let twice = load_order(vec![
        "/q/diosic-plugin-a".to_string(),
        "/p/diosic-plugin-a".to_string(),
    ]);
    assert_eq!(twice.len(), 1);
    assert_eq!(twice[0].wasm_path, "/p/diosic-plugin-a/main.wasm");
    assert_eq!(entries.len(), 2);
    assert_eq!(entries[0].name, "diosic-plugin-alpha");
    assert_eq!(entries[0].wasm_path, "/p/diosic-plugin-alpha/main.wasm");
    assert_eq!(entries[1].name, "diosic-plugin-zeta");
}

#[test]
fn library_options() {
    let options = vec![
        "/music".to_string(),
        "Jazz;/jazz".to_string(),
        "/missing".to_string(),
        "Jazz;/other".to_string(),
        "/more".to_string(),
    ];
    let dirs = vec![true, true, false, true, true];
    let libs = to_libraries(&options, &dirs).unwrap();
    let got: Vec<(&str, &str)> = libs.iter().map(|l| (l.title.as_str(), l.path.as_str())).collect();
    assert_eq!(got, vec![("Unknown_1", "/music"), ("Jazz", "/jazz"), ("Unknown_2", "/more")]);
    assert_eq!(option_path("Jazz;/jazz"), Some("/jazz".to_string()));
    assert_eq!(option_path("/jazz"), Some("/jazz".to_string()));
    assert_eq!(option_path("a;b;c"), None);
}

#[test]
fn malformed_library_option_is_refused() {
    let options = vec!["A;/a".to_string(), "B;/b;x".to_string(), "C;/c;y".to_string()];
    let r = to_libraries(&options, &vec![true, true, true]);
    assert!(matches!(r, Err(ConfigError::BadLibraryOption(1))));
}

#[test]
fn config_from_command_line() {
    let meta = Meta {
        config: None,
        data_path: Some("/data".to_string()),
        library: Some(vec!["Main;/music".to_string()]),
        host: "0.0.0.0".to_string(),
        port: 3177,
        public_url: String::new(),
        command: Commands::Serve,
    };
    let config = Config::load_from_meta(meta, &vec![true]).unwrap();
    assert_eq!(config.covers_cached_path.as_deref(), Some("/data/covers_cached"));
    assert_eq!(config.libraries.len(), 1);
    assert_eq!(config.libraries[0].title, "Main");
    let bare = Meta {
        config: None,
        data_path: None,
        library: None,
        host: String::new(),
        port: 1,
        public_url: String::new(),
        command: Commands::Serve,
    };
    let config = Config::load_from_meta(bare, &vec![]).unwrap();
    assert!(config.libraries.is_empty());
    assert!(config.covers_cached_path.is_none());
}

#[test]
fn permissions() {
    let nobody = UserPermission::new(None);
    assert!(!nobody.is_admin());
    assert!(!nobody.exists_owner());
    assert!(!nobody.have_permission_with("bob"));
    let err = nobody.get_owner().unwrap_err();
    assert_eq!(err.error_type(), APIErrorType::NoPermission);
    assert_eq!(err.message(), "NoPermission: User is not logging!");
    let bob = UserPermission::new(Some(user("bob", false)));
    assert!(bob.have_permission_with("bob"));
    assert!(!bob.have_permission_with("eve"));
    assert!(!bob.is_guest());
    assert_eq!(bob.get_owner().unwrap().username, "bob");
    let admin = UserPermission::new(Some(user("root", true)));
    assert!(admin.is_admin());
    assert!(admin.have_permission_with("eve"));
    let guest = UserPermission::new(Some(user("guest", false)));
    assert!(guest.is_guest());
}

#[test]
fn api_errors() {
    assert_eq!(APIError::with(APIErrorType::NoFound).message(), "NoFound");
    assert_eq!(APIError::with(APIErrorType::NoFound).status_code(), 404);
    assert_eq!(APIError::with(APIErrorType::NoPermission).status_code(), 406);
    assert_eq!(APIError::with(APIErrorType::Unspecified).status_code(), 500);
    assert_eq!(APIError::with(APIErrorType::NoFoundUser).status_code(), 404);
    let e = APIError::with(APIErrorType::Unexpected).note("boom".to_string());
    assert_eq!(e.status_code(), 417);
    assert_eq!(e.message(), "Unexpected: boom");
}

#[test]
fn ids_and_tokens() {
    let id = DiosicID::new("abc");
    assert_eq!(id.as_str(), "abc");
    let u = user("bob", false);
    let token = user_token(&u);
    assert_eq!(token, calc_hash("bob+secret-pass").to_string());
    assert!(token.chars().all(|c| c.is_ascii_digit()));
    let public = PubMediaInfo::from_media(record("So What"));
    assert_eq!(public.title, "So What");
    assert_eq!(public.file_type, "mpeg");
}
