use ropds::config::{
    default_book_extensions, default_covers_path, default_db_url, default_host, default_log_level,
    default_max_items, default_max_upload_size_mb, default_opds_title, default_port,
    default_schedule_hours, default_schedule_minutes, default_session_ttl_hours, default_split_items,
    default_workers_num, default_zip_codepage, Config, CoversConfig, DatabaseConfig, LibraryConfig,
    OpdsConfig, ReaderConfig, ScannerConfig, ServerConfig, SmtpConfig, UploadConfig, WebConfig,
};
use ropds::oauth::{parse_userinfo, ProviderKind, UserInfoFields};
use ropds::parsers::{book_format, BookFormat};
use ropds::scanner::zipbooks::enriched_index;

fn fields() -> UserInfoFields {
    UserInfoFields {
        sub: None,
        id: None,
        email: None,
        name: None,
        default_email: None,
        login: None,
        real_name: None,
        display_name: None,
        preferred_username: None,
        realm_roles: Vec::new(),
    }
}

#[test]
fn test_google_parse_userinfo() {
    let json = UserInfoFields {
        sub: Some("12345".to_string()),
        email: Some("a@b.com".to_string()),
        name: Some("Alice B".to_string()),
        ..fields()
    };
    let info = match parse_userinfo(ProviderKind::Google, &json) {
        Ok(i) => i,
        Err(_) => panic!("a Google userinfo with a subject parses"),
    };
    assert_eq!(info.provider_uid, "12345");
    assert_eq!(info.email.as_deref(), Some("a@b.com"));
    assert_eq!(info.display_name.as_deref(), Some("Alice B"));
}

#[test]
fn test_yandex_parse_userinfo() {
    let json = UserInfoFields {
        id: Some("yx-99".to_string()),
        default_email: Some("y@ya.ru".to_string()),
        real_name: Some("Yuri Y".to_string()),
        ..fields()
    };
    let info = match parse_userinfo(ProviderKind::Yandex, &json) {
        Ok(i) => i,
        Err(_) => panic!("a Yandex userinfo with an id parses"),
    };
    assert_eq!(info.provider_uid, "yx-99");
    assert_eq!(info.email.as_deref(), Some("y@ya.ru"));
}

#[test]
fn test_keycloak_parse_roles() {
    let json = UserInfoFields {
        sub: Some("kc-1".to_string()),
        email: Some("k@corp.com".to_string()),
        name: Some("Karl".to_string()),
        realm_roles: vec!["ropds_can_upload".to_string(), "offline_access".to_string()],
        ..fields()
    };
    let info = match parse_userinfo(ProviderKind::Keycloak, &json) {
        Ok(i) => i,
        Err(_) => panic!("a Keycloak userinfo with a subject parses"),
    };
    assert!(info.roles.contains(&"ropds_can_upload".to_string()));
    assert_eq!(info.roles.len(), 2);
}

fn config_with_legacy_keys(covers_path: &str) -> Config {
    Config {
        server: ServerConfig {
            host: default_host(),
            port: default_port(),
            log_level: default_log_level(),
            session_secret: String::new(),
            session_ttl_hours: default_session_ttl_hours(),
        },
        library: LibraryConfig {
            root_path: "/books".to_string(),
            covers_path: Some("/books/covers".to_string()),
            cover_max_dimension_px: Some(500),
            cover_jpeg_quality: Some(70),
            book_extensions: default_book_extensions(),
            scan_zip: true,
            zip_codepage: default_zip_codepage(),
            inpx_enable: true,
        },
        covers: CoversConfig { covers_path: covers_path.to_string(), ..CoversConfig::defaults() },
        database: DatabaseConfig { url: default_db_url() },
        opds: OpdsConfig {
            title: default_opds_title(),
            subtitle: String::new(),
            max_items: default_max_items(),
            split_items: default_split_items(),
            auth_required: true,
            show_covers: Some(false),
            alphabet_menu: true,
            hide_doubles: false,
        },
        scanner: ScannerConfig {
            schedule_minutes: default_schedule_minutes(),
            schedule_hours: default_schedule_hours(),
            schedule_day_of_week: Vec::new(),
            delete_logical: true,
            skip_unchanged: false,
            test_zip: false,
            test_files: false,
            workers_num: default_workers_num(),
        },
        web: WebConfig::defaults(),
        upload: UploadConfig {
            allow_upload: false,
            upload_path: String::new(),
            max_upload_size_mb: default_max_upload_size_mb(),
        },
        reader: ReaderConfig::defaults(),
        smtp: SmtpConfig::default(),
    }
}

#[test]
fn test_parse_legacy_cover_options_in_library_and_opds() {
    let mut config = config_with_legacy_keys(&default_covers_path());
    config.apply_legacy_cover_fallbacks();
    assert_eq!(config.covers.covers_path, "/books/covers");
    assert_eq!(config.covers.cover_max_dimension_px, 500);
    assert_eq!(config.covers.cover_jpeg_quality, 70);
    assert!(!config.covers.show_covers);
}

#[test]
fn legacy_covers_path_replaces_any_spelling_of_the_default() {
    let mut config = config_with_legacy_keys("covers/");
    config.apply_legacy_cover_fallbacks();
    assert_eq!(config.covers.covers_path, "/books/covers");
    let mut own = config_with_legacy_keys("/srv/covers");
    own.apply_legacy_cover_fallbacks();
    assert_eq!(own.covers.covers_path, "/srv/covers");
}

#[test]
fn book_formats_by_extension() {
    assert_eq!(book_format("epub"), BookFormat::Epub);
    assert_eq!(book_format("fb2"), BookFormat::Fb2);
    assert_eq!(book_format("mobi"), BookFormat::Mobi);
    assert_eq!(book_format("pdf"), BookFormat::Pdf);
    assert_eq!(book_format("djvu"), BookFormat::Djvu);
    assert_eq!(book_format("doc"), BookFormat::Other);
}

#[test]
fn enriched_index_finds_the_first_matching_name() {
    let names = vec!["a.fb2".to_string(), "b.fb2".to_string(), "a.fb2".to_string()];
    assert_eq!(enriched_index(&names, "a.fb2"), Some(0));
    assert_eq!(enriched_index(&names, "b.fb2"), Some(1));
    assert_eq!(enriched_index(&names, "c.fb2"), None);
}
