use std::borrow::Cow;
use ropds::assets::{build_etag, matches_if_none_match, normalize_static_path};
use ropds::config::{is_email_configured, SmtpConfig};
use ropds::db::{rewrite_placeholders, suppression_key, DbBackend};
use ropds::oauth::{username_candidate, ProviderKind};
use ropds::pdf::parse_pdfinfo_stdout;
use ropds::web::admin::{format_uptime, is_valid_password, redirect_url, validate_book_title};
use ropds::web::auth::{
    generate_csrf_token, sign_oauth_state, sign_oauth_state_at, sign_session, sign_session_at,
    validate_csrf, STATE_TTL_SECS,
    verify_oauth_state, verify_session, verify_session_at,
};
use ropds::web::views::{default_m, parse_bookshelf_sort, web_search_plan, SortColumn, WebSearchQuery};

#[test]
fn normalize_static_path_accepts_valid_segments() {
    assert_eq!(
        normalize_static_path("js/ropds.js").as_deref(),
        Some("js/ropds.js")
    );
    assert_eq!(
        normalize_static_path("/css/ropds.css/").as_deref(),
        Some("css/ropds.css")
    );
}

#[test]
fn normalize_static_path_rejects_traversal_or_invalid_segments() {
    assert_eq!(normalize_static_path(""), None);
    assert_eq!(normalize_static_path("../js/ropds.js"), None);
    assert_eq!(normalize_static_path("js/../ropds.js"), None);
    assert_eq!(normalize_static_path("js//ropds.js"), None);
    assert_eq!(normalize_static_path(r"js\ropds.js"), None);
}

#[test]
fn etag_matching_handles_strong_and_weak_values() {
    let etag = build_etag(b"asset-data");
    assert!(matches_if_none_match(Some(etag.as_str()), &etag));
    assert!(matches_if_none_match(Some(&format!("W/{etag}")), &etag));
    assert!(matches_if_none_match(Some("*"), &etag));
    assert!(!matches_if_none_match(Some("\"different\""), &etag));
}

#[test]
fn etag_is_quoted_sha256_hex() {
    let etag = build_etag(b"");
    assert_eq!(
        etag,
        "\"e3b0c44298fc1c149afbf4c8996fb92427ae41e4649b934ca495991b7852b855\""
    );
    assert!(matches_if_none_match(Some("\"x\", W/ \"y\" , *"), &etag));
    assert!(!matches_if_none_match(None, &etag));
}

#[test]
fn test_rewrite_placeholders_sqlite() {
    let sql = "SELECT * FROM books WHERE id = ? AND title = ?";
    let result = rewrite_placeholders(sql, DbBackend::Sqlite);
    assert_eq!(result, sql);
}

#[test]
fn test_rewrite_placeholders_mysql() {
    let sql = "SELECT * FROM books WHERE id = ? AND title = ?";
    let result = rewrite_placeholders(sql, DbBackend::Mysql);
    assert_eq!(result, sql);
}

#[test]
fn test_rewrite_placeholders_postgres() {
    let sql = "SELECT * FROM books WHERE id = ? AND title = ?";
    let result = rewrite_placeholders(sql, DbBackend::Postgres);
    assert_eq!(result, "SELECT * FROM books WHERE id = $1 AND title = $2");
}

#[test]
fn test_rewrite_skips_quoted_question_marks() {
    let sql = "SELECT * FROM books WHERE title = '?' AND id = ?";
    let result = rewrite_placeholders(sql, DbBackend::Postgres);
    assert_eq!(result, "SELECT * FROM books WHERE title = '?' AND id = $1");
}

#[test]
fn test_rewrite_no_placeholders() {
    let sql = "SELECT COUNT(*) FROM books";
    let result = rewrite_placeholders(sql, DbBackend::Postgres);
    assert_eq!(result, sql);
}

#[test]
fn test_rewrite_many_placeholders() {
    let sql = "INSERT INTO t VALUES (?, ?, ?, ?, ?, ?, ?, ?, ?, ?, ?)";
    let result = rewrite_placeholders(sql, DbBackend::Postgres);
    assert_eq!(
        result,
        "INSERT INTO t VALUES ($1, $2, $3, $4, $5, $6, $7, $8, $9, $10, $11)"
    );
}

#[test]
fn backend_is_chosen_by_url_scheme() {
    assert_eq!(DbBackend::from_url("postgres://h/db"), DbBackend::Postgres);
    assert_eq!(DbBackend::from_url("postgresql://h/db"), DbBackend::Postgres);
    assert_eq!(DbBackend::from_url("mysql://h/db"), DbBackend::Mysql);
    assert_eq!(DbBackend::from_url("sqlite://ropds.db"), DbBackend::Sqlite);
    assert_eq!(DbBackend::from_url("other"), DbBackend::Sqlite);
}

#[test]
fn test_email_disabled_when_unconfigured() {
    let cfg = SmtpConfig::default();
    assert!(!is_email_configured(&cfg));
}

#[test]
fn test_email_enabled_when_configured() {
    let cfg = SmtpConfig {
        host: "smtp.example.com".into(),
        from: "ropds@example.com".into(),
        send_to: vec!["admin@example.com".into()],
        port: 587,
        starttls: true,
        ..Default::default()
    };
    assert!(is_email_configured(&cfg));
}

#[test]
fn test_provider_kind_roundtrip() {
    assert_eq!(
        "google".parse::<ProviderKind>().ok(),
        Some(ProviderKind::Google)
    );
    assert_eq!(
        "yandex".parse::<ProviderKind>().ok(),
        Some(ProviderKind::Yandex)
    );
    assert_eq!(
        "keycloak".parse::<ProviderKind>().ok(),
        Some(ProviderKind::Keycloak)
    );
    assert_eq!("unknown".parse::<ProviderKind>().ok(), None);
    assert_eq!(ProviderKind::Keycloak.as_str(), "keycloak");
}

#[test]
fn test_username_candidate_sequence() {
    assert_eq!(username_candidate("user", 1), "user");
    assert_eq!(username_candidate("user", 2), "user_2");
    assert_eq!(username_candidate("user", 9), "user_9");
}

#[test]
fn username_candidate_multi_digit() {
    assert_eq!(username_candidate("ann", 0), "ann");
    assert_eq!(username_candidate("ann", 1000), "ann_1000");
}

#[test]
fn test_parse_pdfinfo_stdout_and_normalize_values() {
    let out = r#"
Title:   The Book
Author:  Jane Doe
Producer: ignored
"#;
    let meta = parse_pdfinfo_stdout(out);
    assert_eq!(meta.title, Some("The Book".to_string()));
    assert_eq!(meta.author, Some("Jane Doe".to_string()));

    let out_null = "Title: (null)\nAuthor:   \n";
    let meta = parse_pdfinfo_stdout(out_null);
    assert_eq!(meta.title, None);
    assert_eq!(meta.author, None);
}

#[test]
fn pdfinfo_keys_ignore_case_and_later_lines_win() {
    let meta = parse_pdfinfo_stdout("TITLE: First\r\ntitle: Second: part\r\nAUTHOR: (NULL)");
    assert_eq!(meta.title, Some("Second: part".to_string()));
    assert_eq!(meta.author, None);
}

#[test]
fn test_is_valid_password_boundaries() {
    assert!(!is_valid_password("1234567"));
    assert!(is_valid_password("12345678"));
    assert!(is_valid_password(&"x".repeat(32)));
    assert!(!is_valid_password(&"x".repeat(33)));
}

#[test]
fn test_validate_book_title_rules() {
    assert_eq!(
        validate_book_title("  The Title  ").unwrap(),
        "The Title".to_string()
    );
    assert_eq!(validate_book_title("   ").unwrap_err(), "title_empty");
    assert_eq!(
        validate_book_title(&"a".repeat(257)).unwrap_err(),
        "title_too_long"
    );
    assert_eq!(
        validate_book_title("abc\u{0007}def").unwrap_err(),
        "title_invalid"
    );
}

#[test]
fn test_format_uptime_with_translations() {
    assert_eq!(format_uptime(90_061, "days", "hours", "mins"), "1 days 1 hours 1 mins");
    assert_eq!(format_uptime(3_600, "days", "hours", "mins"), "1 hours 0 mins");
}

#[test]
fn test_format_uptime_fallback_labels() {
    assert_eq!(format_uptime(172_920, "d", "h", "min"), "2 d 2 min");
}

#[test]
fn redirect_url_defaults_to_first_page() {
    assert_eq!(
        redirect_url(None, "msg=book_deleted"),
        "/web/admin/duplicates?page=0&msg=book_deleted"
    );
    assert_eq!(
        redirect_url(Some(3), "msg=x"),
        "/web/admin/duplicates?page=3&msg=x"
    );
}

#[test]
fn test_default_m() {
    assert_eq!(default_m(), "m".to_string());
}

#[test]
fn test_parse_bookshelf_sort_variants() {
    let (col, asc) = parse_bookshelf_sort("title", "asc");
    assert!(matches!(col, SortColumn::Title));
    assert!(asc);

    let (col, asc) = parse_bookshelf_sort("author", "desc");
    assert!(matches!(col, SortColumn::Author));
    assert!(!asc);

    let (col, asc) = parse_bookshelf_sort("unknown", "nope");
    assert!(matches!(col, SortColumn::Date));
    assert!(!asc);
}

#[test]
fn test_sign_and_verify_session() {
    let secret = b"test-secret-key";
    let token = sign_session(42, secret, 1);
    let user_id = verify_session(&token, secret);
    assert_eq!(user_id, Some(42));
}

#[test]
fn test_verify_wrong_secret() {
    let token = sign_session(42, b"secret-a", 1);
    assert_eq!(verify_session(&token, b"secret-b"), None);
}

#[test]
fn test_verify_expired_session() {
    let secret = b"test-secret";
    let token = sign_session_at(42, secret, 1, 1_000_000);
    assert_eq!(verify_session_at(&token, secret, 1_000_000 + 3600), Some(42));
    assert_eq!(verify_session_at(&token, secret, 1_000_000 + 3601), None);
}

#[test]
fn test_verify_tampered_token() {
    let secret = b"test-secret";
    let token = sign_session(42, secret, 1);
    let tampered = token.replacen("42:", "99:", 1);
    assert_eq!(verify_session(&tampered, secret), None);
}

#[test]
fn test_verify_garbage() {
    assert_eq!(verify_session("garbage", b"secret"), None);
    assert_eq!(verify_session("", b"secret"), None);
    assert_eq!(verify_session("a:b", b"secret"), None);
}

#[test]
fn session_token_has_expected_shape() {
    let token = sign_session_at(-7, b"k", 2, 100);
    assert!(token.starts_with("-7:7300:"));
    assert_eq!(token.len(), "-7:7300:".len() + 64);
}

#[test]
fn test_state_cookie_roundtrip() {
    let secret = b"test-secret";
    let cookie = sign_oauth_state("my-state", secret);
    assert!(verify_oauth_state(&cookie, "my-state", secret));
}

#[test]
fn test_state_cookie_wrong_state() {
    let secret = b"test-secret";
    let cookie = sign_oauth_state("state-a", secret);
    assert!(!verify_oauth_state(&cookie, "state-b", secret));
}

#[test]
fn test_state_cookie_wrong_secret() {
    let cookie = sign_oauth_state("state", b"secret-a");
    assert!(!verify_oauth_state(&cookie, "state", b"secret-b"));
}

#[test]
fn csrf_token_validates_only_for_its_session() {
    let token = generate_csrf_token("sess", b"secret");
    assert_eq!(token.len(), 64);
    assert!(validate_csrf(Some("sess"), b"secret", &token));
    assert!(!validate_csrf(Some("other"), b"secret", &token));
    assert!(!validate_csrf(None, b"secret", &token));
}

#[test]
fn suppression_key_is_sha256_of_path_and_name() {
    assert_eq!(suppression_key("a", "b"), "59b271ae1bbcb1d31d41929817f4b16fb439eb4f31520b5ad1d5ce98920a7138");
    assert_ne!(suppression_key("a", "b"), suppression_key("ab", ""));
}

#[test]
fn author_key_sorts_ids() {
    use_author_key();
}

fn use_author_key() {
    assert_eq!(ropds::db::author_key(&vec![42, 3, 17]), "3,17,42");
    assert_eq!(ropds::db::author_key(&vec![5, -1, 5]), "-1,5,5");
    assert_eq!(ropds::db::author_key(&Vec::new()), "");
}

#[test]
fn never_expiring_cookies_are_accepted_whatever_the_clock() {
    let secret = b"secret";
    let session = sign_session_at(7, secret, 0, i64::MAX);
    assert_eq!(verify_session(&session, secret), Some(7));
    assert_eq!(verify_session(&session, b"other"), None);
    let state = sign_oauth_state_at("abc", secret, i64::MAX - STATE_TTL_SECS);
    assert!(verify_oauth_state(&state, "abc", secret));
    assert!(!verify_oauth_state(&state, "abd", secret));
}

#[test]
fn web_search_plan_for_author_and_title_searches() {
    let p = web_search_plan("a", "42", Some("Tol kien"), 2, 10);
    assert_eq!(p.target, "author");
    assert!(matches!(p.query, WebSearchQuery::Author { id: 42 }));
    assert_eq!(p.offset, 20);
    assert!(!p.label_is_query);
    assert_eq!(p.back_label, Some(("authors".to_string(), "Authors".to_string())));
    assert_eq!(p.back_url.as_deref(), Some("/web/search/authors?type=b&q=Tol%20kien"));
    assert_eq!(p.display_query, "Tol kien");
    assert_eq!(p.pagination_qs, "type=a&q=42&src_q=Tol%20kien&");
    assert_eq!(p.current_url, "/web/search/books?type=a&q=42&src_q=Tol%20kien&");

    let t = web_search_plan("m", "war", Some("  "), 0, 10);
    assert_eq!(t.target, "title");
    assert!(matches!(t.query, WebSearchQuery::Title { ref term } if term == "WAR"));
    assert!(t.label_is_query);
    assert_eq!(t.back_url, None);
    assert_eq!(t.display_query, "war");
    assert_eq!(t.pagination_qs, "type=m&q=war&");

    let g = web_search_plan("g", "x", None, 0, 10);
    assert!(matches!(g.query, WebSearchQuery::Genre { id: 0 }));
    assert_eq!(g.display_query, "");
}

#[test]
fn rewrite_placeholders_borrows_exactly_when_nothing_changes() {

    assert!(matches!(rewrite_placeholders("SELECT ?", DbBackend::Sqlite), Cow::Borrowed(_)));
    assert!(matches!(rewrite_placeholders("SELECT 1", DbBackend::Postgres), Cow::Borrowed(_)));
    assert!(matches!(rewrite_placeholders("SELECT ?", DbBackend::Postgres), Cow::Owned(_)));
}

#[test]
fn session_with_a_changed_user_id_is_refused() {
    let secret = b"test-secret";
    let token = sign_session_at(42, secret, 1, 1_000_000);
    assert_eq!(verify_session_at(&token, secret, 1_000_000), Some(42));
    let tampered = token.replacen("42:", "99:", 1);
    assert_eq!(verify_session_at(&tampered, secret, 1_000_000), None);
}
