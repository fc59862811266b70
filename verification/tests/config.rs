use book_writer_chat::models::BookLanguage;
use book_writer_chat::config::{
    agent_timeout_from, bind_port_from, frontend_base_url_from, parse_unsigned, cli_args_from, normalize_relative_path, resolve_path, validate_environment, AppEnvironment,
    ConfigError, DEV_READER_SECRET,
};

#[test]
fn loads_development_defaults() {
    let environment = AppEnvironment::from_name("development");
    assert_eq!(environment, AppEnvironment::Development);
    let defaults = environment.defaults();
    assert_eq!(defaults.host, "127.0.0.1");
    assert_eq!(defaults.port, 3000);
    assert!(resolve_path("/srv/app", defaults.books_root).ends_with("books-data"));
    assert!(resolve_path("/srv/app", defaults.data_dir).ends_with("data"));
    assert_eq!(AppEnvironment::from_name("anything else"), AppEnvironment::Development);
}

#[test]
fn loads_test_environment_and_uses_test_defaults() {
    let environment = AppEnvironment::from_name("test");
    assert_eq!(environment, AppEnvironment::Test);
    let defaults = environment.defaults();
    assert_eq!(defaults.host, "127.0.0.1");
    assert_eq!(defaults.port, 3100);
    assert!(resolve_path("/srv/app", defaults.books_root).ends_with("target/test/books-data"));
    assert!(resolve_path("/srv/app", defaults.data_dir).ends_with("target/test/data"));
}

#[test]
fn production_env_supports_explicit_bind_and_runtime_paths() {
    let environment = AppEnvironment::from_name("production");
    assert_eq!(environment, AppEnvironment::Production);
    let defaults = environment.defaults();
    assert_eq!(resolve_path("/srv/app", defaults.data_dir), "/var/lib/book-writer-chat/state");
    assert_eq!(
        resolve_path("/srv/app", defaults.books_root),
        "/var/lib/book-writer-chat/books-data"
    );
    assert_eq!(resolve_path("/srv/app", defaults.frontend_dist_dir), "/app/frontend/build");
    assert!(validate_environment(environment, "https://books.example.com", "prod-secret").is_ok());
}

#[test]
fn production_requires_non_default_reader_secret() {
    let error = validate_environment(
        AppEnvironment::Production,
        "https://books.example.com",
        DEV_READER_SECRET,
    )
    .unwrap_err();
    assert_eq!(error, ConfigError::DefaultReaderSecret);
    assert!(error.message().contains("READER_TOKEN_SECRET must be set explicitly in production"));
    assert_eq!(
        validate_environment(AppEnvironment::Production, "  ", "prod-secret").unwrap_err(),
        ConfigError::MissingFrontendBaseUrl
    );
    assert!(validate_environment(AppEnvironment::Development, "", DEV_READER_SECRET).is_ok());
}

#[test]
fn resolves_relative_books_root_inside_workspace_boundary() {
    let cwd = "/srv/app";
    let books_root = resolve_path(cwd, "books-data/../books-data/session-root");
    assert_eq!(books_root, "/srv/app/books-data/session-root");
    assert!(books_root.starts_with(cwd));
    assert_eq!(normalize_relative_path(cwd, "../../outside"), "/srv/app/outside");
    assert_eq!(normalize_relative_path(cwd, "./a/./b"), "/srv/app/a/b");
}

#[test]
fn environment_names_are_case_insensitive() {
    assert_eq!(AppEnvironment::from_name("TEST"), AppEnvironment::Test);
    assert_eq!(AppEnvironment::from_name("Production"), AppEnvironment::Production);
}

#[test]
fn agent_arguments_are_split_on_whitespace() {
    assert_eq!(cli_args_from("  --profile  test\n--x "), vec!["--profile", "test", "--x"]);
    assert!(cli_args_from("   ").is_empty());
}

#[test]
fn languages_are_named_by_code_and_name_in_any_case() {
    for language in [BookLanguage::English, BookLanguage::Russian] {
        assert_eq!(BookLanguage::parse(language.code()), Some(language));
        assert_eq!(BookLanguage::parse(language.display_name()), Some(language));
    }
    assert_eq!(BookLanguage::parse(" EN "), Some(BookLanguage::English));
    assert_eq!(BookLanguage::parse("RU"), Some(BookLanguage::Russian));
    assert_eq!(BookLanguage::parse("Русский"), Some(BookLanguage::Russian));
    assert_eq!(BookLanguage::parse("deutsch"), None);
    assert_eq!(BookLanguage::from_manifest_code("xx"), BookLanguage::English);
}

#[test]
fn numbers_from_the_environment_read_as_std_reads_them() {
    assert_eq!(parse_unsigned("42", u64::MAX), Some(42));
    assert_eq!(parse_unsigned("+7", u64::MAX), Some(7));
    assert_eq!(parse_unsigned("+", u64::MAX), None);
    assert_eq!(parse_unsigned("", u64::MAX), None);
    assert_eq!(parse_unsigned("-1", u64::MAX), None);
    assert_eq!(parse_unsigned(" 1", u64::MAX), None);
    assert_eq!(parse_unsigned("18446744073709551615", u64::MAX), Some(u64::MAX));
    assert_eq!(parse_unsigned("18446744073709551616", u64::MAX), None);
    for text in ["0", "65535", "65536", "+80", "80x", "007"] {
        assert_eq!(bind_port_from(Some(text), 3000), text.parse::<u16>().ok());
        assert_eq!(Some(agent_timeout_from(Some(text))), Some(text.parse::<u64>().unwrap_or(60)));
    }
    assert_eq!(bind_port_from(None, 3100), Some(3100));
    assert_eq!(agent_timeout_from(None), 60);
    assert_eq!(agent_timeout_from(Some("soon")), 60);
    assert_eq!(frontend_base_url_from(None, "127.0.0.1:3000"), "http://127.0.0.1:3000");
    assert_eq!(
        frontend_base_url_from(Some("https://books.example.com".to_string()), "127.0.0.1:3000"),
        "https://books.example.com"
    );
}
