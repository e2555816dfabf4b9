use symtrace_mcp::config::{default_idle_timeout, ServerConfig, SymtraceConfig};
use symtrace_mcp::logging::{
    days_to_ymd, format_utc_timestamp, is_log_file_name, log_file_name, is_symtrace_log_file, join_component, resolve_log_dir,
    resolve_log_level,
};
use symtrace_mcp::project::registry::{build_server_configs, select_project_root, RegistryError};
use symtrace_mcp::sample::{greet_named, Admin, User};
use symtrace_mcp::server::idle_monitor::{idle_languages, idle_timeout, should_shutdown};
use symtrace_mcp::server::manager::{default_configs, Language, ManagerError};
use symtrace_mcp::uri::{path_to_uri, uri_to_path};

#[test]
fn implicit_generates_single_project() {
    let cwd = "/tmp/test-workspace";
    let config = SymtraceConfig::implicit(cwd);
    assert_eq!(config.projects.len(), 1);
    assert_eq!(config.projects[0].root, cwd);
    assert!(config.server.is_empty());
}

#[test]
fn implicit_has_no_env_and_no_level() {
    let config = SymtraceConfig::implicit("/work");
    assert!(config.projects[0].env.is_empty());
    assert!(config.logging.level.is_none());
    assert_eq!(default_idle_timeout(), 600);
}

#[test]
fn test_is_symtrace_log_file() {
    assert!(is_symtrace_log_file("symtrace-mcp.2026-06-07_100500.12345.log"));
    assert!(is_symtrace_log_file("symtrace-mcp.2025-01-01_000000.1.log"));
    assert!(!is_symtrace_log_file("other.log"));
    assert!(!is_symtrace_log_file("symtrace-mcp.txt"));
    assert!(!is_symtrace_log_file("stats.db"));
}

#[test]
fn log_file_name_is_taken_from_the_last_component() {
    assert!(is_symtrace_log_file("/var/logs/symtrace-mcp.2025-01-01_000000.1.log"));
    assert!(!is_symtrace_log_file("/var/symtrace-mcp.d/other.log"));
    assert!(is_log_file_name("symtrace-mcp..log"));
    assert!(is_log_file_name("symtrace-mcp.log"));
    assert!(!is_log_file_name("symtrace-mcp.lo"));
}

#[test]
fn test_days_to_ymd() {
    assert_eq!(days_to_ymd(0), (1970, 1, 1));
    assert_eq!(days_to_ymd(10957), (2000, 1, 1));
    let (y, m, d) = days_to_ymd(20573);
    assert_eq!(y, 2026);
    assert!((1..=12).contains(&m));
    assert!((1..=31).contains(&d));
}

#[test]
fn days_to_ymd_handles_leap_days_and_negative_days() {
    assert_eq!(days_to_ymd(11016), (2000, 2, 29));
    assert_eq!(days_to_ymd(-1), (1969, 12, 31));
    assert_eq!(days_to_ymd(20573), (2026, 4, 30));
}

#[test]
fn utc_timestamp_text() {
    assert_eq!(format_utc_timestamp(0), "1970-01-01_000000");
    assert_eq!(format_utc_timestamp(951782400 + 3723), "2000-02-29_010203");
}

#[test]
fn test_resolve_log_level_default() {
    assert_eq!(resolve_log_level(None, None), "info");
}

#[test]
fn test_resolve_log_level_config() {
    assert_eq!(resolve_log_level(None, Some("debug")), "debug");
}

#[test]
fn log_level_environment_wins_unless_empty() {
    assert_eq!(resolve_log_level(Some("trace"), Some("debug")), "trace");
    assert_eq!(resolve_log_level(Some(""), Some("debug")), "debug");
    assert_eq!(resolve_log_level(Some(""), None), "info");
}

#[test]
fn log_dir_defaults_below_cwd() {
    assert_eq!(resolve_log_dir(None, "/work"), "/work/.symtrace/logs");
    assert_eq!(resolve_log_dir(None, "/work/"), "/work/.symtrace/logs");
    assert_eq!(resolve_log_dir(Some("/tmp/l"), "/work"), "/tmp/l");
    assert_eq!(join_component("", "a"), "a");
}

#[test]
fn typescript_default_config() {
    let configs = default_configs();
    let ts = configs.get(&Language::TypeScript).expect("TypeScript config must exist");
    assert_eq!(ts.command, "typescript-language-server");
    assert_eq!(ts.args, vec!["--stdio"]);
    assert_eq!(ts.extensions, vec!["ts", "tsx", "js", "jsx"]);
    assert_eq!(ts.language_id, "typescript");
    assert_eq!(ts.idle_timeout_secs, 600);
}

#[test]
fn rust_default_config_and_extension_lookup() {
    let configs = default_configs();
    let rs = configs.get(&Language::Rust).unwrap();
    assert_eq!(rs.command, "rust-analyzer");
    assert!(rs.args.is_empty());
    assert_eq!(rs.language_id_for_extension("rs"), "rust");
    assert_eq!(configs.language_for_extension(Some("rs")), Some(Language::Rust));
    assert_eq!(configs.language_for_extension(Some("tsx")), Some(Language::TypeScript));
    assert_eq!(configs.language_for_extension(Some("py")), None);
    assert_eq!(configs.language_for_extension(None), None);
}

#[test]
fn typescript_language_ids_follow_extension() {
    let configs = default_configs();
    let ts = configs.get(&Language::TypeScript).unwrap();
    assert_eq!(ts.language_id_for_extension("js"), "javascript");
    assert_eq!(ts.language_id_for_extension("jsx"), "javascriptreact");
    assert_eq!(ts.language_id_for_extension("tsx"), "typescriptreact");
    assert_eq!(ts.language_id_for_extension("ts"), "typescript");
    assert_eq!(ts.args_from(), vec!["--stdio"]);
}

#[test]
fn manager_error_messages() {
    assert_eq!(
        ManagerError::UnsupportedLanguage("py".to_string()).message(),
        "no language server configured for .py files"
    );
}

#[test]
fn server_sections_override_commands_and_timeouts() {
    let section = vec![
        ("rust".to_string(), ServerConfig { command: "/opt/ra".to_string(), idle_timeout_secs: 30 }),
        ("python".to_string(), ServerConfig { command: "pyls".to_string(), idle_timeout_secs: 5 }),
    ];
    let configs = build_server_configs(&section);
    let rs = configs.get(&Language::Rust).unwrap();
    assert_eq!(rs.command, "/opt/ra");
    assert_eq!(rs.idle_timeout_secs, 30);
    let ts = configs.get(&Language::TypeScript).unwrap();
    assert_eq!(ts.command, "typescript-language-server");
    assert_eq!(ts.idle_timeout_secs, 600);
}

#[test]
fn longest_root_prefix_wins() {
    let roots = vec!["/work".to_string(), "/work/frontend".to_string(), "/other".to_string()];
    assert_eq!(select_project_root(&roots, "/work/frontend/src/a.ts"), Some(1));
    assert_eq!(select_project_root(&roots, "/work/backend/src/main.rs"), Some(0));
    assert_eq!(select_project_root(&roots, "/elsewhere/x.rs"), None);
    assert_eq!(select_project_root(&roots, "/workspace/x.rs"), None);
}

#[test]
fn equal_roots_pick_the_first() {
    let roots = vec!["/a".to_string(), "/a".to_string()];
    assert_eq!(select_project_root(&roots, "/a/b.rs"), Some(0));
}

#[test]
fn registry_error_messages() {
    let e = RegistryError::NoProjectForFile {
        path: "/x/y.rs".to_string(),
        roots: vec!["/a".to_string(), "/b".to_string()],
    };
    assert_eq!(
        e.message(),
        "file \"/x/y.rs\" does not belong to any configured project (roots: /a, /b)"
    );
    let quoted = RegistryError::NoProjectForFile { path: "/x/it's.rs".to_string(), roots: vec!["/a".to_string()] };
    assert_eq!(
        quoted.message(),
        "file \"/x/it's.rs\" does not belong to any configured project (roots: /a)"
    );
    let e = RegistryError::Canonicalization { root: "/gone".to_string(), source: "No such file".to_string() };
    assert_eq!(e.message(), "project root \"/gone\" does not exist or is not accessible: No such file");
}

#[test]
fn uri_round_trip() {
    assert_eq!(path_to_uri("/src/main.rs"), "file:///src/main.rs");
    assert_eq!(uri_to_path("file:///src/main.rs"), "/src/main.rs");
    assert_eq!(uri_to_path("not a uri"), "not a uri");
    assert_eq!(path_to_uri("/a b/c.rs"), "file:///a%20b/c.rs");
    assert_eq!(uri_to_path("file:///a%20b/c.rs"), "/a b/c.rs");
}

#[test]
fn idle_servers_are_those_past_their_timeout() {
    let configs = build_server_configs(&vec![(
        "rust".to_string(),
        ServerConfig { command: "rust-analyzer".to_string(), idle_timeout_secs: 30 },
    )]);
    assert_eq!(idle_timeout(&configs, Language::Rust), 30);
    assert_eq!(idle_timeout(&configs, Language::TypeScript), 600);
    assert!(should_shutdown(&configs, Language::Rust, 30));
    assert!(!should_shutdown(&configs, Language::Rust, 29));
    let usage = vec![(Language::Rust, 45), (Language::TypeScript, 45)];
    assert_eq!(idle_languages(&configs, &usage), vec![Language::Rust]);
}

#[test]
fn sample_greetings() {
    let user = User::new("Alice", 30);
    assert_eq!(user.greet(), "Hello, Alice!");
    assert_eq!(greet_named(&user), "Hi, Alice!");
    let admin = Admin::for_user(User::new("Bob", 25));
    assert!(admin.promote());
    assert_eq!(greet_named(&admin), "Hi, Bob!");
}

#[test]
fn created_log_file_names_are_recognised() {
    let name = log_file_name("2026-06-07_100500", 12345);
    assert_eq!(name, "symtrace-mcp.2026-06-07_100500.12345.log");
    assert!(is_symtrace_log_file(&name));
}
