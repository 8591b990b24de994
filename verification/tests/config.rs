use soro_fuzz::config::{parse_sandbox, ConfigError, SandboxKind};

#[test]
fn sandbox_parses_local() {
    assert_eq!(parse_sandbox("local".to_string()).unwrap(), SandboxKind::Local);
}

#[test]
fn sandbox_parses_docker_exec() {
    assert_eq!(
        parse_sandbox("docker-exec:toolchain".to_string()).unwrap(),
        SandboxKind::DockerExec {
            container: "toolchain".to_string()
        }
    );
}

#[test]
fn sandbox_rejects_unknown_value() {
    assert!(parse_sandbox("nsjail".to_string()).is_err());
}

#[test]
fn sandbox_rejects_empty_container_name() {
    assert!(parse_sandbox("docker-exec:".to_string()).is_err());
}

#[test]
fn sandbox_container_name_keeps_later_colons() {
    assert_eq!(
        parse_sandbox("docker-exec:host:tag".to_string()).unwrap(),
        SandboxKind::DockerExec {
            container: "host:tag".to_string()
        }
    );
}

#[test]
fn sandbox_error_names_the_setting_and_the_expected_forms() {
    match parse_sandbox("local:extra".to_string()) {
        Err(ConfigError::Invalid { name, value, reason }) => {
            assert_eq!(name, "FUZZ_SANDBOX");
            assert_eq!(value, "local:extra");
            assert_eq!(reason, "expected `local` or `docker-exec:<container-name>`");
        }
        other => panic!("unexpected result {other:?}"),
    }
}

use soro_fuzz::config::{Config, Settings};

fn settings() -> Settings {
    Settings {
        targets_dir: Some("/srv/examples".to_string()),
        database_url: Some("postgres://localhost/soro".to_string()),
        ..Settings::default()
    }
}

#[test]
fn defaults_fill_every_optional_setting() {
    let s = settings();
    let addr = s.http_addr_text();
    assert_eq!(addr, "0.0.0.0:8080");
    let c = Config::from_settings(s, None).unwrap();
    assert_eq!(c.default_budget_secs, 60);
    assert_eq!(c.max_concurrent_campaigns, 2);
    assert_eq!(c.job_timeout_secs, 600);
    assert_eq!(c.rust_toolchain, "nightly");
    assert_eq!(c.log_level, "info");
    assert_eq!(c.fuzz_sandbox, SandboxKind::Local);
    assert_eq!(c.fuzz_sanitizer, None);
    assert_eq!(c.fuzz_workspace_dir, "/srv/examples/../fuzz");
}

#[test]
fn required_settings_are_reported_missing_in_order() {
    match Config::from_settings(Settings::default(), None) {
        Err(ConfigError::Missing(name)) => assert_eq!(name, "TARGETS_DIR"),
        other => panic!("unexpected {other:?}"),
    }
    let s = Settings {
        targets_dir: Some("/t".to_string()),
        ..Settings::default()
    };
    match Config::from_settings(s, None) {
        Err(ConfigError::Missing(name)) => assert_eq!(name, "DATABASE_URL"),
        other => panic!("unexpected {other:?}"),
    }
}

#[test]
fn a_bad_number_is_refused_with_its_value() {
    let s = Settings {
        max_concurrent_campaigns: Some("two".to_string()),
        job_timeout_seconds: Some("-1".to_string()),
        ..settings()
    };
    match Config::from_settings(s, None) {
        Err(ConfigError::Invalid { name, value, .. }) => {
            assert_eq!(name, "MAX_CONCURRENT_CAMPAIGNS");
            assert_eq!(value, "two");
        }
        other => panic!("unexpected {other:?}"),
    }
}

#[test]
fn a_refused_address_comes_before_later_settings() {
    let s = Settings {
        http_addr: Some("nowhere".to_string()),
        default_budget_seconds: Some("x".to_string()),
        ..settings()
    };
    match Config::from_settings(s, Some("invalid socket address syntax".to_string())) {
        Err(ConfigError::Invalid { name, value, reason }) => {
            assert_eq!(name, "HTTP_ADDR");
            assert_eq!(value, "nowhere");
            assert_eq!(reason, "invalid socket address syntax");
        }
        other => panic!("unexpected {other:?}"),
    }
}

#[test]
fn explicit_settings_are_taken_as_given() {
    let s = Settings {
        default_budget_seconds: Some("+90".to_string()),
        fuzz_sanitizer: Some(String::new()),
        fuzz_sandbox: Some("docker-exec:toolchain".to_string()),
        fuzz_workspace_dir: Some("/work/fuzz".to_string()),
        rust_toolchain: Some("nightly-2024-06-01".to_string()),
        ..settings()
    };
    let c = Config::from_settings(s, None).unwrap();
    assert_eq!(c.default_budget_secs, 90);
    assert_eq!(c.fuzz_sanitizer, None);
    assert_eq!(
        c.fuzz_sandbox,
        SandboxKind::DockerExec {
            container: "toolchain".to_string()
        }
    );
    assert_eq!(c.fuzz_workspace_dir, "/work/fuzz");
    assert_eq!(c.rust_toolchain, "nightly-2024-06-01");
}
