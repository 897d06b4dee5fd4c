use volter::{
    cargo_toml_template, is_valid_crate_name, main_rs_template, validate_project_name,
    NewProjectError,
};

#[test]
fn cargo_toml_contains_project_name() {
    let result = cargo_toml_template("my-app", "0.1.0");
    assert!(result.contains(r#"name = "my-app""#));
    assert!(result.contains(r#"volter = "0.1.0""#));
    assert!(result.contains(r#"tokio = { version = "1", features = ["full"] }"#));
}

#[test]
fn cargo_toml_contains_rust_version() {
    let result = cargo_toml_template("x", "0.1.0");
    assert!(result.contains("rust-version = \"1.79\""));
    assert!(result.contains("edition = \"2021\""));
}

#[test]
fn main_rs_contains_imports_and_boilerplate() {
    let result = main_rs_template("test-app");
    assert!(result.contains("use tokio::net::TcpListener;"));
    assert!(result.contains("use volter::{get, serve, Router};"));
    assert!(result.contains("async fn root()"));
    assert!(result.contains("Router::new()"));
    assert!(result.contains("get(root)"));
    assert!(result.contains("serve(listener, app)"));
    assert!(result.contains("#[tokio::main]"));
}

#[test]
fn cargo_toml_exact_text() {
    let result = cargo_toml_template("demo", "2.3.4");
    assert_eq!(
        result,
        "[package]\nname = \"demo\"\nversion = \"0.1.0\"\nedition = \"2021\"\nrust-version = \"1.79\"\n\n[dependencies]\nvolter = \"2.3.4\"\ntokio = { version = \"1\", features = [\"full\"] }\n"
    );
}

#[test]
fn main_rs_starts_with_project_name() {
    let result = main_rs_template("demo");
    assert!(result.starts_with("//! demo \u{2014} "));
    assert!(result.contains("eprintln!(\"Listening on http://{addr}\");"));
    assert!(result.ends_with("    serve(listener, app).await\n}\n"));
}

#[test]
fn crate_name_rules() {
    assert!(is_valid_crate_name("my-app"));
    assert!(is_valid_crate_name("a1-b2"));
    assert!(is_valid_crate_name("x"));
    assert!(!is_valid_crate_name(""));
    assert!(!is_valid_crate_name("UpperCase"));
    assert!(!is_valid_crate_name("has spaces"));
    assert!(!is_valid_crate_name("123-starts-with-digit"));
    assert!(!is_valid_crate_name("-dash"));
    assert!(!is_valid_crate_name("under_score"));
}

#[test]
fn project_name_refusals() {
    match validate_project_name("") {
        Err(e @ NewProjectError::EmptyName) => {
            assert_eq!(e.message(), "project name cannot be empty")
        }
        other => panic!("unexpected {other:?}"),
    }
    match validate_project_name("UpperCase") {
        Err(e @ NewProjectError::InvalidName(_)) => assert_eq!(
            e.message(),
            "`UpperCase` is not a valid Rust crate name. Use only lowercase letters, digits, and hyphens."
        ),
        other => panic!("unexpected {other:?}"),
    }
    assert!(validate_project_name("has spaces").is_err());
    assert!(validate_project_name("123-starts-with-digit").is_err());
    assert!(validate_project_name("test-proj").is_ok());
    let e = volter::scaffold::already_exists("existing-dir");
    assert!(e.message().contains("already exists"));
    assert_eq!(e.message(), "directory `existing-dir` already exists");
}

#[test]
fn rejects_invalid_names() {
    let cases = &[
        ("UpperCase", "uppercase"),
        ("has spaces", "spaces"),
        ("", "empty"),
        ("123-starts-with-digit", "starts with digit"),
    ];
    for (name, _label) in cases {
        let result = validate_project_name(name);
        assert!(result.is_err(), "expected error for name `{name}`");
    }
}
