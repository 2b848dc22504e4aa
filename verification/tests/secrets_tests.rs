use slnky::error::SlinkyError;
use slnky::secrets::{
    create_template_content, is_sensitive_name, parse_bash_assignment, parse_fish_assignment,
    placeholder_for, scan_content_for_secrets, substitute_secrets, Secret, SecretStore,
};
use slnky::service::ServiceError;

#[test]
fn test_scan_bash_export() {
    let content = "export API_KEY=secret123\nexport NORMAL_VAR=value\nexport GITHUB_TOKEN=ghp_abc123\n";
    let secrets = scan_content_for_secrets(content, "/tmp/scan_input");
    assert_eq!(secrets.len(), 2);
    assert!(secrets.iter().any(|s| s.name == "API_KEY"));
    assert!(secrets.iter().any(|s| s.name == "GITHUB_TOKEN"));
}

#[test]
fn test_scan_fish_syntax() {
    let content = "set -gx DATABASE_PASSWORD hunter2\nset -x AUTH_TOKEN abc123\n";
    let secrets = scan_content_for_secrets(content, "/tmp/scan_input");
    assert_eq!(secrets.len(), 2);
    assert!(secrets.iter().any(|s| s.name == "DATABASE_PASSWORD"));
    assert!(secrets.iter().any(|s| s.name == "AUTH_TOKEN"));
}

#[test]
fn test_scan_values_and_lines() {
    let content = "# comment\nexport MY_SECRET=\"quoted value\"\nexport REF_TOKEN=$OTHER\n";
    let secrets = scan_content_for_secrets(content, "/home/sam/.zshrc");
    // A `$`-reference is never reported; the quoted value is read
    // without its quotes, with its 1-based line number and file.
    assert_eq!(secrets.len(), 1);
    assert_eq!(secrets[0].name, "MY_SECRET");
    assert_eq!(secrets[0].value, "quoted value");
    assert_eq!(secrets[0].file, "/home/sam/.zshrc");
    assert_eq!(secrets[0].line_number, 2);
}

#[test]
fn test_parse_assignment_lines() {
    assert_eq!(
        parse_bash_assignment("  export API_KEY=abc # comment"),
        Some(("API_KEY".to_string(), "abc".to_string()))
    );
    assert_eq!(
        parse_bash_assignment("TOKEN='with space'"),
        Some(("TOKEN".to_string(), "with space".to_string()))
    );
    assert_eq!(parse_bash_assignment("not an assignment"), None);
    assert_eq!(parse_bash_assignment("lower_case=x"), None);
    assert_eq!(parse_bash_assignment("EMPTY="), None);
    assert_eq!(
        parse_fish_assignment("set -gx PASSWORD hunter2"),
        Some(("PASSWORD".to_string(), "hunter2".to_string()))
    );
    assert_eq!(
        parse_fish_assignment("set PLAIN value"),
        Some(("PLAIN".to_string(), "value".to_string()))
    );
    assert_eq!(parse_fish_assignment("set -q PASSWORD x"), None);
    assert_eq!(parse_fish_assignment("export A=1"), None);
}

#[test]
fn test_sensitive_names() {
    assert!(is_sensitive_name("API_KEY"));
    assert!(is_sensitive_name("GITHUB_TOKEN"));
    assert!(is_sensitive_name("DATABASE_PASSWORD"));
    assert!(is_sensitive_name("AUTH_TOKEN"));
    assert!(is_sensitive_name("AWS_ACCESS_KEY_ID"));
    assert!(!is_sensitive_name("NORMAL_VAR"));
    assert!(!is_sensitive_name("PATH"));
}

#[test]
fn test_secret_new() {
    let s = Secret::new(
        "API_KEY".to_string(),
        "secret123".to_string(),
        "/home/sam/.zshrc".to_string(),
        3,
    );
    assert_eq!(s.name, "API_KEY");
    assert_eq!(s.value, "secret123");
    assert_eq!(s.file, "/home/sam/.zshrc");
    assert_eq!(s.line_number, 3);
}

#[test]
fn test_secret_store_new() {
    let store = SecretStore::new("/data/slinky/secrets.age".to_string());
    assert!(store.encrypted_data.is_empty());
    assert_eq!(store.secrets_path, "/data/slinky/secrets.age");
}

#[test]
fn test_placeholder() {
    assert_eq!(placeholder_for("API_KEY"), "${API_KEY}");
}

#[test]
fn test_create_template() {
    let content = "export API_KEY=secret123\nexport NORMAL=value";
    let secrets = vec![Secret::new(
        "API_KEY".to_string(),
        "secret123".to_string(),
        "/home/sam/.zshrc".to_string(),
        1,
    )];
    let template = create_template_content(content, &secrets);
    assert!(template.contains("${API_KEY}"));
    assert!(!template.contains("secret123"));
    assert!(template.contains("NORMAL=value"));
}

#[test]
fn test_substitute_round_trip() {
    let content = "export API_KEY=secret123\nexport TOKEN=tok";
    let secrets = vec![
        Secret::new("API_KEY".to_string(), "secret123".to_string(), "f".to_string(), 1),
        Secret::new("TOKEN".to_string(), "tok".to_string(), "f".to_string(), 2),
    ];
    let template = create_template_content(content, &secrets);
    let pairs = vec![
        ("API_KEY".to_string(), "secret123".to_string()),
        ("TOKEN".to_string(), "tok".to_string()),
    ];
    let restored = substitute_secrets(&template, &pairs);
    assert_eq!(restored, content);
}

#[test]
fn test_error_messages() {
    assert_eq!(
        SlinkyError::Stow("bad plan".to_string()).message(),
        "Stow operation failed: bad plan"
    );
    assert_eq!(SlinkyError::Other("plain".to_string()).message(), "plain");
    assert_eq!(ServiceError::NotInstalled.message(), "Service not installed");
    assert_eq!(
        ServiceError::CommandFailed("boom".to_string()).message(),
        "Command failed: boom"
    );
}
