use caret::config::{
    client_blob, gitignore_update, insert_secret, project_basename, secret_entries, secret_names,
    set_secret, settings_from_input, Secrets, Settings,
};

#[test]
fn settings_defaults() {
    let d = Settings::default();
    assert!(!d.auto_save && d.theme == "dark" && d.title.is_empty());
}

#[test]
fn settings_input_is_normalized() {
    let s = settings_from_input(true, "light", "  My Project  ");
    assert!(s.auto_save && s.theme == "light" && s.title == "My Project");
    let s = settings_from_input(false, "Light", "");
    assert!(!s.auto_save && s.theme == "dark" && s.title.is_empty());
    let s = settings_from_input(false, "solarized", "x");
    assert_eq!(s.theme, "dark");
}

#[test]
fn project_basename_falls_back_to_docs() {
    assert_eq!(project_basename(Some("my-docs")), "my-docs");
    assert_eq!(project_basename(Some("")), "docs");
    assert_eq!(project_basename(None), "docs");
}

#[test]
fn client_blob_exact() {
    let s = Settings {
        auto_save: true,
        theme: "light".to_string(),
        title: "My Project".to_string(),
    };
    let (theme, json) = client_blob(&s, "docs", &vec!["anthropic".to_string()]);
    assert_eq!(theme, "light");
    assert_eq!(
        json,
        "{\"autoSave\":true,\"basename\":\"docs\",\"project\":\"My Project\",\"secrets\":[\"anthropic\"],\"theme\":\"light\",\"title\":\"My Project\"}"
    );
}

#[test]
fn client_blob_blank_title_uses_basename() {
    let s = Settings {
        auto_save: false,
        theme: "sepia".to_string(),
        title: "   ".to_string(),
    };
    let (theme, json) = client_blob(&s, "my \"docs\"", &vec![]);
    assert_eq!(theme, "dark");
    assert_eq!(
        json,
        "{\"autoSave\":false,\"basename\":\"my \\\"docs\\\"\",\"project\":\"my \\\"docs\\\"\",\"secrets\":[],\"theme\":\"dark\",\"title\":\"   \"}"
    );
}

#[test]
fn secret_isolation_in_memory() {
    let mut store = Secrets::new();
    set_secret(&mut store, "anthropic", "sk-test-123");
    assert_eq!(secret_names(&store), vec!["anthropic".to_string()]);
    let s = Settings {
        auto_save: true,
        theme: "light".to_string(),
        title: "My Project".to_string(),
    };
    let (_t, json) = client_blob(&s, "proj", &secret_names(&store));
    assert!(json.contains("My Project"));
    assert!(
        !json.contains("sk-test-123"),
        "secret value must never reach the client"
    );
    // clearing removes it
    set_secret(&mut store, "anthropic", "");
    assert!(secret_names(&store).is_empty());
}

#[test]
fn secrets_stay_sorted_and_unique() {
    let mut store = Secrets::new();
    set_secret(&mut store, "openai", "b");
    set_secret(&mut store, "anthropic", "a");
    set_secret(&mut store, "openai", "c");
    set_secret(&mut store, "github", "g");
    assert_eq!(
        secret_names(&store),
        vec!["anthropic".to_string(), "github".to_string(), "openai".to_string()]
    );
    assert_eq!(
        secret_entries(&store),
        vec![
            ("anthropic".to_string(), "a".to_string()),
            ("github".to_string(), "g".to_string()),
            ("openai".to_string(), "c".to_string()),
        ]
    );
    // clearing a name that is not there changes nothing
    set_secret(&mut store, "missing", "");
    assert_eq!(secret_names(&store).len(), 3);
    // a value read from the file is kept even when empty
    insert_secret(&mut store, "blank", "");
    assert_eq!(secret_entries(&store)[1], ("blank".to_string(), String::new()));
}

#[test]
fn gitignore_gets_the_secrets_line_once() {
    assert_eq!(gitignore_update(""), Some(".caret/secrets.toml\n".to_string()));
    assert_eq!(
        gitignore_update("target"),
        Some("target\n.caret/secrets.toml\n".to_string())
    );
    assert_eq!(
        gitignore_update("target\n"),
        Some("target\n.caret/secrets.toml\n".to_string())
    );
    assert_eq!(gitignore_update("a\n  .caret/secrets.toml  \nb"), None);
    let once = gitignore_update("node_modules").unwrap();
    assert!(once.contains(".caret/secrets.toml"), "secrets must be gitignored");
    assert_eq!(gitignore_update(&once), None);
    // a longer path that merely contains the line does not count
    assert!(gitignore_update("x/.caret/secrets.toml\n").is_some());
}
