use docrules::rules::{list_rules, RuleEntry};
use docrules::selector::{extension_of, is_listed, Entry, SelectorConfig, MAX_DOCUMENT_SIZE};

fn file(path: &str, name: &str, size: u64) -> Entry {
    Entry { path: path.to_string(), name: name.to_string(), is_file: true, size }
}

#[test]
fn extension_is_text_after_last_dot() {
    assert_eq!(extension_of("a.js"), "js");
    assert_eq!(extension_of("archive.tar.gz"), "gz");
    assert_eq!(extension_of("Makefile"), "");
    assert_eq!(extension_of(".env"), "");
    assert_eq!(extension_of(".gitignore"), "");
    assert_eq!(extension_of("notes."), "");
    assert_eq!(extension_of(".config.toml"), "toml");
    assert_eq!(extension_of(""), "");
}

#[test]
fn standard_tables() {
    let cfg = SelectorConfig::standard();
    assert_eq!(cfg.max_size, 10240);
    assert_eq!(MAX_DOCUMENT_SIZE, 10240);
    assert_eq!(cfg.skipped_extensions.len(), 37);
    assert!(is_listed(&cfg.skipped_extensions, &"woff2".to_string()));
    assert!(!is_listed(&cfg.skipped_extensions, &"js".to_string()));
    assert_eq!(cfg.skipped_names, vec![".gitignore".to_string(), ".env".to_string()]);
}

#[test]
fn excluded_extensions_are_not_eligible() {
    let cfg = SelectorConfig::standard();
    assert!(!cfg.is_eligible(&file("./logo.png", "logo.png", 10)));
    assert!(!cfg.is_eligible(&file("./README.md", "README.md", 10)));
    assert!(!cfg.is_eligible(&file("./Cargo.lock", "Cargo.lock", 10)));
    assert!(!cfg.is_eligible(&file("./x.tar.gz", "x.tar.gz", 10)));
}

#[test]
fn extension_match_is_case_sensitive() {
    let cfg = SelectorConfig::standard();
    assert!(cfg.is_eligible(&file("./LOGO.PNG", "LOGO.PNG", 10)));
}

#[test]
fn excluded_names_are_not_eligible() {
    let cfg = SelectorConfig::standard();
    assert!(!cfg.is_eligible(&file("./.gitignore", ".gitignore", 10)));
    assert!(!cfg.is_eligible(&file("./sub/.env", ".env", 10)));
    assert!(cfg.is_eligible(&file("./.eslintrc", ".eslintrc", 10)));
}

#[test]
fn directories_are_not_eligible() {
    let cfg = SelectorConfig::standard();
    let dir = Entry { path: "./src".to_string(), name: "src".to_string(), is_file: false, size: 0 };
    assert!(!cfg.is_eligible(&dir));
}

#[test]
fn files_without_extension_are_eligible() {
    let cfg = SelectorConfig::standard();
    assert!(cfg.is_eligible(&file("./Makefile", "Makefile", 10)));
    assert!(cfg.is_eligible(&file("./a.js", "a.js", 10)));
}

#[test]
fn smaller_tables_can_be_substituted() {
    let cfg = SelectorConfig {
        skipped_extensions: vec!["js".to_string()],
        skipped_names: vec!["keep".to_string()],
        max_size: 5,
    };
    assert!(!cfg.is_eligible(&file("./a.js", "a.js", 1)));
    assert!(!cfg.is_eligible(&file("./keep", "keep", 1)));
    assert!(cfg.is_eligible(&file("./a.png", "a.png", 1)));
}

#[test]
fn rule_store_keeps_regular_files_in_order() {
    let entries = vec![
        RuleEntry { path: "rules/r2.md".to_string(), is_file: true },
        RuleEntry { path: "rules/sub".to_string(), is_file: false },
        RuleEntry { path: "rules/r1.md".to_string(), is_file: true },
    ];
    assert_eq!(list_rules(&entries), vec!["rules/r2.md".to_string(), "rules/r1.md".to_string()]);
    assert!(list_rules(&Vec::new()).is_empty());
}
