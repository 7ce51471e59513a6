use gepetto::artifact::program_id_json;
use gepetto::config::ProjectConfig;

#[test]
fn test_program_id_json_exact() {
    assert_eq!(program_id_json(&vec![]), "[]");
    assert_eq!(program_id_json(&vec![0]), "[0]");
    assert_eq!(program_id_json(&vec![1, 2, 255]), "[1,2,255]");
    assert_eq!(program_id_json(&vec![10, 0, 100]), "[10,0,100]");
}

#[test]
fn test_config_build() {
    let config = ProjectConfig::build("some-counter".to_owned(), "Acme".to_owned());
    assert_eq!(config.program_name_dash, "some-counter");
    assert_eq!(config.program_name_underscore, "some_counter");
    assert_eq!(config.program_name_readable, "Some Counter");
    assert_eq!(config.company_name, "Acme");
    assert_eq!(config.program_key_bytes.len(), 64);
    assert!(!config.program_pubkey.is_empty());
    // The generated identity artifact is the JSON array of all 64 bytes.
    let json = program_id_json(&config.program_key_bytes);
    assert!(json.starts_with('[') && json.ends_with(']'));
    assert_eq!(json.split(',').count(), 64);
}

#[test]
fn test_fresh_credentials_differ() {
    let a = ProjectConfig::build("a".to_owned(), "x".to_owned());
    let b = ProjectConfig::build("a".to_owned(), "x".to_owned());
    assert_ne!(a.program_key_bytes, b.program_key_bytes);
    assert_ne!(a.program_pubkey, b.program_pubkey);
}
