use gws::{resolve_service, services, GwsError};

#[test]
fn test_resolve_service_known() {
    assert_eq!(
        resolve_service("drive").unwrap(),
        ("drive".to_string(), "v3".to_string())
    );
    assert_eq!(
        resolve_service("admin").unwrap(),
        ("admin".to_string(), "directory_v1".to_string())
    );
    assert_eq!(
        resolve_service("directory").unwrap(),
        ("admin".to_string(), "directory_v1".to_string())
    );
}

#[test]
fn test_resolve_service_all_aliases() {
    // Verify every alias in the table resolves correctly
    for entry in services().iter() {
        for alias in entry.aliases {
            let (api_name, version) = resolve_service(alias)
                .unwrap_or_else(|_| panic!("alias '{}' should resolve", alias));
            assert_eq!(api_name, entry.api_name, "alias '{}' wrong api_name", alias);
            assert_eq!(version, entry.version, "alias '{}' wrong version", alias);
        }
    }
}

#[test]
fn test_resolve_service_unknown() {
    let err = resolve_service("unknown_service");
    assert!(err.is_err());
    match err.unwrap_err() {
        GwsError::Validation(msg) => assert!(msg.contains("Unknown service")),
        _ => panic!("Expected Validation error"),
    }
}

#[test]
fn test_resolve_service_case_sensitive() {
    // Service names should be case-sensitive
    assert!(resolve_service("Drive").is_err());
    assert!(resolve_service("GMAIL").is_err());
}

#[test]
fn test_resolve_service_empty_string() {
    assert!(resolve_service("").is_err());
}

#[test]
fn test_resolve_service_error_lists_known_services() {
    let err = resolve_service("nonexistent");
    match err.unwrap_err() {
        GwsError::Validation(msg) => {
            assert!(msg.contains("drive"), "error should list 'drive': {msg}");
            assert!(msg.contains("gmail"), "error should list 'gmail': {msg}");
        }
        _ => panic!("Expected Validation error"),
    }
}

#[test]
fn test_no_duplicate_aliases() {
    let mut seen = std::collections::HashSet::new();
    for entry in services().iter() {
        for alias in entry.aliases {
            assert!(
                seen.insert(*alias),
                "duplicate alias '{}' found in the service table",
                alias
            );
        }
    }
}

#[test]
fn resolve_service_error_message_is_exact() {
    let all: Vec<&str> = services()
        .iter()
        .flat_map(|e| e.aliases.iter().copied())
        .collect();
    let expected = format!(
        "Unknown service 'nope'. Known services: {}. Use '<api>:<version>' syntax for unlisted APIs.",
        all.join(", ")
    );
    match resolve_service("nope") {
        Err(GwsError::Validation(msg)) => assert_eq!(msg, expected),
        _ => panic!("Expected Validation error"),
    }
}

#[test]
fn resolve_service_second_aliases() {
    assert_eq!(
        resolve_service("reports").unwrap(),
        ("admin".to_string(), "reports_v1".to_string())
    );
    assert_eq!(
        resolve_service("apps-script").unwrap(),
        ("script".to_string(), "v1".to_string())
    );
    assert_eq!(
        resolve_service("wf").unwrap(),
        ("workflow".to_string(), "v1".to_string())
    );
    assert_eq!(
        resolve_service("events").unwrap(),
        ("workspaceevents".to_string(), "v1".to_string())
    );
}

#[test]
fn resolve_service_no_partial_or_padded_match() {
    assert!(resolve_service("driv").is_err());
    assert!(resolve_service("drive ").is_err());
    assert!(resolve_service(" drive").is_err());
    assert!(resolve_service("admin-report").is_err());
}

#[test]
fn services_table_has_every_entry() {
    let table = services();
    assert_eq!(table.len(), 25);
    assert_eq!(table[0].aliases, &["drive"]);
    assert_eq!(table[0].description, "Manage files, folders, and shared drives");
    assert_eq!(table[24].aliases, &["workflow", "wf"]);
    assert_eq!(table[24].version, "v1");
}
