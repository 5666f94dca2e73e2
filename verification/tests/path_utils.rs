use figurine_studio::error::AppError;
use figurine_studio::services::path_utils::{sanitize_filename, validate_user_path};

#[test]
fn test_sanitize_simple_name() {
    assert_eq!(sanitize_filename("warrior").unwrap(), "warrior");
}

#[test]
fn test_sanitize_spaces_replaced() {
    assert_eq!(sanitize_filename("Dark Knight").unwrap(), "dark_knight");
}

#[test]
fn test_sanitize_special_chars() {
    assert_eq!(sanitize_filename("warrior/slayer\\v2").unwrap(), "warrior_slayer_v2");
}

#[test]
fn test_sanitize_mixed_case() {
    assert_eq!(sanitize_filename("DarkKnight").unwrap(), "darkknight");
}

#[test]
fn test_sanitize_hyphens_preserved() {
    assert_eq!(sanitize_filename("dark-knight").unwrap(), "dark-knight");
}

#[test]
fn test_sanitize_empty_name_error() {
    assert!(sanitize_filename("").is_err());
    assert!(sanitize_filename("   ").is_err());
}

#[test]
fn test_sanitize_all_special_chars_error() {
    assert!(sanitize_filename("///").is_err());
}

#[test]
fn test_validate_safe_relative_path() {
    assert!(validate_user_path("characters/warrior").is_ok());
}

#[test]
fn test_validate_simple_name() {
    assert!(validate_user_path("warrior.png").is_ok());
}

#[test]
fn test_validate_rejects_parent_dir() {
    assert!(validate_user_path("../etc/passwd").is_err());
    assert!(validate_user_path("characters/../../secret").is_err());
}

#[test]
fn test_validate_rejects_absolute_path() {
    assert!(validate_user_path("/etc/passwd").is_err());
}

#[test]
fn test_path_utils_traversal_prevention() {
    assert!(validate_user_path("characters/warrior").is_ok());
    assert!(validate_user_path("warrior.png").is_ok());
    assert!(validate_user_path("../etc/passwd").is_err());
    assert!(validate_user_path("/etc/passwd").is_err());
    assert!(validate_user_path("characters/../../secret").is_err());
}

#[test]
fn sanitize_is_idempotent_on_examples() {
    for input in ["Dark Knight", "slime-v2", "Fire_Mage", "Test 123!"] {
        let once = sanitize_filename(input).unwrap();
        assert_eq!(sanitize_filename(&once).unwrap(), once);
    }
    assert_eq!(sanitize_filename("Test 123!").unwrap(), "test_123_");
}

#[test]
fn sanitize_errors_name_their_kind() {
    match sanitize_filename("   ") {
        Err(AppError::Validation(_)) => {}
        other => panic!("unexpected: {:?}", other),
    }
    match sanitize_filename("///") {
        Err(AppError::Validation(m)) => assert!(m.ends_with("///")),
        other => panic!("unexpected: {:?}", other),
    }
}

#[test]
fn validate_accepts_dot_components() {
    assert!(validate_user_path("./characters/warrior").is_ok());
    assert!(validate_user_path("a..b/c").is_ok());
}
