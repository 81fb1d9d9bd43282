use agentflow::sandbox::{SandboxConfig, SandboxError};

#[test]
fn test_sandbox_config() {
    let mut config = SandboxConfig::new();
    config.add_allowed_dir("/workspace");

    assert!(config.validate_path("/workspace/file.txt").is_ok());
    assert!(config.validate_path("/workspace/subdir/file.txt").is_ok());

    assert!(matches!(
        config.validate_path("/workspace/../../../etc/passwd"),
        Err(SandboxError::PathTraversalDetected(_))
    ));

    assert!(matches!(
        config.validate_path("/etc/passwd"),
        Err(SandboxError::PathNotAllowed(_))
    ));
}

#[test]
fn test_is_safe_filename() {
    assert!(SandboxConfig::is_safe_filename("file.txt"));
    assert!(SandboxConfig::is_safe_filename("document.pdf"));

    assert!(!SandboxConfig::is_safe_filename("../file.txt"));
    assert!(!SandboxConfig::is_safe_filename("/etc/passwd"));
    assert!(!SandboxConfig::is_safe_filename("file?.txt"));
}

#[test]
fn test_create_safe_path() {
    let config = SandboxConfig::with_allowed_dirs(vec![String::from("/workspace")]);

    let result = config.create_safe_path("/workspace", "subdir/file.txt");
    assert!(result.is_ok());

    let result = config.create_safe_path("/workspace", "../etc/passwd");
    assert!(matches!(result, Err(SandboxError::PathTraversalDetected(_))));
}

#[test]
fn test_sandbox_summary() {
    let mut config = SandboxConfig::new();
    config.add_allowed_dir("/workspace");
    config.add_allowed_dir("/tmp");

    let summary = config.summary();
    assert_eq!(summary.allowed_dirs_count, 2);
    assert!(summary.strict_mode);
}

#[test]
fn validate_path_verdicts_with_workspace_root() {
    // allowed root /workspace: a file below it passes; a raw traversal is
    // refused as traversal whatever the whitelist holds; a path outside
    // the whitelist is refused as not allowed
    let config = SandboxConfig::with_allowed_dirs(vec![String::from("/workspace")]);
    let ok = config.validate_path("/workspace/a/b.txt");
    assert_eq!(ok.unwrap(), "/workspace/a/b.txt");
    assert!(matches!(
        config.validate_path("/workspace/../../etc/passwd"),
        Err(SandboxError::PathTraversalDetected(_))
    ));
    assert!(matches!(
        config.validate_path("/etc/passwd"),
        Err(SandboxError::PathNotAllowed(_))
    ));
}

#[test]
fn create_safe_path_refuses_escape_into_other_root() {
    // the sub-path escapes the base even though the landing root is
    // itself whitelisted
    let config = SandboxConfig::with_allowed_dirs(vec![
        String::from("/workspace"),
        String::from("/etc"),
    ]);
    assert!(matches!(
        config.create_safe_path("/workspace", "../etc/passwd"),
        Err(SandboxError::PathTraversalDetected(_))
    ));
}

#[test]
fn create_safe_path_normalizes_and_returns_the_joined_path() {
    let config = SandboxConfig::with_allowed_dirs(vec![String::from("/workspace")]);
    let p = config.create_safe_path("/workspace", "a//./b.txt").unwrap();
    assert_eq!(p, "/workspace/a/b.txt");
    // an absolute sub-path stands for itself and escapes the base
    assert!(matches!(
        config.create_safe_path("/workspace", "/etc/passwd"),
        Err(SandboxError::PathTraversalDetected(_))
    ));
}

#[test]
fn validate_path_normalizes_dots_and_slashes() {
    let config = SandboxConfig::with_allowed_dirs(vec![String::from("/workspace")]);
    assert_eq!(
        config.validate_path("/workspace//a/./b.txt").unwrap(),
        "/workspace/a/b.txt"
    );
    // a sibling directory sharing the prefix is not a descendant
    assert!(matches!(
        config.validate_path("/workspace2/file.txt"),
        Err(SandboxError::PathNotAllowed(_))
    ));
}

#[test]
fn non_strict_mode_admits_paths_outside_the_whitelist() {
    let mut config = SandboxConfig::new();
    config.set_strict_mode(false);
    assert!(config.validate_path("/anywhere/at/all").is_ok());
    // traversal is still refused before the whitelist question arises
    assert!(matches!(
        config.validate_path("/anywhere/../at/all"),
        Err(SandboxError::PathTraversalDetected(_))
    ));
}

#[test]
fn validate_paths_stops_at_the_first_rejection() {
    let config = SandboxConfig::with_allowed_dirs(vec![String::from("/workspace")]);
    let all_ok = vec![
        String::from("/workspace/a"),
        String::from("/workspace/b"),
    ];
    assert!(config.validate_paths(&all_ok).is_ok());
    let one_bad = vec![
        String::from("/workspace/a"),
        String::from("/etc/passwd"),
    ];
    assert!(matches!(
        config.validate_paths(&one_bad),
        Err(SandboxError::PathNotAllowed(_))
    ));
}

#[test]
fn symlink_chain_policy() {
    let mut config = SandboxConfig::with_allowed_dirs(vec![String::from("/workspace")]);
    config.set_max_symlink_depth(2);

    let fine = vec![String::from("/workspace/link1"), String::from("/workspace/link2")];
    assert!(config.check_symlink_chain(&fine).is_ok());

    let escaping = vec![String::from("/etc/passwd")];
    assert!(matches!(
        config.check_symlink_chain(&escaping),
        Err(SandboxError::SymlinkAttack(_))
    ));

    let too_deep = vec![
        String::from("/workspace/a"),
        String::from("/workspace/b"),
        String::from("/workspace/c"),
    ];
    assert!(matches!(
        config.check_symlink_chain(&too_deep),
        Err(SandboxError::SymlinkAttack(_))
    ));
}

#[test]
fn validation_is_idempotent() {
    // validating an already-validated path yields the same verdict and
    // the same normal form
    let config = SandboxConfig::with_allowed_dirs(vec![String::from("/workspace")]);
    let n = config.validate_path("/workspace//a/./b.txt").unwrap();
    let again = config.validate_path(&n).unwrap();
    assert_eq!(n, again);
    assert!(matches!(
        config.validate_path("/etc/x"),
        Err(SandboxError::PathNotAllowed(_))
    ));
    assert!(matches!(
        config.validate_path("/etc/x"),
        Err(SandboxError::PathNotAllowed(_))
    ));
}

#[test]
fn whitelist_editing_is_reflected_in_verdicts() {
    let mut config = SandboxConfig::new();
    config.add_allowed_dir("/data");
    assert!(config.validate_path("/data/x").is_ok());
    config.remove_allowed_dir("/data");
    assert!(matches!(
        config.validate_path("/data/x"),
        Err(SandboxError::PathNotAllowed(_))
    ));
    assert_eq!(config.allowed_dirs().len(), 0);
}
