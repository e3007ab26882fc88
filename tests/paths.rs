use cachedir::path::{join_path, path_is_absolute};
use cachedir::{Attempt, FailureKind, Platform, Reason, Tier};

#[test]
fn join_on_posix() {
    assert_eq!(join_path(Platform::Linux, "/home/u", ".cache"), "/home/u/.cache");
    assert_eq!(join_path(Platform::Linux, "/home/u/", ".cache"), "/home/u/.cache");
    assert_eq!(join_path(Platform::Linux, "/home/u", "/abs"), "/abs");
    assert_eq!(join_path(Platform::Linux, "", "rel"), "rel");
}

#[test]
fn join_on_windows() {
    assert_eq!(join_path(Platform::Windows, "C:\\Users\\u", "Cache"), "C:\\Users\\u\\Cache");
    assert_eq!(join_path(Platform::Windows, "C:\\Users\\u\\", "Cache"), "C:\\Users\\u\\Cache");
    assert_eq!(join_path(Platform::Windows, "C:\\work", "D:\\x"), "D:\\x");
}

#[test]
fn absolute_paths() {
    assert!(path_is_absolute(Platform::Linux, "/x"));
    assert!(!path_is_absolute(Platform::Linux, "x/y"));
    assert!(!path_is_absolute(Platform::Linux, "C:\\x"));
    assert!(path_is_absolute(Platform::Windows, "C:\\x"));
    assert!(path_is_absolute(Platform::Windows, "\\x"));
    assert!(!path_is_absolute(Platform::Windows, "x"));
}

#[test]
fn attempt_lines() {
    let a = Attempt {
        tier: Tier::Temporary,
        kind: FailureKind::PermissionDenied,
        reason: Reason::CreateFailed("/var/tmp/x".to_string()),
    };
    assert_eq!(a.line(), "\n[Tmp Cache][PermissionDenied]: Failed to create the cache directory: /var/tmp/x");
    let b = Attempt {
        tier: Tier::System,
        kind: FailureKind::NotFound,
        reason: Reason::VariableEmpty("ProgramData".to_string()),
    };
    assert_eq!(
        b.line(),
        "\n[System Cache][NotFound]: %ProgramData% is defined, but it is set to an empty string"
    );
    assert_eq!(cachedir::trail::render_trail(&vec![a, b]).lines().count(), 3);
}
