use cachedir::{
    create_cache_dir, Attempt, CacheDir, CacheDirConfig, CacheDirError, Event, FailureKind,
    HostPaths, Platform, Reason, Request, Tier,
};
use std::path::PathBuf;

/// An in-memory filesystem that answers a resolver's requests.
struct FakeFs {
    dirs: Vec<String>,
    files: Vec<String>,
    locked: Vec<String>,
    broken: bool,
    log: Vec<String>,
}

impl FakeFs {
    fn new(dirs: &[&str]) -> FakeFs {
        FakeFs {
            dirs: dirs.iter().map(|d| d.to_string()).collect(),
            files: Vec::new(),
            locked: Vec::new(),
            broken: false,
            log: Vec::new(),
        }
    }

    fn lock(mut self, dir: &str) -> FakeFs {
        self.locked.push(dir.to_string());
        self
    }

    fn break_all(mut self) -> FakeFs {
        self.broken = true;
        self
    }

    fn file(mut self, path: &str) -> FakeFs {
        self.files.push(path.to_string());
        self
    }

    fn parent_of(path: &str) -> Option<String> {
        let trimmed = path.trim_end_matches(|c| c == '/' || c == '\\');
        let cut = trimmed.rfind(|c| c == '/' || c == '\\')?;
        if cut == 0 {
            Some(trimmed[..1].to_string())
        } else {
            Some(trimmed[..cut].to_string())
        }
    }

    fn create_all(&mut self, path: &str) -> Event {
        if self.broken {
            return Event::Failed(FailureKind::Other);
        }
        if self.dirs.iter().any(|d| d == path) {
            return Event::Created;
        }
        if self.files.iter().any(|f| f == path) {
            return Event::Failed(FailureKind::AlreadyExists);
        }
        if let Some(parent) = FakeFs::parent_of(path) {
            if self.locked.iter().any(|l| *l == parent) {
                return Event::Failed(FailureKind::PermissionDenied);
            }
            if parent != path {
                if let Event::Failed(k) = self.create_all(&parent) {
                    return Event::Failed(k);
                }
            }
        }
        self.dirs.push(path.to_string());
        Event::Created
    }

    fn answer(&mut self, request: &Request) -> Event {
        match request {
            Request::Create(p) => {
                self.log.push(format!("create {}", p));
                self.create_all(p)
            }
        }
    }
}

fn run(
    config: &CacheDirConfig,
    platform: Platform,
    host: &HostPaths,
    fs: &mut FakeFs,
) -> (Result<CacheDir, CacheDirError>, Vec<Attempt>) {
    let mut resolver = create_cache_dir(config, platform, host);
    while let Some(request) = resolver.next_request() {
        let event = fs.answer(&request);
        resolver.advance(event);
    }
    let attempts = resolver.attempts();
    (resolver.into_result(), attempts)
}

fn unix_host(home: &str) -> HostPaths {
    HostPaths {
        current_dir: Some("/home/user/project".to_string()),
        home_dir: Some(home.to_string()),
        temp_dir: "/tmp".to_string(),
        local_app_data: None,
        app_data: None,
        program_data: None,
    }
}

fn windows_host() -> HostPaths {
    HostPaths {
        current_dir: Some("C:\\work".to_string()),
        home_dir: Some("C:\\Users\\u".to_string()),
        temp_dir: "C:\\Temp".to_string(),
        local_app_data: Some("C:\\Users\\u\\AppData\\Local".to_string()),
        app_data: Some("C:\\Users\\u\\AppData\\Roaming".to_string()),
        program_data: Some("C:\\ProgramData".to_string()),
    }
}

fn path_of(r: &Result<CacheDir, CacheDirError>) -> String {
    match r {
        Ok(d) => d.path().to_string(),
        Err(e) => panic!("resolution failed: {}", e.message()),
    }
}

#[test]
fn create_user_cache() {
    let host = unix_host("/home/user");
    let mut fs = FakeFs::new(&["/", "/home", "/home/user"]);
    let config = CacheDirConfig::new("__cachedir_test_create_user_cache");
    let (r, _) = run(&config, Platform::Linux, &host, &mut fs);
    let cache_dir: PathBuf = r.unwrap().into_path_buf();
    assert_eq!(
        PathBuf::from("/home/user/.cache").join("__cachedir_test_create_user_cache"),
        cache_dir
    );
}

#[test]
fn tests_create_user_cache() {
    let host = windows_host();
    let mut fs = FakeFs::new(&["C:", "C:\\Users", "C:\\Users\\u", "C:\\Users\\u\\AppData", "C:\\Users\\u\\AppData\\Local"]);
    let config = CacheDirConfig::new("__cachedir_test_create_user_cache");
    let (r, _) = run(&config, Platform::Windows, &host, &mut fs);
    assert_eq!(path_of(&r), "C:\\Users\\u\\AppData\\Local\\__cachedir_test_create_user_cache");
}

#[test]
fn create_tmp_cache() {
    let host = unix_host("/home/user");
    let mut fs = FakeFs::new(&["/", "/var", "/var/tmp", "/tmp"]);
    let mut config = CacheDirConfig::new("__cachedir_test_create_tmp_cache");
    config.tmp_cache(true);
    let (r, _) = run(&config, Platform::Linux, &host, &mut fs);
    assert_eq!(r.unwrap().into_path_buf(), PathBuf::from("/var/tmp/__cachedir_test_create_tmp_cache"));

    let host = windows_host();
    let mut fs = FakeFs::new(&["C:", "C:\\Temp"]);
    let (r, _) = run(&config, Platform::Windows, &host, &mut fs);
    assert_eq!(path_of(&r), "C:\\Temp\\__cachedir_test_create_tmp_cache");
}

#[test]
fn create_mem_cache() {
    let host = unix_host("/home/user");
    let mut fs = FakeFs::new(&["/", "/dev", "/dev/shm", "/run", "/run/shm"]);
    let mut config = CacheDirConfig::new("__cachedir_test_create_mem_cache");
    config.mem_cache(true);
    let (r, _) = run(&config, Platform::Linux, &host, &mut fs);
    assert_eq!(path_of(&r), "/dev/shm/__cachedir_test_create_mem_cache");
}

#[test]
fn mem_cache_falls_back_to_run_shm() {
    let host = unix_host("/home/user");
    let mut fs = FakeFs::new(&["/", "/dev", "/run", "/run/shm"]).lock("/dev");
    let mut config = CacheDirConfig::new("m");
    config.mem_cache(true);
    let (r, attempts) = run(&config, Platform::Linux, &host, &mut fs);
    assert_eq!(path_of(&r), "/run/shm/m");
    assert_eq!(attempts.len(), 1);
    assert!(matches!(&attempts[0].reason, Reason::CreateFailed(p) if p == "/dev/shm/m"));
    assert_eq!(attempts[0].kind, FailureKind::PermissionDenied);
}

#[test]
fn default_user_tier_on_posix() {
    let host = unix_host("/home/alice");
    let mut fs = FakeFs::new(&["/", "/home", "/home/alice"]);
    let config = CacheDirConfig::new("example");
    let (r, _) = run(&config, Platform::Linux, &host, &mut fs);
    let dir = r.unwrap();
    assert_eq!(dir.path(), "/home/alice/.cache/example");
    assert_eq!(dir.tier(), Tier::User);
}

#[test]
fn user_tier_on_macos_uses_library_caches() {
    let host = unix_host("/Users/bob");
    let mut fs = FakeFs::new(&["/", "/Users", "/Users/bob"]);
    let config = CacheDirConfig::new("example");
    let (r, _) = run(&config, Platform::MacOs, &host, &mut fs);
    assert_eq!(path_of(&r), "/Users/bob/Library/Caches/example");
}

#[test]
fn temporary_tier_skips_unwritable_var_tmp() {
    let host = unix_host("/home/user");
    let mut fs = FakeFs::new(&["/", "/var", "/var/tmp", "/tmp"]).lock("/var/tmp");
    let mut config = CacheDirConfig::new("example");
    config.tmp_cache(true);
    let (r, attempts) = run(&config, Platform::Linux, &host, &mut fs);
    assert_eq!(path_of(&r), "/tmp/example");
    assert_eq!(attempts.len(), 1);
    assert_eq!(attempts[0].tier, Tier::Temporary);
    assert_eq!(attempts[0].kind, FailureKind::PermissionDenied);
    assert!(matches!(&attempts[0].reason, Reason::CreateFailed(p) if p == "/var/tmp/example"));
}

#[test]
fn memory_tier_on_windows_is_unsupported() {
    let host = windows_host();
    let mut fs = FakeFs::new(&["C:"]);
    let mut config = CacheDirConfig::new("example");
    config.mem_cache(true);
    let (r, _) = run(&config, Platform::Windows, &host, &mut fs);
    let err = r.unwrap_err();
    assert_eq!(err.kind(), FailureKind::NotFound);
    let message = err.message();
    assert!(message.contains("[Memory Cache]"));
    assert!(message.contains("not supported"));
    assert!(fs.log.is_empty());
}

#[test]
fn override_wins_over_all_tiers() {
    let host = unix_host("/home/user");
    let mut fs = FakeFs::new(&["/", "/tmp", "/home", "/home/user", "/var", "/var/tmp", "/var/cache", "/dev", "/dev/shm"]);
    let mut config = CacheDirConfig::new("example");
    config.app_cache_path("/tmp/app").try_all_caches();
    let (r, attempts) = run(&config, Platform::Linux, &host, &mut fs);
    let dir = r.unwrap();
    assert_eq!(dir.path(), "/tmp/app/example");
    assert_eq!(dir.tier(), Tier::Application);
    assert!(attempts.is_empty());
    assert_eq!(fs.log, vec!["create /tmp/app/example"]);
}

#[test]
fn relative_override_is_under_current_dir() {
    let host = unix_host("/home/user");
    let mut fs = FakeFs::new(&["/", "/home", "/home/user", "/home/user/project"]);
    let mut config = CacheDirConfig::new("example");
    config.app_cache_path("cache").app_cache(true);
    let (r, _) = run(&config, Platform::Linux, &host, &mut fs);
    assert_eq!(path_of(&r), "/home/user/project/cache/example");
}

#[test]
fn app_cache_without_override_uses_hidden_dir() {
    let host = unix_host("/home/user");
    let mut fs = FakeFs::new(&["/", "/home", "/home/user", "/home/user/project"]);
    let mut config = CacheDirConfig::new("example");
    config.app_cache(true);
    let (r, _) = run(&config, Platform::Linux, &host, &mut fs);
    assert_eq!(path_of(&r), "/home/user/project/.cache/example");

    let host = windows_host();
    let mut fs = FakeFs::new(&["C:", "C:\\work"]);
    let (r, _) = run(&config, Platform::Windows, &host, &mut fs);
    assert_eq!(path_of(&r), "C:\\work\\Cache\\example");
}

#[test]
fn higher_priority_tier_wins() {
    let host = unix_host("/home/user");
    let mut fs = FakeFs::new(&["/", "/home", "/home/user", "/var", "/var/tmp", "/tmp"]);
    let mut config = CacheDirConfig::new("example");
    config.tmp_cache(true).user_cache(true);
    let (r, _) = run(&config, Platform::Linux, &host, &mut fs);
    let dir = r.unwrap();
    assert_eq!(dir.tier(), Tier::User);
    assert_eq!(dir.path(), "/home/user/.cache/example");
}

#[test]
fn zero_tiers_equals_user_tier() {
    let host = unix_host("/home/user");
    let mut fs1 = FakeFs::new(&["/", "/home", "/home/user"]);
    let mut fs2 = FakeFs::new(&["/", "/home", "/home/user"]);
    let plain = CacheDirConfig::new("example");
    let mut user = CacheDirConfig::new("example");
    user.user_cache(true);
    let (r1, _) = run(&plain, Platform::Linux, &host, &mut fs1);
    let (r2, _) = run(&user, Platform::Linux, &host, &mut fs2);
    assert_eq!(path_of(&r1), path_of(&r2));
    assert_eq!(fs1.log, fs2.log);
    assert_eq!(plain.selection(), user.selection());
}

#[test]
fn resolving_twice_gives_the_same_path() {
    let host = unix_host("/home/user");
    let mut fs = FakeFs::new(&["/", "/home", "/home/user"]);
    let config = CacheDirConfig::new("example");
    let (r1, _) = run(&config, Platform::Linux, &host, &mut fs);
    let (r2, _) = run(&config, Platform::Linux, &host, &mut fs);
    assert_eq!(path_of(&r1), "/home/user/.cache/example");
    assert_eq!(path_of(&r1), path_of(&r2));
}

#[test]
fn exhaustion_names_every_tier() {
    let host = HostPaths {
        current_dir: None,
        home_dir: None,
        temp_dir: "/tmp".to_string(),
        local_app_data: None,
        app_data: None,
        program_data: None,
    };
    let mut fs = FakeFs::new(&["/", "/var", "/var/cache", "/var/tmp", "/tmp"])
        .lock("/var/cache")
        .lock("/var/tmp")
        .lock("/tmp")
        .lock("/");
    let mut config = CacheDirConfig::new("example");
    config.app_cache(true).try_all_caches();
    let (r, _) = run(&config, Platform::Linux, &host, &mut fs);
    let err = r.unwrap_err();
    let message = err.message();
    for label in ["[Application Cache]", "[User Cache]", "[System Cache]", "[Tmp Cache]", "[Memory Cache]"] {
        assert!(message.contains(label), "missing {} in {}", label, message);
    }
    // The category is that of the last attempted tier: its candidates exist
    // but none could be created.
    assert_eq!(err.kind(), FailureKind::PermissionDenied);
}

#[test]
fn exhaustion_message_is_exact() {
    let host = unix_host("/home/user");
    let mut fs = FakeFs::new(&["/", "/var"]).lock("/var");
    let mut config = CacheDirConfig::new("x");
    config.sys_cache(true);
    let (r, _) = run(&config, Platform::Linux, &host, &mut fs);
    let err = r.unwrap_err();
    assert_eq!(err.kind(), FailureKind::PermissionDenied);
    assert_eq!(
        err.message(),
        "\n[System Cache][PermissionDenied]: Failed to create the cache directory: /var/cache/x"
    );
}

#[test]
fn parent_that_is_a_file_is_reported() {
    let host = unix_host("/home/user");
    let mut fs = FakeFs::new(&["/", "/var"]).file("/var/cache");
    let mut config = CacheDirConfig::new("x");
    config.sys_cache(true);
    let (r, _) = run(&config, Platform::Linux, &host, &mut fs);
    match r.unwrap_err() {
        CacheDirError::Exhausted { kind, attempts } => {
            assert_eq!(kind, FailureKind::PermissionDenied);
            assert_eq!(attempts.len(), 1);
            assert_eq!(attempts[0].kind, FailureKind::AlreadyExists);
            assert!(matches!(&attempts[0].reason, Reason::CreateFailed(p) if p == "/var/cache/x"));
        }
        CacheDirError::InvalidName => panic!("unexpected invalid name"),
    }
}

#[test]
fn unwritable_home_fails_the_user_tier() {
    let host = unix_host("/home/user");
    let mut fs = FakeFs::new(&["/", "/home", "/home/user"]).lock("/home/user");
    let config = CacheDirConfig::new("x");
    let (r, _) = run(&config, Platform::Linux, &host, &mut fs);
    let err = r.unwrap_err();
    assert_eq!(err.kind(), FailureKind::PermissionDenied);
    assert_eq!(
        err.message(),
        "\n[User Cache][PermissionDenied]: Failed to create the cache directory: /home/user/.cache/x"
    );
}

#[test]
fn missing_home_is_not_found() {
    let mut host = unix_host("/home/user");
    host.home_dir = None;
    let mut fs = FakeFs::new(&["/"]);
    let config = CacheDirConfig::new("x");
    let (r, _) = run(&config, Platform::Linux, &host, &mut fs);
    let err = r.unwrap_err();
    assert_eq!(err.kind(), FailureKind::NotFound);
    assert_eq!(
        err.message(),
        "\n[User Cache][NotFound]: Could not obtain user's home directory\n[User Cache][NotFound]: No candidate cache directory is available"
    );
    assert!(fs.log.is_empty());
}

#[test]
fn emscripten_without_home_uses_var_cache() {
    let mut host = unix_host("");
    host.home_dir = None;
    let mut fs = FakeFs::new(&["/"]);
    let config = CacheDirConfig::new("x");
    let (r, _) = run(&config, Platform::Emscripten, &host, &mut fs);
    assert_eq!(path_of(&r), "/var/cache/x");
}

#[test]
fn windows_user_tier_notes_missing_variables() {
    let mut host = windows_host();
    host.local_app_data = None;
    host.app_data = Some(String::new());
    let mut fs = FakeFs::new(&["C:", "C:\\Users", "C:\\Users\\u"]);
    let config = CacheDirConfig::new("x");
    let (r, _) = run(&config, Platform::Windows, &host, &mut fs);
    assert_eq!(path_of(&r), "C:\\Users\\u\\Cache\\x");

    host.home_dir = None;
    let mut fs = FakeFs::new(&["C:"]);
    let (r, _) = run(&config, Platform::Windows, &host, &mut fs);
    let err = r.unwrap_err();
    assert_eq!(err.kind(), FailureKind::NotFound);
    assert_eq!(
        err.message(),
        "\n[User Cache][NotFound]: %LOCALAPPDATA% is undefined\n[User Cache][NotFound]: %APPDATA% is defined, but it is set to an empty string\n[User Cache][NotFound]: Could not obtain user's home directory\n[User Cache][NotFound]: No candidate cache directory is available"
    );
}

#[test]
fn windows_system_tier_needs_program_data() {
    let mut host = windows_host();
    let mut fs = FakeFs::new(&["C:", "C:\\ProgramData"]);
    let mut config = CacheDirConfig::new("x");
    config.sys_cache(true);
    let (r, _) = run(&config, Platform::Windows, &host, &mut fs);
    assert_eq!(path_of(&r), "C:\\ProgramData\\x");

    host.program_data = None;
    let (r, _) = run(&config, Platform::Windows, &host, &mut fs);
    let message = r.unwrap_err().message();
    assert!(message.contains("%ProgramData% is undefined"));
}

#[test]
fn windows_empty_temp_dir_is_not_found() {
    let mut host = windows_host();
    host.temp_dir = String::new();
    let mut fs = FakeFs::new(&["C:"]);
    let mut config = CacheDirConfig::new("x");
    config.tmp_cache(true);
    let (r, _) = run(&config, Platform::Windows, &host, &mut fs);
    let err = r.unwrap_err();
    assert_eq!(err.kind(), FailureKind::NotFound);
    assert!(err.message().contains("Could not obtain the temporary directory's path"));
}

#[test]
fn absolute_cache_name_is_rejected() {
    let host = unix_host("/home/user");
    let mut fs = FakeFs::new(&["/"]);
    let config = CacheDirConfig::new("/etc/x");
    let (r, _) = run(&config, Platform::Linux, &host, &mut fs);
    let err = r.unwrap_err();
    assert!(matches!(err, CacheDirError::InvalidName));
    assert_eq!(err.kind(), FailureKind::InvalidInput);
    assert_eq!(err.message(), "The cache name must be a relative path");
    assert!(fs.log.is_empty());
}

#[test]
fn unknown_platform_fails_every_tier() {
    let host = unix_host("/home/user");
    let mut fs = FakeFs::new(&["/"]);
    let config = CacheDirConfig::new("x");
    let (r, _) = run(&config, Platform::Unknown, &host, &mut fs);
    let err = r.unwrap_err();
    assert_eq!(err.kind(), FailureKind::NotFound);
    assert!(err.message().starts_with("\n[User Cache][NotFound]: This cache is not supported on this platform"));
}

#[test]
fn builder_rules() {
    let mut config = CacheDirConfig::new("some/path");
    assert_eq!(config.cache_name(), "some/path");
    let s = config.selection();
    assert!(s.user && !s.application && !s.system && !s.temporary && !s.memory);

    config.try_all_caches();
    let s = config.selection();
    assert!(!s.application && s.user && s.system && s.temporary && s.memory);

    let mut config = CacheDirConfig::new("some/path");
    config.app_cache_path("/app/cache");
    assert!(config.selection().application);
    assert!(!config.selection().user);
    config.app_cache(false);
    assert!(!config.selection().application);
    assert_eq!(config.app_path(), Some("/app/cache"));
    assert!(config.selection().user);
    config.try_all_caches();
    assert!(config.selection().application);
}

#[test]
fn requests_follow_priority_order() {
    let host = unix_host("/home/user");
    let mut fs = FakeFs::new(&["/", "/var", "/tmp"]).lock("/var");
    let mut config = CacheDirConfig::new("e");
    config.sys_cache(true).tmp_cache(true);
    let (r, attempts) = run(&config, Platform::Linux, &host, &mut fs);
    assert_eq!(path_of(&r), "/tmp/e");
    assert_eq!(
        fs.log,
        vec!["create /var/cache/e", "create /var/tmp/e", "create /tmp/e"]
    );
    assert_eq!(attempts.len(), 2);
    assert_eq!(attempts[0].tier, Tier::System);
    assert_eq!(attempts[1].tier, Tier::Temporary);
}

#[test]
fn into_path_buf_keeps_the_path() {
    let host = unix_host("/home/user");
    let mut fs = FakeFs::new(&["/", "/home", "/home/user"]);
    let config = CacheDirConfig::new("a/b");
    let (r, _) = run(&config, Platform::Linux, &host, &mut fs);
    let dir = r.unwrap();
    assert_eq!(dir.clone().into_string(), "/home/user/.cache/a/b");
    assert_eq!(dir.into_path_buf(), PathBuf::from("/home/user/.cache/a/b"));
}

#[test]
fn resolving_twice_with_nested_candidates() {
    // The temporary tier tries `/var/tmp` and then the temporary directory
    // `/var`; with the name `tmp`, the first candidate creates `/var/tmp/tmp`,
    // and so does the second resolution.
    let mut host = unix_host("/home/user");
    host.temp_dir = "/var".to_string();
    let mut fs = FakeFs::new(&["/", "/var"]);
    let mut config = CacheDirConfig::new("tmp");
    config.tmp_cache(true);
    let (r1, _) = run(&config, Platform::Linux, &host, &mut fs);
    let (r2, _) = run(&config, Platform::Linux, &host, &mut fs);
    assert_eq!(path_of(&r1), "/var/tmp/tmp");
    assert_eq!(path_of(&r2), "/var/tmp/tmp");
}

#[test]
fn missing_parent_is_created() {
    let host = unix_host("/home/user");
    let mut fs = FakeFs::new(&["/", "/var"]);
    let mut config = CacheDirConfig::new("example");
    config.tmp_cache(true);
    let (r, attempts) = run(&config, Platform::Linux, &host, &mut fs);
    assert_eq!(path_of(&r), "/var/tmp/example");
    assert!(attempts.is_empty());
    assert_eq!(fs.log, vec!["create /var/tmp/example"]);
}

#[test]
fn host_failure_category_stays_in_trail() {
    let host = unix_host("/h");
    let mut fs = FakeFs::new(&["/"]).break_all();
    let config = CacheDirConfig::new("example");
    let (r, _) = run(&config, Platform::Linux, &host, &mut fs);
    match r.unwrap_err() {
        CacheDirError::Exhausted { kind, attempts } => {
            assert_eq!(kind, FailureKind::PermissionDenied);
            assert_eq!(attempts.len(), 1);
            assert_eq!(attempts[0].kind, FailureKind::Other);
            assert!(matches!(&attempts[0].reason, Reason::CreateFailed(p) if p == "/h/.cache/example"));
        }
        CacheDirError::InvalidName => panic!("unexpected invalid name"),
    }
}

#[test]
fn relative_host_paths_are_dropped() {
    let host = HostPaths {
        current_dir: Some("work".to_string()),
        home_dir: Some("home/u".to_string()),
        temp_dir: "tmp".to_string(),
        local_app_data: Some(String::new()),
        app_data: Some("C:\\Roaming".to_string()),
        program_data: None,
    };
    let kept = host.clone().keep_absolute(Platform::Linux);
    assert_eq!(kept.current_dir, None);
    assert_eq!(kept.home_dir, None);
    assert_eq!(kept.temp_dir, "");
    assert_eq!(kept.local_app_data, Some(String::new()));
    assert_eq!(kept.app_data, None);
    let kept = host.keep_absolute(Platform::Windows);
    assert_eq!(kept.app_data, Some("C:\\Roaming".to_string()));
    assert_eq!(kept.home_dir, None);
}

#[test]
fn cache_dirs_compare_by_path() {
    let host = unix_host("/home/user");
    let mut fs = FakeFs::new(&["/", "/home", "/home/user"]);
    let config = CacheDirConfig::new("x");
    let (a, _) = run(&config, Platform::Linux, &host, &mut fs);
    let (b, _) = run(&config, Platform::Linux, &host, &mut fs);
    assert_eq!(a.unwrap(), b.unwrap());
}
