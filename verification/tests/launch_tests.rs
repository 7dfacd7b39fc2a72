use open_now::launch::{
    extension_is_exe, plan_launch, plan_launch_from, probe_is_executable, split_whitespace, shell_execute_succeeded, target_is_url, LaunchError,
    LaunchPlan, Platform, TargetProbe,
};

fn probe(exists: bool, is_dir: bool, mode: Option<u32>) -> TargetProbe {
    TargetProbe { exists, is_dir, mode }
}

fn spawn(program: &str, args: &[&str], new_console: bool) -> LaunchPlan {
    LaunchPlan::Spawn {
        program: program.to_string(),
        args: args.iter().map(|s| s.to_string()).collect(),
        new_console,
    }
}

#[test]
fn urls_open_with_default_handler_everywhere() {
    for p in [Platform::Windows, Platform::MacOs, Platform::Linux, Platform::Other] {
        assert_eq!(
            plan_launch("https://github.com", "x", p, probe(false, false, None)),
            LaunchPlan::OpenUrl("https://github.com".to_string())
        );
    }
    assert!(target_is_url("http://a"));
    assert!(target_is_url("mailto:someone@example.com"));
    assert!(!target_is_url("mail:someone"));
    assert!(!target_is_url("HTTP://A"));
}

#[test]
fn mail_links_open_with_default_handler() {
    for p in [Platform::Windows, Platform::MacOs, Platform::Linux, Platform::Other] {
        assert_eq!(
            plan_launch("mailto:someone@example.com", "", p, probe(false, false, None)),
            LaunchPlan::OpenUrl("mailto:someone@example.com".to_string())
        );
    }
}

#[test]
fn linux_directories_and_plain_files_use_xdg_open() {
    assert_eq!(
        plan_launch("/home", "", Platform::Linux, probe(true, true, Some(0o755))),
        spawn("xdg-open", &["/home"], false)
    );
    assert_eq!(
        plan_launch("/tmp/a.txt", "-x", Platform::Linux, probe(true, false, Some(0o644))),
        spawn("xdg-open", &["/tmp/a.txt"], false)
    );
}

#[test]
fn linux_executables_and_missing_targets_are_spawned() {
    assert_eq!(
        plan_launch("/usr/bin/code", "  --new-window   a ", Platform::Linux, probe(true, false, Some(0o755))),
        spawn("/usr/bin/code", &["--new-window", "a"], false)
    );
    assert_eq!(
        plan_launch("firefox", "", Platform::Linux, probe(false, false, None)),
        spawn("firefox", &[], false)
    );
    assert!(probe_is_executable(probe(true, false, Some(0o100))));
    assert!(!probe_is_executable(probe(true, false, Some(0o644))));
    assert!(!probe_is_executable(probe(true, true, Some(0o755))));
    assert!(!probe_is_executable(probe(true, false, None)));
}

#[test]
fn macos_uses_open_with_args_after_marker() {
    assert_eq!(
        plan_launch("/Applications/X.app", "", Platform::MacOs, probe(false, false, None)),
        spawn("open", &["/Applications/X.app"], false)
    );
    assert_eq!(
        plan_launch("/Applications/X.app", "a b", Platform::MacOs, probe(false, false, None)),
        spawn("open", &["/Applications/X.app", "--args", "a", "b"], false)
    );
}

#[test]
fn windows_exe_with_args_gets_a_console() {
    assert_eq!(
        plan_launch("C:\\tools\\app.EXE", "/a /b", Platform::Windows, probe(false, false, None)),
        spawn("C:\\tools\\app.EXE", &["/a", "/b"], true)
    );
    assert_eq!(
        plan_launch("C:\\tools\\app.exe", "", Platform::Windows, probe(false, false, None)),
        LaunchPlan::ShellOpen { target: "C:\\tools\\app.exe".to_string(), parameters: None }
    );
    assert_eq!(
        plan_launch("C:\\docs\\a.pdf", "-p", Platform::Windows, probe(false, false, None)),
        LaunchPlan::ShellOpen { target: "C:\\docs\\a.pdf".to_string(), parameters: Some("-p".to_string()) }
    );
}

#[test]
fn other_platforms_do_nothing() {
    assert_eq!(plan_launch("x", "", Platform::Other, probe(true, false, None)), LaunchPlan::Nothing);
}

#[test]
fn launch_error_messages() {
    assert_eq!(LaunchError::Io("denied".to_string()).message(), "IO error: denied");
    assert_eq!(LaunchError::Failed("code 2".to_string()).message(), "Failed to launch: code 2");
    assert!(shell_execute_succeeded(33));
    assert!(!shell_execute_succeeded(32));
    assert!(!shell_execute_succeeded(0));
}

#[test]
fn plan_from_given_extension_and_words() {
    assert!(extension_is_exe(Some("eXe")));
    assert!(!extension_is_exe(Some("exe2")));
    assert!(!extension_is_exe(None));
    assert_eq!(
        plan_launch_from("tool", "x y", Some("EXE"), vec!["x".to_string(), "y".to_string()], Platform::Windows, probe(false, false, None)),
        spawn("tool", &["x", "y"], true)
    );
    assert_eq!(
        plan_launch_from("tool", "", None, vec![], Platform::Linux, probe(false, false, None)),
        spawn("tool", &[], false)
    );
}

#[test]
fn arguments_split_at_any_unicode_white_space() {
    assert_eq!(
        plan_launch("/usr/bin/app", "\ta\u{3000}b\u{a0}\u{a0}c\n", Platform::Linux, probe(false, false, None)),
        spawn("/usr/bin/app", &["a", "b", "c"], false)
    );
}

#[test]
fn split_whitespace_gives_the_words() {
    assert_eq!(split_whitespace("  a  bc\td "), vec!["a", "bc", "d"]);
    assert!(split_whitespace(" \u{2003} ").is_empty());
    assert_eq!(split_whitespace("one"), vec!["one"]);
}
