use unofficial_neuro_kar_manager::api::rclone::install::{
    download_url, find_binary_entry, get_rclone_binary_name, temp_archive_name,
};
use unofficial_neuro_kar_manager::api::rclone::server::{
    rcd_args, ServerWait, WaitGoal, WaitStep, MAX_PROBES, PROBE_INTERVAL_MS, RC_PORT, RC_URL,
};
use unofficial_neuro_kar_manager::sidecar::{SharedChild, SidecarManager};
use unofficial_neuro_kar_manager::order::{not_after, sort_names, stable_order, text_le, SortKey};
use unofficial_neuro_kar_manager::text::{
    joined, contains, ends_with, find, find_char, find_either, is_whitespace, push_decimal,
    rfind_char, str_eq, to_chars, trim, trim_start_matches,
};
use unofficial_neuro_kar_manager::utils::{get_app_data_dir, Environment, Platform};

fn chars(s: &str) -> Vec<char> {
    s.chars().collect()
}

fn text(v: &[char]) -> String {
    v.iter().collect()
}

fn decimal(n: i64) -> String {
    let mut out = Vec::new();
    push_decimal(&mut out, n);
    text(&out)
}

#[test]
fn decimal_text_of_integers() {
    for n in [0i64, 7, 10, 99, 100, 5572, -1, -10, -120, i64::MAX, i64::MIN, i64::MIN + 1] {
        assert_eq!(decimal(n), n.to_string());
    }
    let mut out = chars("n=");
    push_decimal(&mut out, 305);
    assert_eq!(text(&out), "n=305");
}

#[test]
fn searching_text() {
    assert_eq!(to_chars("a\u{e9}\u{1f600}"), vec!['a', '\u{e9}', '\u{1f600}']);
    assert_eq!(find(&chars("abcabc"), &chars("bc")), Some(1));
    assert_eq!(find(&chars("abcabc"), &chars("")), Some(0));
    assert_eq!(find(&chars(""), &chars("")), Some(0));
    assert_eq!(find(&chars("abc"), &chars("abcd")), None);
    assert_eq!(find(&chars("aab"), &chars("ab")), Some(1));
    assert_eq!(find(&chars("\u{e9}\u{e9}x"), &chars("x")), Some(2));
    assert_eq!(find_char(&chars("a{b{"), '{'), Some(1));
    assert_eq!(rfind_char(&chars("a}b}c"), '}'), Some(3));
    assert_eq!(find_char(&chars("abc"), 'x'), None);
    assert_eq!(rfind_char(&chars(""), 'x'), None);
    assert_eq!(find_either(&chars("ab?c/d"), '/', '?'), Some(2));
    assert_eq!(find_either(&chars("abc"), '/', '?'), None);
    assert!(contains("hello world", "o w"));
    assert!(contains("hello", ""));
    assert!(!contains("hello", "world"));
    assert!(ends_with("dir/rclone.exe", "rclone.exe"));
    assert!(ends_with("x", ""));
    assert!(!ends_with("exe", "rclone.exe"));
    assert!(str_eq("a\u{e9}", "a\u{e9}"));
    assert!(!str_eq("a", "ab"));
    assert_eq!(joined("ab", "cd"), "abcd");
}

#[test]
fn trimming_text() {
    assert_eq!(text(&trim(&chars(" \t a b \r\n"))), "a b");
    assert_eq!(text(&trim(&chars("   "))), "");
    assert_eq!(text(&trim(&chars(""))), "");
    assert_eq!(text(&trim(&chars("x"))), "x");
    assert_eq!(text(&trim_start_matches(&chars("///a/b/"), '/')), "a/b/");
    assert_eq!(text(&trim_start_matches(&chars("///"), '/')), "");
    assert_eq!(text(&trim_start_matches(&chars("a/"), '/')), "a/");
}

#[test]
fn white_space_is_what_unicode_says() {
    let mut c = 0u32;
    while c <= 0x3100 {
        if let Some(ch) = char::from_u32(c) {
            assert_eq!(is_whitespace(ch), ch.is_whitespace(), "U+{:04X}", c);
        }
        c += 1;
    }
    assert!(!is_whitespace('\u{feff}'));
    assert!(!is_whitespace('\u{200b}'));
}

#[test]
fn text_order_is_the_order_of_strings() {
    let samples = ["", "a", "b", "ab", "a\u{e9}", "B", "\u{1f600}", "\u{ffff}", "aa", "a "];
    for x in samples {
        for y in samples {
            assert_eq!(text_le(&chars(x), &chars(y)), x <= y, "{:?} <= {:?}", x, y);
        }
    }
}

#[test]
fn keys_are_ranked_before_they_are_read() {
    let a = SortKey { rank: 0, text: chars("zzz") };
    let b = SortKey { rank: 1, text: chars("aaa") };
    let c = SortKey { rank: 1, text: chars("aaa") };
    assert!(not_after(&a, &b));
    assert!(!not_after(&b, &a));
    assert!(not_after(&b, &c) && not_after(&c, &b));
}

#[test]
fn stable_order_of_keys() {
    let keys = vec![
        SortKey { rank: 1, text: chars("b") },
        SortKey { rank: 0, text: chars("z") },
        SortKey { rank: 1, text: chars("a") },
        SortKey { rank: 1, text: chars("b") },
        SortKey { rank: 0, text: chars("z") },
    ];
    assert_eq!(stable_order(&keys), vec![1, 4, 2, 0, 3]);
    assert!(stable_order(&Vec::new()).is_empty());
}

#[test]
fn names_are_sorted() {
    let names: Vec<String> = ["pear", "Apple", "apple", "", "pea"].iter().map(|s| s.to_string()).collect();
    assert_eq!(sort_names(&names), vec!["", "Apple", "apple", "pea", "pear"]);
}

#[test]
fn server_is_started_with_its_log() {
    assert_eq!(
        rcd_args("/data/rclone.log"),
        vec![
            "rcd",
            "--rc-no-auth",
            "--rc-addr=localhost:5572",
            "--log-file",
            "/data/rclone.log",
            "--log-level",
            "INFO"
        ]
    );
    assert_eq!(RC_PORT, 5572);
    assert_eq!(RC_URL, "http://localhost:5572");
    assert_eq!(PROBE_INTERVAL_MS, 500);
}

#[test]
fn wait_ends_when_the_server_answers() {
    let mut wait = ServerWait::new(WaitGoal::Running);
    assert_eq!(wait.on_probe(false), WaitStep::Retry);
    assert_eq!(wait.on_probe(false), WaitStep::Retry);
    assert_eq!(wait.on_probe(true), WaitStep::Done);
}

#[test]
fn wait_is_given_up_after_twenty_probes() {
    let mut wait = ServerWait::new(WaitGoal::Running);
    let mut probes = 0;
    loop {
        probes += 1;
        match wait.on_probe(false) {
            WaitStep::Retry => {}
            WaitStep::TimedOut => break,
            WaitStep::Done => panic!("a server that never answered was found"),
        }
    }
    assert_eq!(probes, 20);
    assert_eq!(MAX_PROBES, 20);
    assert_eq!(wait.timeout_message(), "Timed out waiting for rclone rc server");
    assert_eq!(wait.on_probe(false), WaitStep::TimedOut);
}

#[test]
fn wait_for_shutdown() {
    let mut wait = ServerWait::new(WaitGoal::Stopped);
    assert_eq!(wait.on_probe(true), WaitStep::Retry);
    assert_eq!(wait.on_probe(false), WaitStep::Done);
    let mut stuck = ServerWait::new(WaitGoal::Stopped);
    for _ in 0..19 {
        assert_eq!(stuck.on_probe(true), WaitStep::Retry);
    }
    assert_eq!(stuck.on_probe(true), WaitStep::TimedOut);
    assert_eq!(stuck.timeout_message(), "Timed out waiting for rclone rc server to stop");
}

#[test]
fn binary_name_by_system() {
    assert_eq!(get_rclone_binary_name(true), "rclone.exe");
    assert_eq!(get_rclone_binary_name(false), "rclone");
}

#[test]
fn download_address_by_platform() {
    let cases = [
        ("windows", "x86_64", "windows-amd64"),
        ("windows", "x86", "windows-386"),
        ("linux", "x86_64", "linux-amd64"),
        ("linux", "aarch64", "linux-arm64"),
        ("macos", "x86_64", "osx-amd64"),
        ("macos", "aarch64", "osx-arm64"),
    ];
    for (os, arch, tag) in cases {
        assert_eq!(
            download_url(os, arch),
            Ok(format!("https://downloads.rclone.org/v1.72.1/rclone-v1.72.1-{}.zip", tag))
        );
    }
    assert_eq!(download_url("freebsd", "x86_64"), Err("Unsupported system: freebsd x86_64".to_string()));
    assert_eq!(download_url("linux", "x86"), Err("Unsupported system: linux x86".to_string()));
    assert_eq!(temp_archive_name(), "rclone_temp_1.72.1.zip");
}

#[test]
fn binary_is_the_first_entry_with_its_name() {
    let names: Vec<String> = ["rclone-v1/", "rclone-v1/README.txt", "rclone-v1/rclone", "other/rclone"]
        .iter()
        .map(|s| s.to_string())
        .collect();
    assert_eq!(find_binary_entry(&names, "rclone"), Some(2));
    assert_eq!(find_binary_entry(&names, "rclone.exe"), None);
    assert_eq!(find_binary_entry(&Vec::new(), "rclone"), None);
}

fn env(
    xdg: Option<&str>,
    home: Option<&str>,
    local: Option<&str>,
    profile: Option<&str>,
    exe: Option<&str>,
) -> Environment {
    Environment {
        xdg_data_home: xdg.map(|s| s.to_string()),
        home: home.map(|s| s.to_string()),
        local_app_data: local.map(|s| s.to_string()),
        user_profile: profile.map(|s| s.to_string()),
        executable: exe.map(|s| s.to_string()),
    }
}

#[test]
fn data_directory_on_linux() {
    assert_eq!(
        get_app_data_dir(Platform::Linux, &env(Some("/x/data"), Some("/home/u"), None, None, None)),
        Ok("/x/data/unofficial-neuro-kar-manager".to_string())
    );
    assert_eq!(
        get_app_data_dir(Platform::Linux, &env(None, Some("/home/u"), None, None, None)),
        Ok("/home/u/.local/share/unofficial-neuro-kar-manager".to_string())
    );
    assert_eq!(
        get_app_data_dir(Platform::Linux, &env(None, None, Some("x"), Some("y"), Some("/z/e"))),
        Err("Cannot determine user data directory".to_string())
    );
}

#[test]
fn data_directory_elsewhere() {
    assert_eq!(
        get_app_data_dir(Platform::Windows, &env(None, None, Some("L"), Some("P"), None)),
        Ok("L/unofficial-neuro-kar-manager".to_string())
    );
    assert_eq!(
        get_app_data_dir(Platform::Windows, &env(None, None, None, Some("P"), None)),
        Ok("P/AppData/Local/unofficial-neuro-kar-manager".to_string())
    );
    assert_eq!(
        get_app_data_dir(Platform::Windows, &env(Some("x"), Some("h"), None, None, None)),
        Err("Cannot determine AppData directory".to_string())
    );
    assert_eq!(
        get_app_data_dir(Platform::MacOs, &env(None, Some("/Users/u"), None, None, None)),
        Ok("/Users/u/Library/Application Support/unofficial-neuro-kar-manager".to_string())
    );
    assert_eq!(
        get_app_data_dir(Platform::MacOs, &env(Some("x"), None, None, None, None)),
        Err("Cannot determine home directory".to_string())
    );
    assert_eq!(
        get_app_data_dir(Platform::Other, &env(None, None, None, None, Some("/opt/app/bin"))),
        Ok("/opt/app".to_string())
    );
    assert_eq!(
        get_app_data_dir(Platform::Other, &env(None, None, None, None, Some("/"))),
        Err("Cannot determine executable parent directory".to_string())
    );
    assert_eq!(
        get_app_data_dir(Platform::Other, &env(None, Some("h"), None, None, None)),
        Err("Cannot determine executable path".to_string())
    );
}

#[test]
fn subprocess_is_killed_once() {
    let mut child = SharedChild::new("rclone rcd");
    assert_eq!(child.kill(), Some("rclone rcd"));
    assert_eq!(child.kill(), None);
}

#[test]
fn subprocesses_are_tracked_in_order() {
    let mut manager: SidecarManager<u32> = SidecarManager::default();
    assert!(manager.processes().is_empty());
    manager.add(7);
    manager.add(3);
    manager.add(7);
    assert_eq!(manager.processes(), &vec![7, 3, 7]);
    assert!(SidecarManager::<u8>::new().processes().is_empty());
}
