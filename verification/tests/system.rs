use assistant_backend::system::{find_pretty_name, get_cwd, get_os_info, OsInfo};
use assistant_backend::text::trim;

fn with_std(release_file: &str) -> Option<String> {
    release_file
        .lines()
        .find(|line| line.starts_with("PRETTY_NAME="))
        .and_then(|line| line.split('=').nth(1))
        .map(|name| name.trim_matches('"').to_string())
}

fn some(text: &str) -> Option<String> {
    Some(text.to_string())
}

#[test]
fn the_working_directory_or_unknown() {
    assert_eq!(get_cwd(some("/home/me")), "/home/me");
    assert_eq!(get_cwd(None), "Unknown");
}

#[test]
fn trimming_removes_whitespace_at_both_ends() {
    assert_eq!(trim("  host \n"), "host");
    assert_eq!(trim("host"), "host");
    assert_eq!(trim(" a b "), "a b");
    assert_eq!(trim(""), "");
    assert_eq!(trim(" \t\r\n"), "");
    assert_eq!(trim("\u{a0}x\u{3000}"), "x");
    for text in ["", " ", "x", " x", "x ", "\n x y \t", "\u{2003}\u{85}z\u{2028}"] {
        assert_eq!(trim(text), text.trim());
    }
}

#[test]
fn quotes_around_a_name_are_removed_and_inner_quotes_kept() {
    assert_eq!(find_pretty_name("PRETTY_NAME=\"\"a\"b\"\""), some("a\"b"));
    assert_eq!(find_pretty_name("PRETTY_NAME=\"\""), some(""));
    assert_eq!(find_pretty_name("PRETTY_NAME=plain"), some("plain"));
}

#[test]
fn the_pretty_name_is_read_from_a_release_file() {
    let file = "NAME=\"Ubuntu\"\nVERSION=\"22.04\"\nPRETTY_NAME=\"Ubuntu 22.04.3 LTS\"\nID=ubuntu\n";
    assert_eq!(find_pretty_name(file), some("Ubuntu 22.04.3 LTS"));
}

#[test]
fn the_pretty_name_may_be_missing() {
    assert_eq!(find_pretty_name(""), None);
    assert_eq!(find_pretty_name("NAME=x\nID=y"), None);
    assert_eq!(find_pretty_name(" PRETTY_NAME=x"), None);
    assert_eq!(find_pretty_name("PRETTY_NAME"), None);
}

#[test]
fn the_first_matching_line_counts() {
    assert_eq!(find_pretty_name("PRETTY_NAME=one\nPRETTY_NAME=two\n"), some("one"));
}

#[test]
fn the_name_ends_at_the_next_equals_sign() {
    assert_eq!(find_pretty_name("PRETTY_NAME=\"a=b\""), some("a"));
    assert_eq!(find_pretty_name("PRETTY_NAME=="), some(""));
    assert_eq!(find_pretty_name("PRETTY_NAME="), some(""));
}

#[test]
fn line_endings_do_not_belong_to_the_name() {
    assert_eq!(find_pretty_name("PRETTY_NAME=\"Arch Linux\"\r\nID=arch\r\n"), some("Arch Linux"));
    assert_eq!(find_pretty_name("PRETTY_NAME=x\r"), some("x\r"));
}

#[test]
fn reading_the_pretty_name_agrees_with_the_standard_library() {
    for file in [
        "",
        "\n",
        "\r\n",
        "PRETTY_NAME=\"Debian GNU/Linux 12 (bookworm)\"\nNAME=\"Debian GNU/Linux\"\n",
        "ID=x\n\nPRETTY_NAME=\"\"\"quoted\"\"\"\n",
        "ID=x\r\nPRETTY_NAME=Fedora Linux 40\r\n",
        "PRETTY_NAME=\"unterminated",
        "PRETTY_NAME=\"\"",
        "PRETTY_NAME=\"",
        "XPRETTY_NAME=no\nPRETTY_NAME =no\nPRETTY_NAME=yes",
        "PRETTY_NAME=a=b=c\n",
        "PRETTY_NAME=x\r",
        "PRETTY_NAME=x\r\r\n",
        "A\rPRETTY_NAME=no\nPRETTY_NAME=\u{e9}t\u{e9}\n",
    ] {
        assert_eq!(find_pretty_name(file), with_std(file), "{:?}", file);
    }
}

#[test]
fn a_linux_system_is_described_by_its_release_file() {
    let info = get_os_info(
        "linux",
        some("NAME=Alpine\nPRETTY_NAME=\"Alpine Linux v3.19\"\n"),
        some("box\n"),
    );
    assert_eq!(
        info,
        OsInfo {
            os_type: "linux".to_string(),
            os_release: "Alpine Linux v3.19".to_string(),
            hostname: "box".to_string(),
        }
    );
}

#[test]
fn a_linux_system_without_a_name_is_linux() {
    assert_eq!(get_os_info("linux", some("ID=x\n"), None).os_release, "Linux");
    assert_eq!(get_os_info("linux", some(""), None).os_release, "Linux");
    assert_eq!(get_os_info("linux", None, None).os_release, "Linux");
}

#[test]
fn a_mac_is_described_by_its_version() {
    assert_eq!(get_os_info("macos", some("14.4.1\n"), some(" mac.local \n")).os_release, "14.4.1");
    assert_eq!(get_os_info("macos", some("14.4.1\n"), some(" mac.local \n")).hostname, "mac.local");
    assert_eq!(get_os_info("macos", None, None).os_release, "macOS");
}

#[test]
fn a_windows_system_is_described_by_its_variable() {
    assert_eq!(get_os_info("windows", some("Windows_NT"), None).os_release, "Windows_NT");
    assert_eq!(get_os_info("windows", some(" kept as it is "), None).os_release, " kept as it is ");
    assert_eq!(get_os_info("windows", None, None).os_release, "Windows");
}

#[test]
fn other_systems_are_unknown() {
    let info = get_os_info("freebsd", some("PRETTY_NAME=FreeBSD"), None);
    assert_eq!(info.os_type, "freebsd");
    assert_eq!(info.os_release, "Unknown");
    assert_eq!(info.hostname, "Unknown");
    assert_eq!(get_os_info("Linux", some("PRETTY_NAME=x"), None).os_release, "Unknown");
}
