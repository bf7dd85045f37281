use licker::detect::app;
use licker::detect::hw;
use licker::detect::os::{self, OsInfo};
use licker::detect::pacman::packages;
use licker::detect::ProbeError;
use licker::text::{decode, split_lines};

#[test]
fn lines_of_nothing() {
    assert!(split_lines(b"").is_empty());
}

#[test]
fn lines_end_at_line_feeds() {
    assert_eq!(split_lines(b"a\nbc\n"), vec![&b"a"[..], &b"bc"[..]]);
}

#[test]
fn last_line_needs_no_line_feed() {
    assert_eq!(split_lines(b"a\nbc"), vec![&b"a"[..], &b"bc"[..]]);
}

#[test]
fn empty_lines_are_lines() {
    assert_eq!(split_lines(b"\n\na\n\n"), vec![&b""[..], &b""[..], &b"a"[..], &b""[..]]);
}

#[test]
fn carriage_return_belongs_to_the_terminator() {
    assert_eq!(split_lines(b"a\r\nb\r\n"), vec![&b"a"[..], &b"b"[..]]);
    assert_eq!(split_lines(b"\r\n"), vec![&b""[..]]);
}

#[test]
fn only_one_carriage_return_is_dropped() {
    assert_eq!(split_lines(b"a\r\r\n"), vec![&b"a\r"[..]]);
}

#[test]
fn carriage_return_without_line_feed_stays() {
    assert_eq!(split_lines(b"a\rb\nc\r"), vec![&b"a\rb"[..], &b"c\r"[..]]);
}

#[test]
fn decode_accepts_utf8_only() {
    assert_eq!(decode(b"vim"), Some("vim".to_string()));
    assert_eq!(decode("caf\u{e9}".as_bytes()), Some("caf\u{e9}".to_string()));
    assert_eq!(decode(b""), Some(String::new()));
    assert_eq!(decode(&[0x66, 0xff]), None);
    assert_eq!(decode(&[0xc3]), None);
    assert_eq!(decode(&[0xed, 0xa0, 0x80]), None);
    assert_eq!(decode(&[0xc0, 0x80]), None);
}

#[test]
fn packages_drop_blank_lines_and_keep_order() {
    let output = b"\nzsh\n\n\nacl\nvim\n\ngit\n";
    assert_eq!(packages(output), vec!["zsh", "acl", "vim", "git"]);
}

#[test]
fn packages_of_plain_output() {
    assert_eq!(packages(b"vim\ngit\n"), vec!["vim", "git"]);
}

#[test]
fn packages_of_nothing() {
    assert!(packages(b"").is_empty());
    assert!(packages(b"\n\n\n").is_empty());
}

#[test]
fn packages_are_taken_verbatim() {
    assert_eq!(packages(b" vim \n\tgit\nvim\n"), vec![" vim ", "\tgit", "vim"]);
}

#[test]
fn packages_without_final_line_feed() {
    assert_eq!(packages(b"vim\ngit"), vec!["vim", "git"]);
}

#[test]
fn packages_with_carriage_returns() {
    assert_eq!(packages(b"vim\r\n\r\ngit\r\n"), vec!["vim", "git"]);
}

#[test]
fn packages_stop_at_the_first_line_that_is_not_text() {
    let output = [b"vim\n".as_slice(), &[0xff, 0xfe, 0x0a], b"git\n"].concat();
    assert_eq!(packages(&output), vec!["vim"]);
}

#[test]
fn distro_plain() {
    assert_eq!(os::distro(Some(b"ID=arch\n")), Ok("arch".to_string()));
}

#[test]
fn distro_quoted() {
    assert_eq!(os::distro(Some(b"ID=\"arch\"\n")), Ok("arch".to_string()));
    assert_eq!(os::distro(Some(b"ID='arch'\n")), Ok("arch".to_string()));
}

#[test]
fn distro_in_a_release_file() {
    let content = b"NAME=\"Arch Linux\"\nPRETTY_NAME=\"Arch Linux\"\nID=arch\nBUILD_ID=rolling\n\
                    ANSI_COLOR=\"38;2;23;147;209\"\nHOME_URL=\"https://archlinux.org/\"\n";
    assert_eq!(os::distro(Some(content)), Ok("arch".to_string()));
}

#[test]
fn distro_missing() {
    let content = b"NAME=\"Arch Linux\"\nBUILD_ID=rolling\n";
    assert_eq!(os::distro(Some(content)), Err(ProbeError::NotFound));
    assert_eq!(os::distro(Some(b"")), Err(ProbeError::NotFound));
}

#[test]
fn distro_of_an_unreadable_file() {
    assert_eq!(os::distro(None), Err(ProbeError::NotFound));
}

#[test]
fn distro_key_must_start_the_line() {
    let content = b"VERSION_ID=\"22.04\"\nID_LIKE=debian\n ID=indented\nid=lower\n";
    assert_eq!(os::distro(Some(content)), Err(ProbeError::NotFound));
    let content = b"VERSION_ID=\"22.04\"\nID_LIKE=debian\nID=ubuntu\n";
    assert_eq!(os::distro(Some(content)), Ok("ubuntu".to_string()));
}

#[test]
fn distro_first_match_wins() {
    assert_eq!(os::distro(Some(b"ID=first\nID=second\n")), Ok("first".to_string()));
}

#[test]
fn distro_quotes_come_off_in_pairs_only() {
    assert_eq!(os::distro(Some(b"ID=\"arch\n")), Ok("\"arch".to_string()));
    assert_eq!(os::distro(Some(b"ID=arch\"\n")), Ok("arch\"".to_string()));
    assert_eq!(os::distro(Some(b"ID=\"arch'\n")), Ok("\"arch'".to_string()));
    assert_eq!(os::distro(Some(b"ID=\"\"arch\"\"\n")), Ok("\"arch\"".to_string()));
    assert_eq!(os::distro(Some(b"ID=\"\n")), Ok("\"".to_string()));
    assert_eq!(os::distro(Some(b"ID=\"\"\n")), Ok(String::new()));
}

#[test]
fn distro_empty_value() {
    assert_eq!(os::distro(Some(b"ID=\n")), Ok(String::new()));
    assert_eq!(os::distro(Some(b"ID=")), Ok(String::new()));
}

#[test]
fn distro_on_a_last_line_without_line_feed() {
    assert_eq!(os::distro(Some(b"NAME=x\nID=arch")), Ok("arch".to_string()));
    assert_eq!(os::distro(Some(b"ID=\"arch\"")), Ok("arch".to_string()));
}

#[test]
fn distro_keeps_what_is_not_a_quote() {
    assert_eq!(os::distro(Some(b"ID= arch \n")), Ok(" arch ".to_string()));
    assert_eq!(os::distro(Some(b"ID=a=b\n")), Ok("a=b".to_string()));
    assert_eq!(os::distro(Some("ID=caf\u{e9}\n".as_bytes())), Ok("caf\u{e9}".to_string()));
}

#[test]
fn distro_with_carriage_returns() {
    assert_eq!(os::distro(Some(b"NAME=x\r\nID=\"arch\"\r\n")), Ok("arch".to_string()));
}

#[test]
fn distro_value_that_is_not_text() {
    assert_eq!(os::distro(Some(&[b'I', b'D', b'=', 0xff, b'\n'])), Err(ProbeError::NotFound));
}

#[test]
fn strip_quotes_on_its_own() {
    assert_eq!(os::strip_quotes(b"\"a b\""), b"a b");
    assert_eq!(os::strip_quotes(b"'a b'"), b"a b");
    assert_eq!(os::strip_quotes(b"a b"), b"a b");
    assert_eq!(os::strip_quotes(b""), b"");
    assert_eq!(os::strip_quotes(b"'"), b"'");
}

fn facts(status: i32) -> Result<OsInfo, ProbeError> {
    os::info_from(
        status,
        "Linux".to_string(),
        "6.6.1-arch1-1".to_string(),
        "x86_64".to_string(),
        "Arch Linux".to_string(),
    )
}

#[test]
fn os_info_from_a_successful_call() {
    assert_eq!(
        facts(0),
        Ok(OsInfo {
            os: "Linux".to_string(),
            kernel: "6.6.1-arch1-1".to_string(),
            arch: "x86_64".to_string(),
            distro: "Arch Linux".to_string(),
        })
    );
}

#[test]
fn os_info_from_a_failed_call() {
    assert_eq!(facts(-1), Err(ProbeError::SyscallFailed));
    assert_eq!(facts(1), Err(ProbeError::SyscallFailed));
    assert_eq!(facts(i32::MIN), Err(ProbeError::SyscallFailed));
}

#[test]
fn os_info_asks_the_system() {
    let found = os::info(0, "6.6.1-arch1-1".to_string()).unwrap();
    assert_eq!(found.kernel, "6.6.1-arch1-1");
    assert_eq!(found.os, whoami::platform().to_string());
    assert_eq!(found.arch, whoami::arch().to_string());
    assert_eq!(found.distro, whoami::distro());
    assert!(!found.os.is_empty());
    assert!(!found.arch.is_empty());
}

#[test]
fn os_info_after_a_failed_call() {
    assert_eq!(os::info(-1, String::new()), Err(ProbeError::SyscallFailed));
    assert_eq!(os::info(7, "6.6.1".to_string()), Err(ProbeError::SyscallFailed));
}

#[test]
fn hw_id_from_a_digest() {
    let digest = "9f86d081884c7d659a2feaa0c55ad015a3bf4f1b2b0b822cd15d6c15b0f00a08";
    assert_eq!(hw::id_from(Ok(digest.to_string())), Ok(digest.to_string()));
}

#[test]
fn hw_id_from_a_failure() {
    assert_eq!(
        hw::id_from(Err("FileNotFound: Could not find the files containing the System ID".to_string())),
        Err(ProbeError::Unavailable)
    );
    assert_eq!(hw::id_from(Err(String::new())), Err(ProbeError::Unavailable));
}

#[test]
fn hw_key_is_fixed() {
    assert_eq!(hw::KEY, "licker");
}

#[test]
fn hw_id_is_a_digest_or_unavailable() {
    match hw::id() {
        Ok(digest) => {
            assert_ne!(digest, "licker");
            assert_eq!(digest.len(), 64);
            assert!(digest.chars().all(|c| matches!(c, '0'..='9' | 'a'..='f')));
        }
        Err(error) => assert_eq!(error, ProbeError::Unavailable),
    }
}

#[test]
fn app_info_holds_name_and_version() {
    let info = app::info();
    assert_eq!(info.detect_app, "licker");
    assert_eq!(info.detect_version, "0.1.0");
    assert_eq!(info.detect_app, app::NAME);
    assert_eq!(info.detect_version, app::VERSION);
    assert_eq!(info, app::info());
}
