use furukawa::command::CommandOutcome;
use furukawa::wsl::{decode_log, decode_wsl_output, eq_ignore_ascii_case, parse_distros, WslError, WslManager};

fn utf16le(text: &str) -> Vec<u8> {
    let mut out = vec![0xFF, 0xFE];
    for unit in text.encode_utf16() {
        out.extend_from_slice(&unit.to_le_bytes());
    }
    out
}

#[test]
fn output_with_a_mark_is_utf16() {
    assert_eq!(decode_wsl_output(&utf16le("Ubuntu\r\nrustker-alpine\r\n")), "Ubuntu\r\nrustker-alpine\r\n");
    assert_eq!(decode_wsl_output(&utf16le("héllo ✓ 𝄞")), "héllo ✓ 𝄞");
    // a byte that is left over is dropped
    let mut odd = utf16le("ab");
    odd.push(0x41);
    assert_eq!(decode_wsl_output(&odd), "ab");
    assert_eq!(decode_wsl_output(&[0xFF, 0xFE]), "");
    // a lone surrogate becomes the replacement character
    assert_eq!(decode_wsl_output(&[0xFF, 0xFE, 0x00, 0xD8]), "\u{fffd}");
}

#[test]
fn output_without_a_mark_is_utf8_without_nul() {
    assert_eq!(decode_wsl_output(b"U\0b\0u\0n\0t\0u\0"), "Ubuntu");
    assert_eq!(decode_wsl_output("héllo".as_bytes()), "héllo");
    assert_eq!(decode_wsl_output(&[0x61, 0xFF, 0x62]), "a\u{fffd}b");
    assert_eq!(decode_wsl_output(&[0xFF]), "\u{fffd}");
    assert_eq!(decode_wsl_output(b""), "");
    // a log keeps its NUL characters
    assert_eq!(decode_log(b"a\0b"), "a\0b");
    assert_eq!(decode_log(&utf16le("log")), "log");
}

#[test]
fn distros_are_the_lines_that_are_not_blank() {
    assert_eq!(parse_distros(&utf16le("Ubuntu\r\n\r\n  rustker-alpine \r\n")), vec!["Ubuntu", "rustker-alpine"]);
    assert_eq!(parse_distros(b"A\0\n\0B\0"), vec!["A", "B"]);
    assert_eq!(parse_distros(b"\n \n"), Vec::<String>::new());
}

#[test]
fn names_are_compared_without_ascii_case() {
    assert!(eq_ignore_ascii_case("Rustker-Alpine", "rustker-alpine"));
    assert!(eq_ignore_ascii_case("", ""));
    assert!(!eq_ignore_ascii_case("a", "ab"));
    assert!(!eq_ignore_ascii_case("É", "é"));
    assert!(eq_ignore_ascii_case("É", "É"));
    assert!(!eq_ignore_ascii_case("[", "{"));
    assert!(!eq_ignore_ascii_case("@", "`"));
    let m = WslManager::new("rustker-alpine", "C:\\data\\wsl".to_string());
    assert_eq!(m.distro_name, "rustker-alpine");
    assert_eq!(m.install_dir, "C:\\data\\wsl");
    assert!(m.is_installed(&vec!["Ubuntu".to_string(), "RUSTKER-ALPINE".to_string()]));
    assert!(!m.is_installed(&vec!["Ubuntu".to_string()]));
    assert!(!m.is_installed(&vec![]));
}

#[test]
fn setup_commands() {
    let m = WslManager::new("rustker-alpine", "C:\\data\\wsl".to_string());
    let c = m.list_command();
    assert_eq!(c.program, "wsl.exe");
    assert_eq!(c.args, vec!["--list", "--quiet"]);
    let c = m.download_command("C:\\data\\wsl\\alpine-rootfs.tar.gz");
    assert_eq!(c.program, "curl");
    assert_eq!(
        c.args,
        vec![
            "-L",
            "-o",
            "C:\\data\\wsl\\alpine-rootfs.tar.gz",
            "https://dl-cdn.alpinelinux.org/alpine/v3.19/releases/x86_64/alpine-minirootfs-3.19.1-x86_64.tar.gz",
        ]
    );
    let c = m.import_command("C:\\data\\wsl\\rustker-alpine", "C:\\data\\wsl\\alpine-rootfs.tar.gz");
    assert_eq!(c.program, "wsl.exe");
    assert_eq!(
        c.args,
        vec!["--import", "rustker-alpine", "C:\\data\\wsl\\rustker-alpine", "C:\\data\\wsl\\alpine-rootfs.tar.gz", "--version", "2"]
    );
    assert_eq!(WslManager::after_command(CommandOutcome::Succeeded, WslError::DownloadNotStarted, WslError::DownloadFailed), Ok(()));
    assert_eq!(
        WslManager::after_command(CommandOutcome::NotStarted, WslError::DownloadNotStarted, WslError::DownloadFailed),
        Err(WslError::DownloadNotStarted)
    );
    assert_eq!(
        WslManager::after_command(CommandOutcome::Failed, WslError::ImportNotStarted, WslError::ImportFailed),
        Err(WslError::ImportFailed)
    );
    assert_eq!(WslManager::wsl_path_from(" /mnt/c/x \n"), Ok("/mnt/c/x".to_string()));
    assert_eq!(WslManager::wsl_path_from(" \n"), Err(WslError::EmptyPath));
    assert_eq!(WslError::EmptyPath.message("d", "C:\\x"), "wslpath returned empty path for 'C:\\x'");
    assert_eq!(WslError::ImportFailed.message("d", ""), "wsl.exe --import failed for distro 'd'");
    assert_eq!(WslError::DownloadFailed.message("d", ""), "curl failed to download Alpine rootfs");
}
