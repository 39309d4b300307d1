//! The managed WSL distribution: what is installed, and how the distro of
//! the engine is set up where it is missing.

use crate::command::{wsl_command, CommandOutcome, CommandView, HostCommand};
use crate::text::{
    concat3, from_chars, owned, string_views, to_chars, trim, trimmed, views,
};
use crate::words::{lines, lines_of};
use vstd::prelude::*;

verus! {

/// The text that `String::from_utf16_lossy` makes of a list of UTF-16 code
/// units.
pub uninterp spec fn utf16_lossy(units: Seq<u16>) -> Seq<char>;

/// The text that `String::from_utf8_lossy` makes of a list of bytes.
pub uninterp spec fn utf8_lossy(bytes: Seq<u8>) -> Seq<char>;

/// `String::from_utf16_lossy` decodes UTF-16 and puts the replacement
/// character for what is not valid; the result is a function of the code
/// units alone.
pub assume_specification[ String::from_utf16_lossy ](v: &[u16]) -> (out: String)
    ensures
        out@ == utf16_lossy(v@),
;

/// `String::from_utf8_lossy` decodes UTF-8 and puts the replacement
/// character for what is not valid; the result is a function of the bytes
/// alone.
#[verifier::external_body]
fn lossy_utf8(bytes: &[u8]) -> (out: String)
    ensures
        out@ == utf8_lossy(bytes@),
{
    String::from_utf8_lossy(bytes).into_owned()
}

/// Whether `raw` begins with the byte order mark of UTF-16 in little
/// endian, `FF FE`.
pub open spec fn has_utf16_mark(raw: Seq<u8>) -> bool {
    raw.len() >= 2 && raw[0] == 0xFF && raw[1] == 0xFE
}

/// The code units that the bytes stand for in little endian: each two
/// bytes make one; a byte that is left over is dropped.
pub open spec fn units_of(bytes: Seq<u8>) -> Seq<u16> {
    Seq::new(
        (bytes.len() / 2) as nat,
        |i: int| (bytes[2 * i] as int + 256 * (bytes[2 * i + 1] as int)) as u16,
    )
}

/// `s` without its NUL characters.
pub open spec fn without_nul(s: Seq<char>) -> Seq<char>
    decreases s.len(),
{
    if s.len() == 0 {
        Seq::empty()
    } else if s.last() == '\0' {
        without_nul(s.drop_last())
    } else {
        without_nul(s.drop_last()).push(s.last())
    }
}

/// The text of what `wsl.exe` printed: UTF-16 in little endian where it
/// begins with the byte order mark; else UTF-8 without the NUL characters.
pub open spec fn decoded(raw: Seq<u8>) -> Seq<char> {
    if has_utf16_mark(raw) {
        utf16_lossy(units_of(raw.skip(2)))
    } else {
        without_nul(utf8_lossy(raw))
    }
}

/// Decodes what `wsl.exe` printed.
pub fn decode_wsl_output(raw: &[u8]) -> (out: String)
    ensures
        out@ == decoded(raw@),
{
    if raw.len() >= 2 && raw[0] == 0xFF && raw[1] == 0xFE {
        let n = (raw.len() - 2) / 2;
        let mut wide: Vec<u16> = Vec::new();
        let mut i: usize = 0;
        while i < n
            invariant
                i <= n,
                n == (raw.len() - 2) / 2,
                raw.len() >= 2,
                wide.len() == i,
                forall|j: int| 0 <= j < i ==> wide[j] == units_of(raw@.skip(2))[j],
            decreases n - i,
        {
            let low = raw[2 + 2 * i];
            let high = raw[2 + 2 * i + 1];
            let unit: u16 = low as u16 + 256 * (high as u16);
            proof {
                assert(raw@.skip(2)[2 * i] == low);
                assert(raw@.skip(2)[2 * i + 1] == high);
            }
            wide.push(unit);
            i += 1;
        }
        proof {
            assert(wide@ =~= units_of(raw@.skip(2)));
        }
        String::from_utf16_lossy(wide.as_slice())
    } else {
        let text = to_chars(lossy_utf8(raw).as_str());
        let mut out: Vec<char> = Vec::new();
        let mut i: usize = 0;
        proof {
            assert(text@.take(0) =~= Seq::<char>::empty());
        }
        while i < text.len()
            invariant
                i <= text.len(),
                out@ == without_nul(text@.take(i as int)),
            decreases text.len() - i,
        {
            proof {
                assert(text@.take(i + 1).drop_last() =~= text@.take(i as int));
                assert(text@.take(i + 1).last() == text[i as int]);
            }
            if text[i] != '\0' {
                out.push(text[i]);
            }
            i += 1;
        }
        proof {
            assert(text@.take(text.len() as int) =~= text@);
        }
        from_chars(&out)
    }
}

/// The text of a log file: UTF-16 in little endian where it begins with the
/// byte order mark; else UTF-8.
pub open spec fn log_text(raw: Seq<u8>) -> Seq<char> {
    if has_utf16_mark(raw) {
        utf16_lossy(units_of(raw.skip(2)))
    } else {
        utf8_lossy(raw)
    }
}

/// Decodes the content of a log file.
pub fn decode_log(raw: &[u8]) -> (out: String)
    ensures
        out@ == log_text(raw@),
{
    if raw.len() >= 2 && raw[0] == 0xFF && raw[1] == 0xFE {
        decode_wsl_output(raw)
    } else {
        lossy_utf8(raw)
    }
}

/// The names among the first `n` lines: each line trimmed, without the
/// lines that are then empty.
pub open spec fn names_upto(all: Seq<Seq<char>>, n: int) -> Seq<Seq<char>>
    decreases n,
{
    if n <= 0 {
        Seq::empty()
    } else if trimmed(all[n - 1]).len() == 0 {
        names_upto(all, n - 1)
    } else {
        names_upto(all, n - 1).push(trimmed(all[n - 1]))
    }
}

/// The distributions that `wsl.exe --list --quiet` names in `text`: one on
/// each line that is not blank.
pub open spec fn distros_in(text: Seq<char>) -> Seq<Seq<char>> {
    names_upto(lines_of(text), lines_of(text).len() as int)
}

/// The distributions that `wsl.exe --list --quiet` printed.
pub fn parse_distros(raw: &[u8]) -> (out: Vec<String>)
    ensures
        string_views(out@) == distros_in(decoded(raw@)),
{
    let text = decode_wsl_output(raw);
    let all = lines(&to_chars(text.as_str()));
    let mut out: Vec<String> = Vec::new();
    let mut i: usize = 0;
    proof {
        assert(string_views(out@) =~= Seq::<Seq<char>>::empty());
    }
    while i < all.len()
        invariant
            i <= all.len(),
            string_views(out@) == names_upto(views(all@), i as int),
        decreases all.len() - i,
    {
        let ghost before = string_views(out@);
        let name = trim(&all[i]);
        proof {
            assert(views(all@)[i as int] == all[i as int]@);
        }
        if name.len() > 0 {
            let text = from_chars(&name);
            out.push(text);
            proof {
                assert(string_views(out@) =~= before.push(name@));
            }
        }
        i += 1;
    }
    out
}

/// `c` in lower case, where it is an ASCII letter in upper case; else `c`.
pub open spec fn ascii_lower(c: char) -> char {
    if 'A' <= c <= 'Z' {
        ((c as u8 + 32) as u8) as char
    } else {
        c
    }
}

/// Whether two texts are equal but for the case of their ASCII letters.
pub open spec fn same_but_for_case(a: Seq<char>, b: Seq<char>) -> bool {
    a.len() == b.len() && forall|i: int|
        0 <= i < a.len() ==> ascii_lower(#[trigger] a[i]) == ascii_lower(b[i])
}

/// Whether a distribution named `name`, but for the case of ASCII letters,
/// is among `distros`.
pub open spec fn is_installed(distros: Seq<Seq<char>>, name: Seq<char>) -> bool {
    exists|i: int| 0 <= i < distros.len() && same_but_for_case(#[trigger] distros[i], name)
}

fn lower(c: char) -> (out: char)
    ensures
        out == ascii_lower(c),
{
    if 'A' <= c && c <= 'Z' {
        ((c as u8) + 32) as char
    } else {
        c
    }
}

/// Whether two texts are equal but for the case of their ASCII letters.
pub fn eq_ignore_ascii_case(a: &str, b: &str) -> (r: bool)
    ensures
        r == same_but_for_case(a@, b@),
{
    let x = to_chars(a);
    let y = to_chars(b);
    if x.len() != y.len() {
        return false;
    }
    let mut i: usize = 0;
    while i < x.len()
        invariant
            i <= x.len(),
            x.len() == y.len(),
            x@ == a@,
            y@ == b@,
            forall|j: int| 0 <= j < i ==> ascii_lower(#[trigger] x[j]) == ascii_lower(y[j]),
        decreases x.len() - i,
    {
        if lower(x[i]) != lower(y[i]) {
            return false;
        }
        i += 1;
    }
    true
}

/// Where the managed distribution is kept, and what it is called.
#[derive(Debug, Clone)]
pub struct WslManager {
    /// The name of the managed distribution.
    pub distro_name: String,
    /// The host directory below which the distribution is installed.
    pub install_dir: String,
}

/// Why the managed distribution cannot be set up or used.
#[derive(Debug, Clone, Copy, PartialEq, Eq, Structural)]
pub enum WslError {
    /// `wsl.exe --list` could not be run.
    ListNotStarted,
    /// The directory of the distribution could not be created.
    DirectoryFailed,
    /// `curl` could not be run.
    DownloadNotStarted,
    /// `curl` reported failure.
    DownloadFailed,
    /// `wsl.exe --import` could not be run.
    ImportNotStarted,
    /// `wsl.exe --import` reported failure.
    ImportFailed,
    /// `wslpath` could not be run.
    PathNotStarted,
    /// `wslpath` printed nothing.
    EmptyPath,
}

/// The address of the root filesystem of Alpine Linux that is imported.
pub open spec fn alpine_url() -> Seq<char> {
    "https://dl-cdn.alpinelinux.org/alpine/v3.19/releases/x86_64/alpine-minirootfs-3.19.1-x86_64.tar.gz"@
}

/// The name of the file that the root filesystem is downloaded to.
pub open spec fn tarball_name() -> Seq<char> {
    "alpine-rootfs.tar.gz"@
}

/// `wsl.exe --list --quiet`.
pub open spec fn list_command() -> CommandView {
    wsl_command(seq!["--list"@, "--quiet"@])
}

/// `curl -L -o <tarball> <url>`.
pub open spec fn download_command_of(tarball: Seq<char>) -> CommandView {
    CommandView { program: "curl"@, args: seq!["-L"@, "-o"@, tarball, alpine_url()] }
}

/// `wsl.exe --import <name> <directory> <tarball> --version 2`.
pub open spec fn import_command_of(name: Seq<char>, directory: Seq<char>, tarball: Seq<char>)
    -> CommandView {
    wsl_command(seq!["--import"@, name, directory, tarball, "--version"@, "2"@])
}

impl WslManager {
    /// The manager of the distribution `distro_name` below `install_dir`.
    pub fn new(distro_name: &str, install_dir: String) -> (out: WslManager)
        ensures
            out.distro_name@ == distro_name@,
            out.install_dir == install_dir,
    {
        WslManager { distro_name: owned(distro_name), install_dir }
    }

    /// The command that lists the installed distributions.
    pub fn list_command(&self) -> (out: HostCommand)
        ensures
            out@ == list_command(),
    {
        let mut args: Vec<String> = Vec::new();
        args.push(owned("--list"));
        args.push(owned("--quiet"));
        proof {
            assert(string_views(args@) =~= seq!["--list"@, "--quiet"@]);
        }
        HostCommand { program: owned("wsl.exe"), args }
    }

    /// Whether the managed distribution is among `distros`.
    pub fn is_installed(&self, distros: &Vec<String>) -> (r: bool)
        ensures
            r == is_installed(string_views(distros@), self.distro_name@),
    {
        let mut i: usize = 0;
        while i < distros.len()
            invariant
                i <= distros.len(),
                forall|j: int|
                    0 <= j < i ==> !same_but_for_case(
                        #[trigger] string_views(distros@)[j],
                        self.distro_name@,
                    ),
            decreases distros.len() - i,
        {
            if eq_ignore_ascii_case(distros[i].as_str(), self.distro_name.as_str()) {
                proof {
                    assert(same_but_for_case(string_views(distros@)[i as int], self.distro_name@));
                }
                return true;
            }
            i += 1;
        }
        false
    }

    /// The command that downloads the root filesystem to `tarball`, the
    /// path of the file `alpine-rootfs.tar.gz` in the install directory as
    /// the host writes it.
    pub fn download_command(&self, tarball: &str) -> (out: HostCommand)
        ensures
            out@ == download_command_of(tarball@),
    {
        let mut args: Vec<String> = Vec::new();
        args.push(owned("-L"));
        args.push(owned("-o"));
        args.push(owned(tarball));
        args.push(
            owned(
                "https://dl-cdn.alpinelinux.org/alpine/v3.19/releases/x86_64/alpine-minirootfs-3.19.1-x86_64.tar.gz",
            ),
        );
        proof {
            assert(string_views(args@) =~= seq!["-L"@, "-o"@, tarball@, alpine_url()]);
        }
        HostCommand { program: owned("curl"), args }
    }

    /// The command that imports `tarball` as the managed distribution into
    /// `directory`, both as the host writes them.
    pub fn import_command(&self, directory: &str, tarball: &str) -> (out: HostCommand)
        ensures
            out@ == import_command_of(self.distro_name@, directory@, tarball@),
    {
        let mut args: Vec<String> = Vec::new();
        args.push(owned("--import"));
        args.push(self.distro_name.clone());
        args.push(owned(directory));
        args.push(owned(tarball));
        args.push(owned("--version"));
        args.push(owned("2"));
        proof {
            assert(string_views(args@) =~= seq![
                "--import"@,
                self.distro_name@,
                directory@,
                tarball@,
                "--version"@,
                "2"@,
            ]);
        }
        HostCommand { program: owned("wsl.exe"), args }
    }

    /// What a command of the setup comes to: nothing where it succeeded,
    /// else the error for a command that could not be run or that failed.
    pub fn after_command(
        outcome: CommandOutcome,
        not_started: WslError,
        failed: WslError,
    ) -> (r: Result<(), WslError>)
        ensures
            r == match outcome {
                CommandOutcome::Succeeded => Ok::<(), WslError>(()),
                CommandOutcome::NotStarted => Err::<(), WslError>(not_started),
                CommandOutcome::Failed => Err::<(), WslError>(failed),
            },
    {
        match outcome {
            CommandOutcome::Succeeded => Ok(()),
            CommandOutcome::NotStarted => Err(not_started),
            CommandOutcome::Failed => Err(failed),
        }
    }

    /// The guest's name of a Windows path, from what `wslpath` printed:
    /// the output, trimmed; an error where that is empty.
    pub fn wsl_path_from(output: &str) -> (r: Result<String, WslError>)
        ensures
            match r {
                Ok(path) => path@ == trimmed(output@) && path@.len() > 0,
                Err(e) => e == WslError::EmptyPath && trimmed(output@).len() == 0,
            },
    {
        let t = trim(&to_chars(output));
        if t.len() == 0 {
            Err(WslError::EmptyPath)
        } else {
            Ok(from_chars(&t))
        }
    }
}

impl WslError {
    /// The message of this error, for the distribution `distro` and the
    /// path `path` that was asked for.
    pub fn message(&self, distro: &str, path: &str) -> (out: String)
        ensures
            out@ == match *self {
                WslError::ListNotStarted => "Failed to run wsl.exe --list"@,
                WslError::DirectoryFailed => "Failed to create distro install directory"@,
                WslError::DownloadNotStarted => "Failed to run curl to download Alpine rootfs"@,
                WslError::DownloadFailed => "curl failed to download Alpine rootfs"@,
                WslError::ImportNotStarted => "Failed to run wsl.exe --import"@,
                WslError::ImportFailed => "wsl.exe --import failed for distro '"@ + distro@
                    + "'"@,
                WslError::PathNotStarted => "Failed to run wslpath"@,
                WslError::EmptyPath => "wslpath returned empty path for '"@ + path@ + "'"@,
            },
    {
        match self {
            WslError::ListNotStarted => owned("Failed to run wsl.exe --list"),
            WslError::DirectoryFailed => owned("Failed to create distro install directory"),
            WslError::DownloadNotStarted => owned("Failed to run curl to download Alpine rootfs"),
            WslError::DownloadFailed => owned("curl failed to download Alpine rootfs"),
            WslError::ImportNotStarted => owned("Failed to run wsl.exe --import"),
            WslError::ImportFailed => concat3("wsl.exe --import failed for distro '", distro, "'"),
            WslError::PathNotStarted => owned("Failed to run wslpath"),
            WslError::EmptyPath => concat3("wslpath returned empty path for '", path, "'"),
        }
    }
}

} // verus!
