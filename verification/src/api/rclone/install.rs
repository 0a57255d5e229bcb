//! Fetching the rclone binary where none is installed.

use vstd::prelude::*;
use crate::text::{ends_with, extend_str, from_chars, has_suffix, str_eq, texts};

verus! {

/// The release of rclone that is fetched.
pub const DOWNLOAD_RCLONE_VER: &'static str = "1.72.1";

/// What is reported when the archive holds no rclone binary.
pub const BINARY_NOT_FOUND: &'static str = "Binary not found in zip";

/// The file name of the rclone binary: with `.exe` on Windows.
pub fn get_rclone_binary_name(windows: bool) -> (name: &'static str)
    ensures
        name@ == if windows {
            "rclone.exe"@
        } else {
            "rclone"@
        },
{
    if windows {
        "rclone.exe"
    } else {
        "rclone"
    }
}

/// How rclone's download site names the platform that Rust calls `os` and
/// `arch`: the system, then the processor. `None` for a platform that rclone
/// is not fetched for.
pub open spec fn release_platform(os: Seq<char>, arch: Seq<char>) -> Option<
    (Seq<char>, Seq<char>),
> {
    if os == "windows"@ && arch == "x86_64"@ {
        Some(("windows"@, "amd64"@))
    } else if os == "windows"@ && arch == "x86"@ {
        Some(("windows"@, "386"@))
    } else if os == "linux"@ && arch == "x86_64"@ {
        Some(("linux"@, "amd64"@))
    } else if os == "linux"@ && arch == "aarch64"@ {
        Some(("linux"@, "arm64"@))
    } else if os == "macos"@ && arch == "x86_64"@ {
        Some(("osx"@, "amd64"@))
    } else if os == "macos"@ && arch == "aarch64"@ {
        Some(("osx"@, "arm64"@))
    } else {
        None
    }
}

/// The address of the archive of the fetched release for a platform.
pub open spec fn release_url(platform: (Seq<char>, Seq<char>)) -> Seq<char> {
    "https://downloads.rclone.org/v"@ + DOWNLOAD_RCLONE_VER@ + "/rclone-v"@
        + DOWNLOAD_RCLONE_VER@ + "-"@ + platform.0 + "-"@ + platform.1 + ".zip"@
}

/// The address to fetch rclone from on the platform that Rust calls `os` and
/// `arch`, or the complaint that the platform is not supported.
pub fn download_url(os: &str, arch: &str) -> (r: Result<String, String>)
    ensures
        match release_platform(os@, arch@) {
            Some(platform) => r matches Ok(url) && url@ == release_url(platform),
            None => r matches Err(m) && m@ == "Unsupported system: "@ + os@ + " "@ + arch@,
        },
{
    let platform: Option<(&'static str, &'static str)> = if str_eq(os, "windows") && str_eq(
        arch,
        "x86_64",
    ) {
        Some(("windows", "amd64"))
    } else if str_eq(os, "windows") && str_eq(arch, "x86") {
        Some(("windows", "386"))
    } else if str_eq(os, "linux") && str_eq(arch, "x86_64") {
        Some(("linux", "amd64"))
    } else if str_eq(os, "linux") && str_eq(arch, "aarch64") {
        Some(("linux", "arm64"))
    } else if str_eq(os, "macos") && str_eq(arch, "x86_64") {
        Some(("osx", "amd64"))
    } else if str_eq(os, "macos") && str_eq(arch, "aarch64") {
        Some(("osx", "arm64"))
    } else {
        None
    };
    let mut out: Vec<char> = Vec::new();
    match platform {
        Some((system, processor)) => {
            extend_str(&mut out, "https://downloads.rclone.org/v");
            extend_str(&mut out, DOWNLOAD_RCLONE_VER);
            extend_str(&mut out, "/rclone-v");
            extend_str(&mut out, DOWNLOAD_RCLONE_VER);
            extend_str(&mut out, "-");
            extend_str(&mut out, system);
            extend_str(&mut out, "-");
            extend_str(&mut out, processor);
            extend_str(&mut out, ".zip");
            assert(out@ =~= release_url((system@, processor@)));
            Ok(from_chars(&out))
        },
        None => {
            extend_str(&mut out, "Unsupported system: ");
            extend_str(&mut out, os);
            extend_str(&mut out, " ");
            extend_str(&mut out, arch);
            assert(out@ =~= "Unsupported system: "@ + os@ + " "@ + arch@);
            Err(from_chars(&out))
        },
    }
}

/// The name of the file that the archive is kept in while it is unpacked.
pub fn temp_archive_name() -> (name: String)
    ensures
        name@ == "rclone_temp_"@ + DOWNLOAD_RCLONE_VER@ + ".zip"@,
{
    let mut out: Vec<char> = Vec::new();
    extend_str(&mut out, "rclone_temp_");
    extend_str(&mut out, DOWNLOAD_RCLONE_VER);
    extend_str(&mut out, ".zip");
    assert(out@ =~= "rclone_temp_"@ + DOWNLOAD_RCLONE_VER@ + ".zip"@);
    from_chars(&out)
}

/// `at` is the first entry of `names` that ends with `binary_name`.
pub open spec fn is_binary_entry(names: Seq<Seq<char>>, binary_name: Seq<char>, at: int) -> bool {
    &&& 0 <= at < names.len()
    &&& has_suffix(names[at], binary_name)
    &&& forall|j: int| 0 <= j < at ==> !has_suffix(#[trigger] names[j], binary_name)
}

/// The position in the archive of the rclone binary: the first entry whose
/// name ends with the binary's file name.
pub fn find_binary_entry(names: &Vec<String>, binary_name: &str) -> (r: Option<usize>)
    ensures
        match r {
            Some(at) => is_binary_entry(texts(names@), binary_name@, at as int),
            None => forall|j: int|
                0 <= j < names@.len() ==> !has_suffix(#[trigger] texts(names@)[j], binary_name@),
        },
{
    let mut i: usize = 0;
    while i < names.len()
        invariant
            i <= names@.len(),
            forall|j: int| 0 <= j < i ==> !has_suffix(#[trigger] texts(names@)[j], binary_name@),
        decreases names.len() - i,
    {
        if ends_with(names[i].as_str(), binary_name) {
            assert(texts(names@)[i as int] == names@[i as int]@);
            return Some(i);
        }
        assert(texts(names@)[i as int] == names@[i as int]@);
        i += 1;
    }
    None
}

} // verus!
