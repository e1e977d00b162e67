//! Where the Codex executable is.

use vstd::prelude::*;

use std::path::PathBuf;

use crate::error::LaunchError;
use crate::text::{lines, lines_of, text_of_utf8, texts, trim, trimmed, utf8_lossy};

verus! {

/// A file that may be the executable.
#[derive(Debug, PartialEq, Eq)]
pub struct ExeCandidate {
    /// Where it is.
    pub path: PathBuf,
    /// The path as it is displayed.
    pub display: String,
    /// A file is there.
    pub is_file: bool,
}

/// What is known of the executable.
#[derive(Debug, PartialEq, Eq)]
pub enum Resolution {
    /// This is it.
    Found(PathBuf),
    /// It is not there.
    Failed(LaunchError),
    /// None was asked for: it is that of the installed package.
    UseDefault,
}

/// The first line that is more than white space, without the white space around it.
pub open spec fn first_nonblank(list: Seq<Seq<char>>) -> Option<Seq<char>>
    decreases list.len(),
{
    if list.len() == 0 {
        None
    } else if trimmed(list[0]).len() > 0 {
        Some(trimmed(list[0]))
    } else {
        first_nonblank(list.skip(1))
    }
}

/// The directory that the answer of the package query names.
pub open spec fn named_location(listing: Seq<char>) -> Option<Seq<char>> {
    first_nonblank(lines(listing))
}

/// Says what the executable is, where one was asked for: it must be a file.
pub fn resolve_codex_exe(explicit: Option<ExeCandidate>) -> (resolution: Resolution)
    ensures
        explicit is None ==> resolution == Resolution::UseDefault,
        explicit matches Some(exe) ==> {
            &&& exe.is_file ==> resolution == Resolution::Found(exe.path)
            &&& !exe.is_file ==> (resolution matches Resolution::Failed(
                LaunchError::ExeMissing { path },
            ) && path@ == exe.display@)
        },
{
    match explicit {
        Some(exe) => {
            if exe.is_file {
                return Resolution::Found(exe.path);
            }
            Resolution::Failed(LaunchError::ExeMissing { path: exe.display })
        },
        None => Resolution::UseDefault,
    }
}

/// Says what the executable of the installed package is: it must be a file. No candidate stands
/// for a system on which the package cannot be looked for.
pub fn default_codex_exe_path(candidate: Option<ExeCandidate>) -> (path: Result<
    PathBuf,
    LaunchError,
>)
    ensures
        candidate is None ==> path == Err::<PathBuf, LaunchError>(
            LaunchError::DiscoveryUnsupported,
        ),
        candidate matches Some(exe) ==> {
            &&& exe.is_file ==> path == Ok::<PathBuf, LaunchError>(exe.path)
            &&& !exe.is_file ==> (path matches Err(LaunchError::DefaultExeMissing { path: told })
                && told@ == exe.display@)
        },
{
    match candidate {
        Some(exe) => {
            if !exe.is_file {
                return Err(LaunchError::DefaultExeMissing { path: exe.display });
            }
            Ok(exe.path)
        },
        None => Err(LaunchError::DiscoveryUnsupported),
    }
}

/// Where the executable is below the directory of the installed package.
pub fn package_exe_components() -> (components: [&'static str; 2])
    ensures
        components@.map_values(|part: &'static str| part@) == seq!["app"@, "Codex.exe"@],
{
    ["app", "Codex.exe"]
}

/// The arguments that make PowerShell run a script and nothing else.
pub fn powershell_args(script: &str) -> (args: Vec<String>)
    ensures
        texts(args@) == seq![
            "-NoProfile"@,
            "-NonInteractive"@,
            "-ExecutionPolicy"@,
            "Bypass"@,
            "-Command"@,
            script@,
        ],
{
    let mut args: Vec<String> = Vec::new();
    args.push("-NoProfile".to_string());
    args.push("-NonInteractive".to_string());
    args.push("-ExecutionPolicy".to_string());
    args.push("Bypass".to_string());
    args.push("-Command".to_string());
    args.push(script.to_string());
    args
}

/// The PowerShell script that prints where the newest version of a package is installed.
pub fn package_query_script(package_name: &str) -> (script: String)
    ensures
        script@ == "$pkg = Get-AppxPackage -Name '"@ + package_name@
            + "' | Sort-Object Version -Descending | Select-Object -First 1; if ($null -eq $pkg) { exit 2 }; Write-Output $pkg.InstallLocation"@,
{
    let mut script = "$pkg = Get-AppxPackage -Name '".to_string();
    script.append(package_name);
    script.append(
        "' | Sort-Object Version -Descending | Select-Object -First 1; if ($null -eq $pkg) { exit 2 }; Write-Output $pkg.InstallLocation",
    );
    script
}

/// The directory that the answer of the package query names.
pub fn install_location(listing: &str) -> (location: Option<String>)
    ensures
        match location {
            Some(text) => named_location(listing@) == Some(text@),
            None => named_location(listing@) is None,
        },
{
    let all = lines_of(listing);
    let ghost list = texts(all@);
    let mut i: usize = 0;
    assert(list.skip(0) == list);
    while i < all.len()
        invariant
            i <= all@.len(),
            list == texts(all@),
            list == lines(listing@),
            named_location(listing@) == first_nonblank(list.skip(i as int)),
        decreases all@.len() - i,
    {
        assert(list.skip(i as int)[0] == all@[i as int]@);
        let line = trim(all[i].as_str());
        if !line.as_str().is_empty() {
            return Some(line);
        }
        assert(list.skip(i as int).skip(1) == list.skip(i + 1));
        i = i + 1;
    }
    None
}

/// Where a package is installed, once the package query ended: what it printed, or how it failed.
pub fn find_appx_install_location(
    package_name: &str,
    success: bool,
    stdout: &[u8],
    stderr: &[u8],
) -> (location: Result<String, LaunchError>)
    ensures
        !success ==> (location matches Err(
            LaunchError::PackageQueryFailed { package_name: name, stderr: told },
        ) && name@ == package_name@ && told@ == utf8_lossy(stderr@) && (vstd::utf8::valid_utf8(
            stderr@,
        ) ==> told@ == vstd::utf8::decode_utf8(stderr@))),
        success ==> match location {
            Ok(text) => named_location(utf8_lossy(stdout@)) == Some(text@),
            Err(error) => {
                &&& named_location(utf8_lossy(stdout@)) is None
                &&& error == LaunchError::EmptyInstallLocation
            },
        },
        success && vstd::utf8::valid_utf8(stdout@) ==> match location {
            Ok(text) => named_location(vstd::utf8::decode_utf8(stdout@)) == Some(text@),
            Err(error) => named_location(vstd::utf8::decode_utf8(stdout@)) is None,
        },
{
    if !success {
        return Err(
            LaunchError::PackageQueryFailed {
                package_name: package_name.to_string(),
                stderr: text_of_utf8(stderr),
            },
        );
    }
    let listing = text_of_utf8(stdout);
    match install_location(listing.as_str()) {
        Some(location) => Ok(location),
        None => Err(LaunchError::EmptyInstallLocation),
    }
}

} // verus!
