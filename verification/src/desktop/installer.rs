//! How a downloaded release takes the place of the running program.

use crate::desktop::line::{
    double_quoted, shell_quote_path, shell_quote_path_for_windows, single_quoted,
};
use crate::desktop::settings::Platform;
use crate::paths::{
    extension, extension_of, file_name_of, parent_of, path_text, LocalPath,
};
use crate::text::{
    concat2, concat3, concat4, concat5, decimal, decimal_text, join, joined, same, texts, trim,
    trimmed,
};
use vstd::prelude::*;
use vstd::string::*;

verus! {

/// A file of a release that can be downloaded.
#[derive(Clone, Debug, PartialEq, Eq)]
pub struct UpdateAsset {
    pub name: String,
    pub browser_download_url: String,
}

/// An asset by its texts.
#[verifier::ext_equal]
pub struct AssetView {
    pub name: Seq<char>,
    pub url: Seq<char>,
}

impl View for UpdateAsset {
    type V = AssetView;

    open spec fn view(&self) -> AssetView {
        AssetView { name: self.name@, url: self.browser_download_url@ }
    }
}

pub open spec fn asset_views(assets: Seq<UpdateAsset>) -> Seq<AssetView> {
    Seq::new(assets.len(), |i: int| assets[i]@)
}

impl UpdateAsset {
    pub fn duplicate(&self) -> (r: UpdateAsset)
        ensures
            r@ == self@,
    {
        UpdateAsset {
            name: self.name.clone(),
            browser_download_url: self.browser_download_url.clone(),
        }
    }
}

pub fn copy_assets(assets: &[UpdateAsset]) -> (r: Vec<UpdateAsset>)
    ensures
        asset_views(r@) == asset_views(assets@),
{
    let mut r: Vec<UpdateAsset> = Vec::new();
    let mut i: usize = 0;
    while i < assets.len()
        invariant
            i <= assets.len(),
            r.len() == i,
            forall|j: int| 0 <= j < i ==> (#[trigger] r@[j])@ == assets@[j]@,
        decreases assets.len() - i,
    {
        r.push(assets[i].duplicate());
        i = i + 1;
    }
    assert(asset_views(r@) =~= asset_views(assets@));
    r
}

/// The processors that releases are built for.
#[derive(Clone, Copy, Debug, PartialEq, Eq, Structural)]
pub enum Architecture {
    Arm64,
    X64,
    Other,
}

pub open spec fn asset_name(platform: Platform, architecture: Architecture) -> Option<Seq<char>> {
    match (platform, architecture) {
        (Platform::MacOs, Architecture::Arm64) => Some("hapcli-macos-arm64.zip"@),
        (Platform::Windows, Architecture::X64) => Some("hapcli-windows-x86_64.zip"@),
        _ => None,
    }
}

/// The name of the package for a machine.
pub fn platform_asset_name(platform: Platform, architecture: Architecture) -> (r: Option<
    &'static str,
>)
    ensures
        match r {
            Some(name) => asset_name(platform, architecture) == Some(name@),
            None => asset_name(platform, architecture) is None,
        },
{
    match (platform, architecture) {
        (Platform::MacOs, Architecture::Arm64) => Some("hapcli-macos-arm64.zip"),
        (Platform::Windows, Architecture::X64) => Some("hapcli-windows-x86_64.zip"),
        _ => None,
    }
}

/// The first asset of a name.
pub open spec fn asset_named(assets: Seq<AssetView>, name: Seq<char>) -> Option<AssetView>
    decreases assets.len(),
{
    if assets.len() == 0 {
        None
    } else if assets[0].name == name {
        Some(assets[0])
    } else {
        asset_named(assets.drop_first(), name)
    }
}

/// The package among the assets of a release.
pub open spec fn platform_asset(
    platform: Platform,
    architecture: Architecture,
    assets: Seq<AssetView>,
) -> Option<AssetView> {
    match asset_name(platform, architecture) {
        Some(name) => asset_named(assets, name),
        None => None,
    }
}

pub fn pick_platform_asset(
    platform: Platform,
    architecture: Architecture,
    assets: &[UpdateAsset],
) -> (r: Option<UpdateAsset>)
    ensures
        match r {
            Some(asset) => platform_asset(platform, architecture, asset_views(assets@)) == Some(
                asset@,
            ),
            None => platform_asset(platform, architecture, asset_views(assets@)) is None,
        },
{
    let expected = match platform_asset_name(platform, architecture) {
        Some(expected) => expected,
        None => {
            return None;
        },
    };
    let ghost all = asset_views(assets@);
    let mut i: usize = 0;
    assert(all.skip(0) == all);
    while i < assets.len()
        invariant
            i <= assets.len(),
            all == asset_views(assets@),
            asset_named(all.skip(i as int), expected@) == asset_named(all, expected@),
            asset_name(platform, architecture) == Some(expected@),
        decreases assets.len() - i,
    {
        if same(assets[i].name.as_str(), expected) {
            return Some(assets[i].duplicate());
        }
        assert(all.skip(i as int).drop_first() == all.skip(i + 1));
        i = i + 1;
    }
    None
}

/// What an update takes the place of: a whole bundle, or a single program.
#[derive(Clone, Debug, PartialEq, Eq)]
pub enum InstallTarget {
    AppBundle(LocalPath),
    Executable(LocalPath),
}

pub open spec fn target_path(target: InstallTarget) -> Seq<Seq<char>> {
    match target {
        InstallTarget::AppBundle(path) => path@,
        InstallTarget::Executable(path) => path@,
    }
}

/// The bundle that a program lies in: `….app` where its path goes on with `Contents/MacOS`.
pub open spec fn bundle_root(exe: Seq<Seq<char>>) -> Option<Seq<Seq<char>>> {
    match parent_of(exe) {
        None => None,
        Some(mac_os) => if file_name_of(mac_os) != Some("MacOS"@) {
            None
        } else {
            match parent_of(mac_os) {
                None => None,
                Some(contents) => if file_name_of(contents) != Some("Contents"@) {
                    None
                } else {
                    match parent_of(contents) {
                        None => None,
                        Some(bundle) => if named_app(bundle) {
                            Some(bundle)
                        } else {
                            None
                        },
                    }
                },
            }
        },
    }
}

/// Whether a path ends in a name with the extension `app`.
pub open spec fn named_app(path: Seq<Seq<char>>) -> bool {
    match file_name_of(path) {
        Some(name) => extension_of(name) == Some("app"@),
        None => false,
    }
}

fn has_file_name(path: &LocalPath, name: &str) -> (r: bool)
    ensures
        r == (file_name_of(path@) == Some(name@)),
{
    match path.file_name() {
        Some(found) => same(found, name),
        None => false,
    }
}

fn is_app(path: &LocalPath) -> (r: bool)
    ensures
        r == named_app(path@),
{
    match path.file_name() {
        Some(name) => match extension(name) {
            Some(ext) => same(ext, "app"),
            None => false,
        },
        None => false,
    }
}

pub fn macos_bundle_root(exe: &LocalPath) -> (r: Option<LocalPath>)
    ensures
        match r {
            Some(bundle) => bundle_root(exe@) == Some(bundle@),
            None => bundle_root(exe@) is None,
        },
{
    let mac_os = match exe.parent() {
        Some(path) => path,
        None => {
            return None;
        },
    };
    if !has_file_name(&mac_os, "MacOS") {
        return None;
    }
    let contents = match mac_os.parent() {
        Some(path) => path,
        None => {
            return None;
        },
    };
    if !has_file_name(&contents, "Contents") {
        return None;
    }
    let bundle = match contents.parent() {
        Some(path) => path,
        None => {
            return None;
        },
    };
    if is_app(&bundle) {
        Some(bundle)
    } else {
        None
    }
}

pub fn detect_install_target(exe: &LocalPath) -> (r: InstallTarget)
    ensures
        match bundle_root(exe@) {
            Some(bundle) => r is AppBundle && target_path(r) == bundle,
            None => r is Executable && target_path(r) == exe@,
        },
{
    match macos_bundle_root(exe) {
        Some(bundle) => InstallTarget::AppBundle(bundle),
        None => InstallTarget::Executable(exe.duplicate()),
    }
}

impl InstallTarget {
    /// The directory that has to be writable for the update.
    pub fn directory(&self) -> (r: Option<LocalPath>)
        ensures
            match r {
                Some(path) => parent_of(target_path(*self)) == Some(path@),
                None => parent_of(target_path(*self)) is None,
            },
    {
        match self {
            InstallTarget::AppBundle(path) => path.parent(),
            InstallTarget::Executable(path) => path.parent(),
        }
    }
}

pub open spec fn not_writable() -> Seq<char> {
    "安装目录没有写入权限（例如安装到了 /Applications），请改用下载页手动安装"@
}

/// An update is not begun where its directory is missing or cannot be written to.
pub fn check_install_directory(directory: Option<LocalPath>, writable: bool) -> (r: Result<
    (),
    String,
>)
    ensures
        r is Ok <==> directory is Some && writable,
        r matches Err(message) ==> message@ == not_writable(),
{
    if directory.is_some() && writable {
        Ok(())
    } else {
        Err("安装目录没有写入权限（例如安装到了 /Applications），请改用下载页手动安装".to_string())
    }
}

pub fn staging_name(pid: u32) -> (r: String)
    ensures
        r@ == "hapcli-update-"@ + decimal(pid as nat),
{
    concat2("hapcli-update-", decimal_text(pid as u64).as_str())
}

pub fn write_test_name(pid: u32) -> (r: String)
    ensures
        r@ == ".hapcli-write-test-"@ + decimal(pid as nat),
{
    concat2(".hapcli-write-test-", decimal_text(pid as u64).as_str())
}

pub open spec fn unsupported() -> Seq<char> {
    "当前平台暂不支持自动更新"@
}

/// A program to run, with its arguments.
#[derive(Clone, Debug, PartialEq, Eq)]
pub struct ProgramCall {
    pub program: String,
    pub arguments: Vec<String>,
}

/// The program that unpacks an archive, with its arguments; `None` where there is none.
pub open spec fn unpacking(platform: Platform, archive: Seq<char>, into: Seq<char>) -> Option<
    (Seq<char>, Seq<Seq<char>>),
> {
    match platform {
        Platform::MacOs => Some(("ditto"@, seq!["-x"@, "-k"@, archive, into])),
        Platform::Windows => Some(
            (
                "powershell"@,
                seq![
                    "-NoProfile"@,
                    "-Command"@,
                    "Expand-Archive -LiteralPath '"@ + archive + "' -DestinationPath '"@ + into
                        + "' -Force"@,
                ],
            ),
        ),
        Platform::Other => None,
    }
}

pub fn extract_archive(platform: Platform, archive: &str, into: &str) -> (r: Result<
    ProgramCall,
    String,
>)
    ensures
        match r {
            Ok(call) => unpacking(platform, archive@, into@) == Some(
                (call.program@, texts(call.arguments@)),
            ),
            Err(message) => unpacking(platform, archive@, into@) is None && message@
                == unsupported(),
        },
{
    match platform {
        Platform::MacOs => {
            let arguments = vec![
                "-x".to_string(),
                "-k".to_string(),
                archive.to_string(),
                into.to_string(),
            ];
            assert(texts(arguments@) =~= seq!["-x"@, "-k"@, archive@, into@]);
            Ok(ProgramCall { program: "ditto".to_string(), arguments })
        },
        Platform::Windows => {
            let script = concat5(
                "Expand-Archive -LiteralPath '",
                archive,
                "' -DestinationPath '",
                into,
                "' -Force",
            );
            let ghost line = script@;
            let arguments = vec!["-NoProfile".to_string(), "-Command".to_string(), script];
            assert(texts(arguments@) =~= seq!["-NoProfile"@, "-Command"@, line]);
            Ok(ProgramCall { program: "powershell".to_string(), arguments })
        },
        Platform::Other => Err("当前平台暂不支持自动更新".to_string()),
    }
}

/// What is said of an archive that could not be unpacked.
pub fn extraction_failure(error_output: &str) -> (r: String)
    ensures
        r@ == "解压失败："@ + trimmed(error_output@),
{
    concat2("解压失败：", trim(error_output))
}

/// An entry of the directory that an archive was unpacked into.
#[derive(Clone, Debug, PartialEq, Eq)]
pub struct UnpackedEntry {
    pub name: String,
    pub is_dir: bool,
    /// Whether the program is at its place within a bundle of this name.
    pub holds_program: bool,
}

/// Where the program lies within a bundle.
pub open spec fn program_in(staging: Seq<Seq<char>>, bundle: Seq<char>) -> Seq<Seq<char>> {
    staging + seq![bundle, "Contents"@, "MacOS"@, "hapcli"@]
}

pub open spec fn is_new_bundle(entry: UnpackedEntry) -> bool {
    entry.is_dir && extension_of(entry.name@) == Some("app"@) && entry.holds_program
}

pub open spec fn first_bundle(entries: Seq<UnpackedEntry>) -> Option<Seq<char>>
    decreases entries.len(),
{
    if entries.len() == 0 {
        None
    } else if is_new_bundle(entries[0]) {
        Some(entries[0].name@)
    } else {
        first_bundle(entries.drop_first())
    }
}

/// The new program among what was unpacked, or what is said when it is missing.
pub open spec fn payload_path(
    platform: Platform,
    staging: Seq<Seq<char>>,
    at_its_place: bool,
    entries: Seq<UnpackedEntry>,
) -> Result<Seq<Seq<char>>, Seq<char>> {
    match platform {
        Platform::MacOs => if at_its_place {
            Ok(program_in(staging, "hapcli.app"@))
        } else {
            match first_bundle(entries) {
                Some(name) => Ok(program_in(staging, name)),
                None => Err("解压后未找到 hapcli.app"@),
            }
        },
        Platform::Windows => if at_its_place {
            Ok(staging + seq!["hapcli.exe"@])
        } else {
            Err("解压后未找到 hapcli.exe"@)
        },
        Platform::Other => Err(unsupported()),
    }
}

fn program_path(staging: &LocalPath, bundle: &str) -> (r: LocalPath)
    ensures
        r@ == program_in(staging@, bundle@),
{
    let more = [bundle, "Contents", "MacOS", "hapcli"];
    let r = staging.joined_with(&more);
    assert(r@ =~= program_in(staging@, bundle@));
    r
}

fn find_bundle(entries: &[UnpackedEntry]) -> (r: Option<&str>)
    ensures
        match r {
            Some(name) => first_bundle(entries@) == Some(name@),
            None => first_bundle(entries@) is None,
        },
{
    let mut i: usize = 0;
    assert(entries@.skip(0) == entries@);
    while i < entries.len()
        invariant
            i <= entries.len(),
            first_bundle(entries@.skip(i as int)) == first_bundle(entries@),
        decreases entries.len() - i,
    {
        let entry = &entries[i];
        let named = match extension(entry.name.as_str()) {
            Some(ext) => same(ext, "app"),
            None => false,
        };
        if entry.is_dir && named && entry.holds_program {
            return Some(entry.name.as_str());
        }
        assert(entries@.skip(i as int).drop_first() == entries@.skip(i + 1));
        i = i + 1;
    }
    None
}

/// Finds the new program; an archive may hold its bundle under another name.
pub fn locate_payload(
    platform: Platform,
    staging: &LocalPath,
    at_its_place: bool,
    entries: &[UnpackedEntry],
) -> (r: Result<LocalPath, String>)
    ensures
        match r {
            Ok(path) => payload_path(platform, staging@, at_its_place, entries@) == Ok::<
                Seq<Seq<char>>,
                Seq<char>,
            >(path@),
            Err(message) => payload_path(platform, staging@, at_its_place, entries@) == Err::<
                Seq<Seq<char>>,
                Seq<char>,
            >(message@),
        },
{
    match platform {
        Platform::MacOs => {
            if at_its_place {
                return Ok(program_path(staging, "hapcli.app"));
            }
            match find_bundle(entries) {
                Some(name) => Ok(program_path(staging, name)),
                None => Err("解压后未找到 hapcli.app".to_string()),
            }
        },
        Platform::Windows => {
            if at_its_place {
                let more = ["hapcli.exe"];
                let r = staging.joined_with(&more);
                assert(r@ =~= staging@ + seq!["hapcli.exe"@]);
                Ok(r)
            } else {
                Err("解压后未找到 hapcli.exe".to_string())
            }
        },
        Platform::Other => Err("当前平台暂不支持自动更新".to_string()),
    }
}

pub fn sh_quote(path: &str) -> (r: String)
    ensures
        r@ == single_quoted(path@),
{
    shell_quote_path(path)
}

pub fn bat_quote(path: &str) -> (r: String)
    ensures
        r@ == double_quoted(path@),
{
    shell_quote_path_for_windows(path)
}

/// Lines of a script, each with its end.
pub open spec fn script_text(lines: Seq<Seq<char>>, end: Seq<char>) -> Seq<char> {
    joined(lines, end) + end
}

/// The script that exchanges a bundle once the process has ended; all paths are quoted.
pub open spec fn bundle_lines(
    bundle: Seq<char>,
    fresh: Seq<char>,
    payload: Seq<char>,
    staging: Seq<char>,
    pid: nat,
) -> Seq<Seq<char>> {
    seq![
        "#!/bin/sh"@,
        "LOG="@ + single_quoted("/tmp/hapcli-update.log"@),
        "{"@,
        "  echo \"== hapcli update $(date) ==\""@,
        "  PID="@ + decimal(pid),
        "  i=0"@,
        "  while kill -0 \"$PID\" 2>/dev/null; do"@,
        "   i=$((i+1))"@,
        "   [ \"$i\" -ge 120 ] && break"@,
        "   sleep 0.3"@,
        "  done"@,
        "  sleep 1"@,
        "  rm -rf "@ + fresh,
        "  ditto "@ + payload + " "@ + fresh + " || { echo \"ditto failed\"; exit 1; }"@,
        "  test -x "@ + fresh
            + "/Contents/MacOS/hapcli || { echo \"verify failed\"; rm -rf "@ + fresh
            + "; exit 1; }"@,
        "  rm -rf "@ + bundle,
        "  mv "@ + fresh + " "@ + bundle + " || { echo \"mv failed\"; exit 1; }"@,
        "  xattr -dr com.apple.quarantine "@ + bundle + " 2>/dev/null || true"@,
        "  if ! open -n "@ + bundle + " 2>/dev/null; then"@,
        "   sleep 1"@,
        "   open -n "@ + bundle + " 2>/dev/null || true"@,
        "  fi"@,
        "  rm -rf "@ + staging,
        "  echo \"done\""@,
        "} >> \"$LOG\" 2>&1"@,
    ]
}

fn bundle_script(bundle: &str, fresh: &str, payload: &str, staging: &str, pid: u32) -> (r: String)
    ensures
        r@ == script_text(bundle_lines(bundle@, fresh@, payload@, staging@, pid as nat), "\n"@),
{
    let mut lines: Vec<String> = Vec::new();
    lines.push("#!/bin/sh".to_string());
    lines.push(concat2("LOG=", sh_quote("/tmp/hapcli-update.log").as_str()));
    lines.push("{".to_string());
    lines.push("  echo \"== hapcli update $(date) ==\"".to_string());
    lines.push(concat2("  PID=", decimal_text(pid as u64).as_str()));
    lines.push("  i=0".to_string());
    lines.push("  while kill -0 \"$PID\" 2>/dev/null; do".to_string());
    lines.push("   i=$((i+1))".to_string());
    lines.push("   [ \"$i\" -ge 120 ] && break".to_string());
    lines.push("   sleep 0.3".to_string());
    lines.push("  done".to_string());
    lines.push("  sleep 1".to_string());
    lines.push(concat2("  rm -rf ", fresh));
    lines.push(concat5("  ditto ", payload, " ", fresh, " || { echo \"ditto failed\"; exit 1; }"));
    lines.push(
        concat5(
            "  test -x ",
            fresh,
            "/Contents/MacOS/hapcli || { echo \"verify failed\"; rm -rf ",
            fresh,
            "; exit 1; }",
        ),
    );
    lines.push(concat2("  rm -rf ", bundle));
    lines.push(concat5("  mv ", fresh, " ", bundle, " || { echo \"mv failed\"; exit 1; }"));
    lines.push(concat3("  xattr -dr com.apple.quarantine ", bundle, " 2>/dev/null || true"));
    lines.push(concat3("  if ! open -n ", bundle, " 2>/dev/null; then"));
    lines.push("   sleep 1".to_string());
    lines.push(concat3("   open -n ", bundle, " 2>/dev/null || true"));
    lines.push("  fi".to_string());
    lines.push(concat2("  rm -rf ", staging));
    lines.push("  echo \"done\"".to_string());
    lines.push("} >> \"$LOG\" 2>&1".to_string());
    assert(texts(lines@) =~= bundle_lines(bundle@, fresh@, payload@, staging@, pid as nat));
    concat2(join(lines.as_slice(), "\n").as_str(), "\n")
}

/// The script that exchanges a program on macOS.
pub open spec fn program_lines(
    exe: Seq<char>,
    fresh: Seq<char>,
    payload: Seq<char>,
    staging: Seq<char>,
    pid: nat,
) -> Seq<Seq<char>> {
    seq![
        "#!/bin/sh"@,
        "PID="@ + decimal(pid),
        "i=0"@,
        "while kill -0 \"$PID\" 2>/dev/null; do"@,
        "  i=$((i+1))"@,
        "  [ \"$i\" -ge 120 ] && break"@,
        "  sleep 0.3"@,
        "done"@,
        "sleep 1"@,
        "rm -f "@ + fresh,
        "cp "@ + payload + " "@ + fresh,
        "chmod +x "@ + fresh,
        "mv "@ + fresh + " "@ + exe,
        exe,
        "rm -rf "@ + staging,
    ]
}

fn program_script(exe: &str, fresh: &str, payload: &str, staging: &str, pid: u32) -> (r: String)
    ensures
        r@ == script_text(program_lines(exe@, fresh@, payload@, staging@, pid as nat), "\n"@),
{
    let mut lines: Vec<String> = Vec::new();
    lines.push("#!/bin/sh".to_string());
    lines.push(concat2("PID=", decimal_text(pid as u64).as_str()));
    lines.push("i=0".to_string());
    lines.push("while kill -0 \"$PID\" 2>/dev/null; do".to_string());
    lines.push("  i=$((i+1))".to_string());
    lines.push("  [ \"$i\" -ge 120 ] && break".to_string());
    lines.push("  sleep 0.3".to_string());
    lines.push("done".to_string());
    lines.push("sleep 1".to_string());
    lines.push(concat2("rm -f ", fresh));
    lines.push(concat4("cp ", payload, " ", fresh));
    lines.push(concat2("chmod +x ", fresh));
    lines.push(concat4("mv ", fresh, " ", exe));
    lines.push(exe.to_string());
    lines.push(concat2("rm -rf ", staging));
    assert(texts(lines@) =~= program_lines(exe@, fresh@, payload@, staging@, pid as nat));
    concat2(join(lines.as_slice(), "\n").as_str(), "\n")
}

/// The script that exchanges a program on Windows.
pub open spec fn batch_lines(
    exe: Seq<char>,
    payload: Seq<char>,
    staging: Seq<char>,
    pid: nat,
) -> Seq<Seq<char>> {
    seq![
        "@echo off"@,
        "timeout /t 2 /nobreak >nul"@,
        ":wait"@,
        "tasklist /FI \"PID eq "@ + decimal(pid) + "\" | findstr \""@ + decimal(pid) + "\" >nul"@,
        "if not errorlevel 1 ("@,
        "  timeout /t 1 /nobreak >nul"@,
        "  goto wait"@,
        ")"@,
        "timeout /t 1 /nobreak >nul"@,
        "copy /y "@ + payload + " "@ + exe + " >nul"@,
        "start \"\" "@ + exe,
        "rmdir /s /q "@ + staging,
    ]
}

fn batch_script(exe: &str, payload: &str, staging: &str, pid: u32) -> (r: String)
    ensures
        r@ == script_text(batch_lines(exe@, payload@, staging@, pid as nat), "\r\n"@),
{
    let number = decimal_text(pid as u64);
    let mut lines: Vec<String> = Vec::new();
    lines.push("@echo off".to_string());
    lines.push("timeout /t 2 /nobreak >nul".to_string());
    lines.push(":wait".to_string());
    lines.push(
        concat5(
            "tasklist /FI \"PID eq ",
            number.as_str(),
            "\" | findstr \"",
            number.as_str(),
            "\" >nul",
        ),
    );
    lines.push("if not errorlevel 1 (".to_string());
    lines.push("  timeout /t 1 /nobreak >nul".to_string());
    lines.push("  goto wait".to_string());
    lines.push(")".to_string());
    lines.push("timeout /t 1 /nobreak >nul".to_string());
    lines.push(concat5("copy /y ", payload, " ", exe, " >nul"));
    lines.push(concat2("start \"\" ", exe));
    lines.push(concat2("rmdir /s /q ", staging));
    assert(texts(lines@) =~= batch_lines(exe@, payload@, staging@, pid as nat));
    concat2(join(lines.as_slice(), "\r\n").as_str(), "\r\n")
}

/// A script with the name of the file that it is written to.
#[derive(Clone, Debug, PartialEq, Eq)]
pub struct HelperScript {
    pub name: String,
    pub text: String,
}

/// The script that puts a new version in its place, or why there is none: a bundle is only ever
/// replaced by a bundle.
pub open spec fn helper(
    platform: Platform,
    target: InstallTarget,
    payload: Seq<Seq<char>>,
    staging: Seq<Seq<char>>,
    pid: nat,
) -> Result<(Seq<char>, Seq<char>), Seq<char>> {
    match platform {
        Platform::MacOs => {
            let place = path_text(target_path(target), "/"@);
            let fresh = single_quoted(place + ".new"@);
            let rest = single_quoted(path_text(staging, "/"@));
            match target {
                InstallTarget::AppBundle(_) => match bundle_root(payload) {
                    None => Err("安装包结构异常（未找到 .app 目录），已取消更新"@),
                    Some(root) => Ok(
                        (
                            "hapcli-update.sh"@,
                            script_text(
                                bundle_lines(
                                    single_quoted(place),
                                    fresh,
                                    single_quoted(path_text(root, "/"@)),
                                    rest,
                                    pid,
                                ),
                                "\n"@,
                            ),
                        ),
                    ),
                },
                InstallTarget::Executable(_) => Ok(
                    (
                        "hapcli-update.sh"@,
                        script_text(
                            program_lines(
                                single_quoted(place),
                                fresh,
                                single_quoted(path_text(payload, "/"@)),
                                rest,
                                pid,
                            ),
                            "\n"@,
                        ),
                    ),
                ),
            }
        },
        Platform::Windows => match target {
            InstallTarget::AppBundle(_) => Err("Windows 不支持 .app 安装目标"@),
            InstallTarget::Executable(exe) => Ok(
                (
                    "hapcli-update.bat"@,
                    script_text(
                        batch_lines(
                            double_quoted(path_text(exe@, "\\"@)),
                            double_quoted(path_text(payload, "\\"@)),
                            double_quoted(path_text(staging, "\\"@)),
                            pid,
                        ),
                        "\r\n"@,
                    ),
                ),
            ),
        },
        Platform::Other => Err(unsupported()),
    }
}

fn shell_helper(target: &InstallTarget, payload: &LocalPath, staging: &LocalPath, pid: u32) -> (r:
    Result<HelperScript, String>)
    ensures
        match r {
            Ok(script) => helper(Platform::MacOs, *target, payload@, staging@, pid as nat) == Ok::<
                (Seq<char>, Seq<char>),
                Seq<char>,
            >((script.name@, script.text@)),
            Err(message) => helper(Platform::MacOs, *target, payload@, staging@, pid as nat)
                == Err::<(Seq<char>, Seq<char>), Seq<char>>(message@),
        },
{
    let place = match target {
        InstallTarget::AppBundle(path) => path.text("/"),
        InstallTarget::Executable(path) => path.text("/"),
    };
    let fresh = sh_quote(concat2(place.as_str(), ".new").as_str());
    let quoted = sh_quote(place.as_str());
    let rest = sh_quote(staging.text("/").as_str());
    let text = match target {
        InstallTarget::AppBundle(_) => {
            let root = match macos_bundle_root(payload) {
                Some(root) => root,
                None => {
                    return Err("安装包结构异常（未找到 .app 目录），已取消更新".to_string());
                },
            };
            let source = sh_quote(root.text("/").as_str());
            bundle_script(quoted.as_str(), fresh.as_str(), source.as_str(), rest.as_str(), pid)
        },
        InstallTarget::Executable(_) => {
            let source = sh_quote(payload.text("/").as_str());
            program_script(quoted.as_str(), fresh.as_str(), source.as_str(), rest.as_str(), pid)
        },
    };
    Ok(HelperScript { name: "hapcli-update.sh".to_string(), text })
}

/// Writes the script that waits for this process to end, then exchanges the program and starts it.
pub fn write_helper(
    platform: Platform,
    target: &InstallTarget,
    payload: &LocalPath,
    staging: &LocalPath,
    pid: u32,
) -> (r: Result<HelperScript, String>)
    ensures
        match r {
            Ok(script) => helper(platform, *target, payload@, staging@, pid as nat) == Ok::<
                (Seq<char>, Seq<char>),
                Seq<char>,
            >((script.name@, script.text@)),
            Err(message) => helper(platform, *target, payload@, staging@, pid as nat) == Err::<
                (Seq<char>, Seq<char>),
                Seq<char>,
            >(message@),
        },
{
    match platform {
        Platform::MacOs => shell_helper(target, payload, staging, pid),
        Platform::Windows => match target {
            InstallTarget::AppBundle(_) => Err("Windows 不支持 .app 安装目标".to_string()),
            InstallTarget::Executable(exe) => {
                let place = bat_quote(exe.text("\\").as_str());
                let source = bat_quote(payload.text("\\").as_str());
                let rest = bat_quote(staging.text("\\").as_str());
                let text = batch_script(place.as_str(), source.as_str(), rest.as_str(), pid);
                Ok(HelperScript { name: "hapcli-update.bat".to_string(), text })
            },
        },
        Platform::Other => Err("当前平台暂不支持自动更新".to_string()),
    }
}

/// What `locate_payload` finds of a new bundle is a program within a bundle, so that its script
/// can be written.
pub proof fn law_located_bundles_can_be_installed(
    staging: Seq<Seq<char>>,
    at_its_place: bool,
    entries: Seq<UnpackedEntry>,
    bundle: LocalPath,
    pid: nat,
)
    requires
        payload_path(Platform::MacOs, staging, at_its_place, entries) is Ok,
    ensures
        helper(
            Platform::MacOs,
            InstallTarget::AppBundle(bundle),
            payload_path(Platform::MacOs, staging, at_its_place, entries)->Ok_0,
            staging,
            pid,
        ) is Ok,
{
    let payload = payload_path(Platform::MacOs, staging, at_its_place, entries)->Ok_0;
    let name = if at_its_place {
        "hapcli.app"@
    } else {
        first_bundle(entries)->Some_0
    };
    assert(payload == program_in(staging, name));
    reveal_strlit("/");
    reveal_strlit("..");
    reveal_strlit(".");
    reveal_strlit("app");
    reveal_strlit("hapcli");
    reveal_strlit("MacOS");
    reveal_strlit("Contents");
    assert("hapcli"@[0] == 'h' && "MacOS"@[0] == 'M' && "Contents"@[0] == 'C');
    assert("/"@[0] == '/' && "."@[0] == '.' && ".."@[0] == '.');
    if at_its_place {
        reveal_strlit("hapcli.app");
        crate::text::lemma_behind_last(name, '.', 7);
        assert(name.skip(7) =~= "app"@);
    } else {
        lemma_first_bundle(entries);
    }
    assert(payload.drop_last() =~= staging + seq![name, "Contents"@, "MacOS"@]);
    assert(payload.drop_last().drop_last() =~= staging + seq![name, "Contents"@]);
    assert(payload.drop_last().drop_last().drop_last() =~= staging + seq![name]);
    lemma_app_is_a_name(name);
}

proof fn lemma_first_bundle(entries: Seq<UnpackedEntry>)
    requires
        first_bundle(entries) is Some,
    ensures
        extension_of(first_bundle(entries)->Some_0) == Some("app"@),
    decreases entries.len(),
{
    if !is_new_bundle(entries[0]) {
        lemma_first_bundle(entries.drop_first());
    }
}

proof fn lemma_app_is_a_name(name: Seq<char>)
    requires
        extension_of(name) == Some("app"@),
    ensures
        crate::paths::is_name(name),
{
    reveal_strlit("/");
    reveal_strlit("..");
    reveal_strlit(".");
    reveal_strlit("app");
    assert("app"@.len() == 3);
    let at = crate::text::behind_last(name, '.') as int;
    crate::text::lemma_behind_last_bound(name, '.');
    assert(name.skip(at).len() == 3);
    assert(name.len() >= 3);
}

/// Packages exist for two kinds of machine, each under its own name.
pub proof fn law_packages_are_named(platform: Platform, architecture: Architecture)
    ensures
        asset_name(Platform::MacOs, Architecture::Arm64) == Some("hapcli-macos-arm64.zip"@),
        asset_name(Platform::Windows, Architecture::X64) == Some("hapcli-windows-x86_64.zip"@),
        asset_name(platform, architecture) is Some <==> (platform == Platform::MacOs
            && architecture == Architecture::Arm64) || (platform == Platform::Windows
            && architecture == Architecture::X64),
{
}

/// The first file of a release that has the name of the package is the package.
pub proof fn law_the_first_package_is_taken(
    platform: Platform,
    architecture: Architecture,
    name: Seq<char>,
    assets: Seq<AssetView>,
    at: int,
)
    requires
        asset_name(platform, architecture) == Some(name),
        0 <= at <= assets.len(),
        forall|j: int| 0 <= j < at ==> (#[trigger] assets[j]).name != name,
    ensures
        at < assets.len() && assets[at].name == name ==> platform_asset(
            platform,
            architecture,
            assets,
        ) == Some(assets[at]),
        at == assets.len() ==> platform_asset(platform, architecture, assets) is None,
    decreases at,
{
    if at > 0 {
        let rest = assets.drop_first();
        assert(assets[0].name != name);
        assert forall|j: int| 0 <= j < at - 1 implies (#[trigger] rest[j]).name != name by {
            assert(rest[j] == assets[j + 1]);
        }
        law_the_first_package_is_taken(platform, architecture, name, rest, at - 1);
    }
}

/// A program lies in a bundle exactly where its path is that of an `.app`, then `Contents`, then
/// `MacOS`, then the program.
pub proof fn law_bundles_hold_their_program(
    bundle: Seq<Seq<char>>,
    program: Seq<char>,
    exe: Seq<Seq<char>>,
)
    ensures
        named_app(bundle) && program != seq!['/'] ==> bundle_root(
            bundle + seq!["Contents"@, "MacOS"@, program],
        ) == Some(bundle),
        bundle_root(exe) matches Some(root) ==> {
            &&& exe.len() == root.len() + 3
            &&& exe.take(root.len() as int) == root
            &&& exe[root.len() as int] == "Contents"@
            &&& exe[root.len() as int + 1] == "MacOS"@
            &&& root.len() > 0
            &&& extension_of(root.last()) == Some(seq!['a', 'p', 'p'])
        },
{
    reveal_strlit("/");
    reveal_strlit(".");
    reveal_strlit("..");
    reveal_strlit("Contents");
    reveal_strlit("MacOS");
    reveal_strlit("app");
    assert("/"@ =~= seq!['/']);
    assert("app"@ =~= seq!['a', 'p', 'p']);
    assert("MacOS"@.len() == 5 && "Contents"@.len() == 8 && "/"@.len() == 1 && "."@.len() == 1
        && ".."@.len() == 2);
    let path = bundle + seq!["Contents"@, "MacOS"@, program];
    assert(path.drop_last() =~= bundle + seq!["Contents"@, "MacOS"@]);
    assert(path.drop_last().drop_last() =~= bundle + seq!["Contents"@]);
    assert(path.drop_last().drop_last().drop_last() =~= bundle);
    if let Some(root) = bundle_root(exe) {
        let mac_os = exe.drop_last();
        let contents = mac_os.drop_last();
        assert(root == contents.drop_last());
        assert(exe.take(root.len() as int) =~= root);
    }
}

/// What replaces what: the bundle of a program that lies in one, else the program.
pub proof fn law_targets_are_told_by_path(target: InstallTarget)
    ensures
        target matches InstallTarget::AppBundle(path) ==> target_path(target) == path@,
        target matches InstallTarget::Executable(path) ==> target_path(target) == path@,
{
}

/// Which program unpacks an archive, and into what.
pub proof fn law_archives_are_unpacked_by_the_system(archive: Seq<char>, into: Seq<char>)
    ensures
        unpacking(Platform::MacOs, archive, into) == Some(
            ("ditto"@, seq![seq!['-', 'x'], seq!['-', 'k'], archive, into]),
        ),
        unpacking(Platform::Windows, archive, into) matches Some(call) && {
            &&& call.0 == "powershell"@
            &&& call.1.len() == 3
            &&& call.1[0] == "-NoProfile"@
            &&& call.1[1] == "-Command"@
            &&& call.1[2] == "Expand-Archive -LiteralPath '"@ + archive
                + "' -DestinationPath '"@ + into + "' -Force"@
        },
        unpacking(Platform::Other, archive, into) is None,
{
    reveal_strlit("-x");
    reveal_strlit("-k");
    assert("-x"@ =~= seq!['-', 'x']);
    assert("-k"@ =~= seq!['-', 'k']);
}

/// The first unpacked directory that is a bundle with the program in it is the new bundle.
pub proof fn law_the_first_bundle_is_found(entries: Seq<UnpackedEntry>, at: int)
    requires
        0 <= at <= entries.len(),
        forall|j: int|
            0 <= j < at ==> !((#[trigger] entries[j]).is_dir && entries[j].holds_program
                && extension_of(entries[j].name@) == Some(seq!['a', 'p', 'p'])),
    ensures
        at < entries.len() && entries[at].is_dir && entries[at].holds_program && extension_of(
            entries[at].name@,
        ) == Some(seq!['a', 'p', 'p']) ==> first_bundle(entries) == Some(entries[at].name@),
        at == entries.len() ==> first_bundle(entries) is None,
    decreases at,
{
    reveal_strlit("app");
    assert("app"@ =~= seq!['a', 'p', 'p']);
    if at > 0 {
        let rest = entries.drop_first();
        assert(!is_new_bundle(entries[0]));
        assert forall|j: int| 0 <= j < at - 1 implies !((#[trigger] rest[j]).is_dir
            && rest[j].holds_program && extension_of(rest[j].name@) == Some(
            seq!['a', 'p', 'p'],
        )) by {
            assert(rest[j] == entries[j + 1]);
        }
        law_the_first_bundle_is_found(rest, at - 1);
    }
}

/// Where the new program is looked for on each system.
pub proof fn law_the_new_program_is_found(
    staging: Seq<Seq<char>>,
    at_its_place: bool,
    entries: Seq<UnpackedEntry>,
    name: Seq<char>,
)
    ensures
        program_in(staging, name) == staging.push(name).push("Contents"@).push("MacOS"@).push(
            "hapcli"@,
        ),
        payload_path(Platform::MacOs, staging, true, entries) == Ok::<
            Seq<Seq<char>>,
            Seq<char>,
        >(program_in(staging, "hapcli.app"@)),
        first_bundle(entries) == Some(name) ==> payload_path(
            Platform::MacOs,
            staging,
            false,
            entries,
        ) == Ok::<Seq<Seq<char>>, Seq<char>>(program_in(staging, name)),
        first_bundle(entries) is None ==> payload_path(Platform::MacOs, staging, false, entries)
            == Err::<Seq<Seq<char>>, Seq<char>>("解压后未找到 hapcli.app"@),
        payload_path(Platform::Windows, staging, true, entries) == Ok::<
            Seq<Seq<char>>,
            Seq<char>,
        >(staging.push("hapcli.exe"@)),
        payload_path(Platform::Windows, staging, false, entries) == Err::<
            Seq<Seq<char>>,
            Seq<char>,
        >("解压后未找到 hapcli.exe"@),
        payload_path(Platform::Other, staging, at_its_place, entries) == Err::<
            Seq<Seq<char>>,
            Seq<char>,
        >("当前平台暂不支持自动更新"@),
        not_writable()
            == "安装目录没有写入权限（例如安装到了 /Applications），请改用下载页手动安装"@,
{
    assert(program_in(staging, name) =~= staging.push(name).push("Contents"@).push("MacOS"@).push(
        "hapcli"@,
    ));
    assert(staging + seq!["hapcli.exe"@] =~= staging.push("hapcli.exe"@));
}

/// Every line of a script has its end behind it.
pub proof fn law_script_lines_are_ended(lines: Seq<Seq<char>>, line: Seq<char>, end: Seq<char>)
    ensures
        lines.len() > 0 ==> script_text(lines.push(line), end) == script_text(lines, end) + line
            + end,
        script_text(seq![line], end) == line + end,
{
    assert(lines.push(line).drop_last() =~= lines);
}

/// The script for a bundle waits for the program to end; it makes the new bundle beside the old
/// one and looks whether its program is there before it takes the old one away, puts the new one
/// in its place and starts it. What was unpacked goes last.
pub proof fn law_bundles_are_exchanged_safely(
    bundle: Seq<char>,
    fresh: Seq<char>,
    payload: Seq<char>,
    staging: Seq<char>,
    pid: nat,
)
    ensures
        ({
            let lines = bundle_lines(bundle, fresh, payload, staging, pid);
            &&& lines.len() == 25
            &&& lines[0] == "#!/bin/sh"@
            &&& lines[1] == "LOG='/tmp/hapcli-update.log'"@
            &&& lines[4] == "  PID="@ + decimal(pid)
            &&& lines[6] == "  while kill -0 \"$PID\" 2>/dev/null; do"@
            &&& lines[7] == "   i=$((i+1))"@
            &&& lines[8] == "   [ \"$i\" -ge 120 ] && break"@
            &&& lines[9] == "   sleep 0.3"@
            &&& lines[10] == "  done"@
            &&& lines[12] == "  rm -rf "@ + fresh
            &&& lines[13] == "  ditto "@ + payload + " "@ + fresh
                + " || { echo \"ditto failed\"; exit 1; }"@
            &&& lines[14] == "  test -x "@ + fresh
                + "/Contents/MacOS/hapcli || { echo \"verify failed\"; rm -rf "@ + fresh
                + "; exit 1; }"@
            &&& lines[15] == "  rm -rf "@ + bundle
            &&& lines[16] == "  mv "@ + fresh + " "@ + bundle
                + " || { echo \"mv failed\"; exit 1; }"@
            &&& lines[17] == "  xattr -dr com.apple.quarantine "@ + bundle
                + " 2>/dev/null || true"@
            &&& lines[18] == "  if ! open -n "@ + bundle + " 2>/dev/null; then"@
            &&& lines[20] == "   open -n "@ + bundle + " 2>/dev/null || true"@
            &&& lines[22] == "  rm -rf "@ + staging
            &&& lines[24] == "} >> \"$LOG\" 2>&1"@
        }),
{
    reveal_strlit("LOG=");
    reveal_strlit("'");
    reveal_strlit("'\\''");
    reveal_strlit("/tmp/hapcli-update.log");
    reveal_strlit("LOG='/tmp/hapcli-update.log'");
    let log = "/tmp/hapcli-update.log"@;
    assert forall|i: int| 0 <= i < log.len() implies log[i] != '\'' by {}
    lemma_nothing_replaced(log, '\'', "'\\''"@);
    assert("LOG="@ + single_quoted(log) =~= "LOG='/tmp/hapcli-update.log'"@);
}

proof fn lemma_nothing_replaced(s: Seq<char>, c: char, with: Seq<char>)
    requires
        forall|i: int| 0 <= i < s.len() ==> s[i] != c,
    ensures
        crate::text::replaced(s, c, with) == s,
    decreases s.len(),
{
    if s.len() > 0 {
        assert(s[s.len() - 1] != c);
        lemma_nothing_replaced(s.drop_last(), c, with);
        assert(s.drop_last() + seq![s.last()] =~= s);
    } else {
        assert(crate::text::replaced(s, c, with) =~= s);
    }
}

/// The scripts for a program wait for it to end, put the new one in its place, start it and take
/// away what was unpacked, in this order.
pub proof fn law_programs_are_exchanged_in_order(
    exe: Seq<char>,
    fresh: Seq<char>,
    payload: Seq<char>,
    staging: Seq<char>,
    pid: nat,
)
    ensures
        ({
            let lines = program_lines(exe, fresh, payload, staging, pid);
            &&& lines.len() == 15
            &&& lines[0] == "#!/bin/sh"@
            &&& lines[1] == "PID="@ + decimal(pid)
            &&& lines[3] == "while kill -0 \"$PID\" 2>/dev/null; do"@
            &&& lines[5] == "  [ \"$i\" -ge 120 ] && break"@
            &&& lines[7] == "done"@
            &&& lines[9] == "rm -f "@ + fresh
            &&& lines[10] == "cp "@ + payload + " "@ + fresh
            &&& lines[11] == "chmod +x "@ + fresh
            &&& lines[12] == "mv "@ + fresh + " "@ + exe
            &&& lines[13] == exe
            &&& lines[14] == "rm -rf "@ + staging
        }),
        ({
            let lines = batch_lines(exe, payload, staging, pid);
            &&& lines.len() == 12
            &&& lines[0] == "@echo off"@
            &&& lines[2] == ":wait"@
            &&& lines[3] == "tasklist /FI \"PID eq "@ + decimal(pid) + "\" | findstr \""@
                + decimal(pid) + "\" >nul"@
            &&& lines[4] == "if not errorlevel 1 ("@
            &&& lines[6] == "  goto wait"@
            &&& lines[7] == ")"@
            &&& lines[9] == "copy /y "@ + payload + " "@ + exe + " >nul"@
            &&& lines[10] == "start \"\" "@ + exe
            &&& lines[11] == "rmdir /s /q "@ + staging
        }),
{
}

/// Which script is written for what, and when none is: a bundle is replaced by a bundle on macOS
/// only, and other systems have no script.
pub proof fn law_scripts_fit_their_target(
    place: LocalPath,
    payload: Seq<Seq<char>>,
    staging: Seq<Seq<char>>,
    root: Seq<Seq<char>>,
    target: InstallTarget,
    pid: nat,
)
    ensures
        ({
            let slash = seq!['/'];
            let old = path_text(place@, slash);
            let end = seq!['\n'];
            &&& bundle_root(payload) == Some(root) ==> helper(
                Platform::MacOs,
                InstallTarget::AppBundle(place),
                payload,
                staging,
                pid,
            ) == Ok::<(Seq<char>, Seq<char>), Seq<char>>(
                (
                    "hapcli-update.sh"@,
                    script_text(
                        bundle_lines(
                            single_quoted(old),
                            single_quoted(old + seq!['.', 'n', 'e', 'w']),
                            single_quoted(path_text(root, slash)),
                            single_quoted(path_text(staging, slash)),
                            pid,
                        ),
                        end,
                    ),
                ),
            )
            &&& helper(
                Platform::MacOs,
                InstallTarget::Executable(place),
                payload,
                staging,
                pid,
            ) == Ok::<(Seq<char>, Seq<char>), Seq<char>>(
                (
                    "hapcli-update.sh"@,
                    script_text(
                        program_lines(
                            single_quoted(old),
                            single_quoted(old + seq!['.', 'n', 'e', 'w']),
                            single_quoted(path_text(payload, slash)),
                            single_quoted(path_text(staging, slash)),
                            pid,
                        ),
                        end,
                    ),
                ),
            )
        }),
        ({
            let slash = seq!['\\'];
            &&& helper(
                Platform::Windows,
                InstallTarget::Executable(place),
                payload,
                staging,
                pid,
            ) == Ok::<(Seq<char>, Seq<char>), Seq<char>>(
                (
                    "hapcli-update.bat"@,
                    script_text(
                        batch_lines(
                            double_quoted(path_text(place@, slash)),
                            double_quoted(path_text(payload, slash)),
                            double_quoted(path_text(staging, slash)),
                            pid,
                        ),
                        seq!['\r', '\n'],
                    ),
                ),
            )
        }),
        bundle_root(payload) is None ==> helper(
            Platform::MacOs,
            InstallTarget::AppBundle(place),
            payload,
            staging,
            pid,
        ) is Err,
        helper(
            Platform::Windows,
            InstallTarget::AppBundle(place),
            payload,
            staging,
            pid,
        ) is Err,
        helper(Platform::Other, target, payload, staging, pid) is Err,
{
    reveal_strlit("/");
    reveal_strlit("\\");
    reveal_strlit(".new");
    reveal_strlit("\n");
    reveal_strlit("\r\n");
    assert("/"@ =~= seq!['/']);
    assert("\\"@ =~= seq!['\\']);
    assert(".new"@ =~= seq!['.', 'n', 'e', 'w']);
    assert("\n"@ =~= seq!['\n']);
    assert("\r\n"@ =~= seq!['\r', '\n']);
}

/// An update that cannot be installed is told why.
pub proof fn law_refused_updates_are_told(
    bundle: LocalPath,
    payload: Seq<Seq<char>>,
    staging: Seq<Seq<char>>,
    pid: nat,
)
    ensures
        bundle_root(payload) is None ==> helper(
            Platform::MacOs,
            InstallTarget::AppBundle(bundle),
            payload,
            staging,
            pid,
        ) == Err::<(Seq<char>, Seq<char>), Seq<char>>(
            "安装包结构异常（未找到 .app 目录），已取消更新"@,
        ),
        helper(Platform::Windows, InstallTarget::AppBundle(bundle), payload, staging, pid) == Err::<
            (Seq<char>, Seq<char>),
            Seq<char>,
        >("Windows 不支持 .app 安装目标"@),
{
}

} // verus!
