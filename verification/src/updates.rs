//! Release checks for the server itself and for the bundled components:
//! version tags, their order, and which release asset fits the platform.

use vstd::prelude::*;
use crate::text::{
    chars_of, string_from_chars, trim, trimmed, unicode_lowercase, lowercase, starts_with, ends_with,
    contains, split_on, split_chars, lemma_split_on_step, parse_uint,
    digits_value, all_digits, parse_unsigned, is_ws,
    starts_with_chars, ends_with_chars, contains_chars, opt_str,
};

verus! {

/// Seconds a new version is given to answer its health check.
pub const HEALTH_CHECK_SECS: u64 = 12;

/// A file attached to a release.
#[derive(Debug)]
pub struct ReleaseAsset {
    pub name: String,
    pub browser_download_url: String,
}

/// The latest release of a repository.
#[derive(Debug)]
pub struct LatestRelease {
    pub tag_name: String,
    pub assets: Vec<ReleaseAsset>,
}

// ---------------------------------------------------------------------------
// Versions

/// `s` without its leading `c` characters (`str::trim_start_matches`).
pub open spec fn strip_leading(s: Seq<char>, c: char) -> Seq<char>
    decreases s.len(),
{
    if s.len() > 0 && s[0] == c {
        strip_leading(s.drop_first(), c)
    } else {
        s
    }
}

/// The number in piece `i` of a dotted version; 0 when the piece is missing
/// or is not a `u64`.
pub open spec fn part_value(parts: Seq<Seq<char>>, i: int) -> int {
    if 0 <= i < parts.len() {
        match parse_uint(parts[i], u64::MAX as int) {
            Some(n) => n,
            None => 0,
        }
    } else {
        0
    }
}

/// `(major, minor, patch)` of a tag such as `"v0.5.1"` or `"0.5.1"`: white
/// space and leading `v`s are dropped, the rest is split at `.`.
pub open spec fn version_spec(raw: Seq<char>) -> (int, int, int) {
    let parts = split_on(strip_leading(trim(raw), 'v'), '.');
    (part_value(parts, 0), part_value(parts, 1), part_value(parts, 2))
}

/// `a` comes after `b` in the lexicographic order of the three numbers.
pub open spec fn version_after(a: (int, int, int), b: (int, int, int)) -> bool {
    ||| a.0 > b.0
    ||| a.0 == b.0 && a.1 > b.1
    ||| a.0 == b.0 && a.1 == b.1 && a.2 > b.2
}

fn part_at(parts: &Vec<Vec<char>>, i: usize) -> (r: u64)
    ensures
        r as int == part_value(parts@.map_values(|p: Vec<char>| p@), i as int),
{
    if i < parts.len() {
        let s = string_from_chars(&parts[i]);
        match parse_unsigned(s.as_str(), u64::MAX) {
            Some(n) => n,
            None => 0,
        }
    } else {
        0
    }
}

/// Parses a version tag into `(major, minor, patch)`; unreadable parts
/// count as 0.
pub fn parse_version(raw: &str) -> (r: (u64, u64, u64))
    ensures
        (r.0 as int, r.1 as int, r.2 as int) == version_spec(raw@),
{
    let t = trimmed(raw);
    let mut k: usize = 0;
    assert(t@.skip(0) =~= t@);
    while k < t.len() && t[k] == 'v'
        invariant
            k <= t.len(),
            strip_leading(t@, 'v') == strip_leading(t@.skip(k as int), 'v'),
        decreases t.len() - k,
    {
        assert(t@.skip(k as int).drop_first() =~= t@.skip(k + 1));
        k = k + 1;
    }
    let mut rest: Vec<char> = Vec::new();
    let mut i: usize = k;
    while i < t.len()
        invariant
            k <= i <= t.len(),
            rest@ == t@.subrange(k as int, i as int),
        decreases t.len() - i,
    {
        rest.push(t[i]);
        i = i + 1;
    }
    proof {
        assert(rest@ =~= t@.skip(k as int));
        if k < t.len() {
            assert(t@.skip(k as int)[0] != 'v');
        }
        assert(strip_leading(t@.skip(k as int), 'v') == t@.skip(k as int));
    }
    let parts = split_chars(&rest, '.');
    let ghost views = parts@.map_values(|p: Vec<char>| p@);
    assert(views =~= split_on(rest@, '.'));
    (part_at(&parts, 0), part_at(&parts, 1), part_at(&parts, 2))
}

/// Whether the release tag `remote` is a later version than `local`.
pub fn is_newer(remote: &str, local: &str) -> (b: bool)
    ensures
        b == version_after(version_spec(remote@), version_spec(local@)),
{
    let a = parse_version(remote);
    let b = parse_version(local);
    a.0 > b.0 || (a.0 == b.0 && a.1 > b.1) || (a.0 == b.0 && a.1 == b.1 && a.2 > b.2)
}

/// "Newer than" is a strict order on version tags: no tag is newer than
/// itself, two tags are never newer than each other, and it is transitive.
pub proof fn newer_is_strict_order(a: Seq<char>, b: Seq<char>, c: Seq<char>)
    ensures
        !version_after(version_spec(a), version_spec(a)),
        version_after(version_spec(a), version_spec(b)) ==> !version_after(version_spec(b), version_spec(a)),
        version_after(version_spec(a), version_spec(b)) && version_after(version_spec(b), version_spec(c))
            ==> version_after(version_spec(a), version_spec(c)),
{
}

/// Of two tags, either one is newer or they name the same version.
pub proof fn newer_is_total(a: Seq<char>, b: Seq<char>)
    ensures
        version_after(version_spec(a), version_spec(b)) || version_after(version_spec(b), version_spec(a))
            || version_spec(a) == version_spec(b),
{
}

/// A leading `v` does not change the version a tag names.
pub proof fn version_ignores_v_prefix(s: Seq<char>)
    requires
        s.len() > 0 ==> !is_ws(s[0]) && !is_ws(s.last()),
    ensures
        version_spec(seq!['v'] + s) == version_spec(s),
{
    let vs = seq!['v'] + s;
    assert(vs[0] == 'v');
    assert(vs.last() == (if s.len() > 0 { s.last() } else { 'v' }));
    assert(trim(s) == s);
    assert(trim(vs) == vs);
    assert(vs.drop_first() =~= s);
}

// ---------------------------------------------------------------------------
// Release assets

/// Which asset a platform takes from a release.
pub enum AssetRule {
    /// The server's Windows installer: `.exe` with `install` (or the older
    /// `setup`) in its name.
    WindowsInstaller,
    /// The server's Linux or macOS tarball: `.tar.gz` naming the OS.
    UnixTarball,
    /// A component's Windows zip: starts with the component's directory
    /// name, names `windows`, ends in `.zip`.
    WindowsZip,
    /// A component's Linux tarball: starts with the component's directory
    /// name, names `linux`, ends in `.tar.gz`.
    LinuxTarball,
}

/// Whether the lower-cased asset name `n` fits `rule`; `label` is the OS
/// label of `UnixTarball` and the directory name of the component rules.
pub open spec fn asset_rule_holds(rule: AssetRule, label: Seq<char>, n: Seq<char>) -> bool {
    match rule {
        AssetRule::WindowsInstaller => ends_with(n, ".exe"@) && (contains(n, "install"@) || contains(n, "setup"@)),
        AssetRule::UnixTarball => ends_with(n, ".tar.gz"@) && contains(n, label),
        AssetRule::WindowsZip => starts_with(n, label) && contains(n, "windows"@) && ends_with(n, ".zip"@),
        AssetRule::LinuxTarball => starts_with(n, label) && contains(n, "linux"@) && ends_with(n, ".tar.gz"@),
    }
}

/// Asset `i` fits the rule (by its lower-cased name).
pub open spec fn asset_fits(assets: Seq<ReleaseAsset>, i: int, rule: AssetRule, label: Seq<char>) -> bool {
    asset_rule_holds(rule, label, unicode_lowercase(assets[i].name@))
}

/// `i` is the first asset that fits; `None` when none does.
pub open spec fn first_fit(assets: Seq<ReleaseAsset>, rule: AssetRule, label: Seq<char>, r: Option<int>) -> bool {
    match r {
        Some(i) => 0 <= i < assets.len() && asset_fits(assets, i, rule, label) && forall|j: int|
            0 <= j < i ==> !asset_fits(assets, j, rule, label),
        None => forall|j: int| 0 <= j < assets.len() ==> !asset_fits(assets, j, rule, label),
    }
}

fn rule_holds(rule: &AssetRule, label: &Vec<char>, n: &Vec<char>) -> (b: bool)
    ensures
        b == asset_rule_holds(*rule, label@, n@),
{
    match rule {
        AssetRule::WindowsInstaller => ends_with_chars(n, &chars_of(".exe")) && (contains_chars(
            n,
            &chars_of("install"),
        ) || contains_chars(n, &chars_of("setup"))),
        AssetRule::UnixTarball => ends_with_chars(n, &chars_of(".tar.gz")) && contains_chars(n, label),
        AssetRule::WindowsZip => starts_with_chars(n, label) && contains_chars(n, &chars_of("windows"))
            && ends_with_chars(n, &chars_of(".zip")),
        AssetRule::LinuxTarball => starts_with_chars(n, label) && contains_chars(n, &chars_of("linux"))
            && ends_with_chars(n, &chars_of(".tar.gz")),
    }
}

/// The index of the first asset of `release` that fits `rule`.
pub fn find_asset(release: &LatestRelease, rule: AssetRule, label: &str) -> (r: Option<usize>)
    ensures
        first_fit(release.assets@, rule, label@, match r {
            Some(i) => Some(i as int),
            None => None,
        }),
{
    let lab = chars_of(label);
    let mut i: usize = 0;
    while i < release.assets.len()
        invariant
            i <= release.assets.len(),
            lab@ == label@,
            forall|j: int| 0 <= j < i ==> !asset_fits(release.assets@, j, rule, label@),
        decreases release.assets.len() - i,
    {
        let lower = lowercase(release.assets[i].name.as_str());
        if rule_holds(&rule, &lab, &chars_of(lower.as_str())) {
            return Some(i);
        }
        i = i + 1;
    }
    None
}

/// The asset at the index `find_asset` gave.
pub open spec fn asset_at(release: LatestRelease, r: Option<int>) -> Option<ReleaseAsset> {
    match r {
        Some(i) => Some(release.assets@[i]),
        None => None,
    }
}

/// The first asset that fits, by reference.
pub open spec fn fitting_asset(release: LatestRelease, rule: AssetRule, label: Seq<char>, r: Option<&ReleaseAsset>) -> bool {
    exists|k: Option<int>| first_fit(release.assets@, rule, label, k) && asset_at(release, k) == match r {
        Some(a) => Some(*a),
        None => None,
    }
}

fn pick<'a>(release: &'a LatestRelease, rule: AssetRule, label: &str) -> (r: Option<&'a ReleaseAsset>)
    ensures
        fitting_asset(*release, rule, label@, r),
{
    let k = find_asset(release, rule, label);
    let ghost gk = match k {
        Some(i) => Some(i as int),
        None => None,
    };
    match k {
        Some(i) => {
            let r = Some(&release.assets[i]);
            assert(first_fit(release.assets@, rule, label@, gk) && asset_at(*release, gk) == Some(release.assets@[i as int]));
            r
        },
        None => {
            assert(first_fit(release.assets@, rule, label@, gk) && asset_at(*release, gk) == None::<ReleaseAsset>);
            None
        },
    }
}

/// The server's Windows installer in `release`.
pub fn windows_installer_asset(release: &LatestRelease) -> (r: Option<&ReleaseAsset>)
    ensures
        fitting_asset(*release, AssetRule::WindowsInstaller, seq![], r),
{
    assert(""@ =~= Seq::<char>::empty()) by {
        reveal_strlit("");
    }
    pick(release, AssetRule::WindowsInstaller, "")
}

/// The label of the running Unix-like OS in asset names.
pub open spec fn os_label(is_macos: bool) -> Seq<char> {
    if is_macos {
        "macos"@
    } else {
        "linux"@
    }
}

/// The server's tarball for the running OS (macOS or Linux) in `release`.
pub fn unix_tarball_asset(release: &LatestRelease, is_macos: bool) -> (r: Option<&ReleaseAsset>)
    ensures
        fitting_asset(*release, AssetRule::UnixTarball, os_label(is_macos), r),
{
    let label = if is_macos {
        "macos"
    } else {
        "linux"
    };
    pick(release, AssetRule::UnixTarball, label)
}

/// A component's Windows zip in `release`.
pub fn windows_zip_asset<'a>(release: &'a LatestRelease, dir_name: &str) -> (r: Option<&'a ReleaseAsset>)
    ensures
        fitting_asset(*release, AssetRule::WindowsZip, dir_name@, r),
{
    pick(release, AssetRule::WindowsZip, dir_name)
}

/// A component's Linux tarball in `release`.
pub fn linux_tarball_asset<'a>(release: &'a LatestRelease, dir_name: &str) -> (r: Option<&'a ReleaseAsset>)
    ensures
        fitting_asset(*release, AssetRule::LinuxTarball, dir_name@, r),
{
    pick(release, AssetRule::LinuxTarball, dir_name)
}

// ---------------------------------------------------------------------------
// Decisions

/// What an update check found.
pub enum UpdateStep {
    /// The release is not newer than what is installed.
    UpToDate,
    /// The release is newer but has no asset for this platform.
    NoAsset,
    /// Download and apply the asset at this index.
    Download(usize),
}

/// The meaning of an update step for a release, an installed version, and
/// the rule and label of the platform's asset.
pub open spec fn update_step_spec(release: LatestRelease, local: Seq<char>, rule: AssetRule, label: Seq<char>, s: UpdateStep) -> bool {
    if !version_after(version_spec(release.tag_name@), version_spec(local)) {
        s is UpToDate
    } else {
        match s {
            UpdateStep::UpToDate => false,
            UpdateStep::NoAsset => first_fit(release.assets@, rule, label, None),
            UpdateStep::Download(i) => first_fit(release.assets@, rule, label, Some(i as int)),
        }
    }
}

fn step_for(release: &LatestRelease, local: &str, rule: AssetRule, label: &str) -> (s: UpdateStep)
    ensures
        update_step_spec(*release, local@, rule, label@, s),
{
    if !is_newer(release.tag_name.as_str(), local) {
        return UpdateStep::UpToDate;
    }
    match find_asset(release, rule, label) {
        None => UpdateStep::NoAsset,
        Some(i) => UpdateStep::Download(i),
    }
}

/// The rule for the server's own asset on a platform.
pub open spec fn server_rule(is_windows: bool) -> AssetRule {
    if is_windows {
        AssetRule::WindowsInstaller
    } else {
        AssetRule::UnixTarball
    }
}

/// The label for the server's own asset on a platform.
pub open spec fn server_label(is_windows: bool, is_macos: bool) -> Seq<char> {
    if is_windows {
        seq![]
    } else {
        os_label(is_macos)
    }
}

/// Decides the server's self-update against the latest release: the
/// Windows installer on Windows, the OS tarball on Linux and macOS.
pub fn decide_update(release: &LatestRelease, local: &str, is_windows: bool, is_macos: bool) -> (s: UpdateStep)
    ensures
        update_step_spec(*release, local@, server_rule(is_windows), server_label(is_windows, is_macos), s),
{
    if is_windows {
        assert(""@ =~= Seq::<char>::empty()) by {
            reveal_strlit("");
        }
        step_for(release, local, AssetRule::WindowsInstaller, "")
    } else if is_macos {
        step_for(release, local, AssetRule::UnixTarball, "macos")
    } else {
        step_for(release, local, AssetRule::UnixTarball, "linux")
    }
}

/// Decides a bundled component's update: its Windows zip on Windows, its
/// Linux tarball elsewhere (there are no macOS builds of the components).
pub fn decide_component_update(release: &LatestRelease, local_version: &str, dir_name: &str, is_windows: bool) -> (s: UpdateStep)
    ensures
        update_step_spec(
            *release,
            local_version@,
            if is_windows {
                AssetRule::WindowsZip
            } else {
                AssetRule::LinuxTarball
            },
            dir_name@,
            s,
        ),
{
    if is_windows {
        step_for(release, local_version, AssetRule::WindowsZip, dir_name)
    } else {
        step_for(release, local_version, AssetRule::LinuxTarball, dir_name)
    }
}

// ---------------------------------------------------------------------------
// Components

/// A component bundled next to the server: it lives in `{exe_dir}/{dir_name}/`
/// and is released from `repo`.
pub struct Component {
    pub dir_name: &'static str,
    pub repo: &'static str,
    /// The executable's name without `.exe`.
    pub binary_stem: &'static str,
}

/// The bundled components, in the order they are checked.
pub fn components() -> (cs: Vec<Component>)
    ensures
        cs.len() == 2,
        cs@[0].dir_name@ == "aruaru-llm"@ && cs@[0].repo@ == "aon-co-jp/aruaru-llm"@ && cs@[0].binary_stem@
            == "aruaru-llm"@,
        cs@[1].dir_name@ == "aruaru-db"@ && cs@[1].repo@ == "aon-co-jp/aruaru-db"@ && cs@[1].binary_stem@
            == "aruaru-server"@,
{
    let mut cs: Vec<Component> = Vec::new();
    cs.push(Component { dir_name: "aruaru-llm", repo: "aon-co-jp/aruaru-llm", binary_stem: "aruaru-llm" });
    cs.push(Component { dir_name: "aruaru-db", repo: "aon-co-jp/aruaru-db", binary_stem: "aruaru-server" });
    cs
}

/// Name of the file that records a component's installed release tag.
pub const VERSION_MARKER: &'static str = ".component-version";

/// The executable's file name: `.exe` is added on Windows only.
pub fn binary_file_name(stem: &str, is_windows: bool) -> (res: String)
    ensures
        res@ == (if is_windows {
            stem@ + ".exe"@
        } else {
            stem@
        }),
{
    if is_windows {
        let mut out = chars_of(stem);
        let ext = chars_of(".exe");
        let mut i: usize = 0;
        while i < ext.len()
            invariant
                i <= ext.len(),
                out@ == stem@ + ext@.take(i as int),
            decreases ext.len() - i,
        {
            out.push(ext[i]);
            i = i + 1;
            assert(out@ =~= stem@ + ext@.take(i as int));
        }
        assert(ext@.take(i as int) =~= ext@);
        string_from_chars(&out)
    } else {
        String::from_str(stem)
    }
}

/// The installed version of a component from its marker file: the trimmed
/// contents, or `"0.0.0"` (older than any release) when there is no marker.
pub fn component_version_from_marker(contents: Option<&str>) -> (res: String)
    ensures
        res@ == match opt_str(contents) {
            Some(c) => trim(c),
            None => "0.0.0"@,
        },
{
    match contents {
        Some(c) => string_from_chars(&trimmed(c)),
        None => String::from_str("0.0.0"),
    }
}

/// A component without a marker counts as older than any release whose tag
/// names a version other than 0.0.0.
pub proof fn missing_marker_is_oldest(tag: Seq<char>)
    requires
        version_spec(tag) != (0int, 0int, 0int),
    ensures
        version_after(version_spec(tag), version_spec("0.0.0"@)),
{
    reveal_strlit("0.0.0");
    let z = "0.0.0"@;
    assert(trim(z) == z);
    assert(strip_leading(z, 'v') == z);
    let parts = split_on(z, '.');
    assert(z[0] == '0' && z[1] == '.' && z[2] == '0' && z[3] == '.' && z[4] == '0');
    assert(z.take(0) =~= Seq::<char>::empty());
    assert(split_on(z.take(0), '.') =~= seq![Seq::<char>::empty()]);
    lemma_split_on_step(z, 0, '.');
    assert(split_on(z.take(1), '.') =~= seq![seq!['0']]);
    lemma_split_on_step(z, 1, '.');
    assert(split_on(z.take(2), '.') =~= seq![seq!['0'], Seq::<char>::empty()]);
    lemma_split_on_step(z, 2, '.');
    assert(split_on(z.take(3), '.') =~= seq![seq!['0'], seq!['0']]);
    lemma_split_on_step(z, 3, '.');
    assert(split_on(z.take(4), '.') =~= seq![seq!['0'], seq!['0'], Seq::<char>::empty()]);
    lemma_split_on_step(z, 4, '.');
    assert(z.take(5) =~= z);
    assert(split_on(z, '.') =~= seq![seq!['0'], seq!['0'], seq!['0']]);
    let zero = seq!['0'];
    assert(zero.drop_last() =~= Seq::<char>::empty());
    assert(digits_value(Seq::<char>::empty()) == 0);
    assert(('0' as int) == 48);
    assert(digits_value(zero) == 0);
    assert(all_digits(zero));
    assert(parse_uint(zero, u64::MAX as int) == Some(0int));
    assert(version_spec(z) == (0int, 0int, 0int));
    let v = version_spec(tag);
    assert(v.0 >= 0 && v.1 >= 0 && v.2 >= 0) by {
        let parts = split_on(strip_leading(trim(tag), 'v'), '.');
        lemma_part_nonneg(parts, 0);
        lemma_part_nonneg(parts, 1);
        lemma_part_nonneg(parts, 2);
    }
}

proof fn lemma_part_nonneg(parts: Seq<Seq<char>>, i: int)
    ensures
        part_value(parts, i) >= 0,
{
    if 0 <= i < parts.len() {
        let t = parts[i];
        let u = if t.len() > 0 && t[0] == '+' { t.drop_first() } else { t };
        if parse_uint(t, u64::MAX as int) is Some {
            crate::text::lemma_digits_nonneg(u);
        }
    }
}

// ---------------------------------------------------------------------------
// The Windows update script

/// The batch script that replaces the installed server on Windows: wait,
/// run the old uninstaller if there is one, run the new installer silently,
/// wait for the new version to come up, check `/healthz`, and on failure
/// kill it, restore the backup and start the old executable; then clean up.
pub open spec fn windows_update_script_spec(
    uninstaller: Option<Seq<char>>,
    installer: Seq<char>,
    addr: Seq<char>,
    exe_name: Seq<char>,
    backup_dir: Seq<char>,
    install_dir: Seq<char>,
    exe: Seq<char>,
    script_path: Seq<char>,
) -> Seq<char> {
    let q = seq!['"'];
    let head = "@echo off\r\nping 127.0.0.1 -n 3 > nul\r\n"@;
    let uninstall = match uninstaller {
        Some(u) => q + u + q + " /VERYSILENT /SUPPRESSMSGBOXES\r\n"@ + "ping 127.0.0.1 -n 3 > nul\r\n"@,
        None => seq![],
    };
    head + uninstall + q + installer + q + " /VERYSILENT /SUPPRESSMSGBOXES\r\n"@
        + "ping 127.0.0.1 -n "@ + crate::text::decimal((HEALTH_CHECK_SECS + 3) as nat) + " > nul\r\n"@
        + "powershell -NoProfile -Command \"try { $r = Invoke-WebRequest -UseBasicParsing -TimeoutSec 3 'http://"@
        + addr + "/healthz'; if ($r.StatusCode -ne 200) { exit 1 } } catch { exit 1 }\"\r\n"@
        + "if %errorlevel% neq 0 (\r\n"@
        + "  taskkill /IM \""@ + exe_name + "\" /F >nul 2>nul\r\n"@
        + "  ping 127.0.0.1 -n 2 > nul\r\n"@
        + "  xcopy \""@ + backup_dir + "\" \""@ + install_dir + "\" /E /Y /I >nul\r\n"@
        + "  start \"\" \""@ + exe + "\"\r\n"@
        + ")\r\n"@
        + "rd /S /Q \""@ + backup_dir + "\"\r\n"@
        + "del \""@ + script_path + "\"\r\n"@
}

/// When the new version fails its health check, the script's failure
/// branch restores the backup into the install directory and then starts
/// the old executable again, before the branch closes; the script ends by
/// deleting itself.
pub proof fn failed_update_restarts_old_server(
    uninstaller: Option<Seq<char>>,
    installer: Seq<char>,
    addr: Seq<char>,
    exe_name: Seq<char>,
    backup_dir: Seq<char>,
    install_dir: Seq<char>,
    exe: Seq<char>,
    script_path: Seq<char>,
)
    ensures
        exists|pre: Seq<char>, mid: Seq<char>, post: Seq<char>|
            windows_update_script_spec(uninstaller, installer, addr, exe_name, backup_dir, install_dir, exe, script_path)
                == pre + "if %errorlevel% neq 0 (\r\n"@ + mid + ("  xcopy \""@ + backup_dir + "\" \""@ + install_dir
                + "\" /E /Y /I >nul\r\n"@) + ("  start \"\" \""@ + exe + "\"\r\n"@) + ")\r\n"@ + post,
        ends_with(
            windows_update_script_spec(uninstaller, installer, addr, exe_name, backup_dir, install_dir, exe, script_path),
            "del \""@ + script_path + "\"\r\n"@,
        ),
{
    let q = seq!['"'];
    let head = "@echo off\r\nping 127.0.0.1 -n 3 > nul\r\n"@;
    let uninstall = match uninstaller {
        Some(u) => q + u + q + " /VERYSILENT /SUPPRESSMSGBOXES\r\n"@ + "ping 127.0.0.1 -n 3 > nul\r\n"@,
        None => seq![],
    };
    let pre = head + uninstall + q + installer + q + " /VERYSILENT /SUPPRESSMSGBOXES\r\n"@ + "ping 127.0.0.1 -n "@
        + crate::text::decimal((HEALTH_CHECK_SECS + 3) as nat) + " > nul\r\n"@
        + "powershell -NoProfile -Command \"try { $r = Invoke-WebRequest -UseBasicParsing -TimeoutSec 3 'http://"@
        + addr + "/healthz'; if ($r.StatusCode -ne 200) { exit 1 } } catch { exit 1 }\"\r\n"@;
    let mid = "  taskkill /IM \""@ + exe_name + "\" /F >nul 2>nul\r\n"@ + "  ping 127.0.0.1 -n 2 > nul\r\n"@;
    let post = "rd /S /Q \""@ + backup_dir + "\"\r\n"@ + ("del \""@ + script_path + "\"\r\n"@);
    let s = windows_update_script_spec(uninstaller, installer, addr, exe_name, backup_dir, install_dir, exe, script_path);
    let x = "  xcopy \""@ + backup_dir + "\" \""@ + install_dir + "\" /E /Y /I >nul\r\n"@;
    let st = "  start \"\" \""@ + exe + "\"\r\n"@;
    assert(s =~= pre + "if %errorlevel% neq 0 (\r\n"@ + mid + x + st + ")\r\n"@ + post);
    let d = "del \""@ + script_path + "\"\r\n"@;
    assert(s.skip(s.len() - d.len()) =~= d);
}

/// Writes the Windows update script (see `windows_update_script_spec`).
pub fn windows_update_script(
    uninstaller: Option<&str>,
    installer: &str,
    addr: &str,
    exe_name: &str,
    backup_dir: &str,
    install_dir: &str,
    exe: &str,
    script_path: &str,
) -> (r: String)
    ensures
        r@ == windows_update_script_spec(
            opt_str(uninstaller),
            installer@,
            addr@,
            exe_name@,
            backup_dir@,
            install_dir@,
            exe@,
            script_path@,
        ),
{
    let mut o: Vec<char> = Vec::new();
    crate::text::push_str(&mut o, "@echo off\r\nping 127.0.0.1 -n 3 > nul\r\n");
    match uninstaller {
        Some(u) => {
            o.push('"');
            crate::text::push_str(&mut o, u);
            o.push('"');
            crate::text::push_str(&mut o, " /VERYSILENT /SUPPRESSMSGBOXES\r\n");
            crate::text::push_str(&mut o, "ping 127.0.0.1 -n 3 > nul\r\n");
        },
        None => {},
    }
    o.push('"');
    crate::text::push_str(&mut o, installer);
    o.push('"');
    crate::text::push_str(&mut o, " /VERYSILENT /SUPPRESSMSGBOXES\r\n");
    crate::text::push_str(&mut o, "ping 127.0.0.1 -n ");
    crate::text::push_decimal(&mut o, HEALTH_CHECK_SECS + 3);
    crate::text::push_str(&mut o, " > nul\r\n");
    crate::text::push_str(
        &mut o,
        "powershell -NoProfile -Command \"try { $r = Invoke-WebRequest -UseBasicParsing -TimeoutSec 3 'http://",
    );
    crate::text::push_str(&mut o, addr);
    crate::text::push_str(
        &mut o,
        "/healthz'; if ($r.StatusCode -ne 200) { exit 1 } } catch { exit 1 }\"\r\n",
    );
    crate::text::push_str(&mut o, "if %errorlevel% neq 0 (\r\n");
    crate::text::push_str(&mut o, "  taskkill /IM \"");
    crate::text::push_str(&mut o, exe_name);
    crate::text::push_str(&mut o, "\" /F >nul 2>nul\r\n");
    crate::text::push_str(&mut o, "  ping 127.0.0.1 -n 2 > nul\r\n");
    crate::text::push_str(&mut o, "  xcopy \"");
    crate::text::push_str(&mut o, backup_dir);
    crate::text::push_str(&mut o, "\" \"");
    crate::text::push_str(&mut o, install_dir);
    crate::text::push_str(&mut o, "\" /E /Y /I >nul\r\n");
    crate::text::push_str(&mut o, "  start \"\" \"");
    crate::text::push_str(&mut o, exe);
    crate::text::push_str(&mut o, "\"\r\n");
    crate::text::push_str(&mut o, ")\r\n");
    crate::text::push_str(&mut o, "rd /S /Q \"");
    crate::text::push_str(&mut o, backup_dir);
    crate::text::push_str(&mut o, "\"\r\n");
    crate::text::push_str(&mut o, "del \"");
    crate::text::push_str(&mut o, script_path);
    crate::text::push_str(&mut o, "\"\r\n");
    assert(o@ =~= windows_update_script_spec(
        opt_str(uninstaller),
        installer@,
        addr@,
        exe_name@,
        backup_dir@,
        install_dir@,
        exe@,
        script_path@,
    ));
    string_from_chars(&o)
}

// ---------------------------------------------------------------------------
// Health checks of an updated component

/// What to do after one second of watching a freshly started component.
pub enum ProbeStep {
    /// It answered its health check: keep the new version.
    Healthy,
    /// It exited, or never answered in time: roll back.
    Failed,
    /// Wait another second.
    Wait,
}

/// The decision after check number `round` (from 0): an exited process has
/// failed, an answering one is healthy, and after `HEALTH_CHECK_SECS`
/// checks without an answer the update has failed.
pub fn probe_step(round: u64, exited: bool, healthy: bool) -> (s: ProbeStep)
    ensures
        exited ==> s is Failed,
        !exited && healthy ==> s is Healthy,
        !exited && !healthy ==> (if round + 1 >= HEALTH_CHECK_SECS {
            s is Failed
        } else {
            s is Wait
        }),
{
    if exited {
        ProbeStep::Failed
    } else if healthy {
        ProbeStep::Healthy
    } else if round >= HEALTH_CHECK_SECS - 1 {
        ProbeStep::Failed
    } else {
        ProbeStep::Wait
    }
}

/// How an updated component is tried before the update is kept.
pub enum HealthPlan {
    /// Start it and wait for its HTTP health endpoint (aruaru-llm).
    Http,
    /// Start it and wait for its pgwire port to accept connections (a
    /// database component that was running before the update).
    PgPort,
    /// Keep the new files without starting it (a database component that
    /// was not running).
    KeepWithoutStart,
}

/// The check for component `dir_name`: aruaru-llm is always started and
/// asked for its health; another component is started and probed on its
/// port only when it was running before.
pub fn health_plan(dir_name: &str, was_running: bool) -> (p: HealthPlan)
    ensures
        dir_name@ == "aruaru-llm"@ ==> p is Http,
        dir_name@ != "aruaru-llm"@ && was_running ==> p is PgPort,
        dir_name@ != "aruaru-llm"@ && !was_running ==> p is KeepWithoutStart,
{
    if crate::text::chars_eq(&chars_of(dir_name), &chars_of("aruaru-llm")) {
        HealthPlan::Http
    } else if was_running {
        HealthPlan::PgPort
    } else {
        HealthPlan::KeepWithoutStart
    }
}

/// Whether the output of Windows `tasklist` names the process
/// `binary_file_name`, ignoring case.
pub fn tasklist_mentions(output: &str, binary_file_name: &str) -> (b: bool)
    ensures
        b == contains(unicode_lowercase(output@), unicode_lowercase(binary_file_name@)),
{
    let o = lowercase(output);
    let n = lowercase(binary_file_name);
    contains_chars(&chars_of(o.as_str()), &chars_of(n.as_str()))
}

/// What to do after one second of watching the server's own new binary.
pub enum SelfProbeStep {
    /// It exited: roll back.
    Failed,
    /// It stayed up for the whole grace period: check its health once.
    CheckHealth,
    /// Wait another second.
    Wait,
}

/// The decision after second number `round` (from 0): an exited process has
/// failed; one still running after `HEALTH_CHECK_SECS` seconds gets its
/// health checked.
pub fn self_probe_step(round: u64, exited: bool) -> (s: SelfProbeStep)
    ensures
        exited ==> s is Failed,
        !exited ==> (if round + 1 >= HEALTH_CHECK_SECS {
            s is CheckHealth
        } else {
            s is Wait
        }),
{
    if exited {
        SelfProbeStep::Failed
    } else if round >= HEALTH_CHECK_SECS - 1 {
        SelfProbeStep::CheckHealth
    } else {
        SelfProbeStep::Wait
    }
}

/// The port the new binary is probed on: the server's port plus one,
/// wrapping at 65535.
pub fn probe_port(port: u16) -> (r: u16)
    ensures
        r as int == (port as int + 1) % 65536,
{
    if port == 65535 {
        0
    } else {
        port + 1
    }
}

/// The address aruaru-llm listens on: `ARUARU_LLM_BIND`, else
/// `127.0.0.1:4600`.
pub fn llm_bind_setting(value: Option<&str>) -> (r: String)
    ensures
        r@ == match opt_str(value) {
            Some(v) => v,
            None => "127.0.0.1:4600"@,
        },
{
    match value {
        Some(v) => String::from_str(v),
        None => String::from_str("127.0.0.1:4600"),
    }
}

/// The pgwire port of aruaru-db: `ARUARU_DB_PG_PORT` when it parses as a
/// `u16`, else 5432.
pub fn pg_port_setting(value: Option<&str>) -> (r: u16)
    ensures
        r as int == match opt_str(value) {
            Some(v) => match parse_uint(v, 65535) {
                Some(n) => n,
                None => 5432,
            },
            None => 5432,
        },
{
    match value {
        Some(v) => match parse_unsigned(v, 65535) {
            Some(n) => n as u16,
            None => 5432,
        },
        None => 5432,
    }
}

} // verus!
