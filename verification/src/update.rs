//! Updates of the program itself.

use vstd::prelude::*;

use crate::json::{Json, JsonView};
use crate::text;

verus! {

/// Where releases are: at the agent's server, or at the public one before there is
/// an agent.
pub open spec fn releases_of(base: Seq<char>) -> Seq<char> {
    text::strip_end(base, '/') + "/releases/latest"@
}

/// Where releases are.
pub fn releases_base_url(api_url: Option<&str>, public_url: &str) -> (r: String)
    ensures
        r@ == releases_of(
            match api_url {
                Some(u) => u@,
                None => public_url@,
            },
        ),
{
    let base = match api_url {
        Some(u) => u,
        None => public_url,
    };
    let b = text::trim_end_matches(base, '/');
    text::cat2(b.as_str(), "/releases/latest")
}

/// Where the latest version is told.
pub fn version_url(api_url: Option<&str>, public_url: &str) -> (r: String)
    ensures
        r@ == releases_of(
            match api_url {
                Some(u) => u@,
                None => public_url@,
            },
        ) + "/version.json"@,
{
    let base = releases_base_url(api_url, public_url);
    text::cat2(base.as_str(), "/version.json")
}

/// The name of an operating system in releases.
pub open spec fn os_name(os: Seq<char>) -> Seq<char> {
    if os == "macos"@ {
        "darwin"@
    } else {
        os
    }
}

/// The name of a processor in releases.
pub open spec fn arch_name(arch: Seq<char>) -> Seq<char> {
    if arch == "x86_64"@ {
        "amd64"@
    } else if arch == "aarch64"@ {
        "arm64"@
    } else {
        arch
    }
}

/// The name of a platform in releases.
pub fn detect_platform(os: &str, arch: &str) -> (r: String)
    ensures
        r@ == os_name(os@) + "-"@ + arch_name(arch@),
{
    let o = if text::same(os, "macos") {
        "darwin"
    } else {
        os
    };
    let a = if text::same(arch, "x86_64") {
        "amd64"
    } else if text::same(arch, "aarch64") {
        "arm64"
    } else {
        arch
    };
    text::cat3(o, "-", a)
}

/// The latest version: that of the platform, or that of all.
pub open spec fn latest_of(info: JsonView, platform: Seq<char>) -> Option<Seq<char>> {
    let own = match info.field("platforms"@) {
        Some(p) => p.text(platform),
        None => None,
    };
    match own {
        Some(v) => Some(v),
        None => info.text("version"@),
    }
}

/// The latest version: that of the platform, or that of all.
pub fn latest_version(info: &Json, platform: &str) -> (r: Result<String, String>)
    ensures
        match latest_of(info@, platform@) {
            Some(v) => r matches Ok(s) && s@ == v,
            None => r matches Err(e) && e@ == "Invalid version.json: missing version for "@
                + platform@,
        },
{
    let own = match info.get("platforms") {
        Some(p) => p.text(platform),
        None => None,
    };
    match own {
        Some(v) => Ok(v),
        None => match info.text("version") {
            Some(v) => Ok(v),
            None => Err(text::cat2("Invalid version.json: missing version for ", platform)),
        },
    }
}

/// What an update does.
#[derive(Debug, Clone, Copy, PartialEq, Eq, Structural)]
pub enum UpdatePlan {
    /// The program is current.
    Nothing,
    /// The program is current, and what it installs is installed again.
    Refresh,
    /// The program is replaced.
    Download,
}

/// What updating comes to.
pub open spec fn update_plan_of(latest: Seq<char>, current: Seq<char>, force: bool) -> UpdatePlan {
    if latest != current {
        UpdatePlan::Download
    } else if force {
        UpdatePlan::Refresh
    } else {
        UpdatePlan::Nothing
    }
}

/// What an update does: a program that is current is not fetched again.
pub fn update_plan(latest: &str, current: &str, force: bool) -> (r: UpdatePlan)
    ensures
        r == update_plan_of(latest@, current@, force),
{
    if !text::same(latest, current) {
        UpdatePlan::Download
    } else if force {
        UpdatePlan::Refresh
    } else {
        UpdatePlan::Nothing
    }
}

/// The name of the program of a platform.
pub open spec fn binary_of(platform: Seq<char>, windows: bool) -> Seq<char> {
    "b3-"@ + platform + (if windows {
        ".exe"@
    } else {
        ""@
    })
}

/// The name of the program of a platform, where it is, and where its checksum is.
pub fn download_urls(base: &str, platform: &str, windows: bool) -> (r: (String, String, String))
    ensures
        r.0@ == binary_of(platform@, windows),
        r.1@ == base@ + "/"@ + binary_of(platform@, windows),
        r.2@ == base@ + "/"@ + binary_of(platform@, windows) + ".sha256"@,
{
    let ext = if windows {
        ".exe"
    } else {
        ""
    };
    let name = text::cat3("b3-", platform, ext);
    let url = text::cat3(base, "/", name.as_str());
    let sum = text::cat2(url.as_str(), ".sha256");
    (name, url, sum)
}

/// The checksum that is expected, by the file that tells it; without the file there
/// is none.
pub fn expected_checksum(file: Option<&str>) -> (r: String)
    ensures
        r@ == (match file {
            Some(s) => text::first_word_spec(s@),
            None => ""@,
        }),
{
    match file {
        Some(s) => text::first_word(s),
        None => "".to_owned(),
    }
}

/// The checksum that a tool printed, where it did.
pub fn compute_sha256(success: bool, printed: &str) -> (r: Result<String, &'static str>)
    ensures
        if !success {
            r matches Err(e) && e@ == "SHA256 computation failed"@
        } else if text::first_word_spec(printed@).len() == 0 {
            r matches Err(e) && e@ == "Could not parse SHA256 output"@
        } else {
            r matches Ok(s) && s@ == text::first_word_spec(printed@)
        },
{
    if !success {
        return Err("SHA256 computation failed");
    }
    let w = text::first_word(printed);
    if w.as_str().is_empty() {
        Err("Could not parse SHA256 output")
    } else {
        Ok(w)
    }
}

/// Why a program is not installed, where it is not: its checksum is not the one
/// that is expected.
pub fn verify_download(expected: &str, actual: &str) -> (r: Result<(), String>)
    ensures
        if expected@.len() == 0 || expected@ == actual@ {
            r is Ok
        } else {
            r matches Err(e) && e@ == "Checksum mismatch!\n  Expected: "@ + expected@
                + "\n  Got:      "@ + actual@
        },
{
    if expected.is_empty() || text::same(expected, actual) {
        Ok(())
    } else {
        Err(
            text::cat4(
                "Checksum mismatch!\n  Expected: ",
                expected,
                "\n  Got:      ",
                actual,
            ),
        )
    }
}

/// The arguments with which the new program goes on: it installs what belongs to it,
/// and then starts the daemon, where that was asked for.
pub fn chain_args(and_start: &[String]) -> (r: Vec<String>)
    ensures
        text::views(r@) == (if and_start@.len() > 0 {
            seq!["install-skills"@, "--and-start"@] + text::views(and_start@)
        } else {
            seq!["install-skills"@]
        }),
{
    let mut v: Vec<String> = Vec::new();
    v.push("install-skills".to_owned());
    let ghost args = text::views(and_start@);
    assert(text::views(v@) =~= seq!["install-skills"@]);
    if and_start.len() > 0 {
        v.push("--and-start".to_owned());
        let ghost head = seq!["install-skills"@, "--and-start"@];
        assert(text::views(v@) =~= seq!["install-skills"@].push("--and-start"@));
        assert(text::views(v@) =~= head + args.take(0));
        let mut i: usize = 0;
        while i < and_start.len()
            invariant
                i <= and_start@.len(),
                args == text::views(and_start@),
                head == seq!["install-skills"@, "--and-start"@],
                text::views(v@) == head + args.take(i as int),
            decreases and_start.len() - i,
        {
            let ghost before = text::views(v@);
            v.push(and_start[i].clone());
            assert(text::views(v@) =~= before.push(args[i as int]));
            assert(args.take(i + 1) =~= args.take(i as int).push(args[i as int]));
            assert(text::views(v@) =~= head + args.take(i + 1));
            i = i + 1;
        }
        assert(args.take(i as int) =~= args);
    }
    v
}

/// The newest version is that of the platform, where it has one of its own, else that of
/// all.
pub proof fn law_newest_version(info: JsonView, platform: Seq<char>, own: JsonView, v: Seq<char>)
    ensures
        info.field("platforms"@) == Some(own) && own.text(platform) == Some(v) ==> latest_of(
            info,
            platform,
        ) == Some(v),
        info.field("platforms"@) is None ==> latest_of(info, platform) == info.text("version"@),
{
}

/// A platform's file bears the platform's name.
pub proof fn law_binary_named(platform: Seq<char>)
    ensures
        binary_of(platform, false) == "b3-"@ + platform,
        binary_of(platform, true) == "b3-"@ + platform + ".exe"@,
        os_name("macos"@) == "darwin"@,
        arch_name("x86_64"@) == "amd64"@,
        arch_name("aarch64"@) == "arm64"@,
{
    reveal_strlit("");
    reveal_strlit("x86_64");
    reveal_strlit("aarch64");
    assert("x86_64"@.len() != "aarch64"@.len());
    assert("b3-"@ + platform + ""@ =~= "b3-"@ + platform);
}

/// The newest release is looked for below the server's address, with or without a slash
/// at its end.
pub proof fn law_release_address(base: Seq<char>)
    requires
        base.len() > 0,
        base.last() != '/',
    ensures
        releases_of(base) == base + "/releases/latest"@,
        releases_of(base.push('/')) == base + "/releases/latest"@,
{
    text::law_strip_end(base, '/');
}

/// Another version is downloaded, and the one that runs never is.
pub proof fn law_update_when_newer(latest: Seq<char>, current: Seq<char>, force: bool)
    ensures
        update_plan_of(latest, current, force) == UpdatePlan::Download <==> latest != current,
        update_plan_of(current, current, false) == UpdatePlan::Nothing,
        update_plan_of(current, current, true) == UpdatePlan::Refresh,
{
}

} // verus!
