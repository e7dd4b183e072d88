//! Installing an executor and the shim on a remote host: what is fetched from
//! where, what it is called there, and how it is recorded.

use vstd::prelude::*;
use vstd::string::*;
use vstd::utf8::*;
use crate::digest::{all_hex, hex_text, is_digest, sha256, sha256_bytes, validate_sha256};
use crate::failure::{Failure, outcome, refuse, refuse_about, refuse_naming, refused};
use crate::profile::Profile;
use crate::scripts::{InstallScript, executor_version_of};
use crate::ssh::RemoteFacts;
use crate::text::{
    ascii_alphanumeric, chars_of, is_ascii_alphanumeric, is_hex_digit, lemma_run_bounds, lines,
    lower, lowered, optional_text, run, same_text, split_at_char, split_lines, split_once,
    split_words, string_of, strip_end, stripped_end, text_of_utf8, texts, trim, trimmed, words,
};

verus! {

pub const SHUTTLE_RELEASES: &'static str = "https://github.com/pengzhendong/codex-shuttle/releases/download";

/// Where OpenAI publishes its releases of Codex.
pub const OPENAI_RELEASES: &'static str = "https://github.com/openai/codex/releases/download";

pub const REMOTE_LAYOUT_VERSION: u32 = 3;

#[derive(Debug, Clone)]
pub struct InstallOptions {
    pub runtime_package: Option<String>,
    pub local_download: bool,
    pub remote_codex: Option<String>,
    pub shim: Option<String>,
    pub shuttle_release_base: String,
}

impl Default for InstallOptions {
    fn default() -> (r: InstallOptions)
        ensures
            r.runtime_package is None,
            !r.local_download,
            r.remote_codex is None,
            r.shim is None,
            r.shuttle_release_base@ == SHUTTLE_RELEASES@,
    {
        InstallOptions {
            runtime_package: None,
            local_download: false,
            remote_codex: None,
            shim: None,
            shuttle_release_base: SHUTTLE_RELEASES.to_owned(),
        }
    }
}

/// Where the executor of an installation comes from.
#[derive(Debug, Clone, Copy, PartialEq, Eq, Structural)]
pub enum ExecutorSource {
    ManagedRuntime,
    RemoteExisting,
}

impl ExecutorSource {
    pub open spec fn name(&self) -> Seq<char> {
        match self {
            ExecutorSource::ManagedRuntime => "managed-runtime"@,
            ExecutorSource::RemoteExisting => "remote-existing"@,
        }
    }

    /// The name under which profiles record the source.
    pub fn label(&self) -> (r: String)
        ensures
            r@ == self.name(),
    {
        match self {
            ExecutorSource::ManagedRuntime => "managed-runtime".to_owned(),
            ExecutorSource::RemoteExisting => "remote-existing".to_owned(),
        }
    }
}

/// What an installation leaves in the profile.
#[derive(Debug, Clone, PartialEq, Eq)]
pub struct InstallRecord {
    pub target: String,
    pub remote_home: String,
    pub remote_release: String,
    pub package_sha256: Option<String>,
    pub shim_sha256: String,
    pub executor_source: ExecutorSource,
    pub executor_path: String,
}

/// What an installation leaves on the host.
#[derive(Debug, Clone, PartialEq, Eq)]
pub struct RemoteInstall {
    pub layout_version: u32,
    pub profile: String,
    pub codex_version: String,
    pub runtime_version: Option<String>,
    pub target: String,
    pub package_sha256: Option<String>,
    pub shim_sha256: String,
    pub release: String,
    pub executor_source: Option<ExecutorSource>,
    pub executor_path: Option<String>,
    pub executor_sha256: Option<String>,
}

/// The layout of installations that do not say which one they have.
pub fn legacy_layout_version() -> (r: u32)
    ensures
        r == 1,
{
    1
}

/// What the shim on the host needs to know.
#[derive(Debug)]
pub struct ShimConfig {
    pub profile: String,
    pub codex_version: String,
    pub agent_socket: String,
    pub control_socket: String,
    pub token_file: String,
    pub exec_server: String,
    pub exec_server_args: Vec<String>,
    pub exec_server_port: u16,
    pub codex_home: String,
    pub original_codex: String,
}

/// A Codex that the host already has: where it is now, where it will be once
/// the shim is in place, and its digest.
#[derive(Debug)]
pub struct ReusableExecutor {
    pub probe_path: String,
    pub installed_path: String,
    pub sha256: String,
}

// ---------------------------------------------------------------------------
// Versions, targets, addresses
// ---------------------------------------------------------------------------

pub open spec fn is_version_char(c: char) -> bool {
    is_ascii_alphanumeric(c) || c == '.' || c == '-' || c == '+'
}

pub open spec fn is_version(version: Seq<char>) -> bool {
    &&& 1 <= version.len() <= 80
    &&& forall|i: int| 0 <= i < version.len() ==> is_version_char(#[trigger] version[i])
}

/// The version that Codex reports: the last word of its output.
pub open spec fn release_version(output: Seq<char>) -> Result<Seq<char>, Seq<char>> {
    let fields = words(output, true);
    if fields.len() == 0 {
        Err("Codex version output was empty"@)
    } else if is_version(fields.last()) {
        Ok(fields.last())
    } else {
        Err("unsupported Codex version string '"@ + fields.last() + "'"@)
    }
}

/// The version of the sources that a build of Codex was made from: a build may
/// carry a suffix behind a hyphen.
pub open spec fn source_version(output: Seq<char>) -> Result<Seq<char>, Seq<char>> {
    match release_version(output) {
        Ok(version) => match split_once(version, |c: char| c == '-') {
            Some((source, _)) => Ok(source),
            None => Ok(version),
        },
        Err(e) => Err(e),
    }
}

fn version_text(version: &str) -> (r: bool)
    ensures
        r == is_version(version@),
{
    let chars = chars_of(version);
    if chars.len() == 0 || chars.len() > 80 {
        return false;
    }
    let mut i: usize = 0;
    while i < chars.len()
        invariant
            i <= chars.len(),
            chars@ == version@,
            forall|j: int| 0 <= j < i ==> is_version_char(#[trigger] chars@[j]),
        decreases chars.len() - i,
    {
        let c: char = chars[i];
        if !(ascii_alphanumeric(c) || c == '.' || c == '-' || c == '+') {
            assert(!is_version_char(version@[i as int]));
            return false;
        }
        i = i + 1;
    }
    true
}

pub fn codex_release_version(version_output: &str) -> (r: Result<String, Failure>)
    ensures
        outcome(r) == release_version(version_output@),
{
    let mut fields = split_words(version_output, true);
    let ghost all = texts(fields@);
    assert(all.len() == fields@.len());
    match fields.pop() {
        None => Err(refuse("Codex version output was empty")),
        Some(version) => {
            assert(all.last() == version@);
            if version_text(&version) {
                Ok(version)
            } else {
                Err(refuse_naming("unsupported Codex version string '", &version, "'"))
            }
        },
    }
}

pub fn codex_source_version(version_output: &str) -> (r: Result<String, Failure>)
    ensures
        outcome(r) == source_version(version_output@),
{
    match codex_release_version(version_output) {
        Ok(version) => match split_at_char(&version, '-') {
            Some((source, _)) => Ok(source),
            None => Ok(version),
        },
        Err(e) => Err(e),
    }
}

/// The build target of a Linux host.
pub open spec fn linux_target_of(kernel: Seq<char>, arch: Seq<char>) -> Result<
    Seq<char>,
    Seq<char>,
> {
    if kernel != "Linux"@ {
        Err("unsupported remote kernel "@ + kernel)
    } else if arch == "x86_64"@ || arch == "amd64"@ {
        Ok("x86_64-unknown-linux-musl"@)
    } else if arch == "aarch64"@ || arch == "arm64"@ {
        Ok("aarch64-unknown-linux-musl"@)
    } else {
        Err("unsupported remote architecture "@ + arch)
    }
}

/// The build target of a host: Linux, or macOS on Apple Silicon. Macs with
/// other processors are no hosts.
pub open spec fn target_of(kernel: Seq<char>, arch: Seq<char>) -> Result<Seq<char>, Seq<char>> {
    if kernel == "Darwin"@ {
        if arch == "arm64"@ || arch == "aarch64"@ {
            Ok("aarch64-apple-darwin"@)
        } else {
            Err("unsupported remote architecture "@ + arch)
        }
    } else {
        linux_target_of(kernel, arch)
    }
}

pub fn linux_target(facts: &RemoteFacts) -> (r: Result<&'static str, Failure>)
    ensures
        match r {
            Ok(target) => linux_target_of(facts.kernel@, facts.arch@) == Ok::<Seq<char>, Seq<char>>(
                target@,
            ),
            Err(e) => linux_target_of(facts.kernel@, facts.arch@) == Err::<Seq<char>, Seq<char>>(
                e@,
            ),
        },
{
    if !same_text(&facts.kernel, "Linux") {
        return Err(refuse_about("unsupported remote kernel ", &facts.kernel));
    }
    if same_text(&facts.arch, "x86_64") || same_text(&facts.arch, "amd64") {
        Ok("x86_64-unknown-linux-musl")
    } else if same_text(&facts.arch, "aarch64") || same_text(&facts.arch, "arm64") {
        Ok("aarch64-unknown-linux-musl")
    } else {
        Err(refuse_about("unsupported remote architecture ", &facts.arch))
    }
}

pub fn remote_target(facts: &RemoteFacts) -> (r: Result<&'static str, Failure>)
    ensures
        match r {
            Ok(target) => target_of(facts.kernel@, facts.arch@) == Ok::<Seq<char>, Seq<char>>(
                target@,
            ),
            Err(e) => target_of(facts.kernel@, facts.arch@) == Err::<Seq<char>, Seq<char>>(e@),
        },
{
    if same_text(&facts.kernel, "Darwin") {
        if same_text(&facts.arch, "arm64") || same_text(&facts.arch, "aarch64") {
            Ok("aarch64-apple-darwin")
        } else {
            Err(refuse_about("unsupported remote architecture ", &facts.arch))
        }
    } else {
        linux_target(facts)
    }
}

/// The release that this build of Shuttle installs from.
pub fn shuttle_release_tag(release_tag: Option<&str>, package_version: &str) -> (r: String)
    ensures
        r@ == match release_tag {
            Some(tag) => tag@,
            None => "v"@ + package_version@,
        },
{
    match release_tag {
        Some(tag) => tag.to_owned(),
        None => {
            let mut tag = "v".to_owned();
            tag.push_str(package_version);
            tag
        },
    }
}

pub open spec fn asset_url(base: Seq<char>, tag: Seq<char>, asset: Seq<char>) -> Seq<char> {
    strip_end(base, '/') + "/"@ + tag + "/"@ + asset
}

pub fn release_asset_url(release_base: &str, release_tag: &str, asset: &str) -> (r: String)
    ensures
        r@ == asset_url(release_base@, release_tag@, asset@),
{
    let mut url = stripped_end(release_base, '/');
    url.push_str("/");
    url.push_str(release_tag);
    url.push_str("/");
    url.push_str(asset);
    url
}

// ---------------------------------------------------------------------------
// The plan
// ---------------------------------------------------------------------------

/// Where the executor is to come from.
#[derive(Debug)]
pub enum PackageChoice {
    /// A Codex that the host already has, at this path.
    Existing(String),
    /// A package on this machine.
    Upload(String),
    /// A package that this machine fetches and hands on.
    LocalDownload,
    /// A package that the host fetches.
    RemoteDownload,
}

/// What an installation will do, before anything is fetched.
#[derive(Debug)]
pub struct InstallPlan {
    pub target: String,
    pub version: String,
    pub root: String,
    pub package: PackageChoice,
    /// The package of Codex, and the manifest that holds its digest.
    pub runtime_name: String,
    pub runtime_url: String,
    pub manifest_url: String,
    /// The executor in the package.
    pub executor: String,
    /// The shim, and the manifest that holds its digest.
    pub shim_name: String,
    pub shim_url: String,
    pub shim_manifest_url: String,
    pub remote_package: String,
    pub remote_package_partial: String,
    pub remote_shim: String,
}

/// How many of the ways to come by an executor are asked for.
pub open spec fn sources_asked_for(options: InstallOptions) -> int {
    (if options.runtime_package is Some {
        1int
    } else {
        0
    }) + (if options.remote_codex is Some {
        1int
    } else {
        0
    }) + (if options.local_download {
        1int
    } else {
        0
    })
}

/// Why an installation cannot be planned.
pub open spec fn plan_refusal(
    codex_version: Seq<char>,
    facts: RemoteFacts,
    options: InstallOptions,
) -> Option<Seq<char>> {
    match target_of(facts.kernel@, facts.arch@) {
        Err(e) => Some(e),
        Ok(_) => match source_version(codex_version) {
            Err(e) => Some(e),
            Ok(_) => if sources_asked_for(options) > 1 {
                Some("runtime package, local download, and remote Codex are mutually exclusive"@)
            } else {
                None
            },
        },
    }
}

/// The directory of Shuttle on the host.
pub open spec fn shuttle_root(home: Seq<char>) -> Seq<char> {
    home + "/.local/lib/codex-shuttle"@
}

/// The package of Codex for a target, as OpenAI names it.
pub open spec fn runtime_name_of(target: Seq<char>) -> Seq<char> {
    "codex-package-"@ + target + ".tar.gz"@
}

/// The release of Codex with this version, as OpenAI tags it.
pub open spec fn codex_tag(version: Seq<char>) -> Seq<char> {
    "rust-v"@ + version
}

/// Where the executor is in a package: a package from this machine holds a
/// runtime that was built here, every other one is OpenAI's own.
pub open spec fn packaged_executor(choice: PackageChoice) -> Seq<char> {
    match choice {
        PackageChoice::Upload(_) => "bin/cxs-runtime"@,
        _ => "bin/codex"@,
    }
}

pub open spec fn temporary_package(profile: Seq<char>) -> Seq<char> {
    "/tmp/cxs-"@ + profile + "-codex.tar.gz"@
}

pub open spec fn temporary_shim(profile: Seq<char>) -> Seq<char> {
    "/tmp/cxs-"@ + profile + "-shim"@
}

/// Whether `choice` is the way that the options ask for.
pub open spec fn is_choice(choice: PackageChoice, options: InstallOptions) -> bool {
    match (options.remote_codex, options.runtime_package, options.local_download) {
        (Some(path), _, _) => choice matches PackageChoice::Existing(p) && p@ == path@,
        (None, Some(path), _) => choice matches PackageChoice::Upload(p) && p@ == path@,
        (None, None, true) => choice is LocalDownload,
        (None, None, false) => choice is RemoteDownload,
    }
}

/// Plans an installation.
pub fn plan_install(
    profile: &Profile,
    facts: &RemoteFacts,
    options: &InstallOptions,
    release_tag: &str,
) -> (r: Result<InstallPlan, Failure>)
    ensures
        match plan_refusal(profile.codex_version@, *facts, *options) {
            Some(message) => refused(r, message),
            None => {
                let base = options.shuttle_release_base@;
                &&& r matches Ok(plan)
                &&& Ok::<Seq<char>, Seq<char>>(plan.target@) == target_of(
                    facts.kernel@,
                    facts.arch@,
                )
                &&& Ok::<Seq<char>, Seq<char>>(plan.version@) == source_version(
                    profile.codex_version@,
                )
                &&& plan.root@ == shuttle_root(facts.home@)
                &&& is_choice(plan.package, *options)
                &&& plan.runtime_name@ == runtime_name_of(plan.target@)
                &&& plan.runtime_url@ == asset_url(
                    OPENAI_RELEASES@,
                    codex_tag(plan.version@),
                    plan.runtime_name@,
                )
                &&& plan.manifest_url@ == asset_url(
                    OPENAI_RELEASES@,
                    codex_tag(plan.version@),
                    "codex-package_SHA256SUMS"@,
                )
                &&& plan.executor@ == packaged_executor(plan.package)
                &&& plan.shim_name@ == "cxs-shim-"@ + plan.target@
                &&& plan.shim_url@ == asset_url(base, release_tag@, plan.shim_name@)
                &&& plan.shim_manifest_url@ == asset_url(base, release_tag@, "SHA256SUMS"@)
                &&& plan.remote_package@ == temporary_package(profile.name@)
                &&& plan.remote_package_partial@ == plan.remote_package@ + ".partial"@
                &&& plan.remote_shim@ == temporary_shim(profile.name@)
            },
        },
{
    let target = match remote_target(facts) {
        Ok(target) => target,
        Err(e) => return Err(e),
    };
    let version = match codex_source_version(&profile.codex_version) {
        Ok(version) => version,
        Err(e) => return Err(e),
    };
    let mut asked: u8 = 0;
    if options.runtime_package.is_some() {
        asked = asked + 1;
    }
    if options.remote_codex.is_some() {
        asked = asked + 1;
    }
    if options.local_download {
        asked = asked + 1;
    }
    if asked > 1 {
        return Err(
            refuse("runtime package, local download, and remote Codex are mutually exclusive"),
        );
    }
    let package = match (&options.remote_codex, &options.runtime_package) {
        (Some(path), _) => PackageChoice::Existing(path.clone()),
        (None, Some(path)) => PackageChoice::Upload(path.clone()),
        (None, None) => if options.local_download {
            PackageChoice::LocalDownload
        } else {
            PackageChoice::RemoteDownload
        },
    };
    let mut root = facts.home.clone();
    root.push_str("/.local/lib/codex-shuttle");
    let executor = match &package {
        PackageChoice::Upload(_) => "bin/cxs-runtime".to_owned(),
        _ => "bin/codex".to_owned(),
    };
    let mut runtime_name = "codex-package-".to_owned();
    runtime_name.push_str(target);
    runtime_name.push_str(".tar.gz");
    let mut shim_name = "cxs-shim-".to_owned();
    shim_name.push_str(target);
    let mut remote_package = "/tmp/cxs-".to_owned();
    remote_package.push_str(&profile.name);
    remote_package.push_str("-codex.tar.gz");
    let mut remote_package_partial = remote_package.clone();
    remote_package_partial.push_str(".partial");
    let mut remote_shim = "/tmp/cxs-".to_owned();
    remote_shim.push_str(&profile.name);
    remote_shim.push_str("-shim");
    let base = options.shuttle_release_base.as_str();
    let mut tag = "rust-v".to_owned();
    tag.push_str(&version);
    let runtime_url = release_asset_url(OPENAI_RELEASES, &tag, &runtime_name);
    let manifest_url = release_asset_url(OPENAI_RELEASES, &tag, "codex-package_SHA256SUMS");
    let shim_url = release_asset_url(base, release_tag, &shim_name);
    let shim_manifest_url = release_asset_url(base, release_tag, "SHA256SUMS");
    Ok(
        InstallPlan {
            target: target.to_owned(),
            version,
            root,
            package,
            runtime_name,
            runtime_url,
            manifest_url,
            executor,
            shim_name,
            shim_url,
            shim_manifest_url,
            remote_package,
            remote_package_partial,
            remote_shim,
        },
    )
}

// ---------------------------------------------------------------------------
// A Codex that the host already has
// ---------------------------------------------------------------------------

/// Whether a path may name a Codex on the host.
pub open spec fn is_remote_path(path: Seq<char>) -> bool {
    &&& path.len() > 0 && path[0] == '/'
    &&& !path.contains('\n')
    &&& !path.contains('\r')
    &&& !path.contains('\0')
}

/// Refuses a path that cannot name a Codex on the host.
pub fn validate_remote_path(path: &str) -> (r: Result<(), Failure>)
    ensures
        r is Ok == is_remote_path(path@),
        r is Err ==> refused(
            r,
            "--remote-codex must be an absolute remote path without control characters"@,
        ),
{
    let chars = chars_of(path);
    let mut good = chars.len() > 0 && chars[0] == '/';
    let mut i: usize = 0;
    while i < chars.len()
        invariant
            i <= chars.len(),
            chars@ == path@,
            good == (path@.len() > 0 && path@[0] == '/' && forall|j: int|
                0 <= j < i ==> #[trigger] path@[j] != '\n' && path@[j] != '\r' && path@[j] != '\0'),
        decreases chars.len() - i,
    {
        let c: char = chars[i];
        if c == '\n' || c == '\r' || c == '\0' {
            good = false;
        }
        i = i + 1;
    }
    if good {
        Ok(())
    } else {
        assert(!is_remote_path(path@)) by {
            if path@.len() > 0 && path@[0] == '/' {
                let j = choose|j: int|
                    0 <= j < path@.len() && !(#[trigger] path@[j] != '\n' && path@[j] != '\r'
                        && path@[j] != '\0');
                assert(path@.contains(path@[j]));
            }
        }
        Err(refuse("--remote-codex must be an absolute remote path without control characters"))
    }
}

/// What the probe of a Codex on the host printed: two paths and a digest, a
/// line each.
pub open spec fn reusable_in(output: Seq<u8>) -> Result<(Seq<char>, Seq<char>, Seq<char>), Seq<char>> {
    if !valid_utf8(output) {
        Err("remote Codex reuse probe returned non-UTF-8 output"@)
    } else {
        let found = lines(decode_utf8(output));
        if found.len() < 1 {
            Err("remote Codex probe omitted its path"@)
        } else if found.len() < 2 {
            Err("remote Codex probe omitted its installed path"@)
        } else if found.len() < 3 {
            Err("remote Codex probe omitted its checksum"@)
        } else if !is_absolute(found[0]) || !is_absolute(found[1]) {
            Err("remote Codex probe returned a non-absolute path"@)
        } else if !is_digest(lower(found[2])) {
            Err("invalid SHA-256 digest in manifest"@)
        } else {
            Ok((found[0], found[1], lower(found[2])))
        }
    }
}

pub open spec fn is_absolute(path: Seq<char>) -> bool {
    path.len() > 0 && path[0] == '/'
}

fn absolute(path: &str) -> (r: bool)
    ensures
        r == is_absolute(path@),
{
    let chars = chars_of(path);
    chars.len() > 0 && chars[0] == '/'
}

pub fn parse_reusable_executor(output: &[u8]) -> (r: Result<ReusableExecutor, Failure>)
    ensures
        match r {
            Ok(found) => reusable_in(output@) == Ok::<_, Seq<char>>(
                (found.probe_path@, found.installed_path@, found.sha256@),
            ),
            Err(e) => reusable_in(output@) == Err::<(Seq<char>, Seq<char>, Seq<char>), _>(e@),
        },
{
    let text = match text_of_utf8(vstd::slice::slice_to_vec(output)) {
        Some(text) => text,
        None => return Err(refuse("remote Codex reuse probe returned non-UTF-8 output")),
    };
    proof {
        encode_utf8_valid_utf8(text@);
        encode_utf8_decode_utf8(text@);
    }
    let found = split_lines(&text);
    let ghost all = texts(found@);
    assert(all.len() == found@.len());
    assert(forall|i: int| 0 <= i < all.len() ==> #[trigger] all[i] == found@[i]@);
    if found.len() < 1 {
        return Err(refuse("remote Codex probe omitted its path"));
    }
    if found.len() < 2 {
        return Err(refuse("remote Codex probe omitted its installed path"));
    }
    if found.len() < 3 {
        return Err(refuse("remote Codex probe omitted its checksum"));
    }
    if !absolute(&found[0]) || !absolute(&found[1]) {
        return Err(refuse("remote Codex probe returned a non-absolute path"));
    }
    let sha256 = lowered(&found[2]);
    match validate_sha256(&sha256) {
        Ok(_) => Ok(
            ReusableExecutor {
                probe_path: found[0].clone(),
                installed_path: found[1].clone(),
                sha256,
            },
        ),
        Err(e) => Err(e),
    }
}

/// What the run of the probe says: the exit code that the script reserves for
/// an unfit Codex, any other failure, or what it printed.
pub fn judge_reuse_probe(
    path: &str,
    exit_code: Option<i32>,
    output: &[u8],
    diagnostics: &str,
) -> (r: Result<ReusableExecutor, Failure>)
    ensures
        match exit_code {
            Some(0) => match r {
                Ok(found) => reusable_in(output@) == Ok::<_, Seq<char>>(
                    (found.probe_path@, found.installed_path@, found.sha256@),
                ),
                Err(e) => reusable_in(output@) == Err::<(Seq<char>, Seq<char>, Seq<char>), _>(e@),
            },
            Some(42) => refused(
                r,
                "remote Codex at "@ + path@
                    + " is missing, has the wrong version, or lacks exec-server"@,
            ),
            _ => refused(r, "remote Codex reuse probe failed: "@ + trim(diagnostics@)),
        },
{
    match exit_code {
        Some(0) => parse_reusable_executor(output),
        Some(42) => Err(
            refuse_naming(
                "remote Codex at ",
                path,
                " is missing, has the wrong version, or lacks exec-server",
            ),
        ),
        _ => Err(refuse_about("remote Codex reuse probe failed: ", &trimmed(diagnostics))),
    }
}

/// The digest that the host printed for a package that it fetched.
pub open spec fn digest_in(output: Seq<u8>) -> Result<Seq<char>, Seq<char>> {
    if !valid_utf8(output) {
        Err("remote runtime checksum output was not UTF-8"@)
    } else if !is_digest(lower(trim(decode_utf8(output)))) {
        Err("invalid SHA-256 digest in manifest"@)
    } else {
        Ok(lower(trim(decode_utf8(output))))
    }
}

pub fn remote_digest(output: &[u8]) -> (r: Result<String, Failure>)
    ensures
        outcome(r) == digest_in(output@),
{
    let text = match text_of_utf8(vstd::slice::slice_to_vec(output)) {
        Some(text) => text,
        None => return Err(refuse("remote runtime checksum output was not UTF-8")),
    };
    proof {
        encode_utf8_valid_utf8(text@);
        encode_utf8_decode_utf8(text@);
    }
    let digest = lowered(&trimmed(&text));
    match validate_sha256(&digest) {
        Ok(_) => Ok(digest),
        Err(e) => Err(e),
    }
}

// ---------------------------------------------------------------------------
// Transfers
// ---------------------------------------------------------------------------

/// A package on the host: its digest, and that of the executor in it.
#[derive(Debug, Clone, PartialEq, Eq)]
pub struct PackageTransfer {
    pub sha256: String,
    pub executor_sha256: String,
}

/// What two transfers at once come to: the package on the host, or why the
/// installation stops.
pub fn combine_transfers(
    package: Result<PackageTransfer, Failure>,
    shim: Result<(), Failure>,
) -> (r: Result<PackageTransfer, Failure>)
    ensures
        match (package, shim) {
            (Ok(transfer), Ok(_)) => r == Ok::<PackageTransfer, Failure>(transfer),
            (Err(p), Ok(_)) => refused(r, "Codex package transfer failed: "@ + p@),
            (Ok(_), Err(s)) => refused(
                r,
                "shim upload failed; the verified Codex package was retained for retry: "@ + s@,
            ),
            (Err(p), Err(s)) => refused(
                r,
                "Codex package transfer and shim upload both failed; shim error: "@ + s@ + ": "@
                    + p@,
            ),
        },
{
    match (package, shim) {
        (Ok(transfer), Ok(_)) => Ok(transfer),
        (Err(p), Ok(_)) => Err(refuse_about("Codex package transfer failed: ", &p.message)),
        (Ok(_), Err(s)) => Err(
            refuse_about(
                "shim upload failed; the verified Codex package was retained for retry: ",
                &s.message,
            ),
        ),
        (Err(p), Err(s)) => {
            let mut message = "Codex package transfer and shim upload both failed; shim error: ".to_owned();
            message.push_str(&s.message);
            message.push_str(": ");
            message.push_str(&p.message);
            Err(Failure { message })
        },
    }
}

// ---------------------------------------------------------------------------
// The release
// ---------------------------------------------------------------------------

/// The executor of a release.
#[derive(Debug)]
pub enum ExecutorArtifact {
    /// It comes with this package.
    Managed(PackageTransfer),
    /// The host already has it.
    Existing(ReusableExecutor),
}

impl ExecutorArtifact {
    pub open spec fn source(&self) -> ExecutorSource {
        match self {
            ExecutorArtifact::Managed(_) => ExecutorSource::ManagedRuntime,
            ExecutorArtifact::Existing(_) => ExecutorSource::RemoteExisting,
        }
    }

    /// The digest by which the release tells executors apart.
    pub open spec fn identity(&self) -> Seq<char> {
        match self {
            ExecutorArtifact::Managed(transfer) => transfer.sha256@,
            ExecutorArtifact::Existing(found) => found.sha256@,
        }
    }

    /// The digest of the executor itself.
    pub open spec fn executor_digest(&self) -> Seq<char> {
        match self {
            ExecutorArtifact::Managed(transfer) => transfer.executor_sha256@,
            ExecutorArtifact::Existing(found) => found.sha256@,
        }
    }

    /// Where the executor is once the release is current.
    pub open spec fn path(&self, plan: InstallPlan) -> Seq<char> {
        match self {
            ExecutorArtifact::Managed(_) => plan.root@ + "/current/"@ + plan.executor@,
            ExecutorArtifact::Existing(found) => found.installed_path@,
        }
    }

    fn path_in(&self, plan: &InstallPlan) -> (r: String)
        ensures
            r@ == self.path(*plan),
    {
        match self {
            ExecutorArtifact::Managed(_) => {
                let mut path = plan.root.clone();
                path.push_str("/current/");
                path.push_str(&plan.executor);
                path
            },
            ExecutorArtifact::Existing(found) => found.installed_path.clone(),
        }
    }
}

pub open spec fn profile_path(root: Seq<char>, profile: Seq<char>, file: Seq<char>) -> Seq<char> {
    root + "/profiles/"@ + profile + "/"@ + file
}

fn path_of_profile(root: &str, profile: &str, file: &str) -> (r: String)
    ensures
        r@ == profile_path(root@, profile@, file@),
{
    let mut path = root.to_owned();
    path.push_str("/profiles/");
    path.push_str(profile);
    path.push_str("/");
    path.push_str(file);
    path
}

pub open spec fn exec_server_arguments() -> Seq<Seq<char>> {
    seq![
        "exec-server"@,
        "--disable"@,
        "plugins"@,
        "--disable"@,
        "remote_plugin"@,
        "--disable"@,
        "plugin_sharing"@,
        "--disable"@,
        "apps"@,
    ]
}

/// The first `n` characters of `s`.
fn leading(s: &str, n: usize) -> (r: String)
    requires
        n <= s@.len(),
    ensures
        r@ == s@.take(n as int),
{
    let chars = chars_of(s);
    assert(s@.take(n as int) =~= chars@.subrange(0, n as int));
    string_of(&chars, 0, n)
}

/// The configuration of the shim.
pub fn shim_config(
    profile: &Profile,
    plan: &InstallPlan,
    artifact: &ExecutorArtifact,
    shim_sha256: &str,
) -> (r: ShimConfig)
    requires
        is_digest(shim_sha256@),
    ensures
        r.profile@ == profile.name@,
        r.codex_version@ == profile.codex_version@,
        r.agent_socket@ == profile_path(plan.root@, profile.name@, "agent.sock"@),
        r.control_socket@ == profile_path(
            plan.root@,
            profile.name@,
            "app-"@ + shim_sha256@.take(12) + ".sock"@,
        ),
        r.token_file@ == profile_path(plan.root@, profile.name@, "token"@),
        r.exec_server@ == artifact.path(*plan),
        texts(r.exec_server_args@) == exec_server_arguments(),
        r.exec_server_port == profile.remote_exec_port,
        r.codex_home@ == profile_path(plan.root@, profile.name@, "codex-home"@),
        r.original_codex@ == plan.root@ + "/original-codex"@,
{
    let mut control = "app-".to_owned();
    control.push_str(&leading(shim_sha256, 12));
    control.push_str(".sock");
    let mut original_codex = plan.root.clone();
    original_codex.push_str("/original-codex");
    let mut exec_server_args: Vec<String> = Vec::new();
    exec_server_args.push("exec-server".to_owned());
    exec_server_args.push("--disable".to_owned());
    exec_server_args.push("plugins".to_owned());
    exec_server_args.push("--disable".to_owned());
    exec_server_args.push("remote_plugin".to_owned());
    exec_server_args.push("--disable".to_owned());
    exec_server_args.push("plugin_sharing".to_owned());
    exec_server_args.push("--disable".to_owned());
    exec_server_args.push("apps".to_owned());
    assert(texts(exec_server_args@) =~= exec_server_arguments());
    ShimConfig {
        profile: profile.name.clone(),
        codex_version: profile.codex_version.clone(),
        agent_socket: path_of_profile(&plan.root, &profile.name, "agent.sock"),
        control_socket: path_of_profile(&plan.root, &profile.name, &control),
        token_file: path_of_profile(&plan.root, &profile.name, "token"),
        exec_server: artifact.path_in(plan),
        exec_server_args,
        exec_server_port: profile.remote_exec_port,
        codex_home: path_of_profile(&plan.root, &profile.name, "codex-home"),
        original_codex,
    }
}

/// The name of a release: it tells apart what differs in the sources, the
/// layout, the executor, the shim or its configuration.
pub open spec fn release_name_of(
    version: Seq<char>,
    executor: Seq<char>,
    shim: Seq<char>,
    config: Seq<char>,
) -> Seq<char> {
    "codex-"@ + version + "-r3-"@ + executor.take(8) + "-"@ + shim.take(8) + "-"@ + config.take(8)
}

pub fn release_name(version: &str, executor: &str, shim: &str, config: &str) -> (r: String)
    requires
        is_digest(executor@),
        is_digest(shim@),
        is_digest(config@),
    ensures
        r@ == release_name_of(version@, executor@, shim@, config@),
{
    let mut name = "codex-".to_owned();
    name.push_str(version);
    name.push_str("-r3-");
    name.push_str(&leading(executor, 8));
    name.push_str("-");
    name.push_str(&leading(shim, 8));
    name.push_str("-");
    name.push_str(&leading(config, 8));
    name
}

/// Whether `install` is the record of this release on the host.
pub open spec fn describes_release(
    install: RemoteInstall,
    profile: Profile,
    plan: InstallPlan,
    artifact: ExecutorArtifact,
    shim_sha256: Seq<char>,
    config_json: Seq<char>,
) -> bool {
    &&& install.layout_version == REMOTE_LAYOUT_VERSION
    &&& install.profile@ == profile.name@
    &&& install.codex_version@ == profile.codex_version@
    &&& optional_text(install.runtime_version) == match artifact {
        ExecutorArtifact::Managed(_) => Some("codex-cli "@ + plan.version@),
        ExecutorArtifact::Existing(_) => None,
    }
    &&& install.target@ == plan.target@
    &&& optional_text(install.package_sha256) == match artifact {
        ExecutorArtifact::Managed(transfer) => Some(transfer.sha256@),
        ExecutorArtifact::Existing(_) => None,
    }
    &&& install.shim_sha256@ == shim_sha256
    &&& install.release@ == release_name_of(
        plan.version@,
        artifact.identity(),
        shim_sha256,
        hex_text(sha256(encode_utf8(config_json))),
    )
    &&& install.executor_source == Some(artifact.source())
    &&& optional_text(install.executor_path) == Some(artifact.path(plan))
    &&& optional_text(install.executor_sha256) == Some(artifact.executor_digest())
}

/// The record of a release on the host.
pub fn describe_release(
    profile: &Profile,
    plan: &InstallPlan,
    artifact: &ExecutorArtifact,
    shim_sha256: &str,
    config_json: &str,
) -> (r: RemoteInstall)
    requires
        is_digest(artifact.identity()),
        is_digest(shim_sha256@),
    ensures
        describes_release(r, *profile, *plan, *artifact, shim_sha256@, config_json@),
{
    let config_sha256 = sha256_bytes(config_json.as_bytes());
    let (executor_source, identity, package_sha256, executor_sha256, runtime_version) = match artifact {
        ExecutorArtifact::Managed(transfer) => {
            let mut version = "codex-cli ".to_owned();
            version.push_str(&plan.version);
            (
                ExecutorSource::ManagedRuntime,
                transfer.sha256.as_str(),
                Some(transfer.sha256.clone()),
                Some(transfer.executor_sha256.clone()),
                Some(version),
            )
        },
        ExecutorArtifact::Existing(found) => (
            ExecutorSource::RemoteExisting,
            found.sha256.as_str(),
            None,
            Some(found.sha256.clone()),
            None,
        ),
    };
    RemoteInstall {
        layout_version: REMOTE_LAYOUT_VERSION,
        profile: profile.name.clone(),
        codex_version: profile.codex_version.clone(),
        runtime_version,
        target: plan.target.clone(),
        package_sha256,
        shim_sha256: shim_sha256.to_owned(),
        release: release_name(&plan.version, identity, shim_sha256, &config_sha256),
        executor_source: Some(executor_source),
        executor_path: Some(artifact.path_in(plan)),
        executor_sha256,
    }
}

/// What the installer script for a release is made of.
pub open spec fn script_parts_of(
    parts: InstallScript,
    profile: Profile,
    token: Seq<char>,
    plan: InstallPlan,
    artifact: ExecutorArtifact,
    install: RemoteInstall,
    config_json: Seq<char>,
    metadata_json: Seq<char>,
) -> bool {
    &&& parts.profile@ == profile.name@
    &&& parts.token@ == token
    &&& parts.executor_version@ == executor_version_of(install)
    &&& parts.root@ == plan.root@
    &&& parts.release_name@ == install.release@
    &&& optional_text(parts.package) == match artifact {
        ExecutorArtifact::Managed(_) => Some(plan.remote_package@),
        ExecutorArtifact::Existing(_) => None,
    }
    &&& optional_text(parts.executor_sha256) == match artifact {
        ExecutorArtifact::Managed(transfer) => Some(transfer.executor_sha256@),
        ExecutorArtifact::Existing(_) => None,
    }
    &&& parts.executor_probe@ == match artifact {
        ExecutorArtifact::Managed(_) => Seq::empty(),
        ExecutorArtifact::Existing(found) => found.probe_path@,
    }
    &&& parts.executor_installed@ == artifact.path(plan)
    &&& parts.shim@ == plan.remote_shim@
    &&& parts.config_json@ == config_json
    &&& parts.metadata_json@ == metadata_json
}

/// Gathers what the installer script for a release is made of.
pub fn script_parts(
    profile: &Profile,
    token: &str,
    plan: &InstallPlan,
    artifact: &ExecutorArtifact,
    install: &RemoteInstall,
    config_json: &str,
    metadata_json: &str,
) -> (r: InstallScript)
    ensures
        script_parts_of(
            r,
            *profile,
            token@,
            *plan,
            *artifact,
            *install,
            config_json@,
            metadata_json@,
        ),
{
    let (package, executor_sha256, executor_probe) = match artifact {
        ExecutorArtifact::Managed(transfer) => (
            Some(plan.remote_package.clone()),
            Some(transfer.executor_sha256.clone()),
            String::new(),
        ),
        ExecutorArtifact::Existing(found) => (None, None, found.probe_path.clone()),
    };
    let executor_version = match &install.runtime_version {
        Some(version) => version.clone(),
        None => install.codex_version.clone(),
    };
    InstallScript {
        profile: profile.name.clone(),
        token: token.to_owned(),
        executor_version,
        root: plan.root.clone(),
        release_name: install.release.clone(),
        package,
        executor_sha256,
        executor_probe,
        executor_installed: artifact.path_in(plan),
        shim: plan.remote_shim.clone(),
        config_json: config_json.to_owned(),
        metadata_json: metadata_json.to_owned(),
    }
}

/// What an installation that succeeded leaves in the profile.
pub fn install_record(
    facts: &RemoteFacts,
    plan: &InstallPlan,
    artifact: &ExecutorArtifact,
    install: &RemoteInstall,
) -> (r: InstallRecord)
    ensures
        r.target@ == plan.target@,
        r.remote_home@ == facts.home@,
        r.remote_release@ == install.release@,
        optional_text(r.package_sha256) == match *artifact {
            ExecutorArtifact::Managed(transfer) => Some(transfer.sha256@),
            ExecutorArtifact::Existing(_) => None,
        },
        r.shim_sha256@ == install.shim_sha256@,
        r.executor_source == artifact.source(),
        r.executor_path@ == artifact.path(*plan),
{
    let (package_sha256, executor_source) = match artifact {
        ExecutorArtifact::Managed(transfer) => (
            Some(transfer.sha256.clone()),
            ExecutorSource::ManagedRuntime,
        ),
        ExecutorArtifact::Existing(_) => (None, ExecutorSource::RemoteExisting),
    };
    InstallRecord {
        target: plan.target.clone(),
        remote_home: facts.home.clone(),
        remote_release: install.release.clone(),
        package_sha256,
        shim_sha256: install.shim_sha256.clone(),
        executor_source,
        executor_path: artifact.path_in(plan),
    }
}

// ---------------------------------------------------------------------------
// Laws
// ---------------------------------------------------------------------------

/// The version of the sources is the beginning of the version of the build, up
/// to its first hyphen.
pub proof fn law_source_version_begins_the_release_version(output: Seq<char>)
    requires
        release_version(output) is Ok,
    ensures
        source_version(output) is Ok,
        source_version(output)->Ok_0.is_prefix_of(release_version(output)->Ok_0),
        !source_version(output)->Ok_0.contains('-'),
{
    let version = release_version(output)->Ok_0;
    let source = source_version(output)->Ok_0;
    let stop = |c: char| c == '-';
    lemma_run_bounds(version, stop);
    let n = run(version, stop) as int;
    assert(version.take(version.len() as int) =~= version);
    assert(source =~= version.take(n));
    if source.contains('-') {
        let i = choose|i: int| 0 <= i < source.len() && source[i] == '-';
        assert(version[i] == '-');
        assert(stop(version[i]));
    }
}

/// Whether a text says nothing special to a shell, quoted or not.
pub open spec fn is_plain(s: Seq<char>) -> bool {
    forall|i: int| 0 <= i < s.len() ==> is_version_char(#[trigger] s[i])
}

proof fn lemma_plain_join(a: Seq<char>, b: Seq<char>)
    requires
        is_plain(a),
        is_plain(b),
    ensures
        is_plain(a + b),
{
    assert forall|i: int| 0 <= i < (a + b).len() implies is_version_char(#[trigger] (a + b)[i]) by {
        if i < a.len() {
            assert((a + b)[i] == a[i]);
        } else {
            assert((a + b)[i] == b[i - a.len()]);
        }
    }
}

proof fn lemma_hex_is_plain(s: Seq<char>, n: int)
    requires
        all_hex(s),
        0 <= n <= s.len(),
    ensures
        is_plain(s.take(n)),
{
    assert forall|i: int| 0 <= i < s.take(n).len() implies is_version_char(#[trigger] s.take(n)[i]) by {
        assert(is_hex_digit(s[i]));
    }
}

/// The name of a release stands in the installer script as it is: it holds
/// letters, digits, dots, plus signs and hyphens alone.
pub proof fn law_release_names_are_plain(
    output: Seq<char>,
    executor: Seq<char>,
    shim: Seq<char>,
    config: Seq<char>,
)
    requires
        source_version(output) is Ok,
        is_digest(executor),
        is_digest(shim),
        is_digest(config),
    ensures
        is_plain(release_name_of(source_version(output)->Ok_0, executor, shim, config)),
{
    let version = source_version(output)->Ok_0;
    let whole = release_version(output)->Ok_0;
    law_source_version_begins_the_release_version(output);
    assert(is_plain(version)) by {
        assert forall|i: int| 0 <= i < version.len() implies is_version_char(
            #[trigger] version[i],
        ) by {
            assert(version[i] == whole[i]);
        }
    }
    reveal_strlit("codex-");
    reveal_strlit("-r3-");
    reveal_strlit("-");
    lemma_hex_is_plain(executor, 8);
    lemma_hex_is_plain(shim, 8);
    lemma_hex_is_plain(config, 8);
    assert(is_plain("codex-"@));
    assert(is_plain("-r3-"@));
    assert(is_plain("-"@));
    let a = "codex-"@ + version;
    let b = a + "-r3-"@;
    let c = b + executor.take(8);
    let d = c + "-"@;
    let e = d + shim.take(8);
    let f = e + "-"@;
    lemma_plain_join("codex-"@, version);
    lemma_plain_join(a, "-r3-"@);
    lemma_plain_join(b, executor.take(8));
    lemma_plain_join(c, "-"@);
    lemma_plain_join(d, shim.take(8));
    lemma_plain_join(e, "-"@);
    lemma_plain_join(f, config.take(8));
}

} // verus!
