//! The scripts that run on the remote host.

use vstd::prelude::*;
use vstd::string::*;
use crate::failure::{Failure, refused};
use crate::install::RemoteInstall;
use crate::profile::Profile;
use crate::shell::{quoted, shell_quote};
use crate::text::{
    chars_of, occurs, optional_text, starts_with, string_of, texts, trim, trimmed,
};

verus! {

/// A script, and the host whose shell reads it.
#[derive(Debug)]
pub struct RemoteScript {
    pub host: String,
    pub script: String,
}

/// The digest of a file, by the tool that the host has for it: `sha256sum` on
/// Linux, `shasum` on macOS.
pub const DIGEST_FUNCTION: &'static str = r#"digest_of() { if command -v sha256sum >/dev/null 2>&1; then sha256sum "$1"; else shasum -a 256 "$1"; fi | awk '{print $1}'; }
"#;

pub const DOWNLOAD_1: &'static str = r#"set -eu
umask 077
destination="#;

pub const DOWNLOAD_2: &'static str = r#"
temporary="$destination.partial"
manifest="$destination.SHA256SUMS"
trap 'unlink "$manifest" 2>/dev/null || true' EXIT HUP INT TERM
curl --http1.1 --fail --location --retry 3 --silent --show-error --output "$manifest" "#;

pub const DOWNLOAD_3: &'static str = r#"
expected=$(awk -v wanted="#;

pub const DOWNLOAD_4: &'static str = r#" '$2 == wanted || $2 == "*" wanted { print $1; exit }' "$manifest")
test -n "$expected" || { echo "Codex checksum manifest did not contain the package" >&2; exit 1; }
if test -f "$destination"; then
  actual=$(digest_of "$destination")
  if test "$actual" = "$expected"; then printf '%s\n' "$expected"; exit 0; fi
  unlink "$destination"
fi
curl --http1.1 --fail --location --retry 3 --silent --show-error --continue-at - --output "$temporary" "#;

pub const DOWNLOAD_5: &'static str = r#"
actual=$(digest_of "$temporary")
test "$actual" = "$expected" || { unlink "$temporary"; echo "Codex package checksum mismatch" >&2; exit 1; }
mv "$temporary" "$destination"
printf '%s\n' "$expected"
"#;

/// The script by which the host fetches a package, checks it against the
/// manifest and prints its digest.
pub open spec fn download_script(
    destination: Seq<char>,
    manifest_url: Seq<char>,
    package_name: Seq<char>,
    url: Seq<char>,
) -> Seq<char> {
    DIGEST_FUNCTION@ + DOWNLOAD_1@ + quoted(destination) + DOWNLOAD_2@ + quoted(manifest_url)
        + DOWNLOAD_3@ + quoted(package_name) + DOWNLOAD_4@ + quoted(url) + DOWNLOAD_5@
}

pub fn render_download_script(
    destination: &str,
    manifest_url: &str,
    package_name: &str,
    url: &str,
) -> (r: String)
    ensures
        r@ == download_script(destination@, manifest_url@, package_name@, url@),
{
    let mut script = DIGEST_FUNCTION.to_owned();
    script.push_str(DOWNLOAD_1);
    script.push_str(&shell_quote(destination));
    script.push_str(DOWNLOAD_2);
    script.push_str(&shell_quote(manifest_url));
    script.push_str(DOWNLOAD_3);
    script.push_str(&shell_quote(package_name));
    script.push_str(DOWNLOAD_4);
    script.push_str(&shell_quote(url));
    script.push_str(DOWNLOAD_5);
    script
}

pub const CONTENTS_1: &'static str = r#"set -eu
umask 077
package="#;

pub const CONTENTS_2: &'static str = r#"
executor="#;

pub const CONTENTS_3: &'static str = r#"
work=$(mktemp -d)
trap 'find "$work" -depth -delete' EXIT HUP INT TERM
tar -xzf "$package" -C "$work"
test -f "$work/$executor" || { echo "Codex package has no $executor" >&2; exit 1; }
digest_of "$work/$executor"
"#;

/// The script by which the host prints the digest of the executor in a
/// package.
pub open spec fn contents_script(package: Seq<char>, executor: Seq<char>) -> Seq<char> {
    DIGEST_FUNCTION@ + CONTENTS_1@ + quoted(package) + CONTENTS_2@ + quoted(executor) + CONTENTS_3@
}

pub fn render_contents_script(package: &str, executor: &str) -> (r: String)
    ensures
        r@ == contents_script(package@, executor@),
{
    let mut script = DIGEST_FUNCTION.to_owned();
    script.push_str(CONTENTS_1);
    script.push_str(&shell_quote(package));
    script.push_str(CONTENTS_2);
    script.push_str(&shell_quote(executor));
    script.push_str(CONTENTS_3);
    script
}

pub const PROBE_1: &'static str = r#"set -eu
root="#;

pub const PROBE_2: &'static str = r#"
expected="#;

pub const PROBE_3: &'static str = r#"
candidate="#;

pub const PROBE_4: &'static str = r#"
managed="$root/current/cxs-shim"
managed_resolved=$(readlink -f "$managed" 2>/dev/null || printf '%s' "$managed")
test -x "$candidate" || exit 42
resolved=$(readlink -f "$candidate" 2>/dev/null || printf '%s' "$candidate")
test "$resolved" != "$managed_resolved" || exit 42
actual=$("$candidate" --version 2>/dev/null || true)
test "$actual" = "$expected" || exit 42
"$candidate" exec-server --help >/dev/null 2>&1 || exit 42
digest=$(digest_of "$resolved")
installed="$resolved"
if test "$resolved" = "$HOME/.local/bin/codex"; then
  installed="$root/original-codex"
fi
printf '%s\n%s\n%s\n' "$resolved" "$installed" "$digest"
"#;

/// The script that looks at a Codex that is already on the host: it prints
/// where it is, where it will be once the shim is in place, and its digest.
pub open spec fn probe_script(root: Seq<char>, expected: Seq<char>, path: Seq<char>) -> Seq<char> {
    DIGEST_FUNCTION@ + PROBE_1@ + quoted(root) + PROBE_2@ + quoted(expected) + PROBE_3@ + quoted(path)
        + PROBE_4@
}

pub fn render_remote_executor_probe_script(
    root: &str,
    expected_version: &str,
    path: &str,
) -> (r: String)
    ensures
        r@ == probe_script(root@, expected_version@, path@),
{
    let mut script = DIGEST_FUNCTION.to_owned();
    script.push_str(PROBE_1);
    script.push_str(&shell_quote(root));
    script.push_str(PROBE_2);
    script.push_str(&shell_quote(expected_version));
    script.push_str(PROBE_3);
    script.push_str(&shell_quote(path));
    script.push_str(PROBE_4);
    script
}

pub const VERIFY_1: &'static str = r#"set -eu
executor="#;

pub const VERIFY_2: &'static str = r#"
expected_version="#;

pub const VERIFY_3: &'static str = r#"
test -x "$executor" || { echo "remote executor is unavailable: $executor" >&2; exit 1; }
actual_version=$("$executor" --version)
test "$actual_version" = "$expected_version" || { echo "remote executor version changed: $actual_version" >&2; exit 1; }
"$executor" exec-server --help >/dev/null 2>&1 || { echo "remote executor lacks exec-server" >&2; exit 1; }
"#;

pub const VERIFY_4: &'static str = r#"
"#;

pub const CHECKSUM_1: &'static str = r#"actual=$(digest_of "$executor")
test "$actual" = "#;

pub const CHECKSUM_2: &'static str = r#" || { echo "remote executor checksum changed" >&2; exit 1; }"#;

/// `path` without the prefix `prefix`, however often it stands there.
pub open spec fn strip_prefixes(path: Seq<char>, prefix: Seq<char>) -> Seq<char>
    decreases path.len(),
{
    if prefix.len() > 0 && prefix.is_prefix_of(path) {
        strip_prefixes(path.skip(prefix.len() as int), prefix)
    } else {
        path
    }
}

/// A path as a word of the shell, with the home directory left to the shell.
pub open spec fn home_word(path: Seq<char>) -> Seq<char> {
    if "$HOME/"@.is_prefix_of(path) {
        "\"$HOME\"/"@ + quoted(strip_prefixes(path, "$HOME/"@))
    } else {
        quoted(path)
    }
}

fn strip_home(path: &str) -> (r: String)
    ensures
        r@ == strip_prefixes(path@, "$HOME/"@),
{
    let mut rest = path.to_owned();
    proof {
        reveal_strlit("$HOME/");
    }
    while starts_with(&rest, "$HOME/")
        invariant
            "$HOME/"@.len() == 6,
            strip_prefixes(rest@, "$HOME/"@) == strip_prefixes(path@, "$HOME/"@),
        decreases rest@.len(),
    {
        let chars = chars_of(&rest);
        assert(chars@.subrange(6, chars@.len() as int) =~= rest@.skip(6));
        rest = string_of(&chars, 6, chars.len());
    }
    rest
}

pub fn home_path(path: &str) -> (r: String)
    ensures
        r@ == home_word(path@),
{
    if starts_with(path, "$HOME/") {
        let mut r = "\"$HOME\"/".to_owned();
        r.push_str(&shell_quote(&strip_home(path)));
        r
    } else {
        shell_quote(path)
    }
}

/// The executor of an installation: releases that name none hold their own.
pub open spec fn executor_of(install: RemoteInstall) -> Seq<char> {
    match install.executor_path {
        Some(path) => path@,
        None => "$HOME/.local/lib/codex-shuttle/releases/"@ + install.release@ + "/bin/codex"@,
    }
}

/// The version that the executor of an installation reports.
pub open spec fn executor_version_of(install: RemoteInstall) -> Seq<char> {
    match install.runtime_version {
        Some(version) => version@,
        None => install.codex_version@,
    }
}

/// The part of the check that compares the digest, where it is known.
pub open spec fn checksum_script(expected: Option<String>) -> Seq<char> {
    match expected {
        Some(expected) => CHECKSUM_1@ + quoted(expected@) + CHECKSUM_2@,
        None => Seq::empty(),
    }
}

/// The script that checks the executor of an installation.
pub open spec fn verify_script(install: RemoteInstall) -> Seq<char> {
    DIGEST_FUNCTION@ + VERIFY_1@ + home_word(executor_of(install)) + VERIFY_2@ + quoted(
        executor_version_of(install),
    ) + VERIFY_3@ + checksum_script(install.executor_sha256) + VERIFY_4@
}

/// Where the digest of an executor was recorded, the check compares it.
pub proof fn law_recorded_executors_are_compared(install: RemoteInstall)
    requires
        install.executor_sha256 is Some,
    ensures
        occurs(
            verify_script(install),
            CHECKSUM_1@ + quoted(install.executor_sha256->Some_0@) + CHECKSUM_2@,
        ),
{
    let head = DIGEST_FUNCTION@ + VERIFY_1@ + home_word(executor_of(install)) + VERIFY_2@ + quoted(
        executor_version_of(install),
    ) + VERIFY_3@;
    let part = CHECKSUM_1@ + quoted(install.executor_sha256->Some_0@) + CHECKSUM_2@;
    let whole = verify_script(install);
    assert(whole =~= head + part + VERIFY_4@);
    assert(whole.subrange(head.len() as int, head.len() as int + part.len()) =~= part);
}

/// Checks on the profile's host that the executor is still the one that was
/// installed.
pub fn verify_executor(profile: &Profile, install: &RemoteInstall) -> (r: RemoteScript)
    ensures
        r.host@ == profile.source_host@,
        r.script@ == verify_script(*install),
{
    let path = match &install.executor_path {
        Some(path) => path.clone(),
        None => {
            let mut path = "$HOME/.local/lib/codex-shuttle/releases/".to_owned();
            path.push_str(&install.release);
            path.push_str("/bin/codex");
            path
        },
    };
    let version = match &install.runtime_version {
        Some(version) => version.as_str(),
        None => install.codex_version.as_str(),
    };
    let checksum = match &install.executor_sha256 {
        Some(expected) => {
            let mut checksum = CHECKSUM_1.to_owned();
            checksum.push_str(&shell_quote(expected));
            checksum.push_str(CHECKSUM_2);
            checksum
        },
        None => String::new(),
    };
    let mut script = DIGEST_FUNCTION.to_owned();
    script.push_str(VERIFY_1);
    script.push_str(&home_path(&path));
    script.push_str(VERIFY_2);
    script.push_str(&shell_quote(version));
    script.push_str(VERIFY_3);
    script.push_str(&checksum);
    script.push_str(VERIFY_4);
    RemoteScript { host: profile.source_host.clone(), script }
}

pub const ROLLBACK: &'static str = r#"set -eu
umask 077
root="$HOME/.local/lib/codex-shuttle"
previous="$root/previous"
current="$root/current"
test -L "$previous" || { echo "no previous Shuttle release" >&2; exit 1; }
old_current=$(readlink "$current")
new_current=$(readlink "$previous")
test -x "$new_current/cxs-shim"
if test -f "$new_current/executor.path"; then
  executor=$(cat "$new_current/executor.path")
else
  executor="$new_current/bin/codex"
fi
test -x "$executor" || { echo "previous release executor is unavailable: $executor" >&2; exit 1; }
"$executor" exec-server --help >/dev/null 2>&1 || { echo "previous release executor lacks exec-server" >&2; exit 1; }
ln -sfn "$new_current" "$current"
ln -sfn "$old_current" "$previous"
cp "$new_current/install.json" "$HOME/.config/codex-shuttle/install.json"
cp "$new_current/shim.json" "$HOME/.config/codex-shuttle/shim.json"
cat "$HOME/.config/codex-shuttle/install.json"
"$HOME/.local/bin/codex" --version >&2
"#;

/// Makes the previous release of the profile's host the current one, and
/// prints its metadata.
pub fn rollback(profile: &Profile) -> (r: RemoteScript)
    ensures
        r.host@ == profile.source_host@,
        r.script@ == ROLLBACK@,
{
    RemoteScript { host: profile.source_host.clone(), script: ROLLBACK.to_owned() }
}

pub const UNINSTALL_1: &'static str = r#"set -eu
umask 077
expected="#;

pub const UNINSTALL_2: &'static str = r##"
owner_file="$HOME/.config/codex-shuttle/owner"
test -f "$owner_file" || { echo "Shuttle is not installed" >&2; exit 1; }
owner=$(cat "$owner_file")
test "$owner" = "$expected" || { echo "remote install belongs to profile $owner" >&2; exit 1; }
managed="$HOME/.local/lib/codex-shuttle/current/cxs-shim"
link="$HOME/.local/bin/codex"
if test -L "$link" && test "$(readlink "$link")" = "$managed"; then unlink "$link"; fi
original="$HOME/.local/lib/codex-shuttle/original-codex"
if test -e "$original" || test -L "$original"; then mv "$original" "$link"; fi
unlink "$HOME/.config/codex-shuttle/shim.json" 2>/dev/null || true
unlink "$HOME/.config/codex-shuttle/install.json" 2>/dev/null || true
unlink "$owner_file"
profile_dir="$HOME/.local/lib/codex-shuttle/profiles/$expected"
if test -d "$profile_dir"; then find "$profile_dir" -depth -delete; fi
case "${SHELL:-/bin/sh}" in
  */zsh) shell_profile="$HOME/.zprofile" ;;
  */bash|*/sh|*/dash) shell_profile="$HOME/.profile" ;;
  *) shell_profile="" ;;
esac
if test -n "$shell_profile" && test -f "$shell_profile"; then
  awk 'BEGIN { skip=0 } $0 == "# >>> Codex Shuttle >>>" { skip=1; next } $0 == "# <<< Codex Shuttle <<<" { skip=0; next } !skip { print }' "$shell_profile" > "$shell_profile.cxs-new"
  mv "$shell_profile.cxs-new" "$shell_profile"
fi
if test "##;

pub const UNINSTALL_3: &'static str = r#" = 1; then
  root="$HOME/.local/lib/codex-shuttle"
  test "$root" = "$HOME/.local/lib/codex-shuttle"
  if test -d "$root"; then find "$root" -depth -delete; fi
fi
"#;

/// The script that takes an installation of this profile away, and with it
/// all releases where `purge` says so.
pub open spec fn uninstall_script(profile: Seq<char>, purge: bool) -> Seq<char> {
    UNINSTALL_1@ + quoted(profile) + UNINSTALL_2@ + (if purge {
        "1"@
    } else {
        "0"@
    }) + UNINSTALL_3@
}

/// Takes the installation away from the profile's host.
pub fn uninstall(profile: &Profile, purge_releases: bool) -> (r: RemoteScript)
    ensures
        r.host@ == profile.source_host@,
        r.script@ == uninstall_script(profile.name@, purge_releases),
{
    let purge = if purge_releases {
        "1"
    } else {
        "0"
    };
    let mut script = UNINSTALL_1.to_owned();
    script.push_str(&shell_quote(&profile.name));
    script.push_str(UNINSTALL_2);
    script.push_str(purge);
    script.push_str(UNINSTALL_3);
    RemoteScript { host: profile.source_host.clone(), script }
}

pub const INSTALL_1: &'static str = r#"set -eu
umask 077
profile="#;

pub const INSTALL_2: &'static str = r#"
token="#;

pub const INSTALL_3: &'static str = r#"
expected_version="#;

pub const INSTALL_4: &'static str = r#"
root="#;

pub const INSTALL_5: &'static str = r#"
release="$root/releases/"#;

pub const INSTALL_6: &'static str = r#""
stage="$root/.stage-"#;

pub const INSTALL_7: &'static str = r#""
executor_installed="#;

pub const INSTALL_8: &'static str = r#"
shim="#;

pub const INSTALL_9: &'static str = r#"
config_dir="$HOME/.config/codex-shuttle"
owner_file="$config_dir/owner"
if test -f "$owner_file"; then
  owner=$(cat "$owner_file")
  test "$owner" = "$profile" || { echo "remote Shuttle install belongs to profile $owner" >&2; exit 1; }
fi
case "${SHELL:-/bin/sh}" in
  */zsh) shell_profile="$HOME/.zprofile" ;;
  */bash|*/sh|*/dash) shell_profile="$HOME/.profile" ;;
  *) echo "unsupported remote login shell ${SHELL:-unknown}" >&2; exit 1 ;;
esac
mkdir -p "$root/releases" "$root/profiles/$profile/codex-home" "$config_dir" "$HOME/.local/bin"
if test -e "$root/current" && test ! -L "$root/current"; then echo "$root/current is not a managed symlink" >&2; exit 1; fi
if test -e "$stage"; then find "$stage" -depth -delete; fi
mkdir "$stage"
"#;

pub const INSTALL_10: &'static str = r#"
install -m 0700 "$shim" "$stage/cxs-shim"
actual_version=$("$executor_probe" --version)
test "$actual_version" = "$expected_version" || { echo "Codex package version mismatch: $actual_version" >&2; exit 1; }
"$executor_probe" exec-server --help >/dev/null 2>&1 || { echo "Codex executor has no exec-server command" >&2; exit 1; }
cat > "$stage/shim.json" <<'CXS_CONFIG'
"#;

pub const INSTALL_11: &'static str = r#"
CXS_CONFIG
cat > "$stage/install.json" <<'CXS_METADATA'
"#;

pub const INSTALL_12: &'static str = r#"
CXS_METADATA
printf '%s\n' "$executor_installed" > "$stage/executor.path"
if test -e "$release"; then find "$stage" -depth -delete; else mv "$stage" "$release"; fi
printf '%s\n' "$token" > "$root/profiles/$profile/token"
chmod 0600 "$root/profiles/$profile/token"
if test -L "$root/current"; then
  old=$(readlink "$root/current")
  if test ! -f "$old/executor.path"; then
    old_executor=""
    if test -x "$old/bin/codex"; then
      old_executor="$old/bin/codex"
    elif test -x "$old/cxs-shim" && test -f "$old/shim.json"; then
      old_version=$(CXS_SHIM_CONFIG="$old/shim.json" "$old/cxs-shim" --version 2>/dev/null || true)
      if test "$old_version" = "$expected_version" && test -x "$executor_installed"; then
        old_executor="$executor_installed"
      fi
    fi
    if test -n "$old_executor"; then
      printf '%s\n' "$old_executor" > "$old/executor.path"
      chmod 0600 "$old/executor.path"
    fi
  fi
  if test "$old" != "$release"; then
    ln -sfn "$old" "$root/previous"
  fi
fi
ln -sfn "$release" "$root/current"
cp "$release/shim.json" "$config_dir/shim.json"
cp "$release/install.json" "$config_dir/install.json"
printf '%s\n' "$profile" > "$owner_file"
chmod 0600 "$release/executor.path" "$config_dir/shim.json" "$config_dir/install.json" "$owner_file"
touch "$shell_profile"
if ! grep -Fqx '# >>> Codex Shuttle >>>' "$shell_profile"; then
  cat >> "$shell_profile" <<'CXS_PATH'

# >>> Codex Shuttle >>>
case ":$PATH:" in
  *":$HOME/.local/bin:"*) ;;
  *) PATH="$HOME/.local/bin:$PATH" ;;
esac
export PATH
# <<< Codex Shuttle <<<
CXS_PATH
fi
managed="$root/current/cxs-shim"
link="$HOME/.local/bin/codex"
if test -e "$link" || test -L "$link"; then
  if test ! -L "$link" || test "$(readlink "$link")" != "$managed"; then
    test ! -e "$root/original-codex" && test ! -L "$root/original-codex" || { echo "refusing to replace an existing saved codex" >&2; exit 1; }
    mv "$link" "$root/original-codex"
  fi
fi
ln -sfn "$root/current/cxs-shim" "$HOME/.local/bin/codex"
test -x "$executor_installed" || { echo "configured Codex executor is not executable after activation" >&2; exit 1; }
"$HOME/.local/bin/codex" --version
"#;

pub const REUSE_1: &'static str = "executor_probe=";

pub const REUSE_2: &'static str = r#"
test -x "$executor_probe" || { echo "reusable Codex executor disappeared" >&2; exit 1; }"#;

pub const UNPACK_1: &'static str = "package=";

pub const UNPACK_2: &'static str = r#"
tar -xzf "$package" -C "$stage"
executor_name=${executor_installed##*/}
executor_probe="$stage/bin/$executor_name"
test -x "$executor_probe" || { echo "Codex package has no executable bin/$executor_name" >&2; exit 1; }
if test "$executor_name" = codex; then
  test -x "$stage/bin/codex-code-mode-host" || { echo "Codex package has no executable bin/codex-code-mode-host" >&2; exit 1; }
  test -x "$stage/codex-path/rg" || { echo "Codex package has no executable codex-path/rg" >&2; exit 1; }
  if test "$(uname -s)" = Linux; then
    test -x "$stage/codex-resources/bwrap" || { echo "Codex package has no executable codex-resources/bwrap" >&2; exit 1; }
  fi
fi"#;

pub const UNPACKED_1: &'static str = r#"
test "$(digest_of "$executor_probe")" = "#;

pub const UNPACKED_2: &'static str = r#" || { echo "Codex package executor checksum mismatch" >&2; exit 1; }"#;

/// The part of the installer that holds the unpacked executor against its
/// digest, where that is known.
pub open spec fn unpacked_script(expected: Option<Seq<char>>) -> Seq<char> {
    match expected {
        Some(expected) => UNPACKED_1@ + quoted(expected) + UNPACKED_2@,
        None => Seq::empty(),
    }
}

/// How the staged release comes by its executor: from a package, whose parts
/// are checked, or from what the host already has.
pub open spec fn prepare_script(
    package: Option<Seq<char>>,
    executor_sha256: Option<Seq<char>>,
    probe: Seq<char>,
) -> Seq<char> {
    match package {
        Some(package) => UNPACK_1@ + quoted(package) + UNPACK_2@ + unpacked_script(executor_sha256),
        None => REUSE_1@ + quoted(probe) + REUSE_2@,
    }
}

/// What the installer script is made of.
pub struct InstallScript {
    pub profile: String,
    pub token: String,
    pub executor_version: String,
    pub root: String,
    pub release_name: String,
    pub package: Option<String>,
    /// The digest of the executor in the package, where it is known.
    pub executor_sha256: Option<String>,
    pub executor_probe: String,
    pub executor_installed: String,
    pub shim: String,
    pub config_json: String,
    pub metadata_json: String,
}

/// The script that stages a release, checks its executor, and makes it the
/// current one.
pub open spec fn install_script(parts: InstallScript) -> Seq<char> {
    DIGEST_FUNCTION@ + INSTALL_1@ + quoted(parts.profile@) + INSTALL_2@ + quoted(parts.token@)
        + INSTALL_3@ + quoted(parts.executor_version@) + INSTALL_4@ + quoted(parts.root@) + INSTALL_5@
        + parts.release_name@ + INSTALL_6@ + parts.release_name@ + INSTALL_7@ + quoted(
        parts.executor_installed@,
    ) + INSTALL_8@ + quoted(parts.shim@) + INSTALL_9@ + prepare_script(
        optional_text(parts.package),
        optional_text(parts.executor_sha256),
        parts.executor_probe@,
    ) + INSTALL_10@ + parts.config_json@ + INSTALL_11@ + parts.metadata_json@ + INSTALL_12@
}

pub fn render_install_script(parts: &InstallScript) -> (r: String)
    ensures
        r@ == install_script(*parts),
{
    let prepare = match &parts.package {
        Some(package) => {
            let mut prepare = UNPACK_1.to_owned();
            prepare.push_str(&shell_quote(package));
            prepare.push_str(UNPACK_2);
            match &parts.executor_sha256 {
                Some(expected) => {
                    prepare.push_str(UNPACKED_1);
                    prepare.push_str(&shell_quote(expected));
                    prepare.push_str(UNPACKED_2);
                },
                None => {},
            }
            assert(prepare@ =~= prepare_script(
                optional_text(parts.package),
                optional_text(parts.executor_sha256),
                parts.executor_probe@,
            ));
            prepare
        },
        None => {
            let mut prepare = REUSE_1.to_owned();
            prepare.push_str(&shell_quote(&parts.executor_probe));
            prepare.push_str(REUSE_2);
            prepare
        },
    };
    let mut script = DIGEST_FUNCTION.to_owned();
    script.push_str(INSTALL_1);
    script.push_str(&shell_quote(&parts.profile));
    script.push_str(INSTALL_2);
    script.push_str(&shell_quote(&parts.token));
    script.push_str(INSTALL_3);
    script.push_str(&shell_quote(&parts.executor_version));
    script.push_str(INSTALL_4);
    script.push_str(&shell_quote(&parts.root));
    script.push_str(INSTALL_5);
    script.push_str(&parts.release_name);
    script.push_str(INSTALL_6);
    script.push_str(&parts.release_name);
    script.push_str(INSTALL_7);
    script.push_str(&shell_quote(&parts.executor_installed));
    script.push_str(INSTALL_8);
    script.push_str(&shell_quote(&parts.shim));
    script.push_str(INSTALL_9);
    script.push_str(&prepare);
    script.push_str(INSTALL_10);
    script.push_str(&parts.config_json);
    script.push_str(INSTALL_11);
    script.push_str(&parts.metadata_json);
    script.push_str(INSTALL_12);
    script
}

/// The command that receives a file on the host.
pub fn upload_command(remote: &str) -> (r: String)
    ensures
        r@ == "umask 077; cat > "@ + quoted(remote@),
{
    let mut command = "umask 077; cat > ".to_owned();
    command.push_str(&shell_quote(remote));
    command
}

/// The command that removes temporary files from the host.
pub open spec fn cleanup_command(paths: Seq<Seq<char>>) -> Seq<char>
    decreases paths.len(),
{
    if paths.len() == 0 {
        "set -eu;"@
    } else {
        cleanup_command(paths.drop_last()) + " unlink "@ + quoted(paths.last())
            + " 2>/dev/null || true;"@
    }
}

pub fn render_cleanup_command(paths: &Vec<String>) -> (r: String)
    ensures
        r@ == cleanup_command(texts(paths@)),
{
    let mut command = "set -eu;".to_owned();
    let ghost all = texts(paths@);
    let mut i: usize = 0;
    assert(all.take(0) =~= Seq::empty());
    while i < paths.len()
        invariant
            i <= paths.len(),
            all == texts(paths@),
            command@ == cleanup_command(all.take(i as int)),
        decreases paths.len() - i,
    {
        command.push_str(" unlink ");
        command.push_str(&shell_quote(&paths[i]));
        command.push_str(" 2>/dev/null || true;");
        assert(all.take(i as int + 1).drop_last() =~= all.take(i as int));
        i = i + 1;
    }
    assert(all.take(i as int) =~= all);
    command
}

/// What a command that another program ran comes to: where it failed, what it
/// said of that.
pub fn command_outcome(succeeded: bool, what: &str, diagnostics: &str) -> (r: Result<(), Failure>)
    ensures
        if succeeded {
            r is Ok
        } else {
            refused(r, what@ + " failed: "@ + trim(diagnostics@))
        },
{
    if succeeded {
        return Ok(());
    }
    let mut message = what.to_owned();
    message.push_str(" failed: ");
    message.push_str(&trimmed(diagnostics));
    Err(Failure { message })
}

/// The arguments of `ssh` for a command on a host, without a terminal and
/// without questions, and within ten seconds where the connection may hang.
pub open spec fn ssh_command(host: Seq<char>, command: Seq<char>, limited: bool) -> Seq<Seq<char>> {
    seq!["-T"@, "-o"@, "BatchMode=yes"@] + (if limited {
        seq!["-o"@, "ConnectTimeout=10"@]
    } else {
        Seq::empty()
    }) + seq![host, command]
}

pub fn ssh_arguments(host: &str, command: &str, limited: bool) -> (r: Vec<String>)
    ensures
        texts(r@) == ssh_command(host@, command@, limited),
{
    let mut arguments: Vec<String> = Vec::new();
    arguments.push("-T".to_owned());
    arguments.push("-o".to_owned());
    arguments.push("BatchMode=yes".to_owned());
    if limited {
        arguments.push("-o".to_owned());
        arguments.push("ConnectTimeout=10".to_owned());
    }
    arguments.push(host.to_owned());
    arguments.push(command.to_owned());
    assert(texts(arguments@) =~= ssh_command(host@, command@, limited));
    arguments
}

/// The command that prints the record of an installation and tries it out.
pub const INSPECT_COMMAND: &'static str = "set -eu; cat \"$HOME/.config/codex-shuttle/install.json\"; printf '\\n'; \"$HOME/.local/bin/codex\" --version >&2; \"${SHELL:-/bin/sh}\" -l -i -c 'command -v codex >/dev/null' 2>/dev/null";

/// The command that starts the agent, in the place of one that runs already.
pub const AGENT_COMMAND: &'static str = "$HOME/.local/lib/codex-shuttle/current/cxs-shim __cxs-agent --replace";

} // verus!
