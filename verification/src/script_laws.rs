//! What the scripts do on the host, and in which order.

use vstd::prelude::*;
use crate::archive::{SESSIONS_1, SESSIONS_2};
use crate::install::RemoteInstall;
use crate::path_probe::{
    BOOTSTRAP_1, BOOTSTRAP_10, BOOTSTRAP_11, BOOTSTRAP_2, BOOTSTRAP_3, BOOTSTRAP_4, BOOTSTRAP_5,
    BOOTSTRAP_6, BOOTSTRAP_7, BOOTSTRAP_8, BOOTSTRAP_9, CLEANUP_1, CLEANUP_2, CLEANUP_3, CLEANUP_4,
    CLEANUP_5, CLEANUP_6, OWNERSHIP, ProbePaths, bootstrap_command, probe_cleanup_command,
    proxy_command,
};
use crate::scripts::{
    AGENT_COMMAND, CONTENTS_1, CONTENTS_2, CONTENTS_3, DIGEST_FUNCTION, DOWNLOAD_1, DOWNLOAD_2,
    DOWNLOAD_3, DOWNLOAD_4, DOWNLOAD_5, INSPECT_COMMAND, INSTALL_1, INSTALL_10, INSTALL_11,
    INSTALL_12, INSTALL_2, INSTALL_3, INSTALL_4, INSTALL_5, INSTALL_6, INSTALL_7, INSTALL_8,
    INSTALL_9, InstallScript, PROBE_1, PROBE_2, PROBE_3, PROBE_4, ROLLBACK, UNINSTALL_1,
    UNINSTALL_2, UNINSTALL_3, UNPACKED_1, UNPACKED_2, UNPACK_1, UNPACK_2, VERIFY_1, VERIFY_2,
    VERIFY_3, cleanup_command, contents_script, download_script, executor_of, executor_version_of,
    home_word, install_script, prepare_script, probe_script, ssh_command, strip_prefixes,
    uninstall_script, verify_script,
};
use crate::shell::quoted;
use crate::ssh::FACTS_COMMAND;
use crate::text::{occurs, optional_text};

verus! {

/// Whether `first` stands somewhere in `s`, and `second` somewhere behind it.
pub open spec fn precedes(s: Seq<char>, first: Seq<char>, second: Seq<char>) -> bool {
    exists|i: int, j: int|
        0 <= i && i + first.len() <= j && j + second.len() <= s.len() && #[trigger] s.subrange(
            i,
            i + first.len(),
        ) == first && #[trigger] s.subrange(j, j + second.len()) == second
}

proof fn lemma_at(s: Seq<char>, part: Seq<char>, i: int)
    requires
        0 <= i,
        i + part.len() <= s.len(),
        s.subrange(i, i + part.len()) =~= part,
    ensures
        occurs(s, part),
{
}

proof fn lemma_starts(s: Seq<char>, part: Seq<char>)
    requires
        part.len() <= s.len(),
        s.subrange(0, part.len() as int) =~= part,
    ensures
        part.is_prefix_of(s),
{
}

proof fn lemma_ends(s: Seq<char>, part: Seq<char>)
    requires
        part.len() <= s.len(),
        s.subrange(s.len() - part.len(), s.len() as int) =~= part,
    ensures
        part.is_suffix_of(s),
{
}

proof fn lemma_both_at(s: Seq<char>, first: Seq<char>, second: Seq<char>, i: int, j: int)
    requires
        0 <= i,
        i + first.len() <= j,
        j + second.len() <= s.len(),
        s.subrange(i, i + first.len()) =~= first,
        s.subrange(j, j + second.len()) =~= second,
    ensures
        precedes(s, first, second),
{
}

/// What stands in a part stands in the whole.
broadcast proof fn lemma_occurs_join(x: Seq<char>, y: Seq<char>, part: Seq<char>)
    ensures
        occurs(x, part) || occurs(y, part) ==> #[trigger] occurs(x + y, part),
{
    let n = part.len() as int;
    if occurs(x, part) {
        let i = choose|i: int|
            0 <= i < x.len() as int + 1 && i + n <= x.len() && #[trigger] x.subrange(i, i + n)
                == part;
        assert((x + y).subrange(i, i + n) =~= part);
    }
    if occurs(y, part) {
        let i = choose|i: int|
            0 <= i < y.len() as int + 1 && i + n <= y.len() && #[trigger] y.subrange(i, i + n)
                == part;
        let k = x.len() + i;
        assert((x + y).subrange(k, k + n) =~= part);
    }
}

/// What stands in order in a part, or in two parts that follow one another,
/// stands in order in the whole.
broadcast proof fn lemma_precedes_join(
    x: Seq<char>,
    y: Seq<char>,
    first: Seq<char>,
    second: Seq<char>,
)
    ensures
        precedes(x, first, second) || precedes(y, first, second) || (occurs(x, first) && occurs(
            y,
            second,
        )) ==> #[trigger] precedes(x + y, first, second),
{
    let n = first.len() as int;
    let m = second.len() as int;
    let all = x + y;
    if precedes(x, first, second) {
        let (i, j) = choose|i: int, j: int|
            0 <= i && i + n <= j && j + m <= x.len() && #[trigger] x.subrange(i, i + n) == first
                && #[trigger] x.subrange(j, j + m) == second;
        assert(all.subrange(i, i + n) =~= first);
        assert(all.subrange(j, j + m) =~= second);
        lemma_both_at(all, first, second, i, j);
    }
    if precedes(y, first, second) {
        let (i, j) = choose|i: int, j: int|
            0 <= i && i + n <= j && j + m <= y.len() && #[trigger] y.subrange(i, i + n) == first
                && #[trigger] y.subrange(j, j + m) == second;
        let a = x.len() + i;
        let b = x.len() + j;
        assert(all.subrange(a, a + n) =~= first);
        assert(all.subrange(b, b + m) =~= second);
        lemma_both_at(all, first, second, a, b);
    }
    if occurs(x, first) && occurs(y, second) {
        let i = choose|i: int|
            0 <= i < x.len() as int + 1 && i + n <= x.len() && #[trigger] x.subrange(i, i + n)
                == first;
        let j = choose|j: int|
            0 <= j < y.len() as int + 1 && j + m <= y.len() && #[trigger] y.subrange(j, j + m)
                == second;
        let b = x.len() + j;
        assert(all.subrange(i, i + n) =~= first);
        assert(all.subrange(b, b + m) =~= second);
        lemma_both_at(all, first, second, i, b);
    }
}

/// What ends in `head`, `middle`, and what starts with `tail` hold the three
/// in a row.
proof fn lemma_between(
    x: Seq<char>,
    middle: Seq<char>,
    y: Seq<char>,
    head: Seq<char>,
    tail: Seq<char>,
)
    requires
        head.is_suffix_of(x),
        tail.is_prefix_of(y),
    ensures
        occurs(x + middle + y, head + middle + tail),
{
    let all = x + middle + y;
    let part = head + middle + tail;
    let i = x.len() - head.len();
    assert(x.subrange(i, x.len() as int) =~= head);
    assert(y.subrange(0, tail.len() as int) =~= tail);
    assert forall|k: int| 0 <= k < part.len() implies all[i + k] == part[k] by {
        if k < head.len() {
            assert(x.subrange(i, x.len() as int)[k] == head[k]);
        } else if k >= head.len() + middle.len() {
            let t = k - head.len() - middle.len();
            assert(y.subrange(0, tail.len() as int)[t] == tail[t]);
        }
    }
    assert(all.subrange(i, i + part.len()) =~= part);
    lemma_at(all, part, i);
}

proof fn lemma_suffix_join(x: Seq<char>, y: Seq<char>, tail: Seq<char>)
    requires
        tail.is_suffix_of(y),
    ensures
        tail.is_suffix_of(x + y),
{
    let all = x + y;
    assert(y.subrange(y.len() - tail.len(), y.len() as int) =~= tail);
    assert(all.subrange(all.len() - tail.len(), all.len() as int) =~= tail);
}

proof fn lemma_digest_function()
    ensures
        occurs(DIGEST_FUNCTION@, "if command -v sha256sum >/dev/null 2>&1; then sha256sum \"$1\"; else shasum -a 256 \"$1\"; fi | awk '{print $1}'"@),
{
    reveal_strlit(r#"digest_of() { if command -v sha256sum >/dev/null 2>&1; then sha256sum "$1"; else shasum -a 256 "$1"; fi | awk '{print $1}'; }
"#);
    reveal_strlit("if command -v sha256sum >/dev/null 2>&1; then sha256sum \"$1\"; else shasum -a 256 \"$1\"; fi | awk '{print $1}'");
    let s = DIGEST_FUNCTION@;
    lemma_at(s, "if command -v sha256sum >/dev/null 2>&1; then sha256sum \"$1\"; else shasum -a 256 \"$1\"; fi | awk '{print $1}'"@, 14);
}

proof fn lemma_download_1()
    ensures
        "\ndestination="@.is_suffix_of(DOWNLOAD_1@),
{
    reveal_strlit(r#"set -eu
umask 077
destination="#);
    reveal_strlit("\ndestination=");
    let s = DOWNLOAD_1@;
    lemma_ends(s, "\ndestination="@);
}

proof fn lemma_download_2()
    ensures
        "--output \"$manifest\" "@.is_suffix_of(DOWNLOAD_2@),
        "\n"@.is_prefix_of(DOWNLOAD_2@),
{
    reveal_strlit(r#"
temporary="$destination.partial"
manifest="$destination.SHA256SUMS"
trap 'unlink "$manifest" 2>/dev/null || true' EXIT HUP INT TERM
curl --http1.1 --fail --location --retry 3 --silent --show-error --output "$manifest" "#);
    reveal_strlit("--output \"$manifest\" ");
    reveal_strlit("\n");
    let s = DOWNLOAD_2@;
    lemma_ends(s, "--output \"$manifest\" "@);
    lemma_starts(s, "\n"@);
}

proof fn lemma_download_3()
    ensures
        "-v wanted="@.is_suffix_of(DOWNLOAD_3@),
        "\n"@.is_prefix_of(DOWNLOAD_3@),
{
    reveal_strlit(r#"
expected=$(awk -v wanted="#);
    reveal_strlit("-v wanted=");
    reveal_strlit("\n");
    let s = DOWNLOAD_3@;
    lemma_ends(s, "-v wanted="@);
    lemma_starts(s, "\n"@);
}

proof fn lemma_download_4()
    ensures
        occurs(DOWNLOAD_4@, "'$2 == wanted || $2 == \"*\" wanted { print $1; exit }' \"$manifest\""@),
        occurs(DOWNLOAD_4@, "\ntest -n \"$expected\" || { echo \"Codex checksum manifest did not contain the package\" >&2; exit 1; }\n"@),
        occurs(DOWNLOAD_4@, "\n  actual=$(digest_of \"$destination\")\n  if test \"$actual\" = \"$expected\"; then printf '%s\\n' \"$expected\"; exit 0; fi\n"@),
        "--output \"$temporary\" "@.is_suffix_of(DOWNLOAD_4@),
        " "@.is_prefix_of(DOWNLOAD_4@),
{
    reveal_strlit(r#" '$2 == wanted || $2 == "*" wanted { print $1; exit }' "$manifest")
test -n "$expected" || { echo "Codex checksum manifest did not contain the package" >&2; exit 1; }
if test -f "$destination"; then
  actual=$(digest_of "$destination")
  if test "$actual" = "$expected"; then printf '%s\n' "$expected"; exit 0; fi
  unlink "$destination"
fi
curl --http1.1 --fail --location --retry 3 --silent --show-error --continue-at - --output "$temporary" "#);
    reveal_strlit("'$2 == wanted || $2 == \"*\" wanted { print $1; exit }' \"$manifest\"");
    reveal_strlit("\ntest -n \"$expected\" || { echo \"Codex checksum manifest did not contain the package\" >&2; exit 1; }\n");
    reveal_strlit("\n  actual=$(digest_of \"$destination\")\n  if test \"$actual\" = \"$expected\"; then printf '%s\\n' \"$expected\"; exit 0; fi\n");
    reveal_strlit("--output \"$temporary\" ");
    reveal_strlit(" ");
    let s = DOWNLOAD_4@;
    lemma_at(s, "'$2 == wanted || $2 == \"*\" wanted { print $1; exit }' \"$manifest\""@, 1);
    lemma_at(s, "\ntest -n \"$expected\" || { echo \"Codex checksum manifest did not contain the package\" >&2; exit 1; }\n"@, 67);
    lemma_at(s, "\n  actual=$(digest_of \"$destination\")\n  if test \"$actual\" = \"$expected\"; then printf '%s\\n' \"$expected\"; exit 0; fi\n"@, 198);
    lemma_ends(s, "--output \"$temporary\" "@);
    lemma_starts(s, " "@);
}

proof fn lemma_download_5()
    ensures
        precedes(DOWNLOAD_5@, "\nactual=$(digest_of \"$temporary\")\ntest \"$actual\" = \"$expected\" || { unlink \"$temporary\"; echo \"Codex package checksum mismatch\" >&2; exit 1; }\n"@, "mv \"$temporary\" \"$destination\"\n"@),
        precedes(DOWNLOAD_5@, "mv \"$temporary\" \"$destination\"\n"@, "printf '%s\\n' \"$expected\"\n"@),
        "\n"@.is_prefix_of(DOWNLOAD_5@),
{
    reveal_strlit(r#"
actual=$(digest_of "$temporary")
test "$actual" = "$expected" || { unlink "$temporary"; echo "Codex package checksum mismatch" >&2; exit 1; }
mv "$temporary" "$destination"
printf '%s\n' "$expected"
"#);
    reveal_strlit("\nactual=$(digest_of \"$temporary\")\ntest \"$actual\" = \"$expected\" || { unlink \"$temporary\"; echo \"Codex package checksum mismatch\" >&2; exit 1; }\n");
    reveal_strlit("mv \"$temporary\" \"$destination\"\n");
    reveal_strlit("printf '%s\\n' \"$expected\"\n");
    reveal_strlit("\n");
    let s = DOWNLOAD_5@;
    lemma_both_at(s, "\nactual=$(digest_of \"$temporary\")\ntest \"$actual\" = \"$expected\" || { unlink \"$temporary\"; echo \"Codex package checksum mismatch\" >&2; exit 1; }\n"@, "mv \"$temporary\" \"$destination\"\n"@, 0, 143);
    lemma_both_at(s, "mv \"$temporary\" \"$destination\"\n"@, "printf '%s\\n' \"$expected\"\n"@, 143, 174);
    lemma_starts(s, "\n"@);
}

proof fn lemma_contents_1()
    ensures
        "\npackage="@.is_suffix_of(CONTENTS_1@),
{
    reveal_strlit(r#"set -eu
umask 077
package="#);
    reveal_strlit("\npackage=");
    let s = CONTENTS_1@;
    lemma_ends(s, "\npackage="@);
}

proof fn lemma_contents_2()
    ensures
        "\nexecutor="@.is_suffix_of(CONTENTS_2@),
        "\n"@.is_prefix_of(CONTENTS_2@),
{
    reveal_strlit(r#"
executor="#);
    reveal_strlit("\nexecutor=");
    reveal_strlit("\n");
    let s = CONTENTS_2@;
    lemma_ends(s, "\nexecutor="@);
    lemma_starts(s, "\n"@);
}

proof fn lemma_contents_3()
    ensures
        precedes(CONTENTS_3@, "\ntar -xzf \"$package\" -C \"$work\"\n"@, "\ndigest_of \"$work/$executor\"\n"@),
        "\n"@.is_prefix_of(CONTENTS_3@),
{
    reveal_strlit(r#"
work=$(mktemp -d)
trap 'find "$work" -depth -delete' EXIT HUP INT TERM
tar -xzf "$package" -C "$work"
test -f "$work/$executor" || { echo "Codex package has no $executor" >&2; exit 1; }
digest_of "$work/$executor"
"#);
    reveal_strlit("\ntar -xzf \"$package\" -C \"$work\"\n");
    reveal_strlit("\ndigest_of \"$work/$executor\"\n");
    reveal_strlit("\n");
    let s = CONTENTS_3@;
    lemma_both_at(s, "\ntar -xzf \"$package\" -C \"$work\"\n"@, "\ndigest_of \"$work/$executor\"\n"@, 71, 186);
    lemma_starts(s, "\n"@);
}

proof fn lemma_probe_1()
    ensures
        "\nroot="@.is_suffix_of(PROBE_1@),
{
    reveal_strlit(r#"set -eu
root="#);
    reveal_strlit("\nroot=");
    let s = PROBE_1@;
    lemma_ends(s, "\nroot="@);
}

proof fn lemma_probe_2()
    ensures
        "\nexpected="@.is_suffix_of(PROBE_2@),
        "\n"@.is_prefix_of(PROBE_2@),
{
    reveal_strlit(r#"
expected="#);
    reveal_strlit("\nexpected=");
    reveal_strlit("\n");
    let s = PROBE_2@;
    lemma_ends(s, "\nexpected="@);
    lemma_starts(s, "\n"@);
}

proof fn lemma_probe_3()
    ensures
        "\ncandidate="@.is_suffix_of(PROBE_3@),
        "\n"@.is_prefix_of(PROBE_3@),
{
    reveal_strlit(r#"
candidate="#);
    reveal_strlit("\ncandidate=");
    reveal_strlit("\n");
    let s = PROBE_3@;
    lemma_ends(s, "\ncandidate="@);
    lemma_starts(s, "\n"@);
}

proof fn lemma_probe_4()
    ensures
        precedes(PROBE_4@, "\ntest -x \"$candidate\" || exit 42\n"@, "printf '%s\\n%s\\n%s\\n' \"$resolved\" \"$installed\" \"$digest\"\n"@),
        precedes(PROBE_4@, "\ntest \"$resolved\" != \"$managed_resolved\" || exit 42\n"@, "printf '%s\\n%s\\n%s\\n' \"$resolved\" \"$installed\" \"$digest\"\n"@),
        precedes(PROBE_4@, "\nactual=$(\"$candidate\" --version 2>/dev/null || true)\ntest \"$actual\" = \"$expected\" || exit 42\n"@, "printf '%s\\n%s\\n%s\\n' \"$resolved\" \"$installed\" \"$digest\"\n"@),
        precedes(PROBE_4@, "\n\"$candidate\" exec-server --help >/dev/null 2>&1 || exit 42\n"@, "printf '%s\\n%s\\n%s\\n' \"$resolved\" \"$installed\" \"$digest\"\n"@),
        precedes(PROBE_4@, "\ndigest=$(digest_of \"$resolved\")\n"@, "printf '%s\\n%s\\n%s\\n' \"$resolved\" \"$installed\" \"$digest\"\n"@),
        "\n"@.is_prefix_of(PROBE_4@),
{
    reveal_strlit(r#"
managed="$root/current/cxs-shim"
managed_resolved=$(readlink -f "$managed" 2>/dev/null || printf '%s' "$managed")
test -x "$candidate" || exit 42
resolved=$(readlink -f "$candidate" 2>/dev/null || printf '%s' "$candidate")
test "$resolved" != "$managed_resolved" || exit 42
actual=$("$candidate" --version 2>/dev/null || true)
test "$actual" = "$expected" || exit 42
"$candidate" exec-server --help >/dev/null 2>&1 || exit 42
digest=$(digest_of "$resolved")
installed="$resolved"
if test "$resolved" = "$HOME/.local/bin/codex"; then
  installed="$root/original-codex"
fi
printf '%s\n%s\n%s\n' "$resolved" "$installed" "$digest"
"#);
    reveal_strlit("\ntest -x \"$candidate\" || exit 42\n");
    reveal_strlit("printf '%s\\n%s\\n%s\\n' \"$resolved\" \"$installed\" \"$digest\"\n");
    reveal_strlit("\ntest \"$resolved\" != \"$managed_resolved\" || exit 42\n");
    reveal_strlit("\nactual=$(\"$candidate\" --version 2>/dev/null || true)\ntest \"$actual\" = \"$expected\" || exit 42\n");
    reveal_strlit("\n\"$candidate\" exec-server --help >/dev/null 2>&1 || exit 42\n");
    reveal_strlit("\ndigest=$(digest_of \"$resolved\")\n");
    reveal_strlit("\n");
    let s = PROBE_4@;
    lemma_both_at(s, "\ntest -x \"$candidate\" || exit 42\n"@, "printf '%s\\n%s\\n%s\\n' \"$resolved\" \"$installed\" \"$digest\"\n"@, 114, 572);
    lemma_both_at(s, "\ntest \"$resolved\" != \"$managed_resolved\" || exit 42\n"@, "printf '%s\\n%s\\n%s\\n' \"$resolved\" \"$installed\" \"$digest\"\n"@, 223, 572);
    lemma_both_at(s, "\nactual=$(\"$candidate\" --version 2>/dev/null || true)\ntest \"$actual\" = \"$expected\" || exit 42\n"@, "printf '%s\\n%s\\n%s\\n' \"$resolved\" \"$installed\" \"$digest\"\n"@, 274, 572);
    lemma_both_at(s, "\n\"$candidate\" exec-server --help >/dev/null 2>&1 || exit 42\n"@, "printf '%s\\n%s\\n%s\\n' \"$resolved\" \"$installed\" \"$digest\"\n"@, 367, 572);
    lemma_both_at(s, "\ndigest=$(digest_of \"$resolved\")\n"@, "printf '%s\\n%s\\n%s\\n' \"$resolved\" \"$installed\" \"$digest\"\n"@, 426, 572);
    lemma_starts(s, "\n"@);
}

proof fn lemma_verify_1()
    ensures
        "\nexecutor="@.is_suffix_of(VERIFY_1@),
{
    reveal_strlit(r#"set -eu
executor="#);
    reveal_strlit("\nexecutor=");
    let s = VERIFY_1@;
    lemma_ends(s, "\nexecutor="@);
}

proof fn lemma_verify_2()
    ensures
        "\nexpected_version="@.is_suffix_of(VERIFY_2@),
        "\n"@.is_prefix_of(VERIFY_2@),
{
    reveal_strlit(r#"
expected_version="#);
    reveal_strlit("\nexpected_version=");
    reveal_strlit("\n");
    let s = VERIFY_2@;
    lemma_ends(s, "\nexpected_version="@);
    lemma_starts(s, "\n"@);
}

proof fn lemma_verify_3()
    ensures
        occurs(VERIFY_3@, "\ntest -x \"$executor\" || { echo \"remote executor is unavailable: $executor\" >&2; exit 1; }\n"@),
        occurs(VERIFY_3@, "\nactual_version=$(\"$executor\" --version)\ntest \"$actual_version\" = \"$expected_version\" || {"@),
        occurs(VERIFY_3@, "\n\"$executor\" exec-server --help >/dev/null 2>&1 || {"@),
        "\n"@.is_prefix_of(VERIFY_3@),
{
    reveal_strlit(r#"
test -x "$executor" || { echo "remote executor is unavailable: $executor" >&2; exit 1; }
actual_version=$("$executor" --version)
test "$actual_version" = "$expected_version" || { echo "remote executor version changed: $actual_version" >&2; exit 1; }
"$executor" exec-server --help >/dev/null 2>&1 || { echo "remote executor lacks exec-server" >&2; exit 1; }
"#);
    reveal_strlit("\ntest -x \"$executor\" || { echo \"remote executor is unavailable: $executor\" >&2; exit 1; }\n");
    reveal_strlit("\nactual_version=$(\"$executor\" --version)\ntest \"$actual_version\" = \"$expected_version\" || {");
    reveal_strlit("\n\"$executor\" exec-server --help >/dev/null 2>&1 || {");
    reveal_strlit("\n");
    let s = VERIFY_3@;
    lemma_at(s, "\ntest -x \"$executor\" || { echo \"remote executor is unavailable: $executor\" >&2; exit 1; }\n"@, 0);
    lemma_at(s, "\nactual_version=$(\"$executor\" --version)\ntest \"$actual_version\" = \"$expected_version\" || {"@, 89);
    lemma_at(s, "\n\"$executor\" exec-server --help >/dev/null 2>&1 || {"@, 250);
    lemma_starts(s, "\n"@);
}

proof fn lemma_rollback()
    ensures
        precedes(ROLLBACK@, "\ntest -L \"$previous\" || { echo \"no previous Shuttle release\" >&2; exit 1; }\n"@, "\nln -sfn \"$new_current\" \"$current\"\n"@),
        precedes(ROLLBACK@, "\ntest -x \"$new_current/cxs-shim\"\n"@, "\nln -sfn \"$new_current\" \"$current\"\n"@),
        precedes(ROLLBACK@, "\ntest -x \"$executor\" || { echo \"previous release executor is unavailable: $executor\" >&2; exit 1; }\n"@, "\nln -sfn \"$new_current\" \"$current\"\n"@),
        precedes(ROLLBACK@, "\n\"$executor\" exec-server --help >/dev/null 2>&1 || {"@, "\nln -sfn \"$new_current\" \"$current\"\n"@),
        precedes(ROLLBACK@, "\nnew_current=$(readlink \"$previous\")\n"@, "\nln -sfn \"$new_current\" \"$current\"\n"@),
        precedes(ROLLBACK@, "\nold_current=$(readlink \"$current\")\n"@, "\nln -sfn \"$new_current\" \"$current\"\n"@),
        precedes(ROLLBACK@, "\nln -sfn \"$new_current\" \"$current\"\n"@, "ln -sfn \"$old_current\" \"$previous\"\n"@),
        precedes(ROLLBACK@, "\nln -sfn \"$new_current\" \"$current\"\n"@, "cp \"$new_current/install.json\" \"$HOME/.config/codex-shuttle/install.json\"\n"@),
        precedes(ROLLBACK@, "\nln -sfn \"$new_current\" \"$current\"\n"@, "cp \"$new_current/shim.json\" \"$HOME/.config/codex-shuttle/shim.json\"\n"@),
{
    reveal_strlit(r#"set -eu
umask 077
root="$HOME/.local/lib/codex-shuttle"
previous="$root/previous"
current="$root/current"
test -L "$previous" || { echo "no previous Shuttle release" >&2; exit 1; }
old_current=$(readlink "$current")
new_current=$(readlink "$previous")
test -x "$new_current/cxs-shim"
if test -f "$new_current/executor.path"; then
  executor=$(cat "$new_current/executor.path")
else
  executor="$new_current/bin/codex"
fi
test -x "$executor" || { echo "previous release executor is unavailable: $executor" >&2; exit 1; }
"$executor" exec-server --help >/dev/null 2>&1 || { echo "previous release executor lacks exec-server" >&2; exit 1; }
ln -sfn "$new_current" "$current"
ln -sfn "$old_current" "$previous"
cp "$new_current/install.json" "$HOME/.config/codex-shuttle/install.json"
cp "$new_current/shim.json" "$HOME/.config/codex-shuttle/shim.json"
cat "$HOME/.config/codex-shuttle/install.json"
"$HOME/.local/bin/codex" --version >&2
"#);
    reveal_strlit("\ntest -L \"$previous\" || { echo \"no previous Shuttle release\" >&2; exit 1; }\n");
    reveal_strlit("\nln -sfn \"$new_current\" \"$current\"\n");
    reveal_strlit("\ntest -x \"$new_current/cxs-shim\"\n");
    reveal_strlit("\ntest -x \"$executor\" || { echo \"previous release executor is unavailable: $executor\" >&2; exit 1; }\n");
    reveal_strlit("\n\"$executor\" exec-server --help >/dev/null 2>&1 || {");
    reveal_strlit("\nnew_current=$(readlink \"$previous\")\n");
    reveal_strlit("\nold_current=$(readlink \"$current\")\n");
    reveal_strlit("ln -sfn \"$old_current\" \"$previous\"\n");
    reveal_strlit("cp \"$new_current/install.json\" \"$HOME/.config/codex-shuttle/install.json\"\n");
    reveal_strlit("cp \"$new_current/shim.json\" \"$HOME/.config/codex-shuttle/shim.json\"\n");
    let s = ROLLBACK@;
    lemma_both_at(s, "\ntest -L \"$previous\" || { echo \"no previous Shuttle release\" >&2; exit 1; }\n"@, "\nln -sfn \"$new_current\" \"$current\"\n"@, 105, 637);
    lemma_both_at(s, "\ntest -x \"$new_current/cxs-shim\"\n"@, "\nln -sfn \"$new_current\" \"$current\"\n"@, 251, 637);
    lemma_both_at(s, "\ntest -x \"$executor\" || { echo \"previous release executor is unavailable: $executor\" >&2; exit 1; }\n"@, "\nln -sfn \"$new_current\" \"$current\"\n"@, 420, 637);
    lemma_both_at(s, "\n\"$executor\" exec-server --help >/dev/null 2>&1 || {"@, "\nln -sfn \"$new_current\" \"$current\"\n"@, 519, 637);
    lemma_both_at(s, "\nnew_current=$(readlink \"$previous\")\n"@, "\nln -sfn \"$new_current\" \"$current\"\n"@, 215, 637);
    lemma_both_at(s, "\nold_current=$(readlink \"$current\")\n"@, "\nln -sfn \"$new_current\" \"$current\"\n"@, 180, 637);
    lemma_both_at(s, "\nln -sfn \"$new_current\" \"$current\"\n"@, "ln -sfn \"$old_current\" \"$previous\"\n"@, 637, 672);
    lemma_both_at(s, "\nln -sfn \"$new_current\" \"$current\"\n"@, "cp \"$new_current/install.json\" \"$HOME/.config/codex-shuttle/install.json\"\n"@, 637, 707);
    lemma_both_at(s, "\nln -sfn \"$new_current\" \"$current\"\n"@, "cp \"$new_current/shim.json\" \"$HOME/.config/codex-shuttle/shim.json\"\n"@, 637, 781);
}

proof fn lemma_uninstall_1()
    ensures
        "\nexpected="@.is_suffix_of(UNINSTALL_1@),
{
    reveal_strlit(r#"set -eu
umask 077
expected="#);
    reveal_strlit("\nexpected=");
    let s = UNINSTALL_1@;
    lemma_ends(s, "\nexpected="@);
}

proof fn lemma_uninstall_2()
    ensures
        precedes(UNINSTALL_2@, "\nowner=$(cat \"$owner_file\")\ntest \"$owner\" = \"$expected\" || { echo \"remote install belongs to profile $owner\" >&2; exit 1; }\n"@, "if test -L \"$link\" && test \"$(readlink \"$link\")\" = \"$managed\"; then unlink \"$link\"; fi\n"@),
        precedes(UNINSTALL_2@, "\nowner=$(cat \"$owner_file\")\ntest \"$owner\" = \"$expected\" || { echo \"remote install belongs to profile $owner\" >&2; exit 1; }\n"@, "if test -e \"$original\" || test -L \"$original\"; then mv \"$original\" \"$link\"; fi\n"@),
        precedes(UNINSTALL_2@, "\nowner=$(cat \"$owner_file\")\ntest \"$owner\" = \"$expected\" || { echo \"remote install belongs to profile $owner\" >&2; exit 1; }\n"@, "unlink \"$owner_file\"\n"@),
        precedes(UNINSTALL_2@, "\nowner=$(cat \"$owner_file\")\ntest \"$owner\" = \"$expected\" || { echo \"remote install belongs to profile $owner\" >&2; exit 1; }\n"@, "if test -d \"$profile_dir\"; then find \"$profile_dir\" -depth -delete; fi\n"@),
        precedes(UNINSTALL_2@, "if test -L \"$link\" && test \"$(readlink \"$link\")\" = \"$managed\"; then unlink \"$link\"; fi\n"@, "if test -e \"$original\" || test -L \"$original\"; then mv \"$original\" \"$link\"; fi\n"@),
        "\nif test "@.is_suffix_of(UNINSTALL_2@),
        "\n"@.is_prefix_of(UNINSTALL_2@),
{
    reveal_strlit(r##"
owner_file="$HOME/.config/codex-shuttle/owner"
test -f "$owner_file" || { echo "Shuttle is not installed" >&2; exit 1; }
owner=$(cat "$owner_file")
test "$owner" = "$expected" || { echo "remote install belongs to profile $owner" >&2; exit 1; }
managed="$HOME/.local/lib/codex-shuttle/current/cxs-shim"
link="$HOME/.local/bin/codex"
if test -L "$link" && test "$(readlink "$link")" = "$managed"; then unlink "$link"; fi
original="$HOME/.local/lib/codex-shuttle/original-codex"
if test -e "$original" || test -L "$original"; then mv "$original" "$link"; fi
unlink "$HOME/.config/codex-shuttle/shim.json" 2>/dev/null || true
unlink "$HOME/.config/codex-shuttle/install.json" 2>/dev/null || true
unlink "$owner_file"
profile_dir="$HOME/.local/lib/codex-shuttle/profiles/$expected"
if test -d "$profile_dir"; then find "$profile_dir" -depth -delete; fi
case "${SHELL:-/bin/sh}" in
  */zsh) shell_profile="$HOME/.zprofile" ;;
  */bash|*/sh|*/dash) shell_profile="$HOME/.profile" ;;
  *) shell_profile="" ;;
esac
if test -n "$shell_profile" && test -f "$shell_profile"; then
  awk 'BEGIN { skip=0 } $0 == "# >>> Codex Shuttle >>>" { skip=1; next } $0 == "# <<< Codex Shuttle <<<" { skip=0; next } !skip { print }' "$shell_profile" > "$shell_profile.cxs-new"
  mv "$shell_profile.cxs-new" "$shell_profile"
fi
if test "##);
    reveal_strlit("\nowner=$(cat \"$owner_file\")\ntest \"$owner\" = \"$expected\" || { echo \"remote install belongs to profile $owner\" >&2; exit 1; }\n");
    reveal_strlit("if test -L \"$link\" && test \"$(readlink \"$link\")\" = \"$managed\"; then unlink \"$link\"; fi\n");
    reveal_strlit("if test -e \"$original\" || test -L \"$original\"; then mv \"$original\" \"$link\"; fi\n");
    reveal_strlit("unlink \"$owner_file\"\n");
    reveal_strlit("if test -d \"$profile_dir\"; then find \"$profile_dir\" -depth -delete; fi\n");
    reveal_strlit("\nif test ");
    reveal_strlit("\n");
    let s = UNINSTALL_2@;
    lemma_both_at(s, "\nowner=$(cat \"$owner_file\")\ntest \"$owner\" = \"$expected\" || { echo \"remote install belongs to profile $owner\" >&2; exit 1; }\n"@, "if test -L \"$link\" && test \"$(readlink \"$link\")\" = \"$managed\"; then unlink \"$link\"; fi\n"@, 121, 333);
    lemma_both_at(s, "\nowner=$(cat \"$owner_file\")\ntest \"$owner\" = \"$expected\" || { echo \"remote install belongs to profile $owner\" >&2; exit 1; }\n"@, "if test -e \"$original\" || test -L \"$original\"; then mv \"$original\" \"$link\"; fi\n"@, 121, 477);
    lemma_both_at(s, "\nowner=$(cat \"$owner_file\")\ntest \"$owner\" = \"$expected\" || { echo \"remote install belongs to profile $owner\" >&2; exit 1; }\n"@, "unlink \"$owner_file\"\n"@, 121, 693);
    lemma_both_at(s, "\nowner=$(cat \"$owner_file\")\ntest \"$owner\" = \"$expected\" || { echo \"remote install belongs to profile $owner\" >&2; exit 1; }\n"@, "if test -d \"$profile_dir\"; then find \"$profile_dir\" -depth -delete; fi\n"@, 121, 778);
    lemma_both_at(s, "if test -L \"$link\" && test \"$(readlink \"$link\")\" = \"$managed\"; then unlink \"$link\"; fi\n"@, "if test -e \"$original\" || test -L \"$original\"; then mv \"$original\" \"$link\"; fi\n"@, 333, 477);
    lemma_ends(s, "\nif test "@);
    lemma_starts(s, "\n"@);
}

proof fn lemma_uninstall_3()
    ensures
        occurs(UNINSTALL_3@, "\n  if test -d \"$root\"; then find \"$root\" -depth -delete; fi\nfi\n"@),
        " = 1; then\n"@.is_prefix_of(UNINSTALL_3@),
{
    reveal_strlit(r#" = 1; then
  root="$HOME/.local/lib/codex-shuttle"
  test "$root" = "$HOME/.local/lib/codex-shuttle"
  if test -d "$root"; then find "$root" -depth -delete; fi
fi
"#);
    reveal_strlit("\n  if test -d \"$root\"; then find \"$root\" -depth -delete; fi\nfi\n");
    reveal_strlit(" = 1; then\n");
    let s = UNINSTALL_3@;
    lemma_at(s, "\n  if test -d \"$root\"; then find \"$root\" -depth -delete; fi\nfi\n"@, 100);
    lemma_starts(s, " = 1; then\n"@);
}

proof fn lemma_install_1()
    ensures
        "\nprofile="@.is_suffix_of(INSTALL_1@),
{
    reveal_strlit(r#"set -eu
umask 077
profile="#);
    reveal_strlit("\nprofile=");
    let s = INSTALL_1@;
    lemma_ends(s, "\nprofile="@);
}

proof fn lemma_install_2()
    ensures
        "\ntoken="@.is_suffix_of(INSTALL_2@),
        "\n"@.is_prefix_of(INSTALL_2@),
{
    reveal_strlit(r#"
token="#);
    reveal_strlit("\ntoken=");
    reveal_strlit("\n");
    let s = INSTALL_2@;
    lemma_ends(s, "\ntoken="@);
    lemma_starts(s, "\n"@);
}

proof fn lemma_install_3()
    ensures
        "\nexpected_version="@.is_suffix_of(INSTALL_3@),
        "\n"@.is_prefix_of(INSTALL_3@),
{
    reveal_strlit(r#"
expected_version="#);
    reveal_strlit("\nexpected_version=");
    reveal_strlit("\n");
    let s = INSTALL_3@;
    lemma_ends(s, "\nexpected_version="@);
    lemma_starts(s, "\n"@);
}

proof fn lemma_install_4()
    ensures
        "\nroot="@.is_suffix_of(INSTALL_4@),
        "\n"@.is_prefix_of(INSTALL_4@),
{
    reveal_strlit(r#"
root="#);
    reveal_strlit("\nroot=");
    reveal_strlit("\n");
    let s = INSTALL_4@;
    lemma_ends(s, "\nroot="@);
    lemma_starts(s, "\n"@);
}

proof fn lemma_install_5()
    ensures
        "\nrelease=\"$root/releases/"@.is_suffix_of(INSTALL_5@),
        "\n"@.is_prefix_of(INSTALL_5@),
{
    reveal_strlit(r#"
release="$root/releases/"#);
    reveal_strlit("\nrelease=\"$root/releases/");
    reveal_strlit("\n");
    let s = INSTALL_5@;
    lemma_ends(s, "\nrelease=\"$root/releases/"@);
    lemma_starts(s, "\n"@);
}

proof fn lemma_install_6()
    ensures
        "\nstage=\"$root/.stage-"@.is_suffix_of(INSTALL_6@),
        "\"\n"@.is_prefix_of(INSTALL_6@),
{
    reveal_strlit(r#""
stage="$root/.stage-"#);
    reveal_strlit("\nstage=\"$root/.stage-");
    reveal_strlit("\"\n");
    let s = INSTALL_6@;
    lemma_ends(s, "\nstage=\"$root/.stage-"@);
    lemma_starts(s, "\"\n"@);
}

proof fn lemma_install_7()
    ensures
        "\nexecutor_installed="@.is_suffix_of(INSTALL_7@),
        "\"\n"@.is_prefix_of(INSTALL_7@),
{
    reveal_strlit(r#""
executor_installed="#);
    reveal_strlit("\nexecutor_installed=");
    reveal_strlit("\"\n");
    let s = INSTALL_7@;
    lemma_ends(s, "\nexecutor_installed="@);
    lemma_starts(s, "\"\n"@);
}

proof fn lemma_install_8()
    ensures
        "\nshim="@.is_suffix_of(INSTALL_8@),
        "\n"@.is_prefix_of(INSTALL_8@),
{
    reveal_strlit(r#"
shim="#);
    reveal_strlit("\nshim=");
    reveal_strlit("\n");
    let s = INSTALL_8@;
    lemma_ends(s, "\nshim="@);
    lemma_starts(s, "\n"@);
}

proof fn lemma_install_9()
    ensures
        occurs(INSTALL_9@, "\n  test \"$owner\" = \"$profile\" || { echo \"remote Shuttle install belongs to profile $owner\" >&2; exit 1; }\n"@),
        "\n"@.is_prefix_of(INSTALL_9@),
{
    reveal_strlit(r#"
config_dir="$HOME/.config/codex-shuttle"
owner_file="$config_dir/owner"
if test -f "$owner_file"; then
  owner=$(cat "$owner_file")
  test "$owner" = "$profile" || { echo "remote Shuttle install belongs to profile $owner" >&2; exit 1; }
fi
case "${SHELL:-/bin/sh}" in
  */zsh) shell_profile="$HOME/.zprofile" ;;
  */bash|*/sh|*/dash) shell_profile="$HOME/.profile" ;;
  *) echo "unsupported remote login shell ${SHELL:-unknown}" >&2; exit 1 ;;
esac
mkdir -p "$root/releases" "$root/profiles/$profile/codex-home" "$config_dir" "$HOME/.local/bin"
if test -e "$root/current" && test ! -L "$root/current"; then echo "$root/current is not a managed symlink" >&2; exit 1; fi
if test -e "$stage"; then find "$stage" -depth -delete; fi
mkdir "$stage"
"#);
    reveal_strlit("\n  test \"$owner\" = \"$profile\" || { echo \"remote Shuttle install belongs to profile $owner\" >&2; exit 1; }\n");
    reveal_strlit("\n");
    let s = INSTALL_9@;
    lemma_at(s, "\n  test \"$owner\" = \"$profile\" || { echo \"remote Shuttle install belongs to profile $owner\" >&2; exit 1; }\n"@, 132);
    lemma_starts(s, "\n"@);
}

proof fn lemma_install_10()
    ensures
        occurs(INSTALL_10@, "\nactual_version=$(\"$executor_probe\" --version)\ntest \"$actual_version\" = \"$expected_version\" || { echo \"Codex package version mismatch: $actual_version\" >&2; exit 1; }\n"@),
        occurs(INSTALL_10@, "\"$executor_probe\" exec-server --help >/dev/null 2>&1 || { echo \"Codex executor has no exec-server command\" >&2; exit 1; }\n"@),
        "\ncat > \"$stage/shim.json\" <<'CXS_CONFIG'\n"@.is_suffix_of(INSTALL_10@),
{
    reveal_strlit(r#"
install -m 0700 "$shim" "$stage/cxs-shim"
actual_version=$("$executor_probe" --version)
test "$actual_version" = "$expected_version" || { echo "Codex package version mismatch: $actual_version" >&2; exit 1; }
"$executor_probe" exec-server --help >/dev/null 2>&1 || { echo "Codex executor has no exec-server command" >&2; exit 1; }
cat > "$stage/shim.json" <<'CXS_CONFIG'
"#);
    reveal_strlit("\nactual_version=$(\"$executor_probe\" --version)\ntest \"$actual_version\" = \"$expected_version\" || { echo \"Codex package version mismatch: $actual_version\" >&2; exit 1; }\n");
    reveal_strlit("\"$executor_probe\" exec-server --help >/dev/null 2>&1 || { echo \"Codex executor has no exec-server command\" >&2; exit 1; }\n");
    reveal_strlit("\ncat > \"$stage/shim.json\" <<'CXS_CONFIG'\n");
    let s = INSTALL_10@;
    lemma_at(s, "\nactual_version=$(\"$executor_probe\" --version)\ntest \"$actual_version\" = \"$expected_version\" || { echo \"Codex package version mismatch: $actual_version\" >&2; exit 1; }\n"@, 42);
    lemma_at(s, "\"$executor_probe\" exec-server --help >/dev/null 2>&1 || { echo \"Codex executor has no exec-server command\" >&2; exit 1; }\n"@, 209);
    lemma_ends(s, "\ncat > \"$stage/shim.json\" <<'CXS_CONFIG'\n"@);
}

proof fn lemma_install_11()
    ensures
        "\ncat > \"$stage/install.json\" <<'CXS_METADATA'\n"@.is_suffix_of(INSTALL_11@),
        "\nCXS_CONFIG\n"@.is_prefix_of(INSTALL_11@),
{
    reveal_strlit(r#"
CXS_CONFIG
cat > "$stage/install.json" <<'CXS_METADATA'
"#);
    reveal_strlit("\ncat > \"$stage/install.json\" <<'CXS_METADATA'\n");
    reveal_strlit("\nCXS_CONFIG\n");
    let s = INSTALL_11@;
    lemma_ends(s, "\ncat > \"$stage/install.json\" <<'CXS_METADATA'\n"@);
    lemma_starts(s, "\nCXS_CONFIG\n"@);
}

proof fn lemma_install_12()
    ensures
        occurs(INSTALL_12@, "\nif test -e \"$release\"; then find \"$stage\" -depth -delete; else mv \"$stage\" \"$release\"; fi\n"@),
        occurs(INSTALL_12@, "\nprintf '%s\\n' \"$token\" > \"$root/profiles/$profile/token\"\nchmod 0600 \"$root/profiles/$profile/token\"\n"@),
        occurs(INSTALL_12@, "\nprintf '%s\\n' \"$profile\" > \"$owner_file\"\n"@),
        occurs(INSTALL_12@, "\ncp \"$release/shim.json\" \"$config_dir/shim.json\"\ncp \"$release/install.json\" \"$config_dir/install.json\"\n"@),
        occurs(INSTALL_12@, "\nprintf '%s\\n' \"$executor_installed\" > \"$stage/executor.path\"\n"@),
        occurs(INSTALL_12@, "\ntest -x \"$executor_installed\" || { echo \"configured Codex executor is not executable after activation\" >&2; exit 1; }\n"@),
        precedes(INSTALL_12@, "\nif test -e \"$release\"; then find \"$stage\" -depth -delete; else mv \"$stage\" \"$release\"; fi\n"@, "ln -sfn \"$release\" \"$root/current\"\n"@),
        precedes(INSTALL_12@, "\n    ln -sfn \"$old\" \"$root/previous\"\n"@, "ln -sfn \"$release\" \"$root/current\"\n"@),
        precedes(INSTALL_12@, "\n    test ! -e \"$root/original-codex\" && test ! -L \"$root/original-codex\" || { echo \"refusing to replace an existing saved codex\" >&2; exit 1; }\n    mv \"$link\" \"$root/original-codex\"\n"@, "ln -sfn \"$root/current/cxs-shim\" \"$HOME/.local/bin/codex\"\n"@),
        precedes(INSTALL_12@, "ln -sfn \"$release\" \"$root/current\"\n"@, "ln -sfn \"$root/current/cxs-shim\" \"$HOME/.local/bin/codex\"\n"@),
        "\nCXS_METADATA\n"@.is_prefix_of(INSTALL_12@),
{
    reveal_strlit(r#"
CXS_METADATA
printf '%s\n' "$executor_installed" > "$stage/executor.path"
if test -e "$release"; then find "$stage" -depth -delete; else mv "$stage" "$release"; fi
printf '%s\n' "$token" > "$root/profiles/$profile/token"
chmod 0600 "$root/profiles/$profile/token"
if test -L "$root/current"; then
  old=$(readlink "$root/current")
  if test ! -f "$old/executor.path"; then
    old_executor=""
    if test -x "$old/bin/codex"; then
      old_executor="$old/bin/codex"
    elif test -x "$old/cxs-shim" && test -f "$old/shim.json"; then
      old_version=$(CXS_SHIM_CONFIG="$old/shim.json" "$old/cxs-shim" --version 2>/dev/null || true)
      if test "$old_version" = "$expected_version" && test -x "$executor_installed"; then
        old_executor="$executor_installed"
      fi
    fi
    if test -n "$old_executor"; then
      printf '%s\n' "$old_executor" > "$old/executor.path"
      chmod 0600 "$old/executor.path"
    fi
  fi
  if test "$old" != "$release"; then
    ln -sfn "$old" "$root/previous"
  fi
fi
ln -sfn "$release" "$root/current"
cp "$release/shim.json" "$config_dir/shim.json"
cp "$release/install.json" "$config_dir/install.json"
printf '%s\n' "$profile" > "$owner_file"
chmod 0600 "$release/executor.path" "$config_dir/shim.json" "$config_dir/install.json" "$owner_file"
touch "$shell_profile"
if ! grep -Fqx '# >>> Codex Shuttle >>>' "$shell_profile"; then
  cat >> "$shell_profile" <<'CXS_PATH'

# >>> Codex Shuttle >>>
case ":$PATH:" in
  *":$HOME/.local/bin:"*) ;;
  *) PATH="$HOME/.local/bin:$PATH" ;;
esac
export PATH
# <<< Codex Shuttle <<<
CXS_PATH
fi
managed="$root/current/cxs-shim"
link="$HOME/.local/bin/codex"
if test -e "$link" || test -L "$link"; then
  if test ! -L "$link" || test "$(readlink "$link")" != "$managed"; then
    test ! -e "$root/original-codex" && test ! -L "$root/original-codex" || { echo "refusing to replace an existing saved codex" >&2; exit 1; }
    mv "$link" "$root/original-codex"
  fi
fi
ln -sfn "$root/current/cxs-shim" "$HOME/.local/bin/codex"
test -x "$executor_installed" || { echo "configured Codex executor is not executable after activation" >&2; exit 1; }
"$HOME/.local/bin/codex" --version
"#);
    reveal_strlit("\nif test -e \"$release\"; then find \"$stage\" -depth -delete; else mv \"$stage\" \"$release\"; fi\n");
    reveal_strlit("\nprintf '%s\\n' \"$token\" > \"$root/profiles/$profile/token\"\nchmod 0600 \"$root/profiles/$profile/token\"\n");
    reveal_strlit("\nprintf '%s\\n' \"$profile\" > \"$owner_file\"\n");
    reveal_strlit("\ncp \"$release/shim.json\" \"$config_dir/shim.json\"\ncp \"$release/install.json\" \"$config_dir/install.json\"\n");
    reveal_strlit("\nprintf '%s\\n' \"$executor_installed\" > \"$stage/executor.path\"\n");
    reveal_strlit("\ntest -x \"$executor_installed\" || { echo \"configured Codex executor is not executable after activation\" >&2; exit 1; }\n");
    reveal_strlit("ln -sfn \"$release\" \"$root/current\"\n");
    reveal_strlit("\n    ln -sfn \"$old\" \"$root/previous\"\n");
    reveal_strlit("\n    test ! -e \"$root/original-codex\" && test ! -L \"$root/original-codex\" || { echo \"refusing to replace an existing saved codex\" >&2; exit 1; }\n    mv \"$link\" \"$root/original-codex\"\n");
    reveal_strlit("ln -sfn \"$root/current/cxs-shim\" \"$HOME/.local/bin/codex\"\n");
    reveal_strlit("\nCXS_METADATA\n");
    let s = INSTALL_12@;
    lemma_at(s, "\nif test -e \"$release\"; then find \"$stage\" -depth -delete; else mv \"$stage\" \"$release\"; fi\n"@, 74);
    lemma_at(s, "\nprintf '%s\\n' \"$token\" > \"$root/profiles/$profile/token\"\nchmod 0600 \"$root/profiles/$profile/token\"\n"@, 164);
    lemma_at(s, "\nprintf '%s\\n' \"$profile\" > \"$owner_file\"\n"@, 1147);
    lemma_at(s, "\ncp \"$release/shim.json\" \"$config_dir/shim.json\"\ncp \"$release/install.json\" \"$config_dir/install.json\"\n"@, 1045);
    lemma_at(s, "\nprintf '%s\\n' \"$executor_installed\" > \"$stage/executor.path\"\n"@, 13);
    lemma_at(s, "\ntest -x \"$executor_installed\" || { echo \"configured Codex executor is not executable after activation\" >&2; exit 1; }\n"@, 2006);
    lemma_both_at(s, "\nif test -e \"$release\"; then find \"$stage\" -depth -delete; else mv \"$stage\" \"$release\"; fi\n"@, "ln -sfn \"$release\" \"$root/current\"\n"@, 74, 1011);
    lemma_both_at(s, "\n    ln -sfn \"$old\" \"$root/previous\"\n"@, "ln -sfn \"$release\" \"$root/current\"\n"@, 966, 1011);
    lemma_both_at(s, "\n    test ! -e \"$root/original-codex\" && test ! -L \"$root/original-codex\" || { echo \"refusing to replace an existing saved codex\" >&2; exit 1; }\n    mv \"$link\" \"$root/original-codex\"\n"@, "ln -sfn \"$root/current/cxs-shim\" \"$HOME/.local/bin/codex\"\n"@, 1758, 1949);
    lemma_both_at(s, "ln -sfn \"$release\" \"$root/current\"\n"@, "ln -sfn \"$root/current/cxs-shim\" \"$HOME/.local/bin/codex\"\n"@, 1011, 1949);
    lemma_starts(s, "\nCXS_METADATA\n"@);
}

proof fn lemma_unpack_1()
    ensures
        "package="@.is_suffix_of(UNPACK_1@),
{
    reveal_strlit("package=");
    reveal_strlit("package=");
    let s = UNPACK_1@;
    lemma_ends(s, "package="@);
}

proof fn lemma_unpack_2()
    ensures
        occurs(UNPACK_2@, "\ntar -xzf \"$package\" -C \"$stage\"\n"@),
        occurs(UNPACK_2@, "\n  test -x \"$stage/bin/codex-code-mode-host\" || { echo \"Codex package has no executable bin/codex-code-mode-host\" >&2; exit 1; }\n"@),
        occurs(UNPACK_2@, "\n  test -x \"$stage/codex-path/rg\" || { echo \"Codex package has no executable codex-path/rg\" >&2; exit 1; }\n"@),
        occurs(UNPACK_2@, "\n    test -x \"$stage/codex-resources/bwrap\" || { echo \"Codex package has no executable codex-resources/bwrap\" >&2; exit 1; }\n"@),
        "\n"@.is_prefix_of(UNPACK_2@),
{
    reveal_strlit(r#"
tar -xzf "$package" -C "$stage"
executor_name=${executor_installed##*/}
executor_probe="$stage/bin/$executor_name"
test -x "$executor_probe" || { echo "Codex package has no executable bin/$executor_name" >&2; exit 1; }
if test "$executor_name" = codex; then
  test -x "$stage/bin/codex-code-mode-host" || { echo "Codex package has no executable bin/codex-code-mode-host" >&2; exit 1; }
  test -x "$stage/codex-path/rg" || { echo "Codex package has no executable codex-path/rg" >&2; exit 1; }
  if test "$(uname -s)" = Linux; then
    test -x "$stage/codex-resources/bwrap" || { echo "Codex package has no executable codex-resources/bwrap" >&2; exit 1; }
  fi
fi"#);
    reveal_strlit("\ntar -xzf \"$package\" -C \"$stage\"\n");
    reveal_strlit("\n  test -x \"$stage/bin/codex-code-mode-host\" || { echo \"Codex package has no executable bin/codex-code-mode-host\" >&2; exit 1; }\n");
    reveal_strlit("\n  test -x \"$stage/codex-path/rg\" || { echo \"Codex package has no executable codex-path/rg\" >&2; exit 1; }\n");
    reveal_strlit("\n    test -x \"$stage/codex-resources/bwrap\" || { echo \"Codex package has no executable codex-resources/bwrap\" >&2; exit 1; }\n");
    reveal_strlit("\n");
    let s = UNPACK_2@;
    lemma_at(s, "\ntar -xzf \"$package\" -C \"$stage\"\n"@, 0);
    lemma_at(s, "\n  test -x \"$stage/bin/codex-code-mode-host\" || { echo \"Codex package has no executable bin/codex-code-mode-host\" >&2; exit 1; }\n"@, 258);
    lemma_at(s, "\n  test -x \"$stage/codex-path/rg\" || { echo \"Codex package has no executable codex-path/rg\" >&2; exit 1; }\n"@, 386);
    lemma_at(s, "\n    test -x \"$stage/codex-resources/bwrap\" || { echo \"Codex package has no executable codex-resources/bwrap\" >&2; exit 1; }\n"@, 530);
    lemma_starts(s, "\n"@);
}

proof fn lemma_unpacked_1()
    ensures
        "\ntest \"$(digest_of \"$executor_probe\")\" = "@.is_suffix_of(UNPACKED_1@),
{
    reveal_strlit(r#"
test "$(digest_of "$executor_probe")" = "#);
    reveal_strlit("\ntest \"$(digest_of \"$executor_probe\")\" = ");
    let s = UNPACKED_1@;
    lemma_ends(s, "\ntest \"$(digest_of \"$executor_probe\")\" = "@);
}

proof fn lemma_unpacked_2()
    ensures
        " || { echo \"Codex package executor checksum mismatch\" >&2; exit 1; }"@.is_prefix_of(UNPACKED_2@),
{
    reveal_strlit(r#" || { echo "Codex package executor checksum mismatch" >&2; exit 1; }"#);
    reveal_strlit(" || { echo \"Codex package executor checksum mismatch\" >&2; exit 1; }");
    let s = UNPACKED_2@;
    lemma_starts(s, " || { echo \"Codex package executor checksum mismatch\" >&2; exit 1; }"@);
}

proof fn lemma_inspect_command()
    ensures
        occurs(INSPECT_COMMAND@, "cat \"$HOME/.config/codex-shuttle/install.json\""@),
        occurs(INSPECT_COMMAND@, "\"$HOME/.local/bin/codex\" --version >&2"@),
        occurs(INSPECT_COMMAND@, "\"${SHELL:-/bin/sh}\" -l -i -c 'command -v codex >/dev/null'"@),
{
    reveal_strlit("set -eu; cat \"$HOME/.config/codex-shuttle/install.json\"; printf '\\n'; \"$HOME/.local/bin/codex\" --version >&2; \"${SHELL:-/bin/sh}\" -l -i -c 'command -v codex >/dev/null' 2>/dev/null");
    reveal_strlit("cat \"$HOME/.config/codex-shuttle/install.json\"");
    reveal_strlit("\"$HOME/.local/bin/codex\" --version >&2");
    reveal_strlit("\"${SHELL:-/bin/sh}\" -l -i -c 'command -v codex >/dev/null'");
    let s = INSPECT_COMMAND@;
    lemma_at(s, "cat \"$HOME/.config/codex-shuttle/install.json\""@, 9);
    lemma_at(s, "\"$HOME/.local/bin/codex\" --version >&2"@, 70);
    lemma_at(s, "\"${SHELL:-/bin/sh}\" -l -i -c 'command -v codex >/dev/null'"@, 110);
}

proof fn lemma_bootstrap_1()
    ensures
        "mkdir -p \"$HOME/.config/codex-shuttle\" \""@.is_suffix_of(BOOTSTRAP_1@),
{
    reveal_strlit(r#"mkdir -p "$HOME/.config/codex-shuttle" ""#);
    reveal_strlit("mkdir -p \"$HOME/.config/codex-shuttle\" \"");
    let s = BOOTSTRAP_1@;
    lemma_ends(s, "mkdir -p \"$HOME/.config/codex-shuttle\" \""@);
}

proof fn lemma_bootstrap_2()
    ensures
        "\"; chmod 700 \""@.is_prefix_of(BOOTSTRAP_2@),
{
    reveal_strlit(r#""; chmod 700 ""#);
    reveal_strlit("\"; chmod 700 \"");
    let s = BOOTSTRAP_2@;
    lemma_starts(s, "\"; chmod 700 \""@);
}

proof fn lemma_bootstrap_5()
    ensures
        occurs(BOOTSTRAP_5@, "probe_token=\"cxs-probe-$$-$(date +%s)\"; CXS_PROBE_TOKEN=\"$probe_token\" "@),
        "CXS_CONTROL_SOCKET=\""@.is_suffix_of(BOOTSTRAP_5@),
{
    reveal_strlit(r#""; probe_token="cxs-probe-$$-$(date +%s)"; CXS_PROBE_TOKEN="$probe_token" CXS_CONTROL_SOCKET=""#);
    reveal_strlit("probe_token=\"cxs-probe-$$-$(date +%s)\"; CXS_PROBE_TOKEN=\"$probe_token\" ");
    reveal_strlit("CXS_CONTROL_SOCKET=\"");
    let s = BOOTSTRAP_5@;
    lemma_at(s, "probe_token=\"cxs-probe-$$-$(date +%s)\"; CXS_PROBE_TOKEN=\"$probe_token\" "@, 3);
    lemma_ends(s, "CXS_CONTROL_SOCKET=\""@);
}

proof fn lemma_bootstrap_6()
    ensures
        "\" nohup \"$HOME/.local/bin/codex\" -c features.code_mode_host=true app-server --listen unix:// "@.is_prefix_of(BOOTSTRAP_6@),
{
    reveal_strlit(r#"" nohup "$HOME/.local/bin/codex" -c features.code_mode_host=true app-server --listen unix:// >"$HOME/.config/codex-shuttle/probe-"#);
    reveal_strlit("\" nohup \"$HOME/.local/bin/codex\" -c features.code_mode_host=true app-server --listen unix:// ");
    let s = BOOTSTRAP_6@;
    lemma_starts(s, "\" nohup \"$HOME/.local/bin/codex\" -c features.code_mode_host=true app-server --listen unix:// "@);
}

proof fn lemma_bootstrap_7()
    ensures
        "probe_pid=$!; printf '%s %s\\n' \"$probe_pid\" \"$probe_token\" >\""@.is_suffix_of(BOOTSTRAP_7@),
{
    reveal_strlit(r#".log" 2>&1 </dev/null & probe_pid=$!; printf '%s %s\n' "$probe_pid" "$probe_token" >""#);
    reveal_strlit("probe_pid=$!; printf '%s %s\\n' \"$probe_pid\" \"$probe_token\" >\"");
    let s = BOOTSTRAP_7@;
    lemma_ends(s, "probe_pid=$!; printf '%s %s\\n' \"$probe_pid\" \"$probe_token\" >\""@);
}

proof fn lemma_bootstrap_8()
    ensures
        "\"; chmod 600 \""@.is_prefix_of(BOOTSTRAP_8@),
{
    reveal_strlit(r#""; chmod 600 ""#);
    reveal_strlit("\"; chmod 600 \"");
    let s = BOOTSTRAP_8@;
    lemma_starts(s, "\"; chmod 600 \""@);
}

proof fn lemma_bootstrap_9()
    ensures
        "[ -S \""@.is_suffix_of(BOOTSTRAP_9@),
{
    reveal_strlit(r#""; probe_tries=0; while [ "$probe_tries" -lt 100 ]; do [ -S ""#);
    reveal_strlit("[ -S \"");
    let s = BOOTSTRAP_9@;
    lemma_ends(s, "[ -S \""@);
}

proof fn lemma_bootstrap_10()
    ensures
        "\" ] && exit 0; "@.is_prefix_of(BOOTSTRAP_10@),
{
    reveal_strlit(r#"" ] && exit 0; kill -0 "$probe_pid" 2>/dev/null || break; probe_tries=$((probe_tries + 1)); sleep 0.1; done; cat "$HOME/.config/codex-shuttle/probe-"#);
    reveal_strlit("\" ] && exit 0; ");
    let s = BOOTSTRAP_10@;
    lemma_starts(s, "\" ] && exit 0; "@);
}

proof fn lemma_bootstrap_11()
    ensures
        occurs(BOOTSTRAP_11@, ">&2; exit 1"@),
{
    reveal_strlit(r#".log" >&2; exit 1"#);
    reveal_strlit(">&2; exit 1");
    let s = BOOTSTRAP_11@;
    lemma_at(s, ">&2; exit 1"@, 6);
}

proof fn lemma_ownership()
    ensures
        occurs(OWNERSHIP@, "probe_is_ours() { probe_environment | grep -Fqx \"CXS_PROBE_TOKEN=$probe_token\"; }; "@),
{
    reveal_strlit(r#"probe_environment() { if [ -r "/proc/$probe_pid/environ" ]; then tr '\000' '\n' <"/proc/$probe_pid/environ"; elif [ "$(uname -s)" = Darwin ]; then ps eww -p "$probe_pid" -o command= 2>/dev/null | tr ' ' '\n'; fi; }; probe_is_ours() { probe_environment | grep -Fqx "CXS_PROBE_TOKEN=$probe_token"; }; "#);
    reveal_strlit("probe_is_ours() { probe_environment | grep -Fqx \"CXS_PROBE_TOKEN=$probe_token\"; }; ");
    let s = OWNERSHIP@;
    lemma_at(s, "probe_is_ours() { probe_environment | grep -Fqx \"CXS_PROBE_TOKEN=$probe_token\"; }; "@, 216);
}

proof fn lemma_cleanup_1()
    ensures
        "if [ -f \""@.is_suffix_of(CLEANUP_1@),
{
    reveal_strlit(r#"probe_pid=''; probe_token=''; if [ -f ""#);
    reveal_strlit("if [ -f \"");
    let s = CLEANUP_1@;
    lemma_ends(s, "if [ -f \""@);
}

proof fn lemma_cleanup_2()
    ensures
        "\" ]; then read -r probe_pid probe_token <\""@.is_prefix_of(CLEANUP_2@),
{
    reveal_strlit(r#"" ]; then read -r probe_pid probe_token <""#);
    reveal_strlit("\" ]; then read -r probe_pid probe_token <\"");
    let s = CLEANUP_2@;
    lemma_starts(s, "\" ]; then read -r probe_pid probe_token <\""@);
}

proof fn lemma_cleanup_3()
    ensures
        precedes(CLEANUP_3@, "if probe_is_ours; then probe_owned=true; fi"@, "if [ \"$probe_owned\" = true ]; then kill -TERM \"$probe_pid\" 2>/dev/null || true;"@),
        precedes(CLEANUP_3@, "if [ \"$probe_owned\" = true ]; then kill -TERM \"$probe_pid\" 2>/dev/null || true;"@, "if kill -0 \"$probe_pid\" 2>/dev/null && probe_is_ours; then kill -KILL \"$probe_pid\" 2>/dev/null || true; fi; fi;"@),
        " rm -f \""@.is_suffix_of(CLEANUP_3@),
{
    reveal_strlit(r#"" || true; fi; probe_owned=false; case "$probe_pid" in ''|*[!0-9]*) ;; *) case "$probe_token" in ''|*[!0-9A-Za-z_-]*) ;; *) if probe_is_ours; then probe_owned=true; fi ;; esac ;; esac; if [ "$probe_owned" = true ]; then kill -TERM "$probe_pid" 2>/dev/null || true; cleanup_tries=0; while kill -0 "$probe_pid" 2>/dev/null && [ "$cleanup_tries" -lt 20 ]; do cleanup_tries=$((cleanup_tries + 1)); sleep 0.1; done; if kill -0 "$probe_pid" 2>/dev/null && probe_is_ours; then kill -KILL "$probe_pid" 2>/dev/null || true; fi; fi; rm -f ""#);
    reveal_strlit("if probe_is_ours; then probe_owned=true; fi");
    reveal_strlit("if [ \"$probe_owned\" = true ]; then kill -TERM \"$probe_pid\" 2>/dev/null || true;");
    reveal_strlit("if kill -0 \"$probe_pid\" 2>/dev/null && probe_is_ours; then kill -KILL \"$probe_pid\" 2>/dev/null || true; fi; fi;");
    reveal_strlit(" rm -f \"");
    let s = CLEANUP_3@;
    lemma_both_at(s, "if probe_is_ours; then probe_owned=true; fi"@, "if [ \"$probe_owned\" = true ]; then kill -TERM \"$probe_pid\" 2>/dev/null || true;"@, 124, 185);
    lemma_both_at(s, "if [ \"$probe_owned\" = true ]; then kill -TERM \"$probe_pid\" 2>/dev/null || true;"@, "if kill -0 \"$probe_pid\" 2>/dev/null && probe_is_ours; then kill -KILL \"$probe_pid\" 2>/dev/null || true; fi; fi;"@, 185, 411);
    lemma_ends(s, " rm -f \""@);
}

proof fn lemma_cleanup_4()
    ensures
        "\" \""@.is_prefix_of(CLEANUP_4@),
{
    reveal_strlit(r#"" ""#);
    reveal_strlit("\" \"");
    let s = CLEANUP_4@;
    lemma_starts(s, "\" \""@);
}

proof fn lemma_cleanup_5()
    ensures
        "\"; rmdir \""@.is_suffix_of(CLEANUP_5@),
{
    reveal_strlit(r#""; rmdir ""#);
    reveal_strlit("\"; rmdir \"");
    let s = CLEANUP_5@;
    lemma_ends(s, "\"; rmdir \""@);
}

proof fn lemma_cleanup_6()
    ensures
        "\" 2>/dev/null || true"@.is_prefix_of(CLEANUP_6@),
{
    reveal_strlit(r#"" 2>/dev/null || true"#);
    reveal_strlit("\" 2>/dev/null || true");
    let s = CLEANUP_6@;
    lemma_starts(s, "\" 2>/dev/null || true"@);
}

proof fn lemma_sessions_1()
    ensures
        "root="@.is_suffix_of(SESSIONS_1@),
{
    reveal_strlit("set -eu; root=");
    reveal_strlit("root=");
    let s = SESSIONS_1@;
    lemma_ends(s, "root="@);
}

proof fn lemma_sessions_2()
    ensures
        precedes(SESSIONS_2@, "test ! -d sessions || set -- \"$@\" sessions; "@, "if test \"$#\" -eq 0; then printf CXS0; else tar -cf - \"$@\"; fi"@),
        precedes(SESSIONS_2@, "test ! -d archived_sessions || set -- \"$@\" archived_sessions; "@, "if test \"$#\" -eq 0; then printf CXS0; else tar -cf - \"$@\"; fi"@),
        "; if ! cd \"$root\" 2>/dev/null; then printf CXS0; exit 0; fi;"@.is_prefix_of(SESSIONS_2@),
{
    reveal_strlit("; if ! cd \"$root\" 2>/dev/null; then printf CXS0; exit 0; fi; set --; test ! -d sessions || set -- \"$@\" sessions; test ! -d archived_sessions || set -- \"$@\" archived_sessions; if test \"$#\" -eq 0; then printf CXS0; else tar -cf - \"$@\"; fi");
    reveal_strlit("test ! -d sessions || set -- \"$@\" sessions; ");
    reveal_strlit("if test \"$#\" -eq 0; then printf CXS0; else tar -cf - \"$@\"; fi");
    reveal_strlit("test ! -d archived_sessions || set -- \"$@\" archived_sessions; ");
    reveal_strlit("; if ! cd \"$root\" 2>/dev/null; then printf CXS0; exit 0; fi;");
    let s = SESSIONS_2@;
    lemma_both_at(s, "test ! -d sessions || set -- \"$@\" sessions; "@, "if test \"$#\" -eq 0; then printf CXS0; else tar -cf - \"$@\"; fi"@, 69, 175);
    lemma_both_at(s, "test ! -d archived_sessions || set -- \"$@\" archived_sessions; "@, "if test \"$#\" -eq 0; then printf CXS0; else tar -cf - \"$@\"; fi"@, 113, 175);
    lemma_starts(s, "; if ! cd \"$root\" 2>/dev/null; then printf CXS0; exit 0; fi;"@);
}

proof fn lemma_facts_command()
    ensures
        occurs(FACTS_COMMAND@, "printf 'home=%s\\n' \"$HOME\""@),
        occurs(FACTS_COMMAND@, "printf 'kernel=%s\\n' \"$(uname -s)\""@),
        occurs(FACTS_COMMAND@, "printf 'arch=%s\\n' \"$(uname -m)\""@),
{
    reveal_strlit("printf 'home=%s\\n' \"$HOME\"; printf 'kernel=%s\\n' \"$(uname -s)\"; printf 'arch=%s\\n' \"$(uname -m)\"");
    reveal_strlit("printf 'home=%s\\n' \"$HOME\"");
    reveal_strlit("printf 'kernel=%s\\n' \"$(uname -s)\"");
    reveal_strlit("printf 'arch=%s\\n' \"$(uname -m)\"");
    let s = FACTS_COMMAND@;
    lemma_at(s, "printf 'home=%s\\n' \"$HOME\""@, 0);
    lemma_at(s, "printf 'kernel=%s\\n' \"$(uname -s)\""@, 28);
    lemma_at(s, "printf 'arch=%s\\n' \"$(uname -m)\""@, 64);
}

/// The host fetches the manifest and the package from where it is told, and
/// takes the digest that the manifest has for the package. A package that is
/// there already is used only where it has that digest, and one that was
/// fetched takes its place only where it does.
pub proof fn law_packages_are_checked_before_use(destination: Seq<char>, manifest_url: Seq<char>, name: Seq<char>, url: Seq<char>)
    ensures
        ({
            let script = download_script(destination, manifest_url, name, url);
            &&& occurs(script, "\ndestination="@ + quoted(destination) + "\n"@)
            &&& occurs(script, "--output \"$manifest\" "@ + quoted(manifest_url) + "\n"@)
            &&& occurs(script, "-v wanted="@ + quoted(name) + " "@)
            &&& occurs(script, "--output \"$temporary\" "@ + quoted(url) + "\n"@)
            &&& occurs(script, "'$2 == wanted || $2 == \"*\" wanted { print $1; exit }' \"$manifest\""@)
            &&& occurs(script, "\ntest -n \"$expected\" || { echo \"Codex checksum manifest did not contain the package\" >&2; exit 1; }\n"@)
            &&& occurs(script, "\n  actual=$(digest_of \"$destination\")\n  if test \"$actual\" = \"$expected\"; then printf '%s\\n' \"$expected\"; exit 0; fi\n"@)
            &&& occurs(script, "if command -v sha256sum >/dev/null 2>&1; then sha256sum \"$1\"; else shasum -a 256 \"$1\"; fi | awk '{print $1}'"@)
            &&& precedes(
                script,
                "\nactual=$(digest_of \"$temporary\")\ntest \"$actual\" = \"$expected\" || { unlink \"$temporary\"; echo \"Codex package checksum mismatch\" >&2; exit 1; }\n"@,
                "mv \"$temporary\" \"$destination\"\n"@,
            )
            &&& precedes(
                script,
                "mv \"$temporary\" \"$destination\"\n"@,
                "printf '%s\\n' \"$expected\"\n"@,
            )
        }),
{
    broadcast use {lemma_occurs_join, lemma_precedes_join};

    lemma_digest_function();
    lemma_download_1();
    lemma_download_2();
    lemma_download_3();
    lemma_download_4();
    lemma_download_5();
    let a = DIGEST_FUNCTION@;
    let a1 = a + DOWNLOAD_1@;
    let b = a1 + quoted(destination);
    let b1 = b + DOWNLOAD_2@;
    let c = b1 + quoted(manifest_url);
    let c1 = c + DOWNLOAD_3@;
    let d = c1 + quoted(name);
    let d1 = d + DOWNLOAD_4@;
    let e = d1 + quoted(url);
    lemma_suffix_join(a, DOWNLOAD_1@, "\ndestination="@);
    lemma_between(a + DOWNLOAD_1@, quoted(destination), DOWNLOAD_2@, "\ndestination="@, "\n"@);
    lemma_suffix_join(b, DOWNLOAD_2@, "--output \"$manifest\" "@);
    lemma_between(b + DOWNLOAD_2@, quoted(manifest_url), DOWNLOAD_3@, "--output \"$manifest\" "@, "\n"@);
    lemma_suffix_join(c, DOWNLOAD_3@, "-v wanted="@);
    lemma_between(c + DOWNLOAD_3@, quoted(name), DOWNLOAD_4@, "-v wanted="@, " "@);
    lemma_suffix_join(d, DOWNLOAD_4@, "--output \"$temporary\" "@);
    lemma_between(d + DOWNLOAD_4@, quoted(url), DOWNLOAD_5@, "--output \"$temporary\" "@, "\n"@);
}

/// The digest of an executor in a package is that of the file that was
/// unpacked.
pub proof fn law_packaged_executors_are_unpacked_first(package: Seq<char>, executor: Seq<char>)
    ensures
        ({
            let script = contents_script(package, executor);
            &&& occurs(script, "\npackage="@ + quoted(package) + "\n"@)
            &&& occurs(script, "\nexecutor="@ + quoted(executor) + "\n"@)
            &&& precedes(
                script,
                "\ntar -xzf \"$package\" -C \"$work\"\n"@,
                "\ndigest_of \"$work/$executor\"\n"@,
            )
        }),
{
    broadcast use {lemma_occurs_join, lemma_precedes_join};

    lemma_contents_1();
    lemma_contents_2();
    lemma_contents_3();
    let a = DIGEST_FUNCTION@;
    let b = a + CONTENTS_1@ + quoted(package);
    lemma_suffix_join(a, CONTENTS_1@, "\npackage="@);
    lemma_between(a + CONTENTS_1@, quoted(package), CONTENTS_2@, "\npackage="@, "\n"@);
    lemma_suffix_join(b, CONTENTS_2@, "\nexecutor="@);
    lemma_between(b + CONTENTS_2@, quoted(executor), CONTENTS_3@, "\nexecutor="@, "\n"@);
}

/// A Codex that the host has is told of only where it can be run, is not the
/// shim itself, has the version that is asked for, and has an Exec Server; its
/// digest is that of the file itself.
pub proof fn law_codex_on_the_host_is_tried_out(root: Seq<char>, expected: Seq<char>, path: Seq<char>)
    ensures
        ({
            let script = probe_script(root, expected, path);
            &&& occurs(script, "\nroot="@ + quoted(root) + "\n"@)
            &&& occurs(script, "\nexpected="@ + quoted(expected) + "\n"@)
            &&& occurs(script, "\ncandidate="@ + quoted(path) + "\n"@)
            &&& precedes(
                script,
                "\ntest -x \"$candidate\" || exit 42\n"@,
                "printf '%s\\n%s\\n%s\\n' \"$resolved\" \"$installed\" \"$digest\"\n"@,
            )
            &&& precedes(
                script,
                "\ntest \"$resolved\" != \"$managed_resolved\" || exit 42\n"@,
                "printf '%s\\n%s\\n%s\\n' \"$resolved\" \"$installed\" \"$digest\"\n"@,
            )
            &&& precedes(
                script,
                "\nactual=$(\"$candidate\" --version 2>/dev/null || true)\ntest \"$actual\" = \"$expected\" || exit 42\n"@,
                "printf '%s\\n%s\\n%s\\n' \"$resolved\" \"$installed\" \"$digest\"\n"@,
            )
            &&& precedes(
                script,
                "\n\"$candidate\" exec-server --help >/dev/null 2>&1 || exit 42\n"@,
                "printf '%s\\n%s\\n%s\\n' \"$resolved\" \"$installed\" \"$digest\"\n"@,
            )
            &&& precedes(
                script,
                "\ndigest=$(digest_of \"$resolved\")\n"@,
                "printf '%s\\n%s\\n%s\\n' \"$resolved\" \"$installed\" \"$digest\"\n"@,
            )
        }),
{
    broadcast use {lemma_occurs_join, lemma_precedes_join};

    lemma_probe_1();
    lemma_probe_2();
    lemma_probe_3();
    lemma_probe_4();
    let a = DIGEST_FUNCTION@;
    let b = a + PROBE_1@ + quoted(root);
    let c = b + PROBE_2@ + quoted(expected);
    lemma_suffix_join(a, PROBE_1@, "\nroot="@);
    lemma_between(a + PROBE_1@, quoted(root), PROBE_2@, "\nroot="@, "\n"@);
    lemma_suffix_join(b, PROBE_2@, "\nexpected="@);
    lemma_between(b + PROBE_2@, quoted(expected), PROBE_3@, "\nexpected="@, "\n"@);
    lemma_suffix_join(c, PROBE_3@, "\ncandidate="@);
    lemma_between(c + PROBE_3@, quoted(path), PROBE_4@, "\ncandidate="@, "\n"@);
}

/// The check of an executor is of the one that was recorded: it has to be
/// there, to have the recorded version, and to have an Exec Server.
pub proof fn law_executors_are_checked(install: RemoteInstall)
    ensures
        ({
            let script = verify_script(install);
            &&& occurs(script, "\nexecutor="@ + home_word(executor_of(install)) + "\n"@)
            &&& occurs(script, "\nexpected_version="@ + quoted(executor_version_of(install)) + "\n"@)
            &&& occurs(script, "\ntest -x \"$executor\" || { echo \"remote executor is unavailable: $executor\" >&2; exit 1; }\n"@)
            &&& occurs(script, "\nactual_version=$(\"$executor\" --version)\ntest \"$actual_version\" = \"$expected_version\" || {"@)
            &&& occurs(script, "\n\"$executor\" exec-server --help >/dev/null 2>&1 || {"@)
        }),
{
    broadcast use {lemma_occurs_join, lemma_precedes_join};

    lemma_verify_1();
    lemma_verify_2();
    lemma_verify_3();
    let a = DIGEST_FUNCTION@;
    let b = a + VERIFY_1@ + home_word(executor_of(install));
    lemma_suffix_join(a, VERIFY_1@, "\nexecutor="@);
    lemma_between(a + VERIFY_1@, home_word(executor_of(install)), VERIFY_2@, "\nexecutor="@, "\n"@);
    lemma_suffix_join(b, VERIFY_2@, "\nexpected_version="@);
    lemma_between(b + VERIFY_2@, quoted(executor_version_of(install)), VERIFY_3@, "\nexpected_version="@, "\n"@);
}

/// Going back makes the previous release the current one and the current one
/// the previous, but only once the previous one was found to be usable; its
/// records come with it.
pub proof fn law_going_back_checks_first()
    ensures
        ({
            let script = ROLLBACK@;
            &&& precedes(
                script,
                "\ntest -L \"$previous\" || { echo \"no previous Shuttle release\" >&2; exit 1; }\n"@,
                "\nln -sfn \"$new_current\" \"$current\"\n"@,
            )
            &&& precedes(
                script,
                "\ntest -x \"$new_current/cxs-shim\"\n"@,
                "\nln -sfn \"$new_current\" \"$current\"\n"@,
            )
            &&& precedes(
                script,
                "\ntest -x \"$executor\" || { echo \"previous release executor is unavailable: $executor\" >&2; exit 1; }\n"@,
                "\nln -sfn \"$new_current\" \"$current\"\n"@,
            )
            &&& precedes(
                script,
                "\n\"$executor\" exec-server --help >/dev/null 2>&1 || {"@,
                "\nln -sfn \"$new_current\" \"$current\"\n"@,
            )
            &&& precedes(
                script,
                "\nnew_current=$(readlink \"$previous\")\n"@,
                "\nln -sfn \"$new_current\" \"$current\"\n"@,
            )
            &&& precedes(
                script,
                "\nold_current=$(readlink \"$current\")\n"@,
                "\nln -sfn \"$new_current\" \"$current\"\n"@,
            )
            &&& precedes(
                script,
                "\nln -sfn \"$new_current\" \"$current\"\n"@,
                "ln -sfn \"$old_current\" \"$previous\"\n"@,
            )
            &&& precedes(
                script,
                "\nln -sfn \"$new_current\" \"$current\"\n"@,
                "cp \"$new_current/install.json\" \"$HOME/.config/codex-shuttle/install.json\"\n"@,
            )
            &&& precedes(
                script,
                "\nln -sfn \"$new_current\" \"$current\"\n"@,
                "cp \"$new_current/shim.json\" \"$HOME/.config/codex-shuttle/shim.json\"\n"@,
            )
        }),
{
    broadcast use {lemma_occurs_join, lemma_precedes_join};

    lemma_rollback();
}

/// An installation is taken away only where it belongs to the profile: the link
/// is unlinked where it is Shuttle's, the Codex that was there before comes
/// back, and what belongs to the profile goes. The releases go only where that
/// is asked for.
pub proof fn law_what_is_taken_away(profile: Seq<char>, purge: bool)
    ensures
        ({
            let script = uninstall_script(profile, purge);
            &&& occurs(script, "\nexpected="@ + quoted(profile) + "\n"@)
            &&& precedes(
                script,
                "\nowner=$(cat \"$owner_file\")\ntest \"$owner\" = \"$expected\" || { echo \"remote install belongs to profile $owner\" >&2; exit 1; }\n"@,
                "if test -L \"$link\" && test \"$(readlink \"$link\")\" = \"$managed\"; then unlink \"$link\"; fi\n"@,
            )
            &&& precedes(
                script,
                "\nowner=$(cat \"$owner_file\")\ntest \"$owner\" = \"$expected\" || { echo \"remote install belongs to profile $owner\" >&2; exit 1; }\n"@,
                "if test -e \"$original\" || test -L \"$original\"; then mv \"$original\" \"$link\"; fi\n"@,
            )
            &&& precedes(
                script,
                "\nowner=$(cat \"$owner_file\")\ntest \"$owner\" = \"$expected\" || { echo \"remote install belongs to profile $owner\" >&2; exit 1; }\n"@,
                "unlink \"$owner_file\"\n"@,
            )
            &&& precedes(
                script,
                "\nowner=$(cat \"$owner_file\")\ntest \"$owner\" = \"$expected\" || { echo \"remote install belongs to profile $owner\" >&2; exit 1; }\n"@,
                "if test -d \"$profile_dir\"; then find \"$profile_dir\" -depth -delete; fi\n"@,
            )
            &&& precedes(
                script,
                "if test -L \"$link\" && test \"$(readlink \"$link\")\" = \"$managed\"; then unlink \"$link\"; fi\n"@,
                "if test -e \"$original\" || test -L \"$original\"; then mv \"$original\" \"$link\"; fi\n"@,
            )
            &&& purge ==> occurs(script, "\nif test "@ + "1"@ + " = 1; then\n"@)
            &&& !purge ==> occurs(script, "\nif test "@ + "0"@ + " = 1; then\n"@)
            &&& precedes(
                script,
                "\nowner=$(cat \"$owner_file\")\ntest \"$owner\" = \"$expected\" || { echo \"remote install belongs to profile $owner\" >&2; exit 1; }\n"@,
                "\n  if test -d \"$root\"; then find \"$root\" -depth -delete; fi\nfi\n"@,
            )
        }),
{
    broadcast use {lemma_occurs_join, lemma_precedes_join};

    lemma_uninstall_1();
    lemma_uninstall_2();
    lemma_uninstall_3();
    let a = UNINSTALL_1@ + quoted(profile);
    lemma_between(UNINSTALL_1@, quoted(profile), UNINSTALL_2@, "\nexpected="@, "\n"@);
    lemma_suffix_join(a, UNINSTALL_2@, "\nif test "@);
    lemma_between(a + UNINSTALL_2@, (if purge { "1"@ } else { "0"@ }), UNINSTALL_3@, "\nif test "@, " = 1; then\n"@);
}

/// The installer works on what it is told: the profile, its token, the version,
/// the directories, the executor and the shim, and it stages the two records as
/// they are.
pub proof fn law_what_the_installer_works_on(parts: InstallScript)
    ensures
        ({
            let script = install_script(parts);
            &&& occurs(script, "\nprofile="@ + quoted(parts.profile@) + "\n"@)
            &&& occurs(script, "\ntoken="@ + quoted(parts.token@) + "\n"@)
            &&& occurs(script, "\nexpected_version="@ + quoted(parts.executor_version@) + "\n"@)
            &&& occurs(script, "\nroot="@ + quoted(parts.root@) + "\n"@)
            &&& occurs(script, "\nrelease=\"$root/releases/"@ + parts.release_name@ + "\"\n"@)
            &&& occurs(script, "\nstage=\"$root/.stage-"@ + parts.release_name@ + "\"\n"@)
            &&& occurs(script, "\nexecutor_installed="@ + quoted(parts.executor_installed@) + "\n"@)
            &&& occurs(script, "\nshim="@ + quoted(parts.shim@) + "\n"@)
            &&& occurs(script, "\ncat > \"$stage/shim.json\" <<'CXS_CONFIG'\n"@ + parts.config_json@ + "\nCXS_CONFIG\n"@)
            &&& occurs(script, "\ncat > \"$stage/install.json\" <<'CXS_METADATA'\n"@ + parts.metadata_json@ + "\nCXS_METADATA\n"@)
        }),
{
    broadcast use {lemma_occurs_join, lemma_precedes_join};

    lemma_install_1();
    lemma_install_2();
    lemma_install_3();
    lemma_install_4();
    lemma_install_5();
    lemma_install_6();
    lemma_install_7();
    lemma_install_8();
    lemma_install_9();
    lemma_install_10();
    lemma_install_11();
    lemma_install_12();
    let t0 = DIGEST_FUNCTION@;
    let t1 = t0 + INSTALL_1@ + quoted(parts.profile@);
    let t2 = t1 + INSTALL_2@ + quoted(parts.token@);
    let t3 = t2 + INSTALL_3@ + quoted(parts.executor_version@);
    let t4 = t3 + INSTALL_4@ + quoted(parts.root@);
    let t5 = t4 + INSTALL_5@ + parts.release_name@;
    let t6 = t5 + INSTALL_6@ + parts.release_name@;
    let t7 = t6 + INSTALL_7@ + quoted(parts.executor_installed@);
    let t8 = t7 + INSTALL_8@ + quoted(parts.shim@);
    let prepare = prepare_script(
        optional_text(parts.package),
        optional_text(parts.executor_sha256),
        parts.executor_probe@,
    );
    let t9 = t8 + INSTALL_9@ + prepare;
    let t10 = t9 + INSTALL_10@ + parts.config_json@;
    lemma_suffix_join(t0, INSTALL_1@, "\nprofile="@);
    lemma_between(t0 + INSTALL_1@, quoted(parts.profile@), INSTALL_2@, "\nprofile="@, "\n"@);
    lemma_suffix_join(t1, INSTALL_2@, "\ntoken="@);
    lemma_between(t1 + INSTALL_2@, quoted(parts.token@), INSTALL_3@, "\ntoken="@, "\n"@);
    lemma_suffix_join(t2, INSTALL_3@, "\nexpected_version="@);
    lemma_between(t2 + INSTALL_3@, quoted(parts.executor_version@), INSTALL_4@, "\nexpected_version="@, "\n"@);
    lemma_suffix_join(t3, INSTALL_4@, "\nroot="@);
    lemma_between(t3 + INSTALL_4@, quoted(parts.root@), INSTALL_5@, "\nroot="@, "\n"@);
    lemma_suffix_join(t4, INSTALL_5@, "\nrelease=\"$root/releases/"@);
    lemma_between(t4 + INSTALL_5@, parts.release_name@, INSTALL_6@, "\nrelease=\"$root/releases/"@, "\"\n"@);
    lemma_suffix_join(t5, INSTALL_6@, "\nstage=\"$root/.stage-"@);
    lemma_between(t5 + INSTALL_6@, parts.release_name@, INSTALL_7@, "\nstage=\"$root/.stage-"@, "\"\n"@);
    lemma_suffix_join(t6, INSTALL_7@, "\nexecutor_installed="@);
    lemma_between(t6 + INSTALL_7@, quoted(parts.executor_installed@), INSTALL_8@, "\nexecutor_installed="@, "\n"@);
    lemma_suffix_join(t7, INSTALL_8@, "\nshim="@);
    lemma_between(t7 + INSTALL_8@, quoted(parts.shim@), INSTALL_9@, "\nshim="@, "\n"@);
    lemma_suffix_join(t9, INSTALL_10@, "\ncat > \"$stage/shim.json\" <<'CXS_CONFIG'\n"@);
    lemma_between(t9 + INSTALL_10@, parts.config_json@, INSTALL_11@, "\ncat > \"$stage/shim.json\" <<'CXS_CONFIG'\n"@, "\nCXS_CONFIG\n"@);
    lemma_suffix_join(t10, INSTALL_11@, "\ncat > \"$stage/install.json\" <<'CXS_METADATA'\n"@);
    lemma_between(t10 + INSTALL_11@, parts.metadata_json@, INSTALL_12@, "\ncat > \"$stage/install.json\" <<'CXS_METADATA'\n"@, "\nCXS_METADATA\n"@);
}

/// A release takes its place, and becomes the current one, only where the host
/// is not another profile's, and once its executor was found to have the right
/// version and an Exec Server. The release before it stays as the previous one,
/// and a Codex that was there before is kept, before the shim takes its place.
pub proof fn law_releases_are_checked_before_they_are_current(parts: InstallScript)
    ensures
        ({
            let script = install_script(parts);
            &&& precedes(
                script,
                "\n  test \"$owner\" = \"$profile\" || { echo \"remote Shuttle install belongs to profile $owner\" >&2; exit 1; }\n"@,
                "\nif test -e \"$release\"; then find \"$stage\" -depth -delete; else mv \"$stage\" \"$release\"; fi\n"@,
            )
            &&& precedes(
                script,
                "\nactual_version=$(\"$executor_probe\" --version)\ntest \"$actual_version\" = \"$expected_version\" || { echo \"Codex package version mismatch: $actual_version\" >&2; exit 1; }\n"@,
                "\nif test -e \"$release\"; then find \"$stage\" -depth -delete; else mv \"$stage\" \"$release\"; fi\n"@,
            )
            &&& precedes(
                script,
                "\"$executor_probe\" exec-server --help >/dev/null 2>&1 || { echo \"Codex executor has no exec-server command\" >&2; exit 1; }\n"@,
                "\nif test -e \"$release\"; then find \"$stage\" -depth -delete; else mv \"$stage\" \"$release\"; fi\n"@,
            )
            &&& precedes(
                script,
                "\nif test -e \"$release\"; then find \"$stage\" -depth -delete; else mv \"$stage\" \"$release\"; fi\n"@,
                "ln -sfn \"$release\" \"$root/current\"\n"@,
            )
            &&& precedes(
                script,
                "\n    ln -sfn \"$old\" \"$root/previous\"\n"@,
                "ln -sfn \"$release\" \"$root/current\"\n"@,
            )
            &&& precedes(
                script,
                "\n    test ! -e \"$root/original-codex\" && test ! -L \"$root/original-codex\" || { echo \"refusing to replace an existing saved codex\" >&2; exit 1; }\n    mv \"$link\" \"$root/original-codex\"\n"@,
                "ln -sfn \"$root/current/cxs-shim\" \"$HOME/.local/bin/codex\"\n"@,
            )
            &&& precedes(
                script,
                "ln -sfn \"$release\" \"$root/current\"\n"@,
                "ln -sfn \"$root/current/cxs-shim\" \"$HOME/.local/bin/codex\"\n"@,
            )
            &&& occurs(script, "\nprintf '%s\\n' \"$token\" > \"$root/profiles/$profile/token\"\nchmod 0600 \"$root/profiles/$profile/token\"\n"@)
            &&& occurs(script, "\nprintf '%s\\n' \"$profile\" > \"$owner_file\"\n"@)
            &&& occurs(script, "\ncp \"$release/shim.json\" \"$config_dir/shim.json\"\ncp \"$release/install.json\" \"$config_dir/install.json\"\n"@)
            &&& occurs(script, "\nprintf '%s\\n' \"$executor_installed\" > \"$stage/executor.path\"\n"@)
            &&& occurs(script, "\ntest -x \"$executor_installed\" || { echo \"configured Codex executor is not executable after activation\" >&2; exit 1; }\n"@)
        }),
{
    broadcast use {lemma_occurs_join, lemma_precedes_join};

    lemma_install_9();
    lemma_install_10();
    lemma_install_12();
}

/// A package is unpacked in the stage, has to hold all that Codex needs, and
/// its executor has to have the digest that is known of it.
pub proof fn law_packages_are_complete(package: Seq<char>, digest: Seq<char>, probe: Seq<char>)
    ensures
        ({
            let script = prepare_script(Some(package), Some(digest), probe);
            &&& occurs(script, "package="@ + quoted(package) + "\n"@)
            &&& occurs(script, "\ntest \"$(digest_of \"$executor_probe\")\" = "@ + quoted(digest) + " || { echo \"Codex package executor checksum mismatch\" >&2; exit 1; }"@)
            &&& occurs(script, "\ntar -xzf \"$package\" -C \"$stage\"\n"@)
            &&& occurs(script, "\n  test -x \"$stage/bin/codex-code-mode-host\" || { echo \"Codex package has no executable bin/codex-code-mode-host\" >&2; exit 1; }\n"@)
            &&& occurs(script, "\n  test -x \"$stage/codex-path/rg\" || { echo \"Codex package has no executable codex-path/rg\" >&2; exit 1; }\n"@)
            &&& occurs(script, "\n    test -x \"$stage/codex-resources/bwrap\" || { echo \"Codex package has no executable codex-resources/bwrap\" >&2; exit 1; }\n"@)
        }),
{
    broadcast use {lemma_occurs_join, lemma_precedes_join};

    lemma_unpack_1();
    lemma_unpack_2();
    lemma_unpacked_1();
    lemma_unpacked_2();
    lemma_between(UNPACK_1@, quoted(package), UNPACK_2@, "package="@, "\n"@);
    lemma_between(UNPACKED_1@, quoted(digest), UNPACKED_2@, "\ntest \"$(digest_of \"$executor_probe\")\" = "@, " || { echo \"Codex package executor checksum mismatch\" >&2; exit 1; }"@);
}

/// The probe's App Server starts in a private directory, listening on the
/// probe's own socket, under a mark by which it is known again; its process is
/// noted, and the command succeeds once the socket is there.
pub proof fn law_how_the_probe_starts_its_server(paths: ProbePaths, profile: Seq<char>)
    ensures
        ({
            let script = bootstrap_command(paths, profile);
            &&& occurs(script, "mkdir -p \"$HOME/.config/codex-shuttle\" \""@ + paths.directory@ + "\"; chmod 700 \""@)
            &&& occurs(script, "CXS_CONTROL_SOCKET=\""@ + paths.socket@ + "\" nohup \"$HOME/.local/bin/codex\" -c features.code_mode_host=true app-server --listen unix:// "@)
            &&& occurs(script, "probe_pid=$!; printf '%s %s\\n' \"$probe_pid\" \"$probe_token\" >\""@ + paths.pid_file@ + "\"; chmod 600 \""@)
            &&& occurs(script, "[ -S \""@ + paths.socket@ + "\" ] && exit 0; "@)
            &&& occurs(script, "probe_token=\"cxs-probe-$$-$(date +%s)\"; CXS_PROBE_TOKEN=\"$probe_token\" "@)
            &&& occurs(script, ">&2; exit 1"@)
        }),
{
    broadcast use {lemma_occurs_join, lemma_precedes_join};

    lemma_bootstrap_1();
    lemma_bootstrap_2();
    lemma_bootstrap_5();
    lemma_bootstrap_6();
    lemma_bootstrap_7();
    lemma_bootstrap_8();
    lemma_bootstrap_9();
    lemma_bootstrap_10();
    lemma_bootstrap_11();
    let t1 = BOOTSTRAP_1@ + paths.directory@;
    let t2 = t1 + BOOTSTRAP_2@ + paths.directory@;
    let t3 = t2 + BOOTSTRAP_3@ + paths.socket@;
    let t4 = t3 + BOOTSTRAP_4@ + paths.pid_file@;
    let t5 = t4 + BOOTSTRAP_5@ + paths.socket@;
    let t6 = t5 + BOOTSTRAP_6@ + profile;
    let t7 = t6 + BOOTSTRAP_7@ + paths.pid_file@;
    let t8 = t7 + BOOTSTRAP_8@ + paths.pid_file@;
    let t9 = t8 + BOOTSTRAP_9@ + paths.socket@;
    let t10 = t9 + BOOTSTRAP_10@ + profile;
    lemma_between(BOOTSTRAP_1@, paths.directory@, BOOTSTRAP_2@, "mkdir -p \"$HOME/.config/codex-shuttle\" \""@, "\"; chmod 700 \""@);
    lemma_suffix_join(t4, BOOTSTRAP_5@, "CXS_CONTROL_SOCKET=\""@);
    lemma_between(t4 + BOOTSTRAP_5@, paths.socket@, BOOTSTRAP_6@, "CXS_CONTROL_SOCKET=\""@, "\" nohup \"$HOME/.local/bin/codex\" -c features.code_mode_host=true app-server --listen unix:// "@);
    lemma_suffix_join(t6, BOOTSTRAP_7@, "probe_pid=$!; printf '%s %s\\n' \"$probe_pid\" \"$probe_token\" >\""@);
    lemma_between(t6 + BOOTSTRAP_7@, paths.pid_file@, BOOTSTRAP_8@, "probe_pid=$!; printf '%s %s\\n' \"$probe_pid\" \"$probe_token\" >\""@, "\"; chmod 600 \""@);
    lemma_suffix_join(t8, BOOTSTRAP_9@, "[ -S \""@);
    lemma_between(t8 + BOOTSTRAP_9@, paths.socket@, BOOTSTRAP_10@, "[ -S \""@, "\" ] && exit 0; "@);
}

/// The probe's App Server is asked to end, and forced where it does not, only
/// where the process bears the probe's own mark; its socket, its file and its
/// directory go in any case.
pub proof fn law_how_the_probe_stops_its_server(paths: ProbePaths)
    ensures
        ({
            let script = probe_cleanup_command(paths);
            &&& occurs(script, "probe_is_ours() { probe_environment | grep -Fqx \"CXS_PROBE_TOKEN=$probe_token\"; }; "@)
            &&& occurs(script, "if [ -f \""@ + paths.pid_file@ + "\" ]; then read -r probe_pid probe_token <\""@)
            &&& precedes(
                script,
                "if probe_is_ours; then probe_owned=true; fi"@,
                "if [ \"$probe_owned\" = true ]; then kill -TERM \"$probe_pid\" 2>/dev/null || true;"@,
            )
            &&& precedes(
                script,
                "if [ \"$probe_owned\" = true ]; then kill -TERM \"$probe_pid\" 2>/dev/null || true;"@,
                "if kill -0 \"$probe_pid\" 2>/dev/null && probe_is_ours; then kill -KILL \"$probe_pid\" 2>/dev/null || true; fi; fi;"@,
            )
            &&& occurs(script, " rm -f \""@ + paths.socket@ + "\" \""@)
            &&& occurs(script, "\"; rmdir \""@ + paths.directory@ + "\" 2>/dev/null || true"@)
        }),
{
    broadcast use {lemma_occurs_join, lemma_precedes_join};

    lemma_ownership();
    lemma_cleanup_1();
    lemma_cleanup_2();
    lemma_cleanup_3();
    lemma_cleanup_4();
    lemma_cleanup_5();
    lemma_cleanup_6();
    let t0 = OWNERSHIP@;
    let t1 = t0 + CLEANUP_1@ + paths.pid_file@;
    let t2 = t1 + CLEANUP_2@ + paths.pid_file@;
    let t3 = t2 + CLEANUP_3@ + paths.socket@;
    let t4 = t3 + CLEANUP_4@ + paths.pid_file@;
    lemma_suffix_join(t0, CLEANUP_1@, "if [ -f \""@);
    lemma_between(t0 + CLEANUP_1@, paths.pid_file@, CLEANUP_2@, "if [ -f \""@, "\" ]; then read -r probe_pid probe_token <\""@);
    lemma_suffix_join(t2, CLEANUP_3@, " rm -f \""@);
    lemma_between(t2 + CLEANUP_3@, paths.socket@, CLEANUP_4@, " rm -f \""@, "\" \""@);
    lemma_suffix_join(t4, CLEANUP_5@, "\"; rmdir \""@);
    lemma_between(t4 + CLEANUP_5@, paths.directory@, CLEANUP_6@, "\"; rmdir \""@, "\" 2>/dev/null || true"@);
}

/// The host packs its two directories of sessions, as far as they are there,
/// and says so where neither is.
pub proof fn law_which_sessions_are_packed()
    ensures
        ({
            let script = SESSIONS_1@ + "$HOME/.codex"@ + SESSIONS_2@;
            &&& occurs(script, "root="@ + "$HOME/.codex"@ + "; if ! cd \"$root\" 2>/dev/null; then printf CXS0; exit 0; fi;"@)
            &&& precedes(
                script,
                "test ! -d sessions || set -- \"$@\" sessions; "@,
                "if test \"$#\" -eq 0; then printf CXS0; else tar -cf - \"$@\"; fi"@,
            )
            &&& precedes(
                script,
                "test ! -d archived_sessions || set -- \"$@\" archived_sessions; "@,
                "if test \"$#\" -eq 0; then printf CXS0; else tar -cf - \"$@\"; fi"@,
            )
        }),
{
    broadcast use {lemma_occurs_join, lemma_precedes_join};

    lemma_sessions_1();
    lemma_sessions_2();
    lemma_between(SESSIONS_1@, "$HOME/.codex"@, SESSIONS_2@, "root="@, "; if ! cd \"$root\" 2>/dev/null; then printf CXS0; exit 0; fi;"@);
}

/// The host is asked for its home, its kernel and its machine.
pub proof fn law_what_a_host_is_asked()
    ensures
        ({
            let script = FACTS_COMMAND@;
            &&& occurs(script, "printf 'home=%s\\n' \"$HOME\""@)
            &&& occurs(script, "printf 'kernel=%s\\n' \"$(uname -s)\""@)
            &&& occurs(script, "printf 'arch=%s\\n' \"$(uname -m)\""@)
        }),
{
    broadcast use {lemma_occurs_join, lemma_precedes_join};

    lemma_facts_command();
}

/// An installation is looked at by its record, by running it, and by asking the
/// login shell for it.
pub proof fn law_how_an_installation_is_looked_at()
    ensures
        ({
            let script = INSPECT_COMMAND@;
            &&& occurs(script, "cat \"$HOME/.config/codex-shuttle/install.json\""@)
            &&& occurs(script, "\"$HOME/.local/bin/codex\" --version >&2"@)
            &&& occurs(script, "\"${SHELL:-/bin/sh}\" -l -i -c 'command -v codex >/dev/null'"@)
        }),
{
    broadcast use {lemma_occurs_join, lemma_precedes_join};

    lemma_inspect_command();
}

/// A path below the home directory leaves that to the shell and is quoted for
/// the rest; any other path is quoted as a whole.
pub proof fn law_paths_below_home(path: Seq<char>)
    ensures
        !"$HOME/"@.is_prefix_of(path) ==> home_word(path) == quoted(path),
        !"$HOME/"@.is_prefix_of(path) ==> home_word("$HOME/"@ + path) == "\"$HOME\"/"@ + quoted(
            path,
        ),
{
    reveal_strlit("$HOME/");
    let all = "$HOME/"@ + path;
    assert(all.subrange(0, "$HOME/"@.len() as int) =~= "$HOME/"@);
    assert(all.skip("$HOME/"@.len() as int) =~= path);
    assert(strip_prefixes(all, "$HOME/"@) == strip_prefixes(path, "$HOME/"@));
}

/// The executor of an installation is the one that its record names, and in
/// older records the one in its release; its version is that of the runtime
/// where the record names one.
pub proof fn law_which_executor_is_checked(install: RemoteInstall)
    ensures
        install.executor_path matches Some(path) ==> executor_of(install) == path@,
        install.executor_path is None ==> executor_of(install)
            == "$HOME/.local/lib/codex-shuttle/releases/"@ + install.release@ + "/bin/codex"@,
        install.runtime_version matches Some(version) ==> executor_version_of(install) == version@,
        install.runtime_version is None ==> executor_version_of(install) == install.codex_version@,
{
}

/// Each temporary file is removed, by its own command, and one that is not
/// there does no harm.
pub proof fn law_temporary_files_are_removed(paths: Seq<Seq<char>>, path: Seq<char>)
    ensures
        cleanup_command(Seq::empty()) == "set -eu;"@,
        cleanup_command(paths.push(path)) == cleanup_command(paths) + " unlink "@ + quoted(path)
            + " 2>/dev/null || true;"@,
{
    assert(paths.push(path).drop_last() =~= paths);
}

/// The probe speaks to its App Server through the shim, over the probe's own
/// socket; the agent starts in the place of one that runs.
pub proof fn law_commands_of_the_shim(paths: ProbePaths)
    ensures
        proxy_command(paths) == "CXS_CONTROL_SOCKET=\""@ + paths.socket@
            + "\" \"$HOME/.local/bin/codex\" app-server proxy"@,
        AGENT_COMMAND@
            == "$HOME/.local/lib/codex-shuttle/current/cxs-shim __cxs-agent --replace"@,
{
}

/// A command runs on a host without a terminal and without questions, and
/// where it may hang, the connection has ten seconds.
pub proof fn law_how_commands_run(host: Seq<char>, command: Seq<char>)
    ensures
        ssh_command(host, command, false) == seq!["-T"@, "-o"@, "BatchMode=yes"@, host, command],
        ssh_command(host, command, true) == seq![
            "-T"@,
            "-o"@,
            "BatchMode=yes"@,
            "-o"@,
            "ConnectTimeout=10"@,
            host,
            command,
        ],
{
    assert(ssh_command(host, command, false) =~= seq![
        "-T"@,
        "-o"@,
        "BatchMode=yes"@,
        host,
        command,
    ]);
    assert(ssh_command(host, command, true) =~= seq![
        "-T"@,
        "-o"@,
        "BatchMode=yes"@,
        "-o"@,
        "ConnectTimeout=10"@,
        host,
        command,
    ]);
}

} // verus!
