//! What an installation is made of: digests, versions, targets, names and
//! places.

use vstd::prelude::*;
use vstd::utf8::*;
use crate::digest::{hex_char, hex_text, is_digest, manifest_digest, sha256};
use crate::install::{
    ExecutorArtifact, ExecutorSource, InstallOptions, InstallPlan, OPENAI_RELEASES, PackageChoice,
    RemoteInstall, SHUTTLE_RELEASES, asset_url, codex_tag, describes_release, digest_in,
    exec_server_arguments, is_choice, is_remote_path, is_version, linux_target_of,
    packaged_executor, plan_refusal, profile_path, release_name_of, release_version, reusable_in,
    runtime_name_of, script_parts_of, shuttle_root, source_version, target_of, temporary_package,
    temporary_shim,
};
use crate::profile::Profile;
use crate::scripts::InstallScript;
use crate::ssh::RemoteFacts;
use crate::text::{
    is_blank, is_hex_digit, is_white, lemma_run, lines, lower, optional_text, other_than,
    strip_start, words,
};
use crate::text_laws::{
    law_lines, law_splitting, law_stripping, law_trimming, law_white_space, law_words,
};

verus! {

// ---------------------------------------------------------------------------
// Digests
// ---------------------------------------------------------------------------

/// What a hexadecimal digit stands for.
pub open spec fn hex_value(c: char) -> int {
    if '0' <= c <= '9' {
        c as int - 48
    } else {
        c as int - 87
    }
}

/// Two digits for each byte, the high one first, in small letters.
pub proof fn law_bytes_in_hexadecimal(bytes: Seq<u8>, i: int)
    requires
        0 <= i < bytes.len(),
    ensures
        hex_text(bytes).len() == 2 * bytes.len(),
        bytes[i] == 16 * hex_value(hex_text(bytes)[2 * i]) + hex_value(hex_text(bytes)[2 * i + 1]),
        ({
            let c = hex_text(bytes)[2 * i];
            '0' <= c <= '9' || 'a' <= c <= 'f'
        }),
        ({
            let c = hex_text(bytes)[2 * i + 1];
            '0' <= c <= '9' || 'a' <= c <= 'f'
        }),
    decreases bytes.len(),
{
    let before = bytes.drop_last();
    lemma_hex_length(before);
    lemma_hex_length(bytes);
    if i < bytes.len() - 1 {
        law_bytes_in_hexadecimal(before, i);
        assert(hex_text(bytes)[2 * i] == hex_text(before)[2 * i]);
        assert(hex_text(bytes)[2 * i + 1] == hex_text(before)[2 * i + 1]);
        assert(before[i] == bytes[i]);
    } else {
        let b = bytes.last();
        assert(hex_text(bytes)[2 * i] == hex_char(b / 16));
        assert(hex_text(bytes)[2 * i + 1] == hex_char(b % 16));
        lemma_hex_char(b / 16);
        lemma_hex_char(b % 16);
        assert(b == 16 * (b / 16) + b % 16);
    }
}

proof fn lemma_hex_length(bytes: Seq<u8>)
    ensures
        hex_text(bytes).len() == 2 * bytes.len(),
    decreases bytes.len(),
{
    if bytes.len() > 0 {
        lemma_hex_length(bytes.drop_last());
    }
}

proof fn lemma_hex_char(n: u8)
    requires
        n < 16,
    ensures
        hex_value(hex_char(n)) == n,
        '0' <= hex_char(n) <= '9' || 'a' <= hex_char(n) <= 'f',
{
}

/// A digest has 64 hexadecimal digits, in letters of either size.
pub proof fn law_what_a_digest_is(s: Seq<char>)
    ensures
        is_digest(s) <==> s.len() == 64 && forall|i: int|
            0 <= i < s.len() ==> {
                let c = #[trigger] s[i];
                '0' <= c <= '9' || 'a' <= c <= 'f' || 'A' <= c <= 'F'
            },
{
    if is_digest(s) {
        assert forall|i: int| 0 <= i < s.len() implies {
            let c = #[trigger] s[i];
            '0' <= c <= '9' || 'a' <= c <= 'f' || 'A' <= c <= 'F'
        } by {}
    }
}

proof fn lemma_digest_is_word(s: Seq<char>)
    requires
        is_digest(s),
    ensures
        forall|i: int| 0 <= i < s.len() ==> !is_blank(#[trigger] s[i], true),
        forall|i: int| 0 <= i < s.len() ==> !is_white(#[trigger] s[i]),
{
    assert forall|i: int| 0 <= i < s.len() implies !is_blank(#[trigger] s[i], true) && !is_white(
        s[i],
    ) by {
        law_white_space(s[i]);
    }
}

/// A manifest gives a file the digest of the first line that names it, with a
/// star before the name or without, in small letters. Lines that name another
/// file are passed over, and a file that no line names has no digest.
pub proof fn law_digests_are_looked_up(
    digest: Seq<char>,
    name: Seq<char>,
    other: Seq<char>,
    rest: Seq<Seq<char>>,
)
    requires
        is_digest(digest),
        name.len() > 0,
        name[0] != '*',
        forall|i: int| 0 <= i < name.len() ==> !is_blank(#[trigger] name[i], true),
        other != name,
    ensures
        manifest_digest(seq![digest + "  "@ + name] + rest, name) == Ok::<Seq<char>, Seq<char>>(
            lower(digest),
        ),
        manifest_digest(seq![digest + " *"@ + name] + rest, name) == Ok::<Seq<char>, Seq<char>>(
            lower(digest),
        ),
        manifest_digest(seq![digest + "  "@ + name] + rest, other) == manifest_digest(rest, other),
        manifest_digest(Seq::empty(), name) is Err,
{
    reveal_strlit("  ");
    reveal_strlit(" *");
    lemma_digest_is_word(digest);
    let plain = digest + "  "@ + name;
    assert(plain =~= digest + seq![' '] + (seq![' '] + name));
    law_words(digest, seq![' '] + name, ' ', true);
    law_words(name, name, ' ', true);
    assert(words(plain, true) =~= seq![digest, name]);
    lemma_no_star(name);
    let star = seq!['*'] + name;
    let starred = digest + " *"@ + name;
    assert(starred =~= digest + seq![' '] + star);
    assert forall|i: int| 0 <= i < star.len() implies !is_blank(#[trigger] star[i], true) by {
        if i > 0 {
            assert(star[i] == name[i - 1]);
        }
    }
    law_words(digest, star, ' ', true);
    law_words(star, star, ' ', true);
    assert(words(starred, true) =~= seq![digest, star]);
    let one = seq![plain] + rest;
    let two = seq![starred] + rest;
    assert(one[0] == plain && one.skip(1) =~= rest);
    assert(two[0] == starred && two.skip(1) =~= rest);
}

/// Stars before a name do not belong to it.
proof fn lemma_no_star(name: Seq<char>)
    requires
        name.len() > 0,
        name[0] != '*',
    ensures
        strip_start(name, '*') == name,
        strip_start(seq!['*'] + name, '*') == name,
{
    let other = other_than('*');
    lemma_run(name, other, 0);
    assert(name.skip(0) =~= name);
    let star = seq!['*'] + name;
    assert(star[1] == name[0]);
    lemma_run(star, other, 1);
    assert(star.skip(1) =~= name);
}

/// A line that names the file with something else than a digest is an error,
/// not passed over.
pub proof fn law_malformed_digests_are_refused(line: Seq<char>, rest: Seq<Seq<char>>)
    ensures
        ({
            let fields = words(line, true);
            fields.len() >= 2 && !is_digest(fields[0]) ==> manifest_digest(
                seq![line] + rest,
                strip_start(fields[1], '*'),
            ) is Err
        }),
{
    let all = seq![line] + rest;
    assert(all[0] == line);
}

// ---------------------------------------------------------------------------
// Versions and targets
// ---------------------------------------------------------------------------

/// A version has 1 to 80 characters: letters, digits, dots, hyphens and pluses.
pub proof fn law_what_a_version_is(version: Seq<char>)
    ensures
        is_version(version) <==> 0 < version.len() < 81 && forall|i: int|
            0 <= i < version.len() ==> {
                let c = #[trigger] version[i];
                '0' <= c <= '9' || 'a' <= c <= 'z' || 'A' <= c <= 'Z' || c == '.' || c == '-' || c
                    == '+'
            },
{
    if is_version(version) {
        assert forall|i: int| 0 <= i < version.len() implies {
            let c = #[trigger] version[i];
            '0' <= c <= '9' || 'a' <= c <= 'z' || 'A' <= c <= 'Z' || c == '.' || c == '-' || c
                == '+'
        } by {}
    }
}

proof fn lemma_version_is_word(version: Seq<char>)
    requires
        is_version(version),
    ensures
        forall|i: int| 0 <= i < version.len() ==> !is_blank(#[trigger] version[i], true),
{
    assert forall|i: int| 0 <= i < version.len() implies !is_blank(#[trigger] version[i], true) by {
        law_white_space(version[i]);
    }
}

/// The version of Codex is the last word of what it says; what a build adds to
/// it behind a hyphen does not belong to the version of the sources.
pub proof fn law_versions_are_read(
    name: Seq<char>,
    version: Seq<char>,
    source: Seq<char>,
    build: Seq<char>,
)
    requires
        name.len() > 0,
        forall|i: int| 0 <= i < name.len() ==> !is_blank(#[trigger] name[i], true),
        is_version(version),
    ensures
        release_version(name + " "@ + version) == Ok::<Seq<char>, Seq<char>>(version),
        release_version(version) == Ok::<Seq<char>, Seq<char>>(version),
        release_version(Seq::empty()) is Err,
        version == source + "-"@ + build && (forall|i: int|
            0 <= i < source.len() ==> #[trigger] source[i] != '-') ==> source_version(
            name + " "@ + version,
        ) == Ok::<Seq<char>, Seq<char>>(source),
        (forall|i: int| 0 <= i < version.len() ==> #[trigger] version[i] != '-') ==> source_version(
            name + " "@ + version,
        ) == Ok::<Seq<char>, Seq<char>>(version),
{
    reveal_strlit(" ");
    reveal_strlit("-");
    lemma_version_is_word(version);
    let output = name + " "@ + version;
    assert(output =~= name + seq![' '] + version);
    law_words(name, version, ' ', true);
    law_words(version, version, ' ', true);
    assert(words(output, true) =~= seq![name, version]);
    assert(words(output, true).last() == version);
    assert(words(version, true).last() == version);
    if version == source + "-"@ + build && (forall|i: int|
        0 <= i < source.len() ==> #[trigger] source[i] != '-') {
        assert("-"@ =~= seq!['-']);
        law_splitting(source, '-', build, |c: char| c == '-');
    }
    if forall|i: int| 0 <= i < version.len() ==> #[trigger] version[i] != '-' {
        law_splitting(version, '-', build, |c: char| c == '-');
    }
}

/// The hosts that Shuttle runs on, and the builds for them: Linux on two
/// processors, each under two names, and macOS on Apple Silicon.
pub proof fn law_targets(kernel: Seq<char>, arch: Seq<char>)
    ensures
        target_of("Linux"@, "x86_64"@) == Ok::<Seq<char>, Seq<char>>("x86_64-unknown-linux-musl"@),
        target_of("Linux"@, "amd64"@) == Ok::<Seq<char>, Seq<char>>("x86_64-unknown-linux-musl"@),
        target_of("Linux"@, "aarch64"@) == Ok::<Seq<char>, Seq<char>>(
            "aarch64-unknown-linux-musl"@,
        ),
        target_of("Linux"@, "arm64"@) == Ok::<Seq<char>, Seq<char>>("aarch64-unknown-linux-musl"@),
        target_of("Darwin"@, "arm64"@) == Ok::<Seq<char>, Seq<char>>("aarch64-apple-darwin"@),
        target_of("Darwin"@, "aarch64"@) == Ok::<Seq<char>, Seq<char>>("aarch64-apple-darwin"@),
        target_of(kernel, arch) is Ok ==> {
            ||| kernel == "Linux"@ && (arch == "x86_64"@ || arch == "amd64"@ || arch == "aarch64"@
                || arch == "arm64"@)
            ||| kernel == "Darwin"@ && (arch == "arm64"@ || arch == "aarch64"@)
        },
        linux_target_of(kernel, arch) is Ok ==> kernel == "Linux"@ && linux_target_of(kernel, arch)
            == target_of(kernel, arch),
        kernel == "Linux"@ ==> linux_target_of(kernel, arch) == target_of(kernel, arch),
{
    reveal_strlit("Linux");
    reveal_strlit("Darwin");
    reveal_strlit("x86_64");
    reveal_strlit("amd64");
    reveal_strlit("aarch64");
    reveal_strlit("arm64");
    assert("Linux"@.len() == 5 && "Darwin"@.len() == 6);
    assert("x86_64"@.len() == 6 && "amd64"@.len() == 5 && "aarch64"@.len() == 7 && "arm64"@.len()
        == 5 && "amd64"@[1] == 'm' && "arm64"@[1] == 'r');
}

/// An installation is planned where the host is supported, the version can be
/// read, and at most one way to come by an executor is asked for.
pub proof fn law_what_can_be_planned(
    version: Seq<char>,
    facts: RemoteFacts,
    options: InstallOptions,
)
    ensures
        plan_refusal(version, facts, options) is None <==> {
            &&& target_of(facts.kernel@, facts.arch@) is Ok
            &&& source_version(version) is Ok
            &&& !(options.runtime_package is Some && options.remote_codex is Some)
            &&& !(options.runtime_package is Some && options.local_download)
            &&& !(options.remote_codex is Some && options.local_download)
        },
{
}

/// The executor comes from where the options say: a Codex on the host, a
/// package of this machine, a package that this machine fetches, and else one
/// that the host fetches itself.
pub proof fn law_which_executor(choice: PackageChoice, options: InstallOptions)
    requires
        is_choice(choice, options),
    ensures
        choice is Existing <==> options.remote_codex is Some,
        choice is Upload <==> options.remote_codex is None && options.runtime_package is Some,
        choice is LocalDownload <==> options.remote_codex is None && options.runtime_package is None
            && options.local_download,
        choice is RemoteDownload <==> options.remote_codex is None && options.runtime_package
            is None && !options.local_download,
        choice matches PackageChoice::Existing(path) ==> Some(path@) == optional_text(
            options.remote_codex,
        ),
        choice matches PackageChoice::Upload(path) ==> Some(path@) == optional_text(
            options.runtime_package,
        ),
        choice is Upload ==> packaged_executor(choice) == "bin/cxs-runtime"@,
        !(choice is Upload) ==> packaged_executor(choice) == "bin/codex"@,
{
}

// ---------------------------------------------------------------------------
// Names and places
// ---------------------------------------------------------------------------

/// Where things are fetched from and where they go.
pub proof fn law_names_and_places(text: Seq<char>, profile: Seq<char>, file: Seq<char>)
    ensures
        SHUTTLE_RELEASES@ == "https://github.com/pengzhendong/codex-shuttle/releases/download"@,
        OPENAI_RELEASES@ == "https://github.com/openai/codex/releases/download"@,
        runtime_name_of(text) == "codex-package-"@ + text + ".tar.gz"@,
        codex_tag(text) == "rust-v"@ + text,
        shuttle_root(text) == text + "/.local/lib/codex-shuttle"@,
        temporary_package(profile) == "/tmp/cxs-"@ + profile + "-codex.tar.gz"@,
        temporary_shim(profile) == "/tmp/cxs-"@ + profile + "-shim"@,
        profile_path(text, profile, file) == text + "/profiles/"@ + profile + "/"@ + file,
        exec_server_arguments() == seq![
            "exec-server"@,
            "--disable"@,
            "plugins"@,
            "--disable"@,
            "remote_plugin"@,
            "--disable"@,
            "plugin_sharing"@,
            "--disable"@,
            "apps"@,
        ],
{
}

/// An asset is below the tag of its release, whether or not slashes end the
/// base.
pub proof fn law_where_assets_are(base: Seq<char>, tag: Seq<char>, asset: Seq<char>, n: nat)
    requires
        base.len() > 0,
        base[0] != '/',
        base.last() != '/',
    ensures
        asset_url(base, tag, asset) == base + "/"@ + tag + "/"@ + asset,
        asset_url(base + Seq::new(n, |i: int| '/'), tag, asset) == asset_url(base, tag, asset),
{
    law_stripping(base, '/', n);
    law_stripping(base, '/', 0);
    assert(base + Seq::new(0, |i: int| '/') =~= base);
}

/// A Codex on the host is named by an absolute path on one line.
pub proof fn law_paths_on_the_host(path: Seq<char>)
    ensures
        is_remote_path(path) <==> path.len() > 0 && path[0] == '/' && forall|i: int|
            0 <= i < path.len() ==> {
                let c = #[trigger] path[i];
                c != '\n' && c != '\r' && c != '\0'
            },
{
    if is_remote_path(path) {
        assert forall|i: int| 0 <= i < path.len() implies {
            let c = #[trigger] path[i];
            c != '\n' && c != '\r' && c != '\0'
        } by {
            assert(path.contains(path[i]));
        }
    }
}

/// What a host prints of the Codex that it has is read back: its path, where
/// it is installed, and its digest.
pub proof fn law_reusable_executors_are_read(
    probe: Seq<char>,
    place: Seq<char>,
    digest: Seq<char>,
)
    requires
        forall|i: int| 0 <= i < probe.len() ==> #[trigger] probe[i] != '\n' && probe[i] != '\r',
        forall|i: int| 0 <= i < place.len() ==> #[trigger] place[i] != '\n' && place[i] != '\r',
        forall|i: int| 0 <= i < digest.len() ==> #[trigger] digest[i] != '\n' && digest[i] != '\r',
    ensures
        ({
            let output = encode_utf8(
                probe + seq!['\n'] + (place + seq!['\n'] + (digest + seq!['\n'])),
            );
            if probe.len() > 0 && probe[0] == '/' && place.len() > 0 && place[0] == '/'
                && is_digest(lower(digest)) {
                reusable_in(output) == Ok::<(Seq<char>, Seq<char>, Seq<char>), Seq<char>>(
                    (probe, place, lower(digest)),
                )
            } else {
                reusable_in(output) is Err
            }
        }),
{
    let none = Seq::<char>::empty();
    let three = digest + seq!['\n'];
    let two = place + seq!['\n'] + three;
    let text = probe + seq!['\n'] + two;
    encode_utf8_decode_utf8(text);
    encode_utf8_valid_utf8(text);
    law_lines(digest, none);
    assert(digest + seq!['\n'] + none =~= three);
    law_lines(place, three);
    law_lines(probe, two);
    let all = lines(text);
    assert(lines(none) =~= Seq::empty());
    assert(all =~= seq![probe, place, digest]);
}

/// The digest that a host prints is read back, whatever spaces stand round it.
pub proof fn law_printed_digests_are_read(
    before: Seq<char>,
    digest: Seq<char>,
    after: Seq<char>,
)
    requires
        is_digest(digest),
        forall|i: int| 0 <= i < before.len() ==> is_white(#[trigger] before[i]),
        forall|i: int| 0 <= i < after.len() ==> is_white(#[trigger] after[i]),
    ensures
        digest_in(encode_utf8(before + digest + after)) == Ok::<Seq<char>, Seq<char>>(
            lower(digest),
        ),
{
    let text = before + digest + after;
    encode_utf8_decode_utf8(text);
    encode_utf8_valid_utf8(text);
    lemma_digest_is_word(digest);
    assert(!is_white(digest[63]));
    law_trimming(before, digest, after);
    lemma_small_digest(digest);
}

proof fn lemma_small_digest(digest: Seq<char>)
    requires
        is_digest(digest),
    ensures
        is_digest(lower(digest)),
{
    let small = lower(digest);
    assert forall|i: int| 0 <= i < small.len() implies is_hex_digit(
        #[trigger] small[i],
    ) by {
        assert(is_hex_digit(digest[i]));
    }
}

/// A release has its version, its layout and the beginnings of three digests
/// in its name; releases that differ in any of them have different names.
pub proof fn law_releases_are_told_apart(
    version: Seq<char>,
    executor: Seq<char>,
    shim: Seq<char>,
    config: Seq<char>,
    other_version: Seq<char>,
    other_executor: Seq<char>,
    other_shim: Seq<char>,
    other_config: Seq<char>,
)
    requires
        is_digest(executor),
        is_digest(shim),
        is_digest(config),
        is_digest(other_executor),
        is_digest(other_shim),
        is_digest(other_config),
        release_name_of(version, executor, shim, config) == release_name_of(
            other_version,
            other_executor,
            other_shim,
            other_config,
        ),
    ensures
        version == other_version,
        executor.take(8) == other_executor.take(8),
        shim.take(8) == other_shim.take(8),
        config.take(8) == other_config.take(8),
        ("codex-"@ + version + "-r3-"@).is_prefix_of(
            release_name_of(version, executor, shim, config),
        ),
{
    reveal_strlit("codex-");
    reveal_strlit("-r3-");
    reveal_strlit("-");
    let name = release_name_of(version, executor, shim, config);
    let other = release_name_of(other_version, other_executor, other_shim, other_config);
    let n = version.len() as int;
    assert(name.len() == 6 + n + 4 + 8 + 1 + 8 + 1 + 8);
    assert(other.len() == 6 + other_version.len() + 4 + 8 + 1 + 8 + 1 + 8);
    assert(name.subrange(6, 6 + n) =~= version);
    assert(other.subrange(6, 6 + n) =~= other_version);
    assert(name.subrange(10 + n, 18 + n) =~= executor.take(8));
    assert(other.subrange(10 + n, 18 + n) =~= other_executor.take(8));
    assert(name.subrange(19 + n, 27 + n) =~= shim.take(8));
    assert(other.subrange(19 + n, 27 + n) =~= other_shim.take(8));
    assert(name.subrange(28 + n, 36 + n) =~= config.take(8));
    assert(other.subrange(28 + n, 36 + n) =~= other_config.take(8));
    assert(name.subrange(0, 10 + n) =~= "codex-"@ + version + "-r3-"@);
}

/// The record of a release says what was installed: of a runtime that Shuttle
/// manages, its package and its version too; of a Codex that was there, neither.
pub proof fn law_what_a_record_says(
    install: RemoteInstall,
    profile: Profile,
    plan: InstallPlan,
    artifact: ExecutorArtifact,
    shim_sha256: Seq<char>,
    config_json: Seq<char>,
)
    requires
        describes_release(install, profile, plan, artifact, shim_sha256, config_json),
    ensures
        install.layout_version == 3,
        install.profile@ == profile.name@,
        install.codex_version@ == profile.codex_version@,
        install.target@ == plan.target@,
        install.shim_sha256@ == shim_sha256,
        install.executor_path is Some,
        install.executor_sha256 is Some,
        artifact matches ExecutorArtifact::Managed(transfer) ==> {
            &&& optional_text(install.runtime_version) == Some("codex-cli "@ + plan.version@)
            &&& optional_text(install.package_sha256) == Some(transfer.sha256@)
            &&& install.executor_source == Some(ExecutorSource::ManagedRuntime)
            &&& optional_text(install.executor_path) == Some(
                plan.root@ + "/current/"@ + plan.executor@,
            )
            &&& optional_text(install.executor_sha256) == Some(transfer.executor_sha256@)
            &&& install.release@ == release_name_of(
                plan.version@,
                transfer.sha256@,
                shim_sha256,
                hex_text(sha256(encode_utf8(config_json))),
            )
        },
        artifact matches ExecutorArtifact::Existing(found) ==> {
            &&& install.runtime_version is None
            &&& install.package_sha256 is None
            &&& install.executor_source == Some(ExecutorSource::RemoteExisting)
            &&& optional_text(install.executor_path) == Some(found.installed_path@)
            &&& optional_text(install.executor_sha256) == Some(found.sha256@)
            &&& install.release@ == release_name_of(
                plan.version@,
                found.sha256@,
                shim_sha256,
                hex_text(sha256(encode_utf8(config_json))),
            )
        },
        ExecutorSource::ManagedRuntime.name() == "managed-runtime"@,
        ExecutorSource::RemoteExisting.name() == "remote-existing"@,
{
}

/// The installer is told what was planned and recorded: of a package, where it
/// is and what its executor has to be; of a Codex that was there, where that is.
pub proof fn law_what_the_installer_is_told(
    parts: InstallScript,
    profile: Profile,
    token: Seq<char>,
    plan: InstallPlan,
    artifact: ExecutorArtifact,
    install: RemoteInstall,
    config_json: Seq<char>,
    metadata_json: Seq<char>,
)
    requires
        script_parts_of(
            parts,
            profile,
            token,
            plan,
            artifact,
            install,
            config_json,
            metadata_json,
        ),
    ensures
        parts.profile@ == profile.name@,
        parts.token@ == token,
        parts.root@ == plan.root@,
        parts.release_name@ == install.release@,
        parts.shim@ == plan.remote_shim@,
        parts.config_json@ == config_json,
        parts.metadata_json@ == metadata_json,
        install.runtime_version matches Some(version) ==> parts.executor_version@ == version@,
        install.runtime_version is None ==> parts.executor_version@ == install.codex_version@,
        artifact matches ExecutorArtifact::Managed(transfer) ==> {
            &&& optional_text(parts.package) == Some(plan.remote_package@)
            &&& optional_text(parts.executor_sha256) == Some(transfer.executor_sha256@)
            &&& parts.executor_probe@.len() == 0
            &&& parts.executor_installed@ == plan.root@ + "/current/"@ + plan.executor@
        },
        artifact matches ExecutorArtifact::Existing(found) ==> {
            &&& parts.package is None
            &&& parts.executor_sha256 is None
            &&& parts.executor_probe@ == found.probe_path@
            &&& parts.executor_installed@ == found.installed_path@
        },
{
}

} // verus!
