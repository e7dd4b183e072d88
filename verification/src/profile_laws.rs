//! What profiles are named, where they keep what is theirs, and what a new one
//! looks like.

use vstd::prelude::*;
use vstd::utf8::*;
use crate::digest::is_digest;
use crate::profile::{
    AGENT_MAGIC, AGENT_PROTOCOL_VERSION, AppPaths, NameError, PROFILE_SCHEMA_VERSION, ProfileStatus,
    SHIM_MAGIC, SHIM_PROTOCOL_VERSION, create_refusal, host_refusal, joined, name_error, prepared,
    profile_directory, socket_refusal, token_in,
};
use crate::shell::{escaped, quoted};
use crate::text::is_white;
use crate::text_laws::{law_trimming, law_white_space};

verus! {

/// A name has 1 to 48 bytes and starts with a letter or a digit; letters,
/// digits, dots, underscores and hyphens follow.
pub proof fn law_what_a_name_is(name: Seq<char>)
    ensures
        name_error(name) is None <==> {
            &&& 0 < name.len()
            &&& encode_utf8(name).len() < 49
            &&& 'a' <= name[0] <= 'z' || 'A' <= name[0] <= 'Z' || '0' <= name[0] <= '9'
            &&& forall|i: int|
                0 < i < name.len() ==> {
                    let c = #[trigger] name[i];
                    'a' <= c <= 'z' || 'A' <= c <= 'Z' || '0' <= c <= '9' || c == '.' || c == '_'
                        || c == '-'
                }
        },
        name.len() == 0 || encode_utf8(name).len() >= 49 ==> name_error(name) == Some(
            NameError::InvalidLength,
        ),
{
    if name_error(name) is None {
        assert forall|i: int| 0 < i < name.len() implies {
            let c = #[trigger] name[i];
            'a' <= c <= 'z' || 'A' <= c <= 'Z' || '0' <= c <= '9' || c == '.' || c == '_' || c
                == '-'
        } by {}
    }
}

/// A host has 1 to 255 bytes, does not look like an option, and is one word.
pub proof fn law_what_a_host_is(host: Seq<char>)
    ensures
        host_refusal(host) is None <==> {
            &&& 0 < host.len()
            &&& encode_utf8(host).len() < 256
            &&& host[0] != '-'
            &&& forall|i: int|
                0 <= i < host.len() ==> {
                    let c = #[trigger] host[i];
                    c != ' ' && c != '\t' && c != '\n' && c != '\r' && c != '\u{c}' && c != '\0'
                }
        },
{
    if host_refusal(host) is None {
        assert forall|i: int| 0 <= i < host.len() implies {
            let c = #[trigger] host[i];
            c != ' ' && c != '\t' && c != '\n' && c != '\r' && c != '\u{c}' && c != '\0'
        } by {
            law_white_space(host[i]);
        }
    }
}

/// A path below a directory is the directory, one slash, and the path.
pub proof fn law_joining(base: Seq<char>, part: Seq<char>)
    ensures
        base.len() > 0 && base.last() != '/' && (part.len() > 0 ==> part[0] != '/') ==> joined(
            base,
            part,
        ) == base + "/"@ + part,
        base.len() > 0 && base.last() == '/' && (part.len() > 0 ==> part[0] != '/') ==> joined(
            base,
            part,
        ) == base + part,
        part.len() > 0 && part[0] == '/' ==> joined(base, part) == part,
        base.len() == 0 ==> joined(base, part) == part,
{
    assert(base.len() == 0 ==> base + part =~= part);
}

/// Each profile keeps what is its own in a directory of its own.
pub proof fn law_profiles_have_directories(root: Seq<char>, name: Seq<char>)
    requires
        root.len() > 0,
        root.last() != '/',
        name_error(name) is None,
    ensures
        profile_directory(root, name) == root + "/profiles/"@ + name,
{
    reveal_strlit("profiles");
    reveal_strlit("/");
    reveal_strlit("/profiles/");
    let below = root + "/"@ + "profiles"@;
    assert("profiles"@[0] == 'p');
    assert(below.last() == 's');
    assert(name[0] != '/');
    assert(below + "/"@ + name =~= root + "/profiles/"@ + name);
}

/// The path of a socket has at most 100 bytes.
pub proof fn law_how_long_a_socket_path_is(path: Seq<char>)
    ensures
        socket_refusal(path) is None <==> encode_utf8(path).len() < 101,
{
}

/// A token is a digest, whatever spaces stand round it in its file.
pub proof fn law_tokens_are_read(before: Seq<char>, token: Seq<char>, after: Seq<char>)
    requires
        is_digest(token),
        forall|i: int| 0 <= i < before.len() ==> is_white(#[trigger] before[i]),
        forall|i: int| 0 <= i < after.len() ==> is_white(#[trigger] after[i]),
    ensures
        token_in(before + token + after) == Ok::<Seq<char>, Seq<char>>(token),
        forall|contents: Seq<char>| #[trigger]
            token_in(contents) matches Ok(found) ==> is_digest(found),
{
    law_white_space(token[0]);
    law_white_space(token[63]);
    assert(token.last() == token[63]);
    law_trimming(before, token, after);
}

/// A new profile is of this layout, has nothing installed, and is known under
/// one name on either side; its sockets and its token are its own.
pub proof fn law_what_a_new_profile_is(
    paths: AppPaths,
    name: Seq<char>,
    source_host: Seq<char>,
    codex_version: Seq<char>,
    remote_id: Seq<char>,
    local_exec_port: u16,
    remote_exec_port: u16,
)
    requires
        paths.state_root@.len() > 0,
        paths.state_root@.last() != '/',
        name_error(name) is None,
    ensures
        ({
            let new = prepared(
                paths,
                name,
                source_host,
                codex_version,
                remote_id,
                local_exec_port,
                remote_exec_port,
            );
            let directory = paths.state_root@ + "/profiles/"@ + name;
            &&& new.schema_version == 1
            &&& new.name == name
            &&& new.source_host == source_host
            &&& new.app_alias == "cxs-"@ + name
            &&& new.environment_id == "cxs-"@ + name
            &&& new.status == ProfileStatus::Prepared
            &&& new.codex_version == codex_version
            &&& new.local_socket == directory + "/bridge.sock"@
            &&& new.token_file == directory + "/bridge.token"@
            &&& new.remote_socket == "/tmp/cxs-"@ + remote_id + ".sock"@
            &&& new.local_exec_port == local_exec_port
            &&& new.remote_exec_port == remote_exec_port
            &&& new.codex_home == paths.default_codex_home@
            &&& new.installed_target is None
            &&& new.remote_home is None
            &&& new.remote_release is None
            &&& new.package_sha256 is None
            &&& new.shim_sha256 is None
            &&& new.executor_source is None
            &&& new.executor_path is None
        }),
{
    law_profiles_have_directories(paths.state_root@, name);
    let directory = paths.state_root@ + "/profiles/"@ + name;
    assert(directory.last() == name.last());
    lemma_name_ends(name);
    reveal_strlit("bridge.sock");
    reveal_strlit("bridge.token");
    reveal_strlit("/bridge.sock");
    reveal_strlit("/bridge.token");
    reveal_strlit("/");
    assert("bridge.sock"@[0] == 'b' && "bridge.token"@[0] == 'b');
    assert(directory + "/"@ + "bridge.sock"@ =~= directory + "/bridge.sock"@);
    assert(directory + "/"@ + "bridge.token"@ =~= directory + "/bridge.token"@);
}

proof fn lemma_name_ends(name: Seq<char>)
    requires
        name_error(name) is None,
    ensures
        name.last() != '/',
{
    if name.len() > 1 {
        assert(name[name.len() - 1] != '/');
    }
}

/// A profile is created where its name and its host will do, there is none of
/// that name, and the path of its socket is short enough.
pub proof fn law_when_a_profile_is_created(
    paths: AppPaths,
    name: Seq<char>,
    source_host: Seq<char>,
    exists: bool,
)
    requires
        paths.state_root@.len() > 0,
        paths.state_root@.last() != '/',
    ensures
        create_refusal(paths, name, source_host, exists) is None <==> {
            &&& name_error(name) is None
            &&& host_refusal(source_host) is None
            &&& !exists
            &&& encode_utf8(
                paths.state_root@ + "/profiles/"@ + name + "/bridge.sock"@,
            ).len() < 101
        },
{
    if name_error(name) is None {
        law_what_a_new_profile_is(
            paths,
            name,
            source_host,
            Seq::empty(),
            Seq::empty(),
            0,
            0,
        );
    }
}

/// The names and numbers by which the two ends know each other.
pub proof fn law_protocols()
    ensures
        SHIM_MAGIC@ == "CXS1"@,
        SHIM_PROTOCOL_VERSION == 1,
        AGENT_MAGIC@ == "CXS-AGENT1"@,
        AGENT_PROTOCOL_VERSION == 1,
        PROFILE_SCHEMA_VERSION == 1,
        ProfileStatus::Prepared.name() == "prepared"@,
        ProfileStatus::Installed.name() == "installed"@,
        ProfileStatus::Ready.name() == "ready"@,
        ProfileStatus::Broken.name() == "broken"@,
{
}

/// A word for the shell stands between single quotes; a single quote in it is
/// written outside them.
pub proof fn law_how_a_word_is_quoted(a: Seq<char>, b: Seq<char>)
    ensures
        quoted(a) == seq!['\''] + escaped(a) + seq!['\''],
        escaped(a + b) == escaped(a) + escaped(b),
        escaped(seq!['\'']) == seq!['\'', '"', '\'', '"', '\''],
        (forall|i: int| 0 <= i < a.len() ==> #[trigger] a[i] != '\'') ==> escaped(a) == a,
    decreases a.len(),
{
    let quote = seq!['\''];
    assert(quote.skip(1) =~= Seq::empty());
    assert(escaped(quote.skip(1)) =~= Seq::empty());
    assert(escaped(quote) =~= seq!['\'', '"', '\'', '"', '\'']);
    if a.len() == 0 {
        assert(a + b =~= b);
        assert(escaped(a) =~= Seq::empty());
        assert(escaped(a) + escaped(b) =~= escaped(b));
        assert(a =~= Seq::empty());
    } else {
        let rest = a.skip(1);
        assert((a + b).skip(1) =~= rest + b);
        assert((a + b)[0] == a[0]);
        law_how_a_word_is_quoted(rest, b);
        assert(escaped(a + b) =~= escaped(a) + escaped(b));
        if forall|i: int| 0 <= i < a.len() ==> #[trigger] a[i] != '\'' {
            assert forall|i: int| 0 <= i < rest.len() implies #[trigger] rest[i] != '\'' by {
                assert(rest[i] == a[i + 1]);
            }
            assert(seq![a[0]] + rest =~= a);
        }
    }
}

} // verus!
