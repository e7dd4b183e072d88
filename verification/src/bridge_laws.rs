//! What the bridge leaves alone in the messages that it changes.

use vstd::prelude::*;
use crate::bridge::{
    environment_entry, merged_initialize_result, merged_thread_result, method_of, object_field,
    project_fields, rewritten, thread_fields, with_fields_of,
};
use crate::json::{JsonView, field, lookup, nested, text_of};
use crate::routing::required_initialize_fields;
use crate::text::strip_end;

verus! {

/// Rewriting a message of the client touches nothing but its params.
pub proof fn law_rewriting_keeps_other_fields(message: JsonView, environment: Seq<char>)
    ensures
        rewritten(message, environment) matches Ok(value) ==> forall|name: Seq<char>|
            name != "params"@ ==> #[trigger] field(value, name) == field(message, name),
        rewritten(message, environment) matches Ok(value) ==> method_of(value) == method_of(
            message,
        ),
{
    reveal_strlit("method");
    reveal_strlit("params");
    assert("method"@[0] != "params"@[0]);
}

/// A thread that starts runs in the profile's environment, in the directory
/// that the client named.
pub proof fn law_threads_run_remotely(message: JsonView, environment: Seq<char>)
    requires
        method_of(message) == Some("thread/start"@),
        rewritten(message, environment) is Ok,
    ensures
        ({
            let value = rewritten(message, environment)->Ok_0;
            &&& text_of(nested(message, "params"@, "cwd"@)) is Some
            &&& nested(value, "params"@, "environments"@) == Some(
                environment_entry(
                    environment,
                    text_of(nested(message, "params"@, "cwd"@))->Some_0,
                ),
            )
        }),
{
    reveal_strlit("thread/start");
    reveal_strlit("initialize");
    assert("thread/start"@[0] != "initialize"@[0]);
}

/// Rewriting a message that is already rewritten changes nothing.
pub proof fn law_rewriting_is_stable(message: JsonView, environment: Seq<char>)
    requires
        rewritten(message, environment) is Ok,
    ensures
        rewritten(rewritten(message, environment)->Ok_0, environment) == rewritten(
            message,
            environment,
        ),
{
    let value = rewritten(message, environment)->Ok_0;
    law_rewriting_keeps_other_fields(message, environment);
    reveal_strlit("params");
    reveal_strlit("id");
    reveal_strlit("cwd");
    reveal_strlit("environments");
    reveal_strlit("initialize");
    reveal_strlit("thread/start");
    reveal_strlit("turn/start");
    assert("id"@.len() != "params"@.len());
    assert("cwd"@.len() != "environments"@.len());
    if let (JsonView::Object(object), Some(method)) = (message, method_of(message)) {
        if method == "initialize"@ || method == "thread/start"@ || method == "turn/start"@ {
            let params = object_field(object, "params"@)->Ok_0;
            let inner = field(value, "params"@)->Some_0;
            let after = value->Object_0;
            assert(after.insert("params"@, inner) =~= after);
            let changed = inner->Object_0;
            if method == "initialize"@ {
                assert(field(value, "id"@) == field(message, "id"@));
                let capabilities = changed["capabilities"@]->Object_0;
                assert(capabilities.insert("experimentalApi"@, JsonView::Bool(true))
                    =~= capabilities);
                assert(changed.insert("capabilities"@, changed["capabilities"@]) =~= changed);
            } else {
                assert(lookup(changed, "cwd"@) == lookup(params, "cwd"@));
                match text_of(lookup(params, "cwd"@)) {
                    Some(cwd) => assert(changed.insert(
                        "environments"@,
                        environment_entry(environment, cwd),
                    ) =~= changed),
                    None => assert(changed.remove("environments"@) =~= changed),
                }
            }
        }
    }
}

/// Copying fields takes over the fields named and leaves the others alone.
pub proof fn lemma_with_fields_of(
    target: Map<Seq<char>, JsonView>,
    source: Map<Seq<char>, JsonView>,
    names: Seq<Seq<char>>,
    name: Seq<char>,
)
    ensures
        lookup(with_fields_of(target, source, names), name) == if names.contains(name)
            && source.contains_key(name) {
            lookup(source, name)
        } else {
            lookup(target, name)
        },
    decreases names.len(),
{
    if names.len() > 0 {
        lemma_with_fields_of(target, source, names.drop_last(), name);
        if names.contains(name) && names.last() != name {
            let i = choose|i: int| 0 <= i < names.len() && names[i] == name;
            assert(names.drop_last()[i] == name);
        }
        if names.drop_last().contains(name) {
            let i = choose|i: int| 0 <= i < names.drop_last().len() && names.drop_last()[i] == name;
            assert(names[i] == name);
        }
        if names.last() == name {
            assert(names[names.len() - 1] == name);
        }
    }
}

/// Of a thread that starts, the host says where it runs and what its
/// repository is. Its id, and all else that the local App Server says of it,
/// stays as it is.
pub proof fn law_merging_keeps_the_local_thread(
    local: Map<Seq<char>, JsonView>,
    host: Map<Seq<char>, JsonView>,
    name: Seq<char>,
)
    ensures
        !project_fields().contains(name) && name != "thread"@ ==> lookup(
            merged_thread_result(local, host),
            name,
        ) == lookup(local, name),
        !thread_fields().contains(name) ==> (match lookup(local, "thread"@) {
            Some(thread) => lookup(merged_thread_result(local, host), "thread"@) matches Some(merged)
                && field(merged, name) == field(thread, name),
            None => lookup(merged_thread_result(local, host), "thread"@) is None,
        }),
        !thread_fields().contains("id"@),
{
    reveal_strlit("cwd");
    reveal_strlit("runtimeWorkspaceRoots");
    reveal_strlit("instructionSources");
    reveal_strlit("gitInfo");
    reveal_strlit("thread");
    reveal_strlit("id");
    assert("cwd"@.len() == 3 && "runtimeWorkspaceRoots"@.len() == 21);
    assert("instructionSources"@.len() == 18 && "gitInfo"@.len() == 7);
    assert("thread"@.len() == 6 && "id"@.len() == 2);
    lemma_with_fields_of(local, host, project_fields(), name);
    lemma_with_fields_of(local, host, project_fields(), "thread"@);
    assert(!project_fields().contains("thread"@));
    if let (Some(JsonView::Object(host_thread)), Some(JsonView::Object(local_thread))) = (
        lookup(host, "thread"@),
        lookup(local, "thread"@),
    ) {
        lemma_with_fields_of(local_thread, host_thread, thread_fields(), name);
    }
}

/// The reply to initialize differs from the local one in the identity of the
/// host alone.
pub proof fn law_merging_keeps_the_local_reply(
    local: Map<Seq<char>, JsonView>,
    host: Map<Seq<char>, JsonView>,
    remote_home: Option<Seq<char>>,
    name: Seq<char>,
)
    ensures
        !required_initialize_fields().contains(name) ==> lookup(
            merged_initialize_result(local, host, remote_home),
            name,
        ) == lookup(local, name),
        required_initialize_fields().contains(name) && host.contains_key(name) && (remote_home
            is None || name != "codexHome"@) ==> lookup(
            merged_initialize_result(local, host, remote_home),
            name,
        ) == lookup(host, name),
        remote_home matches Some(home) ==> lookup(
            merged_initialize_result(local, host, remote_home),
            "codexHome"@,
        ) == Some(JsonView::Text(strip_end(home, '/') + "/.codex"@)),
{
    lemma_with_fields_of(local, host, required_initialize_fields(), name);
    assert(required_initialize_fields()[1] == "codexHome"@);
}

} // verus!
