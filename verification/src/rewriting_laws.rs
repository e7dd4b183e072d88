//! What the messages say that the bridge rewrites, merges and makes, field by
//! field.

use vstd::prelude::*;
use crate::bridge::{
    environment_add, environment_entry, environment_status, host_message_visible,
    initialize_id_after, internal_id, merged_initialize, merged_thread, method_of, object_field,
    project_fields, request, rewritten, status_reply, thread_fields,
};
use crate::bridge_laws::{law_rewriting_keeps_other_fields, lemma_with_fields_of};
use crate::json::{JsonView, NumberView, field, lookup, nested, text_of};
use crate::routing::{host_notification_methods, required_initialize_fields};
use crate::text::{decimal, strip_end};

verus! {

/// The method names differ, and so do the fields that the bridge looks at.
proof fn lemma_names()
    ensures
        "initialize"@ != "thread/start"@,
        "initialize"@ != "turn/start"@,
        "thread/start"@ != "turn/start"@,
        "params"@ != "method"@,
        "params"@ != "id"@,
        "method"@ != "id"@,
        "cwd"@ != "environments"@,
        "cwd"@ != "environmentId"@,
        "cwd"@ != "runtimeWorkspaceRoots"@,
        "environmentId"@ != "runtimeWorkspaceRoots"@,
        "capabilities"@ != "experimentalApi"@,
{
    reveal_strlit("initialize");
    reveal_strlit("thread/start");
    reveal_strlit("turn/start");
    reveal_strlit("params");
    reveal_strlit("method");
    reveal_strlit("id");
    reveal_strlit("cwd");
    reveal_strlit("environments");
    reveal_strlit("environmentId");
    reveal_strlit("runtimeWorkspaceRoots");
    reveal_strlit("capabilities");
    reveal_strlit("experimentalApi");
    assert("initialize"@[0] == 'i' && "thread/start"@[0] == 't' && "turn/start"@[0] == 't');
    assert("thread/start"@[1] == 'h' && "turn/start"@[1] == 'u');
    assert("params"@[0] == 'p' && "method"@[0] == 'm' && "id"@[0] == 'i');
    assert("cwd"@[0] == 'c' && "environments"@[0] == 'e' && "environmentId"@[0] == 'e');
    assert("runtimeWorkspaceRoots"@[0] == 'r');
    assert("capabilities"@[0] == 'c' && "experimentalApi"@[0] == 'e');
}

/// A turn that names a directory runs there, in the remote environment: it
/// goes out with exactly one environment, which is the profile's, in that
/// directory, with that directory as its only root. All else that the client
/// said of the turn stays as it said it.
pub proof fn law_turns_run_where_they_say(message: JsonView, environment: Seq<char>, cwd: Seq<char>)
    requires
        text_of(field(message, "method"@)) == Some("turn/start"@),
        text_of(nested(message, "params"@, "cwd"@)) == Some(cwd),
    ensures
        rewritten(message, environment) matches Ok(value) && {
            &&& nested(value, "params"@, "environments"@) matches Some(JsonView::Array(items))
                && items.len() == 1 && (items[0] matches JsonView::Object(entry) && {
                &&& lookup(entry, "environmentId"@) == Some(JsonView::Text(environment))
                &&& lookup(entry, "cwd"@) == Some(JsonView::Text(cwd))
                &&& lookup(entry, "runtimeWorkspaceRoots"@) == Some(
                    JsonView::Array(seq![JsonView::Text(cwd)]),
                )
                &&& forall|name: Seq<char>| #[trigger]
                    entry.contains_key(name) ==> name == "environmentId"@ || name == "cwd"@ || name
                        == "runtimeWorkspaceRoots"@
            })
            &&& forall|name: Seq<char>|
                name != "environments"@ ==> #[trigger] nested(value, "params"@, name) == nested(
                    message,
                    "params"@,
                    name,
                )
            &&& forall|name: Seq<char>|
                name != "params"@ ==> #[trigger] field(value, name) == field(message, name)
        },
{
    lemma_names();
    law_rewriting_keeps_other_fields(message, environment);
}

/// A turn that names no directory names no environment either, so that it
/// runs where its thread does. All else stays as the client said it.
pub proof fn law_turns_stay_with_their_thread(message: JsonView, environment: Seq<char>)
    requires
        text_of(field(message, "method"@)) == Some("turn/start"@),
        text_of(nested(message, "params"@, "cwd"@)) is None,
        field(message, "params"@) matches Some(params) ==> params is Object || params is Null,
    ensures
        rewritten(message, environment) matches Ok(value) && {
            &&& nested(value, "params"@, "environments"@) is None
            &&& forall|name: Seq<char>|
                name != "environments"@ ==> #[trigger] nested(value, "params"@, name) == nested(
                    message,
                    "params"@,
                    name,
                )
            &&& forall|name: Seq<char>|
                name != "params"@ ==> #[trigger] field(value, name) == field(message, name)
        },
{
    lemma_names();
    law_rewriting_keeps_other_fields(message, environment);
}

/// A thread starts in the directory that it names, in the remote environment,
/// and in no other; one that names no directory is refused.
pub proof fn law_threads_start_where_they_say(message: JsonView, environment: Seq<char>)
    requires
        text_of(field(message, "method"@)) == Some("thread/start"@),
    ensures
        match text_of(nested(message, "params"@, "cwd"@)) {
            None => rewritten(message, environment) is Err,
            Some(cwd) => rewritten(message, environment) matches Ok(value) && {
                &&& nested(value, "params"@, "environments"@) matches Some(JsonView::Array(items))
                    && items.len() == 1 && (items[0] matches JsonView::Object(entry) && {
                    &&& lookup(entry, "environmentId"@) == Some(JsonView::Text(environment))
                    &&& lookup(entry, "cwd"@) == Some(JsonView::Text(cwd))
                    &&& lookup(entry, "runtimeWorkspaceRoots"@) == Some(
                        JsonView::Array(seq![JsonView::Text(cwd)]),
                    )
                    &&& forall|name: Seq<char>| #[trigger]
                        entry.contains_key(name) ==> name == "environmentId"@ || name == "cwd"@
                            || name == "runtimeWorkspaceRoots"@
                })
                &&& forall|name: Seq<char>|
                    name != "environments"@ ==> #[trigger] nested(value, "params"@, name) == nested(
                        message,
                        "params"@,
                        name,
                    )
                &&& forall|name: Seq<char>|
                    name != "params"@ ==> #[trigger] field(value, name) == field(message, name)
            },
        },
{
    lemma_names();
    law_rewriting_keeps_other_fields(message, environment);
}

/// A client that initializes gets the experimental API switched on, keeps all
/// else that it said, and its id is remembered.
pub proof fn law_initialize_enables_the_experimental_api(
    message: JsonView,
    environment: Seq<char>,
    known: Option<JsonView>,
)
    requires
        text_of(field(message, "method"@)) == Some("initialize"@),
        field(message, "id"@) is Some,
        field(message, "params"@) matches Some(params) ==> params is Object || params is Null,
        nested(message, "params"@, "capabilities"@) matches Some(value) ==> value is Object
            || value is Null,
    ensures
        initialize_id_after(message, known) == field(message, "id"@),
        rewritten(message, environment) matches Ok(value) && {
            &&& nested(value, "params"@, "capabilities"@) matches Some(capabilities) && {
                &&& field(capabilities, "experimentalApi"@) == Some(JsonView::Bool(true))
                &&& forall|name: Seq<char>|
                    name != "experimentalApi"@ ==> #[trigger] field(capabilities, name) == (
                    match nested(message, "params"@, "capabilities"@) {
                        Some(given) => field(given, name),
                        None => None,
                    })
            }
            &&& forall|name: Seq<char>|
                name != "capabilities"@ ==> #[trigger] nested(value, "params"@, name) == nested(
                    message,
                    "params"@,
                    name,
                )
            &&& forall|name: Seq<char>|
                name != "params"@ ==> #[trigger] field(value, name) == field(message, name)
        },
{
    lemma_names();
    law_rewriting_keeps_other_fields(message, environment);
}

/// A client that initializes without an id is refused.
pub proof fn law_initialize_needs_an_id(message: JsonView, environment: Seq<char>)
    requires
        text_of(field(message, "method"@)) == Some("initialize"@),
        field(message, "id"@) is None,
    ensures
        rewritten(message, environment) is Err,
{
    lemma_names();
}

/// Every other message of the client passes as it is, and tells nothing about
/// its id.
pub proof fn law_other_messages_pass(
    message: JsonView,
    environment: Seq<char>,
    known: Option<JsonView>,
)
    requires
        text_of(field(message, "method"@)) != Some("initialize"@),
        text_of(field(message, "method"@)) != Some("thread/start"@),
        text_of(field(message, "method"@)) != Some("turn/start"@),
    ensures
        rewritten(message, environment) == Ok::<JsonView, Seq<char>>(message),
        initialize_id_after(message, known) == known,
{
}

/// Parameters that are no object are refused wherever the bridge has to change
/// them.
pub proof fn law_other_params_are_refused(message: JsonView, environment: Seq<char>)
    requires
        text_of(field(message, "method"@)) == Some("initialize"@) || text_of(
            field(message, "method"@),
        ) == Some("thread/start"@) || text_of(field(message, "method"@)) == Some("turn/start"@),
        field(message, "params"@) matches Some(params) && !(params is Object) && !(params is Null),
    ensures
        rewritten(message, environment) is Err,
{
    lemma_names();
}

// ---------------------------------------------------------------------------
// Replies that are merged
// ---------------------------------------------------------------------------

proof fn lemma_identity_names()
    ensures
        "userAgent"@ != "codexHome"@,
        "userAgent"@ != "platformFamily"@,
        "userAgent"@ != "platformOs"@,
        "codexHome"@ != "platformFamily"@,
        "codexHome"@ != "platformOs"@,
        "platformFamily"@ != "platformOs"@,
{
    reveal_strlit("userAgent");
    reveal_strlit("codexHome");
    reveal_strlit("platformFamily");
    reveal_strlit("platformOs");
    assert("userAgent"@[0] == 'u' && "codexHome"@[0] == 'c');
    assert("platformFamily"@[8] == 'F' && "platformOs"@[8] == 'O');
    assert("platformFamily"@[0] == 'p');
}

/// The client is told which host it works on: user agent and platform are the
/// host's where the host names them, the home of Codex is below the user's home
/// on the host (or, where that is not known, what the host says). All else in
/// the reply is the local App Server's.
pub proof fn law_the_client_learns_about_the_host(
    local: JsonView,
    host: JsonView,
    remote_home: Option<Seq<char>>,
    name: Seq<char>,
)
    requires
        field(host, "error"@) is None,
        field(local, "result"@) matches Some(JsonView::Object(_)),
        field(host, "result"@) matches Some(JsonView::Object(_)),
    ensures
        merged_initialize(local, host, remote_home) matches Ok(merged) && {
            &&& name == "userAgent"@ || name == "platformFamily"@ || name == "platformOs"@
                ==> nested(merged, "result"@, name) == (if nested(host, "result"@, name) is Some {
                nested(host, "result"@, name)
            } else {
                nested(local, "result"@, name)
            })
            &&& remote_home matches Some(home) ==> (home.len() > 0 && home.last() != '/'
                ==> nested(merged, "result"@, "codexHome"@) == Some(
                JsonView::Text(home + "/.codex"@),
            ))
            &&& remote_home is None && nested(host, "result"@, "codexHome"@) is Some ==> nested(
                merged,
                "result"@,
                "codexHome"@,
            ) == nested(host, "result"@, "codexHome"@)
            &&& name != "userAgent"@ && name != "codexHome"@ && name != "platformFamily"@ && name
                != "platformOs"@ ==> nested(merged, "result"@, name) == nested(
                local,
                "result"@,
                name,
            )
            &&& name != "result"@ ==> field(merged, name) == field(local, name)
        },
{
    lemma_identity_names();
    let local_result = field(local, "result"@)->Some_0->Object_0;
    let host_result = field(host, "result"@)->Some_0->Object_0;
    let names = required_initialize_fields();
    assert(names =~= seq!["userAgent"@, "codexHome"@, "platformFamily"@, "platformOs"@]);
    assert(names[0] == "userAgent"@ && names[1] == "codexHome"@ && names[2] == "platformFamily"@
        && names[3] == "platformOs"@);
    lemma_with_fields_of(local_result, host_result, names, name);
    lemma_with_fields_of(local_result, host_result, names, "codexHome"@);
}

/// Slashes at the end of the home do not count.
pub proof fn law_the_home_of_codex(local: JsonView, host: JsonView, home: Seq<char>, n: nat)
    requires
        field(host, "error"@) is None,
        field(local, "result"@) matches Some(JsonView::Object(_)),
        field(host, "result"@) matches Some(JsonView::Object(_)),
        home.len() > 0 ==> home.last() != '/',
    ensures
        merged_initialize(local, host, Some(home + Seq::new(n, |i: int| '/')))
            == merged_initialize(local, host, Some(home)),
{
    lemma_slashes(home, n);
    lemma_slashes(home, 0);
    assert(home + Seq::new(0, |i: int| '/') =~= home);
}

proof fn lemma_slashes(home: Seq<char>, n: nat)
    requires
        home.len() > 0 ==> home.last() != '/',
    ensures
        strip_end(home + Seq::new(n, |i: int| '/'), '/') == home,
    decreases n,
{
    let slashes = Seq::new(n, |i: int| '/');
    if n == 0 {
        assert(home + slashes =~= home);
    } else {
        lemma_slashes(home, (n - 1) as nat);
        assert((home + slashes).drop_last() =~= home + Seq::new((n - 1) as nat, |i: int| '/'));
    }
}

/// A reply to initialize without a result, from either side, is an error, and
/// so is an error of the host.
pub proof fn law_failed_initialize_is_reported(
    local: JsonView,
    host: JsonView,
    remote_home: Option<Seq<char>>,
)
    requires
        field(host, "error"@) is Some || !(field(local, "result"@) matches Some(
            JsonView::Object(_),
        )) || !(field(host, "result"@) matches Some(JsonView::Object(_))),
    ensures
        merged_initialize(local, host, remote_home) is Err,
{
}

proof fn lemma_project_names()
    ensures
        "cwd"@ != "thread"@,
        "runtimeWorkspaceRoots"@ != "thread"@,
        "instructionSources"@ != "thread"@,
        "cwd"@ != "gitInfo"@,
{
    reveal_strlit("cwd");
    reveal_strlit("thread");
    reveal_strlit("runtimeWorkspaceRoots");
    reveal_strlit("instructionSources");
    reveal_strlit("gitInfo");
    assert("cwd"@.len() == 3 && "thread"@.len() == 6 && "gitInfo"@.len() == 7);
    assert("runtimeWorkspaceRoots"@.len() == 21 && "instructionSources"@.len() == 18);
}

/// Of a thread that started, the client is told the host's directory, roots,
/// instruction files and repository, where the host knows them; all else, the
/// id of the thread before all, is the local App Server's.
pub proof fn law_the_client_learns_about_the_project(
    local: JsonView,
    host: JsonView,
    name: Seq<char>,
)
    requires
        field(local, "error"@) is None,
        field(host, "error"@) is None,
        field(local, "result"@) matches Some(JsonView::Object(_)),
        field(host, "result"@) matches Some(JsonView::Object(_)),
    ensures
        merged_thread(local, host) matches Ok(merged) && {
            &&& name == "cwd"@ || name == "runtimeWorkspaceRoots"@ || name == "instructionSources"@
                ==> nested(merged, "result"@, name) == (if nested(host, "result"@, name) is Some {
                nested(host, "result"@, name)
            } else {
                nested(local, "result"@, name)
            })
            &&& name != "cwd"@ && name != "runtimeWorkspaceRoots"@ && name != "instructionSources"@
                && name != "thread"@ ==> nested(merged, "result"@, name) == nested(
                local,
                "result"@,
                name,
            )
            &&& nested(local, "result"@, "thread"@) matches Some(JsonView::Object(thread)) ==> (
            nested(merged, "result"@, "thread"@) matches Some(after) && field(after, name) == (
            match nested(host, "result"@, "thread"@) {
                Some(JsonView::Object(known)) => if (name == "cwd"@ || name == "gitInfo"@)
                    && known.contains_key(name) {
                    Some(known[name])
                } else {
                    lookup(thread, name)
                },
                _ => lookup(thread, name),
            }))
            &&& !(nested(local, "result"@, "thread"@) matches Some(JsonView::Object(_))) ==> nested(
                merged,
                "result"@,
                "thread"@,
            ) == nested(local, "result"@, "thread"@)
            &&& name != "result"@ ==> field(merged, name) == field(local, name)
        },
{
    lemma_project_names();
    let local_result = field(local, "result"@)->Some_0->Object_0;
    let host_result = field(host, "result"@)->Some_0->Object_0;
    let names = project_fields();
    assert(names =~= seq!["cwd"@, "runtimeWorkspaceRoots"@, "instructionSources"@]);
    assert(names[0] == "cwd"@ && names[1] == "runtimeWorkspaceRoots"@ && names[2]
        == "instructionSources"@);
    lemma_with_fields_of(local_result, host_result, names, name);
    lemma_with_fields_of(local_result, host_result, names, "thread"@);
    let own = thread_fields();
    assert(own =~= seq!["cwd"@, "gitInfo"@]);
    assert(own[0] == "cwd"@ && own[1] == "gitInfo"@);
    if let (Some(JsonView::Object(known)), Some(JsonView::Object(thread))) = (
        lookup(host_result, "thread"@),
        lookup(local_result, "thread"@),
    ) {
        lemma_with_fields_of(thread, known, own, name);
    }
}

/// Where either side failed to start a thread, the client gets the local reply
/// as it is.
pub proof fn law_failed_threads_are_reported(local: JsonView, host: JsonView)
    requires
        field(local, "error"@) is Some || field(host, "error"@) is Some,
    ensures
        merged_thread(local, host) == Ok::<JsonView, Seq<char>>(local),
{
}

// ---------------------------------------------------------------------------
// Requests of the bridge
// ---------------------------------------------------------------------------

/// The bridge registers the profile's environment, at the local end of its
/// Exec channel, under an id of its own.
pub proof fn law_the_environment_is_registered(environment: Seq<char>, port: u16)
    ensures
        ({
            let message = environment_add(environment, port);
            &&& field(message, "id"@) == Some(
                JsonView::Text("cxs/"@ + environment + "/environment-add"@),
            )
            &&& field(message, "method"@) == Some(JsonView::Text("environment/add"@))
            &&& nested(message, "params"@, "environmentId"@) == Some(JsonView::Text(environment))
            &&& nested(message, "params"@, "execServerUrl"@) == Some(
                JsonView::Text("ws://127.0.0.1:"@ + decimal(port as nat)),
            )
            &&& nested(message, "params"@, "connectTimeoutMs"@) == Some(
                JsonView::Number(NumberView::Integer(10_000)),
            )
        }),
{
    lemma_names();
    reveal_strlit("environmentId");
    reveal_strlit("execServerUrl");
    reveal_strlit("connectTimeoutMs");
    assert("environmentId"@[1] == 'n' && "execServerUrl"@[1] == 'x');
    assert("connectTimeoutMs"@[0] == 'c' && "environmentId"@[0] == 'e' && "execServerUrl"@[0]
        == 'e');
    lemma_internal(environment, "environment-add"@);
    reveal_strlit("/");
    reveal_strlit("environment-add");
    reveal_strlit("/environment-add");
    assert("/"@ + "environment-add"@ =~= "/environment-add"@);
}

proof fn lemma_internal(environment: Seq<char>, purpose: Seq<char>)
    ensures
        internal_id(environment, purpose) == "cxs/"@ + environment + ("/"@ + purpose),
{
    assert(internal_id(environment, purpose) =~= "cxs/"@ + environment + ("/"@ + purpose));
}

/// The bridge asks for the state of the profile's environment, and takes it
/// for ready exactly when the reply says so.
pub proof fn law_the_environment_is_asked_for(
    id: Seq<char>,
    environment: Seq<char>,
    reply: JsonView,
)
    ensures
        ({
            let message = environment_status(id, environment);
            &&& field(message, "id"@) == Some(JsonView::Text(id))
            &&& field(message, "method"@) == Some(JsonView::Text("environment/status"@))
            &&& nested(message, "params"@, "environmentId"@) == Some(JsonView::Text(environment))
        }),
        status_reply(reply) == Ok::<bool, Seq<char>>(true) <==> field(reply, "error"@) is None
            && nested(reply, "result"@, "status"@) == Some(JsonView::Text("ready"@)),
        status_reply(reply) is Err <==> field(reply, "error"@) is Some || text_of(
            nested(reply, "result"@, "status"@),
        ) is None,
{
    lemma_names();
}

/// Every request has the id, the method and the parameters that it is made of.
pub proof fn law_requests_hold_their_parts(
    id: Seq<char>,
    method: Seq<char>,
    params: Map<Seq<char>, JsonView>,
)
    ensures
        field(request(id, method, params), "id"@) == Some(JsonView::Text(id)),
        method_of(request(id, method, params)) == Some(method),
        field(request(id, method, params), "params"@) == Some(JsonView::Object(params)),
{
    lemma_names();
}

/// Of what the host sends, the client sees replies to its own requests and the
/// six notifications that the host owns. A reply to the bridge is none of
/// these.
pub proof fn law_what_the_client_sees_of_the_host(message: JsonView, environment: Seq<char>)
    ensures
        ({
            let notified = match text_of(field(message, "method"@)) {
                Some(method) => method == "command/exec/outputDelta"@ || method == "fs/changed"@
                    || method == "fuzzyFileSearch/sessionCompleted"@ || method
                    == "fuzzyFileSearch/sessionUpdated"@ || method == "process/exited"@ || method
                    == "process/outputDelta"@,
                None => false,
            };
            let replied = match field(message, "id"@) {
                Some(JsonView::Text(id)) => id != "cxs/"@ + environment + "/host-initialize"@ && !((
                "cxs/"@ + environment + "/thread-metadata/"@).is_prefix_of(id)),
                Some(_) => true,
                None => false,
            };
            host_message_visible(message, environment) <==> notified || replied
        }),
{
    lemma_internal(environment, "host-initialize"@);
    lemma_internal(environment, "thread-metadata/"@);
    reveal_strlit("/");
    reveal_strlit("host-initialize");
    reveal_strlit("/host-initialize");
    reveal_strlit("thread-metadata/");
    reveal_strlit("/thread-metadata/");
    assert("/"@ + "host-initialize"@ =~= "/host-initialize"@);
    assert("/"@ + "thread-metadata/"@ =~= "/thread-metadata/"@);
    let methods = host_notification_methods();
    assert(methods =~= seq![
        "command/exec/outputDelta"@,
        "fs/changed"@,
        "fuzzyFileSearch/sessionCompleted"@,
        "fuzzyFileSearch/sessionUpdated"@,
        "process/exited"@,
        "process/outputDelta"@,
    ]);
    assert(methods[0] == "command/exec/outputDelta"@ && methods[1] == "fs/changed"@ && methods[2]
        == "fuzzyFileSearch/sessionCompleted"@ && methods[3] == "fuzzyFileSearch/sessionUpdated"@
        && methods[4] == "process/exited"@ && methods[5] == "process/outputDelta"@);
}

/// What names an environment is a list of one: the environment, the directory,
/// and the directory again as the only root.
pub proof fn law_what_names_an_environment(environment: Seq<char>, cwd: Seq<char>)
    ensures
        environment_entry(environment, cwd) matches JsonView::Array(items) && items.len() == 1 && {
            &&& field(items[0], "environmentId"@) == Some(JsonView::Text(environment))
            &&& field(items[0], "cwd"@) == Some(JsonView::Text(cwd))
            &&& field(items[0], "runtimeWorkspaceRoots"@) == Some(
                JsonView::Array(seq![JsonView::Text(cwd)]),
            )
        },
{
    lemma_names();
}

/// The object under a name, where there is one; nothing counts as an empty
/// object, and so does null.
pub proof fn law_object_fields(object: Map<Seq<char>, JsonView>, name: Seq<char>)
    ensures
        !object.contains_key(name) ==> object_field(object, name) == Ok::<
            Map<Seq<char>, JsonView>,
            Seq<char>,
        >(Map::empty()),
        object.contains_key(name) && object[name] is Object ==> object_field(object, name) == Ok::<
            Map<Seq<char>, JsonView>,
            Seq<char>,
        >(object[name]->Object_0),
        object.contains_key(name) && object[name] is Null ==> object_field(object, name) == Ok::<
            Map<Seq<char>, JsonView>,
            Seq<char>,
        >(Map::empty()),
        object.contains_key(name) && !(object[name] is Object) && !(object[name] is Null)
            ==> object_field(object, name) is Err,
{
}

} // verus!
