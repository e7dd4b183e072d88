//! What the bridge changes in the messages that pass through it, and which
//! peers and options it accepts.

use vstd::prelude::*;
use vstd::string::*;
use vstd::utf8::*;
use crate::failure::{Failure, outcome, refuse, refuse_naming, refused};
use crate::json::{
    Json, JsonObject, JsonView, Number, NumberView, array_view, encode_json, field, is_whole,
    json_text, lemma_array_view, lemma_prints_back, lookup, nested, parse_json, parsed_json,
    prints_back, read_depth, text_of,
};
use crate::profile::Profile;
use crate::routing::{
    host_notification_methods, is_host_notification, required_initialize_fields,
    required_initialize_list, slices,
};
use crate::text::{
    decimal, decimal_text, optional_text, same_text, starts_with, strip_end, stripped_end,
};

verus! {

// ---------------------------------------------------------------------------
// Requests of the client
// ---------------------------------------------------------------------------

/// The object that the field `name` holds; an absent or null field counts as
/// an empty object.
pub open spec fn object_field(object: Map<Seq<char>, JsonView>, name: Seq<char>) -> Result<
    Map<Seq<char>, JsonView>,
    Seq<char>,
> {
    match lookup(object, name) {
        None => Ok(Map::empty()),
        Some(JsonView::Null) => Ok(Map::empty()),
        Some(JsonView::Object(inner)) => Ok(inner),
        Some(_) => Err("App Server field '"@ + name + "' was not an object"@),
    }
}

/// The execution environment of one remote directory.
pub open spec fn environment_entry(environment: Seq<char>, cwd: Seq<char>) -> JsonView {
    JsonView::Array(
        seq![
            JsonView::Object(
                Map::empty().insert("environmentId"@, JsonView::Text(environment)).insert(
                    "cwd"@,
                    JsonView::Text(cwd),
                ).insert("runtimeWorkspaceRoots"@, JsonView::Array(seq![JsonView::Text(cwd)])),
            ),
        ],
    )
}

/// `params` of an initialize request, with the experimental API switched on.
pub open spec fn initialize_params(params: Map<Seq<char>, JsonView>) -> Result<
    Map<Seq<char>, JsonView>,
    Seq<char>,
> {
    match object_field(params, "capabilities"@) {
        Err(e) => Err(e),
        Ok(capabilities) => Ok(
            params.insert(
                "capabilities"@,
                JsonView::Object(capabilities.insert("experimentalApi"@, JsonView::Bool(true))),
            ),
        ),
    }
}

/// `params` of a thread/start request, bound to the remote environment.
pub open spec fn thread_params(
    params: Map<Seq<char>, JsonView>,
    environment: Seq<char>,
) -> Result<Map<Seq<char>, JsonView>, Seq<char>> {
    match text_of(lookup(params, "cwd"@)) {
        None => Err("thread/start must contain a remote cwd"@),
        Some(cwd) => Ok(params.insert("environments"@, environment_entry(environment, cwd))),
    }
}

/// `params` of a turn/start request: bound to the remote environment where it
/// names a directory, left to the thread's own environment where it does not.
pub open spec fn turn_params(
    params: Map<Seq<char>, JsonView>,
    environment: Seq<char>,
) -> Map<Seq<char>, JsonView> {
    match text_of(lookup(params, "cwd"@)) {
        None => params.remove("environments"@),
        Some(cwd) => params.insert("environments"@, environment_entry(environment, cwd)),
    }
}

pub open spec fn method_of(message: JsonView) -> Option<Seq<char>> {
    text_of(field(message, "method"@))
}

/// `message` with other `params`.
pub open spec fn with_params(
    object: Map<Seq<char>, JsonView>,
    params: Result<Map<Seq<char>, JsonView>, Seq<char>>,
) -> Result<JsonView, Seq<char>> {
    match params {
        Err(e) => Err(e),
        Ok(params) => Ok(JsonView::Object(object.insert("params"@, JsonView::Object(params)))),
    }
}

/// What the local App Server gets in place of `message`.
pub open spec fn rewritten(message: JsonView, environment: Seq<char>) -> Result<
    JsonView,
    Seq<char>,
> {
    match (message, method_of(message)) {
        (JsonView::Object(object), Some(method)) => if method == "initialize"@ {
            if lookup(object, "id"@) is None {
                Err("initialize request did not contain an id"@)
            } else {
                match object_field(object, "params"@) {
                    Err(e) => Err(e),
                    Ok(params) => with_params(object, initialize_params(params)),
                }
            }
        } else if method == "thread/start"@ {
            match object_field(object, "params"@) {
                Err(e) => Err(e),
                Ok(params) => with_params(object, thread_params(params, environment)),
            }
        } else if method == "turn/start"@ {
            match object_field(object, "params"@) {
                Err(e) => Err(e),
                Ok(params) => with_params(object, Ok(turn_params(params, environment))),
            }
        } else {
            Ok(message)
        },
        _ => Ok(message),
    }
}

/// The id of the initialize request that the client is known to have sent,
/// once it has sent `message`.
pub open spec fn initialize_id_after(message: JsonView, known: Option<JsonView>) -> Option<
    JsonView,
> {
    if method_of(message) == Some("initialize"@) && field(message, "id"@) is Some {
        field(message, "id"@)
    } else {
        known
    }
}

/// An optional value as a mathematical object.
pub open spec fn optional(value: Option<Json>) -> Option<JsonView> {
    match value {
        Some(v) => Some(v@),
        None => None,
    }
}

fn array_of_one(item: Json) -> (r: Json)
    ensures
        r@ == JsonView::Array(seq![item@]),
{
    let mut items: Vec<Json> = Vec::new();
    items.push(item);
    proof {
        lemma_array_view(items@);
        assert(array_view(items@) =~= seq![item@]);
    }
    Json::Array(items)
}

/// Takes the object under `name` out of `object`.
pub fn take_object_field(object: &mut JsonObject, name: &str) -> (r: Result<JsonObject, Failure>)
    ensures
        final(object)@ == old(object)@.remove(name@),
        outcome(r) == object_field(old(object)@, name@),
{
    match object.take(name) {
        None => Ok(JsonObject::new()),
        Some(Json::Null) => Ok(JsonObject::new()),
        Some(Json::Object(inner)) => Ok(inner),
        Some(_) => Err(refuse_naming("App Server field '", name, "' was not an object")),
    }
}

fn set_environment(params: &mut JsonObject, environment: &str, cwd: &str)
    ensures
        final(params)@ == old(params)@.insert("environments"@, environment_entry(environment@, cwd@)),
{
    let mut entry = JsonObject::new();
    entry.insert("environmentId", Json::text(environment));
    entry.insert("cwd", Json::text(cwd));
    entry.insert("runtimeWorkspaceRoots", array_of_one(Json::text(cwd)));
    params.insert("environments", array_of_one(Json::Object(entry)));
}

fn copied_text(object: &JsonObject, name: &str) -> (r: Option<String>)
    ensures
        match r {
            Some(s) => text_of(lookup(object@, name@)) == Some(s@),
            None => text_of(lookup(object@, name@)) is None,
        },
{
    match object.get(name) {
        Some(Json::Text(s)) => Some(s.clone()),
        _ => None,
    }
}

fn rewrite_params(
    method: &str,
    params: &mut JsonObject,
    environment: &str,
) -> (r: Result<(), Failure>)
    requires
        method@ == "initialize"@ || method@ == "thread/start"@ || method@ == "turn/start"@,
    ensures
        ({
            let expected = if method@ == "initialize"@ {
                initialize_params(old(params)@)
            } else if method@ == "thread/start"@ {
                thread_params(old(params)@, environment@)
            } else {
                Ok(turn_params(old(params)@, environment@))
            };
            match r {
                Ok(_) => expected == Ok::<_, Seq<char>>(final(params)@),
                Err(e) => expected == Err::<Map<Seq<char>, JsonView>, _>(e@),
            }
        }),
{
    if same_text(method, "initialize") {
        let ghost before = params@;
        let mut capabilities = match take_object_field(params, "capabilities") {
            Ok(capabilities) => capabilities,
            Err(e) => return Err(e),
        };
        capabilities.insert("experimentalApi", Json::Bool(true));
        let ghost inner = capabilities@;
        params.insert("capabilities", Json::Object(capabilities));
        assert(params@ =~= before.insert("capabilities"@, JsonView::Object(inner)));
        return Ok(());
    }
    let cwd = copied_text(params, "cwd");
    if same_text(method, "thread/start") {
        match cwd {
            None => return Err(refuse("thread/start must contain a remote cwd")),
            Some(cwd) => set_environment(params, environment, &cwd),
        }
    } else {
        match cwd {
            None => {
                let _ = params.take("environments");
            },
            Some(cwd) => set_environment(params, environment, &cwd),
        }
    }
    Ok(())
}

/// Rewrites a message of the client, and notes the id of an initialize
/// request.
pub fn rewrite_client_value(
    message: Json,
    environment: &str,
    initialize_id: &mut Option<Json>,
) -> (r: Result<Json, Failure>)
    ensures
        outcome(r) == rewritten(message@, environment@),
        optional(*final(initialize_id)) == initialize_id_after(
            message@,
            optional(*old(initialize_id)),
        ),
{
    let method: String = match message.get_text("method") {
        Some(method) => method.to_owned(),
        None => return Ok(message),
    };
    let ghost whole = message@;
    if same_text(&method, "initialize") {
        match message.get("id") {
            Some(id) => {
                *initialize_id = Some(id.copy());
            },
            None => return Err(refuse("initialize request did not contain an id")),
        }
    } else if !same_text(&method, "thread/start") && !same_text(&method, "turn/start") {
        return Ok(message);
    }
    match message {
        Json::Object(object) => {
            let mut object = object;
            let ghost before = object@;
            let mut params = match take_object_field(&mut object, "params") {
                Ok(params) => params,
                Err(e) => return Err(e),
            };
            match rewrite_params(&method, &mut params, environment) {
                Ok(_) => {},
                Err(e) => return Err(e),
            }
            let ghost inner = params@;
            object.insert("params", Json::Object(params));
            assert(object@ =~= before.insert("params"@, JsonView::Object(inner)));
            Ok(Json::Object(object))
        },
        other => Ok(other),
    }
}

/// Rewrites one line of the client: see `rewritten` for what becomes of the
/// value that the line holds.
pub fn rewrite_client_message(
    line: &[u8],
    profile: &Profile,
    initialize_id: &mut Option<Json>,
) -> (r: Result<Vec<u8>, Failure>)
    ensures
        match parsed_json(line@) {
            None => refused(r, "client sent invalid App Server JSONL"@) && *final(initialize_id)
                == *old(initialize_id),
            Some(message) => {
                &&& match rewritten(message, profile.environment_id@) {
                    Ok(value) => r matches Ok(bytes) && bytes@ == encode_utf8(json_text(value)) && (
                    is_whole(message) ==> parsed_json(bytes@) == Some(value)),
                    Err(e) => refused(r, e),
                }
                &&& optional(*final(initialize_id)) == initialize_id_after(
                    message,
                    optional(*old(initialize_id)),
                )
            },
        },
{
    let message = match parse_json(line) {
        Some(message) => message,
        None => return Err(refuse("client sent invalid App Server JSONL")),
    };
    let ghost given = message@;
    match rewrite_client_value(message, &profile.environment_id, initialize_id) {
        Ok(value) => {
            proof {
                if is_whole(given) {
                    lemma_prints_back(given, read_depth());
                    lemma_rewritten_prints_back(given, profile.environment_id@);
                }
            }
            Ok(bytes_of(&encode_json(&value)))
        },
        Err(e) => Err(e),
    }
}

/// A message that can be read back can be read back once it is rewritten.
proof fn lemma_rewritten_prints_back(message: JsonView, environment: Seq<char>)
    requires
        prints_back(message, read_depth()),
        rewritten(message, environment) is Ok,
    ensures
        prints_back(rewritten(message, environment)->Ok_0, read_depth()),
{
    if let (JsonView::Object(object), Some(method)) = (message, method_of(message)) {
        if method == "initialize"@ || method == "thread/start"@ || method == "turn/start"@ {
            let params = object_field(object, "params"@)->Ok_0;
            let value = rewritten(message, environment)->Ok_0;
            let after = value->Object_0;
            let changed = after["params"@]->Object_0;
            assert forall|k: Seq<char>| #[trigger] params.contains_key(k) implies prints_back(
                params[k],
                125,
            ) by {
                assert(object.contains_key("params"@));
                assert(prints_back(object["params"@], 126));
            }
            assert forall|k: Seq<char>| #[trigger] changed.contains_key(k) implies prints_back(
                changed[k],
                125,
            ) by {
                if method == "initialize"@ {
                    if k == "capabilities"@ {
                        let given = object_field(params, k)->Ok_0;
                        let set = given.insert("experimentalApi"@, JsonView::Bool(true));
                        assert forall|j: Seq<char>| #[trigger]
                            set.contains_key(j) implies prints_back(set[j], 124) by {
                            if j != "experimentalApi"@ {
                                assert(params.contains_key(k));
                                assert(prints_back(params[k], 125));
                                assert(given.contains_key(j));
                            }
                        }
                        assert(changed[k] == JsonView::Object(set));
                    } else {
                        assert(params.contains_key(k));
                    }
                } else if k == "environments"@ {
                    let cwd = text_of(lookup(params, "cwd"@))->Some_0;
                    lemma_environment_prints_back(environment, cwd);
                } else {
                    assert(params.contains_key(k));
                }
            }
            assert(prints_back(JsonView::Object(changed), 126));
            assert forall|k: Seq<char>| #[trigger] after.contains_key(k) implies prints_back(
                after[k],
                126,
            ) by {
                if k != "params"@ {
                    assert(object.contains_key(k));
                }
            }
        }
    }
}

proof fn lemma_environment_prints_back(environment: Seq<char>, cwd: Seq<char>)
    ensures
        prints_back(environment_entry(environment, cwd), 125),
{
    let roots = JsonView::Array(seq![JsonView::Text(cwd)]);
    let entry = Map::empty().insert("environmentId"@, JsonView::Text(environment)).insert(
        "cwd"@,
        JsonView::Text(cwd),
    ).insert("runtimeWorkspaceRoots"@, roots);
    assert(prints_back(roots, 123)) by {
        let items = seq![JsonView::Text(cwd)];
        assert(forall|i: int| 0 <= i < items.len() ==> prints_back(#[trigger] items[i], 122));
    }
    assert forall|k: Seq<char>| #[trigger] entry.contains_key(k) implies prints_back(
        entry[k],
        123,
    ) by {}
    assert(prints_back(JsonView::Object(entry), 124));
    let items = seq![JsonView::Object(entry)];
    assert(forall|i: int| 0 <= i < items.len() ==> prints_back(#[trigger] items[i], 124));
}

/// The UTF-8 bytes of a text.
pub fn bytes_of(s: &str) -> (r: Vec<u8>)
    ensures
        r@ == encode_utf8(s@),
{
    vstd::slice::slice_to_vec(s.as_bytes())
}

// ---------------------------------------------------------------------------
// Requests of the bridge itself
// ---------------------------------------------------------------------------

/// The ids of the requests that the bridge makes on its own account.
pub open spec fn internal_id(environment: Seq<char>, purpose: Seq<char>) -> Seq<char> {
    "cxs/"@ + environment + "/"@ + purpose
}

pub fn internal_request_id(environment: &str, purpose: &str) -> (r: String)
    ensures
        r@ == internal_id(environment@, purpose@),
{
    let mut id = "cxs/".to_owned();
    id.push_str(environment);
    id.push_str("/");
    id.push_str(purpose);
    id
}

/// A request with an id, a method and params.
pub open spec fn request(
    id: Seq<char>,
    method: Seq<char>,
    params: Map<Seq<char>, JsonView>,
) -> JsonView {
    JsonView::Object(
        Map::empty().insert("id"@, JsonView::Text(id)).insert("method"@, JsonView::Text(method)).insert(
            "params"@,
            JsonView::Object(params),
        ),
    )
}

pub fn make_request(id: &str, method: &str, params: JsonObject) -> (r: Json)
    ensures
        r@ == request(id@, method@, params@),
{
    let mut object = JsonObject::new();
    object.insert("id", Json::text(id));
    object.insert("method", Json::text(method));
    object.insert("params", Json::Object(params));
    Json::Object(object)
}

/// The request that registers the remote environment with the App Server.
pub open spec fn environment_add(environment: Seq<char>, port: u16) -> JsonView {
    request(
        internal_id(environment, "environment-add"@),
        "environment/add"@,
        Map::empty().insert("environmentId"@, JsonView::Text(environment)).insert(
            "execServerUrl"@,
            JsonView::Text("ws://127.0.0.1:"@ + decimal(port as nat)),
        ).insert("connectTimeoutMs"@, JsonView::Number(NumberView::Integer(10_000))),
    )
}

pub fn environment_add_request(environment: &str, port: u16) -> (r: Json)
    ensures
        r@ == environment_add(environment@, port),
{
    let mut url = "ws://127.0.0.1:".to_owned();
    url.push_str(&decimal_text(port as u64));
    let mut params = JsonObject::new();
    params.insert("environmentId", Json::text(environment));
    params.insert("execServerUrl", Json::Text(url));
    params.insert("connectTimeoutMs", Json::Number(Number::Unsigned(10_000)));
    make_request(
        &internal_request_id(environment, "environment-add"),
        "environment/add",
        params,
    )
}

/// The request that asks whether the remote environment is ready.
pub open spec fn environment_status(id: Seq<char>, environment: Seq<char>) -> JsonView {
    request(
        id,
        "environment/status"@,
        Map::empty().insert("environmentId"@, JsonView::Text(environment)),
    )
}

pub fn environment_status_request(id: &str, profile: &Profile) -> (r: Json)
    ensures
        r@ == environment_status(id@, profile.environment_id@),
{
    let mut params = JsonObject::new();
    params.insert("environmentId", Json::text(&profile.environment_id));
    make_request(id, "environment/status", params)
}

/// What a reply to that request says.
pub open spec fn status_reply(message: JsonView) -> Result<bool, Seq<char>> {
    match field(message, "error"@) {
        Some(error) => Err("environment/status failed: "@ + json_text(error)),
        None => match text_of(nested(message, "result"@, "status"@)) {
            None => Err("environment/status response did not contain result.status"@),
            Some(status) => Ok(status == "ready"@),
        },
    }
}

pub fn environment_status_ready(message: &Json) -> (r: Result<bool, Failure>)
    ensures
        match r {
            Ok(ready) => status_reply(message@) == Ok::<bool, Seq<char>>(ready),
            Err(e) => status_reply(message@) == Err::<bool, Seq<char>>(e@),
        },
{
    match message.get("error") {
        Some(error) => return Err(refuse_json("environment/status failed: ", error)),
        None => {},
    }
    match message.get_nested("result", "status") {
        Some(Json::Text(status)) => Ok(same_text(status, "ready")),
        _ => Err(refuse("environment/status response did not contain result.status")),
    }
}

/// A refusal that quotes a JSON value.
pub fn refuse_json(head: &str, value: &Json) -> (r: Failure)
    ensures
        r@ == head@ + json_text(value@),
{
    let mut message = head.to_owned();
    message.push_str(&encode_json(value));
    Failure { message }
}

// ---------------------------------------------------------------------------
// Replies of the host
// ---------------------------------------------------------------------------

/// Whether `id` names a request that the bridge made of the host.
pub open spec fn is_internal_host_id(environment: Seq<char>, id: Seq<char>) -> bool {
    id == internal_id(environment, "host-initialize"@) || internal_id(
        environment,
        "thread-metadata/"@,
    ).is_prefix_of(id)
}

/// Whether the client may see a message of the host: replies to its own
/// requests, and the notifications that the host owns.
pub open spec fn host_message_visible(message: JsonView, environment: Seq<char>) -> bool {
    ||| field(message, "id"@) is Some && match text_of(field(message, "id"@)) {
        Some(id) => !is_internal_host_id(environment, id),
        None => true,
    }
    ||| match method_of(message) {
        Some(method) => host_notification_methods().contains(method),
        None => false,
    }
}

pub fn host_message_allowed(message: &Json, profile: &Profile) -> (r: bool)
    ensures
        r == host_message_visible(message@, profile.environment_id@),
{
    let visible_id = match message.get("id") {
        Some(Json::Text(id)) => {
            let initialize = internal_request_id(&profile.environment_id, "host-initialize");
            let prefix = internal_request_id(&profile.environment_id, "thread-metadata/");
            !(same_text(id, &initialize) || starts_with(id, &prefix))
        },
        Some(_) => true,
        None => false,
    };
    visible_id || match message.get_text("method") {
        Some(method) => is_host_notification(method),
        None => false,
    }
}

/// `target` with the field `name` of `source`, where `source` has it.
pub open spec fn with_field_of(
    target: Map<Seq<char>, JsonView>,
    source: Map<Seq<char>, JsonView>,
    name: Seq<char>,
) -> Map<Seq<char>, JsonView> {
    match lookup(source, name) {
        Some(value) => target.insert(name, value),
        None => target,
    }
}

/// `target` with each of the fields `names` that `source` has.
pub open spec fn with_fields_of(
    target: Map<Seq<char>, JsonView>,
    source: Map<Seq<char>, JsonView>,
    names: Seq<Seq<char>>,
) -> Map<Seq<char>, JsonView>
    decreases names.len(),
{
    if names.len() == 0 {
        target
    } else {
        with_field_of(with_fields_of(target, source, names.drop_last()), source, names.last())
    }
}

fn copy_fields(target: &mut JsonObject, source: &JsonObject, names: &Vec<&'static str>)
    ensures
        final(target)@ == with_fields_of(old(target)@, source@, slices(names@)),
{
    let ghost start = target@;
    let mut i: usize = 0;
    assert(slices(names@).take(0) =~= Seq::empty());
    while i < names.len()
        invariant
            i <= names.len(),
            target@ == with_fields_of(start, source@, slices(names@).take(i as int)),
        decreases names.len() - i,
    {
        match source.get(names[i]) {
            Some(value) => target.insert(names[i], value.copy()),
            None => {},
        }
        assert(slices(names@).take(i as int + 1).drop_last() =~= slices(names@).take(i as int));
        i = i + 1;
    }
    assert(slices(names@).take(i as int) =~= slices(names@));
}

/// The fields of a thread/start result that describe the remote project.
pub open spec fn project_fields() -> Seq<Seq<char>> {
    seq!["cwd"@, "runtimeWorkspaceRoots"@, "instructionSources"@]
}

/// The fields of the thread in it that describe the remote project.
pub open spec fn thread_fields() -> Seq<Seq<char>> {
    seq!["cwd"@, "gitInfo"@]
}

/// The local result of thread/start, with what the host knows of the project.
pub open spec fn merged_thread_result(
    local: Map<Seq<char>, JsonView>,
    host: Map<Seq<char>, JsonView>,
) -> Map<Seq<char>, JsonView> {
    let merged = with_fields_of(local, host, project_fields());
    match (lookup(host, "thread"@), lookup(merged, "thread"@)) {
        (Some(JsonView::Object(host_thread)), Some(JsonView::Object(local_thread))) => merged.insert(
            "thread"@,
            JsonView::Object(with_fields_of(local_thread, host_thread, thread_fields())),
        ),
        _ => merged,
    }
}

pub open spec fn merged_thread(local: JsonView, host: JsonView) -> Result<JsonView, Seq<char>> {
    if field(local, "error"@) is Some || field(host, "error"@) is Some {
        Ok(local)
    } else {
        match (local, field(local, "result"@)) {
            (JsonView::Object(object), Some(JsonView::Object(local_result))) => match field(
                host,
                "result"@,
            ) {
                Some(JsonView::Object(host_result)) => Ok(
                    JsonView::Object(
                        object.insert(
                            "result"@,
                            JsonView::Object(merged_thread_result(local_result, host_result)),
                        ),
                    ),
                ),
                _ => Err("Host thread/start response did not contain a result object"@),
            },
            _ => Err("Mac thread/start response did not contain a result object"@),
        }
    }
}

fn merge_thread_result(local: &mut JsonObject, host: &JsonObject)
    ensures
        final(local)@ == merged_thread_result(old(local)@, host@),
{
    let fields: Vec<&'static str> = vec!["cwd", "runtimeWorkspaceRoots", "instructionSources"];
    assert(slices(fields@) =~= project_fields());
    copy_fields(local, host, &fields);
    let ghost merged = local@;
    match host.get("thread") {
        Some(Json::Object(host_thread)) => match local.take("thread") {
            Some(Json::Object(local_thread)) => {
                let mut thread = local_thread;
                let fields: Vec<&'static str> = vec!["cwd", "gitInfo"];
                assert(slices(fields@) =~= thread_fields());
                copy_fields(&mut thread, host_thread, &fields);
                let ghost inner = JsonView::Object(thread@);
                local.insert("thread", Json::Object(thread));
                assert(local@ =~= merged.insert("thread"@, inner));
            },
            Some(other) => {
                let ghost inner = other@;
                local.insert("thread", other);
                assert(local@ =~= merged.insert("thread"@, inner));
                assert(local@ =~= merged);
            },
            None => {
                assert(local@ =~= merged);
            },
        },
        _ => {},
    }
}

/// The local reply to thread/start, with what the host knows of the project.
pub fn merge_thread_metadata(local: Json, host: &Json) -> (r: Result<Json, Failure>)
    ensures
        outcome(r) == merged_thread(local@, host@),
{
    if local.get("error").is_some() || host.get("error").is_some() {
        return Ok(local);
    }
    let ghost whole = local@;
    match local {
        Json::Object(object) => {
            let mut object = object;
            let ghost before = object@;
            match object.take("result") {
                Some(Json::Object(local_result)) => {
                    let mut result = local_result;
                    match host.get("result") {
                        Some(Json::Object(host_result)) => {
                            merge_thread_result(&mut result, host_result);
                            let ghost inner = JsonView::Object(result@);
                            object.insert("result", Json::Object(result));
                            assert(object@ =~= before.insert("result"@, inner));
                            Ok(Json::Object(object))
                        },
                        _ => Err(
                            refuse("Host thread/start response did not contain a result object"),
                        ),
                    }
                },
                _ => Err(refuse("Mac thread/start response did not contain a result object")),
            }
        },
        _ => Err(refuse("Mac thread/start response did not contain a result object")),
    }
}

/// The local result of initialize, with the identity of the remote host.
pub open spec fn merged_initialize_result(
    local: Map<Seq<char>, JsonView>,
    host: Map<Seq<char>, JsonView>,
    remote_home: Option<Seq<char>>,
) -> Map<Seq<char>, JsonView> {
    let merged = with_fields_of(local, host, required_initialize_fields());
    match remote_home {
        Some(home) => merged.insert(
            "codexHome"@,
            JsonView::Text(strip_end(home, '/') + "/.codex"@),
        ),
        None => merged,
    }
}

pub open spec fn merged_initialize(
    local: JsonView,
    host: JsonView,
    remote_home: Option<Seq<char>>,
) -> Result<JsonView, Seq<char>> {
    match field(host, "error"@) {
        Some(error) => Err("remote Host App Server initialize failed: "@ + json_text(error)),
        None => match (local, field(local, "result"@)) {
            (JsonView::Object(object), Some(JsonView::Object(local_result))) => match field(
                host,
                "result"@,
            ) {
                Some(JsonView::Object(host_result)) => Ok(
                    JsonView::Object(
                        object.insert(
                            "result"@,
                            JsonView::Object(
                                merged_initialize_result(local_result, host_result, remote_home),
                            ),
                        ),
                    ),
                ),
                _ => Err(
                    "remote Host App Server initialize response did not contain a result object"@,
                ),
            },
            _ => Err("local App Server initialize response did not contain a result object"@),
        },
    }
}

/// The local reply to initialize, with the identity of the remote host.
pub fn merge_initialize_response(
    local: Json,
    host: &Json,
    remote_home: &Option<String>,
) -> (r: Result<Json, Failure>)
    ensures
        outcome(r) == merged_initialize(local@, host@, optional_text(*remote_home)),
{
    match host.get("error") {
        Some(error) => {
            return Err(refuse_json("remote Host App Server initialize failed: ", error));
        },
        None => {},
    }
    match local {
        Json::Object(object) => {
            let mut object = object;
            let ghost before = object@;
            match object.take("result") {
                Some(Json::Object(local_result)) => {
                    let mut result = local_result;
                    match host.get("result") {
                        Some(Json::Object(host_result)) => {
                            copy_fields(&mut result, host_result, &required_initialize_list());
                            match remote_home {
                                Some(home) => {
                                    let mut codex_home = stripped_end(home, '/');
                                    codex_home.push_str("/.codex");
                                    result.insert("codexHome", Json::Text(codex_home));
                                },
                                None => {},
                            }
                            let ghost inner = JsonView::Object(result@);
                            object.insert("result", Json::Object(result));
                            assert(object@ =~= before.insert("result"@, inner));
                            Ok(Json::Object(object))
                        },
                        _ => Err(
                            refuse(
                                "remote Host App Server initialize response did not contain a result object",
                            ),
                        ),
                    }
                },
                _ => Err(
                    refuse(
                        "local App Server initialize response did not contain a result object",
                    ),
                ),
            }
        },
        _ => Err(
            refuse("local App Server initialize response did not contain a result object"),
        ),
    }
}

} // verus!
