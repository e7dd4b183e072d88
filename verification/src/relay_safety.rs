//! What the relay lets through to either side: the host gets its own requests
//! and nothing else, and no thread starts outside the remote environment.

use vstd::prelude::*;
use crate::bridge::{
    environment_add, environment_entry, environment_status, initialize_id_after, internal_id,
    merged_initialize, method_of, object_field, rewritten,
};
use crate::bridge_laws::law_rewriting_keeps_other_fields;
use crate::json::{JsonView, field, json_text, lookup, nested, text_of};
use crate::relay::initial_relay;
use crate::relay_model::{
    ActionView, LookupView, QueuedView, RelayView, RequestRoute, Turn, client_turn, deliver_turn,
    expire_turn, flush_turn, forward_turn, goes_on, has_expired, host_message_turn, host_turn,
    initialized_turn, instruction_sources, local_start, lookup_index, lookup_turn, metadata_id,
    must_wait, new_lookup, next_sequence, read_actions, read_id, read_index, read_reply,
    read_request, reads_after, reply_index, route_of, server_turn, settle_turn, settled,
    shadow_request, start_turn, started_turn, status_question, tick_turn, with_lookup_at,
};
use crate::routing::host_request_methods;

verus! {

/// Whether the host may get a message: its share of initialize, the requests
/// that it owns, and threads that leave nothing behind.
pub open spec fn host_may_get(message: JsonView) -> bool {
    match method_of(message) {
        Some(method) => if method == "thread/start"@ {
            nested(message, "params"@, "ephemeral"@) == Some(JsonView::Bool(true))
                && nested(message, "params"@, "environments"@) is None
        } else {
            method == "initialize"@ || host_request_methods().contains(method)
        },
        None => false,
    }
}

/// Whether `value` names the remote environment, and no other.
pub open spec fn names_environment(value: JsonView, environment: Seq<char>) -> bool {
    exists|cwd: Seq<char>| value == #[trigger] environment_entry(environment, cwd)
}

/// Whether the local App Server may get a message: a thread starts in the
/// remote environment, and a turn names no other.
pub open spec fn server_may_get(message: JsonView, environment: Seq<char>) -> bool {
    &&& method_of(message) == Some("thread/start"@) ==> (nested(
        message,
        "params"@,
        "environments"@,
    ) matches Some(value) && names_environment(value, environment))
    &&& method_of(message) == Some("turn/start"@) ==> (nested(
        message,
        "params"@,
        "environments"@,
    ) matches Some(value) ==> names_environment(value, environment))
    &&& runs_where_it_says(message, environment)
}

/// Whether a thread or a turn that names a directory runs there, in the remote
/// environment.
pub open spec fn runs_where_it_says(message: JsonView, environment: Seq<char>) -> bool {
    method_of(message) == Some("thread/start"@) || method_of(message) == Some("turn/start"@) ==> (
    text_of(nested(message, "params"@, "cwd"@)) matches Some(cwd) ==> nested(
        message,
        "params"@,
        "environments"@,
    ) == Some(environment_entry(environment, cwd)))
}

/// Whether the host answers a request.
pub open spec fn is_the_hosts(message: JsonView) -> bool {
    match method_of(message) {
        Some(method) => host_request_methods().contains(method),
        None => false,
    }
}

/// Whether an action sends nothing that its receiver may not get.
pub open spec fn is_allowed(action: ActionView, environment: Seq<char>) -> bool {
    match action {
        ActionView::ToHost(text) => exists|message: JsonView|
            text == #[trigger] json_text(message) && host_may_get(message),
        ActionView::ToServer(text) => exists|message: JsonView|
            text == #[trigger] json_text(message) && server_may_get(message, environment)
                && !is_the_hosts(message),
        _ => true,
    }
}

pub open spec fn all_allowed(actions: Seq<ActionView>, environment: Seq<char>) -> bool {
    forall|i: int| 0 <= i < actions.len() ==> is_allowed(#[trigger] actions[i], environment)
}

/// Whether a message that waits is what it says it is.
pub open spec fn is_faithful(queued: QueuedView, environment: Seq<char>) -> bool {
    &&& queued.text == json_text(queued.message)
    &&& queued.route == route_of(method_of(queued.message))
    &&& server_may_get(queued.message, environment)
}

/// Whether all that the relay holds back may go where it will go.
pub open spec fn is_guarded(state: RelayView) -> bool {
    &&& forall|i: int|
        0 <= i < state.queue.len() ==> is_faithful(#[trigger] state.queue[i], state.environment)
    &&& forall|i: int|
        0 <= i < state.lookups.len() ==> server_may_get(
            (#[trigger] state.lookups[i]).local_request,
            state.environment,
        ) && !is_the_hosts(state.lookups[i].local_request)
}

/// Whether a turn asks for nothing that is not allowed, and leaves the relay
/// guarded where it succeeds.
pub open spec fn is_safe(state: RelayView, turn: Turn) -> bool {
    &&& all_allowed(turn.actions, state.environment)
    &&& turn.outcome is Ok ==> is_guarded(turn.state) && turn.state.environment
        == state.environment
}

proof fn lemma_allowed_join(a: Seq<ActionView>, b: Seq<ActionView>, environment: Seq<char>)
    requires
        all_allowed(a, environment),
        all_allowed(b, environment),
    ensures
        all_allowed(a + b, environment),
{
    assert forall|i: int| 0 <= i < (a + b).len() implies is_allowed(
        #[trigger] (a + b)[i],
        environment,
    ) by {
        if i < a.len() {
            assert((a + b)[i] == a[i]);
        } else {
            assert((a + b)[i] == b[i - a.len()]);
        }
    }
}

proof fn lemma_field_names()
    ensures
        "method"@ != "id"@,
        "method"@ != "params"@,
        "id"@ != "params"@,
        "environments"@ != "ephemeral"@,
        "environments"@ != "developerInstructions"@,
        "cwd"@ != "environments"@,
        "thread/start"@ != "initialize"@,
        "thread/start"@ != "turn/start"@,
        "turn/start"@ != "initialize"@,
        "environment/add"@ != "thread/start"@,
        "environment/add"@ != "turn/start"@,
        "environment/status"@ != "thread/start"@,
        "environment/status"@ != "turn/start"@,
        "fs/readFile"@ != "thread/start"@,
        host_request_methods().contains("fs/readFile"@),
        !host_request_methods().contains("thread/start"@),
        !host_request_methods().contains("initialize"@),
        !host_request_methods().contains("environment/add"@),
        !host_request_methods().contains("environment/status"@),
        "cwd"@ != "developerInstructions"@,
{
    reveal_strlit("method");
    reveal_strlit("id");
    reveal_strlit("params");
    reveal_strlit("environments");
    reveal_strlit("ephemeral");
    reveal_strlit("developerInstructions");
    reveal_strlit("cwd");
    reveal_strlit("thread/start");
    reveal_strlit("initialize");
    reveal_strlit("turn/start");
    reveal_strlit("environment/add");
    reveal_strlit("environment/status");
    reveal_strlit("fs/readFile");
    reveal_strlit("command/exec");
    reveal_strlit("command/exec/resize");
    reveal_strlit("command/exec/terminate");
    reveal_strlit("command/exec/write");
    reveal_strlit("fs/copy");
    reveal_strlit("fs/createDirectory");
    reveal_strlit("fs/getMetadata");
    reveal_strlit("fs/readDirectory");
    reveal_strlit("fs/remove");
    reveal_strlit("fs/unwatch");
    reveal_strlit("fs/watch");
    reveal_strlit("fs/writeFile");
    reveal_strlit("fuzzyFileSearch");
    reveal_strlit("fuzzyFileSearch/sessionStart");
    reveal_strlit("fuzzyFileSearch/sessionStop");
    reveal_strlit("fuzzyFileSearch/sessionUpdate");
    reveal_strlit("process/kill");
    reveal_strlit("process/resizePty");
    reveal_strlit("process/spawn");
    reveal_strlit("process/writeStdin");
    let methods = host_request_methods();
    assert(methods[8] == "fs/readFile"@);
    assert("method"@[0] == 'm' && "params"@[0] == 'p' && "id"@[0] == 'i');
    assert("environments"@.len() == 12 && "ephemeral"@.len() == 9);
    assert("developerInstructions"@.len() == 21 && "cwd"@.len() == 3);
    assert("thread/start"@[0] == 't' && "initialize"@[0] == 'i' && "turn/start"@[1] == 'u');
    assert("thread/start"@[1] == 'h' && "turn/start"@[0] == 't');
    assert("environment/add"@[0] == 'e' && "environment/status"@[0] == 'e');
    assert("fs/readFile"@[0] == 'f');
    assert forall|i: int| 0 <= i < methods.len() implies #[trigger] methods[i] != "thread/start"@
        && methods[i] != "initialize"@ && methods[i] != "environment/add"@ && methods[i]
        != "environment/status"@ by {
        assert(methods[i][0] == 'c' || methods[i][0] == 'f' || methods[i][0] == 'p');
    }
}

/// What is rewritten for the local App Server, it may get.
pub proof fn law_rewritten_messages_are_allowed(message: JsonView, environment: Seq<char>)
    requires
        rewritten(message, environment) is Ok,
    ensures
        server_may_get(rewritten(message, environment)->Ok_0, environment),
{
    lemma_field_names();
    law_rewriting_keeps_other_fields(message, environment);
    let value = rewritten(message, environment)->Ok_0;
    if let (JsonView::Object(object), Some(method)) = (message, method_of(message)) {
        if method == "thread/start"@ || method == "turn/start"@ {
            let params = object_field(object, "params"@)->Ok_0;
            if let Some(cwd) = text_of(lookup(params, "cwd"@)) {
                assert(nested(value, "params"@, "environments"@) == Some(
                    environment_entry(environment, cwd),
                ));
            }
        }
    }
}

proof fn lemma_forward(state: RelayView, queued: QueuedView, now: u64)
    requires
        is_guarded(state),
        is_faithful(queued, state.environment),
    ensures
        is_safe(state, forward_turn(state, queued, now)),
{
    lemma_field_names();
    let turn = forward_turn(state, queued, now);
    match queued.route {
        RequestRoute::Local => {
            assert(turn.actions[0] == ActionView::ToServer(json_text(queued.message)));
        },
        RequestRoute::Host => {
            assert(turn.actions[0] == ActionView::ToHost(json_text(queued.message)));
            assert(host_may_get(queued.message));
        },
        RequestRoute::ThreadStart => {
            if turn.outcome is Ok {
                let object = queued.message->Object_0;
                let client_id = field(queued.message, "id"@)->Some_0;
                let sequence = next_sequence(state.metadata_sequence);
                let id = metadata_id(state.environment, sequence);
                let shadow = shadow_request(object, id)->Ok_0;
                let params = object_field(object, "params"@)->Ok_0;
                let inner = params.remove("environments"@).insert(
                    "ephemeral"@,
                    JsonView::Bool(true),
                );
                assert(field(shadow, "method"@) == field(queued.message, "method"@));
                assert(field(shadow, "params"@) == Some(JsonView::Object(inner)));
                assert(!inner.contains_key("environments"@));
                assert(host_may_get(shadow));
                assert(turn.actions[0] == ActionView::ToHost(json_text(shadow)));
                let lookup = new_lookup(id, client_id, queued.message, now);
                assert forall|i: int| 0 <= i < turn.state.lookups.len() implies server_may_get(
                    (#[trigger] turn.state.lookups[i]).local_request,
                    state.environment,
                ) && !is_the_hosts(turn.state.lookups[i].local_request) by {
                    let at = lookup_index(state.lookups, id);
                    if at < state.lookups.len() {
                        if i != at {
                            assert(turn.state.lookups[i] == state.lookups[i]);
                        } else {
                            assert(turn.state.lookups[i] == lookup);
                        }
                    } else if i < state.lookups.len() {
                        assert(turn.state.lookups[i] == state.lookups[i]);
                    } else {
                        assert(turn.state.lookups[i] == lookup);
                    }
                }
            }
        },
    }
}

proof fn lemma_flush_safe(state: RelayView, now: u64)
    requires
        is_guarded(state),
    ensures
        is_safe(state, flush_turn(state, now)),
    decreases state.queue.len(),
{
    if state.queue.len() > 0 {
        let rest = RelayView { queue: state.queue.skip(1), ..state };
        assert forall|i: int| 0 <= i < rest.queue.len() implies is_faithful(
            #[trigger] rest.queue[i],
            rest.environment,
        ) by {
            assert(rest.queue[i] == state.queue[i + 1]);
        }
        let first = forward_turn(rest, state.queue[0], now);
        lemma_forward(rest, state.queue[0], now);
        if first.outcome is Ok {
            lemma_flush_safe(first.state, now);
            lemma_allowed_join(
                first.actions,
                flush_turn(first.state, now).actions,
                state.environment,
            );
        }
    }
}

proof fn lemma_settle_safe(state: RelayView, now: u64)
    requires
        is_guarded(state),
    ensures
        is_safe(state, settle_turn(state, now)),
{
    lemma_flush_safe(state, now);
    let answered = RelayView { local_initialize: None, initialize_answered: true, ..state };
    assert(is_guarded(answered));
    lemma_flush_safe(answered, now);
    if let (Some(local), Some(host)) = (state.local_initialize, state.host_initialize) {
        if !state.initialize_answered {
            if let Ok(merged) = merged_initialize(local, host, state.remote_home) {
                let answer = seq![ActionView::ToClient(json_text(merged))];
                assert(all_allowed(answer, state.environment));
                lemma_allowed_join(
                    answer,
                    flush_turn(answered, now).actions,
                    state.environment,
                );
                lemma_allowed_join(answer, Seq::empty(), state.environment);
            }
        }
    }
}

proof fn lemma_settled_safe(state: RelayView, first: Turn, now: u64)
    requires
        is_safe(state, first),
    ensures
        is_safe(state, settled(first, now)),
{
    if first.outcome is Ok {
        lemma_settle_safe(first.state, now);
        lemma_allowed_join(
            first.actions,
            settle_turn(first.state, now).actions,
            state.environment,
        );
    }
}

proof fn lemma_start_safe(state: RelayView, index: int)
    requires
        is_guarded(state),
        0 <= index < state.lookups.len(),
    ensures
        is_safe(state, start_turn(state, index)),
{
    lemma_field_names();
    let lookup = state.lookups[index];
    let turn = start_turn(state, index);
    if !lookup.local_sent && turn.outcome is Ok {
        let value = local_start(lookup)->Ok_0;
        assert(field(value, "method"@) == field(lookup.local_request, "method"@));
        assert(nested(value, "params"@, "environments"@) == nested(
            lookup.local_request,
            "params"@,
            "environments"@,
        ));
        assert(nested(value, "params"@, "cwd"@) == nested(
            lookup.local_request,
            "params"@,
            "cwd"@,
        ));
        assert(server_may_get(lookup.local_request, state.environment));
        assert(server_may_get(value, state.environment));
        assert(turn.actions[0] == ActionView::ToServer(json_text(value)));
        lemma_replaced(state, index, LookupView { local_sent: true, ..lookup });
    }
}

proof fn lemma_replaced(state: RelayView, index: int, lookup: LookupView)
    requires
        is_guarded(state),
        0 <= index < state.lookups.len(),
        lookup.local_request == state.lookups[index].local_request,
    ensures
        is_guarded(with_lookup_at(state, index, lookup)),
{
    let next = with_lookup_at(state, index, lookup);
    assert forall|i: int| 0 <= i < next.lookups.len() implies server_may_get(
        (#[trigger] next.lookups[i]).local_request,
        next.environment,
    ) && !is_the_hosts(next.lookups[i].local_request) by {
        if i != index {
            assert(next.lookups[i] == state.lookups[i]);
        }
    }
}

proof fn lemma_client_safe(state: RelayView, message: JsonView, now: u64)
    requires
        is_guarded(state),
    ensures
        is_safe(state, client_turn(state, message, now)),
{
    lemma_field_names();
    let noted = RelayView {
        initialize_id: initialize_id_after(message, state.initialize_id),
        ..state
    };
    assert(is_guarded(noted));
    if let Ok(value) = rewritten(message, state.environment) {
        law_rewritten_messages_are_allowed(message, state.environment);
        let first = deliver_turn(noted, value, now);
        let queued = QueuedView {
            text: json_text(value),
            message: value,
            route: route_of(method_of(value)),
        };
        if method_of(value) == Some("initialize"@) {
            let object = value->Object_0;
            let hello = JsonView::Object(
                object.insert(
                    "id"@,
                    JsonView::Text(internal_id(state.environment, "host-initialize"@)),
                ),
            );
            assert(field(hello, "method"@) == field(value, "method"@));
            assert(host_may_get(hello));
            assert(first.actions[0] == ActionView::ToHost(json_text(hello)));
            assert(first.actions[1] == ActionView::ToServer(json_text(value)));
        } else if !must_wait(noted) {
            lemma_forward(noted, queued, now);
        }
        assert(is_safe(state, first));
        lemma_settled_safe(state, first, now);
    }
}

proof fn lemma_question(environment: Seq<char>)
    ensures
        is_allowed(status_question(environment), environment),
{
    lemma_field_names();
    let value = environment_status(internal_id(environment, "environment-status"@), environment);
    assert(method_of(value) == Some("environment/status"@));
    assert(server_may_get(value, environment));
}

proof fn lemma_server_safe(state: RelayView, message: JsonView, now: u64)
    requires
        is_guarded(state),
    ensures
        is_safe(state, server_turn(state, message, now)),
{
    lemma_field_names();
    lemma_question(state.environment);
    let add = environment_add(state.environment, state.exec_port);
    assert(method_of(add) == Some("environment/add"@));
    assert(server_may_get(add, state.environment));
    let ready = RelayView { environment_ready: true, ..state };
    assert(is_guarded(ready));
    lemma_flush_safe(ready, now);
    let first = initialized_turn(state, message);
    if first.outcome is Ok {
        assert(first.actions[0] == ActionView::ToServer(json_text(add)));
    }
    assert(is_safe(state, first));
    lemma_settled_safe(state, first, now);
    let index = reply_index(state.lookups, message);
    if index < state.lookups.len() {
        let first = started_turn(state, index as int, message);
        let rest = state.lookups.remove(index as int);
        assert forall|i: int| 0 <= i < rest.len() implies server_may_get(
            (#[trigger] rest[i]).local_request,
            state.environment,
        ) && !is_the_hosts(rest[i].local_request) by {
            let j = if i < index { i } else { i + 1 };
            assert(rest[i] == state.lookups[j]);
        }
        assert(is_safe(state, first));
        lemma_settled_safe(state, first, now);
    }
    let pass = goes_on(state, seq![ActionView::PassToClient]);
    assert(is_safe(state, pass));
    lemma_settled_safe(state, pass, now);
}

proof fn lemma_host_safe(state: RelayView, message: JsonView, now: u64)
    requires
        is_guarded(state),
    ensures
        is_safe(state, host_turn(state, message, now)),
{
    lemma_field_names();
    let first = host_message_turn(state, message);
    if let Some(id) = text_of(field(message, "id"@)) {
        let index = lookup_index(state.lookups, id);
        let reading = read_index(state.lookups, id);
        if id == internal_id(state.environment, "host-initialize"@) {
            assert(is_safe(state, first));
        } else if index < state.lookups.len() {
            lemma_lookup_safe(state, index as int, message);
        } else if reading < state.lookups.len() {
            let lookup = state.lookups[reading as int];
            if let Ok(known) = read_reply(lookup, id, message) {
                let next = with_lookup_at(state, reading as int, known);
                lemma_replaced(state, reading as int, known);
                lemma_start_safe(next, reading as int);
            }
            assert(is_safe(state, first));
        } else {
            assert(is_safe(state, first));
        }
    } else {
        assert(is_safe(state, first));
    }
    lemma_settled_safe(state, first, now);
}

proof fn lemma_lookup_safe(state: RelayView, index: int, message: JsonView)
    requires
        is_guarded(state),
        0 <= index < state.lookups.len(),
    ensures
        is_safe(state, lookup_turn(state, index, message)),
{
    lemma_field_names();
    let lookup = state.lookups[index];
    let paths = instruction_sources(message);
    let known = LookupView { host_response: Some(message), instruction_paths: paths, ..lookup };
    if field(message, "error"@) is Some {
        lemma_start_safe(state, index);
    } else if lookup.local_sent {
        lemma_replaced(state, index, LookupView { host_response: Some(message), ..lookup });
    } else if paths.len() == 0 {
        lemma_replaced(state, index, known);
        lemma_start_safe(with_lookup_at(state, index, known), index);
    } else {
        let asked = LookupView {
            reads: reads_after(lookup.reads, lookup.metadata_id, paths, paths.len()),
            ..known
        };
        lemma_replaced(state, index, asked);
        let actions = read_actions(lookup.metadata_id, paths);
        assert forall|i: int| 0 <= i < actions.len() implies is_allowed(
            #[trigger] actions[i],
            state.environment,
        ) by {
            let value = read_request(read_id(lookup.metadata_id, i as nat), paths[i]);
            assert(method_of(value) == Some("fs/readFile"@));
            assert(host_may_get(value));
            assert(actions[i] == ActionView::ToHost(json_text(value)));
        }
    }
}

proof fn lemma_expire_safe(state: RelayView, index: nat, now: u64)
    requires
        is_guarded(state),
    ensures
        is_safe(state, expire_turn(state, index, now)),
    decreases state.lookups.len() - index,
{
    if index < state.lookups.len() {
        if has_expired(state.lookups[index as int], now) {
            let first = start_turn(state, index as int);
            lemma_start_safe(state, index as int);
            if first.outcome is Ok {
                lemma_expire_safe(first.state, index + 1, now);
                lemma_allowed_join(
                    first.actions,
                    expire_turn(first.state, index + 1, now).actions,
                    state.environment,
                );
            }
        } else {
            lemma_expire_safe(state, index + 1, now);
        }
    }
}

/// Whatever happens, the host gets nothing but its own requests, no thread
/// starts locally outside the remote environment, and what the relay holds
/// back keeps to that.
pub proof fn law_turns_are_safe(state: RelayView, message: JsonView, now: u64)
    requires
        is_guarded(state),
    ensures
        is_safe(state, client_turn(state, message, now)),
        is_safe(state, server_turn(state, message, now)),
        is_safe(state, host_turn(state, message, now)),
        is_safe(state, tick_turn(state, now)),
{
    lemma_client_safe(state, message, now);
    lemma_server_safe(state, message, now);
    lemma_host_safe(state, message, now);
    lemma_expire_safe(state, 0, now);
    lemma_settled_safe(state, expire_turn(state, 0, now), now);
}

/// A relay that has seen nothing is guarded.
pub proof fn law_relay_starts_guarded(
    environment: Seq<char>,
    exec_port: u16,
    remote_home: Option<Seq<char>>,
)
    ensures
        is_guarded(initial_relay(environment, exec_port, remote_home)),
{
}

} // verus!
