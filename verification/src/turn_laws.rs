//! What the relay does with each kind of message: what it sends to whom, and
//! what it knows afterwards.

use vstd::prelude::*;
use vstd::utf8::*;
use crate::bridge::{
    environment_add, environment_status, initialize_id_after, internal_id, merged_initialize,
    merged_thread, method_of, rewritten,
};
use crate::bridge_laws::law_rewriting_keeps_other_fields;

use crate::json::{JsonView, NumberView, field, json_text, nested, text_of};
use crate::relay_laws::is_settled;
use crate::relay_model::{
    ActionView, LookupView, QueuedView, RelayView, RequestRoute, client_turn, deliver_turn,
    flush_turn, goes_on, initialized_turn, is_initialize_reply, lookup_index, metadata_id,
    must_wait, new_lookup, queued_bytes, replies_to, reply_index, route_of, server_turn, settled,
    shadow_request, started_turn, with_lookup,
};
use crate::rewriting_laws::law_threads_start_where_they_say;
use crate::routing_laws::law_the_host_answers_nothing_else;
use crate::text::decimal;

verus! {

/// Where nothing is left to settle, nothing more is done.
proof fn lemma_settled(state: RelayView, actions: Seq<ActionView>, now: u64)
    requires
        is_settled(state),
    ensures
        settled(goes_on(state, actions), now) == goes_on(state, actions),
{
    if state.environment_ready && state.initialize_answered {
        assert(flush_turn(state, now) == goes_on(state, Seq::<ActionView>::empty()));
    }
    assert(actions + Seq::<ActionView>::empty() =~= actions);
}

proof fn lemma_message_names()
    ensures
        "id"@ != "method"@,
        "id"@ != "params"@,
        "method"@ != "params"@,
        "path"@ != "params"@,
        "ephemeral"@ != "environments"@,
        "initialize"@ != "thread/start"@,
        "initialize"@ != "turn/start"@,
        "turn/start"@ != "thread/start"@,
{
    reveal_strlit("id");
    reveal_strlit("method");
    reveal_strlit("params");
    reveal_strlit("path");
    reveal_strlit("ephemeral");
    reveal_strlit("environments");
    reveal_strlit("initialize");
    reveal_strlit("thread/start");
    reveal_strlit("turn/start");
    assert("id"@.len() == 2 && "method"@[0] == 'm' && "params"@[0] == 'p');
    assert("path"@.len() == 4 && "params"@.len() == 6 && "method"@.len() == 6);
    assert("ephemeral"@.len() == 9 && "environments"@.len() == 12);
    assert("initialize"@[0] == 'i' && "thread/start"@.len() == 12 && "turn/start"@.len() == 10);
    assert("turn/start"@[0] == 't');
}

/// A relay is open before the client initializes, and again once initialize is
/// answered and the environment is ready.
pub proof fn law_when_a_relay_is_open(state: RelayView, message: JsonView, id: JsonView)
    ensures
        state.initialize_id is None ==> !must_wait(state),
        state.environment_ready && state.initialize_answered ==> !must_wait(state),
        state.initialize_id is Some && !state.environment_ready ==> must_wait(state),
        state.initialize_id is Some && !state.initialize_answered ==> must_wait(state),
        state.environment_requested ==> !is_initialize_reply(state, message),
        state.initialize_id is None ==> !is_initialize_reply(state, message),
        state.initialize_id == Some(id) && !state.environment_requested ==> (is_initialize_reply(
            state,
            message,
        ) <==> replies_to(message, id)),
{
}

// ---------------------------------------------------------------------------
// Messages of the client
// ---------------------------------------------------------------------------

/// A turn of an open relay goes to the local App Server, rewritten, and to
/// nobody else.
pub proof fn law_turns_go_to_the_server(state: RelayView, message: JsonView, now: u64)
    requires
        is_settled(state),
        !must_wait(state),
        text_of(field(message, "method"@)) == Some("turn/start"@),
        rewritten(message, state.environment) is Ok,
    ensures
        client_turn(state, message, now) == goes_on(
            state,
            seq![ActionView::ToServer(json_text(rewritten(message, state.environment)->Ok_0))],
        ),
{
    lemma_message_names();
    law_rewriting_keeps_other_fields(message, state.environment);
    lemma_not_the_hosts();
    let value = rewritten(message, state.environment)->Ok_0;
    let noted = RelayView {
        initialize_id: initialize_id_after(message, state.initialize_id),
        ..state
    };
    assert(noted == state);
    assert(method_of(value) == Some("turn/start"@));
    lemma_settled(state, seq![ActionView::ToServer(json_text(value))], now);
}

proof fn lemma_not_the_hosts()
    ensures
        route_of(Some("turn/start"@)) == RequestRoute::Local,
        route_of(Some("thread/start"@)) == RequestRoute::ThreadStart,
{
    lemma_message_names();
    law_the_host_answers_nothing_else(Some("turn/start"@));
    reveal_strlit("turn/start");
    reveal_strlit("command/exec");
    reveal_strlit("command/exec/resize");
    reveal_strlit("command/exec/terminate");
    reveal_strlit("command/exec/write");
    reveal_strlit("fs/copy");
    reveal_strlit("fs/createDirectory");
    reveal_strlit("fs/getMetadata");
    reveal_strlit("fs/readDirectory");
    reveal_strlit("fs/readFile");
    reveal_strlit("fs/remove");
    reveal_strlit("fs/unwatch");
    reveal_strlit("fs/watch");
    reveal_strlit("fs/writeFile");
    reveal_strlit("fuzzyFileSearch");
    reveal_strlit("fuzzyFileSearch/sessionStart");
    reveal_strlit("fuzzyFileSearch/sessionStop");
    reveal_strlit("fuzzyFileSearch/sessionUpdate");
    reveal_strlit("process/kill");
    reveal_strlit("process/resizePty");
    reveal_strlit("process/spawn");
    reveal_strlit("process/writeStdin");
    assert("turn/start"@[0] == 't');
}

/// A thread that starts is first looked up on the host: the host alone gets the
/// client's request, under an id of the bridge's own, marked as leaving nothing
/// behind, and outside every environment; all else is as the client said it.
/// The thread itself waits, as it will start locally: in the remote
/// environment, from this moment on, and under the client's id.
pub proof fn law_threads_are_looked_up_first(
    state: RelayView,
    message: JsonView,
    cwd: Seq<char>,
    now: u64,
)
    requires
        is_settled(state),
        !must_wait(state),
        text_of(field(message, "method"@)) == Some("thread/start"@),
        text_of(nested(message, "params"@, "cwd"@)) == Some(cwd),
        field(message, "id"@) is Some,
        state.metadata_sequence < u64::MAX,
    ensures
        ({
            let turn = client_turn(state, message, now);
            let id = "cxs/"@ + state.environment + "/thread-metadata/"@ + decimal(
                (state.metadata_sequence + 1) as nat,
            );
            &&& turn.outcome is Ok
            &&& turn.actions.len() == 1
            &&& exists|asked: JsonView|
                {
                    &&& turn.actions[0] == ActionView::ToHost(#[trigger] json_text(asked))
                    &&& field(asked, "id"@) == Some(JsonView::Text(id))
                    &&& nested(asked, "params"@, "ephemeral"@) == Some(JsonView::Bool(true))
                    &&& nested(asked, "params"@, "environments"@) is None
                    &&& forall|name: Seq<char>|
                        name != "ephemeral"@ && name != "environments"@ ==> #[trigger] nested(
                            asked,
                            "params"@,
                            name,
                        ) == nested(message, "params"@, name)
                    &&& forall|name: Seq<char>|
                        name != "id"@ && name != "params"@ ==> #[trigger] field(asked, name)
                            == field(message, name)
                }
            &&& turn.state.metadata_sequence == state.metadata_sequence + 1
            &&& exists|i: int|
                {
                    &&& 0 <= i < turn.state.lookups.len()
                    &&& (#[trigger] turn.state.lookups[i]).metadata_id == id
                    &&& Some(turn.state.lookups[i].client_id) == field(message, "id"@)
                    &&& Ok::<JsonView, Seq<char>>(turn.state.lookups[i].local_request) == rewritten(
                        message,
                        state.environment,
                    )
                    &&& turn.state.lookups[i].started_at == now
                    &&& !turn.state.lookups[i].local_sent
                    &&& turn.state.lookups[i].host_response is None
                    &&& turn.state.lookups[i].instruction_paths.len() == 0
                    &&& turn.state.lookups[i].instruction_contents.len() == 0
                    &&& turn.state.lookups[i].reads.len() == 0
                }
        }),
{
    lemma_message_names();
    lemma_not_the_hosts();
    law_threads_start_where_they_say(message, state.environment);
    law_rewriting_keeps_other_fields(message, state.environment);
    let value = rewritten(message, state.environment)->Ok_0;
    let noted = RelayView {
        initialize_id: initialize_id_after(message, state.initialize_id),
        ..state
    };
    assert(noted == state);
    assert(method_of(value) == Some("thread/start"@));
    assert(field(value, "id"@) == field(message, "id"@));
    let id = metadata_id(state.environment, (state.metadata_sequence + 1) as u64);
    let said = "cxs/"@ + state.environment + "/thread-metadata/"@ + decimal(
        (state.metadata_sequence + 1) as nat,
    );
    reveal_strlit("/");
    reveal_strlit("thread-metadata/");
    reveal_strlit("/thread-metadata/");
    assert("/"@ + "thread-metadata/"@ =~= "/thread-metadata/"@);
    assert(id =~= said);
    let object = value->Object_0;
    let asked = shadow_request(object, id)->Ok_0;
    let first = deliver_turn(state, value, now);
    assert(first.actions == seq![ActionView::ToHost(json_text(asked))]);
    assert(first.actions[0] == ActionView::ToHost(json_text(asked)));
    let lookup = new_lookup(id, field(message, "id"@)->Some_0, value, now);
    lemma_with_lookup(state.lookups, lookup);
    lemma_settled(first.state, first.actions, now);
    let turn = client_turn(state, message, now);
    assert forall|name: Seq<char>|
        name != "ephemeral"@ && name != "environments"@ implies #[trigger] nested(
        asked,
        "params"@,
        name,
    ) == nested(message, "params"@, name) by {
        assert(nested(value, "params"@, name) == nested(message, "params"@, name));
    }
    assert forall|name: Seq<char>| name != "id"@ && name != "params"@ implies #[trigger] field(
        asked,
        name,
    ) == field(message, name) by {
        assert(field(value, name) == field(message, name));
    }
}

/// A lookup stands where it was put.
proof fn lemma_with_lookup(lookups: Seq<LookupView>, lookup: LookupView)
    ensures
        exists|i: int|
            0 <= i < with_lookup(lookups, lookup).len() && #[trigger] with_lookup(
                lookups,
                lookup,
            )[i] == lookup,
{
    let i = lookup_index(lookups, lookup.metadata_id);
    let after = with_lookup(lookups, lookup);
    if i < lookups.len() {
        assert(after[i as int] == lookup);
    } else {
        assert(after[lookups.len() as int] == lookup);
    }
}

/// A client that initializes reaches both App Servers. The host gets what the
/// local one gets, under an id of the bridge's own.
pub proof fn law_initialize_goes_to_both(state: RelayView, message: JsonView, now: u64)
    requires
        is_settled(state),
        text_of(field(message, "method"@)) == Some("initialize"@),
        rewritten(message, state.environment) is Ok,
    ensures
        ({
            let turn = client_turn(state, message, now);
            let value = rewritten(message, state.environment)->Ok_0;
            &&& turn.outcome is Ok
            &&& turn.state == (RelayView { initialize_id: field(message, "id"@), ..state })
            &&& turn.actions.len() == 2
            &&& turn.actions[1] == ActionView::ToServer(json_text(value))
            &&& exists|other: JsonView|
                {
                    &&& turn.actions[0] == ActionView::ToHost(#[trigger] json_text(other))
                    &&& field(other, "id"@) == Some(
                        JsonView::Text("cxs/"@ + state.environment + "/host-initialize"@),
                    )
                    &&& forall|name: Seq<char>|
                        name != "id"@ ==> #[trigger] field(other, name) == field(value, name)
                }
        }),
{
    lemma_message_names();
    law_rewriting_keeps_other_fields(message, state.environment);
    let value = rewritten(message, state.environment)->Ok_0;
    let noted = RelayView { initialize_id: field(message, "id"@), ..state };
    assert(noted == RelayView {
        initialize_id: initialize_id_after(message, state.initialize_id),
        ..state
    });
    assert(method_of(value) == Some("initialize"@));
    let id = internal_id(state.environment, "host-initialize"@);
    reveal_strlit("/");
    reveal_strlit("host-initialize");
    reveal_strlit("/host-initialize");
    assert("/"@ + "host-initialize"@ =~= "/host-initialize"@);
    assert(id =~= "cxs/"@ + state.environment + "/host-initialize"@);
    let other = JsonView::Object(value->Object_0.insert("id"@, JsonView::Text(id)));
    let first = deliver_turn(noted, value, now);
    assert(first.actions == seq![
        ActionView::ToHost(json_text(other)),
        ActionView::ToServer(json_text(value)),
    ]);
    lemma_settled(noted, first.actions, now);
    let turn = client_turn(state, message, now);
    assert(turn.actions[0] == ActionView::ToHost(json_text(other)));
}

/// What the client sends before the relay is open waits, as long as no more
/// than 32 MiB wait; beyond that the relay stops, and nothing goes anywhere.
pub proof fn law_how_much_may_wait(state: RelayView, message: JsonView, now: u64)
    requires
        is_settled(state),
        must_wait(state),
        text_of(field(message, "method"@)) != Some("initialize"@),
        rewritten(message, state.environment) is Ok,
    ensures
        ({
            let turn = client_turn(state, message, now);
            let text = json_text(rewritten(message, state.environment)->Ok_0);
            let bytes = queued_bytes(state.queue) + encode_utf8(text).len();
            &&& turn.outcome is Ok <==> !(bytes > 32 * 1024 * 1024)
            &&& turn.actions.len() == 0
            &&& turn.outcome is Ok ==> queued_bytes(turn.state.queue) == bytes
            &&& turn.outcome is Ok ==> turn.state.queue.len() == state.queue.len() + 1
                && turn.state.queue.last().text == text
        }),
{
    lemma_message_names();
    law_rewriting_keeps_other_fields(message, state.environment);
    let value = rewritten(message, state.environment)->Ok_0;
    let noted = RelayView {
        initialize_id: initialize_id_after(message, state.initialize_id),
        ..state
    };
    assert(noted == state);
    let first = deliver_turn(state, value, now);
    if first.outcome is Ok {
        lemma_settled(first.state, first.actions, now);
        lemma_queued_bytes(state.queue, first.state.queue.last());
    }
}

proof fn lemma_queued_bytes(queue: Seq<QueuedView>, last: QueuedView)
    ensures
        queued_bytes(queue.push(last)) == queued_bytes(queue) + encode_utf8(last.text).len(),
    decreases queue.len(),
{
    if queue.len() == 0 {
        let one = queue.push(last);
        assert(one.skip(1) =~= Seq::empty());
        assert(one[0] == last);
        assert(queued_bytes(one.skip(1)) == 0);
    } else {
        assert(queue.push(last).skip(1) =~= queue.skip(1).push(last));
        assert(queue.push(last)[0] == queue[0]);
        lemma_queued_bytes(queue.skip(1), last);
    }
}

// ---------------------------------------------------------------------------
// Messages of the local App Server
// ---------------------------------------------------------------------------

/// A message replies to a request when it bears its id.
pub proof fn law_replies_bear_the_id(message: JsonView, text: Seq<char>, number: int)
    ensures
        replies_to(message, JsonView::Text(text)) <==> field(message, "id"@) == Some(
            JsonView::Text(text),
        ),
        field(message, "id"@) == Some(JsonView::Number(NumberView::Integer(number))) ==> replies_to(
            message,
            JsonView::Number(NumberView::Integer(number)),
        ),
        field(message, "id"@) is None ==> !replies_to(message, JsonView::Text(text)),
{
}

/// Once the local App Server has initialized, it is asked to add the remote
/// environment. The client learns of it once the host has initialized too.
pub proof fn law_the_environment_is_added_next(
    state: RelayView,
    id: Seq<char>,
    message: JsonView,
    now: u64,
)
    requires
        is_settled(state),
        !state.environment_requested,
        !state.initialize_answered,
        state.initialize_id == Some(JsonView::Text(id)),
        field(message, "id"@) == Some(JsonView::Text(id)),
        id != "cxs/"@ + state.environment + "/environment-add"@,
        id != "cxs/"@ + state.environment + "/environment-status"@,
        !state.environment_ready,
    ensures
        field(message, "error"@) is Some ==> server_turn(state, message, now).outcome is Err
            && server_turn(state, message, now).actions.len() == 0,
        field(message, "error"@) is None && state.host_initialize is None ==> server_turn(
            state,
            message,
            now,
        ) == goes_on(
            (RelayView { local_initialize: Some(message), environment_requested: true, ..state }),
            seq![
                ActionView::ToServer(
                    json_text(environment_add(state.environment, state.exec_port)),
                ),
            ],
        ),
        field(message, "error"@) is None && (state.host_initialize matches Some(host)
            && merged_initialize(message, host, state.remote_home) is Ok) ==> server_turn(
            state,
            message,
            now,
        ) == goes_on(
            (RelayView {
                local_initialize: None,
                initialize_answered: true,
                environment_requested: true,
                ..state
            }),
            seq![
                ActionView::ToServer(
                    json_text(environment_add(state.environment, state.exec_port)),
                ),
                ActionView::ToClient(
                    json_text(
                        merged_initialize(
                            message,
                            state.host_initialize->Some_0,
                            state.remote_home,
                        )->Ok_0,
                    ),
                ),
            ],
        ),
{
    lemma_internal_ids(state.environment);
    assert(is_initialize_reply(state, message));
    let first = initialized_turn(state, message);
    if field(message, "error"@) is None {
        if state.host_initialize is None {
            lemma_settled(first.state, first.actions, now);
        } else {
            let merged = merged_initialize(
                message,
                state.host_initialize->Some_0,
                state.remote_home,
            );
            if merged is Ok {
                let last = seq![ActionView::ToClient(json_text(merged->Ok_0))];
                assert(last + Seq::<ActionView>::empty() =~= last);
                assert(first.actions + last =~= seq![first.actions[0], last[0]]);
            }
        }
    }
}

proof fn lemma_internal_ids(environment: Seq<char>)
    ensures
        internal_id(environment, "environment-add"@) == "cxs/"@ + environment
            + "/environment-add"@,
        internal_id(environment, "environment-status"@) == "cxs/"@ + environment
            + "/environment-status"@,
        internal_id(environment, "host-initialize"@) == "cxs/"@ + environment
            + "/host-initialize"@,
{
    reveal_strlit("/");
    reveal_strlit("environment-add");
    reveal_strlit("/environment-add");
    reveal_strlit("environment-status");
    reveal_strlit("/environment-status");
    reveal_strlit("host-initialize");
    reveal_strlit("/host-initialize");
    assert(internal_id(environment, "environment-add"@) =~= "cxs/"@ + environment
        + "/environment-add"@);
    assert(internal_id(environment, "environment-status"@) =~= "cxs/"@ + environment
        + "/environment-status"@);
    assert(internal_id(environment, "host-initialize"@) =~= "cxs/"@ + environment
        + "/host-initialize"@);
}

/// Once the environment is added, its state is asked for; where it could not
/// be added, the relay stops.
pub proof fn law_the_state_is_asked_for_next(state: RelayView, message: JsonView, now: u64)
    requires
        field(message, "id"@) == Some(
            JsonView::Text("cxs/"@ + state.environment + "/environment-add"@),
        ),
    ensures
        field(message, "error"@) is Some ==> server_turn(state, message, now).outcome is Err,
        field(message, "error"@) is None ==> server_turn(state, message, now) == goes_on(
            (RelayView { status_attempts: 1, ..state }),
            seq![
                ActionView::ToServer(
                    json_text(
                        environment_status(
                            "cxs/"@ + state.environment + "/environment-status"@,
                            state.environment,
                        ),
                    ),
                ),
            ],
        ),
{
    lemma_internal_ids(state.environment);
}

/// While the environment is not ready its state is asked for again, 50
/// milliseconds later, up to 200 times in all; then the relay stops. Once it is
/// ready, it stays so.
pub proof fn law_the_state_is_asked_for_again(state: RelayView, message: JsonView, now: u64)
    requires
        field(message, "id"@) == Some(
            JsonView::Text("cxs/"@ + state.environment + "/environment-status"@),
        ),
        field(message, "error"@) is None,
        text_of(nested(message, "result"@, "status"@)) is Some,
    ensures
        ({
            let turn = server_turn(state, message, now);
            let ready = nested(message, "result"@, "status"@) == Some(JsonView::Text("ready"@));
            &&& !ready && state.status_attempts >= 200 ==> turn.outcome is Err && turn.actions.len()
                == 0
            &&& !ready && state.status_attempts < 200 ==> turn == goes_on(
                (RelayView { status_attempts: (state.status_attempts + 1) as u16, ..state }),
                seq![
                    ActionView::Pause(50),
                    ActionView::ToServer(
                        json_text(
                            environment_status(
                                "cxs/"@ + state.environment + "/environment-status"@,
                                state.environment,
                            ),
                        ),
                    ),
                ],
            )
            &&& ready && !state.initialize_answered ==> turn == goes_on(
                (RelayView { environment_ready: true, ..state }),
                Seq::empty(),
            )
            &&& ready && state.initialize_answered ==> turn == flush_turn(
                (RelayView { environment_ready: true, ..state }),
                now,
            )
        }),
{
    lemma_internal_ids(state.environment);
    reveal_strlit("environment-add");
    reveal_strlit("environment-status");
    reveal_strlit("/environment-add");
    reveal_strlit("/environment-status");
    let a = "cxs/"@ + state.environment + "/environment-add"@;
    let b = "cxs/"@ + state.environment + "/environment-status"@;
    assert(a.len() + 3 == b.len());
}

/// Where the first thread stands that a message replies to.
proof fn lemma_reply_index(lookups: Seq<LookupView>, message: JsonView)
    ensures
        reply_index(lookups, message) <= lookups.len(),
        reply_index(lookups, message) < lookups.len() ==> lookups[reply_index(
            lookups,
            message,
        ) as int].local_sent && replies_to(
            message,
            lookups[reply_index(lookups, message) as int].client_id,
        ),
        forall|i: int|
            0 <= i < reply_index(lookups, message) && i < lookups.len()
                && #[trigger] lookups[i].local_sent ==> !replies_to(message, lookups[i].client_id),
    decreases lookups.len(),
{
    if lookups.len() > 0 && !(lookups[0].local_sent && replies_to(message, lookups[0].client_id)) {
        let rest = lookups.skip(1);
        lemma_reply_index(rest, message);
        assert forall|i: int|
            0 <= i < reply_index(lookups, message) && i < lookups.len()
                && #[trigger] lookups[i].local_sent implies !replies_to(
            message,
            lookups[i].client_id,
        ) by {
            if i > 0 {
                assert(rest[i - 1] == lookups[i]);
            }
        }
    }
}

/// The reply to a thread that started reaches the client once, with what the
/// host knows of the project, and the thread is waited for no longer.
pub proof fn law_started_threads_are_answered(
    state: RelayView,
    index: int,
    message: JsonView,
    now: u64,
)
    requires
        is_settled(state),
        0 <= index < state.lookups.len(),
        state.lookups[index].local_sent,
        replies_to(message, state.lookups[index].client_id),
        forall|i: int|
            0 <= i < index && #[trigger] state.lookups[i].local_sent ==> !replies_to(
                message,
                state.lookups[i].client_id,
            ),
        !is_initialize_reply(state, message),
        text_of(field(message, "id"@)) != Some(
            "cxs/"@ + state.environment + "/environment-add"@,
        ),
        text_of(field(message, "id"@)) != Some(
            "cxs/"@ + state.environment + "/environment-status"@,
        ),
    ensures
        ({
            let rest = RelayView { lookups: state.lookups.remove(index), ..state };
            match state.lookups[index].host_response {
                None => server_turn(state, message, now) == goes_on(
                    rest,
                    seq![ActionView::ToClient(json_text(message))],
                ),
                Some(host) => match merged_thread(message, host) {
                    Ok(merged) => server_turn(state, message, now) == goes_on(
                        rest,
                        seq![ActionView::ToClient(json_text(merged))],
                    ),
                    Err(_) => server_turn(state, message, now).outcome is Err,
                },
            }
        }),
{
    lemma_internal_ids(state.environment);
    lemma_reply_index(state.lookups, message);
    let found = reply_index(state.lookups, message) as int;
    if found < index {
        assert(state.lookups[found].local_sent);
    }
    if index < found {
        assert(state.lookups[index].local_sent);
    }
    assert(found == index);
    let first = started_turn(state, index, message);
    if first.outcome is Ok {
        lemma_settled(first.state, first.actions, now);
    }
}

/// Whatever else the local App Server says goes to the client as it came.
pub proof fn law_the_server_speaks_to_the_client(state: RelayView, message: JsonView, now: u64)
    requires
        is_settled(state),
        !is_initialize_reply(state, message),
        forall|i: int|
            0 <= i < state.lookups.len() && #[trigger] state.lookups[i].local_sent ==> !replies_to(
                message,
                state.lookups[i].client_id,
            ),
        text_of(field(message, "id"@)) != Some(
            "cxs/"@ + state.environment + "/environment-add"@,
        ),
        text_of(field(message, "id"@)) != Some(
            "cxs/"@ + state.environment + "/environment-status"@,
        ),
    ensures
        server_turn(state, message, now) == goes_on(state, seq![ActionView::PassToClient]),
{
    lemma_internal_ids(state.environment);
    lemma_reply_index(state.lookups, message);
    let found = reply_index(state.lookups, message) as int;
    if found < state.lookups.len() {
        assert(state.lookups[found].local_sent);
    }
    lemma_settled(state, seq![ActionView::PassToClient], now);
}

} // verus!
