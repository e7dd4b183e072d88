//! Who answers what, method by method, and where the relay sends it.

use vstd::prelude::*;
use crate::bridge::initialize_id_after;
use crate::json::{JsonView, field, json_text, text_of};
use crate::relay_laws::is_settled;
use crate::relay_model::{
    ActionView, QueuedView, RelayView, RequestRoute, client_turn, deliver_turn, flush_turn, goes_on,
    must_wait, queued_bytes, route_of, settle_turn,
};
use crate::rewriting_laws::law_other_messages_pass;
use crate::routing::{
    host_notification_methods, host_request_methods, required_initialize_fields,
};
use vstd::utf8::*;

verus! {

/// What concerns the files, the processes and the commands of the project is
/// answered by the remote host, method by method.
pub proof fn law_the_host_answers_for_its_files_and_processes()
    ensures
        route_of(Some("command/exec"@)) == RequestRoute::Host,
        route_of(Some("command/exec/resize"@)) == RequestRoute::Host,
        route_of(Some("command/exec/terminate"@)) == RequestRoute::Host,
        route_of(Some("command/exec/write"@)) == RequestRoute::Host,
        route_of(Some("fs/copy"@)) == RequestRoute::Host,
        route_of(Some("fs/createDirectory"@)) == RequestRoute::Host,
        route_of(Some("fs/getMetadata"@)) == RequestRoute::Host,
        route_of(Some("fs/readDirectory"@)) == RequestRoute::Host,
        route_of(Some("fs/readFile"@)) == RequestRoute::Host,
        route_of(Some("fs/remove"@)) == RequestRoute::Host,
        route_of(Some("fs/unwatch"@)) == RequestRoute::Host,
        route_of(Some("fs/watch"@)) == RequestRoute::Host,
        route_of(Some("fs/writeFile"@)) == RequestRoute::Host,
        route_of(Some("fuzzyFileSearch"@)) == RequestRoute::Host,
        route_of(Some("fuzzyFileSearch/sessionStart"@)) == RequestRoute::Host,
        route_of(Some("fuzzyFileSearch/sessionStop"@)) == RequestRoute::Host,
        route_of(Some("fuzzyFileSearch/sessionUpdate"@)) == RequestRoute::Host,
        route_of(Some("process/kill"@)) == RequestRoute::Host,
        route_of(Some("process/resizePty"@)) == RequestRoute::Host,
        route_of(Some("process/spawn"@)) == RequestRoute::Host,
        route_of(Some("process/writeStdin"@)) == RequestRoute::Host,
{
    lemma_no_thread_among_them();
    let methods = host_request_methods();
    assert(methods[0] == "command/exec"@);
    assert(methods[1] == "command/exec/resize"@);
    assert(methods[2] == "command/exec/terminate"@);
    assert(methods[3] == "command/exec/write"@);
    assert(methods[4] == "fs/copy"@);
    assert(methods[5] == "fs/createDirectory"@);
    assert(methods[6] == "fs/getMetadata"@);
    assert(methods[7] == "fs/readDirectory"@);
    assert(methods[8] == "fs/readFile"@);
    assert(methods[9] == "fs/remove"@);
    assert(methods[10] == "fs/unwatch"@);
    assert(methods[11] == "fs/watch"@);
    assert(methods[12] == "fs/writeFile"@);
    assert(methods[13] == "fuzzyFileSearch"@);
    assert(methods[14] == "fuzzyFileSearch/sessionStart"@);
    assert(methods[15] == "fuzzyFileSearch/sessionStop"@);
    assert(methods[16] == "fuzzyFileSearch/sessionUpdate"@);
    assert(methods[17] == "process/kill"@);
    assert(methods[18] == "process/resizePty"@);
    assert(methods[19] == "process/spawn"@);
    assert(methods[20] == "process/writeStdin"@);
}

/// None of the host's methods is one that the bridge rewrites.
proof fn lemma_no_thread_among_them()
    ensures
        "command/exec"@ != "thread/start"@,
        "command/exec"@ != "initialize"@,
        "command/exec"@ != "turn/start"@,
        "command/exec/resize"@ != "thread/start"@,
        "command/exec/resize"@ != "initialize"@,
        "command/exec/resize"@ != "turn/start"@,
        "command/exec/terminate"@ != "thread/start"@,
        "command/exec/terminate"@ != "initialize"@,
        "command/exec/terminate"@ != "turn/start"@,
        "command/exec/write"@ != "thread/start"@,
        "command/exec/write"@ != "initialize"@,
        "command/exec/write"@ != "turn/start"@,
        "fs/copy"@ != "thread/start"@,
        "fs/copy"@ != "initialize"@,
        "fs/copy"@ != "turn/start"@,
        "fs/createDirectory"@ != "thread/start"@,
        "fs/createDirectory"@ != "initialize"@,
        "fs/createDirectory"@ != "turn/start"@,
        "fs/getMetadata"@ != "thread/start"@,
        "fs/getMetadata"@ != "initialize"@,
        "fs/getMetadata"@ != "turn/start"@,
        "fs/readDirectory"@ != "thread/start"@,
        "fs/readDirectory"@ != "initialize"@,
        "fs/readDirectory"@ != "turn/start"@,
        "fs/readFile"@ != "thread/start"@,
        "fs/readFile"@ != "initialize"@,
        "fs/readFile"@ != "turn/start"@,
        "fs/remove"@ != "thread/start"@,
        "fs/remove"@ != "initialize"@,
        "fs/remove"@ != "turn/start"@,
        "fs/unwatch"@ != "thread/start"@,
        "fs/unwatch"@ != "initialize"@,
        "fs/unwatch"@ != "turn/start"@,
        "fs/watch"@ != "thread/start"@,
        "fs/watch"@ != "initialize"@,
        "fs/watch"@ != "turn/start"@,
        "fs/writeFile"@ != "thread/start"@,
        "fs/writeFile"@ != "initialize"@,
        "fs/writeFile"@ != "turn/start"@,
        "fuzzyFileSearch"@ != "thread/start"@,
        "fuzzyFileSearch"@ != "initialize"@,
        "fuzzyFileSearch"@ != "turn/start"@,
        "fuzzyFileSearch/sessionStart"@ != "thread/start"@,
        "fuzzyFileSearch/sessionStart"@ != "initialize"@,
        "fuzzyFileSearch/sessionStart"@ != "turn/start"@,
        "fuzzyFileSearch/sessionStop"@ != "thread/start"@,
        "fuzzyFileSearch/sessionStop"@ != "initialize"@,
        "fuzzyFileSearch/sessionStop"@ != "turn/start"@,
        "fuzzyFileSearch/sessionUpdate"@ != "thread/start"@,
        "fuzzyFileSearch/sessionUpdate"@ != "initialize"@,
        "fuzzyFileSearch/sessionUpdate"@ != "turn/start"@,
        "process/kill"@ != "thread/start"@,
        "process/kill"@ != "initialize"@,
        "process/kill"@ != "turn/start"@,
        "process/resizePty"@ != "thread/start"@,
        "process/resizePty"@ != "initialize"@,
        "process/resizePty"@ != "turn/start"@,
        "process/spawn"@ != "thread/start"@,
        "process/spawn"@ != "initialize"@,
        "process/spawn"@ != "turn/start"@,
        "process/writeStdin"@ != "thread/start"@,
        "process/writeStdin"@ != "initialize"@,
        "process/writeStdin"@ != "turn/start"@,
{
    reveal_strlit("command/exec");
    reveal_strlit("command/exec/resize");
    reveal_strlit("command/exec/terminate");
    reveal_strlit("command/exec/write");
    reveal_strlit("fs/copy");
    reveal_strlit("fs/createDirectory");
    reveal_strlit("fs/getMetadata");
    reveal_strlit("fs/readDirectory");
    reveal_strlit("fs/readFile");
    reveal_strlit("fs/remove");
    reveal_strlit("fs/unwatch");
    reveal_strlit("fs/watch");
    reveal_strlit("fs/writeFile");
    reveal_strlit("fuzzyFileSearch");
    reveal_strlit("fuzzyFileSearch/sessionStart");
    reveal_strlit("fuzzyFileSearch/sessionStop");
    reveal_strlit("fuzzyFileSearch/sessionUpdate");
    reveal_strlit("process/kill");
    reveal_strlit("process/resizePty");
    reveal_strlit("process/spawn");
    reveal_strlit("process/writeStdin");
    reveal_strlit("thread/start");
    reveal_strlit("initialize");
    reveal_strlit("turn/start");
    assert("thread/start"@[0] == 't' && "initialize"@[0] == 'i' && "turn/start"@[0] == 't');
    assert("command/exec"@[0] == 'c');
    assert("command/exec/resize"@[0] == 'c');
    assert("command/exec/terminate"@[0] == 'c');
    assert("command/exec/write"@[0] == 'c');
    assert("fs/copy"@[0] == 'f');
    assert("fs/createDirectory"@[0] == 'f');
    assert("fs/getMetadata"@[0] == 'f');
    assert("fs/readDirectory"@[0] == 'f');
    assert("fs/readFile"@[0] == 'f');
    assert("fs/remove"@[0] == 'f');
    assert("fs/unwatch"@[0] == 'f');
    assert("fs/watch"@[0] == 'f');
    assert("fs/writeFile"@[0] == 'f');
    assert("fuzzyFileSearch"@[0] == 'f');
    assert("fuzzyFileSearch/sessionStart"@[0] == 'f');
    assert("fuzzyFileSearch/sessionStop"@[0] == 'f');
    assert("fuzzyFileSearch/sessionUpdate"@[0] == 'f');
    assert("process/kill"@[0] == 'p');
    assert("process/resizePty"@[0] == 'p');
    assert("process/spawn"@[0] == 'p');
    assert("process/writeStdin"@[0] == 'p');
}

/// The host answers nothing else: a request goes to it only where it is one of
/// these, and a method that it does not own stays local.
pub proof fn law_the_host_answers_nothing_else(method: Option<Seq<char>>)
    ensures
        route_of(method) == RequestRoute::Host ==> (method matches Some(method) && {
            ||| method == "command/exec"@
            ||| method == "command/exec/resize"@
            ||| method == "command/exec/terminate"@
            ||| method == "command/exec/write"@
            ||| method == "fs/copy"@
            ||| method == "fs/createDirectory"@
            ||| method == "fs/getMetadata"@
            ||| method == "fs/readDirectory"@
            ||| method == "fs/readFile"@
            ||| method == "fs/remove"@
            ||| method == "fs/unwatch"@
            ||| method == "fs/watch"@
            ||| method == "fs/writeFile"@
            ||| method == "fuzzyFileSearch"@
            ||| method == "fuzzyFileSearch/sessionStart"@
            ||| method == "fuzzyFileSearch/sessionStop"@
            ||| method == "fuzzyFileSearch/sessionUpdate"@
            ||| method == "process/kill"@
            ||| method == "process/resizePty"@
            ||| method == "process/spawn"@
            ||| method == "process/writeStdin"@
        }),
        route_of(method) == RequestRoute::ThreadStart <==> method == Some("thread/start"@),
        method is None ==> route_of(method) == RequestRoute::Local,
{
    if let Some(method) = method {
        if host_request_methods().contains(method) {
            let i = host_request_methods().index_of(method);
            assert(host_request_methods()[i] == method);
        }
    }
}

/// The host owns these methods, and no others.
pub proof fn law_the_hosts_methods(method: Seq<char>)
    ensures
        host_request_methods().contains(method) <==> {
            ||| method == "command/exec"@
            ||| method == "command/exec/resize"@
            ||| method == "command/exec/terminate"@
            ||| method == "command/exec/write"@
            ||| method == "fs/copy"@
            ||| method == "fs/createDirectory"@
            ||| method == "fs/getMetadata"@
            ||| method == "fs/readDirectory"@
            ||| method == "fs/readFile"@
            ||| method == "fs/remove"@
            ||| method == "fs/unwatch"@
            ||| method == "fs/watch"@
            ||| method == "fs/writeFile"@
            ||| method == "fuzzyFileSearch"@
            ||| method == "fuzzyFileSearch/sessionStart"@
            ||| method == "fuzzyFileSearch/sessionStop"@
            ||| method == "fuzzyFileSearch/sessionUpdate"@
            ||| method == "process/kill"@
            ||| method == "process/resizePty"@
            ||| method == "process/spawn"@
            ||| method == "process/writeStdin"@
        },
{
    let methods = host_request_methods();
    assert(methods[0] == "command/exec"@);
    assert(methods[1] == "command/exec/resize"@);
    assert(methods[2] == "command/exec/terminate"@);
    assert(methods[3] == "command/exec/write"@);
    assert(methods[4] == "fs/copy"@);
    assert(methods[5] == "fs/createDirectory"@);
    assert(methods[6] == "fs/getMetadata"@);
    assert(methods[7] == "fs/readDirectory"@);
    assert(methods[8] == "fs/readFile"@);
    assert(methods[9] == "fs/remove"@);
    assert(methods[10] == "fs/unwatch"@);
    assert(methods[11] == "fs/watch"@);
    assert(methods[12] == "fs/writeFile"@);
    assert(methods[13] == "fuzzyFileSearch"@);
    assert(methods[14] == "fuzzyFileSearch/sessionStart"@);
    assert(methods[15] == "fuzzyFileSearch/sessionStop"@);
    assert(methods[16] == "fuzzyFileSearch/sessionUpdate"@);
    assert(methods[17] == "process/kill"@);
    assert(methods[18] == "process/resizePty"@);
    assert(methods[19] == "process/spawn"@);
    assert(methods[20] == "process/writeStdin"@);
    if methods.contains(method) {
        let i = methods.index_of(method);
        assert(methods[i] == method);
    }
}

/// The host may tell the client of these, and of nothing else.
pub proof fn law_the_host_tells_of_its_files_and_processes(method: Seq<char>)
    ensures
        host_notification_methods().contains(method) <==> {
            ||| method == "command/exec/outputDelta"@
            ||| method == "fs/changed"@
            ||| method == "fuzzyFileSearch/sessionCompleted"@
            ||| method == "fuzzyFileSearch/sessionUpdated"@
            ||| method == "process/exited"@
            ||| method == "process/outputDelta"@
        },
{
    let methods = host_notification_methods();
    assert(methods[0] == "command/exec/outputDelta"@);
    assert(methods[1] == "fs/changed"@);
    assert(methods[2] == "fuzzyFileSearch/sessionCompleted"@);
    assert(methods[3] == "fuzzyFileSearch/sessionUpdated"@);
    assert(methods[4] == "process/exited"@);
    assert(methods[5] == "process/outputDelta"@);
    if methods.contains(method) {
        let i = methods.index_of(method);
        assert(methods[i] == method);
    }
}

/// Which host answers is told by these fields of the reply to initialize, and
/// by no others.
pub proof fn law_the_identity_of_a_host(name: Seq<char>)
    ensures
        required_initialize_fields().contains(name) <==> {
            ||| name == "userAgent"@
            ||| name == "codexHome"@
            ||| name == "platformFamily"@
            ||| name == "platformOs"@
        },
{
    let names = required_initialize_fields();
    assert(names[0] == "userAgent"@ && names[1] == "codexHome"@ && names[2] == "platformFamily"@
        && names[3] == "platformOs"@);
    if names.contains(name) {
        let i = names.index_of(name);
        assert(names[i] == name);
    }
}

/// A request about the host's files and processes reaches the host as the
/// client wrote it, and reaches nobody else: the local App Server never sees
/// it. While the relay is not open it waits, marked for the host.
pub proof fn law_host_requests_reach_the_host_alone(
    state: RelayView,
    message: JsonView,
    method: Seq<char>,
    now: u64,
)
    requires
        is_settled(state),
        text_of(field(message, "method"@)) == Some(method),
        ({
            ||| method == "command/exec"@
            ||| method == "command/exec/resize"@
            ||| method == "command/exec/terminate"@
            ||| method == "command/exec/write"@
            ||| method == "fs/copy"@
            ||| method == "fs/createDirectory"@
            ||| method == "fs/getMetadata"@
            ||| method == "fs/readDirectory"@
            ||| method == "fs/readFile"@
            ||| method == "fs/remove"@
            ||| method == "fs/unwatch"@
            ||| method == "fs/watch"@
            ||| method == "fs/writeFile"@
            ||| method == "fuzzyFileSearch"@
            ||| method == "fuzzyFileSearch/sessionStart"@
            ||| method == "fuzzyFileSearch/sessionStop"@
            ||| method == "fuzzyFileSearch/sessionUpdate"@
            ||| method == "process/kill"@
            ||| method == "process/resizePty"@
            ||| method == "process/spawn"@
            ||| method == "process/writeStdin"@
        }),
    ensures
        !must_wait(state) ==> client_turn(state, message, now) == goes_on(
            state,
            seq![ActionView::ToHost(json_text(message))],
        ),
        must_wait(state) && !(queued_bytes(state.queue) + encode_utf8(json_text(message)).len()
            > 33_554_432) ==> client_turn(state, message, now) == goes_on(
            (RelayView {
                queue: state.queue.push(
                    (QueuedView { text: json_text(message), message, route: RequestRoute::Host }),
                ),
                ..state
            }),
            Seq::empty(),
        ),
{
    lemma_no_thread_among_them();
    law_the_host_answers_for_its_files_and_processes();
    law_other_messages_pass(message, state.environment, state.initialize_id);
    let noted = RelayView {
        initialize_id: initialize_id_after(message, state.initialize_id),
        ..state
    };
    assert(noted == state);
    let first = deliver_turn(state, message, now);
    lemma_nothing_to_settle(first.state, now);
    assert(first.actions + Seq::<ActionView>::empty() =~= first.actions);
}

proof fn lemma_nothing_to_settle(state: RelayView, now: u64)
    requires
        is_settled(state),
    ensures
        settle_turn(state, now) == goes_on(state, Seq::<ActionView>::empty()),
{
    if state.environment_ready && state.initialize_answered {
        assert(flush_turn(state, now) == goes_on(state, Seq::<ActionView>::empty()));
    }
}

/// What neither the host owns nor the bridge rewrites reaches the local App
/// Server as the client wrote it, and reaches nobody else.
pub proof fn law_other_requests_stay_local(
    state: RelayView,
    message: JsonView,
    method: Seq<char>,
    now: u64,
)
    requires
        is_settled(state),
        !must_wait(state),
        text_of(field(message, "method"@)) == Some(method),
        !({
            ||| method == "thread/start"@
            ||| method == "initialize"@
            ||| method == "turn/start"@
            ||| method == "command/exec"@
            ||| method == "command/exec/resize"@
            ||| method == "command/exec/terminate"@
            ||| method == "command/exec/write"@
            ||| method == "fs/copy"@
            ||| method == "fs/createDirectory"@
            ||| method == "fs/getMetadata"@
            ||| method == "fs/readDirectory"@
            ||| method == "fs/readFile"@
            ||| method == "fs/remove"@
            ||| method == "fs/unwatch"@
            ||| method == "fs/watch"@
            ||| method == "fs/writeFile"@
            ||| method == "fuzzyFileSearch"@
            ||| method == "fuzzyFileSearch/sessionStart"@
            ||| method == "fuzzyFileSearch/sessionStop"@
            ||| method == "fuzzyFileSearch/sessionUpdate"@
            ||| method == "process/kill"@
            ||| method == "process/resizePty"@
            ||| method == "process/spawn"@
            ||| method == "process/writeStdin"@
        }),
    ensures
        client_turn(state, message, now) == goes_on(
            state,
            seq![ActionView::ToServer(json_text(message))],
        ),
{
    law_the_host_answers_nothing_else(Some(method));
    law_other_messages_pass(message, state.environment, state.initialize_id);
    let noted = RelayView {
        initialize_id: initialize_id_after(message, state.initialize_id),
        ..state
    };
    assert(noted == state);
    let first = deliver_turn(state, message, now);
    lemma_nothing_to_settle(first.state, now);
    assert(first.actions + Seq::<ActionView>::empty() =~= first.actions);
}

/// So do the client's replies and whatever else has no method.
pub proof fn law_replies_of_the_client_stay_local(state: RelayView, message: JsonView, now: u64)
    requires
        is_settled(state),
        !must_wait(state),
        text_of(field(message, "method"@)) is None,
    ensures
        client_turn(state, message, now) == goes_on(
            state,
            seq![ActionView::ToServer(json_text(message))],
        ),
{
    law_other_messages_pass(message, state.environment, state.initialize_id);
    let noted = RelayView {
        initialize_id: initialize_id_after(message, state.initialize_id),
        ..state
    };
    assert(noted == state);
    let first = deliver_turn(state, message, now);
    lemma_nothing_to_settle(first.state, now);
    assert(first.actions + Seq::<ActionView>::empty() =~= first.actions);
}

} // verus!
