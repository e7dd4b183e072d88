//! What is read from the streams between the two ends, line by line and channel
//! by channel, and how long either waits for the other.

use vstd::prelude::*;
use vstd::utf8::*;
use crate::bridge::{environment_add, environment_status, internal_id, rewritten};
use crate::bridge_laws::law_rewriting_keeps_other_fields;
use crate::failure::Failure;
use crate::handshake::{
    HandshakeStep, LineStep, MAX_HANDSHAKE_BYTES, MAX_JSON_LINE_BYTES, handshake_step,
    lemma_before_newline, line_step, sendable,
};
use crate::json::{JsonView, field, json_text, nested, text_of};
use crate::jsonl::{
    JsonlTurn, JsonlView, initial_jsonl, line_bytes, line_client_turn, line_goes_on, line_performed,
    line_server_turn,
};
use crate::mux::{
    ChannelKind, MAX_CONNECTION_RECEIVE_WINDOW, MAX_STREAMS, STREAM_HEADER_BYTES, header_of,
    identified,
};
use crate::relay::{initial_relay, performed};
use crate::relay_model::{Action, ActionView, RelayView, Turn, action_views, replies_to};
use crate::waiting::{
    APP_SERVER_WAIT, BRIDGE_WAIT, CONTROL_SOCKET_WAIT, EXEC_SERVER_WAIT, StopAction, StopLimits,
    StopState, WaitAction, stopping, waiting,
};

verus! {

// ---------------------------------------------------------------------------
// Lines of bytes
// ---------------------------------------------------------------------------

/// A line is what stands before a newline, without a carriage return at its
/// end; it closes with the newline, which counts, and nothing behind it is
/// taken. Without a newline the line stays open.
pub proof fn law_what_a_line_is(line: Seq<u8>, more: Seq<u8>, rest: Seq<u8>, maximum: nat)
    requires
        forall|i: int| 0 <= i < more.len() ==> #[trigger] more[i] != 10,
    ensures
        ({
            let whole = line + more;
            &&& whole.len() <= maximum ==> line_step(line, more, maximum) == LineStep::Open(whole)
            &&& whole.len() > maximum ==> line_step(line, more, maximum) == LineStep::TooLong
            &&& whole.len() + 1 > maximum ==> line_step(line, more + seq![10u8] + rest, maximum)
                == LineStep::TooLong
            &&& whole.len() + 1 <= maximum && (whole.len() > 0 ==> whole.last() != 13) ==> line_step(
                line,
                more + seq![10u8] + rest,
                maximum,
            ) == LineStep::Closed(whole, more.len() + 1)
            &&& whole.len() + 1 <= maximum && whole.len() > 0 && whole.last() == 13 ==> line_step(
                line,
                more + seq![10u8] + rest,
                maximum,
            ) == LineStep::Closed(whole.drop_last(), more.len() + 1)
        }),
{
    lemma_before_newline(more, more.len());
    let piece = more + seq![10u8] + rest;
    assert forall|i: int| 0 <= i < more.len() implies #[trigger] piece[i] != 10 by {
        assert(piece[i] == more[i]);
    }
    assert(piece[more.len() as int] == 10);
    lemma_before_newline(piece, more.len());
    assert(piece.take(more.len() as int) =~= more);
}

/// A handshake ends at the newline, and has at most 8191 bytes before it.
pub proof fn law_how_a_handshake_is_read(read: Seq<u8>, byte: u8)
    ensures
        byte == 10 ==> handshake_step(read, byte) == HandshakeStep::Complete,
        byte != 10 && read.len() < 8191 ==> handshake_step(read, byte) == HandshakeStep::More(
            read.push(byte),
        ),
        byte != 10 && read.len() >= 8191 ==> handshake_step(read, byte) == HandshakeStep::TooLong,
        sendable(read) <==> read.len() < 8192,
{
}

/// How much goes over the streams at once.
pub proof fn law_sizes_of_streams()
    ensures
        MAX_HANDSHAKE_BYTES == 8 * 1024,
        MAX_JSON_LINE_BYTES == 16 * 1024 * 1024,
        STREAM_HEADER_BYTES == 5,
        MAX_STREAMS == 32,
        MAX_CONNECTION_RECEIVE_WINDOW == 32 * 1024 * 1024,
{
}

/// A channel starts with the letters `CXS2` and a number for what it carries:
/// 1 for the client, 2 for the Exec Server, 3 for the App Server of the host.
/// Every other start is refused.
pub proof fn law_what_channels_carry(header: Seq<u8>)
    requires
        header.len() == 5,
    ensures
        header_of(ChannelKind::App) == seq![67u8, 88u8, 83u8, 50u8, 1u8],
        header_of(ChannelKind::Exec) == seq![67u8, 88u8, 83u8, 50u8, 2u8],
        header_of(ChannelKind::Host) == seq![67u8, 88u8, 83u8, 50u8, 3u8],
        identified(header) is Ok <==> {
            &&& header[0] == 67 && header[1] == 88 && header[2] == 83 && header[3] == 50
            &&& header[4] == 1 || header[4] == 2 || header[4] == 3
        },
        identified(header) matches Ok(kind) ==> {
            &&& header[4] == 1 ==> kind == ChannelKind::App
            &&& header[4] == 2 ==> kind == ChannelKind::Exec
            &&& header[4] == 3 ==> kind == ChannelKind::Host
        },
        ChannelKind::App.name() == "App"@,
        ChannelKind::Exec.name() == "Exec"@,
        ChannelKind::Host.name() == "Host"@,
{
    let magic = seq![67u8, 88, 83, 50];
    let start = header.take(4);
    assert(start[0] == header[0] && start[1] == header[1] && start[2] == header[2] && start[3]
        == header[3]);
    if header[0] == 67 && header[1] == 88 && header[2] == 83 && header[3] == 50 {
        assert(start =~= magic);
    }
}

// ---------------------------------------------------------------------------
// Lines of JSON
// ---------------------------------------------------------------------------

proof fn lemma_line_ids(environment: Seq<char>)
    ensures
        internal_id(environment, "environment-add"@) == "cxs/"@ + environment
            + "/environment-add"@,
        internal_id(environment, "environment-status"@) == "cxs/"@ + environment
            + "/environment-status"@,
        internal_id(environment, "environment-add"@) != internal_id(
            environment,
            "environment-status"@,
        ),
{
    reveal_strlit("/");
    reveal_strlit("environment-add");
    reveal_strlit("/environment-add");
    reveal_strlit("environment-status");
    reveal_strlit("/environment-status");
    let a = "cxs/"@ + environment + "/environment-add"@;
    let b = "cxs/"@ + environment + "/environment-status"@;
    assert(internal_id(environment, "environment-add"@) =~= a);
    assert(internal_id(environment, "environment-status"@) =~= b);
    assert(a.len() + 3 == b.len());
}

/// A relay that has seen nothing knows nothing and has asked for nothing.
pub proof fn law_new_relays_know_nothing(
    environment: Seq<char>,
    port: u16,
    home: Option<Seq<char>>,
)
    ensures
        ({
            let state = initial_jsonl(environment, port);
            &&& state.environment == environment && state.exec_port == port
            &&& state.initialize_id is None
            &&& !state.environment_requested && !state.environment_ready
            &&& state.status_attempts == 0
            &&& state.queue.len() == 0
        }),
        ({
            let state = initial_relay(environment, port, home);
            &&& state.environment == environment && state.exec_port == port && state.remote_home
                == home
            &&& state.initialize_id is None
            &&& !state.environment_requested && !state.environment_ready
            &&& state.status_attempts == 0
            &&& state.local_initialize is None && state.host_initialize is None
            &&& !state.initialize_answered
            &&& state.queue.len() == 0
            &&& state.metadata_sequence == 0
            &&& state.lookups.len() == 0
        }),
{
}

/// A line of the client goes to the App Server, rewritten, once the environment
/// is ready, and before the client initializes. Else it waits, as long as no
/// more than 32 MiB wait.
pub proof fn law_where_lines_of_the_client_go(state: JsonlView, message: JsonView)
    requires
        rewritten(message, state.environment) is Ok,
        text_of(field(message, "method"@)) != Some("initialize"@),
    ensures
        ({
            let text = json_text(rewritten(message, state.environment)->Ok_0);
            let turn = line_client_turn(state, message);
            let bytes = line_bytes(state.queue) + encode_utf8(text).len();
            &&& state.environment_ready || state.initialize_id is None ==> turn == line_goes_on(
                state,
                seq![ActionView::ToServer(text)],
            )
            &&& !state.environment_ready && state.initialize_id is Some && !(bytes > 32 * 1024
                * 1024) ==> turn == line_goes_on(
                (JsonlView { queue: state.queue.push(text), ..state }),
                Seq::empty(),
            )
            &&& !state.environment_ready && state.initialize_id is Some && bytes > 32 * 1024 * 1024
                ==> turn.outcome is Err && turn.actions.len() == 0
        }),
{
    law_rewriting_keeps_other_fields(message, state.environment);
    lemma_methods();
}

proof fn lemma_methods()
    ensures
        "method"@ != "params"@,
{
    reveal_strlit("method");
    reveal_strlit("params");
    assert("method"@[0] == 'm' && "params"@[0] == 'p');
}

/// The client's initialize goes to the App Server at once, and its id is noted.
pub proof fn law_initialize_goes_at_once(state: JsonlView, message: JsonView)
    requires
        rewritten(message, state.environment) is Ok,
        text_of(field(message, "method"@)) == Some("initialize"@),
    ensures
        line_client_turn(state, message) == line_goes_on(
            (JsonlView { initialize_id: field(message, "id"@), ..state }),
            seq![
                ActionView::ToServer(json_text(rewritten(message, state.environment)->Ok_0)),
            ],
        ),
{
    law_rewriting_keeps_other_fields(message, state.environment);
    lemma_methods();
}

/// The bytes of the lines that wait add up.
pub proof fn law_bytes_of_waiting_lines(queue: Seq<Seq<char>>, line: Seq<char>)
    ensures
        line_bytes(Seq::empty()) == 0,
        line_bytes(queue.push(line)) == line_bytes(queue) + encode_utf8(line).len(),
{
    assert(queue.push(line).drop_last() =~= queue);
}

/// The first reply to initialize passes, and the environment is asked for;
/// where it is an error the relay stops.
pub proof fn law_the_environment_follows_initialize(
    state: JsonlView,
    id: Seq<char>,
    message: JsonView,
)
    requires
        state.initialize_id == Some(JsonView::Text(id)),
        field(message, "id"@) == Some(JsonView::Text(id)),
        id != "cxs/"@ + state.environment + "/environment-add"@,
        id != "cxs/"@ + state.environment + "/environment-status"@,
    ensures
        !state.environment_requested && field(message, "error"@) is None ==> line_server_turn(
            state,
            message,
        ) == line_goes_on(
            (JsonlView { environment_requested: true, ..state }),
            seq![
                ActionView::PassToClient,
                ActionView::ToServer(
                    json_text(environment_add(state.environment, state.exec_port)),
                ),
            ],
        ),
        !state.environment_requested && field(message, "error"@) is Some ==> line_server_turn(
            state,
            message,
        ).outcome is Err && line_server_turn(state, message).actions == seq![
            ActionView::PassToClient,
        ],
        state.environment_requested ==> line_server_turn(state, message) == line_goes_on(
            state,
            seq![ActionView::PassToClient],
        ),
{
    lemma_line_ids(state.environment);
}

/// The state of the environment is asked for once it is added, and again 50
/// milliseconds later while it is not ready, up to 200 times; once it is ready
/// all that waited goes to the App Server, in order.
pub proof fn law_lines_go_once_the_environment_is_ready(
    state: JsonlView,
    message: JsonView,
    i: int,
)
    ensures
        ({
            let turn = line_server_turn(state, message);
            let id = text_of(field(message, "id"@));
            let question = ActionView::ToServer(
                json_text(
                    environment_status(
                        "cxs/"@ + state.environment + "/environment-status"@,
                        state.environment,
                    ),
                ),
            );
            let status = text_of(nested(message, "result"@, "status"@));
            &&& id == Some("cxs/"@ + state.environment + "/environment-add"@) && field(
                message,
                "error"@,
            ) is None ==> turn == line_goes_on(
                (JsonlView { status_attempts: 1, ..state }),
                seq![question],
            )
            &&& id == Some("cxs/"@ + state.environment + "/environment-add"@) && field(
                message,
                "error"@,
            ) is Some ==> turn.outcome is Err
            &&& id == Some("cxs/"@ + state.environment + "/environment-status"@) && field(
                message,
                "error"@,
            ) is None ==> {
                &&& status == Some("ready"@) ==> turn.outcome is Ok && turn.state.environment_ready
                    && turn.state.queue.len() == 0 && turn.actions.len() == state.queue.len() && (0
                    <= i < state.queue.len() ==> turn.actions[i] == ActionView::ToServer(
                    state.queue[i],
                ))
                &&& status is Some && status != Some("ready"@) && state.status_attempts < 200
                    ==> turn == line_goes_on(
                    (JsonlView { status_attempts: (state.status_attempts + 1) as u16, ..state }),
                    seq![ActionView::Pause(50), question],
                )
                &&& status is Some && status != Some("ready"@) && state.status_attempts >= 200
                    ==> turn.outcome is Err
            }
        }),
{
    lemma_line_ids(state.environment);
}

/// Whatever else the App Server says goes to the client as it came.
pub proof fn law_other_lines_pass(state: JsonlView, message: JsonView)
    requires
        text_of(field(message, "id"@)) != Some("cxs/"@ + state.environment + "/environment-add"@),
        text_of(field(message, "id"@)) != Some(
            "cxs/"@ + state.environment + "/environment-status"@,
        ),
        state.initialize_id matches Some(id) ==> !replies_to(message, id),
    ensures
        line_server_turn(state, message) == line_goes_on(state, seq![ActionView::PassToClient]),
{
    lemma_line_ids(state.environment);
}

/// What a turn asks for is asked for behind what was asked for before; the
/// relay is in the state that the turn leaves where it goes on, and says why
/// where it stops.
pub proof fn law_turns_are_performed(
    turn: Turn,
    r: Result<(), Failure>,
    before: Seq<Action>,
    after: Seq<Action>,
    state: RelayView,
    line_turn: JsonlTurn,
    line_state: JsonlView,
)
    ensures
        performed(turn, r, before, after, state) ==> {
            &&& action_views(after) == action_views(before) + turn.actions
            &&& r is Ok <==> turn.outcome is Ok
            &&& r is Ok ==> state == turn.state
            &&& r matches Err(e) ==> turn.outcome->Err_0 == e@
        },
        line_performed(line_turn, r, before, after, line_state) ==> {
            &&& action_views(after) == action_views(before) + line_turn.actions
            &&& r is Ok <==> line_turn.outcome is Ok
            &&& r is Ok ==> line_state == line_turn.state
            &&& r matches Err(e) ==> line_turn.outcome->Err_0 == e@
        },
{
}

// ---------------------------------------------------------------------------
// Waiting
// ---------------------------------------------------------------------------

/// What is waited for is looked for until it is there, what brings it has
/// ended, or the time is up, in this order.
pub proof fn law_how_long_is_waited(limit: u64, found: bool, ended: bool, waited: u64)
    ensures
        found ==> waiting(limit, found, ended, waited) == WaitAction::Done,
        !found && ended ==> waiting(limit, found, ended, waited) == WaitAction::Ended,
        !found && !ended && waited < limit ==> waiting(limit, found, ended, waited)
            == WaitAction::Again,
        !found && !ended && waited >= limit ==> waiting(limit, found, ended, waited)
            == WaitAction::TooLate,
        APP_SERVER_WAIT == 5 * 1000,
        BRIDGE_WAIT == 5 * 1000,
        EXEC_SERVER_WAIT == 5 * 1000,
        CONTROL_SOCKET_WAIT == 10 * 1000,
{
}

/// A process that lives on is asked to end once its time alone is up, forced
/// once its time to end is up, and given up once that did not help; before
/// that it is looked at again.
pub proof fn law_how_a_process_is_stopped(limits: StopLimits, waited: u64)
    ensures
        waited >= limits.alone ==> stopping(limits, StopState::Alone, true, waited) == (
            StopState::Asked,
            StopAction::Ask,
        ),
        waited < limits.alone ==> stopping(limits, StopState::Alone, true, waited) == (
            StopState::Alone,
            StopAction::Again,
        ),
        waited >= limits.asked ==> stopping(limits, StopState::Asked, true, waited) == (
            StopState::Forced,
            StopAction::Force,
        ),
        waited < limits.asked ==> stopping(limits, StopState::Asked, true, waited) == (
            StopState::Asked,
            StopAction::Again,
        ),
        waited >= limits.forced ==> stopping(limits, StopState::Forced, true, waited) == (
            StopState::Forced,
            StopAction::GiveUp,
        ),
        waited < limits.forced ==> stopping(limits, StopState::Forced, true, waited) == (
            StopState::Forced,
            StopAction::Again,
        ),
{
}

} // verus!
