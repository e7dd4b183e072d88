//! What holds of the line relay over a whole run of lines.

use vstd::prelude::*;
use crate::bridge::{environment_add, environment_status, internal_id, method_of, rewritten};
use crate::bridge_laws::law_rewriting_keeps_other_fields;
use crate::json::{JsonView, field, json_text, text_of};
use crate::jsonl::{
    JsonlTurn, JsonlView, initial_jsonl, law_lines_wait_for_the_environment, line_client_turn,
    line_server_turn, released,
};
use crate::relay_laws::{lemma_texts_of_join, lemma_texts_of_one, server_texts, shown_to_client};
use crate::relay_model::{ActionView, STATUS_PAUSE, status_question};

verus! {

/// A line that arrives.
pub enum LineEvent {
    Client(JsonView),
    Server(JsonView),
}

pub open spec fn line_turn(state: JsonlView, event: LineEvent) -> JsonlTurn {
    match event {
        LineEvent::Client(message) => line_client_turn(state, message),
        LineEvent::Server(message) => line_server_turn(state, message),
    }
}

/// The lines one after the other, up to the one that ends the relay.
pub open spec fn line_run(state: JsonlView, events: Seq<LineEvent>) -> JsonlTurn
    decreases events.len(),
{
    if events.len() == 0 {
        JsonlTurn { state, actions: Seq::empty(), outcome: Ok(()) }
    } else {
        let before = line_run(state, events.drop_last());
        if before.outcome is Err {
            before
        } else {
            let turn = line_turn(before.state, events.last());
            JsonlTurn {
                state: turn.state,
                actions: before.actions + turn.actions,
                outcome: turn.outcome,
            }
        }
    }
}

/// Whether a message replies to a request of the bridge.
pub open spec fn is_bridge_reply(environment: Seq<char>, message: JsonView) -> bool {
    let id = text_of(field(message, "id"@));
    id == Some(internal_id(environment, "environment-add"@)) || id == Some(
        internal_id(environment, "environment-status"@),
    )
}

/// Whether a line is one that may come now: the client initializes once, and
/// the App Server answers each request of the bridge once.
pub open spec fn line_expected(state: JsonlView, event: LineEvent) -> bool {
    match event {
        LineEvent::Client(message) => method_of(message) != Some("initialize"@),
        LineEvent::Server(message) => {
            let id = text_of(field(message, "id"@));
            &&& id == Some(internal_id(state.environment, "environment-add"@))
                ==> state.environment_requested && state.status_attempts == 0
            &&& id == Some(internal_id(state.environment, "environment-status"@))
                ==> state.status_attempts > 0 && !state.environment_ready
        },
    }
}

pub open spec fn lines_expected(state: JsonlView, events: Seq<LineEvent>) -> bool
    decreases events.len(),
{
    events.len() == 0 || (lines_expected(state, events.drop_last()) && line_expected(
        line_run(state, events.drop_last()).state,
        events.last(),
    ))
}

/// What the client's lines are once they are rewritten, in order.
pub open spec fn client_lines(environment: Seq<char>, events: Seq<LineEvent>) -> Seq<Seq<char>>
    decreases events.len(),
{
    if events.len() == 0 {
        Seq::empty()
    } else {
        let before = client_lines(environment, events.drop_last());
        match events.last() {
            LineEvent::Client(message) => match rewritten(message, environment) {
                Ok(value) => before.push(json_text(value)),
                Err(_) => before,
            },
            LineEvent::Server(_) => before,
        }
    }
}

/// How many lines of the App Server are for the client.
pub open spec fn lines_for_client(environment: Seq<char>, events: Seq<LineEvent>) -> nat
    decreases events.len(),
{
    if events.len() == 0 {
        0
    } else {
        lines_for_client(environment, events.drop_last()) + (match events.last() {
            LineEvent::Server(message) => if is_bridge_reply(environment, message) {
                0nat
            } else {
                1
            },
            LineEvent::Client(_) => 0,
        })
    }
}

/// The questions about the environment: `n` of them.
pub open spec fn status_texts(environment: Seq<char>, n: nat) -> Seq<Seq<char>> {
    Seq::new(
        n,
        |i: int|
            json_text(
                environment_status(internal_id(environment, "environment-status"@), environment),
            ),
    )
}

/// What the bridge itself has asked the App Server.
pub open spec fn bridge_texts(state: JsonlView) -> Seq<Seq<char>> {
    if state.environment_requested {
        seq![json_text(environment_add(state.environment, state.exec_port))] + status_texts(
            state.environment,
            state.status_attempts as nat,
        )
    } else {
        Seq::empty()
    }
}

/// Where a run of lines has led since initialize: what the App Server got, what
/// waits, and what the client saw.
pub open spec fn has_run(start: JsonlView, events: Seq<LineEvent>, turn: JsonlTurn) -> bool {
    let state = turn.state;
    let lines = client_lines(start.environment, events);
    &&& state.environment == start.environment
    &&& state.exec_port == start.exec_port
    &&& state.initialize_id is Some
    &&& !state.environment_requested ==> state.status_attempts == 0
    &&& state.environment_ready ==> state.environment_requested && state.status_attempts > 0
    &&& if state.environment_ready {
        server_texts(turn.actions) == bridge_texts(state) + lines && state.queue.len() == 0
    } else {
        server_texts(turn.actions) == bridge_texts(state) && state.queue == lines
    }
    &&& shown_to_client(turn.actions) == lines_for_client(start.environment, events)
}

proof fn lemma_one_line(start: JsonlView, events: Seq<LineEvent>)
    requires
        events.len() > 0,
        has_run(start, events.drop_last(), line_run(start, events.drop_last())),
        line_run(start, events.drop_last()).outcome is Ok,
        line_expected(line_run(start, events.drop_last()).state, events.last()),
        line_run(start, events).outcome is Ok,
    ensures
        has_run(start, events, line_run(start, events)),
{
    let before = line_run(start, events.drop_last());
    let state = before.state;
    let turn = line_turn(state, events.last());
    let lines = client_lines(start.environment, events.drop_last());
    lemma_texts_of_join(before.actions, turn.actions);
    match events.last() {
        LineEvent::Client(message) => {
            let value = rewritten(message, state.environment)->Ok_0;
            law_rewriting_keeps_other_fields(message, state.environment);
            if state.environment_ready {
                lemma_texts_of_one(ActionView::ToServer(json_text(value)));
                assert(turn.actions == seq![ActionView::ToServer(json_text(value))]);
                assert(bridge_texts(state) + lines + seq![json_text(value)] =~= bridge_texts(state)
                    + lines.push(json_text(value)));
            } else {
                law_lines_wait_for_the_environment(state, message);
                assert(server_texts(before.actions) + Seq::empty() =~= server_texts(
                    before.actions,
                ));
            }
        },
        LineEvent::Server(message) => {
            let id = text_of(field(message, "id"@));
            let question = status_question(state.environment);
            lemma_texts_of_one(question);
            lemma_texts_of_one(ActionView::PassToClient);
            lemma_texts_of_one(ActionView::Pause(STATUS_PAUSE));
            if id == Some(internal_id(state.environment, "environment-add"@)) {
                assert(turn.actions == seq![question]);
                assert(server_texts(before.actions) + server_texts(turn.actions) =~= bridge_texts(
                    turn.state,
                ));
            } else if id == Some(internal_id(state.environment, "environment-status"@)) {
                if turn.state.environment_ready {
                    lemma_released(state.queue);
                } else {
                    let pause = ActionView::Pause(STATUS_PAUSE);
                    lemma_texts_of_join(seq![pause], seq![question]);
                    assert(turn.actions =~= seq![pause] + seq![question]);
                    assert(server_texts(before.actions) + server_texts(turn.actions)
                        =~= bridge_texts(turn.state));
                }
            } else if turn.state.environment_requested && !state.environment_requested {
                let add = ActionView::ToServer(
                    json_text(environment_add(state.environment, state.exec_port)),
                );
                lemma_texts_of_one(add);
                lemma_texts_of_join(seq![ActionView::PassToClient], seq![add]);
                assert(turn.actions =~= seq![ActionView::PassToClient] + seq![add]);
                assert(server_texts(before.actions) + server_texts(turn.actions) =~= bridge_texts(
                    turn.state,
                ));
            } else {
                assert(turn.actions == seq![ActionView::PassToClient]);
                assert(server_texts(before.actions) + server_texts(turn.actions) =~= server_texts(
                    before.actions,
                ));
            }
        },
    }
}

/// The waiting lines go to the App Server as they are, and nowhere else.
proof fn lemma_released(queue: Seq<Seq<char>>)
    ensures
        server_texts(released(queue)) == queue,
        shown_to_client(released(queue)) == 0,
    decreases queue.len(),
{
    if queue.len() > 0 {
        lemma_released(queue.drop_last());
        let last = ActionView::ToServer(queue.last());
        lemma_texts_of_one(last);
        lemma_texts_of_join(released(queue.drop_last()), seq![last]);
        assert(released(queue) =~= released(queue.drop_last()) + seq![last]);
        assert(queue =~= queue.drop_last() + seq![queue.last()]);
    } else {
        assert(released(queue) =~= Seq::empty());
        assert(queue =~= Seq::empty());
    }
}

/// A client that initializes and goes on without waiting is served in order,
/// whatever comes between: the App Server gets initialize, then, after its
/// reply, environment/add once, then environment/status until the environment
/// is ready, and only then all that the client sent since, in the order in
/// which it came. The client sees each line of the App Server but the replies
/// to the bridge, and each once.
pub proof fn law_lines_are_served_in_order(
    environment: Seq<char>,
    exec_port: u16,
    initialize: JsonView,
    events: Seq<LineEvent>,
)
    requires
        method_of(initialize) == Some("initialize"@),
        line_client_turn(initial_jsonl(environment, exec_port), initialize).outcome is Ok,
        lines_expected(
            line_client_turn(initial_jsonl(environment, exec_port), initialize).state,
            events,
        ),
        line_run(
            line_client_turn(initial_jsonl(environment, exec_port), initialize).state,
            events,
        ).outcome is Ok,
    ensures
        ({
            let first = line_client_turn(initial_jsonl(environment, exec_port), initialize);
            &&& rewritten(initialize, environment) matches Ok(value) && first.actions == seq![
                ActionView::ToServer(json_text(value)),
            ]
            &&& has_run(first.state, events, line_run(first.state, events))
        }),
    decreases events.len(),
{
    let first = line_client_turn(initial_jsonl(environment, exec_port), initialize);
    law_rewriting_keeps_other_fields(initialize, environment);
    if events.len() > 0 {
        law_lines_are_served_in_order(environment, exec_port, initialize, events.drop_last());
        lemma_one_line(first.state, events);
    } else {
        assert(line_run(first.state, events).actions =~= Seq::empty());
        assert(client_lines(environment, events) =~= Seq::empty());
    }
}

} // verus!
