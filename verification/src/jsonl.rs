//! The relay between a client and the local App Server over lines of JSON, for
//! clients that speak over standard input and output.

use std::collections::VecDeque;

use vstd::prelude::*;
use vstd::string::*;
use vstd::utf8::*;
use crate::bridge::{
    environment_add, environment_add_request, environment_status_ready, environment_status_request,
    initialize_id_after, internal_id, internal_request_id, method_of, optional, refuse_json,
    rewrite_client_value, rewritten, status_reply,
};
use crate::bridge_laws::law_rewriting_keeps_other_fields;
use crate::failure::{Failure, refuse};
use crate::json::{Json, JsonView, encode_json, field, json_text, parse_json, parsed_json, text_of};
use crate::profile::Profile;
use crate::relay::does_reply;
use crate::relay_laws::{hidden_from_client, shows_client};
use crate::relay_model::{
    Action, ActionView, MAX_PENDING_CLIENT_BYTES, MAX_STATUS_ATTEMPTS, STATUS_PAUSE, action_views,
    lemma_action_views_push, replies_to, status_question,
};
use crate::text::texts;

verus! {

/// The relay of one client.
pub struct JsonlRelay {
    pub profile: Profile,
    pub initialize_id: Option<Json>,
    pub environment_requested: bool,
    pub environment_ready: bool,
    pub status_attempts: u16,
    pub queue: VecDeque<String>,
    pub queued_bytes: usize,
}

pub struct JsonlView {
    pub environment: Seq<char>,
    pub exec_port: u16,
    /// The id of the client's initialize request, once it came.
    pub initialize_id: Option<JsonView>,
    /// Whether the App Server was asked to add the remote environment.
    pub environment_requested: bool,
    pub environment_ready: bool,
    pub status_attempts: u16,
    /// The lines that wait for the environment, in order.
    pub queue: Seq<Seq<char>>,
}

impl View for JsonlRelay {
    type V = JsonlView;

    open spec fn view(&self) -> JsonlView {
        JsonlView {
            environment: self.profile.environment_id@,
            exec_port: self.profile.local_exec_port,
            initialize_id: optional(self.initialize_id),
            environment_requested: self.environment_requested,
            environment_ready: self.environment_ready,
            status_attempts: self.status_attempts,
            queue: texts(self.queue@),
        }
    }
}

/// How many bytes the waiting lines hold.
pub open spec fn line_bytes(queue: Seq<Seq<char>>) -> nat
    decreases queue.len(),
{
    if queue.len() == 0 {
        0
    } else {
        line_bytes(queue.drop_last()) + encode_utf8(queue.last()).len()
    }
}

/// What a turn makes of the relay: the state it leaves (where it succeeds),
/// the actions it asks for, and whether the relay goes on.
pub struct JsonlTurn {
    pub state: JsonlView,
    pub actions: Seq<ActionView>,
    pub outcome: Result<(), Seq<char>>,
}

pub open spec fn line_goes_on(state: JsonlView, actions: Seq<ActionView>) -> JsonlTurn {
    JsonlTurn { state, actions, outcome: Ok(()) }
}

pub open spec fn line_stops(
    state: JsonlView,
    actions: Seq<ActionView>,
    message: Seq<char>,
) -> JsonlTurn {
    JsonlTurn { state, actions, outcome: Err(message) }
}

/// The waiting lines as they go to the App Server.
pub open spec fn released(queue: Seq<Seq<char>>) -> Seq<ActionView> {
    queue.map_values(|line: Seq<char>| ActionView::ToServer(line))
}

/// One line of the client: requests that follow initialize wait for the
/// environment.
pub open spec fn line_client_turn(state: JsonlView, message: JsonView) -> JsonlTurn {
    let noted = JsonlView {
        initialize_id: initialize_id_after(message, state.initialize_id),
        ..state
    };
    match rewritten(message, state.environment) {
        Err(e) => line_stops(noted, Seq::empty(), e),
        Ok(message) => {
            let text = json_text(message);
            if noted.initialize_id is Some && !state.environment_ready && method_of(message)
                != Some("initialize"@) {
                if line_bytes(state.queue) + encode_utf8(text).len() > MAX_PENDING_CLIENT_BYTES {
                    line_stops(
                        noted,
                        Seq::empty(),
                        "client sent too much data before the execution environment became ready"@,
                    )
                } else {
                    line_goes_on(
                        JsonlView { queue: state.queue.push(text), ..noted },
                        Seq::empty(),
                    )
                }
            } else {
                line_goes_on(noted, seq![ActionView::ToServer(text)])
            }
        },
    }
}

pub open spec fn line_added_turn(state: JsonlView, message: JsonView) -> JsonlTurn {
    match field(message, "error"@) {
        Some(error) => line_stops(
            state,
            Seq::empty(),
            "environment/add failed: "@ + json_text(error),
        ),
        None => line_goes_on(
            JsonlView { status_attempts: 1, ..state },
            seq![status_question(state.environment)],
        ),
    }
}

pub open spec fn line_status_turn(state: JsonlView, message: JsonView) -> JsonlTurn {
    match status_reply(message) {
        Err(e) => line_stops(state, Seq::empty(), e),
        Ok(true) => line_goes_on(
            JsonlView { environment_ready: true, queue: Seq::empty(), ..state },
            released(state.queue),
        ),
        Ok(false) => if state.status_attempts >= MAX_STATUS_ATTEMPTS {
            line_stops(
                state,
                Seq::empty(),
                "execution environment did not become ready within 10 seconds"@,
            )
        } else {
            line_goes_on(
                JsonlView { status_attempts: (state.status_attempts + 1) as u16, ..state },
                seq![ActionView::Pause(STATUS_PAUSE), status_question(state.environment)],
            )
        },
    }
}

/// Whether `message` replies to the client's initialize request.
pub open spec fn is_line_initialize_reply(state: JsonlView, message: JsonView) -> bool {
    !state.environment_requested && match state.initialize_id {
        Some(id) => replies_to(message, id),
        None => false,
    }
}

/// One line of the App Server: all but the replies to the bridge's own
/// requests passes, and the reply to initialize calls for the environment.
pub open spec fn line_server_turn(state: JsonlView, message: JsonView) -> JsonlTurn {
    let id = text_of(field(message, "id"@));
    if id == Some(internal_id(state.environment, "environment-add"@)) {
        line_added_turn(state, message)
    } else if id == Some(internal_id(state.environment, "environment-status"@)) {
        line_status_turn(state, message)
    } else if is_line_initialize_reply(state, message) {
        match field(message, "error"@) {
            Some(error) => line_stops(
                state,
                seq![ActionView::PassToClient],
                "app-server initialize failed: "@ + json_text(error),
            ),
            None => line_goes_on(
                JsonlView { environment_requested: true, ..state },
                seq![
                    ActionView::PassToClient,
                    ActionView::ToServer(
                        json_text(environment_add(state.environment, state.exec_port)),
                    ),
                ],
            ),
        }
    } else {
        line_goes_on(state, seq![ActionView::PassToClient])
    }
}

/// Whether `turn` is what was done: its actions were asked for after those
/// before, and the outcome is its own.
pub open spec fn line_performed(
    turn: JsonlTurn,
    r: Result<(), Failure>,
    before: Seq<Action>,
    after: Seq<Action>,
    state: JsonlView,
) -> bool {
    &&& action_views(after) == action_views(before) + turn.actions
    &&& match r {
        Ok(_) => turn.outcome is Ok && turn.state == state,
        Err(e) => turn.outcome == Err::<(), Seq<char>>(e@),
    }
}

/// The state of a relay that has not seen a line yet.
pub open spec fn initial_jsonl(environment: Seq<char>, exec_port: u16) -> JsonlView {
    JsonlView {
        environment,
        exec_port,
        initialize_id: None,
        environment_requested: false,
        environment_ready: false,
        status_attempts: 0,
        queue: Seq::empty(),
    }
}

impl JsonlRelay {
    /// Whether the counter of waiting bytes is right, and all limits are kept.
    pub open spec fn wf(&self) -> bool {
        &&& self.queued_bytes == line_bytes(self@.queue)
        &&& self.queued_bytes <= MAX_PENDING_CLIENT_BYTES
        &&& self.status_attempts <= MAX_STATUS_ATTEMPTS
    }

    pub fn new(profile: Profile) -> (r: JsonlRelay)
        ensures
            r.wf(),
            r@ == initial_jsonl(profile.environment_id@, profile.local_exec_port),
    {
        let r = JsonlRelay {
            profile,
            initialize_id: None,
            environment_requested: false,
            environment_ready: false,
            status_attempts: 0,
            queue: VecDeque::new(),
            queued_bytes: 0,
        };
        assert(r@.queue =~= Seq::empty());
        r
    }

    /// Takes one message of the client.
    pub fn on_client_message(&mut self, message: Json, actions: &mut Vec<Action>) -> (r: Result<
        (),
        Failure,
    >)
        requires
            old(self).wf(),
        ensures
            line_performed(
                line_client_turn(old(self)@, message@),
                r,
                old(actions)@,
                final(actions)@,
                final(self)@,
            ),
            final(self).wf(),
    {
        broadcast use lemma_action_views_push;

        let ghost before = self@;
        let ghost given = action_views(actions@);
        assert(given + Seq::<ActionView>::empty() =~= given);
        let message = match rewrite_client_value(
            message,
            &self.profile.environment_id,
            &mut self.initialize_id,
        ) {
            Ok(message) => message,
            Err(e) => return Err(e),
        };
        let text = encode_json(&message);
        if self.initialize_id.is_some() && !self.environment_ready && !message.field_is(
            "method",
            "initialize",
        ) {
            let length: usize = text.as_str().as_bytes().len();
            if length > MAX_PENDING_CLIENT_BYTES || self.queued_bytes > MAX_PENDING_CLIENT_BYTES
                - length {
                return Err(
                    refuse(
                        "client sent too much data before the execution environment became ready",
                    ),
                );
            }
            self.queued_bytes = self.queued_bytes + length;
            let ghost added = text@;
            self.queue.push_back(text);
            assert(self@.queue =~= before.queue.push(added));
            assert(self@.queue.drop_last() =~= before.queue);
            return Ok(());
        }
        assert(given.push(ActionView::ToServer(text@)) =~= given + seq![
            ActionView::ToServer(text@),
        ]);
        actions.push(Action::ToServer(text));
        Ok(())
    }

    /// Takes one message of the App Server.
    pub fn on_server_message(&mut self, message: &Json, actions: &mut Vec<Action>) -> (r: Result<
        (),
        Failure,
    >)
        requires
            old(self).wf(),
        ensures
            line_performed(
                line_server_turn(old(self)@, message@),
                r,
                old(actions)@,
                final(actions)@,
                final(self)@,
            ),
            final(self).wf(),
    {
        broadcast use lemma_action_views_push;

        let ghost before = self@;
        let ghost given = action_views(actions@);
        assert(given + Seq::<ActionView>::empty() =~= given);
        if message.field_is(
            "id",
            &internal_request_id(&self.profile.environment_id, "environment-add"),
        ) {
            match message.get("error") {
                Some(error) => return Err(refuse_json("environment/add failed: ", error)),
                None => {},
            }
            self.ask_status(actions);
            self.status_attempts = 1;
            return Ok(());
        }
        if message.field_is(
            "id",
            &internal_request_id(&self.profile.environment_id, "environment-status"),
        ) {
            return self.environment_reported(message, actions);
        }
        let is_initialize_reply = !self.environment_requested && match &self.initialize_id {
            Some(id) => does_reply(message, id),
            None => false,
        };
        actions.push(Action::PassToClient);
        assert(given.push(ActionView::PassToClient) =~= given + seq![ActionView::PassToClient]);
        if is_initialize_reply {
            match message.get("error") {
                Some(error) => {
                    return Err(refuse_json("app-server initialize failed: ", error));
                },
                None => {},
            }
            let add = environment_add_request(
                &self.profile.environment_id,
                self.profile.local_exec_port,
            );
            let text = encode_json(&add);
            assert(given.push(ActionView::PassToClient).push(ActionView::ToServer(text@)) =~= given
                + seq![ActionView::PassToClient, ActionView::ToServer(text@)]);
            actions.push(Action::ToServer(text));
            self.environment_requested = true;
        }
        Ok(())
    }

    fn ask_status(&self, actions: &mut Vec<Action>)
        ensures
            action_views(final(actions)@) == action_views(old(actions)@) + seq![
                status_question(self@.environment),
            ],
    {
        broadcast use lemma_action_views_push;

        let ghost given = action_views(actions@);
        let id = internal_request_id(&self.profile.environment_id, "environment-status");
        let text = encode_json(&environment_status_request(&id, &self.profile));
        assert(given.push(ActionView::ToServer(text@)) =~= given + seq![
            ActionView::ToServer(text@),
        ]);
        actions.push(Action::ToServer(text));
    }

    fn environment_reported(&mut self, message: &Json, actions: &mut Vec<Action>) -> (r: Result<
        (),
        Failure,
    >)
        requires
            old(self).wf(),
        ensures
            line_performed(
                line_status_turn(old(self)@, message@),
                r,
                old(actions)@,
                final(actions)@,
                final(self)@,
            ),
            final(self).wf(),
    {
        broadcast use lemma_action_views_push;

        let ghost before = self@;
        let ghost given = action_views(actions@);
        assert(given + Seq::<ActionView>::empty() =~= given);
        let ready = match environment_status_ready(message) {
            Ok(ready) => ready,
            Err(e) => return Err(e),
        };
        if !ready {
            if self.status_attempts >= MAX_STATUS_ATTEMPTS {
                return Err(refuse("execution environment did not become ready within 10 seconds"));
            }
            self.status_attempts = self.status_attempts + 1;
            actions.push(Action::Pause(STATUS_PAUSE));
            self.ask_status(actions);
            proof {
                let pause = ActionView::Pause(STATUS_PAUSE);
                let ask = status_question(self@.environment);
                assert(given.push(pause) + seq![ask] =~= given + seq![pause, ask]);
            }
            return Ok(());
        }
        self.environment_ready = true;
        self.queued_bytes = 0;
        let ghost all = released(before.queue);
        let ghost mut sent: int = 0;
        assert(all.take(0) =~= Seq::empty());
        assert(before.queue.skip(0) =~= before.queue);
        loop
            invariant_except_break
                0 <= sent <= before.queue.len(),
                all == released(before.queue),
                self@ == (JsonlView {
                    environment_ready: true,
                    queue: before.queue.skip(sent),
                    ..before
                }),
                self.queued_bytes == 0,
                action_views(actions@) == given + all.take(sent),
            ensures
                action_views(actions@) == given + all,
                self.queued_bytes == 0,
                self@ == (JsonlView { environment_ready: true, queue: Seq::empty(), ..before }),
            decreases before.queue.len() - sent,
        {
            let ghost waiting = self@.queue;
            match self.queue.pop_front() {
                Some(line) => {
                    proof {
                        assert(line@ == waiting[0]);
                        assert(before.queue.skip(sent + 1) =~= waiting.skip(1));
                        assert(self@.queue =~= waiting.skip(1));
                        assert(all[sent] == ActionView::ToServer(line@));
                        assert((given + all.take(sent)).push(ActionView::ToServer(line@)) =~= given
                            + all.take(sent + 1));
                        sent = sent + 1;
                    }
                    actions.push(Action::ToServer(line));
                },
                None => {
                    proof {
                        assert(waiting.len() == 0);
                        assert(self@.queue =~= Seq::empty());
                        assert(all.take(sent) =~= all);
                    }
                    break;
                },
            }
        }
        Ok(())
    }

    /// Takes one line of the client.
    pub fn on_client_line(&mut self, line: &[u8], actions: &mut Vec<Action>) -> (r: Result<
        (),
        Failure,
    >)
        requires
            old(self).wf(),
        ensures
            line_performed(
                match parsed_json(line@) {
                    Some(message) => line_client_turn(old(self)@, message),
                    None => line_stops(
                        old(self)@,
                        Seq::empty(),
                        "client sent invalid App Server JSONL"@,
                    ),
                },
                r,
                old(actions)@,
                final(actions)@,
                final(self)@,
            ),
            final(self).wf(),
    {
        match parse_json(line) {
            Some(message) => self.on_client_message(message, actions),
            None => {
                assert(action_views(actions@) + Seq::<ActionView>::empty() =~= action_views(
                    actions@,
                ));
                Err(refuse("client sent invalid App Server JSONL"))
            },
        }
    }

    /// Takes one line of the App Server.
    pub fn on_server_line(&mut self, line: &[u8], actions: &mut Vec<Action>) -> (r: Result<
        (),
        Failure,
    >)
        requires
            old(self).wf(),
        ensures
            line_performed(
                match parsed_json(line@) {
                    Some(message) => line_server_turn(old(self)@, message),
                    None => line_stops(
                        old(self)@,
                        Seq::empty(),
                        "app-server emitted invalid JSONL"@,
                    ),
                },
                r,
                old(actions)@,
                final(actions)@,
                final(self)@,
            ),
            final(self).wf(),
    {
        match parse_json(line) {
            Some(message) => self.on_server_message(&message, actions),
            None => {
                assert(action_views(actions@) + Seq::<ActionView>::empty() =~= action_views(
                    actions@,
                ));
                Err(refuse("app-server emitted invalid JSONL"))
            },
        }
    }
}

/// Until the environment is ready, a request that follows initialize reaches
/// nobody: it waits behind those before it.
pub proof fn law_lines_wait_for_the_environment(state: JsonlView, message: JsonView)
    requires
        state.initialize_id is Some,
        !state.environment_ready,
        method_of(message) != Some("initialize"@),
        line_client_turn(state, message).outcome is Ok,
    ensures
        rewritten(message, state.environment) is Ok,
        line_client_turn(state, message) == line_goes_on(
            JsonlView {
                queue: state.queue.push(
                    json_text(rewritten(message, state.environment)->Ok_0),
                ),
                ..state
            },
            Seq::empty(),
        ),
{
    law_rewriting_keeps_other_fields(message, state.environment);
}

/// The client never sees a reply to a request of the bridge.
pub proof fn law_line_replies_stay_hidden(state: JsonlView, message: JsonView)
    requires
        text_of(field(message, "id"@)) == Some(internal_id(state.environment, "environment-add"@))
            || text_of(field(message, "id"@)) == Some(
            internal_id(state.environment, "environment-status"@),
        ),
    ensures
        hidden_from_client(line_server_turn(state, message).actions),
{
    let released = released(state.queue);
    assert forall|i: int| 0 <= i < released.len() implies !shows_client(
        #[trigger] released[i],
    ) by {}
}

} // verus!
