//! The relay between a client and its App Servers over WebSocket, turn by
//! turn.

use std::collections::VecDeque;

use vstd::prelude::*;
use vstd::string::*;
use vstd::utf8::*;
use crate::bridge::{
    environment_add_request, environment_status_ready, environment_status_request,
    host_message_allowed, internal_request_id, make_request, merge_initialize_response,
    merge_thread_metadata, refuse_json, rewrite_client_value, take_object_field,
};
use crate::entries::{
    TextMap, distinct_keys, has_key, lemma_value_bytes_with_entry, lemma_with_entry_distinct,
    lemma_without_entry_distinct, value_bytes, values_within, without_entry,
};
use crate::failure::{Failure, refuse, refuse_about};
use crate::json::{Json, JsonObject, JsonView, encode_json, json_text, parse_json, parsed_json};
use crate::profile::Profile;
use crate::relay_model::{
    Action, ActionView, LookupView, MAX_INSTRUCTION_SOURCES, MAX_INSTRUCTION_SOURCE_BYTES,
    MAX_INSTRUCTION_TOTAL_BYTES, MAX_PENDING_CLIENT_BYTES, MAX_STATUS_ATTEMPTS,
    PROJECT_METADATA_TIMEOUT, ProjectLookup, QueuedMessage, QueuedView, RelayView, RequestRoute,
    STATUS_PAUSE, Turn, WebsocketRelay, action_views, added_turn, after_actions, client_turn,
    decoded_base64, deliver_turn, expire_turn, flush_turn, forward_turn, goes_on, host_message_turn,
    host_turn, initialized_turn, instruction_source_paths, lemma_action_views_push, lookup_index,
    lookup_turn, project_turn, queued_bytes, read_actions, read_id, read_index, read_reply,
    read_turn, reads_after, recorded, replies_to, reply_index, request_route, server_turn,
    settle_turn, start_turn, started_turn, status_question, status_turn, stops, tick_turn,
};
use crate::text::{decimal_text, optional_text, same_text, text_of_utf8, texts};

verus! {

/// `base64`'s standard engine: the outcome rests on the text alone.
#[verifier::external_body]
fn decode_base64(text: &str) -> (r: Option<Vec<u8>>)
    ensures
        match r {
            Some(bytes) => decoded_base64(text@) == Some(bytes@),
            None => decoded_base64(text@) is None,
        },
{
    base64::Engine::decode(&base64::engine::general_purpose::STANDARD, text).ok()
}

/// Whether the instructions that a lookup holds stay within the limits, each by
/// itself and all together, and no read is waited for twice.
pub open spec fn lookup_within_limits(lookup: LookupView) -> bool {
    &&& lookup.instruction_paths.len() <= MAX_INSTRUCTION_SOURCES
    &&& values_within(lookup.instruction_contents, MAX_INSTRUCTION_SOURCE_BYTES as nat)
    &&& value_bytes(lookup.instruction_contents) <= MAX_INSTRUCTION_TOTAL_BYTES
    &&& distinct_keys(lookup.reads)
}

/// Which of the two sides that send frames sent one.
#[derive(Debug, Clone, Copy, PartialEq, Eq, Structural)]
pub enum Peer {
    Client,
    Server,
}

/// A frame without a message for the relay: it passes to the other side.
pub open spec fn passed_on(peer: Peer) -> Seq<ActionView> {
    match peer {
        Peer::Client => seq![ActionView::PassToServer],
        Peer::Server => seq![ActionView::PassToClient],
    }
}

/// Passes a frame on that holds no JSON text: pings, pongs, closes, binary
/// frames, and text that is no JSON.
pub fn pass_frame(peer: Peer, actions: &mut Vec<Action>)
    ensures
        action_views(final(actions)@) == action_views(old(actions)@) + passed_on(peer),
{
    broadcast use lemma_action_views_push;

    let ghost given = action_views(actions@);
    match peer {
        Peer::Client => actions.push(Action::PassToServer),
        Peer::Server => actions.push(Action::PassToClient),
    }
    assert(action_views(actions@) =~= given + passed_on(peer));
}

/// Whether all that the relay holds back stays within the limits.
pub open spec fn within_limits(state: RelayView) -> bool {
    &&& queued_bytes(state.queue) <= MAX_PENDING_CLIENT_BYTES
    &&& state.status_attempts <= MAX_STATUS_ATTEMPTS
    &&& forall|i: int|
        0 <= i < state.lookups.len() ==> lookup_within_limits(#[trigger] state.lookups[i])
}

/// Whether `turn` is what was done: its actions were asked for after those
/// before, and the outcome is its own.
pub open spec fn performed(
    turn: Turn,
    r: Result<(), Failure>,
    before: Seq<Action>,
    after: Seq<Action>,
    state: RelayView,
) -> bool {
    &&& action_views(after) == action_views(before) + turn.actions
    &&& match r {
        Ok(_) => turn.outcome is Ok && turn.state == state,
        Err(e) => turn.outcome == Err::<(), Seq<char>>(e@),
    }
}

/// The state of a relay that has not seen a message yet.
pub open spec fn initial_relay(
    environment: Seq<char>,
    exec_port: u16,
    remote_home: Option<Seq<char>>,
) -> RelayView {
    RelayView {
        environment,
        exec_port,
        remote_home,
        initialize_id: None,
        environment_requested: false,
        environment_ready: false,
        status_attempts: 0,
        local_initialize: None,
        host_initialize: None,
        initialize_answered: false,
        queue: Seq::empty(),
        metadata_sequence: 0,
        lookups: Seq::empty(),
    }
}

proof fn lemma_lookup_index(lookups: Seq<LookupView>, id: Seq<char>, n: nat)
    requires
        n <= lookups.len(),
        forall|i: int| 0 <= i < n ==> (#[trigger] lookups[i]).metadata_id != id,
        n < lookups.len() ==> lookups[n as int].metadata_id == id,
    ensures
        lookup_index(lookups, id) == n,
    decreases n,
{
    if n > 0 {
        assert forall|i: int| 0 <= i < n - 1 implies (#[trigger] lookups.skip(1)[i]).metadata_id
            != id by {
            assert(lookups.skip(1)[i] == lookups[i + 1]);
        }
        lemma_lookup_index(lookups.skip(1), id, (n - 1) as nat);
    }
}

proof fn lemma_reply_index(lookups: Seq<LookupView>, message: JsonView, n: nat)
    requires
        n <= lookups.len(),
        forall|i: int|
            0 <= i < n ==> !((#[trigger] lookups[i]).local_sent && replies_to(
                message,
                lookups[i].client_id,
            )),
        n < lookups.len() ==> lookups[n as int].local_sent && replies_to(
            message,
            lookups[n as int].client_id,
        ),
    ensures
        reply_index(lookups, message) == n,
    decreases n,
{
    if n > 0 {
        assert forall|i: int| 0 <= i < n - 1 implies !((#[trigger] lookups.skip(1)[i]).local_sent
            && replies_to(message, lookups.skip(1)[i].client_id)) by {
            assert(lookups.skip(1)[i] == lookups[i + 1]);
        }
        lemma_reply_index(lookups.skip(1), message, (n - 1) as nat);
    }
}

proof fn lemma_read_index(lookups: Seq<LookupView>, id: Seq<char>, n: nat)
    requires
        n <= lookups.len(),
        forall|i: int| 0 <= i < n ==> !has_key((#[trigger] lookups[i]).reads, id),
        n < lookups.len() ==> has_key(lookups[n as int].reads, id),
    ensures
        read_index(lookups, id) == n,
    decreases n,
{
    if n > 0 {
        assert forall|i: int| 0 <= i < n - 1 implies !has_key(
            (#[trigger] lookups.skip(1)[i]).reads,
            id,
        ) by {
            assert(lookups.skip(1)[i] == lookups[i + 1]);
        }
        lemma_read_index(lookups.skip(1), id, (n - 1) as nat);
    }
}

pub fn does_reply(message: &Json, id: &Json) -> (r: bool)
    ensures
        r == replies_to(message@, id@),
{
    match message.get("id") {
        Some(own) => own.same(id),
        None => false,
    }
}

impl WebsocketRelay {
    /// Whether the counter of waiting bytes is right, and all limits are kept.
    pub open spec fn wf(&self) -> bool {
        &&& self.queued_bytes == queued_bytes(self@.queue)
        &&& within_limits(self@)
    }

    /// A relay for one client of the profile.
    pub fn new(profile: Profile) -> (r: WebsocketRelay)
        ensures
            r.wf(),
            r@ == initial_relay(
                profile.environment_id@,
                profile.local_exec_port,
                optional_text(profile.remote_home),
            ),
    {
        let r = WebsocketRelay {
            profile,
            initialize_id: None,
            environment_requested: false,
            environment_ready: false,
            status_attempts: 0,
            local_initialize: None,
            host_initialize: None,
            initialize_answered: false,
            queue: VecDeque::new(),
            queued_bytes: 0,
            metadata_sequence: 0,
            lookups: Vec::new(),
        };
        assert(r@.queue =~= Seq::empty());
        assert(r@.lookups =~= Seq::empty());
        r
    }

    fn find_lookup(&self, id: &str) -> (r: usize)
        ensures
            r == lookup_index(self@.lookups, id@),
            r <= self.lookups@.len(),
    {
        let mut i: usize = 0;
        while i < self.lookups.len()
            invariant
                i <= self.lookups.len(),
                self@.lookups.len() == self.lookups.len(),
                forall|j: int| 0 <= j < i ==> (#[trigger] self@.lookups[j]).metadata_id != id@,
            decreases self.lookups.len() - i,
        {
            if same_text(&self.lookups[i].metadata_id, id) {
                proof {
                    assert(self@.lookups[i as int].metadata_id == id@);
                    lemma_lookup_index(self@.lookups, id@, i as nat);
                }
                return i;
            }
            i = i + 1;
        }
        proof {
            lemma_lookup_index(self@.lookups, id@, i as nat);
        }
        i
    }

    fn find_reply(&self, message: &Json) -> (r: usize)
        ensures
            r == reply_index(self@.lookups, message@),
            r <= self.lookups@.len(),
    {
        let mut i: usize = 0;
        while i < self.lookups.len()
            invariant
                i <= self.lookups.len(),
                self@.lookups.len() == self.lookups.len(),
                forall|j: int|
                    0 <= j < i ==> !((#[trigger] self@.lookups[j]).local_sent && replies_to(
                        message@,
                        self@.lookups[j].client_id,
                    )),
            decreases self.lookups.len() - i,
        {
            assert(self@.lookups[i as int] == self.lookups@[i as int]@);
            if self.lookups[i].local_sent && does_reply(message, &self.lookups[i].client_id) {
                proof {
                    lemma_reply_index(self@.lookups, message@, i as nat);
                }
                return i;
            }
            i = i + 1;
        }
        proof {
            lemma_reply_index(self@.lookups, message@, i as nat);
        }
        i
    }

    fn find_read(&self, id: &str) -> (r: usize)
        ensures
            r == read_index(self@.lookups, id@),
            r <= self.lookups@.len(),
            r < self.lookups@.len() ==> has_key(self@.lookups[r as int].reads, id@),
    {
        let mut i: usize = 0;
        while i < self.lookups.len()
            invariant
                i <= self.lookups.len(),
                self@.lookups.len() == self.lookups.len(),
                forall|j: int| 0 <= j < i ==> !has_key((#[trigger] self@.lookups[j]).reads, id@),
            decreases self.lookups.len() - i,
        {
            assert(self@.lookups[i as int] == self.lookups@[i as int]@);
            if self.lookups[i].reads.get(id).is_some() {
                proof {
                    lemma_read_index(self@.lookups, id@, i as nat);
                }
                return i;
            }
            i = i + 1;
        }
        proof {
            lemma_read_index(self@.lookups, id@, i as nat);
        }
        i
    }

    /// Starts a thread locally, unless it has started already.
    fn send_local_thread_start(&mut self, index: usize, actions: &mut Vec<Action>) -> (r: Result<
        (),
        Failure,
    >)
        requires
            old(self).wf(),
            index < old(self).lookups@.len(),
        ensures
            performed(
                start_turn(old(self)@, index as int),
                r,
                old(actions)@,
                final(actions)@,
                final(self)@,
            ),
            final(self).wf(),
    {
        broadcast use lemma_action_views_push;

        let ghost before = self@;
        let ghost given = action_views(actions@);
        assert(before.lookups[index as int] == self.lookups@[index as int]@);
        if self.lookups[index].local_sent {
            assert(given + Seq::<ActionView>::empty() =~= given);
            return Ok(());
        }
        let request = match self.lookups[index].local_start() {
            Ok(request) => request,
            Err(e) => {
                assert(given + Seq::<ActionView>::empty() =~= given);
                return Err(e);
            },
        };
        actions.push(Action::ToServer(encode_json(&request)));
        self.lookups[index].local_sent = true;
        proof {
            let sent = LookupView { local_sent: true, ..before.lookups[index as int] };
            assert(self@.lookups =~= before.lookups.update(index as int, sent));
            assert(given.push(ActionView::ToServer(json_text(request@))) =~= given + seq![
                ActionView::ToServer(json_text(request@)),
            ]);
        }
        Ok(())
    }

    /// Sends a message of the client to whom its route says.
    fn forward_client_message(
        &mut self,
        queued: QueuedMessage,
        now: u64,
        actions: &mut Vec<Action>,
    ) -> (r: Result<(), Failure>)
        requires
            old(self).wf(),
        ensures
            performed(
                forward_turn(old(self)@, queued@, now),
                r,
                old(actions)@,
                final(actions)@,
                final(self)@,
            ),
            final(self).wf(),
            final(self)@.queue == old(self)@.queue,
    {
        broadcast use lemma_action_views_push;

        let ghost before = self@;
        let ghost given = action_views(actions@);
        assert(given + Seq::<ActionView>::empty() =~= given);
        match queued.route {
            RequestRoute::Local => {
                actions.push(Action::ToServer(queued.text));
                assert(given.push(ActionView::ToServer(queued@.text)) =~= given + seq![
                    ActionView::ToServer(queued@.text),
                ]);
                return Ok(());
            },
            RequestRoute::Host => {
                actions.push(Action::ToHost(queued.text));
                assert(given.push(ActionView::ToHost(queued@.text)) =~= given + seq![
                    ActionView::ToHost(queued@.text),
                ]);
                return Ok(());
            },
            RequestRoute::ThreadStart => {},
        }
        let client_id = match queued.message.get("id") {
            Some(id) => id.copy(),
            None => return Err(refuse("thread/start did not contain an id")),
        };
        if self.metadata_sequence < u64::MAX {
            self.metadata_sequence = self.metadata_sequence + 1;
        }
        let mut id = internal_request_id(&self.profile.environment_id, "thread-metadata/");
        id.push_str(&decimal_text(self.metadata_sequence));
        let ghost metadata = id@;
        let local = queued.message;
        let mut shadow = match local.copy() {
            Json::Object(object) => object,
            _ => return Err(refuse("thread/start did not contain an id")),
        };
        let ghost object = shadow@;
        let mut params = match take_object_field(&mut shadow, "params") {
            Ok(params) => params,
            Err(e) => return Err(e),
        };
        let _ = params.take("environments");
        params.insert("ephemeral", Json::Bool(true));
        let ghost inner = JsonView::Object(params@);
        shadow.insert("id", Json::text(&id));
        shadow.insert("params", Json::Object(params));
        assert(shadow@ =~= object.insert("id"@, JsonView::Text(metadata)).insert("params"@, inner));
        let line = encode_json(&Json::Object(shadow));
        assert(given.push(ActionView::ToHost(line@)) =~= given + seq![ActionView::ToHost(line@)]);
        actions.push(Action::ToHost(line));
        let lookup = ProjectLookup {
            metadata_id: id,
            client_id,
            local_request: local,
            host_response: None,
            reads: TextMap::new(),
            instruction_paths: Vec::new(),
            instruction_contents: TextMap::new(),
            started_at: now,
            local_sent: false,
        };
        assert(lookup@.instruction_paths =~= Seq::empty());
        let ghost added = lookup@;
        let i: usize = self.find_lookup(&lookup.metadata_id);
        if i < self.lookups.len() {
            self.lookups.set(i, lookup);
            assert(self@.lookups =~= before.lookups.update(i as int, added));
        } else {
            self.lookups.push(lookup);
            assert(self@.lookups =~= before.lookups.push(added));
        }
        Ok(())
    }

    /// Forwards all that waits.
    fn flush(&mut self, now: u64, actions: &mut Vec<Action>) -> (r: Result<(), Failure>)
        requires
            old(self).wf(),
        ensures
            performed(
                flush_turn(old(self)@, now),
                r,
                old(actions)@,
                final(actions)@,
                final(self)@,
            ),
            final(self).wf(),
    {
        let ghost whole = flush_turn(self@, now);
        let ghost given = action_views(actions@);
        let ghost mut done: Seq<ActionView> = Seq::empty();
        assert(given + done =~= given);
        assert(after_actions(done, whole).actions =~= whole.actions);
        loop
            invariant
                self.wf(),
                whole == flush_turn(old(self)@, now),
                given == action_views(old(actions)@),
                action_views(actions@) == given + done,
                after_actions(done, flush_turn(self@, now)) == whole,
            decreases self@.queue.len(),
        {
            let ghost before = self@;
            match self.queue.pop_front() {
                None => {
                    assert(before.queue.len() == 0);
                    assert(self@.queue =~= before.queue);
                    assert(done + Seq::<ActionView>::empty() =~= done);
                    return Ok(());
                },
                Some(queued) => {
                    let length: usize = queued.text.as_str().as_bytes().len();
                    assert(self@.queue =~= before.queue.skip(1));
                    assert(queued@ == before.queue[0]);
                    self.queued_bytes = self.queued_bytes - length;
                    let ghost first = forward_turn(self@, queued@, now);
                    match self.forward_client_message(queued, now, actions) {
                        Ok(_) => {
                            proof {
                                let rest = flush_turn(self@, now);
                                assert(given + done + first.actions =~= given + (done
                                    + first.actions));
                                assert(done + (first.actions + rest.actions) =~= done
                                    + first.actions + rest.actions);
                                done = done + first.actions;
                            }
                        },
                        Err(e) => {
                            assert(given + done + first.actions =~= given + (done + first.actions));
                            return Err(e);
                        },
                    }
                },
            }
        }
    }

    /// Ends a turn: answers initialize and forwards what waits, as soon as
    /// that is possible.
    fn settle(&mut self, now: u64, actions: &mut Vec<Action>) -> (r: Result<(), Failure>)
        requires
            old(self).wf(),
        ensures
            performed(
                settle_turn(old(self)@, now),
                r,
                old(actions)@,
                final(actions)@,
                final(self)@,
            ),
            final(self).wf(),
    {
        broadcast use lemma_action_views_push;

        let ghost before = self@;
        let ghost given = action_views(actions@);
        assert(given + Seq::<ActionView>::empty() =~= given);
        if !self.initialize_answered && self.local_initialize.is_some()
            && self.host_initialize.is_some() {
            let merged = match (&self.local_initialize, &self.host_initialize) {
                (Some(local), Some(host)) => match merge_initialize_response(
                    local.copy(),
                    host,
                    &self.profile.remote_home,
                ) {
                    Ok(merged) => merged,
                    Err(e) => return Err(e),
                },
                _ => return Ok(()),
            };
            let text = encode_json(&merged);
            let ghost answer = ActionView::ToClient(text@);
            actions.push(Action::ToClient(text));
            assert(given.push(answer) =~= given + seq![answer]);
            self.local_initialize = None;
            self.initialize_answered = true;
            if self.environment_ready {
                let ghost next = flush_turn(self@, now);
                let r = self.flush(now, actions);
                assert(given.push(answer) + next.actions =~= given + (seq![answer] + next.actions));
                return r;
            }
            assert(seq![answer] + Seq::<ActionView>::empty() =~= seq![answer]);
            return Ok(());
        }
        if self.environment_ready && self.initialize_answered {
            return self.flush(now, actions);
        }
        Ok(())
    }

    /// Takes one message of the client.
    pub fn on_client_message(
        &mut self,
        message: Json,
        now: u64,
        actions: &mut Vec<Action>,
    ) -> (r: Result<(), Failure>)
        requires
            old(self).wf(),
        ensures
            performed(
                client_turn(old(self)@, message@, now),
                r,
                old(actions)@,
                final(actions)@,
                final(self)@,
            ),
            final(self).wf(),
    {
        let ghost given = action_views(actions@);
        assert(given + Seq::<ActionView>::empty() =~= given);
        let message = match rewrite_client_value(
            message,
            &self.profile.environment_id,
            &mut self.initialize_id,
        ) {
            Ok(message) => message,
            Err(e) => return Err(e),
        };
        let ghost first = deliver_turn(self@, message@, now);
        match self.deliver(message, now, actions) {
            Ok(_) => {},
            Err(e) => return Err(e),
        }
        let ghost next = settle_turn(self@, now);
        assert(given + first.actions + next.actions =~= given + (first.actions + next.actions));
        self.settle(now, actions)
    }

    /// Sends a rewritten message on, or lets it wait.
    fn deliver(&mut self, message: Json, now: u64, actions: &mut Vec<Action>) -> (r: Result<
        (),
        Failure,
    >)
        requires
            old(self).wf(),
        ensures
            performed(
                deliver_turn(old(self)@, message@, now),
                r,
                old(actions)@,
                final(actions)@,
                final(self)@,
            ),
            final(self).wf(),
    {
        broadcast use lemma_action_views_push;

        let ghost before = self@;
        let ghost given = action_views(actions@);
        assert(given + Seq::<ActionView>::empty() =~= given);
        let text = encode_json(&message);
        let ghost whole = message@;
        if message.field_is("method", "initialize") {
            match message {
                Json::Object(object) => {
                    let mut object = object;
                    let id = internal_request_id(&self.profile.environment_id, "host-initialize");
                    object.insert("id", Json::Text(id));
                    let line = encode_json(&Json::Object(object));
                    assert(given.push(ActionView::ToHost(line@)).push(ActionView::ToServer(text@))
                        =~= given + seq![ActionView::ToHost(line@), ActionView::ToServer(text@)]);
                    actions.push(Action::ToHost(line));
                    actions.push(Action::ToServer(text));
                    return Ok(());
                },
                _ => {
                    assert(false);
                    return Ok(());
                },
            }
        }
        let route = request_route(message.get_text("method"));
        let length: usize = text.as_str().as_bytes().len();
        let queued = QueuedMessage { text, message, route };
        if self.initialize_id.is_some() && (!self.environment_ready || !self.initialize_answered) {
            if length > MAX_PENDING_CLIENT_BYTES || self.queued_bytes > MAX_PENDING_CLIENT_BYTES
                - length {
                return Err(
                    refuse("client sent too much data before the remote host became ready"),
                );
            }
            proof {
                lemma_queued_bytes_push(self@.queue, queued@);
            }
            self.queued_bytes = self.queued_bytes + length;
            let ghost added = queued@;
            self.queue.push_back(queued);
            assert(self@.queue =~= before.queue.push(added));
            return Ok(());
        }
        self.forward_client_message(queued, now, actions)
    }

    /// Takes one message of the local App Server.
    pub fn on_server_message(
        &mut self,
        message: Json,
        now: u64,
        actions: &mut Vec<Action>,
    ) -> (r: Result<(), Failure>)
        requires
            old(self).wf(),
        ensures
            performed(
                server_turn(old(self)@, message@, now),
                r,
                old(actions)@,
                final(actions)@,
                final(self)@,
            ),
            final(self).wf(),
    {
        broadcast use lemma_action_views_push;

        let ghost before = self@;
        let ghost given = action_views(actions@);
        let ghost mut first: Turn = goes_on(before, Seq::empty());
        assert(given + Seq::<ActionView>::empty() =~= given);
        if message.field_is(
            "id",
            &internal_request_id(&self.profile.environment_id, "environment-add"),
        ) {
            return self.environment_added(&message, actions);
        }
        if message.field_is(
            "id",
            &internal_request_id(&self.profile.environment_id, "environment-status"),
        ) {
            return self.environment_reported(&message, now, actions);
        }
        let is_initialize_reply = !self.environment_requested && match &self.initialize_id {
            Some(id) => does_reply(&message, id),
            None => false,
        };
        if is_initialize_reply {
            match message.get("error") {
                Some(error) => {
                    return Err(refuse_json("app-server initialize failed: ", error));
                },
                None => {},
            }
            proof {
                first = initialized_turn(before, message@);
            }
            let add = environment_add_request(
                &self.profile.environment_id,
                self.profile.local_exec_port,
            );
            let text = encode_json(&add);
            assert(given.push(ActionView::ToServer(text@)) =~= given + seq![
                ActionView::ToServer(text@),
            ]);
            actions.push(Action::ToServer(text));
            self.local_initialize = Some(message);
            self.environment_requested = true;
        } else {
            let index: usize = self.find_reply(&message);
            if index < self.lookups.len() {
                proof {
                    first = started_turn(before, index as int, message@);
                }
                let lookup = self.lookups.remove(index);
                assert(lookup@ == before.lookups[index as int]);
                assert(self@.lookups =~= before.lookups.remove(index as int));
                let merged = match &lookup.host_response {
                    Some(host) => match merge_thread_metadata(message, host) {
                        Ok(merged) => merged,
                        Err(e) => return Err(e),
                    },
                    None => message,
                };
                let text = encode_json(&merged);
                assert(given.push(ActionView::ToClient(text@)) =~= given + seq![
                    ActionView::ToClient(text@),
                ]);
                actions.push(Action::ToClient(text));
            } else {
                proof {
                    first = goes_on(before, seq![ActionView::PassToClient]);
                }
                assert(given.push(ActionView::PassToClient) =~= given + seq![
                    ActionView::PassToClient,
                ]);
                actions.push(Action::PassToClient);
            }
        }
        let ghost next = settle_turn(self@, now);
        assert(given + first.actions + next.actions =~= given + (first.actions + next.actions));
        self.settle(now, actions)
    }

    fn environment_added(&mut self, message: &Json, actions: &mut Vec<Action>) -> (r: Result<
        (),
        Failure,
    >)
        requires
            old(self).wf(),
        ensures
            performed(
                added_turn(old(self)@, message@),
                r,
                old(actions)@,
                final(actions)@,
                final(self)@,
            ),
            final(self).wf(),
    {
        let ghost given = action_views(actions@);
        match message.get("error") {
            Some(error) => {
                assert(given + Seq::<ActionView>::empty() =~= given);
                return Err(refuse_json("environment/add failed: ", error));
            },
            None => {},
        }
        self.ask_status(actions);
        self.status_attempts = 1;
        Ok(())
    }

    /// Asks the local App Server whether the environment is ready.
    fn ask_status(&self, actions: &mut Vec<Action>)
        ensures
            action_views(final(actions)@) == action_views(old(actions)@) + seq![
                status_question(self@.environment),
            ],
    {
        broadcast use lemma_action_views_push;

        let ghost given = action_views(actions@);
        let id = internal_request_id(&self.profile.environment_id, "environment-status");
        let text = encode_json(&environment_status_request(&id, &self.profile));
        assert(given.push(ActionView::ToServer(text@)) =~= given + seq![
            ActionView::ToServer(text@),
        ]);
        actions.push(Action::ToServer(text));
    }

    fn environment_reported(
        &mut self,
        message: &Json,
        now: u64,
        actions: &mut Vec<Action>,
    ) -> (r: Result<(), Failure>)
        requires
            old(self).wf(),
        ensures
            performed(
                status_turn(old(self)@, message@, now),
                r,
                old(actions)@,
                final(actions)@,
                final(self)@,
            ),
            final(self).wf(),
    {
        broadcast use lemma_action_views_push;

        let ghost given = action_views(actions@);
        assert(given + Seq::<ActionView>::empty() =~= given);
        let ready = match environment_status_ready(message) {
            Ok(ready) => ready,
            Err(e) => return Err(e),
        };
        if ready {
            self.environment_ready = true;
            if self.initialize_answered {
                return self.flush(now, actions);
            }
            return Ok(());
        }
        if self.status_attempts >= MAX_STATUS_ATTEMPTS {
            return Err(refuse("execution environment did not become ready within 10 seconds"));
        }
        self.status_attempts = self.status_attempts + 1;
        actions.push(Action::Pause(STATUS_PAUSE));
        self.ask_status(actions);
        proof {
            let pause = ActionView::Pause(STATUS_PAUSE);
            let ask = status_question(self@.environment);
            assert(given.push(pause) + seq![ask] =~= given + seq![pause, ask]);
        }
        Ok(())
    }

    /// Takes one line of the host.
    pub fn on_host_message(
        &mut self,
        message: Json,
        now: u64,
        actions: &mut Vec<Action>,
    ) -> (r: Result<(), Failure>)
        requires
            old(self).wf(),
        ensures
            performed(
                host_turn(old(self)@, message@, now),
                r,
                old(actions)@,
                final(actions)@,
                final(self)@,
            ),
            final(self).wf(),
    {
        let ghost given = action_views(actions@);
        let ghost first = host_message_turn(self@, message@);
        match self.take_host_message(message, actions) {
            Ok(_) => {},
            Err(e) => return Err(e),
        }
        let ghost next = settle_turn(self@, now);
        assert(given + first.actions + next.actions =~= given + (first.actions + next.actions));
        self.settle(now, actions)
    }

    fn take_host_message(&mut self, message: Json, actions: &mut Vec<Action>) -> (r: Result<
        (),
        Failure,
    >)
        requires
            old(self).wf(),
        ensures
            performed(
                host_message_turn(old(self)@, message@),
                r,
                old(actions)@,
                final(actions)@,
                final(self)@,
            ),
            final(self).wf(),
    {
        broadcast use lemma_action_views_push;

        let ghost given = action_views(actions@);
        assert(given + Seq::<ActionView>::empty() =~= given);
        match message.get_text("id") {
            Some(id) => {
                let id = id.to_owned();
                if same_text(
                    &id,
                    &internal_request_id(&self.profile.environment_id, "host-initialize"),
                ) {
                    match message.get("error") {
                        Some(error) => {
                            return Err(
                                refuse_json("remote Host App Server initialize failed: ", error),
                            );
                        },
                        None => {},
                    }
                    self.host_initialize = Some(message);
                    return Ok(());
                }
                let index: usize = self.find_lookup(&id);
                if index < self.lookups.len() {
                    return self.take_lookup_reply(index, message, actions);
                }
                let index: usize = self.find_read(&id);
                if index < self.lookups.len() {
                    return self.take_read_reply(index, &id, &message, actions);
                }
            },
            None => {},
        }
        if host_message_allowed(&message, &self.profile) {
            actions.push(Action::PassToClient);
            assert(given.push(ActionView::PassToClient) =~= given + seq![ActionView::PassToClient]);
        }
        Ok(())
    }

    fn take_lookup_reply(
        &mut self,
        index: usize,
        message: Json,
        actions: &mut Vec<Action>,
    ) -> (r: Result<(), Failure>)
        requires
            old(self).wf(),
            index < old(self).lookups@.len(),
        ensures
            performed(
                lookup_turn(old(self)@, index as int, message@),
                r,
                old(actions)@,
                final(actions)@,
                final(self)@,
            ),
            final(self).wf(),
    {
        broadcast use lemma_action_views_push;

        let ghost before = self@;
        let ghost given = action_views(actions@);
        assert(given + Seq::<ActionView>::empty() =~= given);
        assert(before.lookups[index as int] == self.lookups@[index as int]@);
        if message.get("error").is_some() {
            return self.send_local_thread_start(index, actions);
        }
        if self.lookups[index].local_sent {
            let ghost known = LookupView {
                host_response: Some(message@),
                ..before.lookups[index as int]
            };
            self.lookups[index].host_response = Some(message);
            assert(self@.lookups =~= before.lookups.update(index as int, known));
            return Ok(());
        }
        let paths = instruction_source_paths(&message);
        let ghost sources = texts(paths@);
        let ghost known = LookupView {
            host_response: Some(message@),
            instruction_paths: sources,
            ..before.lookups[index as int]
        };
        let ghost whole = project_turn(before, index as int, message@);
        self.lookups[index].host_response = Some(message);
        if paths.len() == 0 {
            self.lookups[index].instruction_paths = paths;
            assert(self@.lookups =~= before.lookups.update(index as int, known));
            return self.send_local_thread_start(index, actions);
        }
        let ghost id = before.lookups[index as int].metadata_id;
        let ghost reads = before.lookups[index as int].reads;
        let mut i: usize = 0;
        assert(read_actions(id, sources).take(0) =~= Seq::empty());
        while i < paths.len()
            invariant
                i <= paths.len(),
                sources == texts(paths@),
                index < self.lookups@.len(),
                self.lookups@.len() == before.lookups.len(),
                id == before.lookups[index as int].metadata_id,
                reads == before.lookups[index as int].reads,
                self@ == (RelayView { lookups: self@.lookups, ..before }),
                self.queued_bytes == queued_bytes(before.queue),
                forall|j: int|
                    0 <= j < before.lookups.len() && j != index ==> #[trigger] self@.lookups[j]
                        == before.lookups[j],
                self.lookups@[index as int]@ == (LookupView {
                    host_response: known.host_response,
                    reads: reads_after(reads, id, sources, i as nat),
                    ..before.lookups[index as int]
                }),
                action_views(actions@) == given + read_actions(id, sources).take(i as int),
            decreases paths.len() - i,
        {
            let ghost earlier = self@.lookups;
            let mut read = self.lookups[index].metadata_id.clone();
            read.push_str("/instruction/");
            read.push_str(&decimal_text(i as u64));
            let mut params = JsonObject::new();
            params.insert("path", Json::text(&paths[i]));
            let line = encode_json(&make_request(&read, "fs/readFile", params));
            proof {
                assert(sources[i as int] == paths@[i as int]@);
                assert(read@ == read_id(id, i as nat));
                assert(ActionView::ToHost(line@) == read_actions(id, sources)[i as int]);
                assert(read_actions(id, sources).take(i as int + 1) =~= read_actions(
                    id,
                    sources,
                ).take(i as int).push(ActionView::ToHost(line@)));
                assert((given + read_actions(id, sources).take(i as int)).push(
                    ActionView::ToHost(line@),
                ) =~= given + read_actions(id, sources).take(i as int + 1));
            }
            actions.push(Action::ToHost(line));
            self.lookups[index].reads.set(read, paths[i].clone());
            proof {
                assert forall|j: int| 0 <= j < before.lookups.len() && j != index implies
                    #[trigger] self@.lookups[j] == before.lookups[j] by {
                    assert(self@.lookups[j] == earlier[j]);
                }
            }
            i = i + 1;
        }
        let ghost looped = self@.lookups;
        self.lookups[index].instruction_paths = paths;
        proof {
            lemma_reads_distinct(reads, id, sources, sources.len());
            assert forall|j: int| 0 <= j < before.lookups.len() && j != index implies
                #[trigger] self@.lookups[j] == before.lookups[j] by {
                assert(self@.lookups[j] == looped[j]);
            }
            let asked = LookupView {
                reads: reads_after(reads, id, sources, sources.len()),
                ..known
            };
            assert(read_actions(id, sources).take(i as int) =~= read_actions(id, sources));
            assert(self@.lookups =~= before.lookups.update(index as int, asked));
        }
        Ok(())
    }

    fn take_read_reply(
        &mut self,
        index: usize,
        id: &str,
        message: &Json,
        actions: &mut Vec<Action>,
    ) -> (r: Result<(), Failure>)
        requires
            old(self).wf(),
            index < old(self).lookups@.len(),
            has_key(old(self)@.lookups[index as int].reads, id@),
        ensures
            performed(
                read_turn(old(self)@, index as int, id@, message@),
                r,
                old(actions)@,
                final(actions)@,
                final(self)@,
            ),
            final(self).wf(),
    {
        let ghost before = self@;
        let ghost given = action_views(actions@);
        assert(given + Seq::<ActionView>::empty() =~= given);
        let mut lookup = self.lookups.remove(index);
        assert(lookup@ == before.lookups[index as int]);
        let recorded = lookup.record_instruction_read(id, message);
        let waiting = !lookup.reads.is_empty();
        let ghost known = lookup@;
        self.lookups.insert(index, lookup);
        assert(self@.lookups =~= before.lookups.update(index as int, known));
        match recorded {
            Ok(_) => {},
            Err(e) => return Err(e),
        }
        if waiting {
            return Ok(());
        }
        self.send_local_thread_start(index, actions)
    }

    /// Takes one text frame of the client.
    pub fn on_client_text(&mut self, text: &str, now: u64, actions: &mut Vec<Action>) -> (r: Result<
        (),
        Failure,
    >)
        requires
            old(self).wf(),
        ensures
            performed(
                match parsed_json(encode_utf8(text@)) {
                    Some(message) => client_turn(old(self)@, message, now),
                    None => goes_on(old(self)@, passed_on(Peer::Client)),
                },
                r,
                old(actions)@,
                final(actions)@,
                final(self)@,
            ),
            final(self).wf(),
    {
        match parse_json(text.as_bytes()) {
            Some(message) => self.on_client_message(message, now, actions),
            None => {
                pass_frame(Peer::Client, actions);
                Ok(())
            },
        }
    }

    /// Takes one text frame of the local App Server.
    pub fn on_server_text(&mut self, text: &str, now: u64, actions: &mut Vec<Action>) -> (r: Result<
        (),
        Failure,
    >)
        requires
            old(self).wf(),
        ensures
            performed(
                match parsed_json(encode_utf8(text@)) {
                    Some(message) => server_turn(old(self)@, message, now),
                    None => goes_on(old(self)@, passed_on(Peer::Server)),
                },
                r,
                old(actions)@,
                final(actions)@,
                final(self)@,
            ),
            final(self).wf(),
    {
        match parse_json(text.as_bytes()) {
            Some(message) => self.on_server_message(message, now, actions),
            None => {
                pass_frame(Peer::Server, actions);
                Ok(())
            },
        }
    }

    /// Takes one line of the host.
    pub fn on_host_line(&mut self, line: &[u8], now: u64, actions: &mut Vec<Action>) -> (r: Result<
        (),
        Failure,
    >)
        requires
            old(self).wf(),
        ensures
            performed(
                match parsed_json(line@) {
                    Some(message) => host_turn(old(self)@, message, now),
                    None => stops(
                        old(self)@,
                        Seq::empty(),
                        "remote Host App Server emitted invalid JSONL"@,
                    ),
                },
                r,
                old(actions)@,
                final(actions)@,
                final(self)@,
            ),
            final(self).wf(),
    {
        match parse_json(line) {
            Some(message) => self.on_host_message(message, now, actions),
            None => {
                assert(action_views(actions@) + Seq::<ActionView>::empty() =~= action_views(
                    actions@,
                ));
                Err(refuse("remote Host App Server emitted invalid JSONL"))
            },
        }
    }

    /// Whether some thread waits for its project, so that the clock matters.
    pub fn wants_tick(&self) -> (r: bool)
        ensures
            r == exists|i: int|
                0 <= i < self@.lookups.len() && !(#[trigger] self@.lookups[i]).local_sent,
    {
        let mut i: usize = 0;
        while i < self.lookups.len()
            invariant
                i <= self.lookups.len(),
                self@.lookups.len() == self.lookups.len(),
                forall|j: int| 0 <= j < i ==> (#[trigger] self@.lookups[j]).local_sent,
            decreases self.lookups.len() - i,
        {
            assert(self@.lookups[i as int] == self.lookups@[i as int]@);
            if !self.lookups[i].local_sent {
                return true;
            }
            i = i + 1;
        }
        false
    }

    /// Lets the clock strike: threads that have waited long enough start.
    pub fn on_tick(&mut self, now: u64, actions: &mut Vec<Action>) -> (r: Result<(), Failure>)
        requires
            old(self).wf(),
        ensures
            performed(
                tick_turn(old(self)@, now),
                r,
                old(actions)@,
                final(actions)@,
                final(self)@,
            ),
            final(self).wf(),
    {
        let ghost given = action_views(actions@);
        let ghost whole = expire_turn(self@, 0, now);
        let ghost mut done: Seq<ActionView> = Seq::empty();
        let mut i: usize = 0;
        assert(given + done =~= given);
        assert(after_actions(done, whole).actions =~= whole.actions);
        while i < self.lookups.len()
            invariant
                self.wf(),
                i <= self.lookups.len(),
                whole == expire_turn(old(self)@, 0, now),
                given == action_views(old(actions)@),
                action_views(actions@) == given + done,
                after_actions(done, expire_turn(self@, i as nat, now)) == whole,
            decreases self.lookups.len() - i,
        {
            assert(self@.lookups[i as int] == self.lookups@[i as int]@);
            if !self.lookups[i].local_sent && now >= self.lookups[i].started_at && now
                - self.lookups[i].started_at >= PROJECT_METADATA_TIMEOUT {
                let ghost first = start_turn(self@, i as int);
                match self.send_local_thread_start(i, actions) {
                    Ok(_) => {
                        proof {
                            let rest = expire_turn(self@, i as nat + 1, now);
                            assert(given + done + first.actions =~= given + (done + first.actions));
                            assert(done + (first.actions + rest.actions) =~= done + first.actions
                                + rest.actions);
                            done = done + first.actions;
                        }
                    },
                    Err(e) => {
                        assert(given + done + first.actions =~= given + (done + first.actions));
                        return Err(e);
                    },
                }
            }
            i = i + 1;
        }
        proof {
            let next = settle_turn(self@, now);
            assert(done + Seq::<ActionView>::empty() =~= done);
            assert(given + done + next.actions =~= given + (done + next.actions));
        }
        self.settle(now, actions)
    }
}

impl ProjectLookup {
    /// Takes the host's reply to the read `id` of an instruction file.
    pub fn record_instruction_read(&mut self, id: &str, response: &Json) -> (r: Result<(), Failure>)
        requires
            has_key(old(self)@.reads, id@),
            lookup_within_limits(old(self)@),
        ensures
            match r {
                Ok(_) => read_reply(old(self)@, id@, response@) == Ok::<LookupView, Seq<char>>(
                    final(self)@,
                ),
                Err(e) => read_reply(old(self)@, id@, response@) == Err::<LookupView, Seq<char>>(
                    e@,
                ) && final(self)@ == (LookupView {
                    reads: without_entry(old(self)@.reads, id@),
                    ..old(self)@
                }),
            },
            lookup_within_limits(final(self)@),
            !has_key(final(self)@.reads, id@),
    {
        proof {
            lemma_without_entry_distinct(self.reads@, id@);
        }
        let path = match self.reads.take(id) {
            Some(path) => path,
            None => return Ok(()),
        };
        match response.get_nested("result", "dataBase64") {
            Some(Json::Text(encoded)) => self.record_contents(path, decode_base64(encoded)),
            _ => Ok(()),
        }
    }

    /// Adds the contents of an instruction file, within the limits.
    pub fn record_contents(&mut self, path: String, decoded: Option<Vec<u8>>) -> (r: Result<
        (),
        Failure,
    >)
        requires
            lookup_within_limits(old(self)@),
        ensures
            ({
                let bytes = match decoded {
                    Some(bytes) => Some(bytes@),
                    None => None,
                };
                match r {
                    Ok(_) => recorded(old(self)@, path@, bytes) == Ok::<LookupView, Seq<char>>(
                        final(self)@,
                    ) && lookup_within_limits(final(self)@),
                    Err(e) => recorded(old(self)@, path@, bytes) == Err::<LookupView, Seq<char>>(
                        e@,
                    ) && final(self)@ == old(self)@,
                }
            }),
    {
        let bytes = match decoded {
            Some(bytes) => bytes,
            None => {
                return Err(
                    refuse_about("Host App Server returned invalid base64 for ", &path),
                );
            },
        };
        let length: usize = bytes.len();
        if length > MAX_INSTRUCTION_SOURCE_BYTES {
            return Err(refuse_about("remote instruction source is too large: ", &path));
        }
        if self.instruction_contents.value_len() + length > MAX_INSTRUCTION_TOTAL_BYTES {
            return Err(refuse("remote instruction sources exceed the aggregate size limit"));
        }
        let ghost given = bytes@;
        match text_of_utf8(bytes) {
            Some(contents) => {
                proof {
                    encode_utf8_valid_utf8(contents@);
                    encode_utf8_decode_utf8(contents@);
                    lemma_value_bytes_with_entry(
                        self.instruction_contents@,
                        path@,
                        contents@,
                    );
                    assert(encode_utf8(contents@) == given);
                }
                self.instruction_contents.set(path, contents);
                Ok(())
            },
            None => Err(refuse_about("remote instruction source is not UTF-8: ", &path)),
        }
    }
}

/// Asking for files leaves no read to be waited for twice.
proof fn lemma_reads_distinct(
    reads: Seq<(Seq<char>, Seq<char>)>,
    id: Seq<char>,
    paths: Seq<Seq<char>>,
    n: nat,
)
    requires
        distinct_keys(reads),
    ensures
        distinct_keys(reads_after(reads, id, paths, n)),
    decreases n,
{
    if n > 0 {
        lemma_reads_distinct(reads, id, paths, (n - 1) as nat);
        lemma_with_entry_distinct(
            reads_after(reads, id, paths, (n - 1) as nat),
            read_id(id, (n - 1) as nat),
            paths[n - 1],
        );
    }
}

proof fn lemma_queued_bytes_push(queue: Seq<QueuedView>, queued: QueuedView)
    ensures
        queued_bytes(queue.push(queued)) == queued_bytes(queue) + encode_utf8(queued.text).len(),
    decreases queue.len(),
{
    if queue.len() == 0 {
        let none = queue.push(queued).skip(1);
        assert(none.len() == 0);
        assert(queued_bytes(none) == 0);
        assert(queue.push(queued)[0] == queued);
    } else {
        assert(queue.push(queued)[0] == queue[0]);
        assert(queue.push(queued).skip(1) =~= queue.skip(1).push(queued));
        lemma_queued_bytes_push(queue.skip(1), queued);
    }
}

} // verus!
