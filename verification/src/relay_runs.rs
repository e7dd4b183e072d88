//! What holds of the relay over a whole run of messages.

use vstd::prelude::*;
use crate::bridge::{
    environment_add, initialize_id_after, internal_id, merged_initialize, method_of, rewritten,
    status_reply,
};
use crate::bridge_laws::law_rewriting_keeps_other_fields;
use crate::json::{JsonView, field, json_text, text_of};
use crate::jsonl_laws::{is_bridge_reply, status_texts};
use crate::relay::{Peer, initial_relay, passed_on};
use crate::relay_laws::{
    is_settled, law_requests_wait, law_turns_settle, no_step_back, lemma_texts_of_join,
    lemma_texts_of_one, server_texts,
};
use crate::relay_model::{
    ActionView, QueuedView, RelayView, RequestRoute, STATUS_PAUSE, Turn, client_turn, deliver_turn,
    expire_turn, flush_turn, forward_turn, goes_on, has_expired, is_initialize_reply, start_turn,
    host_message_turn, host_turn, initialized_turn, metadata_id, must_wait, next_sequence,
    reply_index, replies_to, route_of, server_turn, settle_turn, settled, shadow_request,
    started_turn, status_question, tick_turn,
};

verus! {

/// What reaches the relay: a message of one of its peers, a frame without a
/// message, or the clock.
pub enum RelayEvent {
    Client(JsonView),
    Server(JsonView),
    Host(JsonView),
    Frame(Peer),
    Tick,
}

pub open spec fn relay_turn(state: RelayView, event: RelayEvent, now: u64) -> Turn {
    match event {
        RelayEvent::Client(message) => client_turn(state, message, now),
        RelayEvent::Server(message) => server_turn(state, message, now),
        RelayEvent::Host(message) => host_turn(state, message, now),
        RelayEvent::Frame(peer) => goes_on(state, passed_on(peer)),
        RelayEvent::Tick => tick_turn(state, now),
    }
}

/// The events one after the other, each at its time, up to the one that ends
/// the relay.
pub open spec fn relay_run(state: RelayView, events: Seq<(RelayEvent, u64)>) -> Turn
    decreases events.len(),
{
    if events.len() == 0 {
        Turn { state, actions: Seq::empty(), outcome: Ok(()) }
    } else {
        let before = relay_run(state, events.drop_last());
        if before.outcome is Err {
            before
        } else {
            let turn = relay_turn(before.state, events.last().0, events.last().1);
            Turn {
                state: turn.state,
                actions: before.actions + turn.actions,
                outcome: turn.outcome,
            }
        }
    }
}

// ---------------------------------------------------------------------------
// Requests of the client
// ---------------------------------------------------------------------------

/// A request of the client as the relay forwards it.
pub open spec fn request_of(environment: Seq<char>, message: JsonView) -> QueuedView {
    let value = rewritten(message, environment)->Ok_0;
    QueuedView { text: json_text(value), message: value, route: route_of(method_of(message)) }
}

/// The requests that an event adds: one of the client, unless it initializes.
pub open spec fn added_requests(environment: Seq<char>, event: RelayEvent) -> Seq<QueuedView> {
    match event {
        RelayEvent::Client(message) => if method_of(message) == Some("initialize"@) {
            Seq::empty()
        } else {
            seq![request_of(environment, message)]
        },
        _ => Seq::empty(),
    }
}

/// All requests of the client, in the order in which they came.
pub open spec fn requests(environment: Seq<char>, events: Seq<(RelayEvent, u64)>) -> Seq<QueuedView>
    decreases events.len(),
{
    if events.len() == 0 {
        Seq::empty()
    } else {
        requests(environment, events.drop_last()) + added_requests(environment, events.last().0)
    }
}

/// What becomes of a request: the host's own go to the host, a thread goes to
/// the host first, under an id of the bridge, and all others go to the local
/// App Server.
pub open spec fn request_action(
    request: QueuedView,
    environment: Seq<char>,
    sequence: u64,
) -> ActionView {
    match request.route {
        RequestRoute::Local => ActionView::ToServer(request.text),
        RequestRoute::Host => ActionView::ToHost(request.text),
        RequestRoute::ThreadStart => ActionView::ToHost(
            json_text(
                shadow_request(
                    request.message->Object_0,
                    metadata_id(environment, next_sequence(sequence)),
                )->Ok_0,
            ),
        ),
    }
}

/// The number of the last thread, once a request has been forwarded.
pub open spec fn sequence_after(request: QueuedView, sequence: u64) -> u64 {
    if request.route == RequestRoute::ThreadStart {
        next_sequence(sequence)
    } else {
        sequence
    }
}

/// What becomes of requests, one action each, in order.
pub open spec fn forwarded(queue: Seq<QueuedView>, environment: Seq<char>, sequence: u64) -> Seq<
    ActionView,
>
    decreases queue.len(),
{
    if queue.len() == 0 {
        Seq::empty()
    } else {
        seq![request_action(queue[0], environment, sequence)] + forwarded(
            queue.skip(1),
            environment,
            sequence_after(queue[0], sequence),
        )
    }
}

proof fn lemma_forwarded(state: RelayView, request: QueuedView, now: u64)
    requires
        forward_turn(state, request, now).outcome is Ok,
    ensures
        ({
            let turn = forward_turn(state, request, now);
            &&& turn.actions == seq![
                request_action(request, state.environment, state.metadata_sequence),
            ]
            &&& turn.state == (RelayView {
                metadata_sequence: sequence_after(request, state.metadata_sequence),
                lookups: turn.state.lookups,
                ..state
            })
        }),
{
}

/// What waits is forwarded in the order in which it came, one action each,
/// threads among the rest.
pub proof fn law_all_waiting_requests_keep_their_order(state: RelayView, now: u64)
    requires
        flush_turn(state, now).outcome is Ok,
    ensures
        flush_turn(state, now).actions == forwarded(
            state.queue,
            state.environment,
            state.metadata_sequence,
        ),
        flush_turn(state, now).state.queue.len() == 0,
    decreases state.queue.len(),
{
    if state.queue.len() > 0 {
        let rest = RelayView { queue: state.queue.skip(1), ..state };
        let first = forward_turn(rest, state.queue[0], now);
        lemma_forwarded(rest, state.queue[0], now);
        law_all_waiting_requests_keep_their_order(first.state, now);
    }
}

/// Whether `all` ends with `tail`.
pub open spec fn ends_in(all: Seq<ActionView>, tail: Seq<ActionView>) -> bool {
    tail.len() <= all.len() && all.skip(all.len() - tail.len()) == tail
}

/// The requests that a turn forwards: all that wait, or none.
pub open spec fn forwarded_by(state: RelayView, event: RelayEvent, now: u64) -> Seq<QueuedView> {
    if relay_turn(state, event, now).state.queue.len() == 0 {
        state.queue + added_requests(state.environment, event)
    } else {
        Seq::empty()
    }
}

proof fn lemma_ends_in(head: Seq<ActionView>, tail: Seq<ActionView>)
    ensures
        ends_in(head + tail, tail),
{
    assert((head + tail).skip(head.len() as int) =~= tail);
}

/// Forwarding changes nothing but the queue, the number of the last thread and
/// the threads that wait.
proof fn lemma_flush_keeps(state: RelayView, now: u64)
    requires
        flush_turn(state, now).outcome is Ok,
    ensures
        ({
            let next = flush_turn(state, now).state;
            next == (RelayView {
                queue: next.queue,
                metadata_sequence: next.metadata_sequence,
                lookups: next.lookups,
                ..state
            })
        }),
    decreases state.queue.len(),
{
    if state.queue.len() > 0 {
        let rest = RelayView { queue: state.queue.skip(1), ..state };
        lemma_forwarded(rest, state.queue[0], now);
        lemma_flush_keeps(forward_turn(rest, state.queue[0], now).state, now);
    }
}

proof fn lemma_settle_forwards(first: Turn, now: u64)
    requires
        first.outcome is Ok,
        settled(first, now).outcome is Ok,
    ensures
        ({
            let turn = settled(first, now);
            let waiting = first.state.queue;
            ||| turn.state.queue == waiting && waiting.len() > 0
            ||| turn.state.queue.len() == 0 && ends_in(
                turn.actions,
                forwarded(waiting, first.state.environment, first.state.metadata_sequence),
            ) && (waiting.len() > 0 ==> turn.state.environment_ready
                && turn.state.initialize_answered)
        }),
{
    let state = first.state;
    let tail = forwarded(state.queue, state.environment, state.metadata_sequence);
    let settling = settle_turn(state, now);
    let answered = RelayView { local_initialize: None, initialize_answered: true, ..state };
    if state.queue.len() == 0 {
        lemma_ends_in(settled(first, now).actions, Seq::empty());
        assert(settled(first, now).actions + Seq::empty() =~= settled(first, now).actions);
    }
    if state.environment_ready && state.initialize_answered {
        law_all_waiting_requests_keep_their_order(state, now);
        lemma_flush_keeps(state, now);
        lemma_ends_in(first.actions, tail);
    } else if let (Some(local), Some(host)) = (state.local_initialize, state.host_initialize) {
        if !state.initialize_answered && state.environment_ready {
            let merged = merged_initialize(local, host, state.remote_home)->Ok_0;
            let reply = seq![ActionView::ToClient(json_text(merged))];
            law_all_waiting_requests_keep_their_order(answered, now);
            lemma_flush_keeps(answered, now);
            lemma_ends_in(first.actions + reply, tail);
            assert(first.actions + (reply + tail) =~= first.actions + reply + tail);
        }
    }
}

proof fn lemma_expire_keeps(state: RelayView, index: nat, now: u64)
    ensures
        expire_turn(state, index, now).outcome is Ok ==> expire_turn(state, index, now).state == (
        RelayView { lookups: expire_turn(state, index, now).state.lookups, ..state }),
    decreases state.lookups.len() - index,
{
    if index < state.lookups.len() {
        if has_expired(state.lookups[index as int], now) {
            let first = start_turn(state, index as int);
            if first.outcome is Ok {
                lemma_expire_keeps(first.state, index + 1, now);
            }
        } else {
            lemma_expire_keeps(state, index + 1, now);
        }
    }
}

/// Whether a turn ends with what it forwards, and leaves the rest waiting.
pub open spec fn forwards_in_order(state: RelayView, event: RelayEvent, now: u64) -> bool {
    let turn = relay_turn(state, event, now);
    let moved = forwarded_by(state, event, now);
    &&& moved + turn.state.queue == state.queue + added_requests(state.environment, event)
    &&& ends_in(turn.actions, forwarded(moved, state.environment, state.metadata_sequence))
    &&& moved.len() > 0 ==> turn.state.environment_ready && turn.state.initialize_answered
}

/// Every turn ends with what it forwards, in the order in which it came, and
/// what it does not forward goes on waiting in that order.
pub proof fn law_turns_forward_in_order(state: RelayView, event: RelayEvent, now: u64)
    requires
        is_settled(state),
        state.initialize_id is Some,
        relay_turn(state, event, now).outcome is Ok,
    ensures
        forwards_in_order(state, event, now),
{
    let turn = relay_turn(state, event, now);
    let waiting = state.queue + added_requests(state.environment, event);
    let none = Seq::<ActionView>::empty();
    let moved = forwarded_by(state, event, now);
    lemma_ends_in(turn.actions, none);
    assert(turn.actions + none =~= turn.actions);
    assert(moved.len() == 0 ==> forwarded(moved, state.environment, state.metadata_sequence)
        == none);
    assert(Seq::<QueuedView>::empty() + turn.state.queue =~= turn.state.queue);
    assert(turn.state.queue.len() == 0 ==> waiting + turn.state.queue =~= waiting);
    match event {
        RelayEvent::Client(message) => {
            law_rewriting_keeps_other_fields(message, state.environment);
            let value = rewritten(message, state.environment)->Ok_0;
            if method_of(message) == Some("initialize"@) {
                let noted = RelayView {
                    initialize_id: initialize_id_after(message, state.initialize_id),
                    ..state
                };
                lemma_settle_forwards(deliver_turn(noted, value, now), now);
                assert(waiting =~= state.queue);
                assert(turn == settled(deliver_turn(noted, value, now), now));
                assert(deliver_turn(noted, value, now).state == noted);
            } else if must_wait(state) {
                law_requests_wait(state, message, now);
                assert(turn.state.queue =~= waiting);
            } else {
                let request = request_of(state.environment, message);
                lemma_forwarded(state, request, now);
                let first = forward_turn(state, request, now);
                assert(deliver_turn(state, value, now) == first);
                assert(turn == settled(first, now));
                let next = settle_turn(first.state, now);
                assert(state.queue =~= Seq::empty());
                assert(waiting =~= seq![request]);
                assert(next.actions =~= none);
                assert(turn.actions =~= first.actions);
                assert(waiting.skip(1) =~= Seq::empty());
                assert(forwarded(
                    waiting.skip(1),
                    state.environment,
                    sequence_after(request, state.metadata_sequence),
                ) =~= none);
                assert(forwarded(waiting, state.environment, state.metadata_sequence)
                    =~= first.actions);
                lemma_ends_in(none, first.actions);
                assert(none + first.actions =~= first.actions);
            }
        },
        RelayEvent::Server(message) => {
            assert(waiting =~= state.queue);
            let id = text_of(field(message, "id"@));
            let index = reply_index(state.lookups, message);
            if id == Some(internal_id(state.environment, "environment-add"@)) {
            } else if id == Some(internal_id(state.environment, "environment-status"@)) {
                let ready = RelayView { environment_ready: true, ..state };
                if state.initialize_answered && status_reply(message) == Ok::<bool, Seq<char>>(
                    true,
                ) {
                    law_all_waiting_requests_keep_their_order(ready, now);
                    lemma_flush_keeps(ready, now);
                    lemma_ends_in(none, turn.actions);
                    assert(none + turn.actions =~= turn.actions);
                }
            } else if is_initialize_reply(state, message) {
                lemma_settle_forwards(initialized_turn(state, message), now);
            } else if index < state.lookups.len() {
                lemma_settle_forwards(started_turn(state, index as int, message), now);
            } else {
                lemma_settle_forwards(goes_on(state, seq![ActionView::PassToClient]), now);
            }
        },
        RelayEvent::Host(message) => {
            assert(waiting =~= state.queue);
            lemma_settle_forwards(host_message_turn(state, message), now);
        },
        RelayEvent::Frame(peer) => {
            assert(waiting =~= state.queue);
        },
        RelayEvent::Tick => {
            assert(waiting =~= state.queue);
            lemma_expire_keeps(state, 0, now);
            lemma_settle_forwards(expire_turn(state, 0, now), now);
        },
    }
}

// ---------------------------------------------------------------------------
// Runs
// ---------------------------------------------------------------------------

/// The requests that a run has forwarded, in the order of its turns.
pub open spec fn forwarded_in(state: RelayView, events: Seq<(RelayEvent, u64)>) -> Seq<QueuedView>
    decreases events.len(),
{
    if events.len() == 0 {
        Seq::empty()
    } else {
        forwarded_in(state, events.drop_last()) + forwarded_by(
            relay_run(state, events.drop_last()).state,
            events.last().0,
            events.last().1,
        )
    }
}

/// Whether all that a client may wait for is there.
pub open spec fn is_open(state: RelayView) -> bool {
    state.environment_ready && state.initialize_answered
}

proof fn lemma_turn_keeps(state: RelayView, event: RelayEvent, now: u64)
    requires
        is_settled(state),
        relay_turn(state, event, now).outcome is Ok,
    ensures
        is_settled(relay_turn(state, event, now).state),
        no_step_back(state, relay_turn(state, event, now).state),
{
    match event {
        RelayEvent::Client(message) => law_turns_settle(state, message, now),
        RelayEvent::Server(message) => law_turns_settle(state, message, now),
        RelayEvent::Host(message) => law_turns_settle(state, message, now),
        RelayEvent::Frame(_) => {},
        RelayEvent::Tick => law_turns_settle(state, JsonView::Null, now),
    }
}

/// Over a whole run, the requests of the client are forwarded in the order in
/// which they came, none is lost and none comes twice: those forwarded and
/// those that wait are all there were. Until initialize is answered and the
/// environment is ready, none is forwarded.
pub proof fn law_runs_forward_in_order(start: RelayView, events: Seq<(RelayEvent, u64)>)
    requires
        is_settled(start),
        start.initialize_id is Some,
        relay_run(start, events).outcome is Ok,
    ensures
        ({
            let end = relay_run(start, events).state;
            &&& forwarded_in(start, events) + end.queue == start.queue + requests(
                start.environment,
                events,
            )
            &&& !is_open(end) ==> forwarded_in(start, events).len() == 0
            &&& is_open(end) ==> end.queue.len() == 0
            &&& is_settled(end)
            &&& no_step_back(start, end)
        }),
    decreases events.len(),
{
    if events.len() == 0 {
        assert(Seq::<QueuedView>::empty() + start.queue =~= start.queue + Seq::<
            QueuedView,
        >::empty());
    } else {
        let (event, now) = events.last();
        law_runs_forward_in_order(start, events.drop_last());
        let before = relay_run(start, events.drop_last()).state;
        lemma_turn_keeps(before, event, now);
        law_turns_forward_in_order(before, event, now);
        let end = relay_run(start, events).state;
        let earlier = forwarded_in(start, events.drop_last());
        let moved = forwarded_by(before, event, now);
        let added = added_requests(start.environment, event);
        let known = requests(start.environment, events.drop_last());
        assert(earlier + moved + end.queue =~= earlier + (moved + end.queue));
        assert(earlier + (before.queue + added) =~= earlier + before.queue + added);
        assert(start.queue + known + added =~= start.queue + (known + added));
    }
}

// ---------------------------------------------------------------------------
// The opening of a relay
// ---------------------------------------------------------------------------

/// What the host is sent, in order.
pub open spec fn host_texts(actions: Seq<ActionView>) -> Seq<Seq<char>>
    decreases actions.len(),
{
    if actions.len() == 0 {
        Seq::empty()
    } else {
        match actions.last() {
            ActionView::ToHost(text) => host_texts(actions.drop_last()).push(text),
            _ => host_texts(actions.drop_last()),
        }
    }
}

/// What the client is sent that is not passed to it as it came, in order.
pub open spec fn client_texts(actions: Seq<ActionView>) -> Seq<Seq<char>>
    decreases actions.len(),
{
    if actions.len() == 0 {
        Seq::empty()
    } else {
        match actions.last() {
            ActionView::ToClient(text) => client_texts(actions.drop_last()).push(text),
            _ => client_texts(actions.drop_last()),
        }
    }
}

proof fn lemma_sent_one(action: ActionView)
    ensures
        host_texts(seq![action]) == (match action {
            ActionView::ToHost(text) => seq![text],
            _ => Seq::empty(),
        }),
        client_texts(seq![action]) == (match action {
            ActionView::ToClient(text) => seq![text],
            _ => Seq::empty(),
        }),
        server_texts(seq![action]) == (match action {
            ActionView::ToServer(text) => seq![text],
            _ => Seq::empty(),
        }),
{
    let one = seq![action];
    lemma_texts_of_one(action);
    assert(one.drop_last() =~= Seq::empty());
    assert(host_texts(one.drop_last()) =~= Seq::empty());
    assert(client_texts(one.drop_last()) =~= Seq::empty());
    assert(host_texts(one) =~= match action {
        ActionView::ToHost(text) => seq![text],
        _ => Seq::empty(),
    });
    assert(client_texts(one) =~= match action {
        ActionView::ToClient(text) => seq![text],
        _ => Seq::empty(),
    });
}

proof fn lemma_sent_join(a: Seq<ActionView>, b: Seq<ActionView>)
    ensures
        host_texts(a + b) == host_texts(a) + host_texts(b),
        client_texts(a + b) == client_texts(a) + client_texts(b),
        server_texts(a + b) == server_texts(a) + server_texts(b),
    decreases b.len(),
{
    lemma_texts_of_join(a, b);
    if b.len() == 0 {
        assert(a + b =~= a);
        assert(host_texts(a) + host_texts(b) =~= host_texts(a));
        assert(client_texts(a) + client_texts(b) =~= client_texts(a));
    } else {
        assert((a + b).drop_last() =~= a + b.drop_last());
        lemma_sent_join(a, b.drop_last());
        assert(host_texts(a + b) =~= host_texts(a) + host_texts(b));
        assert(client_texts(a + b) =~= client_texts(a) + client_texts(b));
    }
}

/// Whether an event is one that may come now: the client initializes once, and
/// both App Servers answer each request of the bridge once.
pub open spec fn event_expected(state: RelayView, event: RelayEvent) -> bool {
    match event {
        RelayEvent::Client(message) => method_of(message) != Some("initialize"@),
        RelayEvent::Server(message) => {
            let id = text_of(field(message, "id"@));
            &&& id == Some(internal_id(state.environment, "environment-add"@))
                ==> state.environment_requested && state.status_attempts == 0
            &&& id == Some(internal_id(state.environment, "environment-status"@))
                ==> state.status_attempts > 0 && !state.environment_ready
        },
        RelayEvent::Host(message) => text_of(field(message, "id"@)) == Some(
            internal_id(state.environment, "host-initialize"@),
        ) ==> state.host_initialize is None,
        _ => true,
    }
}

pub open spec fn events_expected(state: RelayView, events: Seq<(RelayEvent, u64)>) -> bool
    decreases events.len(),
{
    events.len() == 0 || (events_expected(state, events.drop_last()) && event_expected(
        relay_run(state, events.drop_last()).state,
        events.last().0,
    ))
}

/// The local reply to initialize, once it has come.
pub open spec fn local_reply(
    environment: Seq<char>,
    id: JsonView,
    events: Seq<(RelayEvent, u64)>,
) -> Option<JsonView>
    decreases events.len(),
{
    if events.len() == 0 {
        None
    } else {
        match (local_reply(environment, id, events.drop_last()), events.last().0) {
            (None, RelayEvent::Server(message)) => if !is_bridge_reply(environment, message)
                && replies_to(message, id) {
                Some(message)
            } else {
                None
            },
            (known, _) => known,
        }
    }
}

/// The host's reply to initialize, once it has come.
pub open spec fn host_reply(environment: Seq<char>, events: Seq<(RelayEvent, u64)>) -> Option<
    JsonView,
>
    decreases events.len(),
{
    if events.len() == 0 {
        None
    } else {
        match (host_reply(environment, events.drop_last()), events.last().0) {
            (None, RelayEvent::Host(message)) => if text_of(field(message, "id"@)) == Some(
                internal_id(environment, "host-initialize"@),
            ) {
                Some(message)
            } else {
                None
            },
            (known, _) => known,
        }
    }
}

/// What the bridge itself has asked the local App Server while the relay opens.
pub open spec fn opening_texts(state: RelayView) -> Seq<Seq<char>> {
    if state.environment_requested {
        seq![json_text(environment_add(state.environment, state.exec_port))] + status_texts(
            state.environment,
            state.status_attempts as nat,
        )
    } else {
        Seq::empty()
    }
}

/// Where a run has led since initialize. The local App Server has got
/// environment/add once its own reply to initialize was there, and then
/// environment/status until the environment was ready, before any request of
/// the client; the host has got nothing before that; and the client has got
/// one reply to initialize, merged from both, once both were there.
pub open spec fn has_opened(
    start: RelayView,
    id: JsonView,
    events: Seq<(RelayEvent, u64)>,
    turn: Turn,
) -> bool {
    let state = turn.state;
    let local = local_reply(start.environment, id, events);
    let host = host_reply(start.environment, events);
    &&& state.environment == start.environment
    &&& state.exec_port == start.exec_port
    &&& state.remote_home == start.remote_home
    &&& state.initialize_id == Some(id)
    &&& state.environment_requested <==> local is Some
    &&& state.host_initialize == host
    &&& !state.environment_requested ==> state.status_attempts == 0
    &&& state.environment_ready ==> state.environment_requested && state.status_attempts > 0
    &&& if state.initialize_answered {
        &&& state.local_initialize is None
        &&& local is Some && host is Some
        &&& merged_initialize(local->Some_0, host->Some_0, start.remote_home) matches Ok(merged)
            && seq![json_text(merged)].is_prefix_of(client_texts(turn.actions))
    } else {
        &&& state.local_initialize == local
        &&& client_texts(turn.actions).len() == 0
    }
    &&& opening_texts(state).is_prefix_of(server_texts(turn.actions))
    &&& !is_open(state) ==> {
        &&& server_texts(turn.actions) == opening_texts(state)
        &&& host_texts(turn.actions).len() == 0
        &&& client_texts(turn.actions).len() <= 1
        &&& state.queue == requests(start.environment, events)
        &&& state.lookups.len() == 0
    }
}

/// What a turn of an open relay settles: nothing but requests that wait.
proof fn lemma_settled_open(first: Turn, now: u64)
    requires
        first.outcome is Ok,
        settled(first, now).outcome is Ok,
        is_open(first.state),
    ensures
        ({
            let turn = settled(first, now);
            &&& turn.state == (RelayView {
                queue: turn.state.queue,
                metadata_sequence: turn.state.metadata_sequence,
                lookups: turn.state.lookups,
                ..first.state
            })
            &&& turn.actions == first.actions + settle_turn(first.state, now).actions
        }),
{
    lemma_flush_keeps(first.state, now);
}

/// What a turn of a relay that is not open settles: the reply to initialize,
/// where both replies are there.
proof fn lemma_settled_opening(first: Turn, now: u64)
    requires
        first.outcome is Ok,
        settled(first, now).outcome is Ok,
        !is_open(first.state),
    ensures
        ({
            let turn = settled(first, now);
            let state = first.state;
            match (state.local_initialize, state.host_initialize) {
                (Some(local), Some(host)) if !state.initialize_answered => {
                    &&& merged_initialize(local, host, state.remote_home) matches Ok(merged)
                    &&& turn.state == (RelayView {
                        local_initialize: None,
                        initialize_answered: true,
                        queue: turn.state.queue,
                        metadata_sequence: turn.state.metadata_sequence,
                        lookups: turn.state.lookups,
                        ..state
                    })
                    &&& seq![ActionView::ToClient(json_text(merged))].is_prefix_of(
                        settle_turn(state, now).actions,
                    )
                    &&& turn.actions == first.actions + settle_turn(state, now).actions
                    &&& !state.environment_ready ==> {
                        &&& turn.state.queue == state.queue
                        &&& turn.state.lookups == state.lookups
                        &&& settle_turn(state, now).actions == seq![
                            ActionView::ToClient(json_text(merged)),
                        ]
                    }
                },
                _ => turn.state == state && turn.actions == first.actions,
            }
        }),
{
    let state = first.state;
    let answered = RelayView { local_initialize: None, initialize_answered: true, ..state };
    assert(first.actions + Seq::<ActionView>::empty() =~= first.actions);
    if let (Some(local), Some(host)) = (state.local_initialize, state.host_initialize) {
        if !state.initialize_answered {
            let merged = merged_initialize(local, host, state.remote_home)->Ok_0;
            let reply = seq![ActionView::ToClient(json_text(merged))];
            if state.environment_ready {
                lemma_flush_keeps(answered, now);
                let rest = flush_turn(answered, now).actions;
                assert((reply + rest).subrange(0, 1) =~= reply);
                assert(reply.is_prefix_of(settle_turn(state, now).actions));
            } else {
                assert(reply + Seq::<ActionView>::empty() =~= reply);
                assert(reply.subrange(0, 1) =~= reply);
                assert(reply.is_prefix_of(settle_turn(state, now).actions));
            }
        }
    }
}

/// Texts that begin with `first` still do once more is sent.
proof fn lemma_prefix_stays(first: Seq<Seq<char>>, texts: Seq<Seq<char>>, more: Seq<Seq<char>>)
    requires
        first.is_prefix_of(texts),
    ensures
        first.is_prefix_of(texts + more),
{
    assert((texts + more).subrange(0, first.len() as int) =~= texts.subrange(
        0,
        first.len() as int,
    ));
}

/// A turn that is settled keeps to the opening, where what it did before does.
proof fn lemma_settled_has_opened(
    start: RelayView,
    id: JsonView,
    events: Seq<(RelayEvent, u64)>,
    earlier: Seq<ActionView>,
    first: Turn,
    now: u64,
)
    requires
        first.outcome is Ok,
        settled(first, now).outcome is Ok,
        has_opened(
            start,
            id,
            events,
            Turn {
                state: first.state,
                actions: earlier + first.actions,
                outcome: first.outcome,
            },
        ),
    ensures
        has_opened(
            start,
            id,
            events,
            Turn {
                state: settled(first, now).state,
                actions: earlier + settled(first, now).actions,
                outcome: settled(first, now).outcome,
            },
        ),
{
    let state = first.state;
    let turn = settled(first, now);
    let sent = earlier + first.actions;
    let rest = settle_turn(state, now).actions;
    let all = earlier + turn.actions;
    lemma_sent_join(sent, rest);
    if is_open(state) {
        lemma_settled_open(first, now);
        assert(all =~= sent + rest);
        lemma_prefix_stays(opening_texts(state), server_texts(sent), server_texts(rest));
        let merged = merged_initialize(
            local_reply(start.environment, id, events)->Some_0,
            host_reply(start.environment, events)->Some_0,
            start.remote_home,
        )->Ok_0;
        lemma_prefix_stays(seq![json_text(merged)], client_texts(sent), client_texts(rest));
        assert(opening_texts(turn.state) == opening_texts(state));
    } else {
        lemma_settled_opening(first, now);
        if let (Some(local), Some(host)) = (state.local_initialize, state.host_initialize) {
            if !state.initialize_answered {
                let merged = merged_initialize(local, host, state.remote_home)->Ok_0;
                let reply = ActionView::ToClient(json_text(merged));
                assert(all =~= sent + rest);
                let more = rest.skip(1);
                assert(rest =~= seq![reply] + more);
                lemma_sent_join(seq![reply], more);
                lemma_sent_one(reply);
                lemma_prefix_stays(opening_texts(state), server_texts(sent), server_texts(rest));
                assert(client_texts(all) =~= seq![json_text(merged)] + client_texts(more));
                assert(client_texts(all).subrange(0, 1) =~= seq![json_text(merged)]);
                assert(opening_texts(turn.state) == opening_texts(state));
                if !state.environment_ready {
                    assert(more =~= Seq::empty());
                    assert(server_texts(all) =~= server_texts(sent));
                    assert(host_texts(all) =~= host_texts(sent));
                }
            }
        }
    }
}

/// What leaves the opening alone keeps to it.
proof fn lemma_kept(
    start: RelayView,
    id: JsonView,
    events: Seq<(RelayEvent, u64)>,
    more: Seq<ActionView>,
    next: RelayView,
)
    requires
        events.len() > 0,
        has_opened(start, id, events.drop_last(), relay_run(start, events.drop_last())),
        local_reply(start.environment, id, events) == local_reply(
            start.environment,
            id,
            events.drop_last(),
        ),
        host_reply(start.environment, events) == host_reply(start.environment, events.drop_last()),
        ({
            let state = relay_run(start, events.drop_last()).state;
            &&& next == (RelayView {
                queue: next.queue,
                metadata_sequence: next.metadata_sequence,
                lookups: next.lookups,
                ..state
            })
            &&& !is_open(state) ==> {
                &&& server_texts(more).len() == 0
                &&& host_texts(more).len() == 0
                &&& client_texts(more).len() == 0
                &&& next.queue == requests(start.environment, events)
                &&& next.lookups.len() == 0
            }
        }),
    ensures
        has_opened(
            start,
            id,
            events,
            Turn {
                state: next,
                actions: relay_run(start, events.drop_last()).actions + more,
                outcome: Ok(()),
            },
        ),
{
    let before = relay_run(start, events.drop_last());
    let state = before.state;
    lemma_sent_join(before.actions, more);
    lemma_prefix_stays(
        opening_texts(state),
        server_texts(before.actions),
        server_texts(more),
    );
    assert(opening_texts(next) == opening_texts(state));
    if state.initialize_answered {
        let merged = merged_initialize(
            local_reply(start.environment, id, events)->Some_0,
            host_reply(start.environment, events)->Some_0,
            start.remote_home,
        )->Ok_0;
        lemma_prefix_stays(
            seq![json_text(merged)],
            client_texts(before.actions),
            client_texts(more),
        );
    }
    if !is_open(state) {
        assert(server_texts(before.actions) + server_texts(more) =~= server_texts(before.actions));
        assert(host_texts(before.actions) + host_texts(more) =~= host_texts(before.actions));
        assert(client_texts(before.actions) + client_texts(more) =~= client_texts(before.actions));
    }
}

proof fn lemma_client_event(start: RelayView, id: JsonView, events: Seq<(RelayEvent, u64)>)
    requires
        events.len() > 0,
        events.last().0 is Client,
        is_settled(relay_run(start, events.drop_last()).state),
        relay_run(start, events.drop_last()).outcome is Ok,
        has_opened(start, id, events.drop_last(), relay_run(start, events.drop_last())),
        event_expected(relay_run(start, events.drop_last()).state, events.last().0),
        relay_run(start, events).outcome is Ok,
    ensures
        has_opened(start, id, events, relay_run(start, events)),
{
    let before = relay_run(start, events.drop_last());
    let state = before.state;
    let now = events.last().1;
    let message = events.last().0->Client_0;
    law_rewriting_keeps_other_fields(message, state.environment);
    if is_open(state) {
        let request = request_of(state.environment, message);
        let first = forward_turn(state, request, now);
        assert(deliver_turn(state, rewritten(message, state.environment)->Ok_0, now) == first);
        lemma_forwarded(state, request, now);
        lemma_kept(start, id, events, first.actions, first.state);
        lemma_settled_has_opened(start, id, events, before.actions, first, now);
    } else {
        law_requests_wait(state, message, now);
        let turn = client_turn(state, message, now);
        assert(turn.state.queue =~= requests(start.environment, events));
        lemma_kept(start, id, events, turn.actions, turn.state);
    }
}

proof fn lemma_server_event(start: RelayView, id: JsonView, events: Seq<(RelayEvent, u64)>)
    requires
        events.len() > 0,
        events.last().0 is Server,
        is_settled(relay_run(start, events.drop_last()).state),
        relay_run(start, events.drop_last()).outcome is Ok,
        has_opened(start, id, events.drop_last(), relay_run(start, events.drop_last())),
        event_expected(relay_run(start, events.drop_last()).state, events.last().0),
        relay_run(start, events).outcome is Ok,
    ensures
        has_opened(start, id, events, relay_run(start, events)),
{
    let before = relay_run(start, events.drop_last());
    let state = before.state;
    let now = events.last().1;
    let message = events.last().0->Server_0;
    let turn = server_turn(state, message, now);
    let own = text_of(field(message, "id"@));
    let index = reply_index(state.lookups, message);
    let question = status_question(state.environment);
    let known = requests(start.environment, events.drop_last());
    assert(known + Seq::<QueuedView>::empty() =~= known);
    lemma_sent_join(before.actions, turn.actions);
    if own == Some(internal_id(state.environment, "environment-add"@)) {
        lemma_sent_one(question);
        assert(server_texts(before.actions) + server_texts(turn.actions) =~= opening_texts(
            turn.state,
        ));
        assert(host_texts(before.actions) + host_texts(turn.actions) =~= host_texts(
            before.actions,
        ));
        assert(client_texts(before.actions) + client_texts(turn.actions) =~= client_texts(
            before.actions,
        ));
        lemma_whole_prefix(opening_texts(turn.state));
    } else if own == Some(internal_id(state.environment, "environment-status"@)) {
        lemma_status_event(start, id, events);
    } else if is_initialize_reply(state, message) {
        let first = initialized_turn(state, message);
        let add = ActionView::ToServer(
            json_text(environment_add(state.environment, state.exec_port)),
        );
        lemma_sent_one(add);
        lemma_sent_join(before.actions, first.actions);
        assert(server_texts(before.actions) + server_texts(first.actions) =~= opening_texts(
            first.state,
        ));
        assert(host_texts(before.actions) + host_texts(first.actions) =~= host_texts(
            before.actions,
        ));
        assert(client_texts(before.actions) + client_texts(first.actions) =~= client_texts(
            before.actions,
        ));
        lemma_whole_prefix(opening_texts(first.state));
        lemma_settled_has_opened(start, id, events, before.actions, first, now);
    } else if index < state.lookups.len() {
        let first = started_turn(state, index as int, message);
        lemma_kept(start, id, events, first.actions, first.state);
        lemma_settled_has_opened(start, id, events, before.actions, first, now);
    } else {
        let first = goes_on(state, seq![ActionView::PassToClient]);
        lemma_sent_one(ActionView::PassToClient);
        lemma_kept(start, id, events, first.actions, first.state);
        lemma_settled_has_opened(start, id, events, before.actions, first, now);
    }
}

proof fn lemma_whole_prefix(texts: Seq<Seq<char>>)
    ensures
        texts.is_prefix_of(texts),
{
    assert(texts.subrange(0, texts.len() as int) =~= texts);
}

proof fn lemma_status_event(start: RelayView, id: JsonView, events: Seq<(RelayEvent, u64)>)
    requires
        events.len() > 0,
        events.last().0 is Server,
        text_of(field(events.last().0->Server_0, "id"@)) == Some(
            internal_id(
                relay_run(start, events.drop_last()).state.environment,
                "environment-status"@,
            ),
        ),
        text_of(field(events.last().0->Server_0, "id"@)) != Some(
            internal_id(relay_run(start, events.drop_last()).state.environment, "environment-add"@),
        ),
        relay_run(start, events.drop_last()).outcome is Ok,
        has_opened(start, id, events.drop_last(), relay_run(start, events.drop_last())),
        event_expected(relay_run(start, events.drop_last()).state, events.last().0),
        relay_run(start, events).outcome is Ok,
    ensures
        has_opened(start, id, events, relay_run(start, events)),
{
    let before = relay_run(start, events.drop_last());
    let state = before.state;
    let now = events.last().1;
    let message = events.last().0->Server_0;
    let turn = server_turn(state, message, now);
    let question = status_question(state.environment);
    let pause = ActionView::Pause(STATUS_PAUSE);
    let known = requests(start.environment, events.drop_last());
    assert(known + Seq::<QueuedView>::empty() =~= known);
    lemma_sent_join(before.actions, turn.actions);
    if status_reply(message) == Ok::<bool, Seq<char>>(true) {
        let ready = RelayView { environment_ready: true, ..state };
        assert(opening_texts(ready) == opening_texts(state));
        if state.initialize_answered {
            lemma_flush_keeps(ready, now);
            assert(opening_texts(turn.state) == opening_texts(state));
            let merged = merged_initialize(
                local_reply(start.environment, id, events)->Some_0,
                host_reply(start.environment, events)->Some_0,
                start.remote_home,
            )->Ok_0;
            lemma_prefix_stays(
                seq![json_text(merged)],
                client_texts(before.actions),
                client_texts(turn.actions),
            );
            law_all_waiting_requests_keep_their_order(ready, now);
        } else {
            assert(before.actions + turn.actions =~= before.actions);
        }
        lemma_prefix_stays(
            opening_texts(state),
            server_texts(before.actions),
            server_texts(turn.actions),
        );
    } else {
        lemma_sent_one(pause);
        lemma_sent_one(question);
        lemma_sent_join(seq![pause], seq![question]);
        assert(turn.actions =~= seq![pause] + seq![question]);
        assert(server_texts(before.actions) + server_texts(turn.actions) =~= opening_texts(
            turn.state,
        ));
        assert(host_texts(before.actions) + host_texts(turn.actions) =~= host_texts(
            before.actions,
        ));
        assert(client_texts(before.actions) + client_texts(turn.actions) =~= client_texts(
            before.actions,
        ));
        lemma_whole_prefix(opening_texts(turn.state));
    }
}

proof fn lemma_other_event(start: RelayView, id: JsonView, events: Seq<(RelayEvent, u64)>)
    requires
        events.len() > 0,
        !(events.last().0 is Client) && !(events.last().0 is Server),
        is_settled(relay_run(start, events.drop_last()).state),
        relay_run(start, events.drop_last()).outcome is Ok,
        has_opened(start, id, events.drop_last(), relay_run(start, events.drop_last())),
        event_expected(relay_run(start, events.drop_last()).state, events.last().0),
        relay_run(start, events).outcome is Ok,
    ensures
        has_opened(start, id, events, relay_run(start, events)),
{
    let before = relay_run(start, events.drop_last());
    let state = before.state;
    let now = events.last().1;
    let known = requests(start.environment, events.drop_last());
    assert(known + Seq::<QueuedView>::empty() =~= known);
    match events.last().0 {
        RelayEvent::Host(message) => {
            let first = host_message_turn(state, message);
            let own = text_of(field(message, "id"@));
            if own == Some(internal_id(state.environment, "host-initialize"@)) {
                assert(before.actions + first.actions =~= before.actions);
                assert(opening_texts(first.state) == opening_texts(state));
                lemma_settled_has_opened(start, id, events, before.actions, first, now);
            } else {
                lemma_sent_one(ActionView::PassToClient);
                lemma_kept(start, id, events, first.actions, first.state);
                lemma_settled_has_opened(start, id, events, before.actions, first, now);
            }
        },
        RelayEvent::Frame(peer) => {
            lemma_sent_one(ActionView::PassToClient);
            lemma_sent_one(ActionView::PassToServer);
            lemma_kept(start, id, events, passed_on(peer), state);
        },
        RelayEvent::Tick => {
            let first = expire_turn(state, 0, now);
            lemma_expire_keeps(state, 0, now);
            lemma_kept(start, id, events, first.actions, first.state);
            lemma_settled_has_opened(start, id, events, before.actions, first, now);
        },
        _ => {},
    }
}

/// A client that initializes and goes on without waiting is served in order,
/// whatever comes between: initialize goes to both App Servers, the client gets
/// one reply merged from theirs, and its requests wait until it has that and
/// the environment is ready. What then becomes of them, and in which order,
/// is in `law_runs_forward_in_order` and `law_turns_forward_in_order`.
pub proof fn law_relays_open_in_order(
    environment: Seq<char>,
    exec_port: u16,
    remote_home: Option<Seq<char>>,
    initialize: JsonView,
    now: u64,
    events: Seq<(RelayEvent, u64)>,
)
    requires
        method_of(initialize) == Some("initialize"@),
        ({
            let first = client_turn(
                initial_relay(environment, exec_port, remote_home),
                initialize,
                now,
            );
            &&& first.outcome is Ok
            &&& events_expected(first.state, events)
            &&& relay_run(first.state, events).outcome is Ok
        }),
    ensures
        ({
            let first = client_turn(
                initial_relay(environment, exec_port, remote_home),
                initialize,
                now,
            );
            &&& rewritten(initialize, environment) matches Ok(value) && value is Object
                && first.actions == seq![
                ActionView::ToHost(
                    json_text(
                        JsonView::Object(
                            value->Object_0.insert(
                                "id"@,
                                JsonView::Text(internal_id(environment, "host-initialize"@)),
                            ),
                        ),
                    ),
                ),
                ActionView::ToServer(json_text(value)),
            ]
            &&& field(initialize, "id"@) matches Some(id) && has_opened(
                first.state,
                id,
                events,
                relay_run(first.state, events),
            )
            &&& is_settled(relay_run(first.state, events).state)
        }),
    decreases events.len(),
{
    let begin = initial_relay(environment, exec_port, remote_home);
    let first = client_turn(begin, initialize, now);
    law_rewriting_keeps_other_fields(initialize, environment);
    let value = rewritten(initialize, environment)->Ok_0;
    let noted = RelayView {
        initialize_id: initialize_id_after(initialize, begin.initialize_id),
        ..begin
    };
    let given = deliver_turn(noted, value, now);
    assert(given.actions + Seq::<ActionView>::empty() =~= given.actions);
    if events.len() > 0 {
        law_relays_open_in_order(
            environment,
            exec_port,
            remote_home,
            initialize,
            now,
            events.drop_last(),
        );
        let id = field(initialize, "id"@)->Some_0;
        let before = relay_run(first.state, events.drop_last());
        lemma_turn_keeps(before.state, events.last().0, events.last().1);
        match events.last().0 {
            RelayEvent::Client(_) => lemma_client_event(first.state, id, events),
            RelayEvent::Server(_) => lemma_server_event(first.state, id, events),
            _ => lemma_other_event(first.state, id, events),
        }
    } else {
        let run = relay_run(first.state, events);
        assert(run.actions =~= Seq::empty());
        assert(requests(environment, events) =~= Seq::empty());
        assert(first.state.queue =~= Seq::empty());
        lemma_whole_prefix(opening_texts(first.state));
    }
}

} // verus!
