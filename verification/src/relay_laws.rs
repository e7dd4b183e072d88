//! What holds of the relay over all its turns.

use vstd::prelude::*;
use crate::bridge::{initialize_id_after, internal_id, is_internal_host_id, method_of, rewritten};
use crate::bridge_laws::law_rewriting_keeps_other_fields;
use crate::json::{JsonView, field, json_text, text_of};
use crate::relay::initial_relay;
use crate::relay_model::{
    ActionView, QueuedView, RelayView, RequestRoute, client_turn, deliver_turn, expire_turn,
    flush_turn, forward_turn, goes_on, has_expired, host_message_turn, host_turn, initialized_turn,
    must_wait, reply_index, route_of, server_turn, settle_turn, start_turn, started_turn, tick_turn,
};
use crate::routing::{host_notification_methods, host_request_methods};

verus! {

/// Whether a turn has nothing left to settle: the reply to initialize does not
/// wait for anything that is there, and neither does a request.
pub open spec fn is_settled(state: RelayView) -> bool {
    &&& state.initialize_answered || state.local_initialize is None || state.host_initialize is None
    &&& state.environment_ready && state.initialize_answered ==> state.queue.len() == 0
}

/// Whether `next` is as far as `state` in all that happens once.
pub open spec fn no_step_back(state: RelayView, next: RelayView) -> bool {
    &&& next.environment == state.environment
    &&& next.exec_port == state.exec_port
    &&& next.remote_home == state.remote_home
    &&& state.initialize_id is Some ==> next.initialize_id is Some
    &&& state.environment_requested ==> next.environment_requested
    &&& state.environment_ready ==> next.environment_ready
    &&& state.initialize_answered ==> next.initialize_answered
    &&& state.metadata_sequence <= next.metadata_sequence
}

/// Whether an action shows the client something.
pub open spec fn shows_client(action: ActionView) -> bool {
    action is ToClient || action is PassToClient
}

pub open spec fn hidden_from_client(actions: Seq<ActionView>) -> bool {
    forall|i: int| 0 <= i < actions.len() ==> !shows_client(#[trigger] actions[i])
}

/// What the local App Server is sent, in order.
pub open spec fn server_texts(actions: Seq<ActionView>) -> Seq<Seq<char>>
    decreases actions.len(),
{
    if actions.len() == 0 {
        Seq::empty()
    } else {
        match actions.last() {
            ActionView::ToServer(text) => server_texts(actions.drop_last()).push(text),
            _ => server_texts(actions.drop_last()),
        }
    }
}

/// How often the client is shown something.
pub open spec fn shown_to_client(actions: Seq<ActionView>) -> nat
    decreases actions.len(),
{
    if actions.len() == 0 {
        0
    } else {
        shown_to_client(actions.drop_last()) + (if shows_client(actions.last()) {
            1nat
        } else {
            0
        })
    }
}

pub proof fn lemma_texts_of_one(action: ActionView)
    ensures
        server_texts(seq![action]) == (match action {
            ActionView::ToServer(text) => seq![text],
            _ => Seq::empty(),
        }),
        shown_to_client(seq![action]) == (if shows_client(action) {
            1nat
        } else {
            0
        }),
{
    let one = seq![action];
    assert(one.drop_last() =~= Seq::empty());
    assert(server_texts(one.drop_last()) =~= Seq::empty());
    assert(shown_to_client(one.drop_last()) == 0);
    assert(server_texts(one) =~= match action {
        ActionView::ToServer(text) => seq![text],
        _ => Seq::empty(),
    });
}

pub proof fn lemma_texts_of_join(a: Seq<ActionView>, b: Seq<ActionView>)
    ensures
        server_texts(a + b) == server_texts(a) + server_texts(b),
        shown_to_client(a + b) == shown_to_client(a) + shown_to_client(b),
    decreases b.len(),
{
    if b.len() == 0 {
        assert(a + b =~= a);
        assert(server_texts(a) + server_texts(b) =~= server_texts(a));
    } else {
        assert((a + b).drop_last() =~= a + b.drop_last());
        lemma_texts_of_join(a, b.drop_last());
        assert(server_texts(a + b) =~= server_texts(a) + server_texts(b));
    }
}

proof fn lemma_flush(state: RelayView, now: u64)
    ensures
        hidden_from_client(flush_turn(state, now).actions),
        ({
            let turn = flush_turn(state, now);
            turn.outcome is Ok ==> {
                &&& turn.state.queue.len() == 0
                &&& turn.state == (RelayView {
                    queue: turn.state.queue,
                    metadata_sequence: turn.state.metadata_sequence,
                    lookups: turn.state.lookups,
                    ..state
                })
                &&& state.metadata_sequence <= turn.state.metadata_sequence
            }
        }),
    decreases state.queue.len(),
{
    if state.queue.len() > 0 {
        let first = forward_turn(
            RelayView { queue: state.queue.skip(1), ..state },
            state.queue[0],
            now,
        );
        if first.outcome is Ok {
            lemma_flush(first.state, now);
            let rest = flush_turn(first.state, now);
            let all = flush_turn(state, now).actions;
            assert forall|i: int| 0 <= i < all.len() implies !shows_client(#[trigger] all[i]) by {
                if i >= first.actions.len() {
                    assert(all[i] == rest.actions[i - first.actions.len()]);
                }
            }
        }
    }
}

proof fn lemma_settle(state: RelayView, now: u64)
    ensures
        ({
            let turn = settle_turn(state, now);
            turn.outcome is Ok ==> is_settled(turn.state) && no_step_back(state, turn.state)
        }),
{
    lemma_flush(state, now);
    lemma_flush(
        RelayView { local_initialize: None, initialize_answered: true, ..state },
        now,
    );
}

proof fn lemma_expire(state: RelayView, index: nat, now: u64)
    ensures
        ({
            let turn = expire_turn(state, index, now);
            turn.outcome is Ok ==> {
                &&& turn.state == (RelayView { lookups: turn.state.lookups, ..state })
                &&& turn.state.lookups.len() == state.lookups.len()
                &&& forall|i: int|
                    0 <= i < index && i < state.lookups.len() ==> #[trigger] turn.state.lookups[i]
                        == state.lookups[i]
                &&& forall|i: int|
                    index <= i < state.lookups.len() ==> !has_expired(
                        #[trigger] turn.state.lookups[i],
                        now,
                    )
            }
        }),
    decreases state.lookups.len() - index,
{
    if index < state.lookups.len() {
        if has_expired(state.lookups[index as int], now) {
            let first = start_turn(state, index as int);
            if first.outcome is Ok {
                lemma_expire(first.state, index + 1, now);
                let turn = expire_turn(first.state, index + 1, now);
                if turn.outcome is Ok {
                    assert(turn.state.lookups[index as int] == first.state.lookups[index as int]);
                }
            }
        } else {
            lemma_expire(state, index + 1, now);
            let turn = expire_turn(state, index + 1, now);
            if turn.outcome is Ok {
                assert(turn.state.lookups[index as int] == state.lookups[index as int]);
            }
        }
    }
}

/// Every turn leaves the relay settled, and takes nothing back that happens
/// once: initialize is answered at most once, and a ready environment stays
/// ready.
pub proof fn law_turns_settle(state: RelayView, message: JsonView, now: u64)
    requires
        is_settled(state),
    ensures
        ({
            let turn = client_turn(state, message, now);
            turn.outcome is Ok ==> is_settled(turn.state) && no_step_back(state, turn.state)
        }),
        ({
            let turn = server_turn(state, message, now);
            turn.outcome is Ok ==> is_settled(turn.state) && no_step_back(state, turn.state)
        }),
        ({
            let turn = host_turn(state, message, now);
            turn.outcome is Ok ==> is_settled(turn.state) && no_step_back(state, turn.state)
        }),
        ({
            let turn = tick_turn(state, now);
            turn.outcome is Ok ==> is_settled(turn.state) && no_step_back(state, turn.state)
        }),
{
    let noted = RelayView {
        initialize_id: initialize_id_after(message, state.initialize_id),
        ..state
    };
    if let Ok(value) = rewritten(message, state.environment) {
        lemma_settle(deliver_turn(noted, value, now).state, now);
    }
    lemma_flush(RelayView { environment_ready: true, ..state }, now);
    lemma_settle(initialized_turn(state, message).state, now);
    lemma_settle(
        started_turn(state, reply_index(state.lookups, message) as int, message).state,
        now,
    );
    lemma_settle(state, now);
    lemma_settle(host_message_turn(state, message).state, now);
    lemma_expire(state, 0, now);
    lemma_settle(expire_turn(state, 0, now).state, now);
}

/// Initialize is answered once: whatever is settled later shows the client
/// nothing more.
pub proof fn law_initialize_is_answered_once(state: RelayView, now: u64)
    requires
        state.initialize_answered,
    ensures
        hidden_from_client(settle_turn(state, now).actions),
{
    lemma_flush(state, now);
}

/// A relay that has seen nothing is settled.
pub proof fn law_relay_starts_settled(
    environment: Seq<char>,
    exec_port: u16,
    remote_home: Option<Seq<char>>,
)
    ensures
        is_settled(initial_relay(environment, exec_port, remote_home)),
{
}

/// Until initialize is answered and the environment is ready, a request that
/// follows initialize reaches nobody: it waits behind those before it.
pub proof fn law_requests_wait(state: RelayView, message: JsonView, now: u64)
    requires
        is_settled(state),
        must_wait(state),
        method_of(message) != Some("initialize"@),
        client_turn(state, message, now).outcome is Ok,
    ensures
        rewritten(message, state.environment) is Ok,
        ({
            let value = rewritten(message, state.environment)->Ok_0;
            let turn = client_turn(state, message, now);
            &&& turn.actions == Seq::<ActionView>::empty()
            &&& turn.state == RelayView {
                queue: state.queue.push(
                    QueuedView {
                        text: json_text(value),
                        message: value,
                        route: route_of(method_of(message)),
                    },
                ),
                ..state
            }
        }),
{
    law_rewriting_keeps_other_fields(message, state.environment);
    let value = rewritten(message, state.environment)->Ok_0;
    let noted = RelayView {
        initialize_id: initialize_id_after(message, state.initialize_id),
        ..state
    };
    let first = deliver_turn(noted, value, now);
    assert(noted == state);
    assert(first.actions + Seq::<ActionView>::empty() =~= Seq::<ActionView>::empty());
}

/// What waits is forwarded in the order in which it came: for requests that go
/// to one side each, one action each.
pub proof fn law_waiting_requests_keep_their_order(state: RelayView, now: u64)
    requires
        forall|i: int|
            0 <= i < state.queue.len() ==> (#[trigger] state.queue[i]).route
                != RequestRoute::ThreadStart,
    ensures
        flush_turn(state, now) == goes_on(
            RelayView { queue: Seq::empty(), ..state },
            state.queue.map_values(
                |q: QueuedView|
                    if q.route == RequestRoute::Host {
                        ActionView::ToHost(q.text)
                    } else {
                        ActionView::ToServer(q.text)
                    },
            ),
        ),
    decreases state.queue.len(),
{
    let action = |q: QueuedView|
        if q.route == RequestRoute::Host {
            ActionView::ToHost(q.text)
        } else {
            ActionView::ToServer(q.text)
        };
    if state.queue.len() > 0 {
        let rest = RelayView { queue: state.queue.skip(1), ..state };
        assert forall|i: int| 0 <= i < rest.queue.len() implies (#[trigger] rest.queue[i]).route
            != RequestRoute::ThreadStart by {
            assert(rest.queue[i] == state.queue[i + 1]);
        }
        law_waiting_requests_keep_their_order(rest, now);
        assert(seq![action(state.queue[0])] + rest.queue.map_values(action)
            =~= state.queue.map_values(action));
    } else {
        assert(state.queue =~= Seq::empty());
        assert(state.queue.map_values(action) =~= Seq::empty());
    }
}

/// The client never sees a reply to a request that the bridge made of the
/// local App Server.
pub proof fn law_environment_replies_stay_hidden(state: RelayView, message: JsonView, now: u64)
    requires
        text_of(field(message, "id"@)) == Some(internal_id(state.environment, "environment-add"@))
            || text_of(field(message, "id"@)) == Some(
            internal_id(state.environment, "environment-status"@),
        ),
    ensures
        hidden_from_client(server_turn(state, message, now).actions),
{
    lemma_flush(RelayView { environment_ready: true, ..state }, now);
}

/// The client never sees a reply to a request that the bridge made of the
/// host: nothing but the reply to initialize can reach it in such a turn.
pub proof fn law_host_replies_stay_hidden(state: RelayView, message: JsonView, now: u64)
    requires
        is_settled(state),
        text_of(field(message, "id"@)) matches Some(id) && is_internal_host_id(
            state.environment,
            id,
        ),
        match method_of(message) {
            Some(method) => !host_notification_methods().contains(method),
            None => true,
        },
        state.initialize_answered,
    ensures
        hidden_from_client(host_turn(state, message, now).actions),
{
    let first = host_message_turn(state, message);
    assert(hidden_from_client(first.actions));
    if first.outcome is Ok {
        lemma_flush(first.state, now);
        let next = settle_turn(first.state, now);
        let all = host_turn(state, message, now).actions;
        assert forall|i: int| 0 <= i < all.len() implies !shows_client(#[trigger] all[i]) by {
            if i >= first.actions.len() {
                assert(all[i] == next.actions[i - first.actions.len()]);
            }
        }
    }
}

/// A thread starts locally at most once.
pub proof fn law_threads_start_once(state: RelayView, index: int)
    requires
        0 <= index < state.lookups.len(),
        state.lookups[index].local_sent,
    ensures
        start_turn(state, index) == goes_on(state, Seq::empty()),
{
}

/// No thread waits for its project once the time is up.
pub proof fn law_no_thread_waits_for_ever(state: RelayView, now: u64)
    requires
        expire_turn(state, 0, now).outcome is Ok,
    ensures
        forall|i: int|
            0 <= i < state.lookups.len() ==> !has_expired(
                #[trigger] expire_turn(state, 0, now).state.lookups[i],
                now,
            ),
{
    lemma_expire(state, 0, now);
}

/// A request of the client goes to the host exactly when the host owns its
/// method, and a thread starts on both sides.
pub proof fn law_routes(method: Seq<char>)
    ensures
        route_of(Some(method)) == RequestRoute::ThreadStart <==> method == "thread/start"@,
        method != "thread/start"@ ==> (route_of(Some(method)) == RequestRoute::Host
            <==> host_request_methods().contains(method)),
{
}

} // verus!
