//! The relay between a client and its App Servers as a state machine: the
//! local App Server answers the client, the remote host answers what concerns
//! its files and processes. Each message that arrives is one turn: it changes
//! the state and yields the actions to perform, in order.

use std::collections::VecDeque;

use vstd::prelude::*;
use vstd::string::*;
use vstd::utf8::*;
use crate::bridge::{
    environment_add, environment_status, host_message_visible, initialize_id_after, internal_id,
    merged_initialize, merged_thread, method_of, object_field, optional, request, rewritten,
    status_reply, take_object_field,
};
use crate::entries::{TextMap, has_key, value_bytes, value_of, with_entry, without_entry};
use crate::failure::{Failure, outcome, refuse};
use crate::json::{
    Json, JsonView, array_view, field, json_text, json_view, lemma_array_view, lookup, nested,
    same_value, text_of,
};
use crate::profile::Profile;
use crate::routing::{host_request_methods, is_host_request};
use crate::text::{decimal, lemma_texts_push, optional_text, same_text, texts};

verus! {

pub const MAX_PENDING_CLIENT_BYTES: usize = 33_554_432;

pub const MAX_INSTRUCTION_SOURCES: usize = 32;

pub const MAX_INSTRUCTION_SOURCE_BYTES: usize = 262_144;

pub const MAX_INSTRUCTION_TOTAL_BYTES: usize = 524_288;

/// How long a project lookup may hold back a thread, in milliseconds.
pub const PROJECT_METADATA_TIMEOUT: u64 = 3_000;

/// How often the environment's status is asked for, at most.
pub const MAX_STATUS_ATTEMPTS: u16 = 200;

/// The pause before the status is asked for again, in milliseconds.
pub const STATUS_PAUSE: u64 = 50;

/// Who gets a request of the client.
#[derive(Debug, Clone, Copy, PartialEq, Eq, Structural)]
pub enum RequestRoute {
    Local,
    Host,
    ThreadStart,
}

/// What the relay wants done.
#[derive(Debug)]
pub enum Action {
    /// Send this text to the local App Server.
    ToServer(String),
    /// Send this text to the client.
    ToClient(String),
    /// Send this line to the remote host.
    ToHost(String),
    /// Send the message at hand to the client as it came.
    PassToClient,
    /// Send the message at hand to the local App Server as it came.
    PassToServer,
    /// Wait for so many milliseconds.
    Pause(u64),
}

pub enum ActionView {
    ToServer(Seq<char>),
    ToClient(Seq<char>),
    ToHost(Seq<char>),
    PassToClient,
    PassToServer,
    Pause(u64),
}

impl View for Action {
    type V = ActionView;

    open spec fn view(&self) -> ActionView {
        match *self {
            Action::ToServer(s) => ActionView::ToServer(s@),
            Action::ToClient(s) => ActionView::ToClient(s@),
            Action::ToHost(s) => ActionView::ToHost(s@),
            Action::PassToClient => ActionView::PassToClient,
            Action::PassToServer => ActionView::PassToServer,
            Action::Pause(n) => ActionView::Pause(n),
        }
    }
}

pub open spec fn action_views(actions: Seq<Action>) -> Seq<ActionView> {
    actions.map_values(|a: Action| a@)
}

pub broadcast proof fn lemma_action_views_push(actions: Seq<Action>, a: Action)
    ensures
        #[trigger] action_views(actions.push(a)) == action_views(actions).push(a@),
{
    assert(action_views(actions.push(a)) =~= action_views(actions).push(a@));
}

/// A message of the client that waits for the remote host.
pub struct QueuedMessage {
    pub text: String,
    pub message: Json,
    pub route: RequestRoute,
}

pub struct QueuedView {
    pub text: Seq<char>,
    pub message: JsonView,
    pub route: RequestRoute,
}

impl View for QueuedMessage {
    type V = QueuedView;

    open spec fn view(&self) -> QueuedView {
        QueuedView { text: self.text@, message: self.message@, route: self.route }
    }
}

pub open spec fn queue_view(queue: Seq<QueuedMessage>) -> Seq<QueuedView> {
    queue.map_values(|q: QueuedMessage| q@)
}

/// How many bytes of the client wait.
pub open spec fn queued_bytes(queue: Seq<QueuedView>) -> nat
    decreases queue.len(),
{
    if queue.len() == 0 {
        0
    } else {
        encode_utf8(queue[0].text).len() + queued_bytes(queue.skip(1))
    }
}

/// A thread/start request that waits for what the host knows of its project,
/// or whose local reply does.
pub struct ProjectLookup {
    pub metadata_id: String,
    pub client_id: Json,
    pub local_request: Json,
    pub host_response: Option<Json>,
    pub reads: TextMap,
    pub instruction_paths: Vec<String>,
    pub instruction_contents: TextMap,
    pub started_at: u64,
    pub local_sent: bool,
}

pub struct LookupView {
    pub metadata_id: Seq<char>,
    pub client_id: JsonView,
    pub local_request: JsonView,
    pub host_response: Option<JsonView>,
    pub reads: Seq<(Seq<char>, Seq<char>)>,
    pub instruction_paths: Seq<Seq<char>>,
    pub instruction_contents: Seq<(Seq<char>, Seq<char>)>,
    pub started_at: u64,
    pub local_sent: bool,
}

impl View for ProjectLookup {
    type V = LookupView;

    open spec fn view(&self) -> LookupView {
        LookupView {
            metadata_id: self.metadata_id@,
            client_id: self.client_id@,
            local_request: self.local_request@,
            host_response: optional(self.host_response),
            reads: self.reads@,
            instruction_paths: texts(self.instruction_paths@),
            instruction_contents: self.instruction_contents@,
            started_at: self.started_at,
            local_sent: self.local_sent,
        }
    }
}

pub open spec fn lookups_view(lookups: Seq<ProjectLookup>) -> Seq<LookupView> {
    lookups.map_values(|l: ProjectLookup| l@)
}

// ---------------------------------------------------------------------------
// Routes
// ---------------------------------------------------------------------------

/// Who gets a request with this method: threads start on both sides, the
/// host's own requests go to the host, everything else stays local.
pub open spec fn route_of(method: Option<Seq<char>>) -> RequestRoute {
    match method {
        Some(method) => if method == "thread/start"@ {
            RequestRoute::ThreadStart
        } else if host_request_methods().contains(method) {
            RequestRoute::Host
        } else {
            RequestRoute::Local
        },
        None => RequestRoute::Local,
    }
}

pub fn request_route(method: Option<&str>) -> (r: RequestRoute)
    ensures
        r == route_of(
            match method {
                Some(m) => Some(m@),
                None => None,
            },
        ),
{
    match method {
        Some(method) => if same_text(method, "thread/start") {
            RequestRoute::ThreadStart
        } else if is_host_request(method) {
            RequestRoute::Host
        } else {
            RequestRoute::Local
        },
        None => RequestRoute::Local,
    }
}

// ---------------------------------------------------------------------------
// Instructions of the remote project
// ---------------------------------------------------------------------------

/// The strings among `items`.
pub open spec fn strings_in(items: Seq<JsonView>) -> Seq<Seq<char>>
    decreases items.len(),
{
    if items.len() == 0 {
        Seq::empty()
    } else {
        match items.last() {
            JsonView::Text(s) => strings_in(items.drop_last()).push(s),
            _ => strings_in(items.drop_last()),
        }
    }
}

/// At most the first `n` of `items`.
pub open spec fn first_of<T>(items: Seq<T>, n: nat) -> Seq<T> {
    if items.len() <= n {
        items
    } else {
        items.take(n as int)
    }
}

/// The instruction files that the host names in its reply to thread/start.
pub open spec fn instruction_sources(host_response: JsonView) -> Seq<Seq<char>> {
    match nested(host_response, "result"@, "instructionSources"@) {
        Some(JsonView::Array(items)) => first_of(
            strings_in(items),
            MAX_INSTRUCTION_SOURCES as nat,
        ),
        _ => Seq::empty(),
    }
}

pub fn instruction_source_paths(host_response: &Json) -> (r: Vec<String>)
    ensures
        texts(r@) == instruction_sources(host_response@),
        r@.len() <= MAX_INSTRUCTION_SOURCES,
{
    broadcast use lemma_texts_push;

    let mut paths: Vec<String> = Vec::new();
    assert(texts(paths@) =~= Seq::empty());
    match host_response.get_nested("result", "instructionSources") {
        Some(Json::Array(items)) => {
            proof {
                lemma_array_view(items@);
            }
            let ghost views = array_view(items@);
            let mut i: usize = 0;
            assert(views.take(0) =~= Seq::empty());
            while i < items.len()
                invariant
                    i <= items.len(),
                    views == array_view(items@),
                    views.len() == items.len(),
                    forall|j: int| 0 <= j < items.len() ==> #[trigger] views[j] == json_view(items@[j]),
                    texts(paths@) == first_of(
                        strings_in(views.take(i as int)),
                        MAX_INSTRUCTION_SOURCES as nat,
                    ),
                    paths@.len() <= MAX_INSTRUCTION_SOURCES,
                decreases items.len() - i,
            {
                let ghost before = strings_in(views.take(i as int));
                assert(views.take(i as int + 1).drop_last() =~= views.take(i as int));
                assert(views[i as int] == json_view(items@[i as int]));
                match &items[i] {
                    Json::Text(path) => {
                        if paths.len() < MAX_INSTRUCTION_SOURCES {
                            assert(texts(paths@).len() == paths@.len());
                            assert(texts(paths@) == before);
                            paths.push(path.clone());
                            assert(texts(paths@) == before.push(path@));
                        } else {
                            assert(before.push(path@).take(MAX_INSTRUCTION_SOURCES as int)
                                =~= first_of(before, MAX_INSTRUCTION_SOURCES as nat));
                        }
                    },
                    _ => {},
                }
                i = i + 1;
            }
            assert(views.take(i as int) =~= views);
        },
        _ => {},
    }
    paths
}

/// One instruction file as the thread is told of it.
pub open spec fn instruction_text(path: Seq<char>, contents: Seq<char>) -> Seq<char> {
    "Instructions from "@ + path + ":\n"@ + contents
}

/// The instruction files among `paths` whose contents are known.
pub open spec fn instruction_texts(
    paths: Seq<Seq<char>>,
    contents: Seq<(Seq<char>, Seq<char>)>,
) -> Seq<Seq<char>>
    decreases paths.len(),
{
    if paths.len() == 0 {
        Seq::empty()
    } else {
        let before = instruction_texts(paths.drop_last(), contents);
        match value_of(contents, paths.last()) {
            Some(text) => before.push(instruction_text(paths.last(), text)),
            None => before,
        }
    }
}

/// `parts`, separated by blank lines.
pub open spec fn paragraphs(parts: Seq<Seq<char>>) -> Seq<char>
    decreases parts.len(),
{
    if parts.len() == 0 {
        Seq::empty()
    } else if parts.len() == 1 {
        parts[0]
    } else {
        paragraphs(parts.drop_last()) + "\n\n"@ + parts.last()
    }
}

/// The developer instructions of the client, then those of the project.
pub open spec fn combined_instructions(
    params: Map<Seq<char>, JsonView>,
    remote: Seq<char>,
) -> Seq<char> {
    match text_of(lookup(params, "developerInstructions"@)) {
        Some(existing) => if existing.len() == 0 {
            remote
        } else {
            existing + "\n\n"@ + remote
        },
        None => remote,
    }
}

/// The thread/start request that the local App Server gets.
pub open spec fn local_start(lookup: LookupView) -> Result<JsonView, Seq<char>> {
    let instructions = instruction_texts(lookup.instruction_paths, lookup.instruction_contents);
    if instructions.len() == 0 {
        Ok(lookup.local_request)
    } else {
        match lookup.local_request {
            JsonView::Object(object) => match object_field(object, "params"@) {
                Err(e) => Err(e),
                Ok(params) => Ok(
                    JsonView::Object(
                        object.insert(
                            "params"@,
                            JsonView::Object(
                                params.insert(
                                    "developerInstructions"@,
                                    JsonView::Text(
                                        combined_instructions(params, paragraphs(instructions)),
                                    ),
                                ),
                            ),
                        ),
                    ),
                ),
            },
            _ => Err("App Server message was not a JSON object"@),
        }
    }
}

impl ProjectLookup {
    /// The instruction files whose contents are known, as one text: none where
    /// no contents are known.
    fn instructions(&self) -> (r: Option<String>)
        ensures
            ({
                let parts = instruction_texts(
                    self@.instruction_paths,
                    self@.instruction_contents,
                );
                match r {
                    Some(s) => parts.len() > 0 && s@ == paragraphs(parts),
                    None => parts.len() == 0,
                }
            }),
    {
        let mut r: Option<String> = None;
        let ghost paths = texts(self.instruction_paths@);
        let ghost contents = self.instruction_contents@;
        let mut i: usize = 0;
        assert(paths.take(0) =~= Seq::empty());
        while i < self.instruction_paths.len()
            invariant
                i <= self.instruction_paths.len(),
                paths == texts(self.instruction_paths@),
                contents == self.instruction_contents@,
                ({
                    let parts = instruction_texts(paths.take(i as int), contents);
                    match r {
                        Some(s) => parts.len() > 0 && s@ == paragraphs(parts),
                        None => parts.len() == 0,
                    }
                }),
            decreases self.instruction_paths.len() - i,
        {
            let path = self.instruction_paths[i].as_str();
            let ghost parts = instruction_texts(paths.take(i as int), contents);
            assert(paths.take(i as int + 1).drop_last() =~= paths.take(i as int));
            assert(paths[i as int] == path@);
            match self.instruction_contents.get(path) {
                Some(text) => {
                    let mut part = "Instructions from ".to_owned();
                    part.push_str(path);
                    part.push_str(":\n");
                    part.push_str(text);
                    assert(parts.push(part@).drop_last() =~= parts);
                    r = match r {
                        Some(known) => {
                            let mut all = known;
                            all.push_str("\n\n");
                            all.push_str(&part);
                            Some(all)
                        },
                        None => Some(part),
                    };
                },
                None => {},
            }
            i = i + 1;
        }
        assert(paths.take(i as int) =~= paths);
        r
    }

    /// The thread/start request that the local App Server gets.
    pub fn local_start(&self) -> (r: Result<Json, Failure>)
        ensures
            outcome(r) == local_start(self@),
    {
        let remote = match self.instructions() {
            Some(remote) => remote,
            None => return Ok(self.local_request.copy()),
        };
        match self.local_request.copy() {
            Json::Object(object) => {
                let mut object = object;
                let ghost before = object@;
                let mut params = match take_object_field(&mut object, "params") {
                    Ok(params) => params,
                    Err(e) => return Err(e),
                };
                let combined = match params.get("developerInstructions") {
                    Some(Json::Text(existing)) => if existing.as_str().is_empty() {
                        remote
                    } else {
                        let mut combined = existing.clone();
                        combined.push_str("\n\n");
                        combined.push_str(&remote);
                        combined
                    },
                    _ => remote,
                };
                params.insert("developerInstructions", Json::Text(combined));
                let ghost inner = JsonView::Object(params@);
                object.insert("params", Json::Object(params));
                assert(object@ =~= before.insert("params"@, inner));
                Ok(Json::Object(object))
            },
            _ => Err(refuse("App Server message was not a JSON object")),
        }
    }
}

// ---------------------------------------------------------------------------
// The relay
// ---------------------------------------------------------------------------

/// The relay of one client.
pub struct WebsocketRelay {
    pub profile: Profile,
    pub initialize_id: Option<Json>,
    pub environment_requested: bool,
    pub environment_ready: bool,
    pub status_attempts: u16,
    pub local_initialize: Option<Json>,
    pub host_initialize: Option<Json>,
    pub initialize_answered: bool,
    pub queue: VecDeque<QueuedMessage>,
    pub queued_bytes: usize,
    pub metadata_sequence: u64,
    pub lookups: Vec<ProjectLookup>,
}

pub struct RelayView {
    pub environment: Seq<char>,
    pub exec_port: u16,
    pub remote_home: Option<Seq<char>>,
    /// The id of the client's initialize request, once it came.
    pub initialize_id: Option<JsonView>,
    /// Whether the local App Server was asked to add the remote environment.
    pub environment_requested: bool,
    pub environment_ready: bool,
    pub status_attempts: u16,
    /// The two replies to initialize, until they are merged.
    pub local_initialize: Option<JsonView>,
    pub host_initialize: Option<JsonView>,
    /// Whether the client has its reply to initialize.
    pub initialize_answered: bool,
    /// What the client sent since, in order.
    pub queue: Seq<QueuedView>,
    pub metadata_sequence: u64,
    pub lookups: Seq<LookupView>,
}

impl View for WebsocketRelay {
    type V = RelayView;

    open spec fn view(&self) -> RelayView {
        RelayView {
            environment: self.profile.environment_id@,
            exec_port: self.profile.local_exec_port,
            remote_home: optional_text(self.profile.remote_home),
            initialize_id: optional(self.initialize_id),
            environment_requested: self.environment_requested,
            environment_ready: self.environment_ready,
            status_attempts: self.status_attempts,
            local_initialize: optional(self.local_initialize),
            host_initialize: optional(self.host_initialize),
            initialize_answered: self.initialize_answered,
            queue: queue_view(self.queue@),
            metadata_sequence: self.metadata_sequence,
            lookups: lookups_view(self.lookups@),
        }
    }
}

/// What a turn makes of the relay: the state it leaves (where it succeeds),
/// the actions it asks for, and whether the relay goes on.
pub struct Turn {
    pub state: RelayView,
    pub actions: Seq<ActionView>,
    pub outcome: Result<(), Seq<char>>,
}

pub open spec fn goes_on(state: RelayView, actions: Seq<ActionView>) -> Turn {
    Turn { state, actions, outcome: Ok(()) }
}

pub open spec fn stops(state: RelayView, actions: Seq<ActionView>, message: Seq<char>) -> Turn {
    Turn { state, actions, outcome: Err(message) }
}

/// One more action, then the turn `next`.
pub open spec fn after_actions(actions: Seq<ActionView>, next: Turn) -> Turn {
    Turn { state: next.state, actions: actions + next.actions, outcome: next.outcome }
}

// Forwarding ----------------------------------------------------------------

pub open spec fn next_sequence(sequence: u64) -> u64 {
    if sequence == u64::MAX {
        sequence
    } else {
        (sequence + 1) as u64
    }
}

pub open spec fn metadata_id(environment: Seq<char>, sequence: u64) -> Seq<char> {
    internal_id(environment, "thread-metadata/"@) + decimal(sequence as nat)
}

/// The request by which the host is asked about the project of a thread: the
/// client's own, under another id, outside every environment, and leaving no
/// thread behind.
pub open spec fn shadow_request(object: Map<Seq<char>, JsonView>, id: Seq<char>) -> Result<
    JsonView,
    Seq<char>,
> {
    match object_field(object, "params"@) {
        Err(e) => Err(e),
        Ok(params) => Ok(
            JsonView::Object(
                object.insert("id"@, JsonView::Text(id)).insert(
                    "params"@,
                    JsonView::Object(
                        params.remove("environments"@).insert("ephemeral"@, JsonView::Bool(true)),
                    ),
                ),
            ),
        ),
    }
}

/// Where the lookup with this id stands (behind all where there is none).
pub open spec fn lookup_index(lookups: Seq<LookupView>, id: Seq<char>) -> nat
    decreases lookups.len(),
{
    if lookups.len() == 0 || lookups[0].metadata_id == id {
        0
    } else {
        1 + lookup_index(lookups.skip(1), id)
    }
}

pub open spec fn with_lookup(lookups: Seq<LookupView>, lookup: LookupView) -> Seq<LookupView> {
    let i = lookup_index(lookups, lookup.metadata_id);
    if i < lookups.len() {
        lookups.update(i as int, lookup)
    } else {
        lookups.push(lookup)
    }
}

pub open spec fn new_lookup(
    id: Seq<char>,
    client_id: JsonView,
    request: JsonView,
    now: u64,
) -> LookupView {
    LookupView {
        metadata_id: id,
        client_id,
        local_request: request,
        host_response: None,
        reads: Seq::empty(),
        instruction_paths: Seq::empty(),
        instruction_contents: Seq::empty(),
        started_at: now,
        local_sent: false,
    }
}

/// A message of the client goes to whom its route says.
pub open spec fn forward_turn(state: RelayView, message: QueuedView, now: u64) -> Turn {
    match message.route {
        RequestRoute::Local => goes_on(state, seq![ActionView::ToServer(message.text)]),
        RequestRoute::Host => goes_on(state, seq![ActionView::ToHost(message.text)]),
        RequestRoute::ThreadStart => match (message.message, field(message.message, "id"@)) {
            (JsonView::Object(object), Some(client_id)) => {
                let sequence = next_sequence(state.metadata_sequence);
                let id = metadata_id(state.environment, sequence);
                let numbered = RelayView { metadata_sequence: sequence, ..state };
                match shadow_request(object, id) {
                    Err(e) => stops(numbered, Seq::empty(), e),
                    Ok(shadow) => goes_on(
                        RelayView {
                            lookups: with_lookup(
                                state.lookups,
                                new_lookup(id, client_id, message.message, now),
                            ),
                            ..numbered
                        },
                        seq![ActionView::ToHost(json_text(shadow))],
                    ),
                }
            },
            _ => stops(state, Seq::empty(), "thread/start did not contain an id"@),
        },
    }
}

/// All that waits is forwarded, first come first served.
pub open spec fn flush_turn(state: RelayView, now: u64) -> Turn
    decreases state.queue.len(),
{
    if state.queue.len() == 0 {
        goes_on(state, Seq::empty())
    } else {
        let first = forward_turn(
            RelayView { queue: state.queue.skip(1), ..state },
            state.queue[0],
            now,
        );
        if first.outcome is Err {
            first
        } else {
            after_actions(first.actions, flush_turn(first.state, now))
        }
    }
}

/// What every turn but those of the bridge's own requests ends with: once both
/// replies to initialize are there the client gets its reply, and once it has
/// it and the environment is ready, what waits is forwarded.
pub open spec fn settle_turn(state: RelayView, now: u64) -> Turn {
    match (state.local_initialize, state.host_initialize) {
        (Some(local), Some(host)) if !state.initialize_answered => match merged_initialize(
            local,
            host,
            state.remote_home,
        ) {
            Err(e) => stops(state, Seq::empty(), e),
            Ok(merged) => {
                let answered = RelayView {
                    local_initialize: None,
                    initialize_answered: true,
                    ..state
                };
                after_actions(
                    seq![ActionView::ToClient(json_text(merged))],
                    if state.environment_ready {
                        flush_turn(answered, now)
                    } else {
                        goes_on(answered, Seq::empty())
                    },
                )
            },
        },
        _ => if state.environment_ready && state.initialize_answered {
            flush_turn(state, now)
        } else {
            goes_on(state, Seq::empty())
        },
    }
}

/// A turn, then what every turn ends with.
pub open spec fn settled(turn: Turn, now: u64) -> Turn {
    if turn.outcome is Err {
        turn
    } else {
        after_actions(turn.actions, settle_turn(turn.state, now))
    }
}

// Messages of the client ------------------------------------------------------

/// Whether a message of the client has to wait.
pub open spec fn must_wait(state: RelayView) -> bool {
    state.initialize_id is Some && (!state.environment_ready || !state.initialize_answered)
}

/// A rewritten message of the client, before the turn is settled.
pub open spec fn deliver_turn(state: RelayView, message: JsonView, now: u64) -> Turn {
    let text = json_text(message);
    let queued = QueuedView { text, message, route: route_of(method_of(message)) };
    match (message, method_of(message) == Some("initialize"@)) {
        (JsonView::Object(object), true) => goes_on(
            state,
            seq![
                ActionView::ToHost(
                    json_text(
                        JsonView::Object(
                            object.insert(
                                "id"@,
                                JsonView::Text(internal_id(state.environment, "host-initialize"@)),
                            ),
                        ),
                    ),
                ),
                ActionView::ToServer(text),
            ],
        ),
        _ => if must_wait(state) {
            if queued_bytes(state.queue) + encode_utf8(text).len() > MAX_PENDING_CLIENT_BYTES {
                stops(
                    state,
                    Seq::empty(),
                    "client sent too much data before the remote host became ready"@,
                )
            } else {
                goes_on(RelayView { queue: state.queue.push(queued), ..state }, Seq::empty())
            }
        } else {
            forward_turn(state, queued, now)
        },
    }
}

pub open spec fn client_turn(state: RelayView, message: JsonView, now: u64) -> Turn {
    let noted = RelayView {
        initialize_id: initialize_id_after(message, state.initialize_id),
        ..state
    };
    match rewritten(message, state.environment) {
        Err(e) => stops(noted, Seq::empty(), e),
        Ok(message) => settled(deliver_turn(noted, message, now), now),
    }
}

// Messages of the local App Server --------------------------------------------

/// The question whether the environment is ready.
pub open spec fn status_question(environment: Seq<char>) -> ActionView {
    ActionView::ToServer(
        json_text(
            environment_status(internal_id(environment, "environment-status"@), environment),
        ),
    )
}

/// The reply to the bridge's environment/add.
pub open spec fn added_turn(state: RelayView, message: JsonView) -> Turn {
    match field(message, "error"@) {
        Some(error) => stops(
            state,
            Seq::empty(),
            "environment/add failed: "@ + json_text(error),
        ),
        None => goes_on(
            RelayView { status_attempts: 1, ..state },
            seq![status_question(state.environment)],
        ),
    }
}

/// The reply to the bridge's environment/status.
pub open spec fn status_turn(state: RelayView, message: JsonView, now: u64) -> Turn {
    match status_reply(message) {
        Err(e) => stops(state, Seq::empty(), e),
        Ok(true) => {
            let ready = RelayView { environment_ready: true, ..state };
            if state.initialize_answered {
                flush_turn(ready, now)
            } else {
                goes_on(ready, Seq::empty())
            }
        },
        Ok(false) => if state.status_attempts >= MAX_STATUS_ATTEMPTS {
            stops(
                state,
                Seq::empty(),
                "execution environment did not become ready within 10 seconds"@,
            )
        } else {
            goes_on(
                RelayView { status_attempts: (state.status_attempts + 1) as u16, ..state },
                seq![ActionView::Pause(STATUS_PAUSE), status_question(state.environment)],
            )
        },
    }
}

/// Whether `message` replies to the request with this id.
pub open spec fn replies_to(message: JsonView, id: JsonView) -> bool {
    match field(message, "id"@) {
        Some(own) => same_value(own, id),
        None => false,
    }
}

/// Whether `message` replies to the client's initialize request.
pub open spec fn is_initialize_reply(state: RelayView, message: JsonView) -> bool {
    !state.environment_requested && match state.initialize_id {
        Some(id) => replies_to(message, id),
        None => false,
    }
}

pub open spec fn initialized_turn(state: RelayView, message: JsonView) -> Turn {
    match field(message, "error"@) {
        Some(error) => stops(
            state,
            Seq::empty(),
            "app-server initialize failed: "@ + json_text(error),
        ),
        None => goes_on(
            RelayView { local_initialize: Some(message), environment_requested: true, ..state },
            seq![
                ActionView::ToServer(
                    json_text(environment_add(state.environment, state.exec_port)),
                ),
            ],
        ),
    }
}

/// Where the first started thread stands that `message` replies to (behind all
/// where there is none).
pub open spec fn reply_index(lookups: Seq<LookupView>, message: JsonView) -> nat
    decreases lookups.len(),
{
    if lookups.len() == 0 || (lookups[0].local_sent && replies_to(message, lookups[0].client_id)) {
        0
    } else {
        1 + reply_index(lookups.skip(1), message)
    }
}

/// The local reply to thread/start goes to the client with what the host knows
/// of the project.
pub open spec fn started_turn(state: RelayView, index: int, message: JsonView) -> Turn {
    let rest = RelayView { lookups: state.lookups.remove(index), ..state };
    match state.lookups[index].host_response {
        Some(host) => match merged_thread(message, host) {
            Err(e) => stops(rest, Seq::empty(), e),
            Ok(merged) => goes_on(rest, seq![ActionView::ToClient(json_text(merged))]),
        },
        None => goes_on(rest, seq![ActionView::ToClient(json_text(message))]),
    }
}

pub open spec fn server_turn(state: RelayView, message: JsonView, now: u64) -> Turn {
    let id = text_of(field(message, "id"@));
    let index = reply_index(state.lookups, message);
    if id == Some(internal_id(state.environment, "environment-add"@)) {
        added_turn(state, message)
    } else if id == Some(internal_id(state.environment, "environment-status"@)) {
        status_turn(state, message, now)
    } else if is_initialize_reply(state, message) {
        settled(initialized_turn(state, message), now)
    } else if index < state.lookups.len() {
        settled(started_turn(state, index as int, message), now)
    } else {
        settled(goes_on(state, seq![ActionView::PassToClient]), now)
    }
}

// Messages of the host --------------------------------------------------------

pub open spec fn with_lookup_at(state: RelayView, index: int, lookup: LookupView) -> RelayView {
    RelayView { lookups: state.lookups.update(index, lookup), ..state }
}

/// The thread starts locally, with the instructions that are known, unless it
/// has already.
pub open spec fn start_turn(state: RelayView, index: int) -> Turn {
    let lookup = state.lookups[index];
    if lookup.local_sent {
        goes_on(state, Seq::empty())
    } else {
        match local_start(lookup) {
            Err(e) => stops(state, Seq::empty(), e),
            Ok(request) => goes_on(
                with_lookup_at(state, index, LookupView { local_sent: true, ..lookup }),
                seq![ActionView::ToServer(json_text(request))],
            ),
        }
    }
}

pub open spec fn read_id(metadata_id: Seq<char>, index: nat) -> Seq<char> {
    metadata_id + "/instruction/"@ + decimal(index)
}

pub open spec fn read_request(id: Seq<char>, path: Seq<char>) -> JsonView {
    request(id, "fs/readFile"@, Map::empty().insert("path"@, JsonView::Text(path)))
}

/// The reads of the first `n` of the instruction files.
pub open spec fn reads_after(
    reads: Seq<(Seq<char>, Seq<char>)>,
    id: Seq<char>,
    paths: Seq<Seq<char>>,
    n: nat,
) -> Seq<(Seq<char>, Seq<char>)>
    decreases n,
{
    if n == 0 {
        reads
    } else {
        with_entry(
            reads_after(reads, id, paths, (n - 1) as nat),
            read_id(id, (n - 1) as nat),
            paths[n - 1],
        )
    }
}

pub open spec fn read_actions(id: Seq<char>, paths: Seq<Seq<char>>) -> Seq<ActionView> {
    Seq::new(
        paths.len(),
        |i: int| ActionView::ToHost(json_text(read_request(read_id(id, i as nat), paths[i]))),
    )
}

/// The host's reply about the project of a thread that has not started yet.
pub open spec fn project_turn(state: RelayView, index: int, message: JsonView) -> Turn {
    let lookup = state.lookups[index];
    let paths = instruction_sources(message);
    let known = LookupView {
        host_response: Some(message),
        instruction_paths: paths,
        ..lookup
    };
    if paths.len() == 0 {
        start_turn(with_lookup_at(state, index, known), index)
    } else {
        goes_on(
            with_lookup_at(
                state,
                index,
                LookupView {
                    reads: reads_after(lookup.reads, lookup.metadata_id, paths, paths.len()),
                    ..known
                },
            ),
            read_actions(lookup.metadata_id, paths),
        )
    }
}

/// The host's reply to a project lookup.
pub open spec fn lookup_turn(state: RelayView, index: int, message: JsonView) -> Turn {
    let lookup = state.lookups[index];
    if field(message, "error"@) is Some {
        start_turn(state, index)
    } else if lookup.local_sent {
        goes_on(
            with_lookup_at(state, index, LookupView { host_response: Some(message), ..lookup }),
            Seq::empty(),
        )
    } else {
        project_turn(state, index, message)
    }
}

/// Where the first lookup stands that waits for this read (behind all where
/// there is none).
pub open spec fn read_index(lookups: Seq<LookupView>, id: Seq<char>) -> nat
    decreases lookups.len(),
{
    if lookups.len() == 0 || has_key(lookups[0].reads, id) {
        0
    } else {
        1 + read_index(lookups.skip(1), id)
    }
}

/// What `base64` decodes from a text in the standard alphabet: nothing where
/// it refuses the text.
pub uninterp spec fn decoded_base64(text: Seq<char>) -> Option<Seq<u8>>;

/// The contents of an instruction file join those that are known, within the
/// limits.
pub open spec fn recorded(
    lookup: LookupView,
    path: Seq<char>,
    decoded: Option<Seq<u8>>,
) -> Result<LookupView, Seq<char>> {
    match decoded {
        None => Err("Host App Server returned invalid base64 for "@ + path),
        Some(bytes) => if bytes.len() > MAX_INSTRUCTION_SOURCE_BYTES {
            Err("remote instruction source is too large: "@ + path)
        } else if value_bytes(lookup.instruction_contents) + bytes.len()
            > MAX_INSTRUCTION_TOTAL_BYTES {
            Err("remote instruction sources exceed the aggregate size limit"@)
        } else if !valid_utf8(bytes) {
            Err("remote instruction source is not UTF-8: "@ + path)
        } else {
            Ok(
                LookupView {
                    instruction_contents: with_entry(
                        lookup.instruction_contents,
                        path,
                        decode_utf8(bytes),
                    ),
                    ..lookup
                },
            )
        },
    }
}

/// The host's reply to the read `id` of an instruction file. A reply without
/// contents leaves the file out.
pub open spec fn read_reply(lookup: LookupView, id: Seq<char>, message: JsonView) -> Result<
    LookupView,
    Seq<char>,
> {
    let rest = LookupView { reads: without_entry(lookup.reads, id), ..lookup };
    match text_of(nested(message, "result"@, "dataBase64"@)) {
        None => Ok(rest),
        Some(encoded) => recorded(
            rest,
            value_of(lookup.reads, id)->Some_0,
            decoded_base64(encoded),
        ),
    }
}

pub open spec fn read_turn(state: RelayView, index: int, id: Seq<char>, message: JsonView) -> Turn {
    match read_reply(state.lookups[index], id, message) {
        Err(e) => stops(state, Seq::empty(), e),
        Ok(lookup) => {
            let next = with_lookup_at(state, index, lookup);
            if lookup.reads.len() == 0 {
                start_turn(next, index)
            } else {
                goes_on(next, Seq::empty())
            }
        },
    }
}

pub open spec fn host_initialized_turn(state: RelayView, message: JsonView) -> Turn {
    match field(message, "error"@) {
        Some(error) => stops(
            state,
            Seq::empty(),
            "remote Host App Server initialize failed: "@ + json_text(error),
        ),
        None => goes_on(RelayView { host_initialize: Some(message), ..state }, Seq::empty()),
    }
}

/// A message of the host, before the turn is settled.
pub open spec fn host_message_turn(state: RelayView, message: JsonView) -> Turn {
    let pass = if host_message_visible(message, state.environment) {
        goes_on(state, seq![ActionView::PassToClient])
    } else {
        goes_on(state, Seq::empty())
    };
    match text_of(field(message, "id"@)) {
        Some(id) => if id == internal_id(state.environment, "host-initialize"@) {
            host_initialized_turn(state, message)
        } else if lookup_index(state.lookups, id) < state.lookups.len() {
            lookup_turn(state, lookup_index(state.lookups, id) as int, message)
        } else if read_index(state.lookups, id) < state.lookups.len() {
            read_turn(state, read_index(state.lookups, id) as int, id, message)
        } else {
            pass
        },
        None => pass,
    }
}

pub open spec fn host_turn(state: RelayView, message: JsonView, now: u64) -> Turn {
    settled(host_message_turn(state, message), now)
}

// The clock -------------------------------------------------------------------

/// Whether a thread has waited long enough for its project.
pub open spec fn has_expired(lookup: LookupView, now: u64) -> bool {
    !lookup.local_sent && now - lookup.started_at >= PROJECT_METADATA_TIMEOUT
}

/// The threads from `index` on that have waited long enough start.
pub open spec fn expire_turn(state: RelayView, index: nat, now: u64) -> Turn
    decreases state.lookups.len() - index,
{
    if index >= state.lookups.len() {
        goes_on(state, Seq::empty())
    } else if has_expired(state.lookups[index as int], now) {
        let first = start_turn(state, index as int);
        if first.outcome is Err {
            first
        } else {
            after_actions(first.actions, expire_turn(first.state, index + 1, now))
        }
    } else {
        expire_turn(state, index + 1, now)
    }
}

pub open spec fn tick_turn(state: RelayView, now: u64) -> Turn {
    settled(expire_turn(state, 0, now), now)
}

} // verus!
