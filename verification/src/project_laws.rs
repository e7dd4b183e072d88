//! What the relay learns about the project of a thread on the host, how long
//! the thread waits for it, and what the thread is told of it.

use vstd::prelude::*;
use vstd::utf8::*;
use crate::bridge::{host_message_visible, internal_id};
use crate::entries::{has_key, value_bytes, value_of, without_entry};
use crate::json::{JsonView, field, json_text, nested, text_of};
use crate::relay_laws::is_settled;
use crate::relay_model::{
    ActionView, LookupView, RelayView, decoded_base64, expire_turn, flush_turn, goes_on,
    has_expired, host_message_turn, host_turn, instruction_sources, instruction_texts, local_start,
    lookup_index, lookup_turn, paragraphs, read_id, read_index, read_reply, read_request, read_turn,
    reads_after, recorded, settled, start_turn, strings_in, tick_turn,
};
use crate::text::decimal;
use crate::text_laws::{law_entries_are_found, law_numbers_are_read_back};

verus! {

/// Where the lookup with an id stands: at the first place where one has it.
proof fn lemma_lookup_found(lookups: Seq<LookupView>, id: Seq<char>)
    ensures
        lookup_index(lookups, id) <= lookups.len(),
        lookup_index(lookups, id) < lookups.len() ==> lookups[lookup_index(
            lookups,
            id,
        ) as int].metadata_id == id,
        forall|i: int|
            0 <= i < lookup_index(lookups, id) && i < lookups.len() ==> (
            #[trigger] lookups[i]).metadata_id != id,
    decreases lookups.len(),
{
    if lookups.len() > 0 && lookups[0].metadata_id != id {
        let rest = lookups.skip(1);
        lemma_lookup_found(rest, id);
        assert forall|i: int|
            0 <= i < lookup_index(lookups, id) && i < lookups.len() implies (
        #[trigger] lookups[i]).metadata_id != id by {
            if i > 0 {
                assert(rest[i - 1] == lookups[i]);
            }
        }
    }
}

/// Where the lookup that waits for a read stands: at the first place where one
/// does.
proof fn lemma_read_found(lookups: Seq<LookupView>, id: Seq<char>)
    ensures
        read_index(lookups, id) <= lookups.len(),
        read_index(lookups, id) < lookups.len() ==> has_key(
            lookups[read_index(lookups, id) as int].reads,
            id,
        ),
        forall|i: int|
            0 <= i < read_index(lookups, id) && i < lookups.len() ==> !has_key(
                (#[trigger] lookups[i]).reads,
                id,
            ),
    decreases lookups.len(),
{
    if lookups.len() > 0 && !has_key(lookups[0].reads, id) {
        let rest = lookups.skip(1);
        lemma_read_found(rest, id);
        assert forall|i: int|
            0 <= i < read_index(lookups, id) && i < lookups.len() implies !has_key(
            (#[trigger] lookups[i]).reads,
            id,
        ) by {
            if i > 0 {
                assert(rest[i - 1] == lookups[i]);
            }
        }
    }
}

proof fn lemma_settled(state: RelayView, actions: Seq<ActionView>, now: u64)
    requires
        is_settled(state),
    ensures
        settled(goes_on(state, actions), now) == goes_on(state, actions),
{
    if state.environment_ready && state.initialize_answered {
        assert(flush_turn(state, now) == goes_on(state, Seq::<ActionView>::empty()));
    }
    assert(actions + Seq::<ActionView>::empty() =~= actions);
}

proof fn lemma_host_initialize_id(environment: Seq<char>)
    ensures
        internal_id(environment, "host-initialize"@) == "cxs/"@ + environment
            + "/host-initialize"@,
{
    reveal_strlit("/");
    reveal_strlit("host-initialize");
    reveal_strlit("/host-initialize");
    assert(internal_id(environment, "host-initialize"@) =~= "cxs/"@ + environment
        + "/host-initialize"@);
}

/// What the host says goes to the client as it came, or to nobody, unless it
/// replies to the bridge.
pub proof fn law_the_host_speaks_to_the_client(state: RelayView, message: JsonView, now: u64)
    requires
        is_settled(state),
        text_of(field(message, "id"@)) matches Some(id) ==> {
            &&& id != "cxs/"@ + state.environment + "/host-initialize"@
            &&& forall|i: int|
                0 <= i < state.lookups.len() ==> (#[trigger] state.lookups[i]).metadata_id != id
                    && value_of(state.lookups[i].reads, id) is None
        },
    ensures
        host_turn(state, message, now) == goes_on(
            state,
            (if host_message_visible(message, state.environment) {
                seq![ActionView::PassToClient]
            } else {
                Seq::empty()
            }),
        ),
{
    lemma_host_initialize_id(state.environment);
    if let Some(id) = text_of(field(message, "id"@)) {
        lemma_lookup_found(state.lookups, id);
        lemma_read_found(state.lookups, id);
        let a = lookup_index(state.lookups, id) as int;
        let b = read_index(state.lookups, id) as int;
        if a < state.lookups.len() {
            assert(state.lookups[a].metadata_id == id);
        }
        if b < state.lookups.len() {
            assert(value_of(state.lookups[b].reads, id) is Some);
        }
    }
    let first = host_message_turn(state, message);
    lemma_settled(first.state, first.actions, now);
}

/// The host's reply to initialize is kept until the local one is there.
pub proof fn law_the_host_initializes(state: RelayView, message: JsonView, now: u64)
    requires
        is_settled(state),
        state.local_initialize is None,
        field(message, "id"@) == Some(
            JsonView::Text("cxs/"@ + state.environment + "/host-initialize"@),
        ),
    ensures
        field(message, "error"@) is Some ==> host_turn(state, message, now).outcome is Err
            && host_turn(state, message, now).actions.len() == 0,
        field(message, "error"@) is None ==> host_turn(state, message, now) == goes_on(
            (RelayView { host_initialize: Some(message), ..state }),
            Seq::empty(),
        ),
{
    lemma_host_initialize_id(state.environment);
    let first = host_message_turn(state, message);
    if field(message, "error"@) is None {
        lemma_settled(first.state, first.actions, now);
    }
}

// ---------------------------------------------------------------------------
// Instruction files
// ---------------------------------------------------------------------------

proof fn lemma_all_strings(items: Seq<JsonView>)
    requires
        forall|i: int| 0 <= i < items.len() ==> #[trigger] items[i] is Text,
    ensures
        strings_in(items).len() == items.len(),
        forall|i: int|
            0 <= i < items.len() ==> #[trigger] strings_in(items)[i] == items[i]->Text_0,
    decreases items.len(),
{
    if items.len() > 0 {
        let before = items.drop_last();
        assert forall|i: int| 0 <= i < before.len() implies #[trigger] before[i] is Text by {
            assert(before[i] == items[i]);
        }
        lemma_all_strings(before);
        assert(items.last() is Text) by {
            assert(items[items.len() - 1] is Text);
        }
        assert forall|i: int| 0 <= i < items.len() implies #[trigger] strings_in(items)[i]
            == items[i]->Text_0 by {
            if i < before.len() {
                assert(before[i] == items[i]);
                assert(strings_in(items)[i] == strings_in(before)[i]);
            }
        }
    }
}

/// The instruction files are those that the host names, in its order, and no
/// more than 32 of them; a host that names none has none.
pub proof fn law_which_instruction_files(message: JsonView, items: Seq<JsonView>)
    requires
        forall|i: int| 0 <= i < items.len() ==> #[trigger] items[i] is Text,
    ensures
        nested(message, "result"@, "instructionSources"@) == Some(JsonView::Array(items)) ==> {
            let paths = instruction_sources(message);
            &&& paths.len() == (if items.len() <= 32 {
                items.len()
            } else {
                32
            })
            &&& forall|i: int|
                0 <= i < paths.len() ==> #[trigger] paths[i] == items[i]->Text_0
        },
        !(nested(message, "result"@, "instructionSources"@) matches Some(JsonView::Array(_)))
            ==> instruction_sources(message).len() == 0,
{
    lemma_all_strings(items);
    if nested(message, "result"@, "instructionSources"@) == Some(JsonView::Array(items)) {
        let paths = instruction_sources(message);
        assert forall|i: int| 0 <= i < paths.len() implies #[trigger] paths[i]
            == items[i]->Text_0 by {
            assert(paths[i] == strings_in(items)[i]);
        }
    }
}

/// What is no string is passed over.
pub proof fn law_other_items_are_passed_over(items: Seq<JsonView>, item: JsonView)
    ensures
        item is Text ==> strings_in(items.push(item)) == strings_in(items).push(item->Text_0),
        !(item is Text) ==> strings_in(items.push(item)) == strings_in(items),
        strings_in(Seq::empty()) == Seq::<Seq<char>>::empty(),
{
    assert(items.push(item).drop_last() =~= items);
    assert(items.push(item).last() == item);
}

proof fn lemma_read_ids(id: Seq<char>, i: nat, j: nat)
    requires
        read_id(id, i) == read_id(id, j),
    ensures
        i == j,
{
    let head = id + "/instruction/"@;
    assert(read_id(id, i) =~= head + decimal(i));
    assert(read_id(id, j) =~= head + decimal(j));
    assert(decimal(i) =~= read_id(id, i).skip(head.len() as int));
    assert(decimal(j) =~= read_id(id, j).skip(head.len() as int));
    law_numbers_are_read_back(i, i);
    law_numbers_are_read_back(j, i);
    law_numbers_are_read_back(i, j);
    law_numbers_are_read_back(j, j);
}

proof fn lemma_reads(
    reads: Seq<(Seq<char>, Seq<char>)>,
    id: Seq<char>,
    paths: Seq<Seq<char>>,
    n: nat,
    i: nat,
)
    requires
        i < n <= paths.len(),
    ensures
        value_of(reads_after(reads, id, paths, n), read_id(id, i)) == Some(paths[i as int]),
    decreases n,
{
    let before = reads_after(reads, id, paths, (n - 1) as nat);
    law_entries_are_found(before, read_id(id, (n - 1) as nat), paths[n - 1], read_id(id, i));
    if i < n - 1 {
        lemma_reads(reads, id, paths, (n - 1) as nat, i);
        if read_id(id, i) == read_id(id, (n - 1) as nat) {
            lemma_read_ids(id, i, (n - 1) as nat);
        }
    }
}

/// Once the host has said which instruction files a project has, it is asked
/// for each of them, by its path and under an id of its own, and the thread
/// goes on waiting.
pub proof fn law_instruction_files_are_read(
    state: RelayView,
    index: int,
    message: JsonView,
    i: int,
)
    requires
        0 <= index < state.lookups.len(),
        !state.lookups[index].local_sent,
        field(message, "error"@) is None,
        0 <= i < instruction_sources(message).len(),
    ensures
        ({
            let turn = lookup_turn(state, index, message);
            let paths = instruction_sources(message);
            let after = turn.state.lookups[index];
            let id = state.lookups[index].metadata_id + "/instruction/"@ + decimal(i as nat);
            &&& turn.outcome is Ok
            &&& turn.actions.len() == paths.len()
            &&& exists|asked: JsonView|
                {
                    &&& turn.actions[i] == ActionView::ToHost(#[trigger] json_text(asked))
                    &&& field(asked, "id"@) == Some(JsonView::Text(id))
                    &&& field(asked, "method"@) == Some(JsonView::Text("fs/readFile"@))
                    &&& nested(asked, "params"@, "path"@) == Some(JsonView::Text(paths[i]))
                }
            &&& value_of(after.reads, id) == Some(paths[i])
            &&& after.instruction_paths == paths
            &&& after.host_response == Some(message)
            &&& !after.local_sent
            &&& after.local_request == state.lookups[index].local_request
            &&& after.client_id == state.lookups[index].client_id
            &&& after.started_at == state.lookups[index].started_at
            &&& turn.state == (RelayView {
                lookups: state.lookups.update(index, after),
                ..state
            })
        }),
{
    reveal_strlit("id");
    reveal_strlit("method");
    reveal_strlit("params");
    assert("id"@.len() == 2 && "method"@[0] == 'm' && "params"@[0] == 'p');
    assert("method"@.len() == 6 && "params"@.len() == 6);
    let lookup = state.lookups[index];
    let paths = instruction_sources(message);
    let turn = lookup_turn(state, index, message);
    let asked = read_request(read_id(lookup.metadata_id, i as nat), paths[i]);
    assert(turn.actions[i] == ActionView::ToHost(json_text(asked)));
    lemma_reads(lookup.reads, lookup.metadata_id, paths, paths.len(), i as nat);
    let after = turn.state.lookups[index];
    assert(state.lookups.update(index, after) =~= turn.state.lookups);
}

/// A file is kept where it is text and within the limits: 256 KiB each and
/// 512 KiB together. Any other stops the relay.
pub proof fn law_which_files_are_kept(
    lookup: LookupView,
    path: Seq<char>,
    bytes: Seq<u8>,
    other: Seq<char>,
)
    ensures
        recorded(lookup, path, None) is Err,
        recorded(lookup, path, Some(bytes)) is Ok <==> {
            &&& bytes.len() <= 256 * 1024
            &&& value_bytes(lookup.instruction_contents) + bytes.len() <= 512 * 1024
            &&& valid_utf8(bytes)
        },
        recorded(lookup, path, Some(bytes)) matches Ok(after) ==> {
            &&& value_of(after.instruction_contents, path) == Some(decode_utf8(bytes))
            &&& other != path ==> value_of(after.instruction_contents, other) == value_of(
                lookup.instruction_contents,
                other,
            )
            &&& after == (LookupView {
                instruction_contents: after.instruction_contents,
                ..lookup
            })
        },
{
    law_entries_are_found(lookup.instruction_contents, path, decode_utf8(bytes), other);
}

/// A file that the host does not send is left out; one that it sends is kept
/// under the path that was asked for. Either way it is waited for no longer.
pub proof fn law_replies_to_reads(
    lookup: LookupView,
    id: Seq<char>,
    path: Seq<char>,
    message: JsonView,
)
    requires
        value_of(lookup.reads, id) == Some(path),
    ensures
        text_of(nested(message, "result"@, "dataBase64"@)) is None ==> read_reply(
            lookup,
            id,
            message,
        ) == Ok::<LookupView, Seq<char>>(
            (LookupView { reads: without_entry(lookup.reads, id), ..lookup }),
        ),
        text_of(nested(message, "result"@, "dataBase64"@)) matches Some(encoded) ==> read_reply(
            lookup,
            id,
            message,
        ) == recorded(
            (LookupView { reads: without_entry(lookup.reads, id), ..lookup }),
            path,
            decoded_base64(encoded),
        ),
{
}

/// A reply of the host about a project goes to the thread that asked, and one
/// to a read to the thread that waits for it.
pub proof fn law_replies_find_their_thread(
    state: RelayView,
    index: int,
    id: Seq<char>,
    message: JsonView,
    now: u64,
)
    requires
        field(message, "id"@) == Some(JsonView::Text(id)),
        id != "cxs/"@ + state.environment + "/host-initialize"@,
        0 <= index < state.lookups.len(),
    ensures
        state.lookups[index].metadata_id == id && (forall|i: int|
            0 <= i < index ==> (#[trigger] state.lookups[i]).metadata_id != id) ==> host_turn(
            state,
            message,
            now,
        ) == settled(lookup_turn(state, index, message), now),
        (forall|i: int|
            0 <= i < state.lookups.len() ==> (#[trigger] state.lookups[i]).metadata_id != id) && (
        forall|i: int|
            0 <= i < index ==> value_of((#[trigger] state.lookups[i]).reads, id) is None)
            && value_of(state.lookups[index].reads, id) is Some ==> host_turn(state, message, now)
            == settled(read_turn(state, index, id, message), now),
{
    lemma_host_initialize_id(state.environment);
    lemma_lookup_found(state.lookups, id);
    lemma_read_found(state.lookups, id);
    let a = lookup_index(state.lookups, id) as int;
    let b = read_index(state.lookups, id) as int;
    if state.lookups[index].metadata_id == id && (forall|i: int|
        0 <= i < index ==> (#[trigger] state.lookups[i]).metadata_id != id) {
        if a < index {
            assert(state.lookups[a].metadata_id == id);
        }
        if index < a {
            assert(state.lookups[index].metadata_id != id);
        }
        assert(a == index);
    }
    if (forall|i: int|
        0 <= i < state.lookups.len() ==> (#[trigger] state.lookups[i]).metadata_id != id) && (
    forall|i: int| 0 <= i < index ==> value_of((#[trigger] state.lookups[i]).reads, id) is None)
        && value_of(state.lookups[index].reads, id) is Some {
        if a < state.lookups.len() {
            assert(state.lookups[a].metadata_id == id);
        }
        if b < index {
            assert(value_of(state.lookups[b].reads, id) is Some);
        }
        if index < b {
            assert(!has_key(state.lookups[index].reads, id));
        }
        assert(b == index);
    }
}

/// The thread starts with the last of its files, and not before.
pub proof fn law_threads_wait_for_their_files(
    state: RelayView,
    index: int,
    id: Seq<char>,
    message: JsonView,
    after: LookupView,
)
    requires
        0 <= index < state.lookups.len(),
        read_reply(state.lookups[index], id, message) == Ok::<LookupView, Seq<char>>(after),
    ensures
        after.reads.len() == 0 ==> read_turn(state, index, id, message) == start_turn(
            (RelayView { lookups: state.lookups.update(index, after), ..state }),
            index,
        ),
        after.reads.len() > 0 ==> read_turn(state, index, id, message) == goes_on(
            (RelayView { lookups: state.lookups.update(index, after), ..state }),
            Seq::empty(),
        ),
{
}

// ---------------------------------------------------------------------------
// What the thread is told
// ---------------------------------------------------------------------------

/// Each instruction file that is known comes in, under its path, and in order;
/// one that is not known is left out.
pub proof fn law_known_files_come_in(
    paths: Seq<Seq<char>>,
    contents: Seq<(Seq<char>, Seq<char>)>,
    path: Seq<char>,
)
    ensures
        instruction_texts(Seq::empty(), contents) == Seq::<Seq<char>>::empty(),
        value_of(contents, path) is None ==> instruction_texts(paths.push(path), contents)
            == instruction_texts(paths, contents),
        value_of(contents, path) matches Some(text) ==> instruction_texts(
            paths.push(path),
            contents,
        ) == instruction_texts(paths, contents).push(
            "Instructions from "@ + path + ":\n"@ + text,
        ),
{
    assert(paths.push(path).drop_last() =~= paths);
    assert(paths.push(path).last() == path);
}

/// Instructions are separated by blank lines.
pub proof fn law_paragraphs(parts: Seq<Seq<char>>, part: Seq<char>)
    ensures
        paragraphs(Seq::empty()) == Seq::<char>::empty(),
        paragraphs(seq![part]) == part,
        parts.len() > 0 ==> paragraphs(parts.push(part)) == paragraphs(parts) + "\n\n"@ + part,
{
    assert(parts.push(part).drop_last() =~= parts);
    assert(parts.push(part).last() == part);
    assert(paragraphs(Seq::<Seq<char>>::empty()) =~= Seq::<char>::empty());
}

/// A thread starts with the client's own instructions first and then those of
/// the project, and is otherwise what it was; without any of the project it is
/// exactly what it was.
pub proof fn law_what_a_thread_is_told(lookup: LookupView, own: Seq<char>)
    ensures
        ({
            let parts = instruction_texts(lookup.instruction_paths, lookup.instruction_contents);
            let said = text_of(nested(lookup.local_request, "params"@, "developerInstructions"@));
            &&& parts.len() == 0 ==> local_start(lookup) == Ok::<JsonView, Seq<char>>(
                lookup.local_request,
            )
            &&& parts.len() > 0 && (field(lookup.local_request, "params"@) matches Some(
                JsonView::Object(_),
            )) ==> (local_start(lookup) matches Ok(request) && {
                &&& said == Some(own) && own.len() > 0 ==> nested(
                    request,
                    "params"@,
                    "developerInstructions"@,
                ) == Some(JsonView::Text(own + "\n\n"@ + paragraphs(parts)))
                &&& said is None || said == Some(Seq::<char>::empty()) ==> nested(
                    request,
                    "params"@,
                    "developerInstructions"@,
                ) == Some(JsonView::Text(paragraphs(parts)))
                &&& forall|name: Seq<char>|
                    name != "developerInstructions"@ ==> #[trigger] nested(
                        request,
                        "params"@,
                        name,
                    ) == nested(lookup.local_request, "params"@, name)
                &&& forall|name: Seq<char>|
                    name != "params"@ ==> #[trigger] field(request, name) == field(
                        lookup.local_request,
                        name,
                    )
            })
        }),
{
}

/// A thread starts by one request to the local App Server; from then on it has
/// started. No other thread is touched.
pub proof fn law_how_a_thread_starts(state: RelayView, index: int)
    requires
        0 <= index < state.lookups.len(),
        !state.lookups[index].local_sent,
        local_start(state.lookups[index]) is Ok,
    ensures
        start_turn(state, index) == goes_on(
            (RelayView {
                lookups: state.lookups.update(
                    index,
                    (LookupView { local_sent: true, ..state.lookups[index] }),
                ),
                ..state
            }),
            seq![ActionView::ToServer(json_text(local_start(state.lookups[index])->Ok_0))],
        ),
{
}

/// A thread whose project the host cannot tell of, or which has no instruction
/// files, starts at once.
pub proof fn law_threads_start_without_instructions(
    state: RelayView,
    index: int,
    message: JsonView,
)
    requires
        0 <= index < state.lookups.len(),
        !state.lookups[index].local_sent,
        local_start(state.lookups[index]) is Ok,
    ensures
        field(message, "error"@) is Some ==> lookup_turn(state, index, message) == start_turn(
            state,
            index,
        ),
        field(message, "error"@) is None && instruction_sources(message).len() == 0 ==> {
            let turn = lookup_turn(state, index, message);
            &&& turn.outcome is Ok
            &&& turn.actions == seq![
                ActionView::ToServer(json_text(state.lookups[index].local_request)),
            ]
            &&& turn.state.lookups[index].local_sent
            &&& turn.state.lookups[index].host_response == Some(message)
        },
{
    if field(message, "error"@) is None && instruction_sources(message).len() == 0 {
        let known = LookupView {
            host_response: Some(message),
            instruction_paths: instruction_sources(message),
            ..state.lookups[index]
        };
        assert(instruction_texts(known.instruction_paths, known.instruction_contents).len() == 0);
        assert(local_start(known) == Ok::<JsonView, Seq<char>>(known.local_request));
    }
}

// ---------------------------------------------------------------------------
// The clock
// ---------------------------------------------------------------------------

/// A thread waits three seconds for its project, and no longer.
pub proof fn law_how_long_a_thread_waits(lookup: LookupView, now: u64)
    ensures
        has_expired(lookup, now) <==> !lookup.local_sent && now >= lookup.started_at + 3 * 1000,
{
}

proof fn lemma_expired(state: RelayView, index: nat, now: u64, k: int)
    requires
        index <= k < state.lookups.len(),
        expire_turn(state, index, now).outcome is Ok,
    ensures
        ({
            let turn = expire_turn(state, index, now);
            let lookup = state.lookups[k];
            &&& turn.state.lookups.len() == state.lookups.len()
            &&& forall|i: int|
                0 <= i < index ==> #[trigger] turn.state.lookups[i] == state.lookups[i]
            &&& if has_expired(lookup, now) {
                &&& local_start(lookup) is Ok
                &&& turn.state.lookups[k] == (LookupView { local_sent: true, ..lookup })
                &&& turn.actions.contains(
                    ActionView::ToServer(json_text(local_start(lookup)->Ok_0)),
                )
            } else {
                turn.state.lookups[k] == lookup
            }
        }),
    decreases state.lookups.len() - index,
{
    let turn = expire_turn(state, index, now);
    if has_expired(state.lookups[index as int], now) {
        let first = start_turn(state, index as int);
        assert(first.outcome is Ok);
        let rest = expire_turn(first.state, index + 1, now);
        assert(first.state.lookups.len() == state.lookups.len());
        if index + 1 < state.lookups.len() {
            let m = if k > index {
                k
            } else {
                index as int + 1
            };
            lemma_expired(first.state, index + 1, now, m);
        }
        assert(rest.state.lookups[index as int] == first.state.lookups[index as int]);
        let action = ActionView::ToServer(
            json_text(local_start(state.lookups[index as int])->Ok_0),
        );
        assert(first.actions == seq![action]);
        assert(turn.actions[0] == action);
        if k > index && has_expired(state.lookups[k], now) {
            let later = ActionView::ToServer(json_text(local_start(state.lookups[k])->Ok_0));
            let at = rest.actions.index_of(later);
            assert(rest.actions[at] == later);
            assert(turn.actions[at + 1] == later);
        }
    } else if index + 1 < state.lookups.len() {
        let m = if k > index {
            k
        } else {
            index as int + 1
        };
        lemma_expired(state, index + 1, now, m);
    }
}

/// When the clock ticks, each thread that has waited three seconds starts with
/// the instructions that are known by then, and each other one goes on waiting
/// as it was.
pub proof fn law_threads_that_waited_start(state: RelayView, now: u64, k: int)
    requires
        is_settled(state),
        0 <= k < state.lookups.len(),
        tick_turn(state, now).outcome is Ok,
    ensures
        ({
            let turn = tick_turn(state, now);
            let lookup = state.lookups[k];
            let waited = !lookup.local_sent && now >= lookup.started_at + 3 * 1000;
            &&& waited ==> {
                &&& local_start(lookup) is Ok
                &&& turn.state.lookups[k] == (LookupView { local_sent: true, ..lookup })
                &&& turn.actions.contains(
                    ActionView::ToServer(json_text(local_start(lookup)->Ok_0)),
                )
            }
            &&& !waited ==> turn.state.lookups[k] == lookup
        }),
{
    let first = expire_turn(state, 0, now);
    assert(first.outcome is Ok);
    lemma_expired(state, 0, now, k);
    lemma_expire_keeps(state, 0, now);
    lemma_settled(first.state, first.actions, now);
    let same = settled(goes_on(first.state, first.actions), now);
    assert(tick_turn(state, now).state == same.state && tick_turn(state, now).actions
        == same.actions);
}

proof fn lemma_expire_keeps(state: RelayView, index: nat, now: u64)
    requires
        expire_turn(state, index, now).outcome is Ok,
    ensures
        expire_turn(state, index, now).state == (RelayView {
            lookups: expire_turn(state, index, now).state.lookups,
            ..state
        }),
    decreases state.lookups.len() - index,
{
    if index < state.lookups.len() {
        if has_expired(state.lookups[index as int], now) {
            lemma_expire_keeps(start_turn(state, index as int).state, index + 1, now);
        } else {
            lemma_expire_keeps(state, index + 1, now);
        }
    }
}

} // verus!
