//! What moving and aligning sessions does to each of them.

use vstd::prelude::*;
use vstd::utf8::*;
use crate::handshake::lemma_before_newline;
use crate::json::{JsonView, field, nested, text_of};
use crate::sessions::{
    ImportView, MetaView, RolloutRecord, RowView, ThreadRow, after_import, aligned_database,
    backup_plan, considered, database_path, distinct_ids, first_line, import_decision, is_encrypted,
    is_provider, is_safe_host, lemma_aligned_database, needs_repair, provider_of, repairs,
    reversed_plan, rewrites, row_of, row_view, session_meta, with_first_line, with_provider,
};

verus! {

/// Where a session gets another provider, that is all that changes in its
/// first record: every other field stays, and so does every other field of its
/// payload.
pub proof fn law_only_the_provider_changes(
    record: JsonView,
    provider: Option<Seq<char>>,
    name: Seq<char>,
)
    ensures
        ({
            let after = with_provider(record, provider);
            &&& name != "payload"@ ==> field(after, name) == field(record, name)
            &&& name != "model_provider"@ ==> nested(after, "payload"@, name) == nested(
                record,
                "payload"@,
                name,
            )
            &&& provider is None ==> after == record
            &&& !(field(record, "payload"@) matches Some(JsonView::Object(_))) ==> after == record
            &&& (provider matches Some(wanted) && field(record, "payload"@) matches Some(
                JsonView::Object(_),
            )) ==> nested(after, "payload"@, "model_provider"@) == Some(
                JsonView::Text(provider->Some_0),
            )
        }),
{
}

/// A first record is one of a session exactly when it says so and names the
/// session's id; directory and provider are those that its payload names.
pub proof fn law_what_a_session_is(record: JsonView, encrypted: bool)
    ensures
        session_meta(record, encrypted) is Ok <==> {
            &&& text_of(field(record, "type"@)) == Some("session_meta"@)
            &&& field(record, "payload"@) matches Some(JsonView::Object(_))
            &&& text_of(nested(record, "payload"@, "id"@)) matches Some(id) && id.len() > 0
        },
        session_meta(record, encrypted) matches Ok(meta) ==> {
            &&& text_of(nested(record, "payload"@, "id"@)) == Some(meta.id)
            &&& meta.cwd == text_of(nested(record, "payload"@, "cwd"@))
            &&& meta.provider == text_of(nested(record, "payload"@, "model_provider"@))
            &&& meta.encrypted == encrypted
        },
{
}

/// A file is its first line, a newline and the rest. Another first line takes
/// the place of the first, and every byte after it stays.
pub proof fn law_files_have_a_first_line(head: Seq<u8>, rest: Seq<u8>, line: Seq<u8>)
    requires
        forall|i: int| 0 <= i < head.len() ==> #[trigger] head[i] != 10,
    ensures
        with_first_line(head + seq![10u8] + rest, line) == line + seq![10u8] + rest,
        with_first_line(head, line) == line,
        head.len() > 0 && head.last() != 13 ==> first_line(head + seq![10u8] + rest) == head
            && first_line(head) == head,
        first_line(head + seq![13u8, 10u8] + rest) == head,
{
    let file = head + seq![10u8] + rest;
    lemma_before_newline(file, head.len());
    lemma_before_newline(head, head.len());
    assert(file.take(head.len() as int) =~= head);
    assert(head.take(head.len() as int) =~= head);
    assert(line + file.skip(head.len() as int) =~= line + seq![10u8] + rest);
    let other = head + seq![13u8, 10u8] + rest;
    lemma_before_newline(other, head.len() + 1);
    assert(other.take(head.len() as int + 1) =~= head.push(13));
    assert(head.push(13).drop_last() =~= head);
}

/// A session has encrypted parts exactly when the words that mark them stand
/// somewhere in its file.
pub proof fn law_encrypted_sessions(bytes: Seq<u8>, before: Seq<u8>, after: Seq<u8>)
    ensures
        is_encrypted(before + encode_utf8("encrypted_content"@) + after),
        is_encrypted(bytes) ==> exists|a: Seq<u8>, b: Seq<u8>|
            bytes == #[trigger] (a + encode_utf8("encrypted_content"@) + b),
{
    let part = encode_utf8("encrypted_content"@);
    let all = before + part + after;
    let n = before.len() as int;
    assert(all.subrange(n, n + part.len()) =~= part);
    if is_encrypted(bytes) {
        let i = choose|i: int|
            0 <= i && i + part.len() <= bytes.len() && #[trigger] bytes.subrange(i, i + part.len())
                == part;
        let a = bytes.take(i);
        let b = bytes.skip(i + part.len());
        assert(bytes =~= a + part + b) by {
            assert forall|k: int| 0 <= k < bytes.len() implies bytes[k] == (a + part + b)[k] by {
                if i <= k < i + part.len() {
                    assert(bytes.subrange(i, i + part.len())[k - i] == bytes[k]);
                }
            }
        }
    }
}

/// The name of a provider is made of letters, digits, dots, underscores and
/// hyphens.
pub proof fn law_provider_names(provider: Seq<char>)
    ensures
        is_provider(provider) <==> provider.len() > 0 && forall|i: int|
            0 <= i < provider.len() ==> {
                let c = #[trigger] provider[i];
                'a' <= c <= 'z' || 'A' <= c <= 'Z' || '0' <= c <= '9' || c == '.' || c == '_' || c
                    == '-'
            },
{
    if is_provider(provider) {
        assert forall|i: int| 0 <= i < provider.len() implies {
            let c = #[trigger] provider[i];
            'a' <= c <= 'z' || 'A' <= c <= 'Z' || '0' <= c <= '9' || c == '.' || c == '_' || c
                == '-'
        } by {}
    }
}

/// Who asks for a provider gets it, whatever the configuration says; else the
/// configuration decides; and where it names none, it is OpenAI.
pub proof fn law_which_provider(
    asked: Seq<char>,
    configured: Seq<char>,
    path: Seq<char>,
    any: Option<Option<Option<Seq<char>>>>,
)
    ensures
        is_provider(asked) ==> provider_of(Some(asked), any, path) == Ok::<Seq<char>, Seq<char>>(
            asked,
        ),
        !is_provider(asked) ==> provider_of(Some(asked), any, path) is Err,
        is_provider(configured) ==> provider_of(None, Some(Some(Some(configured))), path) == Ok::<
            Seq<char>,
            Seq<char>,
        >(configured),
        !is_provider(configured) ==> provider_of(None, Some(Some(Some(configured))), path) is Err,
        provider_of(None, Some(Some(None)), path) == Ok::<Seq<char>, Seq<char>>("openai"@),
        provider_of(None, None, path) == Ok::<Seq<char>, Seq<char>>("openai"@),
        provider_of(None, Some(None), path) is Err,
{
    reveal_strlit("openai");
    assert("openai"@.len() == 6);
    assert forall|i: int| 0 <= i < 6 implies 'a' <= #[trigger] "openai"@[i] <= 'z' by {}
    assert(is_provider("openai"@));
}

/// The sessions' database is `state_5.sqlite`: where the configuration says,
/// else where the environment says, else in the directory of Codex.
pub proof fn law_where_the_database_is(
    home: Seq<char>,
    other: Option<Seq<char>>,
    codex_home: Seq<char>,
)
    requires
        home.len() > 0,
        home.last() != '/',
    ensures
        database_path(codex_home, Some(home), other) == home + "/state_5.sqlite"@,
        database_path(codex_home, None, Some(home)) == home + "/state_5.sqlite"@,
        database_path(home, None, None) == home + "/state_5.sqlite"@,
{
    reveal_strlit("/state_5.sqlite");
    reveal_strlit("state_5.sqlite");
    reveal_strlit("/");
    assert(home + "/"@ + "state_5.sqlite"@ =~= home + "/state_5.sqlite"@);
}

/// A host on the command line of `ssh` cannot be taken for an option, nor for
/// more than one word.
pub proof fn law_hosts_are_single_words(host: Seq<char>)
    ensures
        is_safe_host(host) <==> host.len() > 0 && host[0] != '-' && forall|i: int|
            0 <= i < host.len() ==> {
                let c = #[trigger] host[i];
                c != ' ' && c != '\t' && c != '\n' && c != '\r' && c != '\u{c}' && c != '\0'
            },
{
    if is_safe_host(host) {
        assert forall|i: int| 0 <= i < host.len() implies {
            let c = #[trigger] host[i];
            c != ' ' && c != '\t' && c != '\n' && c != '\r' && c != '\u{c}' && c != '\0'
        } by {}
    }
}

/// A session comes in exactly when it is not known and its place is free; each
/// session is counted once, under what became of it; and from then on it is
/// known.
pub proof fn law_what_becomes_of_an_import(
    state: ImportView,
    meta: MetaView,
    occupied: bool,
    id: Seq<char>,
)
    ensures
        ({
            let after = after_import(state, meta, occupied);
            let decision = import_decision(state, meta.id, occupied);
            &&& decision is Install <==> !state.known_ids.contains(meta.id) && !occupied
            &&& decision is Duplicate <==> state.known_ids.contains(meta.id)
            &&& decision is Install ==> after.imported == state.imported + 1
            &&& !(decision is Install) ==> after.imported == state.imported
            &&& decision is Duplicate ==> after.duplicates == state.duplicates + 1
            &&& !(decision is Duplicate) ==> after.duplicates == state.duplicates
            &&& decision is Conflict ==> after.conflicts == state.conflicts + 1
            &&& !(decision is Conflict) ==> after.conflicts == state.conflicts
            &&& meta.encrypted ==> after.encrypted == state.encrypted + 1
            &&& !meta.encrypted ==> after.encrypted == state.encrypted
            &&& after.known_ids.contains(id) <==> state.known_ids.contains(id) || id == meta.id
            &&& after.remote_files == state.remote_files
            &&& after.provider == state.provider
            &&& considered(state) == state.imported + state.duplicates + state.conflicts
        }),
{
}

/// A session has to be aligned exactly when its file names another provider
/// (or none), or the database does, or both know a directory and the two
/// differ.
pub proof fn law_what_has_to_be_aligned(
    meta: MetaView,
    row: Option<RowView>,
    provider: Seq<char>,
    directory: Seq<char>,
    known: Seq<char>,
)
    ensures
        (row matches Some(found) && found.cwd == Some(known) && meta.cwd == Some(directory)
            && directory != known) ==> needs_repair(meta, row, provider),
        meta.provider != Some(provider) ==> needs_repair(meta, row, provider),
        (row matches Some(found) && found.provider != provider) ==> needs_repair(
            meta,
            row,
            provider,
        ),
        needs_repair(meta, row, provider) ==> {
            ||| meta.provider != Some(provider)
            ||| (row matches Some(found) && {
                ||| found.provider != provider
                ||| meta.cwd is Some && found.cwd is Some && meta.cwd != found.cwd
            })
        },
{
}

/// The sessions to be aligned are among those given, in their order.
proof fn lemma_repairs(
    records: Seq<RolloutRecord>,
    rows: Seq<Option<ThreadRow>>,
    provider: Seq<char>,
    n: nat,
    m: nat,
)
    requires
        n <= m <= records.len(),
    ensures
        repairs(records, rows, provider, n).is_prefix_of(repairs(records, rows, provider, m)),
    decreases m,
{
    let all = repairs(records, rows, provider, m);
    let part = repairs(records, rows, provider, n);
    if n < m {
        lemma_repairs(records, rows, provider, n, (m - 1) as nat);
        let before = repairs(records, rows, provider, (m - 1) as nat);
        assert(part =~= before.take(part.len() as int));
        assert(part =~= all.take(part.len() as int));
    } else {
        assert(part =~= all.take(part.len() as int));
    }
}

proof fn lemma_repairs_are_records(
    records: Seq<RolloutRecord>,
    rows: Seq<Option<ThreadRow>>,
    provider: Seq<char>,
    n: nat,
)
    requires
        n <= records.len(),
    ensures
        forall|k: int|
            0 <= k < repairs(records, rows, provider, n).len() ==> exists|i: int|
                0 <= i < n && #[trigger] records[i] == #[trigger] repairs(
                    records,
                    rows,
                    provider,
                    n,
                )[k] && needs_repair(records[i].meta@, row_view(rows[i]), provider),
    decreases n,
{
    if n > 0 {
        lemma_repairs_are_records(records, rows, provider, (n - 1) as nat);
        let before = repairs(records, rows, provider, (n - 1) as nat);
        let all = repairs(records, rows, provider, n);
        assert forall|k: int| 0 <= k < all.len() implies exists|i: int|
            0 <= i < n && #[trigger] records[i] == #[trigger] all[k] && needs_repair(
                records[i].meta@,
                row_view(rows[i]),
                provider,
            ) by {
            if k < before.len() {
                assert(all[k] == before[k]);
            } else {
                assert(records[n - 1] == all[k]);
            }
        }
    }
}

/// Every session that differs is among those to be aligned: where its file
/// names another provider, where its row does, and where both know a directory
/// and the two differ. Of two such sessions the one that came first comes
/// first, and no session is there that does not differ.
pub proof fn law_no_session_is_passed_over(
    records: Seq<RolloutRecord>,
    rows: Seq<Option<ThreadRow>>,
    provider: Seq<char>,
    first: int,
    second: int,
)
    requires
        records.len() == rows.len(),
        0 <= first < second < records.len(),
    ensures
        ({
            let chosen = repairs(records, rows, provider, records.len());
            let differs = |i: int|
                {
                    let meta = records[i].meta@;
                    ||| meta.provider != Some(provider)
                    ||| (row_view(rows[i]) matches Some(row) && {
                        ||| row.provider != provider
                        ||| meta.cwd is Some && row.cwd is Some && meta.cwd != row.cwd
                    })
                };
            &&& differs(first) ==> chosen.contains(records[first])
            &&& differs(second) ==> chosen.contains(records[second])
            &&& differs(first) && differs(second) ==> exists|a: int, b: int|
                0 <= a < b < chosen.len() && #[trigger] chosen[a] == records[first]
                    && #[trigger] chosen[b] == records[second]
            &&& forall|k: int|
                0 <= k < chosen.len() ==> exists|i: int|
                    0 <= i < records.len() && #[trigger] records[i] == #[trigger] chosen[k]
                        && differs(i)
        }),
{
    let n = records.len();
    let chosen = repairs(records, rows, provider, n);
    lemma_repairs_are_records(records, rows, provider, n);
    let differs = |i: int|
        {
            let meta = records[i].meta@;
            ||| meta.provider != Some(provider)
            ||| (row_view(rows[i]) matches Some(row) && {
                ||| row.provider != provider
                ||| meta.cwd is Some && row.cwd is Some && meta.cwd != row.cwd
            })
        };
    assert forall|i: int| 0 <= i < n implies needs_repair(
        (#[trigger] records[i]).meta@,
        row_view(rows[i]),
        provider,
    ) == differs(i) by {
        law_what_has_to_be_aligned(
            records[i].meta@,
            row_view(rows[i]),
            provider,
            records[i].meta@.cwd->Some_0,
            row_view(rows[i])->Some_0.cwd->Some_0,
        );
    }
    assert forall|k: int| 0 <= k < chosen.len() implies exists|i: int|
        0 <= i < n && #[trigger] records[i] == #[trigger] chosen[k] && differs(i) by {
        let i = choose|i: int|
            0 <= i < n && #[trigger] records[i] == chosen[k] && needs_repair(
                records[i].meta@,
                row_view(rows[i]),
                provider,
            );
        assert(differs(i));
    }
    let a = repairs(records, rows, provider, first as nat).len() as int;
    let b = repairs(records, rows, provider, second as nat).len() as int;
    lemma_repairs(records, rows, provider, (first + 1) as nat, n);
    lemma_repairs(records, rows, provider, (second + 1) as nat, n);
    lemma_repairs(records, rows, provider, (first + 1) as nat, second as nat);
    let upto_first = repairs(records, rows, provider, (first + 1) as nat);
    let upto_second = repairs(records, rows, provider, (second + 1) as nat);
    if differs(first) {
        assert(upto_first[a] == records[first]);
        assert(chosen[a] == upto_first[a]);
    }
    if differs(second) {
        assert(upto_second[b] == records[second]);
        assert(chosen[b] == upto_second[b]);
    }
}

/// As many files are written as there are sessions whose file names another
/// provider, or none.
pub proof fn law_files_written(changes: Seq<RolloutRecord>, provider: Seq<char>)
    ensures
        rewrites(changes, provider) == changes.filter(
            |change: RolloutRecord| change.meta@.provider != Some(provider),
        ).len(),
    decreases changes.len(),
{
    reveal(Seq::filter);
    if changes.len() > 0 {
        law_files_written(changes.drop_last(), provider);
    }
}

proof fn lemma_other_rows(
    database: Map<Seq<char>, RowView>,
    metas: Seq<MetaView>,
    provider: Seq<char>,
    has_cwd: bool,
    n: nat,
    id: Seq<char>,
)
    requires
        n <= metas.len(),
        forall|i: int| 0 <= i < metas.len() ==> (#[trigger] metas[i]).id != id,
    ensures
        row_of(aligned_database(database, metas, provider, has_cwd, n), id) == row_of(database, id),
    decreases n,
{
    if n > 0 {
        lemma_other_rows(database, metas, provider, has_cwd, (n - 1) as nat, id);
        assert(metas[n - 1].id != id);
    }
}

/// After an alignment every row of a session has the provider. In a table with
/// directories, a row that has one has exactly that of its session, where the
/// session names one, and keeps its own where it does not; in a table without
/// them none changes. No row comes or goes, and no row of another session
/// changes.
pub proof fn law_what_an_alignment_leaves(
    database: Map<Seq<char>, RowView>,
    metas: Seq<MetaView>,
    provider: Seq<char>,
    has_cwd: bool,
    k: int,
    id: Seq<char>,
)
    requires
        distinct_ids(metas),
        0 <= k < metas.len(),
    ensures
        ({
            let after = aligned_database(database, metas, provider, has_cwd, metas.len());
            let meta = metas[k];
            &&& database.contains_key(meta.id) <==> after.contains_key(meta.id)
            &&& database.contains_key(meta.id) ==> {
                let row = after[meta.id];
                &&& row.provider == provider
                &&& has_cwd && database[meta.id].cwd is Some && meta.cwd is Some ==> row.cwd
                    == meta.cwd
                &&& !has_cwd || meta.cwd is None ==> row.cwd == database[meta.id].cwd
            }
            &&& (forall|i: int| 0 <= i < metas.len() ==> (#[trigger] metas[i]).id != id) ==> row_of(
                after,
                id,
            ) == row_of(database, id)
        }),
{
    lemma_aligned_database(database, metas, provider, has_cwd, metas.len(), k);
    if forall|i: int| 0 <= i < metas.len() ==> (#[trigger] metas[i]).id != id {
        lemma_other_rows(database, metas, provider, has_cwd, metas.len(), id);
    }
}

/// Before a file is written it is saved under its own path below the
/// directory of the backup; undoing takes it from there back to where it was.
pub proof fn law_where_files_are_saved(
    codex_home: Seq<char>,
    backup_dir: Seq<char>,
    changes: Seq<RolloutRecord>,
    i: int,
)
    requires
        0 <= i < changes.len(),
        codex_home.len() > 0,
        codex_home.last() != '/',
        backup_dir.len() > 0,
        backup_dir.last() != '/',
        changes[i].relative_path@.len() > 0,
        changes[i].relative_path@[0] != '/',
    ensures
        ({
            let plan = backup_plan(codex_home, backup_dir, changes);
            let undo = reversed_plan(plan);
            let path = changes[i].relative_path@;
            &&& plan.len() == changes.len()
            &&& undo.len() == changes.len()
            &&& plan[i].from == codex_home + "/"@ + path
            &&& plan[i].to == backup_dir + "/rollouts/"@ + path
            &&& undo[i].from == backup_dir + "/rollouts/"@ + path
            &&& undo[i].to == codex_home + "/"@ + path
        }),
{
    reveal_strlit("rollouts");
    reveal_strlit("/");
    reveal_strlit("/rollouts/");
    assert("rollouts"@[0] == 'r');
    let path = changes[i].relative_path@;
    let below = backup_dir + "/"@ + "rollouts"@;
    assert(below.last() == 's');
    assert(below + "/"@ + path =~= backup_dir + "/rollouts/"@ + path);
}

} // verus!
