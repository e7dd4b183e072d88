//! Which entries of a session archive are taken, and where they lead.

use vstd::prelude::*;
use crate::archive::{
    EntryKind, IntakeView, between_slashes, is_archive_file, is_step, path_le, path_refusal,
    path_steps, place_of, places_of, steps_le, taken_in,
};
use crate::profile::text_le;
use crate::text::{lemma_run, lemma_run_bounds, lower, run};

verus! {

/// Whether a text can stand between two slashes.
pub open spec fn is_part(part: Seq<char>) -> bool {
    forall|i: int| 0 <= i < part.len() ==> #[trigger] part[i] != '/'
}

/// A path is split at its slashes, and nowhere else.
pub proof fn law_paths_are_split_at_slashes(a: Seq<char>, b: Seq<char>)
    ensures
        between_slashes(a + "/"@ + b) == between_slashes(a) + between_slashes(b),
        is_part(a) ==> between_slashes(a) == seq![a],
    decreases a.len(),
{
    reveal_strlit("/");
    let stop = |c: char| c == '/';
    let all = a + "/"@ + b;
    lemma_run_bounds(a, stop);
    let n = run(a, stop);
    assert forall|i: int| 0 <= i < n implies !stop(#[trigger] all[i]) by {
        assert(all[i] == a[i]);
    }
    if n >= a.len() {
        assert(all[n as int] == '/');
        lemma_run(all, stop, n);
        assert(all.take(n as int) =~= a);
        assert(all.skip(n as int + 1) =~= b);
    } else {
        assert(all[n as int] == a[n as int]);
        lemma_run(all, stop, n);
        let rest = a.skip(n as int + 1);
        assert(all.take(n as int) =~= a.take(n as int));
        assert(all.skip(n as int + 1) =~= rest + "/"@ + b);
        law_paths_are_split_at_slashes(rest, b);
        let first = seq![a.take(n as int)];
        assert(first + (between_slashes(rest) + between_slashes(b)) =~= first + between_slashes(
            rest,
        ) + between_slashes(b));
    }
}

proof fn lemma_steps_join(a: Seq<char>, b: Seq<char>)
    ensures
        path_steps(a + "/"@ + b) == path_steps(a) + path_steps(b),
{
    law_paths_are_split_at_slashes(a, b);
    Seq::filter_distributes_over_add(
        between_slashes(a),
        between_slashes(b),
        |part: Seq<char>| is_step(part),
    );
}

proof fn lemma_one_step(part: Seq<char>)
    requires
        is_part(part),
        part.len() > 0,
        part != "."@,
    ensures
        between_slashes(part) == seq![part],
        path_steps(part) == seq![part],
{
    law_paths_are_split_at_slashes(part, part);
    reveal(Seq::filter);
    let one = seq![part];
    let keep = |part: Seq<char>| is_step(part);
    assert(one.drop_last() =~= Seq::empty());
    assert(one.drop_last().filter(keep) =~= Seq::empty());
    assert(one.filter(keep) =~= one);
}

proof fn lemma_top_names()
    ensures
        is_part("sessions"@),
        is_part("archived_sessions"@),
        "sessions"@.len() == 8,
        "archived_sessions"@.len() == 17,
        "sessions"@[0] == 's',
        "archived_sessions"@[0] == 'a',
        ".."@.len() == 2,
        "."@.len() == 1,
        ".."@[0] == '.',
        ".."@[1] == '.',
        "."@[0] == '.',
        is_part(".."@),
{
    reveal_strlit("sessions");
    reveal_strlit("archived_sessions");
    reveal_strlit("..");
    reveal_strlit(".");
}

/// The two directories as parts of a path.
proof fn lemma_top(top: Seq<char>)
    requires
        top == "sessions"@ || top == "archived_sessions"@,
    ensures
        is_part(top),
        top.len() > 0,
        top != "."@,
        top != ".."@,
        top[0] != '/',
{
    lemma_top_names();
}

/// A path that goes into one of the two directories, and then down by a part
/// that is a step.
proof fn lemma_short(top: Seq<char>, part: Seq<char>)
    requires
        is_part(top),
        top.len() > 0,
        top != "."@,
        is_part(part),
        part.len() > 0,
        part != "."@,
    ensures
        between_slashes(top + "/"@ + part) == seq![top, part],
        path_steps(top + "/"@ + part) == seq![top, part],
{
    lemma_one_step(top);
    lemma_one_step(part);
    lemma_steps_join(top, part);
    law_paths_are_split_at_slashes(top, part);
    assert(seq![top] + seq![part] =~= seq![top, part]);
}

/// A session is taken from either of the two directories, at any depth: from
/// directly below them, and a directory deeper wherever it is taken at all.
pub proof fn law_sessions_are_taken(top: Seq<char>, part: Seq<char>, rest: Seq<char>)
    requires
        top == "sessions"@ || top == "archived_sessions"@,
        is_part(part),
        part.len() > 0,
        part != "."@,
        part != ".."@,
    ensures
        is_archive_file(part) ==> path_refusal(top + "/"@ + part) is None,
        path_refusal(top + "/"@ + rest) is None ==> path_refusal(
            top + "/"@ + part + "/"@ + rest,
        ) is None,
{
    lemma_top(top);
    lemma_short(top, part);
    assert((top + "/"@ + part)[0] == top[0]);
    let parts = between_slashes(top + "/"@ + part);
    if parts.contains(".."@) {
        let i = parts.index_of(".."@);
        assert(parts[i] == ".."@);
    }
    assert(path_steps(top + "/"@ + part).last() == part);
    if path_refusal(top + "/"@ + rest) is None {
        lemma_deeper(top, part, rest);
    }
}

proof fn lemma_deeper(top: Seq<char>, part: Seq<char>, rest: Seq<char>)
    requires
        top == "sessions"@ || top == "archived_sessions"@,
        is_part(part),
        part.len() > 0,
        part != "."@,
        part != ".."@,
        path_refusal(top + "/"@ + rest) is None,
    ensures
        path_refusal(top + "/"@ + part + "/"@ + rest) is None,
{
    lemma_top(top);
    lemma_short(top, part);
    lemma_one_step(top);
    let known = top + "/"@ + rest;
    let short = top + "/"@ + part;
    let deep = short + "/"@ + rest;
    law_paths_are_split_at_slashes(top, rest);
    lemma_steps_join(top, rest);
    law_paths_are_split_at_slashes(short, rest);
    lemma_steps_join(short, rest);
    assert(deep[0] == top[0]);
    let parts = between_slashes(deep);
    let before = between_slashes(known);
    let tail = between_slashes(rest);
    if parts.contains(".."@) {
        let i = parts.index_of(".."@);
        assert(parts[i] == ".."@);
        assert(i >= 2);
        assert(before[i - 1] == tail[i - 2]);
        assert(before.contains(".."@));
    }
    assert(parts[0] == top);
    let steps = path_steps(rest);
    if steps.len() == 0 {
        assert(path_steps(known) =~= seq![top]);
        lemma_top_is_no_file(top);
    }
    assert(path_steps(deep)[0] == top);
    assert(path_steps(deep).last() == steps.last());
    assert(path_steps(known).last() == steps.last());
}

proof fn lemma_top_is_no_file(top: Seq<char>)
    requires
        top == "sessions"@ || top == "archived_sessions"@,
    ensures
        !is_archive_file(top),
{
    lemma_top_names();
    reveal_strlit("rollout-");
    assert("rollout-"@[0] == 'r');
    if "rollout-"@.is_prefix_of(top) {
        assert("rollout-"@ =~= top.subrange(0, "rollout-"@.len() as int));
        assert(top[0] == "rollout-"@[0]);
    }
}

/// No path is taken that begins at the root, goes up, begins outside the two
/// directories, or ends in a file of another name.
pub proof fn law_other_paths_are_refused(a: Seq<char>, b: Seq<char>, part: Seq<char>)
    requires
        is_part(part),
        part.len() > 0,
        part != "."@,
    ensures
        path_refusal("/"@ + a) is Some,
        path_refusal(".."@) is Some,
        path_refusal("../"@ + b) is Some,
        path_refusal(a + "/.."@) is Some,
        path_refusal(a + "/../"@ + b) is Some,
        part != "sessions"@ && part != "archived_sessions"@ ==> path_refusal(part + "/"@ + b)
            is Some,
        !is_archive_file(part) ==> path_refusal(a + "/"@ + part) is Some,
        path_refusal(Seq::empty()) is Some,
{
    lemma_root(a);
    lemma_up_first(b);
    lemma_up_last(a);
    lemma_up(a, b);
    lemma_other_ends(a, b, part);
    lemma_empty();
}

proof fn lemma_root(a: Seq<char>)
    ensures
        path_refusal("/"@ + a) is Some,
{
    reveal_strlit("/");
    assert(("/"@ + a)[0] == '/');
}

proof fn lemma_up_first(b: Seq<char>)
    ensures
        path_refusal(".."@) is Some,
        path_refusal("../"@ + b) is Some,
{
    reveal_strlit("/");
    reveal_strlit("..");
    reveal_strlit(".");
    reveal_strlit("../");
    let up = ".."@;
    lemma_one_step(up);
    assert(between_slashes(up)[0] == up);
    law_paths_are_split_at_slashes(up, b);
    assert("../"@ =~= up + "/"@);
    assert(between_slashes("../"@ + b)[0] == up);
}

proof fn lemma_up_last(a: Seq<char>)
    ensures
        path_refusal(a + "/.."@) is Some,
{
    reveal_strlit("/");
    reveal_strlit("..");
    reveal_strlit(".");
    reveal_strlit("/..");
    let up = ".."@;
    lemma_one_step(up);
    law_paths_are_split_at_slashes(a, up);
    assert(a + "/.."@ =~= a + "/"@ + up);
    let parts = between_slashes(a + "/.."@);
    assert(parts[parts.len() - 1] == up);
}

proof fn lemma_other_ends(a: Seq<char>, b: Seq<char>, part: Seq<char>)
    requires
        is_part(part),
        part.len() > 0,
        part != "."@,
    ensures
        part != "sessions"@ && part != "archived_sessions"@ ==> path_refusal(part + "/"@ + b)
            is Some,
        !is_archive_file(part) ==> path_refusal(a + "/"@ + part) is Some,
{
    lemma_one_step(part);
    lemma_steps_join(part, b);
    assert(path_steps(part + "/"@ + b)[0] == part);
    lemma_steps_join(a, part);
    assert(path_steps(a + "/"@ + part).last() == part);
}

proof fn lemma_empty()
    ensures
        path_refusal(Seq::empty()) is Some,
{
    let none = Seq::<char>::empty();
    law_paths_are_split_at_slashes(none, none);
    reveal(Seq::filter);
    let one = seq![none];
    let keep = |part: Seq<char>| is_step(part);
    assert(one.drop_last() =~= Seq::empty());
    assert(one.drop_last().filter(keep) =~= Seq::empty());
    assert(path_steps(none) =~= Seq::empty());
}

proof fn lemma_up(a: Seq<char>, b: Seq<char>)
    ensures
        path_refusal(a + "/../"@ + b) is Some,
{
    lemma_top_names();
    reveal_strlit("/");
    reveal_strlit("/../");
    let up = ".."@;
    reveal_strlit("..");
    lemma_one_step(up);
    law_paths_are_split_at_slashes(a, up);
    law_paths_are_split_at_slashes(a + "/"@ + up, b);
    let all = a + "/../"@ + b;
    assert(all =~= a + "/"@ + up + "/"@ + b);
    let n = between_slashes(a).len() as int;
    assert(between_slashes(all)[n] == up);
    assert(between_slashes(all).contains(up));
}

/// The file of a session is named `rollout-…`, and ends in `.jsonl`, in
/// letters of either size.
pub proof fn law_session_files(middle: Seq<char>, end: Seq<char>)
    requires
        lower(end) == ".jsonl"@,
    ensures
        is_archive_file("rollout-"@ + middle + end),
{
    let name = "rollout-"@ + middle + end;
    assert(name.subrange(0, "rollout-"@.len() as int) =~= "rollout-"@);
    let small = lower(name);
    let n = small.len() - end.len();
    assert(small.subrange(n, small.len() as int) =~= lower(end));
}

/// What is refused for its size, or for coming twice, and what is counted: a
/// session holds at most 512 MiB and an archive at most 4 GiB; directories
/// count for nothing, and anything that is neither a file nor a directory is
/// refused.
pub proof fn law_what_is_taken_in(intake: IntakeView, path: Seq<char>, size: u64)
    ensures
        taken_in(intake, EntryKind::Directory, path, size) == Ok::<IntakeView, Seq<char>>(intake),
        taken_in(intake, EntryKind::Other, path, size) is Err,
        taken_in(intake, EntryKind::File, path, size) is Ok <==> {
            &&& path_refusal(path) is None
            &&& size <= 512 * 1024 * 1024
            &&& intake.total_bytes + size <= 4 * 1024 * 1024 * 1024
            &&& forall|i: int|
                0 <= i < intake.files.len() ==> place_of(path_steps(#[trigger] intake.files[i]))
                    != place_of(path_steps(path))
        },
        taken_in(intake, EntryKind::File, path, size) matches Ok(after) ==> {
            &&& after.total_bytes == intake.total_bytes + size
            &&& after.files == intake.files.push(path)
            &&& taken_in(after, EntryKind::File, path, size) is Err
        },
{
    let place = place_of(path_steps(path));
    let places = places_of(intake.files);
    if places.contains(place) {
        let i = places.index_of(place);
        assert(place_of(path_steps(intake.files[i])) == place);
    }
    assert forall|i: int|
        0 <= i < intake.files.len() && !places.contains(place) implies place_of(
        path_steps(#[trigger] intake.files[i]),
    ) != place by {
        assert(places[i] == place_of(path_steps(intake.files[i])));
    }
    if let Ok(after) = taken_in(intake, EntryKind::File, path, size) {
        let n = intake.files.len() as int;
        assert(places_of(after.files)[n] == place);
        assert(places_of(after.files).contains(place));
    }
}

/// Where a path leads is told step by step.
pub proof fn law_where_a_path_leads(a: Seq<char>, part: Seq<char>)
    requires
        is_part(part),
        part.len() > 0,
        part != "."@,
    ensures
        place_of(path_steps(a + "/"@ + part)) == place_of(path_steps(a)) + "/"@ + part,
        place_of(path_steps(part)) == "/"@ + part,
        path_steps(a + "/"@ + Seq::empty()) == path_steps(a),
        path_steps(a + "/"@ + "."@) == path_steps(a),
{
    lemma_one_step(part);
    lemma_steps_join(a, part);
    let steps = path_steps(a + "/"@ + part);
    assert(steps.drop_last() =~= path_steps(a));
    assert(steps.last() == part);
    let one = path_steps(part);
    assert(one.drop_last() =~= Seq::empty());
    assert(place_of(one.drop_last()) =~= Seq::empty());
    assert(place_of(one) =~= "/"@ + part);
    lemma_steps_join(a, Seq::empty());
    lemma_steps_join(a, "."@);
    reveal_strlit(".");
    law_paths_are_split_at_slashes(Seq::empty(), Seq::empty());
    law_paths_are_split_at_slashes("."@, Seq::empty());
    reveal(Seq::filter);
    let keep = |part: Seq<char>| is_step(part);
    let empty = seq![Seq::<char>::empty()];
    let dot = seq!["."@];
    assert(empty.drop_last() =~= Seq::empty());
    assert(dot.drop_last() =~= Seq::empty());
    assert(empty.drop_last().filter(keep) =~= Seq::empty());
    assert(empty.filter(keep) =~= Seq::empty());
    assert(dot.filter(keep) =~= Seq::empty());
    assert(path_steps(a) + Seq::<Seq<char>>::empty() =~= path_steps(a));
}

/// Texts are ordered by the first character in which they differ, and a prefix
/// comes first.
pub proof fn law_text_order(a: Seq<char>, b: Seq<char>, common: Seq<char>)
    ensures
        text_le(common, common + b),
        a.len() > 0 ==> !text_le(common + a, common),
        a.len() > 0 && b.len() > 0 && a[0] != b[0] ==> (text_le(common + a, common + b)
            <==> a[0] < b[0]),
    decreases common.len(),
{
    if common.len() == 0 {
        assert(common + a =~= a);
        assert(common + b =~= b);
    } else {
        law_text_order(a, b, common.skip(1));
        assert((common + a).skip(1) =~= common.skip(1) + a);
        assert((common + b).skip(1) =~= common.skip(1) + b);
        assert((common + a)[0] == common[0] && (common + b)[0] == common[0]);
    }
}

/// Paths are ordered by the first step in which they differ, and a directory
/// comes before what is in it.
pub proof fn law_path_order(a: Seq<Seq<char>>, b: Seq<Seq<char>>, common: Seq<Seq<char>>)
    ensures
        steps_le(common, common + b),
        a.len() > 0 ==> !steps_le(common + a, common),
        a.len() > 0 && b.len() > 0 && a[0] != b[0] ==> (steps_le(common + a, common + b)
            <==> text_le(a[0], b[0])),
    decreases common.len(),
{
    if common.len() == 0 {
        assert(common + a =~= a);
        assert(common + b =~= b);
    } else {
        law_path_order(a, b, common.skip(1));
        assert((common + a).skip(1) =~= common.skip(1) + a);
        assert((common + b).skip(1) =~= common.skip(1) + b);
        assert((common + a)[0] == common[0] && (common + b)[0] == common[0]);
    }
}

/// The order of paths is that of their steps.
pub proof fn law_paths_are_ordered_by_steps(a: Seq<char>, b: Seq<char>)
    ensures
        path_le(a, b) <==> steps_le(path_steps(a), path_steps(b)),
{
}

} // verus!
