//! The archive of sessions that a host sends: which files it may hold, and how
//! much of them.

use vstd::prelude::*;
use vstd::string::*;
use crate::failure::{Failure, refuse, refuse_about, refuse_naming, refused};
use crate::install::is_absolute;
use crate::profile::{joined, lemma_text_le_total, lemma_text_le_transitive, not_after, text_le};
use crate::shell::{quoted, shell_quote};
use crate::ssh::has_text;
use crate::text::{
    chars_of, ends_with, lemma_run, lemma_texts_push, lower, lowered, run, same_text, starts_with,
    string_of, texts,
};

verus! {

pub const MAX_ROLLOUT_BYTES: u64 = 536_870_912;

pub const MAX_TOTAL_BYTES: u64 = 4_294_967_296;

// ---------------------------------------------------------------------------
// Paths
// ---------------------------------------------------------------------------

/// What stands between the slashes of a path.
pub open spec fn between_slashes(path: Seq<char>) -> Seq<Seq<char>>
    decreases path.len(),
{
    let n = run(path, |c: char| c == '/') as int;
    if n >= path.len() {
        seq![path]
    } else {
        seq![path.take(n)] + between_slashes(path.skip(n + 1))
    }
}

/// Whether a part of a path says where to go: empty parts and the current
/// directory do not.
pub open spec fn is_step(part: Seq<char>) -> bool {
    part.len() > 0 && part != "."@
}

/// The steps of a path.
pub open spec fn path_steps(path: Seq<char>) -> Seq<Seq<char>> {
    between_slashes(path).filter(|part: Seq<char>| is_step(part))
}

/// The first `n` parts that are steps.
proof fn lemma_filter_take(parts: Seq<Seq<char>>, n: int)
    requires
        0 <= n < parts.len(),
    ensures
        parts.take(n + 1).filter(|part: Seq<char>| is_step(part)) == if is_step(parts[n]) {
            parts.take(n).filter(|part: Seq<char>| is_step(part)).push(parts[n])
        } else {
            parts.take(n).filter(|part: Seq<char>| is_step(part))
        },
{
    let keep = |part: Seq<char>| is_step(part);
    assert(parts.take(n + 1) =~= parts.take(n).push(parts[n]));
    parts.take(n).lemma_filter_push(parts[n], keep);
}

fn split_slashes(path: &str) -> (r: Vec<String>)
    ensures
        texts(r@) == between_slashes(path@),
{
    broadcast use lemma_texts_push;

    let chars = chars_of(path);
    let mut r: Vec<String> = Vec::new();
    let mut from: usize = 0;
    assert(chars@.skip(0) =~= chars@);
    assert(texts(r@) + between_slashes(path@) =~= between_slashes(path@));
    loop
        invariant
            from <= chars.len(),
            texts(r@) + between_slashes(chars@.skip(from as int)) == between_slashes(path@),
        decreases chars.len() - from,
    {
        let ghost rest = chars@.skip(from as int);
        let ghost before = texts(r@);
        let mut to: usize = from;
        while to < chars.len() && chars[to] != '/'
            invariant
                from <= to <= chars.len(),
                rest == chars@.skip(from as int),
                forall|i: int| 0 <= i < to - from ==> #[trigger] rest[i] != '/',
            decreases chars.len() - to,
        {
            to = to + 1;
        }
        proof {
            lemma_run(rest, |c: char| c == '/', (to - from) as nat);
            assert(rest.take(to - from) =~= chars@.subrange(from as int, to as int));
        }
        r.push(string_of(&chars, from, to));
        if to == chars.len() {
            assert(rest.take(to - from) =~= rest);
            assert(before + seq![rest] =~= before.push(rest));
            return r;
        }
        proof {
            let tail = chars@.skip(to as int + 1);
            assert(rest.skip(to - from + 1) =~= tail);
            assert(before.push(rest.take(to - from)) + between_slashes(tail) =~= before + (seq![
                rest.take(to - from),
            ] + between_slashes(tail)));
        }
        from = to + 1;
    }
}

pub fn steps_of(path: &str) -> (r: Vec<String>)
    ensures
        texts(r@) == path_steps(path@),
{
    broadcast use lemma_texts_push;

    let parts = split_slashes(path);
    let ghost all = texts(parts@);
    let ghost keep = |part: Seq<char>| is_step(part);
    let mut r: Vec<String> = Vec::new();
    let mut i: usize = 0;
    assert(all.len() == parts@.len());
    assert(all.take(0).filter(keep) =~= Seq::empty()) by {
        reveal(Seq::filter);
    }
    assert(texts(r@) =~= Seq::empty());
    while i < parts.len()
        invariant
            i <= parts.len(),
            all == texts(parts@),
            all.len() == parts@.len(),
            keep == (|part: Seq<char>| is_step(part)),
            texts(r@) == all.take(i as int).filter(keep),
        decreases parts.len() - i,
    {
        let part = parts[i].as_str();
        proof {
            assert(all[i as int] == part@);
            lemma_filter_take(all, i as int);
        }
        if !part.is_empty() && !same_text(part, ".") {
            r.push(parts[i].clone());
        }
        i = i + 1;
    }
    assert(all.take(i as int) =~= all);
    r
}

/// Whether a path of the archive may lead out of the directory that it is
/// unpacked in.
pub open spec fn is_unsafe_path(path: Seq<char>) -> bool {
    ||| is_absolute(path)
    ||| between_slashes(path)[0] == "."@
    ||| between_slashes(path).contains(".."@)
}

/// Whether a file may hold a session.
pub open spec fn is_archive_file(name: Seq<char>) -> bool {
    "rollout-"@.is_prefix_of(name) && ".jsonl"@.is_suffix_of(lower(name))
}

/// Why a path has no place in the archive.
pub open spec fn path_refusal(path: Seq<char>) -> Option<Seq<char>> {
    let steps = path_steps(path);
    if is_unsafe_path(path) {
        Some("unsafe path in remote session archive: "@ + path)
    } else if steps.len() == 0 {
        Some("empty archive path"@)
    } else if steps[0] != "sessions"@ && steps[0] != "archived_sessions"@ {
        Some("unexpected remote session path: "@ + path)
    } else if !is_archive_file(steps.last()) {
        Some("unexpected file in remote session archive: "@ + path)
    } else {
        None
    }
}

/// Refuses a path that has no place in the archive.
pub fn validate_rollout_path(path: &str) -> (r: Result<(), Failure>)
    ensures
        match path_refusal(path@) {
            Some(message) => refused(r, message),
            None => r is Ok,
        },
{
    let chars = chars_of(path);
    let parts = split_slashes(path);
    proof {
        lemma_some_part(path@);
        assert(texts(parts@).len() == parts@.len());
        assert(texts(parts@)[0] == parts@[0]@);
    }
    if (chars.len() > 0 && chars[0] == '/') || same_text(&parts[0], ".") || has_text(&parts, "..") {
        return Err(refuse_about("unsafe path in remote session archive: ", path));
    }
    let steps = steps_of(path);
    let ghost all = path_steps(path@);
    assert(all.len() == steps@.len());
    assert(forall|i: int| 0 <= i < all.len() ==> #[trigger] all[i] == steps@[i]@);
    if steps.len() == 0 {
        return Err(refuse("empty archive path"));
    }
    if !same_text(&steps[0], "sessions") && !same_text(&steps[0], "archived_sessions") {
        return Err(refuse_about("unexpected remote session path: ", path));
    }
    let name = steps[steps.len() - 1].as_str();
    if !starts_with(name, "rollout-") || !ends_with(&lowered(name), ".jsonl") {
        return Err(refuse_about("unexpected file in remote session archive: ", path));
    }
    Ok(())
}

proof fn lemma_some_part(path: Seq<char>)
    ensures
        between_slashes(path).len() > 0,
{
}

/// Whether a file of this name is a session of the local Codex.
pub fn is_local_rollout(name: &str) -> (r: bool)
    ensures
        r == ("rollout-"@.is_prefix_of(name@) && ".jsonl"@.is_suffix_of(name@)),
{
    starts_with(name, "rollout-") && ends_with(name, ".jsonl")
}

/// A path that is accepted leads to a place below the directory that it is
/// joined to: it goes down from there into one of the two session directories,
/// and never up.
pub proof fn law_accepted_paths_stay_inside(base: Seq<char>, path: Seq<char>)
    requires
        path_refusal(path) is None,
        base.len() > 0,
        base.last() != '/',
    ensures
        joined(base, path) == base + "/"@ + path,
        path_steps(path).len() > 0,
        path_steps(path)[0] == "sessions"@ || path_steps(path)[0] == "archived_sessions"@,
        !path_steps(path).contains(".."@),
{
    let parts = between_slashes(path);
    let keep = |part: Seq<char>| is_step(part);
    if path_steps(path).contains(".."@) {
        parts.lemma_filter_contains_rev(keep, ".."@);
    }
}

// ---------------------------------------------------------------------------
// Sizes
// ---------------------------------------------------------------------------

/// What kind of thing an entry of the archive is.
#[derive(Debug, Clone, Copy, PartialEq, Eq, Structural)]
pub enum EntryKind {
    Directory,
    File,
    Other,
}

/// Where a path leads, step by step.
pub open spec fn place_of(steps: Seq<Seq<char>>) -> Seq<char>
    decreases steps.len(),
{
    if steps.len() == 0 {
        Seq::empty()
    } else {
        place_of(steps.drop_last()) + "/"@ + steps.last()
    }
}

fn place(path: &str) -> (r: String)
    ensures
        r@ == place_of(path_steps(path@)),
{
    let steps = steps_of(path);
    let ghost all = path_steps(path@);
    let mut r = String::new();
    let mut i: usize = 0;
    assert(all.len() == steps@.len());
    assert(all.take(0) =~= Seq::empty());
    assert(r@ =~= place_of(all.take(0)));
    while i < steps.len()
        invariant
            i <= steps.len(),
            all == texts(steps@),
            all.len() == steps@.len(),
            r@ == place_of(all.take(i as int)),
        decreases steps.len() - i,
    {
        assert(all[i as int] == steps@[i as int]@);
        assert(all.take(i as int + 1).drop_last() =~= all.take(i as int));
        r.push_str("/");
        r.push_str(&steps[i]);
        i = i + 1;
    }
    assert(all.take(i as int) =~= all);
    r
}

/// Where paths lead.
pub open spec fn places_of(files: Seq<Seq<char>>) -> Seq<Seq<char>> {
    files.map_values(|path: Seq<char>| place_of(path_steps(path)))
}

/// What has been accepted of an archive.
#[derive(Debug)]
pub struct ArchiveIntake {
    pub total_bytes: u64,
    pub files: Vec<String>,
    /// Where the files lead.
    pub places: Vec<String>,
}

pub struct IntakeView {
    pub total_bytes: nat,
    pub files: Seq<Seq<char>>,
}

impl View for ArchiveIntake {
    type V = IntakeView;

    open spec fn view(&self) -> IntakeView {
        IntakeView { total_bytes: self.total_bytes as nat, files: texts(self.files@) }
    }
}

/// What one more entry makes of the intake.
pub open spec fn taken_in(
    intake: IntakeView,
    kind: EntryKind,
    path: Seq<char>,
    size: u64,
) -> Result<IntakeView, Seq<char>> {
    match kind {
        EntryKind::Directory => Ok(intake),
        EntryKind::Other => Err("remote session archive contains a non-regular entry"@),
        EntryKind::File => match path_refusal(path) {
            Some(message) => Err(message),
            None => if size > MAX_ROLLOUT_BYTES {
                Err("remote rollout "@ + path + " exceeds the 512 MiB limit"@)
            } else if intake.total_bytes + size > MAX_TOTAL_BYTES {
                Err("remote session archive exceeds the 4 GiB limit"@)
            } else if places_of(intake.files).contains(place_of(path_steps(path))) {
                Err("remote session archive holds a file twice: "@ + path)
            } else {
                Ok(
                    IntakeView {
                        total_bytes: intake.total_bytes + size as nat,
                        files: intake.files.push(path),
                    },
                )
            },
        },
    }
}

impl ArchiveIntake {
    pub open spec fn wf(&self) -> bool {
        &&& self.total_bytes <= MAX_TOTAL_BYTES
        &&& forall|i: int|
            0 <= i < self@.files.len() ==> path_refusal(#[trigger] self@.files[i]) is None
        &&& texts(self.places@) == places_of(self@.files)
        &&& self@.files.len() == self.files@.len()
        &&& places_of(self@.files).no_duplicates()
    }

    pub fn new() -> (r: ArchiveIntake)
        ensures
            r.wf(),
            r@ == (IntakeView { total_bytes: 0, files: Seq::empty() }),
    {
        let r = ArchiveIntake { total_bytes: 0, files: Vec::new(), places: Vec::new() };
        assert(r@.files =~= Seq::empty());
        assert(texts(r.places@) =~= places_of(r@.files));
        r
    }

    /// Takes one entry; true where its contents are to be unpacked.
    pub fn take(&mut self, kind: EntryKind, path: &str, size: u64) -> (r: Result<bool, Failure>)
        requires
            old(self).wf(),
        ensures
            final(self).wf(),
            match taken_in(old(self)@, kind, path@, size) {
                Ok(next) => final(self)@ == next && r == Ok::<bool, Failure>(
                    kind == EntryKind::File,
                ),
                Err(message) => final(self)@ == old(self)@ && refused(r, message),
            },
    {
        broadcast use lemma_texts_push;

        match kind {
            EntryKind::Directory => return Ok(false),
            EntryKind::Other => {
                return Err(refuse("remote session archive contains a non-regular entry"));
            },
            EntryKind::File => {},
        }
        match validate_rollout_path(path) {
            Ok(_) => {},
            Err(e) => return Err(e),
        }
        if size > MAX_ROLLOUT_BYTES {
            return Err(refuse_naming("remote rollout ", path, " exceeds the 512 MiB limit"));
        }
        if self.total_bytes + size > MAX_TOTAL_BYTES {
            return Err(refuse("remote session archive exceeds the 4 GiB limit"));
        }
        let ghost before = self@.files;
        let place = place(path);
        if has_text(&self.places, &place) {
            return Err(refuse_about("remote session archive holds a file twice: ", path));
        }
        self.total_bytes = self.total_bytes + size;
        self.files.push(path.to_owned());
        self.places.push(place);
        proof {
            assert(self@.files == before.push(path@));
            let places = places_of(before);
            let after = places_of(self@.files);
            assert(after =~= places.push(place@));
            assert forall|i: int, j: int| 0 <= i < after.len() && 0 <= j < after.len() && i
                != j implies after[i] != after[j] by {
                if i == places.len() {
                    assert(after[j] == places[j]);
                    assert(places.contains(places[j]));
                } else if j == places.len() {
                    assert(after[i] == places[i]);
                    assert(places.contains(places[i]));
                } else {
                    assert(after[i] == places[i] && after[j] == places[j]);
                }
            }
        }
        Ok(true)
    }
}

/// Whether the stream that a host sends says that it has no sessions.
pub fn is_empty_archive(prefix: &[u8]) -> (r: bool)
    requires
        prefix@.len() == 4,
    ensures
        r == (prefix@ == seq![67u8, 88, 83, 48]),
{
    let r = prefix[0] == 67 && prefix[1] == 88 && prefix[2] == 83 && prefix[3] == 48;
    assert(r ==> prefix@ =~= seq![67u8, 88, 83, 48]);
    r
}

pub const SESSIONS_1: &'static str = "set -eu; root=";

pub const SESSIONS_2: &'static str = "; if ! cd \"$root\" 2>/dev/null; then printf CXS0; exit 0; fi; set --; test ! -d sessions || set -- \"$@\" sessions; test ! -d archived_sessions || set -- \"$@\" archived_sessions; if test \"$#\" -eq 0; then printf CXS0; else tar -cf - \"$@\"; fi";

/// The command by which a host sends its sessions.
pub fn sessions_command(remote_codex_home: Option<&str>) -> (r: String)
    ensures
        r@ == SESSIONS_1@ + (match remote_codex_home {
            Some(home) => quoted(home@),
            None => "$HOME/.codex"@,
        }) + SESSIONS_2@,
{
    let mut command = SESSIONS_1.to_owned();
    match remote_codex_home {
        Some(home) => command.push_str(&shell_quote(home)),
        None => command.push_str("$HOME/.codex"),
    }
    command.push_str(SESSIONS_2);
    command
}

// ---------------------------------------------------------------------------
// Order
// ---------------------------------------------------------------------------

/// The order of paths: step by step.
pub open spec fn steps_le(a: Seq<Seq<char>>, b: Seq<Seq<char>>) -> bool
    decreases a.len(),
{
    if a.len() == 0 {
        true
    } else if b.len() == 0 {
        false
    } else if a[0] == b[0] {
        steps_le(a.skip(1), b.skip(1))
    } else {
        text_le(a[0], b[0])
    }
}

pub open spec fn path_le(a: Seq<char>, b: Seq<char>) -> bool {
    steps_le(path_steps(a), path_steps(b))
}

proof fn lemma_steps_le_total(a: Seq<Seq<char>>, b: Seq<Seq<char>>)
    ensures
        steps_le(a, b) || steps_le(b, a),
    decreases a.len(),
{
    if a.len() > 0 && b.len() > 0 {
        if a[0] == b[0] {
            lemma_steps_le_total(a.skip(1), b.skip(1));
        } else {
            lemma_text_le_total(a[0], b[0]);
        }
    }
}

proof fn lemma_steps_le_transitive(a: Seq<Seq<char>>, b: Seq<Seq<char>>, c: Seq<Seq<char>>)
    requires
        steps_le(a, b),
        steps_le(b, c),
    ensures
        steps_le(a, c),
    decreases a.len(),
{
    if a.len() > 0 && b.len() > 0 && c.len() > 0 {
        if a[0] == b[0] && b[0] == c[0] {
            lemma_steps_le_transitive(a.skip(1), b.skip(1), c.skip(1));
        } else if a[0] != b[0] && b[0] != c[0] {
            lemma_text_le_transitive(a[0], b[0], c[0]);
            if a[0] == c[0] {
                lemma_text_le_antisymmetric(a[0], b[0]);
            }
        }
    }
}

proof fn lemma_text_le_antisymmetric(a: Seq<char>, b: Seq<char>)
    requires
        text_le(a, b),
        text_le(b, a),
    ensures
        a == b,
    decreases a.len(),
{
    if a.len() > 0 && b.len() > 0 {
        lemma_text_le_antisymmetric(a.skip(1), b.skip(1));
        assert(a =~= seq![a[0]] + a.skip(1));
        assert(b =~= seq![b[0]] + b.skip(1));
    } else {
        assert(a =~= b);
    }
}

fn path_not_after(a: &str, b: &str) -> (r: bool)
    ensures
        r == path_le(a@, b@),
{
    let x = steps_of(a);
    let y = steps_of(b);
    let ghost p = path_steps(a@);
    let ghost q = path_steps(b@);
    let mut i: usize = 0;
    assert(p.len() == x@.len() && q.len() == y@.len());
    assert(p.skip(0) =~= p);
    assert(q.skip(0) =~= q);
    loop
        invariant
            i <= x.len(),
            i <= y.len(),
            p == texts(x@),
            q == texts(y@),
            p.len() == x@.len(),
            q.len() == y@.len(),
            steps_le(p.skip(i as int), q.skip(i as int)) == path_le(a@, b@),
        decreases x.len() - i,
    {
        if i == x.len() {
            return true;
        }
        if i == y.len() {
            return false;
        }
        assert(p.skip(i as int)[0] == x@[i as int]@);
        assert(q.skip(i as int)[0] == y@[i as int]@);
        if !same_text(&x[i], &y[i]) {
            return not_after(&x[i], &y[i]);
        }
        assert(p.skip(i as int).skip(1) =~= p.skip(i as int + 1));
        assert(q.skip(i as int).skip(1) =~= q.skip(i as int + 1));
        i = i + 1;
    }
}

pub open spec fn sorted_paths(paths: Seq<String>) -> bool {
    forall|i: int, j: int|
        0 <= i < j < paths.len() ==> path_le((#[trigger] paths[i])@, (#[trigger] paths[j])@)
}

/// The paths in order.
pub fn sort_paths(paths: Vec<String>) -> (r: Vec<String>)
    ensures
        sorted_paths(r@),
        r@.to_multiset() == paths@.to_multiset(),
{
    broadcast use vstd::seq_lib::group_to_multiset_ensures;

    let mut r: Vec<String> = Vec::new();
    assert(paths@.take(0) =~= Seq::empty());
    for path in it: paths
        invariant
            it.seq() == paths@,
            sorted_paths(r@),
            r@.to_multiset() == paths@.take(it.index() as int).to_multiset(),
    {
        let ghost n = it.index() as int;
        let mut k: usize = 0;
        while k < r.len() && path_not_after(&r[k], &path)
            invariant
                k <= r.len(),
                forall|i: int| 0 <= i < k ==> path_le((#[trigger] r@[i])@, path@),
            decreases r.len() - k,
        {
            k = k + 1;
        }
        let ghost before = r@;
        proof {
            if k < before.len() {
                lemma_steps_le_total(path_steps(before[k as int]@), path_steps(path@));
                assert forall|i: int| k <= i < before.len() implies path_le(
                    path@,
                    (#[trigger] before[i])@,
                ) by {
                    if i > k {
                        lemma_steps_le_transitive(
                            path_steps(path@),
                            path_steps(before[k as int]@),
                            path_steps(before[i]@),
                        );
                    }
                }
            }
        }
        r.insert(k, path);
        proof {
            assert(r@ == before.insert(k as int, path));
            assert forall|i: int, j: int| 0 <= i < j < r@.len() implies path_le(
                (#[trigger] r@[i])@,
                (#[trigger] r@[j])@,
            ) by {
                let p = if i < k { i } else { i - 1 };
                let q = if j < k { j } else { j - 1 };
                if i != k && j != k {
                    assert(r@[i] == before[p] && r@[j] == before[q]);
                } else if i == k {
                    assert(r@[j] == before[q]);
                } else {
                    assert(r@[i] == before[p]);
                }
            }
            assert(paths@.take(n + 1) =~= paths@.take(n).push(path));
            vstd::seq_lib::to_multiset_insert(before, k as int, path);
            vstd::seq_lib::to_multiset_build(paths@.take(n), path);
        }
    }
    assert(paths@.take(paths@.len() as int) =~= paths@);
    r
}

} // verus!
