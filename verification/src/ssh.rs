//! SSH configuration: what `ssh` resolves for a host, and the host block that
//! Shuttle writes for its own alias.

use vstd::prelude::*;
use vstd::string::*;
use vstd::utf8::*;
use crate::entries::{
    TextMap, has_key, key_index, lemma_key_found, lemma_key_index, value_of, with_entry,
};
use crate::failure::{Failure, outcome, refuse, refuse_about, refused};
use crate::profile::{Profile, ProfileView, host_refusal, join, joined, validate_host_alias};
use crate::routing::slices;
use crate::text::{
    blank, chars_of, decimal, decimal_text, is_blank, is_white, lemma_run, lemma_texts_push, lines,
    lower, lowered, run, same_text, split_at_char, split_at_white, split_lines, split_once,
    strip_return, text_of_utf8, texts, trim, trimmed,
};

verus! {

pub const INCLUDE_LINE: &'static str = "Include ~/.ssh/codex-shuttle.conf";

/// What a host says of itself.
#[derive(Debug, Clone, PartialEq, Eq)]
pub struct RemoteFacts {
    pub home: String,
    pub kernel: String,
    pub arch: String,
}

// ---------------------------------------------------------------------------
// Resolved values
// ---------------------------------------------------------------------------

/// The values of each SSH option, in the order in which the options came.
#[derive(Debug, Clone)]
pub struct SshValues {
    pub entries: Vec<(String, Vec<String>)>,
}

impl View for SshValues {
    type V = Seq<(Seq<char>, Seq<Seq<char>>)>;

    open spec fn view(&self) -> Seq<(Seq<char>, Seq<Seq<char>>)> {
        entries_view(self.entries@)
    }
}

/// Options and their values as mathematical objects.
pub open spec fn entries_view(entries: Seq<(String, Vec<String>)>) -> Seq<
    (Seq<char>, Seq<Seq<char>>),
> {
    entries.map_values(|e: (String, Vec<String>)| (e.0@, texts(e.1@)))
}

/// The first value of an option.
pub open spec fn first_of_key(
    entries: Seq<(Seq<char>, Seq<Seq<char>>)>,
    key: Seq<char>,
) -> Option<Seq<char>> {
    match value_of(entries, key) {
        Some(list) => if list.len() > 0 {
            Some(list[0])
        } else {
            None
        },
        None => None,
    }
}

/// The entries with one more value for an option.
pub open spec fn with_value(
    entries: Seq<(Seq<char>, Seq<Seq<char>>)>,
    key: Seq<char>,
    value: Seq<char>,
) -> Seq<(Seq<char>, Seq<Seq<char>>)> {
    match value_of(entries, key) {
        Some(list) => with_entry(entries, key, list.push(value)),
        None => with_entry(entries, key, seq![value]),
    }
}

/// Whether two lists of entries hold the same values for every option.
pub open spec fn same_entries(
    a: Seq<(Seq<char>, Seq<Seq<char>>)>,
    b: Seq<(Seq<char>, Seq<Seq<char>>)>,
) -> bool {
    forall|key: Seq<char>| #[trigger] value_of(a, key) == value_of(b, key)
}

pub fn copy_texts(strings: &Vec<String>) -> (r: Vec<String>)
    ensures
        texts(r@) == texts(strings@),
{
    broadcast use lemma_texts_push;

    let mut r: Vec<String> = Vec::new();
    let ghost all = texts(strings@);
    let mut i: usize = 0;
    assert(texts(r@) =~= all.take(0));
    while i < strings.len()
        invariant
            i <= strings.len(),
            all == texts(strings@),
            texts(r@) == all.take(i as int),
        decreases strings.len() - i,
    {
        r.push(strings[i].clone());
        assert(all.take(i as int + 1) =~= all.take(i as int).push(strings@[i as int]@));
        i = i + 1;
    }
    assert(all.take(i as int) =~= all);
    r
}

pub fn same_texts(a: &Vec<String>, b: &Vec<String>) -> (r: bool)
    ensures
        r == (texts(a@) == texts(b@)),
{
    assert(texts(a@).len() == a@.len());
    assert(texts(b@).len() == b@.len());
    if a.len() != b.len() {
        return false;
    }
    let mut i: usize = 0;
    while i < a.len()
        invariant
            i <= a.len(),
            a.len() == b.len(),
            forall|j: int| 0 <= j < i ==> #[trigger] texts(a@)[j] == texts(b@)[j],
        decreases a.len() - i,
    {
        if !same_text(&a[i], &b[i]) {
            assert(texts(a@)[i as int] != texts(b@)[i as int]);
            return false;
        }
        i = i + 1;
    }
    assert(texts(a@) =~= texts(b@));
    true
}

pub fn has_text(list: &Vec<String>, value: &str) -> (r: bool)
    ensures
        r == texts(list@).contains(value@),
{
    let mut i: usize = 0;
    while i < list.len()
        invariant
            i <= list.len(),
            forall|j: int| 0 <= j < i ==> texts(list@)[j] != value@,
        decreases list.len() - i,
    {
        if same_text(&list[i], value) {
            assert(texts(list@)[i as int] == value@);
            return true;
        }
        i = i + 1;
    }
    false
}

impl SshValues {
    pub fn new() -> (r: SshValues)
        ensures
            r@ == Seq::<(Seq<char>, Seq<Seq<char>>)>::empty(),
    {
        let r = SshValues { entries: Vec::new() };
        assert(r@ =~= Seq::empty());
        r
    }

    fn find(&self, key: &str) -> (r: usize)
        ensures
            r == key_index(self@, key@),
            r <= self@.len(),
            self@.len() == self.entries@.len(),
    {
        let mut i: usize = 0;
        while i < self.entries.len()
            invariant
                i <= self.entries.len(),
                self@.len() == self.entries.len(),
                forall|j: int| 0 <= j < i ==> (#[trigger] self@[j]).0 != key@,
            decreases self.entries.len() - i,
        {
            if same_text(&self.entries[i].0, key) {
                proof {
                    assert(self@[i as int].0 == key@);
                    lemma_key_index(self@, key@, i as nat);
                }
                return i;
            }
            i = i + 1;
        }
        proof {
            lemma_key_index(self@, key@, i as nat);
        }
        i
    }

    /// The values of an option.
    pub fn get<'a>(&'a self, key: &str) -> (r: Option<&'a Vec<String>>)
        ensures
            match r {
                Some(list) => value_of(self@, key@) == Some(texts(list@)),
                None => value_of(self@, key@) is None,
            },
    {
        let i: usize = self.find(key);
        if i < self.entries.len() {
            Some(&self.entries[i].1)
        } else {
            None
        }
    }

    /// Sets the values of an option.
    pub fn insert(&mut self, key: String, list: Vec<String>)
        ensures
            final(self)@ == with_entry(old(self)@, key@, texts(list@)),
    {
        let ghost before = self@;
        let ghost entry = (key@, texts(list@));
        let i: usize = self.find(&key);
        if i < self.entries.len() {
            self.entries.set(i, (key, list));
            assert(self@ =~= before.update(i as int, entry));
        } else {
            self.entries.push((key, list));
            assert(self@ =~= before.push(entry));
        }
    }

    /// Adds a value to an option.
    pub fn add_value(&mut self, key: String, value: String)
        ensures
            final(self)@ == with_value(old(self)@, key@, value@),
    {
        broadcast use lemma_texts_push;

        let mut list: Vec<String> = match self.get(&key) {
            Some(list) => copy_texts(list),
            None => Vec::new(),
        };
        let ghost before = texts(list@);
        let ghost added = value@;
        list.push(value);
        assert(value_of(self@, key@) is None ==> texts(list@) =~= seq![added]);
        self.insert(key, list);
    }

    /// Values of its own that equal these.
    pub fn copy(&self) -> (r: SshValues)
        ensures
            r@ == self@,
    {
        let mut entries: Vec<(String, Vec<String>)> = Vec::new();
        let mut i: usize = 0;
        while i < self.entries.len()
            invariant
                i <= self.entries.len(),
                entries.len() == i,
                forall|j: int|
                    0 <= j < i ==> (#[trigger] entries@[j]).0@ == self.entries@[j].0@ && texts(
                        entries@[j].1@,
                    ) == texts(self.entries@[j].1@),
            decreases self.entries.len() - i,
        {
            entries.push((self.entries[i].0.clone(), copy_texts(&self.entries[i].1)));
            i = i + 1;
        }
        let r = SshValues { entries };
        assert(r@ =~= self@);
        r
    }

    fn covers(&self, other: &SshValues) -> (r: bool)
        ensures
            r == forall|i: int|
                0 <= i < self@.len() ==> value_of(other@, (#[trigger] self@[i]).0) == value_of(
                    self@,
                    self@[i].0,
                ),
    {
        let mut i: usize = 0;
        while i < self.entries.len()
            invariant
                i <= self.entries.len(),
                self@.len() == self.entries.len(),
                forall|j: int|
                    0 <= j < i ==> value_of(other@, (#[trigger] self@[j]).0) == value_of(
                        self@,
                        self@[j].0,
                    ),
            decreases self.entries.len() - i,
        {
            let key = self.entries[i].0.as_str();
            assert(self@[i as int].0 == key@);
            let same = match (self.get(key), other.get(key)) {
                (Some(a), Some(b)) => same_texts(a, b),
                (None, None) => true,
                _ => false,
            };
            if !same {
                assert(value_of(other@, self@[i as int].0) != value_of(self@, self@[i as int].0));
                return false;
            }
            i = i + 1;
        }
        true
    }

    /// Whether the values of every option are the same.
    pub fn same(&self, other: &SshValues) -> (r: bool)
        ensures
            r == same_entries(self@, other@),
    {
        let r = self.covers(other) && other.covers(self);
        proof {
            if r {
                assert forall|key: Seq<char>| #[trigger] value_of(self@, key) == value_of(
                    other@,
                    key,
                ) by {
                    lemma_key_found(self@, key);
                    lemma_key_found(other@, key);
                    if has_key(self@, key) {
                        let i = key_index(self@, key) as int;
                        assert(self@[i].0 == key);
                    } else if has_key(other@, key) {
                        let i = key_index(other@, key) as int;
                        assert(other@[i].0 == key);
                    }
                }
            }
        }
        r
    }
}

// ---------------------------------------------------------------------------
// Reading
// ---------------------------------------------------------------------------

/// Whether a value holds a character that no configuration file can hold.
pub open spec fn has_control(value: Seq<char>) -> bool {
    exists|i: int|
        0 <= i < value.len() && (#[trigger] value[i] == '\n' || value[i] == '\r' || value[i]
            == '\0')
}

pub open spec fn control_refusal() -> Seq<char> {
    "SSH configuration value contains a forbidden control character"@
}

pub fn reject_newline(value: &str) -> (r: Result<(), Failure>)
    ensures
        r is Err == has_control(value@),
        r is Err ==> refused(r, control_refusal()),
{
    let chars = chars_of(value);
    let mut i: usize = 0;
    while i < chars.len()
        invariant
            i <= chars.len(),
            chars@ == value@,
            forall|j: int|
                0 <= j < i ==> #[trigger] value@[j] != '\n' && value@[j] != '\r' && value@[j] != '\0',
        decreases chars.len() - i,
    {
        let c: char = chars[i];
        if c == '\n' || c == '\r' || c == '\0' {
            assert(value@[i as int] == c);
            return Err(
                refuse("SSH configuration value contains a forbidden control character"),
            );
        }
        i = i + 1;
    }
    Ok(())
}

/// What the first `n` lines of the output of `ssh -G` say: an option and a
/// value each, and an option may come again.
pub open spec fn parsed_lines(all: Seq<Seq<char>>, n: nat) -> Result<
    Seq<(Seq<char>, Seq<Seq<char>>)>,
    Seq<char>,
>
    decreases n,
{
    if n == 0 {
        Ok(Seq::empty())
    } else {
        let line = trim(all[n - 1]);
        match parsed_lines(all, (n - 1) as nat) {
            Err(e) => Err(e),
            Ok(before) => if line.len() == 0 {
                Ok(before)
            } else {
                match split_once(line, |c: char| is_white(c)) {
                    None => Err("malformed ssh -G line "@ + decimal(n)),
                    Some((key, rest)) => if has_control(trim(rest)) {
                        Err(control_refusal())
                    } else {
                        Ok(with_value(before, lower(key), trim(rest)))
                    },
                }
            },
        }
    }
}

/// What the output of `ssh -G` says.
pub open spec fn parsed_ssh(text: Seq<char>) -> Result<
    Seq<(Seq<char>, Seq<Seq<char>>)>,
    Seq<char>,
> {
    parsed_lines(lines(text), lines(text).len())
}

/// A line that cannot be read stops the reading: what follows it cannot change
/// that.
proof fn lemma_parsed_stays_refused(all: Seq<Seq<char>>, n: nat, m: nat)
    requires
        n <= m,
        parsed_lines(all, n) is Err,
    ensures
        parsed_lines(all, m) == parsed_lines(all, n),
    decreases m,
{
    if n < m {
        lemma_parsed_stays_refused(all, n, (m - 1) as nat);
    }
}

pub fn parse_ssh_g(text: &str) -> (r: Result<SshValues, Failure>)
    ensures
        outcome(r) == parsed_ssh(text@),
{
    let found = split_lines(text);
    let ghost all = lines(text@);
    let mut values = SshValues::new();
    let mut i: usize = 0;
    assert(all.len() == found@.len());
    while i < found.len()
        invariant
            i <= found.len(),
            all == texts(found@),
            all == lines(text@),
            all.len() == found@.len(),
            parsed_lines(all, i as nat) == Ok::<
                Seq<(Seq<char>, Seq<Seq<char>>)>,
                Seq<char>,
            >(values@),
        decreases found.len() - i,
    {
        assert(all[i as int] == found@[i as int]@);
        let line = trimmed(&found[i]);
        i = i + 1;
        if line.as_str().is_empty() {
            continue;
        }
        match split_at_white(&line) {
            None => {
                proof {
                    lemma_parsed_stays_refused(all, i as nat, all.len());
                }
                return Err(refuse_about("malformed ssh -G line ", &decimal_text(i as u64)));
            },
            Some((key, rest)) => {
                let value = trimmed(&rest);
                match reject_newline(&value) {
                    Ok(_) => {},
                    Err(e) => {
                        proof {
                            lemma_parsed_stays_refused(all, i as nat, all.len());
                        }
                        return Err(e);
                    },
                }
                values.add_value(lowered(&key), value);
            },
        }
    }
    Ok(values)
}

// ---------------------------------------------------------------------------
// Snapshots
// ---------------------------------------------------------------------------

/// What `ssh` resolved for a host, and what it resolves for a host that only
/// generic blocks match.
#[derive(Debug, Clone)]
pub struct SshSnapshot {
    pub source_host: String,
    pub values: SshValues,
    pub inherited_values: SshValues,
}

/// A snapshot as its file holds it.
#[derive(Debug)]
pub struct SnapshotFile {
    pub path: String,
    pub source_host: String,
    pub values: Vec<(String, Vec<String>)>,
    pub inherited_values: Vec<(String, Vec<String>)>,
}

/// Whether a file holds a snapshot, all of it and nothing else.
pub open spec fn holds_snapshot(file: SnapshotFile, snapshot: SshSnapshot) -> bool {
    &&& file.source_host@ == snapshot.source_host@
    &&& entries_view(file.values@) == snapshot.values@
    &&& entries_view(file.inherited_values@) == snapshot.inherited_values@
}

/// What is loaded is what was saved.
pub proof fn law_saved_snapshots_are_loaded(
    file: SnapshotFile,
    saved: SshSnapshot,
    loaded: SshSnapshot,
)
    requires
        holds_snapshot(file, saved),
        holds_snapshot(file, loaded),
    ensures
        loaded.source_host@ == saved.source_host@,
        loaded.values@ == saved.values@,
        loaded.inherited_values@ == saved.inherited_values@,
        same_entries(loaded.values@, saved.values@),
        same_entries(loaded.inherited_values@, saved.inherited_values@),
{
}

/// What the output of `ssh -G` for a host says, where it says enough to
/// connect.
pub open spec fn source_values_of(host: Seq<char>, output: Seq<u8>) -> Result<
    Seq<(Seq<char>, Seq<Seq<char>>)>,
    Seq<char>,
> {
    match host_refusal(host) {
        Some(message) => Err(message),
        None => if !valid_utf8(output) {
            Err("ssh -G returned non-UTF-8 output"@)
        } else {
            match parsed_ssh(decode_utf8(output)) {
                Err(e) => Err(e),
                Ok(values) => if first_of_key(values, "hostname"@) is None {
                    Err("ssh -G output did not include 'hostname'"@)
                } else if first_of_key(values, "user"@) is None {
                    Err("ssh -G output did not include 'user'"@)
                } else if first_of_key(values, "port"@) is None {
                    Err("ssh -G output did not include 'port'"@)
                } else {
                    Ok(values)
                },
            }
        },
    }
}

/// What the output of `ssh -G` for the probe host says.
pub open spec fn inherited_values_of(output: Seq<u8>) -> Result<
    Seq<(Seq<char>, Seq<Seq<char>>)>,
    Seq<char>,
> {
    if !valid_utf8(output) {
        Err("ssh -G returned non-UTF-8 output"@)
    } else {
        parsed_ssh(decode_utf8(output))
    }
}

pub fn parse_output(output: &[u8]) -> (r: Result<SshValues, Failure>)
    ensures
        outcome(r) == inherited_values_of(output@),
{
    match text_of_utf8(vstd::slice::slice_to_vec(output)) {
        Some(text) => {
            proof {
                encode_utf8_valid_utf8(text@);
                encode_utf8_decode_utf8(text@);
            }
            parse_ssh_g(&text)
        },
        None => Err(refuse("ssh -G returned non-UTF-8 output")),
    }
}

/// The first value of an option.
pub fn first_value<'a>(values: &'a SshValues, key: &str) -> (r: Option<&'a str>)
    ensures
        match r {
            Some(s) => first_of_key(values@, key@) == Some(s@),
            None => first_of_key(values@, key@) is None,
        },
{
    match values.get(key) {
        Some(list) => {
            assert(texts(list@).len() == list@.len());
            if list.len() > 0 {
                assert(texts(list@)[0] == list@[0]@);
                Some(list[0].as_str())
            } else {
                None
            }
        },
        None => None,
    }
}

/// Reads what `ssh -G` says of a host.
pub fn source_values(source_host: &str, output: &[u8]) -> (r: Result<SshValues, Failure>)
    ensures
        outcome(r) == source_values_of(source_host@, output@),
{
    match validate_host_alias(source_host) {
        Ok(_) => {},
        Err(e) => return Err(e),
    }
    let values = match parse_output(output) {
        Ok(values) => values,
        Err(e) => return Err(e),
    };
    if first_value(&values, "hostname").is_none() {
        return Err(refuse("ssh -G output did not include 'hostname'"));
    }
    if first_value(&values, "user").is_none() {
        return Err(refuse("ssh -G output did not include 'user'"));
    }
    if first_value(&values, "port").is_none() {
        return Err(refuse("ssh -G output did not include 'port'"));
    }
    Ok(values)
}

/// The arguments by which `ssh` tells what the generated alias inherits: a
/// host that only generic blocks match, with the connection of the source, so
/// that what depends on the connection expands alike.
pub open spec fn inherited_arguments(
    hostname: Seq<char>,
    user: Seq<char>,
    port: Seq<char>,
    proxy_jump: Option<Seq<char>>,
) -> Seq<Seq<char>> {
    let connection = seq![
        "-G"@,
        "-o"@,
        "HostName="@ + hostname,
        "-o"@,
        "User="@ + user,
        "-o"@,
        "Port="@ + port,
    ];
    let jump = match proxy_jump {
        Some(jump) => if jump == "none"@ {
            Seq::empty()
        } else {
            seq!["-o"@, "ProxyJump="@ + jump]
        },
        None => Seq::empty(),
    };
    connection + jump + seq!["cxs-inherited-probe.invalid"@]
}

fn setting(name: &str, value: &str) -> (r: String)
    ensures
        r@ == name@ + value@,
{
    let mut r = name.to_owned();
    r.push_str(value);
    r
}

/// The arguments of the second run of `ssh`.
pub fn inherited_probe_arguments(values: &SshValues) -> (r: Result<Vec<String>, Failure>)
    ensures
        match (
            first_of_key(values@, "hostname"@),
            first_of_key(values@, "user"@),
            first_of_key(values@, "port"@),
        ) {
            (None, _, _) => refused(r, "SSH snapshot has no hostname"@),
            (Some(_), None, _) => refused(r, "SSH snapshot has no user"@),
            (Some(_), Some(_), None) => refused(r, "SSH snapshot has no port"@),
            (Some(hostname), Some(user), Some(port)) => r matches Ok(arguments) && texts(
                arguments@,
            ) == inherited_arguments(
                hostname,
                user,
                port,
                first_of_key(values@, "proxyjump"@),
            ),
        },
{
    let hostname = match first_value(values, "hostname") {
        Some(hostname) => hostname,
        None => return Err(refuse("SSH snapshot has no hostname")),
    };
    let user = match first_value(values, "user") {
        Some(user) => user,
        None => return Err(refuse("SSH snapshot has no user")),
    };
    let port = match first_value(values, "port") {
        Some(port) => port,
        None => return Err(refuse("SSH snapshot has no port")),
    };
    let mut arguments: Vec<String> = Vec::new();
    arguments.push("-G".to_owned());
    arguments.push("-o".to_owned());
    arguments.push(setting("HostName=", hostname));
    arguments.push("-o".to_owned());
    arguments.push(setting("User=", user));
    arguments.push("-o".to_owned());
    arguments.push(setting("Port=", port));
    match first_value(values, "proxyjump") {
        Some(jump) => if !same_text(jump, "none") {
            arguments.push("-o".to_owned());
            arguments.push(setting("ProxyJump=", jump));
        },
        None => {},
    }
    arguments.push("cxs-inherited-probe.invalid".to_owned());
    assert(texts(arguments@) =~= inherited_arguments(
        hostname@,
        user@,
        port@,
        first_of_key(values@, "proxyjump"@),
    ));
    Ok(arguments)
}

impl SshSnapshot {
    /// The snapshot of a host, from the outputs of the two runs of `ssh`.
    pub fn resolve(source_host: &str, source_output: &[u8], inherited_output: &[u8]) -> (r: Result<
        SshSnapshot,
        Failure,
    >)
        ensures
            match source_values_of(source_host@, source_output@) {
                Err(e) => refused(r, e),
                Ok(values) => match inherited_values_of(inherited_output@) {
                    Err(e) => refused(r, e),
                    Ok(inherited) => r matches Ok(snapshot) && snapshot.source_host@
                        == source_host@ && snapshot.values@ == values
                        && snapshot.inherited_values@ == inherited,
                },
            },
    {
        let values = match source_values(source_host, source_output) {
            Ok(values) => values,
            Err(e) => return Err(e),
        };
        let inherited_values = match parse_output(inherited_output) {
            Ok(values) => values,
            Err(e) => return Err(e),
        };
        Ok(SshSnapshot { source_host: source_host.to_owned(), values, inherited_values })
    }

    /// What is saved of this snapshot, and where: all of it, in the directory
    /// of its profile.
    pub fn save(&self, profile_directory: &str) -> (r: SnapshotFile)
        ensures
            r.path@ == joined(profile_directory@, "ssh-snapshot.json"@),
            holds_snapshot(r, *self),
    {
        SnapshotFile {
            path: snapshot_file(profile_directory),
            source_host: self.source_host.clone(),
            values: self.values.copy().entries,
            inherited_values: self.inherited_values.copy().entries,
        }
    }

    /// The snapshot that was saved.
    pub fn load(file: SnapshotFile) -> (r: SshSnapshot)
        ensures
            holds_snapshot(file, r),
    {
        SshSnapshot {
            source_host: file.source_host,
            values: SshValues { entries: file.values },
            inherited_values: SshValues { entries: file.inherited_values },
        }
    }

    /// The first value of an option.
    pub fn value<'a>(&'a self, key: &str) -> (r: Option<&'a str>)
        ensures
            match r {
                Some(s) => first_of_key(self.values@, key@) == Some(s@),
                None => first_of_key(self.values@, key@) is None,
            },
    {
        first_value(&self.values, key)
    }

    /// Whether two snapshots say the same.
    pub fn same(&self, other: &SshSnapshot) -> (r: bool)
        ensures
            r == (self.source_host@ == other.source_host@ && same_entries(
                self.values@,
                other.values@,
            ) && same_entries(self.inherited_values@, other.inherited_values@)),
    {
        same_text(&self.source_host, &other.source_host) && self.values.same(&other.values)
            && self.inherited_values.same(&other.inherited_values)
    }
}

pub fn snapshot_file(profile_directory: &str) -> (r: String)
    ensures
        r@ == joined(profile_directory@, "ssh-snapshot.json"@),
{
    join(profile_directory, "ssh-snapshot.json")
}

// ---------------------------------------------------------------------------
// Writing
// ---------------------------------------------------------------------------

pub open spec fn needs_quotes(value: Seq<char>) -> bool {
    exists|i: int|
        0 <= i < value.len() && (is_blank(#[trigger] value[i], true) || value[i] == '"' || value[i]
            == '\\' || value[i] == '#')
}

/// A value between quotes: quotes and backslashes in it are escaped.
pub open spec fn config_escaped(value: Seq<char>) -> Seq<char>
    decreases value.len(),
{
    if value.len() == 0 {
        Seq::empty()
    } else if value.last() == '"' || value.last() == '\\' {
        config_escaped(value.drop_last()).push('\\').push(value.last())
    } else {
        config_escaped(value.drop_last()).push(value.last())
    }
}

/// A value as a configuration file holds it.
pub open spec fn config_word(value: Seq<char>) -> Seq<char> {
    if needs_quotes(value) {
        seq!['"'] + config_escaped(value) + seq!['"']
    } else {
        value
    }
}

/// A value as a configuration file can hold it.
pub open spec fn config_value(value: Seq<char>) -> Result<Seq<char>, Seq<char>> {
    if has_control(value) {
        Err(control_refusal())
    } else {
        Ok(config_word(value))
    }
}

pub fn quote_value(value: &str) -> (r: Result<String, Failure>)
    ensures
        outcome(r) == config_value(value@),
{
    match reject_newline(value) {
        Ok(_) => {},
        Err(e) => return Err(e),
    }
    let chars = chars_of(value);
    let mut plain = true;
    let mut body = String::new();
    let mut i: usize = 0;
    assert(value@.take(0) =~= Seq::empty());
    while i < chars.len()
        invariant
            i <= chars.len(),
            chars@ == value@,
            plain == !needs_quotes(value@.take(i as int)),
            body@ == config_escaped(value@.take(i as int)),
        decreases chars.len() - i,
    {
        let c: char = chars[i];
        let ghost head = value@.take(i as int);
        let ghost more = value@.take(i as int + 1);
        assert(more.drop_last() =~= head);
        assert(more.last() == c);
        proof {
            assert forall|j: int| 0 <= j < head.len() implies head[j] == more[j] by {}
            if needs_quotes(head) {
                let j = choose|j: int|
                    0 <= j < head.len() && (is_blank(#[trigger] head[j], true) || head[j] == '"'
                        || head[j] == '\\' || head[j] == '#');
                assert(more[j] == head[j]);
                assert(needs_quotes(more));
            }
            if needs_quotes(more) {
                let j = choose|j: int|
                    0 <= j < more.len() && (is_blank(#[trigger] more[j], true) || more[j] == '"'
                        || more[j] == '\\' || more[j] == '#');
                if j < head.len() {
                    assert(head[j] == more[j]);
                    assert(needs_quotes(head));
                } else {
                    assert(more[j] == c);
                }
            }
        }
        if blank(c, true) || c == '"' || c == '\\' || c == '#' {
            plain = false;
            assert(needs_quotes(more)) by {
                assert(more[i as int] == c);
            }
        }
        if c == '"' || c == '\\' {
            body.push('\\');
        }
        body.push(c);
        i = i + 1;
    }
    assert(value@.take(i as int) =~= value@);
    if plain {
        return Ok(value.to_owned());
    }
    let mut r = String::new();
    r.push('"');
    r.push_str(&body);
    r.push('"');
    assert(r@ =~= config_word(value@));
    Ok(r)
}

/// The options that the generated block repeats, in order.
pub open spec fn repeated_options() -> Seq<Seq<char>> {
    seq![
        "addressfamily"@,
        "bindaddress"@,
        "canonicalizehostname"@,
        "compression"@,
        "connectionattempts"@,
        "connecttimeout"@,
        "controlmaster"@,
        "controlpath"@,
        "controlpersist"@,
        "forwardagent"@,
        "hostkeyalias"@,
        "identitiesonly"@,
        "identityagent"@,
        "ipqos"@,
        "proxyjump"@,
        "serveralivecountmax"@,
        "serveraliveinterval"@,
        "stricthostkeychecking"@,
        "userknownhostsfile"@,
        "identityfile"@,
    ]
}

fn repeated_option_list() -> (r: Vec<&'static str>)
    ensures
        slices(r@) == repeated_options(),
{
    let r: Vec<&'static str> = vec![
        "addressfamily",
        "bindaddress",
        "canonicalizehostname",
        "compression",
        "connectionattempts",
        "connecttimeout",
        "controlmaster",
        "controlpath",
        "controlpersist",
        "forwardagent",
        "hostkeyalias",
        "identitiesonly",
        "identityagent",
        "ipqos",
        "proxyjump",
        "serveralivecountmax",
        "serveraliveinterval",
        "stricthostkeychecking",
        "userknownhostsfile",
        "identityfile",
    ];
    assert(slices(r@) =~= repeated_options());
    r
}

/// An option as configuration files spell it.
pub open spec fn directive_of(key: Seq<char>) -> Seq<char> {
    if key == "addressfamily"@ {
        "AddressFamily"@
    } else if key == "bindaddress"@ {
        "BindAddress"@
    } else if key == "canonicalizehostname"@ {
        "CanonicalizeHostname"@
    } else if key == "compression"@ {
        "Compression"@
    } else if key == "connectionattempts"@ {
        "ConnectionAttempts"@
    } else if key == "connecttimeout"@ {
        "ConnectTimeout"@
    } else if key == "controlmaster"@ {
        "ControlMaster"@
    } else if key == "controlpath"@ {
        "ControlPath"@
    } else if key == "controlpersist"@ {
        "ControlPersist"@
    } else if key == "forwardagent"@ {
        "ForwardAgent"@
    } else if key == "hostkeyalias"@ {
        "HostKeyAlias"@
    } else if key == "identitiesonly"@ {
        "IdentitiesOnly"@
    } else if key == "identityagent"@ {
        "IdentityAgent"@
    } else if key == "ipqos"@ {
        "IPQoS"@
    } else if key == "proxyjump"@ {
        "ProxyJump"@
    } else if key == "serveralivecountmax"@ {
        "ServerAliveCountMax"@
    } else if key == "serveraliveinterval"@ {
        "ServerAliveInterval"@
    } else if key == "stricthostkeychecking"@ {
        "StrictHostKeyChecking"@
    } else if key == "userknownhostsfile"@ {
        "UserKnownHostsFile"@
    } else if key == "identityfile"@ {
        "IdentityFile"@
    } else {
        Seq::empty()
    }
}

pub fn directive_name(key: &str) -> (r: &'static str)
    requires
        repeated_options().contains(key@),
    ensures
        r@ == directive_of(key@),
{
    proof {
        let i = choose|i: int| 0 <= i < repeated_options().len() && repeated_options()[i] == key@;
        assert(repeated_options()[i] == key@);
    }
    if same_text(key, "addressfamily") {
        "AddressFamily"
    } else if same_text(key, "bindaddress") {
        "BindAddress"
    } else if same_text(key, "canonicalizehostname") {
        "CanonicalizeHostname"
    } else if same_text(key, "compression") {
        "Compression"
    } else if same_text(key, "connectionattempts") {
        "ConnectionAttempts"
    } else if same_text(key, "connecttimeout") {
        "ConnectTimeout"
    } else if same_text(key, "controlmaster") {
        "ControlMaster"
    } else if same_text(key, "controlpath") {
        "ControlPath"
    } else if same_text(key, "controlpersist") {
        "ControlPersist"
    } else if same_text(key, "forwardagent") {
        "ForwardAgent"
    } else if same_text(key, "hostkeyalias") {
        "HostKeyAlias"
    } else if same_text(key, "identitiesonly") {
        "IdentitiesOnly"
    } else if same_text(key, "identityagent") {
        "IdentityAgent"
    } else if same_text(key, "ipqos") {
        "IPQoS"
    } else if same_text(key, "proxyjump") {
        "ProxyJump"
    } else if same_text(key, "serveralivecountmax") {
        "ServerAliveCountMax"
    } else if same_text(key, "serveraliveinterval") {
        "ServerAliveInterval"
    } else if same_text(key, "stricthostkeychecking") {
        "StrictHostKeyChecking"
    } else if same_text(key, "userknownhostsfile") {
        "UserKnownHostsFile"
    } else if same_text(key, "identityfile") {
        "IdentityFile"
    } else {
        assert(false);
        ""
    }
}

/// The values of an option that the block repeats: those that the alias does
/// not inherit anyway. Of identity files, which add up, each counts by itself.
pub open spec fn own_values(
    key: Seq<char>,
    list: Seq<Seq<char>>,
    inherited: Option<Seq<Seq<char>>>,
) -> Seq<Seq<char>> {
    if inherited == Some(list) {
        Seq::empty()
    } else if key == "identityfile"@ {
        match inherited {
            Some(items) => list.filter(|value: Seq<char>| !items.contains(value)),
            None => list,
        }
    } else {
        list
    }
}

/// Options whose values are lists of arguments already.
pub open spec fn is_argument_list(key: Seq<char>) -> bool {
    key == "ipqos"@ || key == "userknownhostsfile"@
}

/// Options for which `none` says nothing.
pub open spec fn may_be_none(key: Seq<char>) -> bool {
    key == "identityfile"@ || key == "proxyjump"@
}

/// One line of the block; nothing where the value says nothing.
pub open spec fn option_line(key: Seq<char>, value: Seq<char>) -> Result<Seq<char>, Seq<char>> {
    if value == "none"@ && may_be_none(key) {
        Ok(Seq::empty())
    } else if has_control(value) {
        Err(control_refusal())
    } else {
        Ok(
            "  "@ + directive_of(key) + " "@ + (if is_argument_list(key) {
                value
            } else {
                config_word(value)
            }) + "\n"@,
        )
    }
}

/// `text` and then `more`, unless either is refused.
pub open spec fn then_text(
    text: Result<Seq<char>, Seq<char>>,
    more: Result<Seq<char>, Seq<char>>,
) -> Result<Seq<char>, Seq<char>> {
    match (text, more) {
        (Ok(a), Ok(b)) => Ok(a + b),
        (Ok(_), Err(e)) => Err(e),
        (Err(e), _) => Err(e),
    }
}

/// The lines of the first `n` of these values, after `text`.
pub open spec fn option_lines(
    text: Result<Seq<char>, Seq<char>>,
    key: Seq<char>,
    list: Seq<Seq<char>>,
    n: nat,
) -> Result<Seq<char>, Seq<char>>
    decreases n,
{
    if n == 0 {
        text
    } else {
        then_text(option_lines(text, key, list, (n - 1) as nat), option_line(key, list[n - 1]))
    }
}

/// The lines of one option, after `text`.
pub open spec fn with_option(
    text: Result<Seq<char>, Seq<char>>,
    values: Seq<(Seq<char>, Seq<Seq<char>>)>,
    inherited: Seq<(Seq<char>, Seq<Seq<char>>)>,
    key: Seq<char>,
) -> Result<Seq<char>, Seq<char>> {
    match value_of(values, key) {
        Some(list) => {
            let own = own_values(key, list, value_of(inherited, key));
            option_lines(text, key, own, own.len())
        },
        None => text,
    }
}

/// The lines of the first `n` of these options, after `text`.
pub open spec fn with_options(
    text: Result<Seq<char>, Seq<char>>,
    values: Seq<(Seq<char>, Seq<Seq<char>>)>,
    inherited: Seq<(Seq<char>, Seq<Seq<char>>)>,
    keys: Seq<Seq<char>>,
    n: nat,
) -> Result<Seq<char>, Seq<char>>
    decreases n,
{
    if n == 0 {
        text
    } else {
        with_option(
            with_options(text, values, inherited, keys, (n - 1) as nat),
            values,
            inherited,
            keys[n - 1],
        )
    }
}

proof fn lemma_option_lines_refused(
    text: Result<Seq<char>, Seq<char>>,
    key: Seq<char>,
    list: Seq<Seq<char>>,
    n: nat,
    m: nat,
)
    requires
        n <= m,
        option_lines(text, key, list, n) is Err,
    ensures
        option_lines(text, key, list, m) == option_lines(text, key, list, n),
    decreases m,
{
    if n < m {
        lemma_option_lines_refused(text, key, list, n, (m - 1) as nat);
    }
}

proof fn lemma_with_options_refused(
    text: Result<Seq<char>, Seq<char>>,
    values: Seq<(Seq<char>, Seq<Seq<char>>)>,
    inherited: Seq<(Seq<char>, Seq<Seq<char>>)>,
    keys: Seq<Seq<char>>,
    n: nat,
    m: nat,
)
    requires
        n <= m,
        with_options(text, values, inherited, keys, n) is Err,
    ensures
        with_options(text, values, inherited, keys, m) == with_options(
            text,
            values,
            inherited,
            keys,
            n,
        ),
    decreases m,
{
    if n < m {
        lemma_with_options_refused(text, values, inherited, keys, n, (m - 1) as nat);
        let before = with_options(text, values, inherited, keys, (m - 1) as nat);
        match value_of(values, keys[m - 1]) {
            Some(list) => {
                let own = own_values(keys[m - 1], list, value_of(inherited, keys[m - 1]));
                lemma_option_lines_refused(before, keys[m - 1], own, 0, own.len());
            },
            None => {},
        }
    }
}

fn own_value_list(key: &str, list: &Vec<String>, inherited: Option<&Vec<String>>) -> (r: Vec<String>)
    ensures
        texts(r@) == own_values(
            key@,
            texts(list@),
            match inherited {
                Some(items) => Some(texts(items@)),
                None => None,
            },
        ),
{
    broadcast use lemma_texts_push;

    let mut r: Vec<String> = Vec::new();
    assert(texts(r@) =~= Seq::empty());
    let items = match inherited {
        Some(items) => items,
        None => return copy_texts(list),
    };
    if same_texts(items, list) {
        return r;
    }
    if !same_text(key, "identityfile") {
        return copy_texts(list);
    }
    let ghost all = texts(list@);
    let ghost known = texts(items@);
    let ghost keep = |value: Seq<char>| !known.contains(value);
    let mut i: usize = 0;
    assert(all.take(0) =~= Seq::empty());
    assert(all.take(0).filter(keep) =~= Seq::empty()) by {
        reveal(Seq::filter);
    }
    while i < list.len()
        invariant
            i <= list.len(),
            all == texts(list@),
            known == texts(items@),
            keep == (|value: Seq<char>| !known.contains(value)),
            texts(r@) == all.take(i as int).filter(keep),
        decreases list.len() - i,
    {
        let ghost value = list@[i as int]@;
        proof {
            assert(all.take(i as int + 1) =~= all.take(i as int).push(value));
            all.take(i as int).lemma_filter_push(value, keep);
        }
        if !has_text(items, &list[i]) {
            r.push(list[i].clone());
        }
        i = i + 1;
    }
    assert(all.take(i as int) =~= all);
    r
}

/// Adds the lines of one option to the block.
fn append_source_values(output: &mut String, snapshot: &SshSnapshot, key: &str) -> (r: Result<
    (),
    Failure,
>)
    requires
        repeated_options().contains(key@),
    ensures
        match r {
            Ok(_) => with_option(
                Ok(old(output)@),
                snapshot.values@,
                snapshot.inherited_values@,
                key@,
            ) == Ok::<Seq<char>, Seq<char>>(final(output)@),
            Err(e) => with_option(
                Ok(old(output)@),
                snapshot.values@,
                snapshot.inherited_values@,
                key@,
            ) == Err::<Seq<char>, Seq<char>>(e@),
        },
{
    let list = match snapshot.values.get(key) {
        Some(list) => list,
        None => return Ok(()),
    };
    let own = own_value_list(key, list, snapshot.inherited_values.get(key));
    let directive = directive_name(key);
    let ghost start: Result<Seq<char>, Seq<char>> = Ok(output@);
    let ghost all = texts(own@);
    let mut i: usize = 0;
    assert(all.len() == own@.len());
    while i < own.len()
        invariant
            i <= own.len(),
            all == texts(own@),
            all.len() == own@.len(),
            directive@ == directive_of(key@),
            option_lines(start, key@, all, i as nat) == Ok::<Seq<char>, Seq<char>>(output@),
            start == Ok::<Seq<char>, Seq<char>>(old(output)@),
            with_option(
                Ok(old(output)@),
                snapshot.values@,
                snapshot.inherited_values@,
                key@,
            ) == option_lines(start, key@, all, all.len()),
        decreases own.len() - i,
    {
        let value = own[i].as_str();
        let ghost before = output@;
        assert(all[i as int] == value@);
        i = i + 1;
        if same_text(value, "none") && (same_text(key, "identityfile") || same_text(
            key,
            "proxyjump",
        )) {
            assert(before + Seq::<char>::empty() =~= before);
            continue;
        }
        let word = if same_text(key, "ipqos") || same_text(key, "userknownhostsfile") {
            match reject_newline(value) {
                Ok(_) => value.to_owned(),
                Err(e) => {
                    proof {
                        lemma_option_lines_refused(start, key@, all, i as nat, all.len());
                    }
                    return Err(e);
                },
            }
        } else {
            match quote_value(value) {
                Ok(word) => word,
                Err(e) => {
                    proof {
                        lemma_option_lines_refused(start, key@, all, i as nat, all.len());
                    }
                    return Err(e);
                },
            }
        };
        let mut line = "  ".to_owned();
        line.push_str(directive);
        line.push_str(" ");
        line.push_str(&word);
        line.push_str("\n");
        output.push_str(&line);
    }
    Ok(())
}

/// The head of the block: who it is for, and how to connect.
pub open spec fn block_head(
    profile: ProfileView,
    hostname: Seq<char>,
    user: Seq<char>,
    port: Seq<char>,
) -> Result<Seq<char>, Seq<char>> {
    if has_control(hostname) || has_control(user) || has_control(port) {
        Err(control_refusal())
    } else {
        Ok(
            "# profile="@ + profile.name + " source="@ + profile.source_host + " status="@
                + profile.status.name() + "\nHost "@ + profile.app_alias + "\n  HostName "@
                + config_word(hostname) + "\n  User "@ + config_word(user) + "\n  Port "@
                + config_word(port) + "\n"@,
        )
    }
}

/// The proxy command of the source, word for word.
pub open spec fn proxy_line(command: Option<Seq<char>>) -> Result<Seq<char>, Seq<char>> {
    match command {
        Some(command) => if command == "none"@ {
            Ok(Seq::empty())
        } else if has_control(command) {
            Err(control_refusal())
        } else {
            Ok("  ProxyCommand "@ + command + "\n"@)
        },
        None => Ok(Seq::empty()),
    }
}

/// The host block of a profile.
pub open spec fn host_block(
    profile: ProfileView,
    source_host: Seq<char>,
    values: Seq<(Seq<char>, Seq<Seq<char>>)>,
    inherited: Seq<(Seq<char>, Seq<Seq<char>>)>,
) -> Result<Seq<char>, Seq<char>> {
    if profile.source_host != source_host {
        Err("profile source host does not match its SSH snapshot"@)
    } else {
        match (
            first_of_key(values, "hostname"@),
            first_of_key(values, "user"@),
            first_of_key(values, "port"@),
        ) {
            (None, _, _) => Err("SSH snapshot has no hostname"@),
            (Some(_), None, _) => Err("SSH snapshot has no user"@),
            (Some(_), Some(_), None) => Err("SSH snapshot has no port"@),
            (Some(hostname), Some(user), Some(port)) => then_text(
                then_text(
                    with_options(
                        block_head(profile, hostname, user, port),
                        values,
                        inherited,
                        repeated_options(),
                        repeated_options().len(),
                    ),
                    proxy_line(first_of_key(values, "proxycommand"@)),
                ),
                Ok("  RequestTTY no\n"@),
            ),
        }
    }
}

fn render_head(profile: &Profile, hostname: &str, user: &str, port: &str) -> (r: Result<
    String,
    Failure,
>)
    ensures
        outcome(r) == block_head(profile@, hostname@, user@, port@),
{
    let hostname = match quote_value(hostname) {
        Ok(word) => word,
        Err(e) => return Err(e),
    };
    let user = match quote_value(user) {
        Ok(word) => word,
        Err(e) => return Err(e),
    };
    let port = match quote_value(port) {
        Ok(word) => word,
        Err(e) => return Err(e),
    };
    let mut output = "# profile=".to_owned();
    output.push_str(&profile.name);
    output.push_str(" source=");
    output.push_str(&profile.source_host);
    output.push_str(" status=");
    output.push_str(profile.status.label());
    output.push_str("\nHost ");
    output.push_str(&profile.app_alias);
    output.push_str("\n  HostName ");
    output.push_str(&hostname);
    output.push_str("\n  User ");
    output.push_str(&user);
    output.push_str("\n  Port ");
    output.push_str(&port);
    output.push_str("\n");
    Ok(output)
}

/// Writes the host block of a profile.
pub fn render_host(profile: &Profile, snapshot: &SshSnapshot) -> (r: Result<String, Failure>)
    ensures
        outcome(r) == host_block(
            profile@,
            snapshot.source_host@,
            snapshot.values@,
            snapshot.inherited_values@,
        ),
{
    if !same_text(&profile.source_host, &snapshot.source_host) {
        return Err(refuse("profile source host does not match its SSH snapshot"));
    }
    let hostname = match snapshot.value("hostname") {
        Some(hostname) => hostname,
        None => return Err(refuse("SSH snapshot has no hostname")),
    };
    let user = match snapshot.value("user") {
        Some(user) => user,
        None => return Err(refuse("SSH snapshot has no user")),
    };
    let port = match snapshot.value("port") {
        Some(port) => port,
        None => return Err(refuse("SSH snapshot has no port")),
    };
    let ghost keys = repeated_options();
    let ghost head = block_head(profile@, hostname@, user@, port@);
    let ghost values = snapshot.values@;
    let ghost inherited = snapshot.inherited_values@;
    let options = repeated_option_list();
    assert(options@.len() == keys.len()) by {
        assert(slices(options@).len() == options@.len());
    }
    let mut output = match render_head(profile, hostname, user, port) {
        Ok(output) => output,
        Err(e) => {
            proof {
                lemma_with_options_refused(head, values, inherited, keys, 0, keys.len());
            }
            return Err(e);
        },
    };
    let mut i: usize = 0;
    while i < options.len()
        invariant
            i <= options.len(),
            keys == repeated_options(),
            slices(options@) == keys,
            options@.len() == keys.len(),
            values == snapshot.values@,
            inherited == snapshot.inherited_values@,
            with_options(head, values, inherited, keys, i as nat) == Ok::<Seq<char>, Seq<char>>(
                output@,
            ),
            host_block(profile@, snapshot.source_host@, values, inherited) == then_text(
                then_text(
                    with_options(head, values, inherited, keys, keys.len()),
                    proxy_line(first_of_key(values, "proxycommand"@)),
                ),
                Ok("  RequestTTY no\n"@),
            ),
        decreases options.len() - i,
    {
        assert(slices(options@)[i as int] == options@[i as int]@);
        let ghost key = keys[i as int];
        assert(repeated_options().contains(key));
        match append_source_values(&mut output, snapshot, options[i]) {
            Ok(_) => {},
            Err(e) => {
                proof {
                    lemma_with_options_refused(
                        head,
                        values,
                        inherited,
                        keys,
                        i as nat + 1,
                        keys.len(),
                    );
                }
                return Err(e);
            },
        }
        i = i + 1;
    }
    let ghost before = output@;
    match snapshot.value("proxycommand") {
        Some(command) => if !same_text(command, "none") {
            match reject_newline(command) {
                Ok(_) => {},
                Err(e) => return Err(e),
            }
            let mut line = "  ProxyCommand ".to_owned();
            line.push_str(command);
            line.push_str("\n");
            output.push_str(&line);
        } else {
            assert(before + Seq::<char>::empty() =~= before);
        },
        None => {
            assert(before + Seq::<char>::empty() =~= before);
        },
    }
    output.push_str("  RequestTTY no\n");
    Ok(output)
}

/// The blocks of the first `n` profiles, after `text`, a blank line behind
/// each.
pub open spec fn host_blocks(
    text: Seq<char>,
    profiles: Seq<(Profile, SshSnapshot)>,
    n: nat,
) -> Result<Seq<char>, Seq<char>>
    decreases n,
{
    if n == 0 {
        Ok(text)
    } else {
        let profile = profiles[n - 1].0;
        let snapshot = profiles[n - 1].1;
        then_text(
            then_text(
                host_blocks(text, profiles, (n - 1) as nat),
                host_block(
                    profile@,
                    snapshot.source_host@,
                    snapshot.values@,
                    snapshot.inherited_values@,
                ),
            ),
            Ok("\n"@),
        )
    }
}

/// The managed configuration file.
pub open spec fn managed_config(profiles: Seq<(Profile, SshSnapshot)>) -> Result<
    Seq<char>,
    Seq<char>,
> {
    host_blocks(
        "# Managed by Codex Shuttle. Manual edits will be replaced.\n\n"@,
        profiles,
        profiles.len(),
    )
}

proof fn lemma_host_blocks_refused(
    text: Seq<char>,
    profiles: Seq<(Profile, SshSnapshot)>,
    n: nat,
    m: nat,
)
    requires
        n <= m,
        host_blocks(text, profiles, n) is Err,
    ensures
        host_blocks(text, profiles, m) == host_blocks(text, profiles, n),
    decreases m,
{
    if n < m {
        lemma_host_blocks_refused(text, profiles, n, (m - 1) as nat);
    }
}

/// Writes the managed configuration file.
pub fn rewrite_managed_config(profiles: &Vec<(Profile, SshSnapshot)>) -> (r: Result<
    String,
    Failure,
>)
    ensures
        outcome(r) == managed_config(profiles@),
{
    let mut output = "# Managed by Codex Shuttle. Manual edits will be replaced.\n\n".to_owned();
    let ghost head = output@;
    let mut i: usize = 0;
    while i < profiles.len()
        invariant
            i <= profiles.len(),
            head == "# Managed by Codex Shuttle. Manual edits will be replaced.\n\n"@,
            host_blocks(head, profiles@, i as nat) == Ok::<Seq<char>, Seq<char>>(output@),
        decreases profiles.len() - i,
    {
        match render_host(&profiles[i].0, &profiles[i].1) {
            Ok(block) => {
                output.push_str(&block);
                output.push_str("\n");
            },
            Err(e) => {
                proof {
                    lemma_host_blocks_refused(head, profiles@, i as nat + 1, profiles@.len());
                }
                return Err(e);
            },
        }
        i = i + 1;
    }
    Ok(output)
}

/// Whether a configuration file already names the managed one.
pub open spec fn names_managed_config(text: Seq<char>) -> bool {
    exists|i: int| 0 <= i < lines(text).len() && trim(#[trigger] lines(text)[i]) == INCLUDE_LINE@
}

/// A configuration file that names the managed one before all else.
pub open spec fn with_managed_config(text: Seq<char>) -> Seq<char> {
    INCLUDE_LINE@ + "\n\n"@ + text
}

/// The user's configuration file as it has to be: nothing where it need not
/// change.
pub fn ensure_managed_include(existing: &str) -> (r: Option<String>)
    ensures
        match r {
            None => names_managed_config(existing@),
            Some(updated) => !names_managed_config(existing@) && updated@ == with_managed_config(
                existing@,
            ),
        },
{
    let found = split_lines(existing);
    let ghost all = lines(existing@);
    let mut i: usize = 0;
    assert(all.len() == found@.len());
    while i < found.len()
        invariant
            i <= found.len(),
            all == texts(found@),
            all == lines(existing@),
            all.len() == found@.len(),
            forall|j: int| 0 <= j < i ==> trim(#[trigger] all[j]) != INCLUDE_LINE@,
        decreases found.len() - i,
    {
        assert(all[i as int] == found@[i as int]@);
        if same_text(&trimmed(&found[i]), INCLUDE_LINE) {
            assert(trim(lines(existing@)[i as int]) == INCLUDE_LINE@);
            return None;
        }
        i = i + 1;
    }
    let mut updated = INCLUDE_LINE.to_owned();
    updated.push_str("\n\n");
    updated.push_str(existing);
    Some(updated)
}

// ---------------------------------------------------------------------------
// The remote host
// ---------------------------------------------------------------------------

/// The command by which a host tells about itself.
pub const FACTS_COMMAND: &'static str = "printf 'home=%s\\n' \"$HOME\"; printf 'kernel=%s\\n' \"$(uname -s)\"; printf 'arch=%s\\n' \"$(uname -m)\"";

/// What the first `n` lines say, a name and a value each; the last word counts.
pub open spec fn stated_facts(all: Seq<Seq<char>>, n: nat) -> Seq<(Seq<char>, Seq<char>)>
    decreases n,
{
    if n == 0 {
        Seq::empty()
    } else {
        let before = stated_facts(all, (n - 1) as nat);
        match split_once(all[n - 1], |c: char| c == '=') {
            Some((key, value)) => with_entry(before, key, value),
            None => before,
        }
    }
}

pub open spec fn facts_in(output: Seq<u8>) -> Result<(Seq<char>, Seq<char>, Seq<char>), Seq<char>> {
    if !valid_utf8(output) {
        Err("remote prerequisite query returned non-UTF-8 output"@)
    } else {
        let all = lines(decode_utf8(output));
        let stated = stated_facts(all, all.len());
        match (
            value_of(stated, "home"@),
            value_of(stated, "kernel"@),
            value_of(stated, "arch"@),
        ) {
            (None, _, _) => Err("remote query did not return HOME"@),
            (Some(_), None, _) => Err("remote query did not return uname -s"@),
            (Some(_), Some(_), None) => Err("remote query did not return uname -m"@),
            (Some(home), Some(kernel), Some(arch)) => Ok((home, kernel, arch)),
        }
    }
}

/// Reads what a host says of itself.
pub fn remote_facts(output: &[u8]) -> (r: Result<RemoteFacts, Failure>)
    ensures
        match r {
            Ok(facts) => facts_in(output@) == Ok::<_, Seq<char>>(
                (facts.home@, facts.kernel@, facts.arch@),
            ),
            Err(e) => facts_in(output@) == Err::<(Seq<char>, Seq<char>, Seq<char>), _>(e@),
        },
{
    let text = match text_of_utf8(vstd::slice::slice_to_vec(output)) {
        Some(text) => text,
        None => return Err(refuse("remote prerequisite query returned non-UTF-8 output")),
    };
    proof {
        encode_utf8_valid_utf8(text@);
        encode_utf8_decode_utf8(text@);
    }
    let found = split_lines(&text);
    let ghost all = lines(text@);
    let mut stated = TextMap::new();
    let mut i: usize = 0;
    assert(all.len() == found@.len());
    while i < found.len()
        invariant
            i <= found.len(),
            all == texts(found@),
            all.len() == found@.len(),
            stated@ == stated_facts(all, i as nat),
        decreases found.len() - i,
    {
        assert(all[i as int] == found@[i as int]@);
        match split_at_char(&found[i], '=') {
            Some((key, value)) => stated.set(key, value),
            None => {},
        }
        i = i + 1;
    }
    let home = match stated.get("home") {
        Some(home) => home.to_owned(),
        None => return Err(refuse("remote query did not return HOME")),
    };
    let kernel = match stated.get("kernel") {
        Some(kernel) => kernel.to_owned(),
        None => return Err(refuse("remote query did not return uname -s")),
    };
    let arch = match stated.get("arch") {
        Some(arch) => arch.to_owned(),
        None => return Err(refuse("remote query did not return uname -m")),
    };
    Ok(RemoteFacts { home, kernel, arch })
}

// ---------------------------------------------------------------------------
// Laws
// ---------------------------------------------------------------------------

/// What the alias inherits is not repeated.
pub proof fn law_inherited_options_are_omitted(
    text: Result<Seq<char>, Seq<char>>,
    values: Seq<(Seq<char>, Seq<Seq<char>>)>,
    inherited: Seq<(Seq<char>, Seq<Seq<char>>)>,
    key: Seq<char>,
)
    requires
        value_of(values, key) == value_of(inherited, key),
    ensures
        with_option(text, values, inherited, key) == text,
{
}

/// No identity file that the alias inherits is repeated.
pub proof fn law_inherited_identity_files_are_omitted(
    list: Seq<Seq<char>>,
    inherited: Seq<Seq<char>>,
    value: Seq<char>,
)
    requires
        inherited.contains(value),
    ensures
        !own_values("identityfile"@, list, Some(inherited)).contains(value),
{
    let keep = |v: Seq<char>| !inherited.contains(v);
    if own_values("identityfile"@, list, Some(inherited)).contains(value) {
        broadcast use vstd::seq_lib::group_filter_ensures;

        let kept = list.filter(keep);
        let i = choose|i: int| 0 <= i < kept.len() && kept[i] == value;
        assert(keep(kept[i]));
    }
}

/// The word at the start of a line of a configuration file, up to a blank or
/// the end, or between double quotes with their escapes undone.
pub open spec fn read_config_word(s: Seq<char>) -> Option<Seq<char>> {
    if s.len() > 0 && s[0] == '"' {
        read_between_quotes(s.skip(1))
    } else {
        Some(s.take(run(s, |c: char| is_blank(c, true)) as int))
    }
}

pub open spec fn read_between_quotes(s: Seq<char>) -> Option<Seq<char>>
    decreases s.len(),
{
    if s.len() == 0 {
        None
    } else if s[0] == '"' {
        Some(Seq::empty())
    } else if s[0] == '\\' && s.len() > 1 && (s[1] == '"' || s[1] == '\\') {
        match read_between_quotes(s.skip(2)) {
            Some(rest) => Some(seq![s[1]] + rest),
            None => None,
        }
    } else {
        match read_between_quotes(s.skip(1)) {
            Some(rest) => Some(seq![s[0]] + rest),
            None => None,
        }
    }
}

/// Escaping goes character by character.
proof fn lemma_config_escaped_first(value: Seq<char>)
    requires
        value.len() > 0,
    ensures
        config_escaped(value) == (if value[0] == '"' || value[0] == '\\' {
            seq!['\\', value[0]]
        } else {
            seq![value[0]]
        }) + config_escaped(value.skip(1)),
    decreases value.len(),
{
    let first = if value[0] == '"' || value[0] == '\\' {
        seq!['\\', value[0]]
    } else {
        seq![value[0]]
    };
    if value.len() == 1 {
        assert(value.drop_last() =~= Seq::empty());
        assert(value.skip(1) =~= Seq::empty());
        assert(config_escaped(value.drop_last()) =~= Seq::empty());
        assert(config_escaped(value) =~= first + config_escaped(value.skip(1)));
    } else {
        lemma_config_escaped_first(value.drop_last());
        assert(value.drop_last().skip(1) =~= value.skip(1).drop_last());
        assert(value.skip(1).last() == value.last());
        assert(value.drop_last()[0] == value[0]);
        assert(config_escaped(value) =~= first + config_escaped(value.skip(1)));
    }
}

proof fn lemma_quotes_read_back(value: Seq<char>)
    ensures
        read_between_quotes(config_escaped(value) + seq!['"']) == Some(value),
    decreases value.len(),
{
    let s = config_escaped(value) + seq!['"'];
    if value.len() == 0 {
        assert(s =~= seq!['"']);
        assert(value =~= Seq::empty());
    } else {
        lemma_config_escaped_first(value);
        let rest = config_escaped(value.skip(1)) + seq!['"'];
        lemma_quotes_read_back(value.skip(1));
        assert(seq![value[0]] + value.skip(1) =~= value);
        if value[0] == '"' || value[0] == '\\' {
            assert(s[0] == '\\' && s[1] == value[0]);
            assert(s.skip(2) =~= rest);
        } else {
            assert(s[0] == value[0]);
            assert(s.skip(1) =~= rest);
        }
    }
}

/// A value that was written is read back, whatever it holds.
pub proof fn law_config_words_read_back(value: Seq<char>)
    ensures
        read_config_word(config_word(value)) == Some(value),
{
    if needs_quotes(value) {
        let s = config_word(value);
        assert(s[0] == '"');
        assert(s.skip(1) =~= config_escaped(value) + seq!['"']);
        lemma_quotes_read_back(value);
    } else {
        assert forall|i: int| 0 <= i < value.len() implies !is_blank(#[trigger] value[i], true)
            && value[i] != '"' by {
            if is_blank(value[i], true) || value[i] == '"' {
                assert(needs_quotes(value));
            }
        }
        lemma_run(value, |c: char| is_blank(c, true), value.len());
        assert(value.take(value.len() as int) =~= value);
    }
}

/// A configuration file that names the managed one need not change again.
pub proof fn law_managed_config_is_named_once(text: Seq<char>)
    ensures
        names_managed_config(with_managed_config(text)),
{
    reveal_strlit("Include ~/.ssh/codex-shuttle.conf");
    reveal_strlit("\n\n");
    let line = INCLUDE_LINE@;
    let whole = with_managed_config(text);
    assert(line.len() == 33);
    assert(forall|i: int| 0 <= i < line.len() ==> #[trigger] line[i] != '\n');
    assert forall|i: int| 0 <= i < line.len() implies #[trigger] whole[i] != '\n' by {
        assert(whole[i] == line[i]);
    }
    assert(whole[33] == '\n');
    lemma_run(whole, |c: char| c == '\n', 33);
    assert(whole.take(33) =~= line);
    assert(line.last() == 'f');
    assert(strip_return(line) == line);
    assert(lines(whole)[0] == line);
    assert(line[0] == 'I');
    lemma_run(line, |c: char| !is_white(c), 0);
    assert(line.skip(0) =~= line);
    assert(trim(line) == line);
}

} // verus!
