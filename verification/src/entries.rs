//! Small maps from text to text that keep the order in which their keys came.

use vstd::prelude::*;
use vstd::string::*;
use vstd::utf8::*;
use crate::text::same_text;

verus! {

pub struct TextMap {
    pub entries: Vec<(String, String)>,
}

impl View for TextMap {
    type V = Seq<(Seq<char>, Seq<char>)>;

    open spec fn view(&self) -> Seq<(Seq<char>, Seq<char>)> {
        self.entries@.map_values(|e: (String, String)| (e.0@, e.1@))
    }
}

/// Where the first entry with this key stands (behind all entries where there
/// is none).
pub open spec fn key_index<V>(entries: Seq<(Seq<char>, V)>, key: Seq<char>) -> nat
    decreases entries.len(),
{
    if entries.len() == 0 || entries[0].0 == key {
        0
    } else {
        1 + key_index(entries.skip(1), key)
    }
}

pub open spec fn has_key<V>(entries: Seq<(Seq<char>, V)>, key: Seq<char>) -> bool {
    key_index(entries, key) < entries.len()
}

pub open spec fn value_of<V>(entries: Seq<(Seq<char>, V)>, key: Seq<char>) -> Option<V> {
    if has_key(entries, key) {
        Some(entries[key_index(entries, key) as int].1)
    } else {
        None
    }
}

/// The entries with `value` under `key`.
pub open spec fn with_entry<V>(entries: Seq<(Seq<char>, V)>, key: Seq<char>, value: V) -> Seq<
    (Seq<char>, V),
> {
    if has_key(entries, key) {
        entries.update(key_index(entries, key) as int, (key, value))
    } else {
        entries.push((key, value))
    }
}

/// The entries without the one under `key`.
pub open spec fn without_entry<V>(entries: Seq<(Seq<char>, V)>, key: Seq<char>) -> Seq<
    (Seq<char>, V),
> {
    if has_key(entries, key) {
        entries.remove(key_index(entries, key) as int)
    } else {
        entries
    }
}

/// How many bytes the values hold together.
pub open spec fn value_bytes(entries: Seq<(Seq<char>, Seq<char>)>) -> nat
    decreases entries.len(),
{
    if entries.len() == 0 {
        0
    } else {
        value_bytes(entries.drop_last()) + encode_utf8(entries.last().1).len()
    }
}

pub proof fn lemma_key_index<V>(entries: Seq<(Seq<char>, V)>, key: Seq<char>, n: nat)
    requires
        n <= entries.len(),
        forall|i: int| 0 <= i < n ==> (#[trigger] entries[i]).0 != key,
        n < entries.len() ==> entries[n as int].0 == key,
    ensures
        key_index(entries, key) == n,
    decreases n,
{
    if n > 0 {
        assert forall|i: int| 0 <= i < n - 1 implies (#[trigger] entries.skip(1)[i]).0 != key by {
            assert(entries.skip(1)[i] == entries[i + 1]);
        }
        lemma_key_index(entries.skip(1), key, (n - 1) as nat);
    }
}

proof fn lemma_value_bytes_push(entries: Seq<(Seq<char>, Seq<char>)>, entry: (Seq<char>, Seq<char>))
    ensures
        value_bytes(entries.push(entry)) == value_bytes(entries) + encode_utf8(entry.1).len(),
{
    assert(entries.push(entry).drop_last() =~= entries);
}

proof fn lemma_value_bytes_take(entries: Seq<(Seq<char>, Seq<char>)>, n: int)
    requires
        0 <= n <= entries.len(),
    ensures
        value_bytes(entries.take(n)) <= value_bytes(entries),
    decreases entries.len(),
{
    if n == entries.len() {
        assert(entries.take(n) =~= entries);
    } else {
        assert(entries.drop_last().take(n) =~= entries.take(n));
        lemma_value_bytes_take(entries.drop_last(), n);
    }
}

proof fn lemma_value_bytes_update(
    entries: Seq<(Seq<char>, Seq<char>)>,
    i: int,
    entry: (Seq<char>, Seq<char>),
)
    requires
        0 <= i < entries.len(),
    ensures
        value_bytes(entries.update(i, entry)) <= value_bytes(entries) + encode_utf8(entry.1).len(),
    decreases entries.len(),
{
    let updated = entries.update(i, entry);
    if i == entries.len() - 1 {
        assert(updated.drop_last() =~= entries.drop_last());
    } else {
        assert(updated.drop_last() =~= entries.drop_last().update(i, entry));
        lemma_value_bytes_update(entries.drop_last(), i, entry);
    }
}

/// Setting an entry adds no more bytes than its value holds.
pub proof fn lemma_value_bytes_with_entry(
    entries: Seq<(Seq<char>, Seq<char>)>,
    key: Seq<char>,
    value: Seq<char>,
)
    ensures
        value_bytes(with_entry(entries, key, value)) <= value_bytes(entries) + encode_utf8(
            value,
        ).len(),
{
    if has_key(entries, key) {
        lemma_value_bytes_update(entries, key_index(entries, key) as int, (key, value));
    } else {
        lemma_value_bytes_push(entries, (key, value));
    }
}

/// Whether no two entries share a key.
pub open spec fn distinct_keys<V>(entries: Seq<(Seq<char>, V)>) -> bool {
    forall|i: int, j: int|
        0 <= i < j < entries.len() ==> (#[trigger] entries[i]).0 != (#[trigger] entries[j]).0
}

/// The key at the place where it is found, and at none before.
pub proof fn lemma_key_found<V>(entries: Seq<(Seq<char>, V)>, key: Seq<char>)
    ensures
        forall|i: int|
            0 <= i < key_index(entries, key) && i < entries.len() ==> (#[trigger] entries[i]).0
                != key,
        has_key(entries, key) ==> entries[key_index(entries, key) as int].0 == key,
    decreases entries.len(),
{
    if entries.len() > 0 && entries[0].0 != key {
        let rest = entries.skip(1);
        lemma_key_found(rest, key);
        assert forall|i: int|
            0 <= i < key_index(entries, key) && i < entries.len() implies (#[trigger] entries[i]).0
            != key by {
            if i > 0 {
                assert(rest[i - 1] == entries[i]);
            }
        }
        if has_key(entries, key) {
            assert(rest[key_index(rest, key) as int] == entries[key_index(entries, key) as int]);
        }
    }
}

/// Setting an entry leaves the keys distinct.
pub proof fn lemma_with_entry_distinct<V>(entries: Seq<(Seq<char>, V)>, key: Seq<char>, value: V)
    requires
        distinct_keys(entries),
    ensures
        distinct_keys(with_entry(entries, key, value)),
{
    lemma_key_found(entries, key);
    let after = with_entry(entries, key, value);
    let at = key_index(entries, key) as int;
    assert forall|i: int, j: int| 0 <= i < j < after.len() implies (#[trigger] after[i]).0 != (
    #[trigger] after[j]).0 by {
        if at < entries.len() {
            assert(after[i].0 == entries[i].0 && after[j].0 == entries[j].0);
        } else if j < entries.len() {
            assert(after[i] == entries[i] && after[j] == entries[j]);
        } else {
            assert(after[i] == entries[i] && after[j] == (key, value));
        }
    }
}

/// Taking an entry leaves the keys distinct, and its own is gone.
pub proof fn lemma_without_entry_distinct<V>(entries: Seq<(Seq<char>, V)>, key: Seq<char>)
    requires
        distinct_keys(entries),
    ensures
        distinct_keys(without_entry(entries, key)),
        !has_key(without_entry(entries, key), key),
{
    lemma_key_found(entries, key);
    let after = without_entry(entries, key);
    let at = key_index(entries, key) as int;
    if at < entries.len() {
        assert forall|i: int, j: int| 0 <= i < j < after.len() implies (#[trigger] after[i]).0 != (
        #[trigger] after[j]).0 by {
            let p = if i < at { i } else { i + 1 };
            let q = if j < at { j } else { j + 1 };
            assert(after[i] == entries[p] && after[j] == entries[q]);
        }
        assert forall|i: int| 0 <= i < after.len() implies (#[trigger] after[i]).0 != key by {
            let p = if i < at { i } else { i + 1 };
            assert(after[i] == entries[p]);
            assert(entries[at].0 == key);
        }
        lemma_key_found(after, key);
    }
}

/// Whether no value holds more than `limit` bytes.
pub open spec fn values_within(entries: Seq<(Seq<char>, Seq<char>)>, limit: nat) -> bool {
    forall|i: int| 0 <= i < entries.len() ==> encode_utf8((#[trigger] entries[i]).1).len() <= limit
}

impl TextMap {
    pub fn new() -> (r: TextMap)
        ensures
            r@ == Seq::<(Seq<char>, Seq<char>)>::empty(),
    {
        let r = TextMap { entries: Vec::new() };
        assert(r@ =~= Seq::empty());
        r
    }

    fn find(&self, key: &str) -> (r: usize)
        ensures
            r == key_index(self@, key@),
            r <= self@.len(),
    {
        let mut i: usize = 0;
        while i < self.entries.len()
            invariant
                i <= self.entries.len(),
                self@.len() == self.entries.len(),
                forall|j: int| 0 <= j < i ==> (#[trigger] self@[j]).0 != key@,
            decreases self.entries.len() - i,
        {
            if same_text(&self.entries[i].0, key) {
                proof {
                    assert(self@[i as int].0 == key@);
                    lemma_key_index(self@, key@, i as nat);
                }
                return i;
            }
            i = i + 1;
        }
        proof {
            lemma_key_index(self@, key@, i as nat);
        }
        i
    }

    pub fn get<'a>(&'a self, key: &str) -> (r: Option<&'a str>)
        ensures
            match r {
                Some(s) => value_of(self@, key@) == Some(s@),
                None => value_of(self@, key@) is None,
            },
    {
        let i: usize = self.find(key);
        if i < self.entries.len() {
            Some(self.entries[i].1.as_str())
        } else {
            None
        }
    }

    pub fn set(&mut self, key: String, value: String)
        ensures
            final(self)@ == with_entry(old(self)@, key@, value@),
    {
        let ghost before = self@;
        let ghost entry = (key@, value@);
        let i: usize = self.find(&key);
        if i < self.entries.len() {
            self.entries.set(i, (key, value));
            assert(self@ =~= before.update(i as int, entry));
        } else {
            self.entries.push((key, value));
            assert(self@ =~= before.push(entry));
        }
    }

    pub fn take(&mut self, key: &str) -> (r: Option<String>)
        ensures
            final(self)@ == without_entry(old(self)@, key@),
            match r {
                Some(s) => value_of(old(self)@, key@) == Some(s@),
                None => value_of(old(self)@, key@) is None,
            },
    {
        let ghost before = self@;
        let i: usize = self.find(key);
        if i < self.entries.len() {
            let entry = self.entries.remove(i);
            assert(self@ =~= before.remove(i as int));
            Some(entry.1)
        } else {
            None
        }
    }

    /// How many bytes the values hold together.
    pub fn value_len(&self) -> (r: usize)
        requires
            value_bytes(self@) <= usize::MAX,
        ensures
            r == value_bytes(self@),
    {
        let mut total: usize = 0;
        let mut i: usize = 0;
        assert(self@.take(0) =~= Seq::empty());
        while i < self.entries.len()
            invariant
                i <= self.entries.len(),
                self@.len() == self.entries.len(),
                value_bytes(self@) <= usize::MAX,
                total == value_bytes(self@.take(i as int)),
            decreases self.entries.len() - i,
        {
            let length: usize = self.entries[i].1.as_str().as_bytes().len();
            proof {
                lemma_value_bytes_take(self@, i as int + 1);
                assert(self@.take(i as int + 1).drop_last() =~= self@.take(i as int));
            }
            total = total + length;
            i = i + 1;
        }
        assert(self@.take(i as int) =~= self@);
        total
    }

    pub fn is_empty(&self) -> (r: bool)
        ensures
            r == (self@.len() == 0),
    {
        self.entries.len() == 0
    }
}

} // verus!
