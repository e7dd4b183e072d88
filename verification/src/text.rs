//! Text as sequences of characters: the few string operations that the rest
//! of the library is stated over, each with an exact contract.

use vstd::prelude::*;
use vstd::string::*;
use vstd::std_specs::iter::IteratorSpec;
use vstd::utf8::*;

verus! {

/// `String::push` appends one character.
pub assume_specification[ String::push ](s: &mut String, c: char)
    ensures
        final(s)@ == old(s)@.push(c),
;

/// `String::push_str` appends a whole string slice.
pub assume_specification[ String::push_str ](s: &mut String, other: &str)
    ensures
        final(s)@ == old(s)@ + other@,
;

/// `String::from_utf8`: the text that the bytes encode, or nothing where they
/// are no UTF-8.
#[verifier::external_body]
pub(crate) fn text_of_utf8(bytes: Vec<u8>) -> (r: Option<String>)
    ensures
        match r {
            Some(s) => encode_utf8(s@) == bytes@,
            None => !valid_utf8(bytes@),
        },
{
    String::from_utf8(bytes).ok()
}

/// The texts behind a sequence of strings.
pub open spec fn texts(strings: Seq<String>) -> Seq<Seq<char>> {
    strings.map_values(|s: String| s@)
}

pub broadcast proof fn lemma_texts_push(strings: Seq<String>, s: String)
    ensures
        #[trigger] texts(strings.push(s)) == texts(strings).push(s@),
{
    assert(texts(strings.push(s)) =~= texts(strings).push(s@));
}

/// An optional text as a mathematical object.
pub open spec fn optional_text(value: Option<String>) -> Option<Seq<char>> {
    match value {
        Some(s) => Some(s@),
        None => None,
    }
}

/// Whether two string slices hold the same characters.
pub fn same_text(a: &str, b: &str) -> (same: bool)
    ensures
        same == (a@ == b@),
{
    let mut x = a.chars();
    let mut y = b.chars();
    let ghost mut n: int = 0;
    assert(a@.skip(0) =~= a@);
    assert(b@.skip(0) =~= b@);
    loop
        invariant
            0 <= n <= a@.len(),
            n <= b@.len(),
            x.remaining() == a@.skip(n),
            y.remaining() == b@.skip(n),
            a@.take(n) == b@.take(n),
            x.obeys_prophetic_iter_laws(),
            y.obeys_prophetic_iter_laws(),
        decreases a@.len() - n,
    {
        let c = x.next();
        let d = y.next();
        proof {
            assert(a@ =~= a@.take(n) + a@.skip(n));
            assert(b@ =~= b@.take(n) + b@.skip(n));
        }
        if c.is_none() && d.is_none() {
            return true;
        }
        if c.is_none() || d.is_none() || c.unwrap() != d.unwrap() {
            assert(a@.len() != b@.len() || a@[n] != b@[n]);
            return false;
        }
        proof {
            assert(a@.skip(n).drop_first() =~= a@.skip(n + 1));
            assert(b@.skip(n).drop_first() =~= b@.skip(n + 1));
            assert(a@.take(n + 1) =~= a@.take(n).push(a@[n]));
            assert(b@.take(n + 1) =~= b@.take(n).push(b@[n]));
            n = n + 1;
        }
    }
}

/// Whether `s` begins with `prefix`.
pub fn starts_with(s: &str, prefix: &str) -> (r: bool)
    ensures
        r == prefix@.is_prefix_of(s@),
{
    let mut x = s.chars();
    let mut y = prefix.chars();
    let ghost mut n: int = 0;
    assert(s@.skip(0) =~= s@);
    assert(prefix@.skip(0) =~= prefix@);
    loop
        invariant
            0 <= n <= s@.len(),
            n <= prefix@.len(),
            x.remaining() == s@.skip(n),
            y.remaining() == prefix@.skip(n),
            forall|i: int| 0 <= i < n ==> s@[i] == prefix@[i],
            x.obeys_prophetic_iter_laws(),
            y.obeys_prophetic_iter_laws(),
        decreases s@.len() - n,
    {
        let d = y.next();
        if d.is_none() {
            assert(prefix@ =~= s@.subrange(0, prefix@.len() as int));
            return true;
        }
        let c = x.next();
        if c.is_none() || c.unwrap() != d.unwrap() {
            assert(!prefix@.is_prefix_of(s@)) by {
                if prefix@.is_prefix_of(s@) {
                    assert(prefix@[n] == s@.subrange(0, prefix@.len() as int)[n]);
                }
            }
            return false;
        }
        proof {
            assert(s@.skip(n).drop_first() =~= s@.skip(n + 1));
            assert(prefix@.skip(n).drop_first() =~= prefix@.skip(n + 1));
            n = n + 1;
        }
    }
}

/// The characters of `s`, in order.
pub fn chars_of(s: &str) -> (r: Vec<char>)
    ensures
        r@ == s@,
{
    let mut r: Vec<char> = Vec::new();
    for c in it: s.chars()
        invariant
            r@ == s@.take(it.index() as int),
            it.seq() == s@,
    {
        r.push(c);
        assert(s@.take(it.index() as int + 1) =~= s@.take(it.index() as int).push(c));
    }
    assert(s@.take(s@.len() as int) =~= s@);
    r
}

/// The characters `chars[from..to]` as a string.
pub fn string_of(chars: &Vec<char>, from: usize, to: usize) -> (r: String)
    requires
        from <= to <= chars@.len(),
    ensures
        r@ == chars@.subrange(from as int, to as int),
{
    let mut r = String::new();
    let mut i: usize = from;
    assert(chars@.subrange(from as int, from as int) =~= Seq::<char>::empty());
    while i < to
        invariant
            from <= i <= to <= chars@.len(),
            r@ == chars@.subrange(from as int, i as int),
        decreases to - i,
    {
        r.push(chars[i]);
        assert(chars@.subrange(from as int, i as int + 1) =~= chars@.subrange(
            from as int,
            i as int,
        ).push(chars@[i as int]));
        i = i + 1;
    }
    r
}

/// Whether `s` ends with `suffix`.
pub fn ends_with(s: &str, suffix: &str) -> (r: bool)
    ensures
        r == suffix@.is_suffix_of(s@),
{
    let a = chars_of(s);
    let b = chars_of(suffix);
    if b.len() > a.len() {
        return false;
    }
    let offset: usize = a.len() - b.len();
    let mut i: usize = 0;
    while i < b.len()
        invariant
            i <= b.len(),
            offset == a.len() - b.len(),
            a@ == s@,
            b@ == suffix@,
            forall|j: int| 0 <= j < i ==> b@[j] == #[trigger] a@[offset + j],
        decreases b.len() - i,
    {
        if b[i] != a[offset + i] {
            assert(!suffix@.is_suffix_of(s@)) by {
                if suffix@.is_suffix_of(s@) {
                    assert(suffix@[i as int] == s@.subrange(offset as int, s@.len() as int)[i as int]);
                }
            }
            return false;
        }
        i = i + 1;
    }
    assert(suffix@ =~= s@.subrange(offset as int, s@.len() as int)) by {
        assert forall|j: int| 0 <= j < suffix@.len() implies suffix@[j] == s@.subrange(
            offset as int,
            s@.len() as int,
        )[j] by {
            assert(b@[j] == a@[offset + j]);
        }
    }
    true
}

/// Whether some occurrence of `part` begins at an index below `limit` of `s`.
pub open spec fn occurs_below(s: Seq<char>, part: Seq<char>, limit: int) -> bool {
    exists|i: int|
        0 <= i < limit && i + part.len() <= s.len() && #[trigger] s.subrange(i, i + part.len())
            == part
}

/// Whether `part` occurs in `s`.
pub open spec fn occurs(s: Seq<char>, part: Seq<char>) -> bool {
    occurs_below(s, part, s.len() as int + 1)
}

/// Whether `part` occurs in `s`.
pub fn contains_text(s: &str, part: &str) -> (r: bool)
    ensures
        r == occurs(s@, part@),
{
    let a = chars_of(s);
    let b = chars_of(part);
    let mut i: usize = 0;
    while i <= a.len() && a.len() - i >= b.len()
        invariant
            i <= a.len() + 1,
            a@ == s@,
            b@ == part@,
            !occurs_below(s@, part@, i as int),
        decreases a.len() + 1 - i,
    {
        let mut j: usize = 0;
        while j < b.len() && a[i + j] == b[j]
            invariant
                j <= b.len(),
                i + b.len() <= a.len(),
                forall|k: int| 0 <= k < j ==> b@[k] == #[trigger] a@[i + k],
            decreases b.len() - j,
        {
            j = j + 1;
        }
        if j == b.len() {
            assert(s@.subrange(i as int, i + part@.len()) =~= part@) by {
                assert forall|k: int| 0 <= k < part@.len() implies s@.subrange(
                    i as int,
                    i + part@.len(),
                )[k] == part@[k] by {
                    assert(b@[k] == a@[i + k]);
                }
            }
            return true;
        }
        assert(s@.subrange(i as int, i + part@.len()) != part@) by {
            assert(s@.subrange(i as int, i + part@.len())[j as int] != part@[j as int]);
        }
        if i == a.len() {
            return false;
        }
        i = i + 1;
    }
    false
}

/// The White_Space property of Unicode: what trimming and splitting at
/// whitespace go by.
pub open spec fn is_white(c: char) -> bool {
    ||| '\u{9}' <= c <= '\u{d}'
    ||| c == ' '
    ||| c == '\u{85}'
    ||| c == '\u{a0}'
    ||| c == '\u{1680}'
    ||| '\u{2000}' <= c <= '\u{200a}'
    ||| c == '\u{2028}'
    ||| c == '\u{2029}'
    ||| c == '\u{202f}'
    ||| c == '\u{205f}'
    ||| c == '\u{3000}'
}

pub fn white(c: char) -> (r: bool)
    ensures
        r == is_white(c),
{
    ('\u{9}' <= c && c <= '\u{d}') || c == ' ' || c == '\u{85}' || c == '\u{a0}' || c == '\u{1680}'
        || ('\u{2000}' <= c && c <= '\u{200a}') || c == '\u{2028}' || c == '\u{2029}' || c
        == '\u{202f}' || c == '\u{205f}' || c == '\u{3000}'
}

/// How many characters stand before the first one that satisfies `stop`
/// (all of them where none does).
pub open spec fn run(s: Seq<char>, stop: spec_fn(char) -> bool) -> nat
    decreases s.len(),
{
    if s.len() == 0 || stop(s[0]) {
        0
    } else {
        1 + run(s.skip(1), stop)
    }
}

pub proof fn lemma_run(s: Seq<char>, stop: spec_fn(char) -> bool, n: nat)
    requires
        n <= s.len(),
        forall|i: int| 0 <= i < n ==> !stop(#[trigger] s[i]),
        n < s.len() ==> stop(s[n as int]),
    ensures
        run(s, stop) == n,
    decreases n,
{
    if n > 0 {
        assert(s.skip(1)[n - 1] == s[n as int] || n == s.len());
        assert forall|i: int| 0 <= i < n - 1 implies !stop(#[trigger] s.skip(1)[i]) by {
            assert(s.skip(1)[i] == s[i + 1]);
        }
        lemma_run(s.skip(1), stop, (n - 1) as nat);
    }
}

pub proof fn lemma_run_bounds(s: Seq<char>, stop: spec_fn(char) -> bool)
    ensures
        run(s, stop) <= s.len(),
        forall|i: int| 0 <= i < run(s, stop) ==> !stop(#[trigger] s[i]),
        run(s, stop) < s.len() ==> stop(s[run(s, stop) as int]),
    decreases s.len(),
{
    if s.len() > 0 && !stop(s[0]) {
        let t = s.skip(1);
        lemma_run_bounds(t, stop);
        assert forall|i: int| 0 <= i < run(s, stop) implies !stop(#[trigger] s[i]) by {
            if i > 0 {
                assert(t[i - 1] == s[i]);
            }
        }
        if run(s, stop) < s.len() {
            assert(t[run(t, stop) as int] == s[run(s, stop) as int]);
        }
    }
}

/// `s` without its leading whitespace.
pub open spec fn trim_start(s: Seq<char>) -> Seq<char> {
    s.skip(run(s, |c: char| !is_white(c)) as int)
}

/// `s` without its trailing whitespace.
pub open spec fn trim_end(s: Seq<char>) -> Seq<char>
    decreases s.len(),
{
    if s.len() > 0 && is_white(s.last()) {
        trim_end(s.drop_last())
    } else {
        s
    }
}

/// `s` without the whitespace at either end.
pub open spec fn trim(s: Seq<char>) -> Seq<char> {
    trim_end(trim_start(s))
}

pub fn trimmed(s: &str) -> (r: String)
    ensures
        r@ == trim(s@),
{
    let chars = chars_of(s);
    let mut from: usize = 0;
    while from < chars.len() && white(chars[from])
        invariant
            from <= chars.len(),
            forall|i: int| 0 <= i < from ==> is_white(#[trigger] chars@[i]),
        decreases chars.len() - from,
    {
        from = from + 1;
    }
    proof {
        lemma_run(chars@, |c: char| !is_white(c), from as nat);
    }
    let ghost rest = trim_start(s@);
    assert(rest =~= chars@.subrange(from as int, chars@.len() as int));
    let mut to: usize = chars.len();
    while from < to && white(chars[to - 1])
        invariant
            from <= to <= chars.len(),
            trim_end(chars@.subrange(from as int, to as int)) == trim_end(rest),
        decreases to,
    {
        assert(chars@.subrange(from as int, to as int).drop_last() =~= chars@.subrange(
            from as int,
            to as int - 1,
        ));
        to = to - 1;
    }
    string_of(&chars, from, to)
}

/// A line without the carriage return that may precede its newline.
pub open spec fn strip_return(line: Seq<char>) -> Seq<char> {
    if line.len() > 0 && line.last() == '\r' {
        line.drop_last()
    } else {
        line
    }
}

/// The lines of `s`: what newlines end, each without its line ending, and
/// what follows the last newline, where anything does.
pub open spec fn lines(s: Seq<char>) -> Seq<Seq<char>>
    decreases s.len(),
{
    let n = run(s, |c: char| c == '\n') as int;
    if s.len() == 0 {
        Seq::empty()
    } else if n >= s.len() {
        seq![s]
    } else {
        seq![strip_return(s.take(n))] + lines(s.skip(n + 1))
    }
}

pub fn split_lines(s: &str) -> (r: Vec<String>)
    ensures
        texts(r@) == lines(s@),
{
    broadcast use lemma_texts_push;

    let chars = chars_of(s);
    let mut r: Vec<String> = Vec::new();
    let mut from: usize = 0;
    assert(chars@.skip(0) =~= chars@);
    assert(texts(r@) + lines(s@) =~= lines(s@));
    while from < chars.len()
        invariant
            from <= chars.len(),
            texts(r@) + lines(chars@.skip(from as int)) == lines(s@),
        decreases chars.len() - from,
    {
        let ghost rest = chars@.skip(from as int);
        let ghost before = texts(r@);
        let mut to: usize = from;
        while to < chars.len() && chars[to] != '\n'
            invariant
                from <= to <= chars.len(),
                rest == chars@.skip(from as int),
                forall|i: int| 0 <= i < to - from ==> #[trigger] rest[i] != '\n',
            decreases chars.len() - to,
        {
            to = to + 1;
        }
        proof {
            lemma_run(rest, |c: char| c == '\n', (to - from) as nat);
        }
        if to == chars.len() {
            r.push(string_of(&chars, from, to));
            assert(chars@.subrange(from as int, to as int) =~= rest);
            assert(lines(chars@.skip(chars@.len() as int)) =~= Seq::empty());
            assert(before.push(rest) + Seq::<Seq<char>>::empty() =~= before + seq![rest]);
            from = to;
        } else {
            let ghost line = rest.take(to - from);
            assert(line =~= chars@.subrange(from as int, to as int));
            if to > from && chars[to - 1] == '\r' {
                r.push(string_of(&chars, from, to - 1));
                assert(chars@.subrange(from as int, to as int - 1) =~= strip_return(line));
            } else {
                r.push(string_of(&chars, from, to));
                assert(strip_return(line) == line);
            }
            let ghost tail = chars@.skip(to as int + 1);
            assert(rest.skip(to - from + 1) =~= tail);
            assert(before.push(strip_return(line)) + lines(tail) =~= before + (seq![
                strip_return(line),
            ] + lines(tail)));
            from = to + 1;
        }
    }
    assert(chars@.skip(from as int) =~= Seq::empty());
    assert(texts(r@) + Seq::<Seq<char>>::empty() =~= texts(r@));
    r
}

/// What separates words: whitespace, or only the whitespace of ASCII.
pub open spec fn is_blank(c: char, ascii: bool) -> bool {
    if ascii {
        c == ' ' || c == '\t' || c == '\n' || c == '\u{c}' || c == '\r'
    } else {
        is_white(c)
    }
}

pub fn blank(c: char, ascii: bool) -> (r: bool)
    ensures
        r == is_blank(c, ascii),
{
    if ascii {
        c == ' ' || c == '\t' || c == '\n' || c == '\u{c}' || c == '\r'
    } else {
        white(c)
    }
}

/// The words of `s`: its runs of characters that are not blank.
pub open spec fn words(s: Seq<char>, ascii: bool) -> Seq<Seq<char>>
    decreases s.len(),
{
    let skipped = run(s, |c: char| !is_blank(c, ascii)) as int;
    let t = s.skip(skipped);
    let n = run(t, |c: char| is_blank(c, ascii)) as int;
    if t.len() == 0 {
        Seq::empty()
    } else {
        proof {
            lemma_run_bounds(s, |c: char| !is_blank(c, ascii));
            lemma_run_bounds(t, |c: char| is_blank(c, ascii));
            assert(t[0] == s[skipped]);
        }
        seq![t.take(n)] + words(t.skip(n), ascii)
    }
}

pub fn split_words(s: &str, ascii: bool) -> (r: Vec<String>)
    ensures
        texts(r@) == words(s@, ascii),
{
    broadcast use lemma_texts_push;

    let chars = chars_of(s);
    let mut r: Vec<String> = Vec::new();
    let mut from: usize = 0;
    assert(chars@.skip(0) =~= chars@);
    assert(texts(r@) + words(s@, ascii) =~= words(s@, ascii));
    loop
        invariant
            from <= chars.len(),
            texts(r@) + words(chars@.skip(from as int), ascii) == words(s@, ascii),
        decreases chars.len() - from,
    {
        let ghost rest = chars@.skip(from as int);
        let ghost before = texts(r@);
        let mut start: usize = from;
        while start < chars.len() && blank(chars[start], ascii)
            invariant
                from <= start <= chars.len(),
                rest == chars@.skip(from as int),
                forall|i: int| 0 <= i < start - from ==> is_blank(#[trigger] rest[i], ascii),
            decreases chars.len() - start,
        {
            start = start + 1;
        }
        proof {
            lemma_run(rest, |c: char| !is_blank(c, ascii), (start - from) as nat);
        }
        let ghost t = rest.skip(start - from);
        assert(t =~= chars@.skip(start as int));
        if start == chars.len() {
            assert(texts(r@) + Seq::<Seq<char>>::empty() =~= texts(r@));
            return r;
        }
        let mut to: usize = start;
        while to < chars.len() && !blank(chars[to], ascii)
            invariant
                start <= to <= chars.len(),
                t == chars@.skip(start as int),
                forall|i: int| 0 <= i < to - start ==> !is_blank(#[trigger] t[i], ascii),
            decreases chars.len() - to,
        {
            to = to + 1;
        }
        proof {
            lemma_run(t, |c: char| is_blank(c, ascii), (to - start) as nat);
            assert(t.take(to - start) =~= chars@.subrange(start as int, to as int));
            assert(t.skip(to - start) =~= chars@.skip(to as int));
            assert(before.push(t.take(to - start)) + words(chars@.skip(to as int), ascii)
                =~= before + (seq![t.take(to - start)] + words(chars@.skip(to as int), ascii)));
        }
        r.push(string_of(&chars, start, to));
        from = to;
    }
}

/// What stands before and after the first character that satisfies `stop`:
/// nothing where none does.
pub open spec fn split_once(s: Seq<char>, stop: spec_fn(char) -> bool) -> Option<
    (Seq<char>, Seq<char>),
> {
    let n = run(s, stop) as int;
    if n < s.len() {
        Some((s.take(n), s.skip(n + 1)))
    } else {
        None
    }
}

pub fn split_at_char(s: &str, separator: char) -> (r: Option<(String, String)>)
    ensures
        match r {
            Some((a, b)) => split_once(s@, |c: char| c == separator) == Some((a@, b@)),
            None => split_once(s@, |c: char| c == separator) is None,
        },
{
    let chars = chars_of(s);
    let mut n: usize = 0;
    while n < chars.len() && chars[n] != separator
        invariant
            n <= chars.len(),
            forall|i: int| 0 <= i < n ==> #[trigger] chars@[i] != separator,
        decreases chars.len() - n,
    {
        n = n + 1;
    }
    proof {
        lemma_run(chars@, |c: char| c == separator, n as nat);
    }
    if n < chars.len() {
        assert(s@.take(n as int) =~= chars@.subrange(0, n as int));
        assert(s@.skip(n as int + 1) =~= chars@.subrange(n as int + 1, chars@.len() as int));
        Some((string_of(&chars, 0, n), string_of(&chars, n + 1, chars.len())))
    } else {
        None
    }
}

pub fn split_at_white(s: &str) -> (r: Option<(String, String)>)
    ensures
        match r {
            Some((a, b)) => split_once(s@, |c: char| is_white(c)) == Some((a@, b@)),
            None => split_once(s@, |c: char| is_white(c)) is None,
        },
{
    let chars = chars_of(s);
    let mut n: usize = 0;
    while n < chars.len() && !white(chars[n])
        invariant
            n <= chars.len(),
            forall|i: int| 0 <= i < n ==> !is_white(#[trigger] chars@[i]),
        decreases chars.len() - n,
    {
        n = n + 1;
    }
    proof {
        lemma_run(chars@, |c: char| is_white(c), n as nat);
    }
    if n < chars.len() {
        assert(s@.take(n as int) =~= chars@.subrange(0, n as int));
        assert(s@.skip(n as int + 1) =~= chars@.subrange(n as int + 1, chars@.len() as int));
        Some((string_of(&chars, 0, n), string_of(&chars, n + 1, chars.len())))
    } else {
        None
    }
}

/// `s` without the characters `c` at its end.
pub open spec fn strip_end(s: Seq<char>, c: char) -> Seq<char>
    decreases s.len(),
{
    if s.len() > 0 && s.last() == c {
        strip_end(s.drop_last(), c)
    } else {
        s
    }
}

pub fn stripped_end(s: &str, c: char) -> (r: String)
    ensures
        r@ == strip_end(s@, c),
{
    let chars = chars_of(s);
    let mut to: usize = chars.len();
    assert(chars@.subrange(0, to as int) =~= s@);
    while to > 0 && chars[to - 1] == c
        invariant
            to <= chars.len(),
            strip_end(chars@.subrange(0, to as int), c) == strip_end(s@, c),
        decreases to,
    {
        assert(chars@.subrange(0, to as int).drop_last() =~= chars@.subrange(0, to as int - 1));
        to = to - 1;
    }
    string_of(&chars, 0, to)
}

/// The characters other than `c`.
pub open spec fn other_than(c: char) -> spec_fn(char) -> bool {
    |d: char| d != c
}

/// `s` without the characters `c` at its start.
pub open spec fn strip_start(s: Seq<char>, c: char) -> Seq<char> {
    s.skip(run(s, other_than(c)) as int)
}

pub fn stripped_start(s: &str, c: char) -> (r: String)
    ensures
        r@ == strip_start(s@, c),
{
    let chars = chars_of(s);
    let mut from: usize = 0;
    while from < chars.len() && chars[from] == c
        invariant
            from <= chars.len(),
            forall|i: int| 0 <= i < from ==> #[trigger] chars@[i] == c,
        decreases chars.len() - from,
    {
        from = from + 1;
    }
    proof {
        lemma_run(chars@, other_than(c), from as nat);
        assert(s@.skip(from as int) =~= chars@.subrange(from as int, chars@.len() as int));
    }
    string_of(&chars, from, chars.len())
}

/// `s` with each of its ASCII capital letters made small.
pub open spec fn lower_char(c: char) -> char {
    if 'A' <= c <= 'Z' {
        ((c as u32 + 32) as u8) as char
    } else {
        c
    }
}

pub open spec fn lower(s: Seq<char>) -> Seq<char> {
    s.map_values(|c: char| lower_char(c))
}

pub fn lowered(s: &str) -> (r: String)
    ensures
        r@ == lower(s@),
{
    let mut r = String::new();
    for c in it: s.chars()
        invariant
            r@ == lower(s@.take(it.index() as int)),
            it.seq() == s@,
    {
        let d: char = if 'A' <= c && c <= 'Z' {
            ((c as u32 + 32) as u8) as char
        } else {
            c
        };
        r.push(d);
        assert(s@.take(it.index() as int + 1) =~= s@.take(it.index() as int).push(c));
        assert(lower(s@.take(it.index() as int).push(c)) =~= lower(s@.take(it.index() as int)).push(
            lower_char(c),
        ));
    }
    assert(s@.take(s@.len() as int) =~= s@);
    r
}

/// The decimal digit `d`.
pub open spec fn digit(d: nat) -> char {
    ((48 + d) as u8) as char
}

/// `n` in decimal, without leading zeros.
pub open spec fn decimal(n: nat) -> Seq<char>
    decreases n,
{
    if n < 10 {
        seq![digit(n)]
    } else {
        decimal(n / 10).push(digit(n % 10))
    }
}

pub fn decimal_text(n: u64) -> (r: String)
    ensures
        r@ == decimal(n as nat),
    decreases n,
{
    if n < 10 {
        let mut r = String::new();
        r.push((48u8 + n as u8) as char);
        assert(r@ =~= decimal(n as nat));
        r
    } else {
        let mut r = decimal_text(n / 10);
        r.push((48u8 + (n % 10) as u8) as char);
        r
    }
}

pub open spec fn is_ascii_digit(c: char) -> bool {
    '0' <= c <= '9'
}

pub open spec fn is_ascii_alphanumeric(c: char) -> bool {
    '0' <= c <= '9' || 'A' <= c <= 'Z' || 'a' <= c <= 'z'
}

pub open spec fn is_hex_digit(c: char) -> bool {
    '0' <= c <= '9' || 'A' <= c <= 'F' || 'a' <= c <= 'f'
}

pub fn ascii_alphanumeric(c: char) -> (r: bool)
    ensures
        r == is_ascii_alphanumeric(c),
{
    ('0' <= c && c <= '9') || ('A' <= c && c <= 'Z') || ('a' <= c && c <= 'z')
}

pub fn hex_digit(c: char) -> (r: bool)
    ensures
        r == is_hex_digit(c),
{
    ('0' <= c && c <= '9') || ('A' <= c && c <= 'F') || ('a' <= c && c <= 'f')
}

/// The value of a run of decimal digits.
pub open spec fn digits_value(s: Seq<char>) -> nat
    decreases s.len(),
{
    if s.len() == 0 {
        0
    } else {
        10 * digits_value(s.drop_last()) + (s.last() as nat - 48) as nat
    }
}

pub open spec fn all_digits(s: Seq<char>) -> bool {
    s.len() > 0 && forall|i: int| 0 <= i < s.len() ==> is_ascii_digit(#[trigger] s[i])
}

/// The number that `s` writes in decimal, with or without a plus before it:
/// nothing where it writes none, or one above `maximum`.
pub open spec fn number_in(s: Seq<char>, maximum: nat) -> Option<nat> {
    let digits = if s.len() > 0 && s[0] == '+' {
        s.skip(1)
    } else {
        s
    };
    if all_digits(digits) && digits_value(digits) <= maximum {
        Some(digits_value(digits))
    } else {
        None
    }
}

proof fn lemma_digits_value_grows(s: Seq<char>, n: int)
    requires
        0 <= n <= s.len(),
    ensures
        digits_value(s.take(n)) <= digits_value(s),
    decreases s.len(),
{
    if n == s.len() {
        assert(s.take(n) =~= s);
    } else {
        assert(s.drop_last().take(n) =~= s.take(n));
        lemma_digits_value_grows(s.drop_last(), n);
    }
}

pub fn parse_number(s: &str, maximum: u64) -> (r: Option<u64>)
    requires
        maximum <= 0xffff_ffff,
    ensures
        match r {
            Some(n) => number_in(s@, maximum as nat) == Some(n as nat),
            None => number_in(s@, maximum as nat) is None,
        },
{
    let chars = chars_of(s);
    let from: usize = if chars.len() > 0 && chars[0] == '+' {
        1
    } else {
        0
    };
    let ghost digits = chars@.skip(from as int);
    assert(chars@.skip(0) =~= chars@);
    if from == chars.len() {
        return None;
    }
    let mut value: u64 = 0;
    let mut i: usize = from;
    assert(digits.take(0) =~= Seq::empty());
    while i < chars.len()
        invariant
            from <= i <= chars.len(),
            maximum <= 0xffff_ffff,
            digits == chars@.skip(from as int),
            number_in(s@, maximum as nat) == (if all_digits(digits) && digits_value(digits)
                <= maximum {
                Some(digits_value(digits))
            } else {
                None
            }),
            value == digits_value(digits.take(i - from)),
            value <= maximum,
            forall|j: int| 0 <= j < i - from ==> is_ascii_digit(#[trigger] digits[j]),
        decreases chars.len() - i,
    {
        let c: char = chars[i];
        assert(digits[i - from] == c);
        if !('0' <= c && c <= '9') {
            assert(!is_ascii_digit(digits[i - from]));
            return None;
        }
        proof {
            lemma_digits_value_grows(digits, i - from + 1);
            assert(digits.take(i - from + 1).drop_last() =~= digits.take(i - from));
        }
        value = value * 10 + (c as u32 - 48) as u64;
        i = i + 1;
        if value > maximum {
            return None;
        }
    }
    assert(digits.take(digits.len() as int) =~= digits);
    Some(value)
}

/// A text without control characters has no control bytes.
pub proof fn lemma_no_control_bytes(s: Seq<char>)
    requires
        forall|i: int| 0 <= i < s.len() ==> #[trigger] s[i] >= ' ',
    ensures
        forall|i: int| 0 <= i < encode_utf8(s).len() ==> #[trigger] encode_utf8(s)[i] >= 32,
    decreases s.len(),
{
    if s.len() > 0 {
        let tail = s.drop_first();
        assert forall|i: int| 0 <= i < tail.len() implies #[trigger] tail[i] >= ' ' by {
            assert(tail[i] == s[i + 1]);
        }
        lemma_no_control_bytes(tail);
        let first = encode_scalar(s[0] as u32);
        lemma_printable_scalar(s[0]);
        lemma_scalar_bytes(s[0] as u32);
        assert forall|i: int| 0 <= i < encode_utf8(s).len() implies #[trigger] encode_utf8(s)[i]
            >= 32 by {
            if i >= first.len() {
                assert(encode_utf8(s)[i] == encode_utf8(tail)[i - first.len()]);
            } else {
                assert(encode_utf8(s)[i] == first[i]);
            }
        }
    }
}

proof fn lemma_printable_scalar(c: char)
    requires
        c >= ' ',
    ensures
        c as u32 >= 32,
{
}

proof fn lemma_scalar_bytes(c: u32)
    requires
        c >= 32,
    ensures
        forall|i: int| 0 <= i < encode_scalar(c).len() ==> #[trigger] encode_scalar(c)[i] >= 32,
{
    assert((c & 0x7F) as u8 >= 32 || c > 0x7F) by (bit_vector)
        requires
            c >= 32,
    ;
    assert(0xC0 | ((c >> 6) & 0x1F) as u8 >= 32) by (bit_vector);
    assert(0xE0 | ((c >> 12) & 0x0F) as u8 >= 32) by (bit_vector);
    assert(0xF0 | ((c >> 18) & 0x7) as u8 >= 32) by (bit_vector);
    assert(0x80 | (c & 0x3F) as u8 >= 32) by (bit_vector);
    assert(0x80 | ((c >> 6) & 0x3F) as u8 >= 32) by (bit_vector);
    assert(0x80 | ((c >> 12) & 0x3F) as u8 >= 32) by (bit_vector);
}

} // verus!
