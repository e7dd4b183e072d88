//! What the operations on texts do, in terms of how a text is put together.

use vstd::prelude::*;
use crate::entries::{
    distinct_keys, has_key, key_index, lemma_key_found, lemma_key_index,
    lemma_without_entry_distinct, value_of, with_entry, without_entry,
};
use crate::text::{
    all_digits, decimal, digit, digits_value, is_blank, is_white, lemma_run, lemma_run_bounds,
    lines, lower, number_in, occurs, other_than, run, split_once, strip_end, strip_return,
    strip_start, trim, trim_end, words,
};

verus! {

/// The spaces of Unicode.
pub proof fn law_white_space(c: char)
    ensures
        is_white(c) <==> {
            ||| c == '\t'
            ||| c == '\n'
            ||| c == '\u{b}'
            ||| c == '\u{c}'
            ||| c == '\r'
            ||| c == ' '
            ||| c == '\u{85}'
            ||| c == '\u{a0}'
            ||| c == '\u{1680}'
            ||| '\u{2000}' <= c <= '\u{200a}'
            ||| c == '\u{2028}'
            ||| c == '\u{2029}'
            ||| c == '\u{202f}'
            ||| c == '\u{205f}'
            ||| c == '\u{3000}'
        },
        is_blank(c, true) <==> c == '\t' || c == '\n' || c == '\u{c}' || c == '\r' || c == ' ',
        is_blank(c, false) <==> is_white(c),
{
}

/// A text that holds another is that text with something before and behind it.
pub proof fn law_occurrences(s: Seq<char>, part: Seq<char>, before: Seq<char>, after: Seq<char>)
    ensures
        occurs(before + part + after, part),
        occurs(s, part) ==> exists|a: Seq<char>, b: Seq<char>| s == #[trigger] (a + part + b),
{
    let all = before + part + after;
    let n = before.len() as int;
    assert(all.subrange(n, n + part.len()) =~= part);
    if occurs(s, part) {
        let i = choose|i: int|
            0 <= i < s.len() as int + 1 && i + part.len() <= s.len() && #[trigger] s.subrange(
                i,
                i + part.len(),
            ) == part;
        let a = s.take(i);
        let b = s.skip(i + part.len());
        assert(s =~= a + part + b) by {
            assert forall|k: int| 0 <= k < s.len() implies s[k] == (a + part + b)[k] by {
                if i <= k < i + part.len() {
                    assert(s.subrange(i, i + part.len())[k - i] == s[k]);
                }
            }
        }
    }
}

// Trimming --------------------------------------------------------------------

proof fn lemma_trim_end(s: Seq<char>, white: Seq<char>)
    requires
        s.len() > 0 ==> !is_white(s.last()),
        forall|i: int| 0 <= i < white.len() ==> is_white(#[trigger] white[i]),
    ensures
        trim_end(s + white) == s,
    decreases white.len(),
{
    if white.len() == 0 {
        assert(s + white =~= s);
    } else {
        assert((s + white).drop_last() =~= s + white.drop_last());
        assert((s + white).last() == white[white.len() - 1]);
        lemma_trim_end(s, white.drop_last());
    }
}

/// Trimming takes the spaces off either end and leaves all that stands between
/// the first character and the last that are none.
pub proof fn law_trimming(before: Seq<char>, s: Seq<char>, after: Seq<char>)
    requires
        forall|i: int| 0 <= i < before.len() ==> is_white(#[trigger] before[i]),
        forall|i: int| 0 <= i < after.len() ==> is_white(#[trigger] after[i]),
        s.len() > 0 ==> !is_white(s[0]) && !is_white(s.last()),
    ensures
        trim(before + s + after) == s,
{
    let all = before + s + after;
    let stop = |c: char| !is_white(c);
    if s.len() > 0 {
        assert(all[before.len() as int] == s[0]);
        assert forall|i: int| 0 <= i < before.len() implies !stop(#[trigger] all[i]) by {
            assert(all[i] == before[i]);
        }
        lemma_run(all, stop, before.len());
        assert(all.skip(before.len() as int) =~= s + after);
        lemma_trim_end(s, after);
    } else {
        assert forall|i: int| 0 <= i < all.len() implies !stop(#[trigger] all[i]) by {
            if i < before.len() {
                assert(all[i] == before[i]);
            } else {
                assert(all[i] == after[i - before.len()]);
            }
        }
        lemma_run(all, stop, all.len());
        assert(all.skip(all.len() as int) =~= Seq::empty());
        assert(s =~= Seq::empty());
    }
}

/// A text without one character at its end, or at its start, is what is left
/// once all of them are off.
pub proof fn law_stripping(s: Seq<char>, c: char, n: nat)
    requires
        s.len() > 0 ==> s[0] != c && s.last() != c,
    ensures
        strip_end(s + Seq::new(n, |i: int| c), c) == s,
        strip_start(Seq::new(n, |i: int| c) + s, c) == s,
    decreases n,
{
    let run_of = Seq::new(n, |i: int| c);
    if n == 0 {
        assert(s + run_of =~= s);
    } else {
        law_stripping(s, c, (n - 1) as nat);
        assert((s + run_of).drop_last() =~= s + Seq::new((n - 1) as nat, |i: int| c));
    }
    let all = run_of + s;
    assert forall|i: int| 0 <= i < n implies all[i] == c by {
        assert(all[i] == run_of[i]);
    }
    if s.len() > 0 {
        assert(all[n as int] == s[0]);
    }
    lemma_run(all, other_than(c), n);
    assert(all.skip(n as int) =~= s);
}

// Lines -----------------------------------------------------------------------

/// A text is its first line, the end of that line, and the lines of the rest.
pub proof fn law_lines(line: Seq<char>, rest: Seq<char>)
    requires
        forall|i: int| 0 <= i < line.len() ==> #[trigger] line[i] != '\n',
    ensures
        lines(Seq::empty()) == Seq::<Seq<char>>::empty(),
        line.len() > 0 ==> lines(line) == seq![line],
        !(line.len() > 0 && line.last() == '\r') ==> lines(line + seq!['\n'] + rest) == seq![line]
            + lines(rest),
        lines(line + seq!['\r', '\n'] + rest) == seq![line] + lines(rest),
{
    let stop = |c: char| c == '\n';
    lemma_run(line, stop, line.len());
    let one = line + seq!['\n'] + rest;
    assert forall|i: int| 0 <= i < line.len() implies !stop(#[trigger] one[i]) by {
        assert(one[i] == line[i]);
    }
    assert(one[line.len() as int] == '\n');
    lemma_run(one, stop, line.len());
    assert(one.take(line.len() as int) =~= line);
    assert(one.skip(line.len() as int + 1) =~= rest);
    let two = line + seq!['\r', '\n'] + rest;
    let n = line.len() + 1;
    assert forall|i: int| 0 <= i < n implies !stop(#[trigger] two[i]) by {
        if i < line.len() {
            assert(two[i] == line[i]);
        } else {
            assert(two[i] == '\r');
        }
    }
    assert(two[n as int] == '\n');
    lemma_run(two, stop, n);
    assert(two.take(n as int) =~= line.push('\r'));
    assert(line.push('\r').drop_last() =~= line);
    assert(two.skip(n as int + 1) =~= rest);
    assert(lines(Seq::empty()) =~= Seq::<Seq<char>>::empty());
}

/// The lines of a text that ends in a newline, and then those of another.
pub proof fn law_lines_join(a: Seq<char>, b: Seq<char>)
    requires
        a.len() > 0 ==> a.last() == '\n',
    ensures
        lines(a + b) == lines(a) + lines(b),
    decreases a.len(),
{
    let stop = |c: char| c == '\n';
    if a.len() == 0 {
        assert(a + b =~= b);
        assert(lines(a) + lines(b) =~= lines(b));
    } else {
        lemma_run_bounds(a, stop);
        let n = run(a, stop);
        if n >= a.len() {
            assert(!stop(a[a.len() - 1]));
        }
        assert((a + b)[n as int] == a[n as int]);
        assert forall|i: int| 0 <= i < n implies !stop(#[trigger] (a + b)[i]) by {
            assert((a + b)[i] == a[i]);
        }
        lemma_run(a + b, stop, n);
        assert((a + b).take(n as int) =~= a.take(n as int));
        let rest = a.skip(n as int + 1);
        assert((a + b).skip(n as int + 1) =~= rest + b);
        if rest.len() > 0 {
            assert(rest.last() == a.last());
        }
        law_lines_join(rest, b);
        let first = seq![strip_return(a.take(n as int))];
        assert(first + (lines(rest) + lines(b)) =~= first + lines(rest) + lines(b));
    }
}

// Words -----------------------------------------------------------------------

/// A text without blanks is one word; blanks before a text change nothing; and
/// what follows a word and a blank are the words of the rest.
pub proof fn law_words(word: Seq<char>, rest: Seq<char>, c: char, ascii: bool)
    requires
        word.len() > 0,
        forall|i: int| 0 <= i < word.len() ==> !is_blank(#[trigger] word[i], ascii),
        is_blank(c, ascii),
    ensures
        words(Seq::empty(), ascii) == Seq::<Seq<char>>::empty(),
        words(word, ascii) == seq![word],
        words(seq![c] + rest, ascii) == words(rest, ascii),
        words(word + seq![c] + rest, ascii) == seq![word] + words(rest, ascii),
{
    let skip = |c: char| !is_blank(c, ascii);
    let stop = |c: char| is_blank(c, ascii);
    let none = Seq::<char>::empty();
    lemma_run(none, skip, 0);
    assert(none.skip(0) =~= none);
    assert(words(none, ascii) =~= Seq::empty());
    lemma_run(word, skip, 0);
    assert(word.skip(0) =~= word);
    lemma_run(word, stop, word.len());
    assert(word.take(word.len() as int) =~= word);
    assert(word.skip(word.len() as int) =~= none);
    assert(words(word, ascii) =~= seq![word]);
    lemma_blank_first(rest, c, ascii);
    let all = word + seq![c] + rest;
    assert(all[0] == word[0]);
    lemma_run(all, skip, 0);
    assert(all.skip(0) =~= all);
    assert forall|i: int| 0 <= i < word.len() implies !stop(#[trigger] all[i]) by {
        assert(all[i] == word[i]);
    }
    assert(all[word.len() as int] == c);
    lemma_run(all, stop, word.len());
    assert(all.take(word.len() as int) =~= word);
    assert(all.skip(word.len() as int) =~= seq![c] + rest);
}

proof fn lemma_blank_first(rest: Seq<char>, c: char, ascii: bool)
    requires
        is_blank(c, ascii),
    ensures
        words(seq![c] + rest, ascii) == words(rest, ascii),
{
    let skip = |c: char| !is_blank(c, ascii);
    let all = seq![c] + rest;
    lemma_run_bounds(rest, skip);
    let n = run(rest, skip);
    assert forall|i: int| 0 <= i < n + 1 implies !skip(#[trigger] all[i]) by {
        if i > 0 {
            assert(all[i] == rest[i - 1]);
        }
    }
    if n < rest.len() {
        assert(all[n as int + 1] == rest[n as int]);
    }
    lemma_run(all, skip, n + 1);
    assert(all.skip(n as int + 1) =~= rest.skip(n as int));
}

/// A text is split at the first separator, which belongs to neither part; one
/// without a separator is not split.
pub proof fn law_splitting(
    before: Seq<char>,
    c: char,
    after: Seq<char>,
    stop: spec_fn(char) -> bool,
)
    requires
        forall|i: int| 0 <= i < before.len() ==> !stop(#[trigger] before[i]),
        stop(c),
    ensures
        split_once(before + seq![c] + after, stop) == Some((before, after)),
        split_once(before, stop) is None,
{
    let all = before + seq![c] + after;
    assert forall|i: int| 0 <= i < before.len() implies !stop(#[trigger] all[i]) by {
        assert(all[i] == before[i]);
    }
    assert(all[before.len() as int] == c);
    lemma_run(all, stop, before.len());
    lemma_run(before, stop, before.len());
    assert(all.take(before.len() as int) =~= before);
    assert(all.skip(before.len() as int + 1) =~= after);
}

// Letters and numbers ---------------------------------------------------------

/// Capital letters of ASCII become small, and nothing else changes.
pub proof fn law_lowering(s: Seq<char>, i: int)
    requires
        0 <= i < s.len(),
    ensures
        lower(s).len() == s.len(),
        'A' <= s[i] <= 'Z' ==> lower(s)[i] as u32 == s[i] as u32 + 32,
        !('A' <= s[i] <= 'Z') ==> lower(s)[i] == s[i],
{
}

proof fn lemma_decimal(n: nat)
    ensures
        all_digits(decimal(n)),
        digits_value(decimal(n)) == n,
        n > 0 ==> decimal(n)[0] != '0',
        n == 0 ==> decimal(n) == seq!['0'],
    decreases n,
{
    let d = n % 10;
    assert(0 <= d < 10);
    assert(digit(d) as nat == 48 + d);
    assert('0' <= digit(d) <= '9');
    if n < 10 {
        let s = decimal(n);
        assert(s =~= seq![digit(n)]);
        assert(s.drop_last() =~= Seq::empty());
        assert(digits_value(s.drop_last()) == 0);
        assert(digits_value(s) == n);
        if n == 0 {
            assert(digit(0) == '0');
            assert(s =~= seq!['0']);
        }
    } else {
        lemma_decimal(n / 10);
        let before = decimal(n / 10);
        let s = decimal(n);
        assert(s == before.push(digit(d)));
        assert(s.drop_last() =~= before);
        assert(s[0] == before[0]);
        assert forall|i: int| 0 <= i < s.len() implies '0' <= #[trigger] s[i] <= '9' by {
            if i < before.len() {
                assert(s[i] == before[i]);
            }
        }
    }
}

/// A number in decimal is read back as that number, up to the largest that is
/// allowed; it is made of digits, and no zero stands before them.
pub proof fn law_numbers_are_read_back(n: nat, maximum: nat)
    ensures
        n <= maximum ==> number_in(decimal(n), maximum) == Some(n),
        n > maximum ==> number_in(decimal(n), maximum) is None,
        decimal(n).len() > 0,
        forall|i: int| 0 <= i < decimal(n).len() ==> '0' <= #[trigger] decimal(n)[i] <= '9',
        n > 0 ==> decimal(n)[0] != '0',
        n == 0 ==> decimal(n) == seq!['0'],
{
    lemma_decimal(n);
    assert(decimal(n)[0] != '+');
}

/// What is read as a number is digits, with or without a plus before them, and
/// no larger than allowed; every digit counts ten times the next.
pub proof fn law_what_a_number_is(s: Seq<char>, maximum: nat, c: char)
    requires
        '0' <= c <= '9',
    ensures
        s.len() == 0 ==> number_in(s, maximum) is None,
        number_in(s, maximum) matches Some(n) ==> n <= maximum && forall|i: int|
            1 <= i < s.len() ==> '0' <= #[trigger] s[i] <= '9',
        number_in(s, maximum) is Some ==> '0' <= s[0] <= '9' || s[0] == '+' && s.len() > 1,
        (number_in(s, maximum) matches Some(n) && n * 10 + (c as nat - 48) <= maximum)
            ==> number_in(s.push(c), maximum) == Some(
            (number_in(s, maximum)->Some_0 * 10 + (c as nat - 48)) as nat,
        ),
        number_in(seq![c], maximum) == (if c as nat - 48 <= maximum {
            Some((c as nat - 48) as nat)
        } else {
            None::<nat>
        }),
{
    let one = seq![c];
    assert(one.drop_last() =~= Seq::empty());
    assert(digits_value(one.drop_last()) == 0);
    assert(digits_value(one) == c as nat - 48);
    assert(all_digits(one));
    if number_in(s, maximum) is Some {
        let digits = if s[0] == '+' {
            s.skip(1)
        } else {
            s
        };
        assert forall|i: int| 1 <= i < s.len() implies '0' <= #[trigger] s[i] <= '9' by {
            if s[0] == '+' {
                assert(digits[i - 1] == s[i]);
            } else {
                assert(digits[i] == s[i]);
            }
        }
        assert(digits[0] == digits[0]);
        let more = digits.push(c);
        assert(s.push(c)[0] == s[0]);
        if s[0] == '+' {
            assert(s.push(c).skip(1) =~= more);
        }
        assert(more.drop_last() =~= digits);
        assert(digits_value(more) == 10 * digits_value(digits) + (c as nat - 48));
        assert forall|i: int| 0 <= i < more.len() implies '0' <= #[trigger] more[i] <= '9' by {
            if i < digits.len() {
                assert(more[i] == digits[i]);
            }
        }
        assert(all_digits(more));
    }
}

// Lists of entries ------------------------------------------------------------

/// What is set under a key is found there, and nothing under another key
/// changes.
pub proof fn law_entries_are_found<V>(
    entries: Seq<(Seq<char>, V)>,
    key: Seq<char>,
    value: V,
    other: Seq<char>,
)
    ensures
        value_of(with_entry(entries, key, value), key) == Some(value),
        other != key ==> value_of(with_entry(entries, key, value), other) == value_of(
            entries,
            other,
        ),
        value_of(Seq::<(Seq<char>, V)>::empty(), other) is None,
        value_of(entries, key) is Some <==> exists|i: int|
            0 <= i < entries.len() && (#[trigger] entries[i]).0 == key,
        value_of(entries, key) matches Some(v) ==> entries.contains((key, v)),
{
    lemma_key_found(entries, key);
    lemma_key_found(entries, other);
    let after = with_entry(entries, key, value);
    let at = key_index(entries, key);
    if has_key(entries, key) {
        assert(entries[at as int] == (key, entries[at as int].1));
        assert forall|i: int| 0 <= i < at implies (#[trigger] after[i]).0 != key by {
            assert(after[i] == entries[i]);
        }
        lemma_key_index(after, key, at);
    } else {
        lemma_index_bound(entries, key);
        assert forall|i: int| 0 <= i < entries.len() implies (#[trigger] after[i]).0 != key by {
            assert(after[i] == entries[i]);
        }
        lemma_key_index(after, key, entries.len());
    }
    if other != key {
        lemma_index_bound(entries, other);
        let n = key_index(entries, other);
        assert forall|i: int| 0 <= i < n implies (#[trigger] after[i]).0 != other by {
            assert(after[i].0 == entries[i].0);
        }
        if n < entries.len() {
            assert(after[n as int] == entries[n as int]);
            lemma_key_index(after, other, n);
        } else if has_key(entries, key) {
            lemma_key_index(after, other, n);
        } else {
            lemma_key_index(after, other, n + 1);
        }
    }
}

proof fn lemma_index_bound<V>(entries: Seq<(Seq<char>, V)>, key: Seq<char>)
    ensures
        key_index(entries, key) <= entries.len(),
    decreases entries.len(),
{
    if entries.len() > 0 && entries[0].0 != key {
        lemma_index_bound(entries.skip(1), key);
    }
}

/// What is taken from under a key is gone, and nothing under another key
/// changes.
pub proof fn law_entries_are_taken<V>(
    entries: Seq<(Seq<char>, V)>,
    key: Seq<char>,
    other: Seq<char>,
)
    requires
        distinct_keys(entries),
    ensures
        value_of(without_entry(entries, key), key) is None,
        other != key ==> value_of(without_entry(entries, key), other) == value_of(entries, other),
        value_of(entries, key) is Some ==> without_entry(entries, key).len() + 1 == entries.len(),
        value_of(entries, key) is None ==> without_entry(entries, key) == entries,
{
    lemma_without_entry_distinct(entries, key);
    lemma_key_found(entries, key);
    lemma_key_found(entries, other);
    lemma_index_bound(entries, key);
    lemma_index_bound(entries, other);
    if has_key(entries, key) && other != key {
        let at = key_index(entries, key) as int;
        let n = key_index(entries, other) as int;
        let after = without_entry(entries, key);
        let m = if n > at {
            n - 1
        } else {
            n
        };
        assert forall|i: int| 0 <= i < m implies (#[trigger] after[i]).0 != other by {
            let p = if i < at {
                i
            } else {
                i + 1
            };
            assert(after[i] == entries[p]);
        }
        if n < entries.len() {
            assert(after[m] == entries[n]);
        }
        lemma_key_index(after, other, m as nat);
    }
}

} // verus!
