//! Quoting for the remote shell.

use vstd::prelude::*;

verus! {

/// A value inside single quotes: a quote in it leaves them, stands in double
/// quotes, and enters them again.
pub open spec fn escaped(value: Seq<char>) -> Seq<char>
    decreases value.len(),
{
    if value.len() == 0 {
        Seq::empty()
    } else if value[0] == '\'' {
        seq!['\'', '"', '\'', '"', '\''] + escaped(value.skip(1))
    } else {
        seq![value[0]] + escaped(value.skip(1))
    }
}

/// A value as one word of the shell.
pub open spec fn quoted(value: Seq<char>) -> Seq<char> {
    seq!['\''] + escaped(value) + seq!['\'']
}

/// Quotes a value for the shell.
pub fn shell_quote(value: &str) -> (r: String)
    ensures
        r@ == quoted(value@),
{
    let mut r = String::new();
    r.push('\'');
    let ghost open = r@;
    assert(open =~= seq!['\'']);
    assert(value@.skip(0) =~= value@);
    for c in it: value.chars()
        invariant
            it.seq() == value@,
            open == seq!['\''],
            r@ + escaped(value@.skip(it.index() as int)) == open + escaped(value@),
    {
        let ghost n = it.index() as int;
        let ghost rest = value@.skip(n);
        let ghost before = r@;
        assert(rest[0] == c);
        assert(rest.skip(1) =~= value@.skip(n + 1));
        if c == '\'' {
            r.push('\'');
            r.push('"');
            r.push('\'');
            r.push('"');
            r.push('\'');
            assert(r@ =~= before + seq!['\'', '"', '\'', '"', '\'']);
            assert(before + (seq!['\'', '"', '\'', '"', '\''] + escaped(rest.skip(1))) =~= r@
                + escaped(rest.skip(1)));
        } else {
            r.push(c);
            assert(before + (seq![c] + escaped(rest.skip(1))) =~= r@ + escaped(rest.skip(1)));
        }
    }
    assert(value@.skip(value@.len() as int) =~= Seq::empty());
    assert(r@ =~= open + escaped(value@));
    r.push('\'');
    assert(r@ =~= quoted(value@));
    r
}

/// Where a shell stands while it reads a word.
pub enum Quoting {
    Bare,
    Single,
    Double,
}

/// Whether a character ends a word outside quotes.
pub open spec fn ends_word(c: char) -> bool {
    c == ' ' || c == '\t' || c == '\n' || c == ';' || c == '&' || c == '|' || c == '<' || c == '>'
        || c == '(' || c == ')'
}

/// The word at the start of `s`, and what follows it, as a POSIX shell reads
/// them: nothing where a quote stays open, or where an expansion would begin.
pub open spec fn shell_word(s: Seq<char>, quoting: Quoting) -> Option<(Seq<char>, Seq<char>)>
    decreases s.len(),
{
    if s.len() == 0 {
        if quoting is Bare {
            Some((Seq::empty(), s))
        } else {
            None
        }
    } else {
        let c = s[0];
        match quoting {
            Quoting::Bare => if ends_word(c) {
                Some((Seq::empty(), s))
            } else if c == '\'' {
                shell_word(s.skip(1), Quoting::Single)
            } else if c == '"' {
                shell_word(s.skip(1), Quoting::Double)
            } else if c == '\\' || c == '$' || c == '`' {
                None
            } else {
                with_char(c, shell_word(s.skip(1), Quoting::Bare))
            },
            Quoting::Single => if c == '\'' {
                shell_word(s.skip(1), Quoting::Bare)
            } else {
                with_char(c, shell_word(s.skip(1), Quoting::Single))
            },
            Quoting::Double => if c == '"' {
                shell_word(s.skip(1), Quoting::Bare)
            } else if c == '\\' || c == '$' || c == '`' {
                None
            } else {
                with_char(c, shell_word(s.skip(1), Quoting::Double))
            },
        }
    }
}

pub open spec fn with_char(c: char, word: Option<(Seq<char>, Seq<char>)>) -> Option<
    (Seq<char>, Seq<char>),
> {
    match word {
        Some((w, rest)) => Some((seq![c] + w, rest)),
        None => None,
    }
}

proof fn lemma_escaped_reads_back(value: Seq<char>, rest: Seq<char>)
    requires
        rest.len() == 0 || ends_word(rest[0]),
    ensures
        shell_word(escaped(value) + seq!['\''] + rest, Quoting::Single) == Some((value, rest)),
    decreases value.len(),
{
    let s = escaped(value) + seq!['\''] + rest;
    if value.len() == 0 {
        assert(s[0] == '\'');
        assert(s.skip(1) =~= rest);
        assert(value =~= Seq::empty());
        assert(shell_word(rest, Quoting::Bare) == Some((value, rest)));
    } else {
        let tail = value.skip(1);
        let after = escaped(tail) + seq!['\''] + rest;
        lemma_escaped_reads_back(tail, rest);
        assert(seq![value[0]] + tail =~= value);
        if value[0] == '\'' {
            let s1 = s.skip(1);
            let s2 = s1.skip(1);
            let s3 = s2.skip(1);
            let s4 = s3.skip(1);
            let s5 = s4.skip(1);
            assert(s[0] == '\'' && s1[0] == '"' && s2[0] == '\'' && s3[0] == '"' && s4[0] == '\'');
            assert(s5 =~= after);
            assert(shell_word(s4, Quoting::Bare) == Some((tail, rest)));
            assert(shell_word(s3, Quoting::Double) == Some((tail, rest)));
            assert(shell_word(s2, Quoting::Double) == Some((seq!['\''] + tail, rest)));
            assert(shell_word(s1, Quoting::Bare) == Some((value, rest)));
        } else {
            assert(s[0] == value[0]);
            assert(s.skip(1) =~= after);
            assert(shell_word(s.skip(1), Quoting::Single) == Some((tail, rest)));
        }
    }
}

/// Whatever the value, a shell reads the quoted value as one word that is the
/// value, and goes on behind it.
pub proof fn law_quoted_values_read_back(value: Seq<char>, rest: Seq<char>)
    requires
        rest.len() == 0 || ends_word(rest[0]),
    ensures
        shell_word(quoted(value) + rest, Quoting::Bare) == Some((value, rest)),
{
    let s = quoted(value) + rest;
    assert(s[0] == '\'');
    assert(s.skip(1) =~= escaped(value) + seq!['\''] + rest);
    lemma_escaped_reads_back(value, rest);
}

} // verus!
