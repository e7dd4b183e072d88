//! What is read from `ssh`, and how a value is written for it.

use vstd::prelude::*;
use vstd::utf8::*;
use crate::entries::{value_of, with_entry};
use crate::profile::host_refusal;
use crate::ssh::{
    SnapshotFile, SshSnapshot, config_escaped, config_value, config_word, entries_view, facts_in,
    first_of_key, has_control, holds_snapshot, inherited_arguments, inherited_values_of,
    names_managed_config, own_values, parsed_lines, parsed_ssh, same_entries, source_values_of,
    stated_facts, with_managed_config, with_value,
};
use crate::text::{is_white, lines, lower, trim};
use crate::text_laws::{
    law_entries_are_found, law_lines, law_lines_join, law_splitting, law_trimming,
};

verus! {

/// The first `n` lines say what they say, whatever follows.
proof fn lemma_parsed_prefix(all: Seq<Seq<char>>, more: Seq<Seq<char>>, n: nat)
    requires
        n <= all.len(),
    ensures
        parsed_lines(all + more, n) == parsed_lines(all, n),
    decreases n,
{
    if n > 0 {
        lemma_parsed_prefix(all, more, (n - 1) as nat);
        assert((all + more)[n - 1] == all[n - 1]);
    }
}

proof fn lemma_one_line_more(text: Seq<char>, line: Seq<char>)
    requires
        text.len() > 0 ==> text.last() == '\n',
        line.len() > 0 ==> line.last() != '\r',
        forall|i: int| 0 <= i < line.len() ==> #[trigger] line[i] != '\n',
    ensures
        lines(text + line + seq!['\n']) == lines(text).push(line),
{
    law_lines(line, Seq::empty());
    let last = line + seq!['\n'];
    assert(line + seq!['\n'] + Seq::<char>::empty() =~= last);
    assert(seq![line] + Seq::<Seq<char>>::empty() =~= seq![line]);
    law_lines_join(text, last);
    assert(text + last =~= text + line + seq!['\n']);
    assert(lines(text) + seq![line] =~= lines(text).push(line));
}

/// A line of `ssh -G` gives an option one more value, behind those that it
/// has; the other options stay as they are. The option is known by its name in
/// small letters.
pub proof fn law_options_are_read(
    text: Seq<char>,
    key: Seq<char>,
    value: Seq<char>,
    other: Seq<char>,
)
    requires
        text.len() > 0 ==> text.last() == '\n',
        parsed_ssh(text) is Ok,
        key.len() > 0,
        forall|i: int| 0 <= i < key.len() ==> !is_white(#[trigger] key[i]),
        value.len() > 0,
        !is_white(value[0]),
        !is_white(value.last()),
        !has_control(value),
    ensures
        ({
            let before = parsed_ssh(text)->Ok_0;
            parsed_ssh(text + key + " "@ + value + "\n"@) matches Ok(after) && {
                &&& value_of(after, lower(key)) == Some(
                    (match value_of(before, lower(key)) {
                        Some(list) => list,
                        None => Seq::empty(),
                    }).push(value),
                )
                &&& other != lower(key) ==> value_of(after, other) == value_of(before, other)
            }
        }),
{
    reveal_strlit(" ");
    reveal_strlit("\n");
    let line = key + " "@ + value;
    assert("\n"@ =~= seq!['\n']);
    assert(text + key + " "@ + value + "\n"@ =~= text + line + seq!['\n']);
    lemma_one_option_more(text, key, value, line);
    lemma_one_value_more(parsed_ssh(text)->Ok_0, lower(key), value, other);
}

/// What a line of one option makes of those before.
proof fn lemma_one_option_more(
    text: Seq<char>,
    key: Seq<char>,
    value: Seq<char>,
    line: Seq<char>,
)
    requires
        text.len() > 0 ==> text.last() == '\n',
        parsed_ssh(text) is Ok,
        key.len() > 0,
        forall|i: int| 0 <= i < key.len() ==> !is_white(#[trigger] key[i]),
        value.len() > 0,
        !is_white(value[0]),
        !is_white(value.last()),
        !has_control(value),
        line == key + " "@ + value,
    ensures
        parsed_ssh(text + line + seq!['\n']) == Ok::<_, Seq<char>>(
            with_value(parsed_ssh(text)->Ok_0, lower(key), value),
        ),
{
    reveal_strlit(" ");
    assert(" "@ =~= seq![' ']);
    lemma_no_newline(key, value, line);
    lemma_one_line_more(text, line);
    let all = lines(text);
    lemma_parsed_prefix(all, seq![line], all.len());
    assert(all + seq![line] =~= all.push(line));
    let none = Seq::<char>::empty();
    law_trimming(none, line, none);
    assert(none + line + none =~= line);
    law_trimming(none, value, none);
    assert(none + value + none =~= value);
    law_splitting(key, ' ', value, |c: char| is_white(c));
}

proof fn lemma_one_value_more(
    before: Seq<(Seq<char>, Seq<Seq<char>>)>,
    key: Seq<char>,
    value: Seq<char>,
    other: Seq<char>,
)
    ensures
        value_of(with_value(before, key, value), key) == Some(
            (match value_of(before, key) {
                Some(list) => list,
                None => Seq::empty(),
            }).push(value),
        ),
        other != key ==> value_of(with_value(before, key, value), other) == value_of(
            before,
            other,
        ),
{
    match value_of(before, key) {
        Some(list) => {
            law_entries_are_found(before, key, list.push(value), other);
        },
        None => {
            assert(Seq::<Seq<char>>::empty().push(value) =~= seq![value]);
            law_entries_are_found(before, key, seq![value], other);
        },
    }
}

proof fn lemma_no_newline(key: Seq<char>, value: Seq<char>, line: Seq<char>)
    requires
        key.len() > 0,
        value.len() > 0,
        forall|i: int| 0 <= i < key.len() ==> !is_white(#[trigger] key[i]),
        !has_control(value),
        line == key + " "@ + value,
    ensures
        line.len() > 0,
        line.last() != '\r',
        line[0] == key[0],
        line.last() == value.last(),
        forall|i: int| 0 <= i < line.len() ==> #[trigger] line[i] != '\n',
{
    reveal_strlit(" ");
    assert forall|i: int| 0 <= i < line.len() implies #[trigger] line[i] != '\n' by {
        if i < key.len() {
            assert(line[i] == key[i]);
        } else if i == key.len() {
            assert(line[i] == ' ');
        } else {
            let k = i - key.len() - 1;
            assert(line[i] == value[k]);
            if value[k] == '\n' {
                assert(has_control(value));
            }
        }
    }
    let last = value.len() - 1;
    assert(line.last() == value[last]);
    if value[last] == '\r' {
        assert(has_control(value));
    }
}

/// A blank line says nothing, a line of one word is refused, and what was
/// refused stays so whatever follows.
pub proof fn law_malformed_lines_are_refused(text: Seq<char>, line: Seq<char>, more: Seq<char>)
    requires
        text.len() > 0 ==> text.last() == '\n',
        line.len() > 0 ==> line.last() != '\r',
        forall|i: int| 0 <= i < line.len() ==> #[trigger] line[i] != '\n',
    ensures
        (forall|i: int| 0 <= i < line.len() ==> is_white(#[trigger] line[i])) ==> parsed_ssh(
            text + line + "\n"@,
        ) == parsed_ssh(text),
        line.len() > 0 && (forall|i: int| 0 <= i < line.len() ==> !is_white(#[trigger] line[i]))
            ==> parsed_ssh(text + line + "\n"@) is Err,
        parsed_ssh(text) is Err ==> parsed_ssh(text + more) is Err,
{
    reveal_strlit("\n");
    assert("\n"@ =~= seq!['\n']);
    lemma_one_line_more(text, line);
    let all = lines(text);
    assert(all + seq![line] =~= all.push(line));
    lemma_parsed_prefix(all, seq![line], all.len());
    let none = Seq::<char>::empty();
    if forall|i: int| 0 <= i < line.len() ==> is_white(#[trigger] line[i]) {
        law_trimming(line, none, none);
        assert(line + none + none =~= line);
    }
    if line.len() > 0 && (forall|i: int| 0 <= i < line.len() ==> !is_white(#[trigger] line[i])) {
        assert(!is_white(line[line.len() - 1]));
        law_trimming(none, line, none);
        assert(none + line + none =~= line);
        law_splitting(line, ' ', none, |c: char| is_white(c));
    }
    law_lines_join(text, more);
    lemma_parsed_prefix(all, lines(more), all.len());
    if parsed_ssh(text) is Err {
        lemma_stays_refused(all + lines(more), all.len(), (all + lines(more)).len());
    }
}

proof fn lemma_stays_refused(all: Seq<Seq<char>>, n: nat, m: nat)
    requires
        n <= m,
        parsed_lines(all, n) is Err,
    ensures
        parsed_lines(all, m) is Err,
    decreases m,
{
    if n < m {
        lemma_stays_refused(all, n, (m - 1) as nat);
    }
}

/// A value never holds a line ending or a null; one that does is refused.
pub proof fn law_control_characters_are_refused(value: Seq<char>, i: int)
    requires
        0 <= i < value.len(),
    ensures
        value[i] == '\n' || value[i] == '\r' || value[i] == '\0' ==> has_control(value)
            && config_value(value) is Err,
        config_value(value) is Ok ==> config_value(value)->Ok_0 == config_word(value),
{
}

/// What `ssh -G` says of the source host is taken exactly when it can be read
/// and names the host, the user and the port.
pub proof fn law_what_a_source_needs(host: Seq<char>, text: Seq<char>)
    ensures
        source_values_of(host, encode_utf8(text)) is Ok <==> {
            &&& host_refusal(host) is None
            &&& parsed_ssh(text) matches Ok(values) && {
                &&& first_of_key(values, "hostname"@) is Some
                &&& first_of_key(values, "user"@) is Some
                &&& first_of_key(values, "port"@) is Some
            }
        },
        source_values_of(host, encode_utf8(text)) is Ok ==> source_values_of(
            host,
            encode_utf8(text),
        ) == parsed_ssh(text),
        inherited_values_of(encode_utf8(text)) == parsed_ssh(text),
{
    encode_utf8_decode_utf8(text);
    encode_utf8_valid_utf8(text);
}

/// The first value of an option is the one that counts.
pub proof fn law_the_first_value_counts(
    values: Seq<(Seq<char>, Seq<Seq<char>>)>,
    key: Seq<char>,
    list: Seq<Seq<char>>,
)
    requires
        value_of(values, key) == Some(list),
    ensures
        list.len() > 0 ==> first_of_key(values, key) == Some(list[0]),
        list.len() == 0 ==> first_of_key(values, key) is None,
{
}

/// Two lists of options are the same where every option has the same values in
/// both; one option that differs is enough to tell them apart.
pub proof fn law_when_options_are_the_same(
    a: Seq<(Seq<char>, Seq<Seq<char>>)>,
    b: Seq<(Seq<char>, Seq<Seq<char>>)>,
    key: Seq<char>,
    list: Seq<Seq<char>>,
)
    ensures
        same_entries(a, a),
        same_entries(a, b) ==> same_entries(b, a),
        value_of(a, key) != value_of(b, key) ==> !same_entries(a, b),
        value_of(a, key) != Some(list) ==> !same_entries(a, with_entry(a, key, list)),
        value_of(a, key) == Some(list) ==> same_entries(a, with_entry(a, key, list)),
{
    law_entries_are_found(a, key, list, key);
    if value_of(a, key) == Some(list) {
        assert forall|other: Seq<char>| #[trigger] value_of(a, other) == value_of(
            with_entry(a, key, list),
            other,
        ) by {
            law_entries_are_found(a, key, list, other);
        }
    }
}

/// A file holds the snapshot of one host: its name, its options, and what the
/// alias inherits.
pub proof fn law_what_a_snapshot_file_holds(file: SnapshotFile, snapshot: SshSnapshot)
    requires
        holds_snapshot(file, snapshot),
    ensures
        file.source_host@ == snapshot.source_host@,
        entries_view(file.values@) == snapshot.values@,
        entries_view(file.inherited_values@) == snapshot.inherited_values@,
{
}

/// What the alias inherits is asked for a host that only general rules match,
/// with the address, the user, the port and the jump host of the source.
pub proof fn law_what_the_alias_inherits_is_asked_for(
    hostname: Seq<char>,
    user: Seq<char>,
    port: Seq<char>,
    jump: Seq<char>,
)
    ensures
        inherited_arguments(hostname, user, port, None) == seq![
            "-G"@,
            "-o"@,
            "HostName="@ + hostname,
            "-o"@,
            "User="@ + user,
            "-o"@,
            "Port="@ + port,
            "cxs-inherited-probe.invalid"@,
        ],
        jump == "none"@ ==> inherited_arguments(hostname, user, port, Some(jump))
            == inherited_arguments(hostname, user, port, None),
        jump != "none"@ ==> inherited_arguments(hostname, user, port, Some(jump)) == seq![
            "-G"@,
            "-o"@,
            "HostName="@ + hostname,
            "-o"@,
            "User="@ + user,
            "-o"@,
            "Port="@ + port,
            "-o"@,
            "ProxyJump="@ + jump,
            "cxs-inherited-probe.invalid"@,
        ],
{
    assert(inherited_arguments(hostname, user, port, None) =~= seq![
        "-G"@,
        "-o"@,
        "HostName="@ + hostname,
        "-o"@,
        "User="@ + user,
        "-o"@,
        "Port="@ + port,
        "cxs-inherited-probe.invalid"@,
    ]);
    if jump != "none"@ {
        assert(inherited_arguments(hostname, user, port, Some(jump)) =~= seq![
            "-G"@,
            "-o"@,
            "HostName="@ + hostname,
            "-o"@,
            "User="@ + user,
            "-o"@,
            "Port="@ + port,
            "-o"@,
            "ProxyJump="@ + jump,
            "cxs-inherited-probe.invalid"@,
        ]);
    }
}

/// The block repeats nothing that the alias has anyway; of identity files,
/// which add up, each by itself; and all else that the source host has.
pub proof fn law_what_is_repeated(
    key: Seq<char>,
    list: Seq<Seq<char>>,
    inherited: Seq<Seq<char>>,
    value: Seq<char>,
)
    ensures
        own_values(key, list, None) == list,
        own_values(key, list, Some(list)) == Seq::<Seq<char>>::empty(),
        key != "identityfile"@ && inherited != list ==> own_values(key, list, Some(inherited))
            == list,
        key == "identityfile"@ && inherited != list ==> (own_values(
            key,
            list,
            Some(inherited),
        ).contains(value) <==> list.contains(value) && !inherited.contains(value)),
{
    if key == "identityfile"@ && inherited != list {
        let keep = |value: Seq<char>| !inherited.contains(value);
        if list.contains(value) && !inherited.contains(value) {
            let i = list.index_of(value);
            assert(list[i] == value);
            list.lemma_filter_contains(keep, i);
        }
        let own = own_values(key, list, Some(inherited));
        if own.contains(value) {
            list.lemma_filter_contains_rev(keep, value);
            let i = own.index_of(value);
            assert(own[i] == value);
            list.lemma_filter_pred(keep, i);
        }
    }
}

/// A value without blanks, quotes, backslashes and hashes is written as it is.
/// Any other stands between quotes, with a backslash before each quote and
/// each backslash in it.
pub proof fn law_how_a_value_is_written(value: Seq<char>, i: int)
    ensures
        (forall|k: int|
            0 <= k < value.len() ==> {
                let c = #[trigger] value[k];
                c != ' ' && c != '\t' && c != '\n' && c != '\r' && c != '\u{c}' && c != '"' && c
                    != '\\' && c != '#'
            }) ==> config_word(value) == value,
        0 <= i < value.len() && (value[i] == ' ' || value[i] == '\t' || value[i] == '"' || value[i]
            == '\\' || value[i] == '#') ==> {
            &&& config_word(value) == seq!['"'] + config_escaped(value) + seq!['"']
            &&& config_word(value)[0] == '"'
            &&& config_word(value).last() == '"'
        },
        config_escaped(Seq::empty()) == Seq::<char>::empty(),
        config_escaped(value + seq!['"']) == config_escaped(value) + seq!['\\', '"'],
        config_escaped(value + seq!['\\']) == config_escaped(value) + seq!['\\', '\\'],
{
    let quote = value + seq!['"'];
    assert(quote.drop_last() =~= value);
    assert(config_escaped(quote) =~= config_escaped(value) + seq!['\\', '"']);
    let slash = value + seq!['\\'];
    assert(slash.drop_last() =~= value);
    assert(config_escaped(slash) =~= config_escaped(value) + seq!['\\', '\\']);
    assert(config_escaped(Seq::empty()) =~= Seq::<char>::empty());
}

/// The user's configuration comes to name the managed file by this line, which
/// stands before all else, so that what it says counts.
pub proof fn law_how_the_managed_file_is_named(text: Seq<char>)
    ensures
        with_managed_config(text) == "Include ~/.ssh/codex-shuttle.conf\n\n"@ + text,
        names_managed_config(text) <==> exists|i: int|
            0 <= i < lines(text).len() && trim(#[trigger] lines(text)[i])
                == "Include ~/.ssh/codex-shuttle.conf"@,
{
    reveal_strlit("Include ~/.ssh/codex-shuttle.conf\n\n");
    reveal_strlit("Include ~/.ssh/codex-shuttle.conf");
    reveal_strlit("\n\n");
    assert(with_managed_config(text) =~= "Include ~/.ssh/codex-shuttle.conf\n\n"@ + text);
}

// Facts about the remote host ---------------------------------------------------

proof fn lemma_facts_prefix(all: Seq<Seq<char>>, more: Seq<Seq<char>>, n: nat)
    requires
        n <= all.len(),
    ensures
        stated_facts(all + more, n) == stated_facts(all, n),
    decreases n,
{
    if n > 0 {
        lemma_facts_prefix(all, more, (n - 1) as nat);
        assert((all + more)[n - 1] == all[n - 1]);
    }
}

/// One line more is one fact more.
proof fn lemma_one_fact_more(
    text: Seq<char>,
    key: Seq<char>,
    value: Seq<char>,
    line: Seq<char>,
    other: Seq<char>,
)
    requires
        text.len() > 0 ==> text.last() == '\n',
        forall|i: int| 0 <= i < key.len() ==> #[trigger] key[i] != '=' && key[i] != '\n',
        forall|i: int| 0 <= i < value.len() ==> #[trigger] value[i] != '\n' && value[i] != '\r',
        line == key + seq!['='] + value,
    ensures
        ({
            let before = stated_facts(lines(text), lines(text).len());
            let all = lines(text + line + seq!['\n']);
            let after = stated_facts(all, all.len());
            &&& value_of(after, key) == Some(value)
            &&& other != key ==> value_of(after, other) == value_of(before, other)
        }),
{
    assert forall|i: int| 0 <= i < line.len() implies #[trigger] line[i] != '\n' by {
        if i < key.len() {
            assert(line[i] == key[i]);
        } else if i > key.len() {
            assert(line[i] == value[i - key.len() - 1]);
        }
    }
    if value.len() > 0 {
        assert(line.last() == value[value.len() - 1]);
    }
    lemma_one_line_more(text, line);
    let all = lines(text);
    lemma_facts_prefix(all, seq![line], all.len());
    assert(all + seq![line] =~= all.push(line));
    law_splitting(key, '=', value, |c: char| c == '=');
    let before = stated_facts(all, all.len());
    law_entries_are_found(before, key, value, other);
}

/// What a host says of its home, its kernel and its machine is what is known of
/// it.
pub proof fn law_facts_are_read(home: Seq<char>, kernel: Seq<char>, arch: Seq<char>)
    requires
        forall|i: int| 0 <= i < home.len() ==> #[trigger] home[i] != '\n' && home[i] != '\r',
        forall|i: int| 0 <= i < kernel.len() ==> #[trigger] kernel[i] != '\n' && kernel[i] != '\r',
        forall|i: int| 0 <= i < arch.len() ==> #[trigger] arch[i] != '\n' && arch[i] != '\r',
    ensures
        facts_in(
            encode_utf8(
                "home="@ + home + "\nkernel="@ + kernel + "\narch="@ + arch + "\n"@,
            ),
        ) == Ok::<(Seq<char>, Seq<char>, Seq<char>), Seq<char>>((home, kernel, arch)),
{
    reveal_strlit("home=");
    reveal_strlit("\nkernel=");
    reveal_strlit("\narch=");
    reveal_strlit("\n");
    reveal_strlit("home");
    reveal_strlit("kernel");
    reveal_strlit("arch");
    assert("home"@.len() == 4 && "home"@[0] == 'h' && "kernel"@.len() == 6 && "arch"@.len() == 4
        && "arch"@[0] == 'a');
    let text = "home="@ + home + "\nkernel="@ + kernel + "\narch="@ + arch + "\n"@;
    encode_utf8_decode_utf8(text);
    encode_utf8_valid_utf8(text);
    let none = Seq::<char>::empty();
    let a = "home"@ + seq!['='] + home;
    let b = "kernel"@ + seq!['='] + kernel;
    let c = "arch"@ + seq!['='] + arch;
    let one = none + a + seq!['\n'];
    let two = one + b + seq!['\n'];
    let three = two + c + seq!['\n'];
    assert(text =~= three);
    lemma_one_fact_more(none, "home"@, home, a, "home"@);
    lemma_one_fact_more(one, "kernel"@, kernel, b, "home"@);
    lemma_one_fact_more(two, "arch"@, arch, c, "home"@);
    lemma_one_fact_more(two, "arch"@, arch, c, "kernel"@);
}

/// Where one of the three is missing, the host is not known.
pub proof fn law_all_facts_are_needed(text: Seq<char>)
    ensures
        ({
            let stated = stated_facts(lines(text), lines(text).len());
            facts_in(encode_utf8(text)) is Ok <==> value_of(stated, "home"@) is Some && value_of(
                stated,
                "kernel"@,
            ) is Some && value_of(stated, "arch"@) is Some
        }),
{
    encode_utf8_decode_utf8(text);
    encode_utf8_valid_utf8(text);
}

} // verus!
