//! What the generated host block says, line by line: which of the source
//! host's options it carries over, and under which names.

use vstd::prelude::*;
use crate::entries::value_of;
use crate::profile::{Profile, ProfileView};
use crate::ssh::{
    SshSnapshot, block_head, config_word, directive_of, first_of_key, has_control, host_block,
    host_blocks, is_argument_list, managed_config, may_be_none, option_lines, own_values,
    proxy_line, repeated_options, with_options,
};
use crate::ssh_laws::{
    block_comment, fits_in_block, has_newline, is_laid_out, is_layout, is_line, lemma_comment,
    lemma_directive, lemma_head, lemma_lines_of_text, lemma_no_control_is_line,
    lemma_no_control_join, lemma_option_lines, lemma_options, lemma_word_no_control, line_text,
};
use crate::text::lines;

verus! {

/// The line that sets an option of the source host.
spec fn setting_line(key: Seq<char>, value: Seq<char>) -> Seq<char> {
    "  "@ + directive_of(key) + " "@ + (if is_argument_list(key) {
        value
    } else {
        config_word(value)
    })
}

/// Whether a value of an option says nothing.
spec fn says_nothing(key: Seq<char>, value: Seq<char>) -> bool {
    value == "none"@ && may_be_none(key)
}

/// A line behind lines is one more line.
proof fn lemma_push_line(text: Seq<char>, alias: Seq<char>, line: Seq<char>)
    requires
        is_laid_out(text, alias),
        is_line(line),
    ensures
        lines(text + (line + seq!['\n'])) == lines(text).push(line),
{
    let all = choose|all: Seq<Seq<char>>|
        text == #[trigger] line_text(all) && is_layout(all, alias);
    lemma_lines_of_text(all);
    let more = all.push(line);
    assert(more.drop_last() =~= all);
    assert(line_text(more) =~= text + (line + seq!['\n']));
    assert forall|i: int| 0 <= i < more.len() implies is_line(#[trigger] more[i]) by {
        if i < all.len() {
            assert(more[i] == all[i]);
        }
    }
    lemma_lines_of_text(more);
}

proof fn lemma_setting_is_line(key: Seq<char>, value: Seq<char>)
    requires
        repeated_options().contains(key),
        !has_control(value),
    ensures
        is_line(setting_line(key, value)),
{
    reveal_strlit("  ");
    reveal_strlit(" ");
    lemma_directive(key);
    lemma_word_no_control(value);
    let word = if is_argument_list(key) {
        value
    } else {
        config_word(value)
    };
    assert(!has_control("  "@));
    assert(!has_control(" "@));
    lemma_no_control_join("  "@, directive_of(key));
    lemma_no_control_join("  "@ + directive_of(key), " "@);
    lemma_no_control_join("  "@ + directive_of(key) + " "@, word);
    lemma_no_control_is_line(setting_line(key, value));
}

/// What one value of an option adds to a block.
proof fn lemma_line_of_value(
    text: Seq<char>,
    alias: Seq<char>,
    key: Seq<char>,
    list: Seq<Seq<char>>,
    n: nat,
)
    requires
        0 < n <= list.len(),
        repeated_options().contains(key),
        is_laid_out(text, alias),
        option_lines(Ok(text), key, list, n) is Ok,
    ensures
        option_lines(Ok(text), key, list, (n - 1) as nat) is Ok,
        ({
            let before = lines(option_lines(Ok(text), key, list, (n - 1) as nat)->Ok_0);
            let after = lines(option_lines(Ok(text), key, list, n)->Ok_0);
            after == (if says_nothing(key, list[n - 1]) {
                before
            } else {
                before.push(setting_line(key, list[n - 1]))
            })
        }),
{
    let m = (n - 1) as nat;
    assert(option_lines(Ok(text), key, list, m) is Ok);
    lemma_option_lines(Ok(text), alias, key, list, m);
    let before = option_lines(Ok(text), key, list, m)->Ok_0;
    let after = option_lines(Ok(text), key, list, n)->Ok_0;
    let value = list[n - 1];
    if says_nothing(key, value) {
        assert(before + Seq::<char>::empty() =~= before);
        assert(after == before);
    } else {
        reveal_strlit("\n");
        assert("\n"@ =~= seq!['\n']);
        let line = setting_line(key, value);
        lemma_setting_is_line(key, value);
        lemma_push_line(before, alias, line);
        assert(after =~= before + (line + seq!['\n']));
    }
}

/// Every value of an option that says something has its line.
proof fn lemma_values_have_lines(
    text: Seq<char>,
    alias: Seq<char>,
    key: Seq<char>,
    list: Seq<Seq<char>>,
    n: nat,
    i: int,
)
    requires
        n <= list.len(),
        repeated_options().contains(key),
        is_laid_out(text, alias),
        option_lines(Ok(text), key, list, n) is Ok,
    ensures
        lines(text).is_prefix_of(lines(option_lines(Ok(text), key, list, n)->Ok_0)),
        0 <= i < n && !says_nothing(key, list[i]) ==> lines(
            option_lines(Ok(text), key, list, n)->Ok_0,
        ).contains(setting_line(key, list[i])),
    decreases n,
{
    if n == 0 {
        assert(lines(text).take(lines(text).len() as int) =~= lines(text));
    } else {
        lemma_line_of_value(text, alias, key, list, n);
        lemma_values_have_lines(text, alias, key, list, (n - 1) as nat, i);
        let start = lines(text);
        let before = lines(option_lines(Ok(text), key, list, (n - 1) as nat)->Ok_0);
        let after = lines(option_lines(Ok(text), key, list, n)->Ok_0);
        assert(start =~= before.take(start.len() as int));
        assert(start =~= after.take(start.len() as int));
        if 0 <= i < n && !says_nothing(key, list[i]) {
            let line = setting_line(key, list[i]);
            if i < n - 1 {
                let k = before.index_of(line);
                assert(before[k] == line);
                assert(after[k] == line);
            } else {
                assert(after[after.len() - 1] == line);
            }
        }
    }
}

/// Every line of an option comes from one of its values.
proof fn lemma_lines_have_values(
    text: Seq<char>,
    alias: Seq<char>,
    key: Seq<char>,
    list: Seq<Seq<char>>,
    n: nat,
    k: int,
)
    requires
        n <= list.len(),
        repeated_options().contains(key),
        is_laid_out(text, alias),
        option_lines(Ok(text), key, list, n) is Ok,
        lines(text).len() <= k < lines(option_lines(Ok(text), key, list, n)->Ok_0).len(),
    ensures
        exists|i: int|
            0 <= i < n && !says_nothing(key, #[trigger] list[i]) && lines(
                option_lines(Ok(text), key, list, n)->Ok_0,
            )[k] == setting_line(key, list[i]),
    decreases n,
{
    if n > 0 {
        lemma_line_of_value(text, alias, key, list, n);
        let before = lines(option_lines(Ok(text), key, list, (n - 1) as nat)->Ok_0);
        let after = lines(option_lines(Ok(text), key, list, n)->Ok_0);
        if k < before.len() {
            lemma_lines_have_values(text, alias, key, list, (n - 1) as nat, k);
            assert(after[k] == before[k]);
        } else {
            assert(after[k] == setting_line(key, list[n - 1]));
        }
    }
}

/// The values of an option that the alias does not have anyway.
spec fn carried(
    values: Seq<(Seq<char>, Seq<Seq<char>>)>,
    inherited: Seq<(Seq<char>, Seq<Seq<char>>)>,
    key: Seq<char>,
) -> Seq<Seq<char>> {
    match value_of(values, key) {
        Some(list) => own_values(key, list, value_of(inherited, key)),
        None => Seq::empty(),
    }
}

/// What one option adds to a block is what its values add.
proof fn lemma_option_step(
    text: Seq<char>,
    values: Seq<(Seq<char>, Seq<Seq<char>>)>,
    inherited: Seq<(Seq<char>, Seq<Seq<char>>)>,
    n: nat,
)
    requires
        0 < n <= repeated_options().len(),
        with_options(Ok(text), values, inherited, repeated_options(), n) is Ok,
    ensures
        with_options(Ok(text), values, inherited, repeated_options(), (n - 1) as nat) is Ok,
        with_options(Ok(text), values, inherited, repeated_options(), n) == option_lines(
            with_options(Ok(text), values, inherited, repeated_options(), (n - 1) as nat),
            repeated_options()[n - 1],
            carried(values, inherited, repeated_options()[n - 1]),
            carried(values, inherited, repeated_options()[n - 1]).len(),
        ),
{
    let key = repeated_options()[n - 1];
    let start = with_options(Ok(text), values, inherited, repeated_options(), (n - 1) as nat);
    let own = carried(values, inherited, key);
    if start is Err && value_of(values, key) is Some {
        lemma_refused(start, key, own, own.len());
    }
}

/// Every option that is carried over has its lines.
proof fn lemma_options_have_lines(
    text: Seq<char>,
    alias: Seq<char>,
    values: Seq<(Seq<char>, Seq<Seq<char>>)>,
    inherited: Seq<(Seq<char>, Seq<Seq<char>>)>,
    n: nat,
    j: int,
    i: int,
)
    requires
        n <= repeated_options().len(),
        is_laid_out(text, alias),
        with_options(Ok(text), values, inherited, repeated_options(), n) is Ok,
    ensures
        ({
            let after = lines(
                with_options(Ok(text), values, inherited, repeated_options(), n)->Ok_0,
            );
            let key = repeated_options()[j];
            let own = carried(values, inherited, key);
            &&& lines(text).is_prefix_of(after)
            &&& 0 <= j < n && 0 <= i < own.len() && !says_nothing(key, own[i]) ==> after.contains(
                setting_line(key, own[i]),
            )
        }),
    decreases n,
{
    if n == 0 {
        assert(lines(text).take(lines(text).len() as int) =~= lines(text));
    } else {
        let keys = repeated_options();
        let m = (n - 1) as nat;
        lemma_option_step(text, values, inherited, n);
        lemma_options_have_lines(text, alias, values, inherited, m, j, i);
        lemma_options(Ok(text), alias, values, inherited, m);
        let middle = with_options(Ok(text), values, inherited, keys, m)->Ok_0;
        let own = carried(values, inherited, keys[n - 1]);
        assert(keys.contains(keys[n - 1]));
        lemma_values_have_lines(middle, alias, keys[n - 1], own, own.len(), i);
        let start = lines(text);
        let before = lines(middle);
        let after = lines(with_options(Ok(text), values, inherited, keys, n)->Ok_0);
        assert(before =~= after.take(before.len() as int));
        assert(start =~= before.take(start.len() as int));
        assert(start =~= after.take(start.len() as int));
        let own_j = carried(values, inherited, keys[j]);
        if 0 <= j < m && 0 <= i < own_j.len() && !says_nothing(keys[j], own_j[i]) {
            let line = setting_line(keys[j], own_j[i]);
            let k = before.index_of(line);
            assert(before[k] == line);
            assert(after[k] == line);
        }
    }
}

/// Every line of the options comes from a value that is carried over.
proof fn lemma_lines_have_options(
    text: Seq<char>,
    alias: Seq<char>,
    values: Seq<(Seq<char>, Seq<Seq<char>>)>,
    inherited: Seq<(Seq<char>, Seq<Seq<char>>)>,
    n: nat,
    k: int,
)
    requires
        n <= repeated_options().len(),
        is_laid_out(text, alias),
        with_options(Ok(text), values, inherited, repeated_options(), n) is Ok,
        lines(text).len() <= k < lines(
            with_options(Ok(text), values, inherited, repeated_options(), n)->Ok_0,
        ).len(),
    ensures
        exists|j: int, value: Seq<char>|
            #![trigger setting_line(repeated_options()[j], value)]
            0 <= j < n && carried(values, inherited, repeated_options()[j]).contains(value)
                && !says_nothing(repeated_options()[j], value) && lines(
                with_options(Ok(text), values, inherited, repeated_options(), n)->Ok_0,
            )[k] == setting_line(repeated_options()[j], value),
    decreases n,
{
    if n > 0 {
        let keys = repeated_options();
        let m = (n - 1) as nat;
        lemma_option_step(text, values, inherited, n);
        lemma_options(Ok(text), alias, values, inherited, m);
        let middle = with_options(Ok(text), values, inherited, keys, m)->Ok_0;
        let own = carried(values, inherited, keys[n - 1]);
        assert(keys.contains(keys[n - 1]));
        lemma_values_have_lines(middle, alias, keys[n - 1], own, own.len(), 0);
        let before = lines(middle);
        let after = lines(with_options(Ok(text), values, inherited, keys, n)->Ok_0);
        assert(before =~= after.take(before.len() as int));
        if k < before.len() {
            lemma_lines_have_options(text, alias, values, inherited, m, k);
            assert(after[k] == before[k]);
            let (j, value) = choose|j: int, value: Seq<char>|
                #![trigger setting_line(keys[j], value)]
                0 <= j < m && carried(values, inherited, keys[j]).contains(value) && !says_nothing(
                    keys[j],
                    value,
                ) && before[k] == setting_line(keys[j], value);
            assert(0 <= j < n && after[k] == setting_line(keys[j], value));
        } else {
            lemma_lines_have_values(middle, alias, keys[n - 1], own, own.len(), k);
            let i = choose|i: int|
                0 <= i < own.len() && !says_nothing(keys[n - 1], #[trigger] own[i]) && after[k]
                    == setting_line(keys[n - 1], own[i]);
            assert(own.contains(own[i]));
            assert(after[k] == setting_line(keys[n - 1], own[i]));
        }
    }
}

proof fn lemma_refused(
    text: Result<Seq<char>, Seq<char>>,
    key: Seq<char>,
    list: Seq<Seq<char>>,
    n: nat,
)
    requires
        text is Err,
    ensures
        option_lines(text, key, list, n) is Err,
    decreases n,
{
    if n > 0 {
        lemma_refused(text, key, list, (n - 1) as nat);
    }
}

/// The options by name.
proof fn lemma_table(key: Seq<char>, name: Seq<char>)
    requires
        ({
            ||| key == "addressfamily"@ && name == "AddressFamily"@
            ||| key == "bindaddress"@ && name == "BindAddress"@
            ||| key == "canonicalizehostname"@ && name == "CanonicalizeHostname"@
            ||| key == "compression"@ && name == "Compression"@
            ||| key == "connectionattempts"@ && name == "ConnectionAttempts"@
            ||| key == "connecttimeout"@ && name == "ConnectTimeout"@
            ||| key == "controlmaster"@ && name == "ControlMaster"@
            ||| key == "controlpath"@ && name == "ControlPath"@
            ||| key == "controlpersist"@ && name == "ControlPersist"@
            ||| key == "forwardagent"@ && name == "ForwardAgent"@
            ||| key == "hostkeyalias"@ && name == "HostKeyAlias"@
            ||| key == "identitiesonly"@ && name == "IdentitiesOnly"@
            ||| key == "identityagent"@ && name == "IdentityAgent"@
            ||| key == "ipqos"@ && name == "IPQoS"@
            ||| key == "proxyjump"@ && name == "ProxyJump"@
            ||| key == "serveralivecountmax"@ && name == "ServerAliveCountMax"@
            ||| key == "serveraliveinterval"@ && name == "ServerAliveInterval"@
            ||| key == "stricthostkeychecking"@ && name == "StrictHostKeyChecking"@
            ||| key == "userknownhostsfile"@ && name == "UserKnownHostsFile"@
            ||| key == "identityfile"@ && name == "IdentityFile"@
        }),
    ensures
        repeated_options().contains(key),
        directive_of(key) == name,
        is_argument_list(key) <==> name == "IPQoS"@ || name == "UserKnownHostsFile"@,
{
    let keys = repeated_options();
    assert(keys[0] == "addressfamily"@);
    assert(keys[1] == "bindaddress"@);
    assert(keys[2] == "canonicalizehostname"@);
    assert(keys[3] == "compression"@);
    assert(keys[4] == "connectionattempts"@);
    assert(keys[5] == "connecttimeout"@);
    assert(keys[6] == "controlmaster"@);
    assert(keys[7] == "controlpath"@);
    assert(keys[8] == "controlpersist"@);
    assert(keys[9] == "forwardagent"@);
    assert(keys[10] == "hostkeyalias"@);
    assert(keys[11] == "identitiesonly"@);
    assert(keys[12] == "identityagent"@);
    assert(keys[13] == "ipqos"@);
    assert(keys[14] == "proxyjump"@);
    assert(keys[15] == "serveralivecountmax"@);
    assert(keys[16] == "serveraliveinterval"@);
    assert(keys[17] == "stricthostkeychecking"@);
    assert(keys[18] == "userknownhostsfile"@);
    assert(keys[19] == "identityfile"@);
    reveal_strlit("addressfamily");
    reveal_strlit("bindaddress");
    reveal_strlit("canonicalizehostname");
    reveal_strlit("compression");
    reveal_strlit("connectionattempts");
    reveal_strlit("connecttimeout");
    reveal_strlit("controlmaster");
    reveal_strlit("controlpath");
    reveal_strlit("controlpersist");
    reveal_strlit("forwardagent");
    reveal_strlit("hostkeyalias");
    reveal_strlit("identitiesonly");
    reveal_strlit("identityagent");
    reveal_strlit("ipqos");
    reveal_strlit("proxyjump");
    reveal_strlit("serveralivecountmax");
    reveal_strlit("serveraliveinterval");
    reveal_strlit("stricthostkeychecking");
    reveal_strlit("userknownhostsfile");
    reveal_strlit("identityfile");
    assert("addressfamily"@.len() == 13 && "addressfamily"@[0] == 'a' && "addressfamily"@[1] == 'd' && "addressfamily"@[3] == 'r');
    assert("bindaddress"@.len() == 11 && "bindaddress"@[0] == 'b' && "bindaddress"@[1] == 'i' && "bindaddress"@[3] == 'd');
    assert("canonicalizehostname"@.len() == 20 && "canonicalizehostname"@[0] == 'c' && "canonicalizehostname"@[1] == 'a' && "canonicalizehostname"@[3] == 'o');
    assert("compression"@.len() == 11 && "compression"@[0] == 'c' && "compression"@[1] == 'o' && "compression"@[3] == 'p');
    assert("connectionattempts"@.len() == 18 && "connectionattempts"@[0] == 'c' && "connectionattempts"@[1] == 'o' && "connectionattempts"@[3] == 'n');
    assert("connecttimeout"@.len() == 14 && "connecttimeout"@[0] == 'c' && "connecttimeout"@[1] == 'o' && "connecttimeout"@[3] == 'n');
    assert("controlmaster"@.len() == 13 && "controlmaster"@[0] == 'c' && "controlmaster"@[1] == 'o' && "controlmaster"@[3] == 't');
    assert("controlpath"@.len() == 11 && "controlpath"@[0] == 'c' && "controlpath"@[1] == 'o' && "controlpath"@[3] == 't');
    assert("controlpersist"@.len() == 14 && "controlpersist"@[0] == 'c' && "controlpersist"@[1] == 'o' && "controlpersist"@[3] == 't');
    assert("forwardagent"@.len() == 12 && "forwardagent"@[0] == 'f' && "forwardagent"@[1] == 'o' && "forwardagent"@[3] == 'w');
    assert("hostkeyalias"@.len() == 12 && "hostkeyalias"@[0] == 'h' && "hostkeyalias"@[1] == 'o' && "hostkeyalias"@[3] == 't');
    assert("identitiesonly"@.len() == 14 && "identitiesonly"@[0] == 'i' && "identitiesonly"@[1] == 'd' && "identitiesonly"@[3] == 'n');
    assert("identityagent"@.len() == 13 && "identityagent"@[0] == 'i' && "identityagent"@[1] == 'd' && "identityagent"@[3] == 'n');
    assert("ipqos"@.len() == 5 && "ipqos"@[0] == 'i' && "ipqos"@[1] == 'p' && "ipqos"@[3] == 'o');
    assert("proxyjump"@.len() == 9 && "proxyjump"@[0] == 'p' && "proxyjump"@[1] == 'r' && "proxyjump"@[3] == 'x');
    assert("serveralivecountmax"@.len() == 19 && "serveralivecountmax"@[0] == 's' && "serveralivecountmax"@[1] == 'e' && "serveralivecountmax"@[3] == 'v');
    assert("serveraliveinterval"@.len() == 19 && "serveraliveinterval"@[0] == 's' && "serveraliveinterval"@[1] == 'e' && "serveraliveinterval"@[3] == 'v');
    assert("stricthostkeychecking"@.len() == 21 && "stricthostkeychecking"@[0] == 's' && "stricthostkeychecking"@[1] == 't' && "stricthostkeychecking"@[3] == 'i');
    assert("userknownhostsfile"@.len() == 18 && "userknownhostsfile"@[0] == 'u' && "userknownhostsfile"@[1] == 's' && "userknownhostsfile"@[3] == 'r');
    assert("identityfile"@.len() == 12 && "identityfile"@[0] == 'i' && "identityfile"@[1] == 'd' && "identityfile"@[3] == 'n');
    assert("controlpath"@[7] == 'p' && "controlmaster"@[7] == 'm' && "controlpersist"@[7] == 'p');
    assert("serveralivecountmax"@[11] == 'c' && "serveraliveinterval"@[11] == 'i');
    assert("connecttimeout"@[4] == 'e' && "controlpersist"@[4] == 'r');
    assert("identitiesonly"@[5] == 'i' && "identityagent"@[5] == 'i');
    reveal_strlit("IPQoS");
    reveal_strlit("UserKnownHostsFile");
    reveal_strlit("AddressFamily");
    reveal_strlit("BindAddress");
    reveal_strlit("CanonicalizeHostname");
    reveal_strlit("Compression");
    reveal_strlit("ConnectionAttempts");
    reveal_strlit("ConnectTimeout");
    reveal_strlit("ControlMaster");
    reveal_strlit("ControlPath");
    reveal_strlit("ControlPersist");
    reveal_strlit("ForwardAgent");
    reveal_strlit("HostKeyAlias");
    reveal_strlit("IdentitiesOnly");
    reveal_strlit("IdentityAgent");
    reveal_strlit("ProxyJump");
    reveal_strlit("ServerAliveCountMax");
    reveal_strlit("ServerAliveInterval");
    reveal_strlit("StrictHostKeyChecking");
    reveal_strlit("IdentityFile");
    assert("AddressFamily"@.len() == 13 && "AddressFamily"@[0] == 'A');
    assert("BindAddress"@.len() == 11 && "BindAddress"@[0] == 'B');
    assert("CanonicalizeHostname"@.len() == 20 && "CanonicalizeHostname"@[0] == 'C');
    assert("Compression"@.len() == 11 && "Compression"@[0] == 'C');
    assert("ConnectionAttempts"@.len() == 18 && "ConnectionAttempts"@[0] == 'C');
    assert("ConnectTimeout"@.len() == 14 && "ConnectTimeout"@[0] == 'C');
    assert("ControlMaster"@.len() == 13 && "ControlMaster"@[0] == 'C');
    assert("ControlPath"@.len() == 11 && "ControlPath"@[0] == 'C');
    assert("ControlPersist"@.len() == 14 && "ControlPersist"@[0] == 'C');
    assert("ForwardAgent"@.len() == 12 && "ForwardAgent"@[0] == 'F');
    assert("HostKeyAlias"@.len() == 12 && "HostKeyAlias"@[0] == 'H');
    assert("IdentitiesOnly"@.len() == 14 && "IdentitiesOnly"@[0] == 'I');
    assert("IdentityAgent"@.len() == 13 && "IdentityAgent"@[0] == 'I');
    assert("IPQoS"@.len() == 5 && "IPQoS"@[0] == 'I');
    assert("ProxyJump"@.len() == 9 && "ProxyJump"@[0] == 'P');
    assert("ServerAliveCountMax"@.len() == 19 && "ServerAliveCountMax"@[0] == 'S');
    assert("ServerAliveInterval"@.len() == 19 && "ServerAliveInterval"@[0] == 'S');
    assert("StrictHostKeyChecking"@.len() == 21 && "StrictHostKeyChecking"@[0] == 'S');
    assert("UserKnownHostsFile"@.len() == 18 && "UserKnownHostsFile"@[0] == 'U');
    assert("IdentityFile"@.len() == 12 && "IdentityFile"@[0] == 'I');
}

/// The lines of a block: those of its head, those of its options, its proxy
/// command, where there is one, and the last.
proof fn lemma_lines_of_block(
    profile: ProfileView,
    source_host: Seq<char>,
    values: Seq<(Seq<char>, Seq<Seq<char>>)>,
    inherited: Seq<(Seq<char>, Seq<Seq<char>>)>,
)
    requires
        fits_in_block(profile),
        host_block(profile, source_host, values, inherited) is Ok,
    ensures
        ({
            let text = host_block(profile, source_host, values, inherited)->Ok_0;
            let hostname = first_of_key(values, "hostname"@)->Some_0;
            let user = first_of_key(values, "user"@)->Some_0;
            let port = first_of_key(values, "port"@)->Some_0;
            let head = block_head(profile, hostname, user, port);
            let keys = repeated_options();
            let options = with_options(head, values, inherited, keys, keys.len());
            &&& head is Ok
            &&& options is Ok
            &&& is_laid_out(head->Ok_0, profile.app_alias)
            &&& lines(text) == lines(options->Ok_0) + (match first_of_key(
                values,
                "proxycommand"@,
            ) {
                Some(command) => if command == "none"@ {
                    Seq::empty()
                } else {
                    seq!["  ProxyCommand "@ + command]
                },
                None => Seq::empty(),
            }) + seq!["  RequestTTY no"@]
        }),
{
    let alias = profile.app_alias;
    let text = host_block(profile, source_host, values, inherited)->Ok_0;
    let hostname = first_of_key(values, "hostname"@)->Some_0;
    let user = first_of_key(values, "user"@)->Some_0;
    let port = first_of_key(values, "port"@)->Some_0;
    let head = block_head(profile, hostname, user, port);
    let keys = repeated_options();
    if head is Err {
        lemma_options_refused(head, values, inherited, keys.len());
    }
    assert(head is Ok);
    lemma_head(profile, hostname, user, port);
    lemma_options(head, alias, values, inherited, keys.len());
    let options = with_options(head, values, inherited, keys, keys.len())->Ok_0;
    reveal_strlit("\n");
    reveal_strlit("  ProxyCommand ");
    reveal_strlit("  RequestTTY no\n");
    reveal_strlit("  RequestTTY no");
    assert("\n"@ =~= seq!['\n']);
    let last = "  RequestTTY no"@;
    assert("  RequestTTY no\n"@ =~= last + seq!['\n']);
    assert(!has_control(last));
    lemma_no_control_is_line(last);
    let proxy = proxy_line(first_of_key(values, "proxycommand"@))->Ok_0;
    let all = choose|all: Seq<Seq<char>>|
        options == #[trigger] line_text(all) && is_layout(all, alias);
    lemma_lines_of_text(all);
    if proxy.len() == 0 {
        assert(text =~= options + (last + seq!['\n']));
        lemma_push_line(options, alias, last);
        assert(all + Seq::<Seq<char>>::empty() + seq![last] =~= all.push(last));
    } else {
        let command = first_of_key(values, "proxycommand"@)->Some_0;
        let line = "  ProxyCommand "@ + command;
        assert(!has_control("  ProxyCommand "@));
        lemma_no_control_join("  ProxyCommand "@, command);
        lemma_no_control_is_line(line);
        let whole = all.push(line).push(last);
        assert(whole.drop_last() =~= all.push(line));
        assert(whole.drop_last().drop_last() =~= all);
        assert(line_text(all.push(line)) =~= options + line + seq!['\n']);
        assert(line_text(whole) =~= options + line + seq!['\n'] + last + seq!['\n']);
        assert(text =~= line_text(whole));
        assert forall|i: int| 0 <= i < whole.len() implies is_line(#[trigger] whole[i]) by {
            if i < all.len() {
                assert(whole[i] == all[i]);
            }
        }
        lemma_lines_of_text(whole);
        assert(all + seq![line] + seq![last] =~= whole);
    }
}

proof fn lemma_options_refused(
    text: Result<Seq<char>, Seq<char>>,
    values: Seq<(Seq<char>, Seq<Seq<char>>)>,
    inherited: Seq<(Seq<char>, Seq<Seq<char>>)>,
    n: nat,
)
    requires
        text is Err,
        n <= repeated_options().len(),
    ensures
        with_options(text, values, inherited, repeated_options(), n) is Err,
    decreases n,
{
    if n > 0 {
        lemma_options_refused(text, values, inherited, (n - 1) as nat);
        let key = repeated_options()[n - 1];
        let before = with_options(text, values, inherited, repeated_options(), (n - 1) as nat);
        let own = carried(values, inherited, key);
        lemma_refused(before, key, own, own.len());
    }
}

/// Every option that says how the source host is reached is carried over: each
/// of its values has a line of its own in the block, under the name that
/// configuration files have for it. Left out is only what the alias has anyway,
/// from the same configuration, and `none`, where that says nothing. A value
/// is written as one word, unless it is a list of words already.
pub proof fn law_options_are_carried_over(
    profile: ProfileView,
    values: Seq<(Seq<char>, Seq<Seq<char>>)>,
    inherited: Seq<(Seq<char>, Seq<Seq<char>>)>,
    key: Seq<char>,
    name: Seq<char>,
    list: Seq<Seq<char>>,
    value: Seq<char>,
)
    requires
        fits_in_block(profile),
        host_block(profile, profile.source_host, values, inherited) is Ok,
        ({
            ||| key == "addressfamily"@ && name == "AddressFamily"@
            ||| key == "bindaddress"@ && name == "BindAddress"@
            ||| key == "canonicalizehostname"@ && name == "CanonicalizeHostname"@
            ||| key == "compression"@ && name == "Compression"@
            ||| key == "connectionattempts"@ && name == "ConnectionAttempts"@
            ||| key == "connecttimeout"@ && name == "ConnectTimeout"@
            ||| key == "controlmaster"@ && name == "ControlMaster"@
            ||| key == "controlpath"@ && name == "ControlPath"@
            ||| key == "controlpersist"@ && name == "ControlPersist"@
            ||| key == "forwardagent"@ && name == "ForwardAgent"@
            ||| key == "hostkeyalias"@ && name == "HostKeyAlias"@
            ||| key == "identitiesonly"@ && name == "IdentitiesOnly"@
            ||| key == "identityagent"@ && name == "IdentityAgent"@
            ||| key == "ipqos"@ && name == "IPQoS"@
            ||| key == "proxyjump"@ && name == "ProxyJump"@
            ||| key == "serveralivecountmax"@ && name == "ServerAliveCountMax"@
            ||| key == "serveraliveinterval"@ && name == "ServerAliveInterval"@
            ||| key == "stricthostkeychecking"@ && name == "StrictHostKeyChecking"@
            ||| key == "userknownhostsfile"@ && name == "UserKnownHostsFile"@
            ||| key == "identityfile"@ && name == "IdentityFile"@
        }),
        value_of(values, key) == Some(list),
        list.contains(value),
        value_of(inherited, key) != Some(list),
        name == "IdentityFile"@ ==> (value_of(inherited, key) matches Some(items)
            ==> !items.contains(value)),
        name == "IdentityFile"@ || name == "ProxyJump"@ ==> value != "none"@,
    ensures
        lines(host_block(profile, profile.source_host, values, inherited)->Ok_0).contains(
            "  "@ + name + " "@ + (if name == "IPQoS"@ || name == "UserKnownHostsFile"@ {
                value
            } else {
                config_word(value)
            }),
        ),
{
    lemma_lines_of_block(profile, profile.source_host, values, inherited);
    lemma_table(key, name);
    lemma_identity_name(key, name);
    let keys = repeated_options();
    let hostname = first_of_key(values, "hostname"@)->Some_0;
    let user = first_of_key(values, "user"@)->Some_0;
    let port = first_of_key(values, "port"@)->Some_0;
    let head = block_head(profile, hostname, user, port)->Ok_0;
    let own = carried(values, inherited, key);
    if key == "identityfile"@ && value_of(inherited, key) is Some {
        let items = value_of(inherited, key)->Some_0;
        let at = list.index_of(value);
        assert(list[at] == value);
        list.lemma_filter_contains(|value: Seq<char>| !items.contains(value), at);
    }
    assert(own.contains(value));
    let i = own.index_of(value);
    assert(own[i] == value);
    let j = keys.index_of(key);
    assert(keys[j] == key);
    lemma_options_have_lines(head, profile.app_alias, values, inherited, keys.len(), j, i);
    let options = lines(with_options(Ok(head), values, inherited, keys, keys.len())->Ok_0);
    let all = lines(host_block(profile, profile.source_host, values, inherited)->Ok_0);
    let line = setting_line(key, value);
    assert(options.contains(line));
    let k = options.index_of(line);
    assert(options[k] == line);
    assert(all[k] == line);
}

/// Which of the options may say nothing, by name.
proof fn lemma_identity_name(key: Seq<char>, name: Seq<char>)
    requires
        ({
            ||| key == "addressfamily"@ && name == "AddressFamily"@
            ||| key == "bindaddress"@ && name == "BindAddress"@
            ||| key == "canonicalizehostname"@ && name == "CanonicalizeHostname"@
            ||| key == "compression"@ && name == "Compression"@
            ||| key == "connectionattempts"@ && name == "ConnectionAttempts"@
            ||| key == "connecttimeout"@ && name == "ConnectTimeout"@
            ||| key == "controlmaster"@ && name == "ControlMaster"@
            ||| key == "controlpath"@ && name == "ControlPath"@
            ||| key == "controlpersist"@ && name == "ControlPersist"@
            ||| key == "forwardagent"@ && name == "ForwardAgent"@
            ||| key == "hostkeyalias"@ && name == "HostKeyAlias"@
            ||| key == "identitiesonly"@ && name == "IdentitiesOnly"@
            ||| key == "identityagent"@ && name == "IdentityAgent"@
            ||| key == "ipqos"@ && name == "IPQoS"@
            ||| key == "proxyjump"@ && name == "ProxyJump"@
            ||| key == "serveralivecountmax"@ && name == "ServerAliveCountMax"@
            ||| key == "serveraliveinterval"@ && name == "ServerAliveInterval"@
            ||| key == "stricthostkeychecking"@ && name == "StrictHostKeyChecking"@
            ||| key == "userknownhostsfile"@ && name == "UserKnownHostsFile"@
            ||| key == "identityfile"@ && name == "IdentityFile"@
        }),
    ensures
        key == "identityfile"@ <==> name == "IdentityFile"@,
        key == "proxyjump"@ <==> name == "ProxyJump"@,
        may_be_none(key) <==> name == "IdentityFile"@ || name == "ProxyJump"@,
{
    reveal_strlit("addressfamily");
    reveal_strlit("AddressFamily");
    assert("addressfamily"@.len() == 13 && "AddressFamily"@.len() == 13 && "addressfamily"@[0] == 'a' && "AddressFamily"@[0] == 'A');
    reveal_strlit("bindaddress");
    reveal_strlit("BindAddress");
    assert("bindaddress"@.len() == 11 && "BindAddress"@.len() == 11 && "bindaddress"@[0] == 'b' && "BindAddress"@[0] == 'B');
    reveal_strlit("canonicalizehostname");
    reveal_strlit("CanonicalizeHostname");
    assert("canonicalizehostname"@.len() == 20 && "CanonicalizeHostname"@.len() == 20 && "canonicalizehostname"@[0] == 'c' && "CanonicalizeHostname"@[0] == 'C');
    reveal_strlit("compression");
    reveal_strlit("Compression");
    assert("compression"@.len() == 11 && "Compression"@.len() == 11 && "compression"@[0] == 'c' && "Compression"@[0] == 'C');
    reveal_strlit("connectionattempts");
    reveal_strlit("ConnectionAttempts");
    assert("connectionattempts"@.len() == 18 && "ConnectionAttempts"@.len() == 18 && "connectionattempts"@[0] == 'c' && "ConnectionAttempts"@[0] == 'C');
    reveal_strlit("connecttimeout");
    reveal_strlit("ConnectTimeout");
    assert("connecttimeout"@.len() == 14 && "ConnectTimeout"@.len() == 14 && "connecttimeout"@[0] == 'c' && "ConnectTimeout"@[0] == 'C');
    reveal_strlit("controlmaster");
    reveal_strlit("ControlMaster");
    assert("controlmaster"@.len() == 13 && "ControlMaster"@.len() == 13 && "controlmaster"@[0] == 'c' && "ControlMaster"@[0] == 'C');
    reveal_strlit("controlpath");
    reveal_strlit("ControlPath");
    assert("controlpath"@.len() == 11 && "ControlPath"@.len() == 11 && "controlpath"@[0] == 'c' && "ControlPath"@[0] == 'C');
    reveal_strlit("controlpersist");
    reveal_strlit("ControlPersist");
    assert("controlpersist"@.len() == 14 && "ControlPersist"@.len() == 14 && "controlpersist"@[0] == 'c' && "ControlPersist"@[0] == 'C');
    reveal_strlit("forwardagent");
    reveal_strlit("ForwardAgent");
    assert("forwardagent"@.len() == 12 && "ForwardAgent"@.len() == 12 && "forwardagent"@[0] == 'f' && "ForwardAgent"@[0] == 'F');
    reveal_strlit("hostkeyalias");
    reveal_strlit("HostKeyAlias");
    assert("hostkeyalias"@.len() == 12 && "HostKeyAlias"@.len() == 12 && "hostkeyalias"@[0] == 'h' && "HostKeyAlias"@[0] == 'H');
    reveal_strlit("identitiesonly");
    reveal_strlit("IdentitiesOnly");
    assert("identitiesonly"@.len() == 14 && "IdentitiesOnly"@.len() == 14 && "identitiesonly"@[0] == 'i' && "IdentitiesOnly"@[0] == 'I');
    reveal_strlit("identityagent");
    reveal_strlit("IdentityAgent");
    assert("identityagent"@.len() == 13 && "IdentityAgent"@.len() == 13 && "identityagent"@[0] == 'i' && "IdentityAgent"@[0] == 'I');
    reveal_strlit("ipqos");
    reveal_strlit("IPQoS");
    assert("ipqos"@.len() == 5 && "IPQoS"@.len() == 5 && "ipqos"@[0] == 'i' && "IPQoS"@[0] == 'I');
    reveal_strlit("proxyjump");
    reveal_strlit("ProxyJump");
    assert("proxyjump"@.len() == 9 && "ProxyJump"@.len() == 9 && "proxyjump"@[0] == 'p' && "ProxyJump"@[0] == 'P');
    reveal_strlit("serveralivecountmax");
    reveal_strlit("ServerAliveCountMax");
    assert("serveralivecountmax"@.len() == 19 && "ServerAliveCountMax"@.len() == 19 && "serveralivecountmax"@[0] == 's' && "ServerAliveCountMax"@[0] == 'S');
    reveal_strlit("serveraliveinterval");
    reveal_strlit("ServerAliveInterval");
    assert("serveraliveinterval"@.len() == 19 && "ServerAliveInterval"@.len() == 19 && "serveraliveinterval"@[0] == 's' && "ServerAliveInterval"@[0] == 'S');
    reveal_strlit("stricthostkeychecking");
    reveal_strlit("StrictHostKeyChecking");
    assert("stricthostkeychecking"@.len() == 21 && "StrictHostKeyChecking"@.len() == 21 && "stricthostkeychecking"@[0] == 's' && "StrictHostKeyChecking"@[0] == 'S');
    reveal_strlit("userknownhostsfile");
    reveal_strlit("UserKnownHostsFile");
    assert("userknownhostsfile"@.len() == 18 && "UserKnownHostsFile"@.len() == 18 && "userknownhostsfile"@[0] == 'u' && "UserKnownHostsFile"@[0] == 'U');
    reveal_strlit("identityfile");
    reveal_strlit("IdentityFile");
    assert("identityfile"@.len() == 12 && "IdentityFile"@.len() == 12 && "identityfile"@[0] == 'i' && "IdentityFile"@[0] == 'I');
}

/// How to reach the source host stands first in the block, and what is not an
/// option of the source host comes from nowhere: every other line but the proxy
/// command and the last is the line of a value that the source host has.
pub proof fn law_what_a_host_block_says(
    profile: ProfileView,
    values: Seq<(Seq<char>, Seq<Seq<char>>)>,
    inherited: Seq<(Seq<char>, Seq<Seq<char>>)>,
    k: int,
)
    requires
        fits_in_block(profile),
        host_block(profile, profile.source_host, values, inherited) is Ok,
    ensures
        ({
            let all = lines(host_block(profile, profile.source_host, values, inherited)->Ok_0);
            &&& all.len() >= 6
            &&& all[0] == "# profile="@ + profile.name + " source="@ + profile.source_host
                + " status="@ + profile.status.name()
            &&& all[1] == "Host "@ + profile.app_alias
            &&& first_of_key(values, "hostname"@) matches Some(hostname) && all[2]
                == "  HostName "@ + config_word(hostname)
            &&& first_of_key(values, "user"@) matches Some(user) && all[3] == "  User "@
                + config_word(user)
            &&& first_of_key(values, "port"@) matches Some(port) && all[4] == "  Port "@
                + config_word(port)
            &&& all.last() == "  RequestTTY no"@
            &&& first_of_key(values, "proxycommand"@) matches Some(command) ==> command != "none"@
                ==> all[all.len() - 2] == "  ProxyCommand "@ + command
            &&& 5 <= k < all.len() - 1 ==> {
                ||| (first_of_key(values, "proxycommand"@) matches Some(command) && command
                    != "none"@ && all[k] == "  ProxyCommand "@ + command)
                ||| exists|key: Seq<char>, name: Seq<char>, list: Seq<Seq<char>>, value: Seq<char>|
                    #![trigger list.contains(value), value_of(values, key), name.len()]
                    is_option(key, name) && value_of(values, key) == Some(list) && list.contains(
                        value,
                    ) && value_of(inherited, key) != Some(list) && all[k] == "  "@ + name + " "@ + (
                    if name == "IPQoS"@ || name == "UserKnownHostsFile"@ {
                        value
                    } else {
                        config_word(value)
                    })
            }
        }),
{
    lemma_lines_of_block(profile, profile.source_host, values, inherited);
    let keys = repeated_options();
    let hostname = first_of_key(values, "hostname"@)->Some_0;
    let user = first_of_key(values, "user"@)->Some_0;
    let port = first_of_key(values, "port"@)->Some_0;
    let head = block_head(profile, hostname, user, port)->Ok_0;
    lemma_lines_of_head(profile, hostname, user, port);
    lemma_options_have_lines(head, profile.app_alias, values, inherited, keys.len(), 0, 0);
    let first = lines(head);
    let options = lines(with_options(Ok(head), values, inherited, keys, keys.len())->Ok_0);
    let all = lines(host_block(profile, profile.source_host, values, inherited)->Ok_0);
    assert(first =~= options.take(5));
    assert forall|i: int| 0 <= i < 5 implies #[trigger] all[i] == first[i] by {
        assert(options.take(5)[i] == options[i]);
    }
    if 5 <= k < options.len() {
        lemma_lines_have_options(head, profile.app_alias, values, inherited, keys.len(), k);
        let (j, value) = choose|j: int, value: Seq<char>|
            #![trigger setting_line(keys[j], value)]
            0 <= j < keys.len() && carried(values, inherited, keys[j]).contains(value)
                && !says_nothing(keys[j], value) && options[k] == setting_line(keys[j], value);
        let key = keys[j];
        let name = directive_of(key);
        lemma_named(j);
        let list = value_of(values, key)->Some_0;
        if key == "identityfile"@ && value_of(inherited, key) is Some && value_of(inherited, key)
            != Some(list) {
            let items = value_of(inherited, key)->Some_0;
            list.lemma_filter_contains_rev(|value: Seq<char>| !items.contains(value), value);
        }
        lemma_table(key, name);
        assert(list.contains(value));
        assert(name.len() >= 0);
        assert(all[k] == options[k]);
    }
}

/// Whether configuration files have `name` for the option `key` of the
/// source host.
pub open spec fn is_option(key: Seq<char>, name: Seq<char>) -> bool {
    ||| key == "addressfamily"@ && name == "AddressFamily"@
    ||| key == "bindaddress"@ && name == "BindAddress"@
    ||| key == "canonicalizehostname"@ && name == "CanonicalizeHostname"@
    ||| key == "compression"@ && name == "Compression"@
    ||| key == "connectionattempts"@ && name == "ConnectionAttempts"@
    ||| key == "connecttimeout"@ && name == "ConnectTimeout"@
    ||| key == "controlmaster"@ && name == "ControlMaster"@
    ||| key == "controlpath"@ && name == "ControlPath"@
    ||| key == "controlpersist"@ && name == "ControlPersist"@
    ||| key == "forwardagent"@ && name == "ForwardAgent"@
    ||| key == "hostkeyalias"@ && name == "HostKeyAlias"@
    ||| key == "identitiesonly"@ && name == "IdentitiesOnly"@
    ||| key == "identityagent"@ && name == "IdentityAgent"@
    ||| key == "ipqos"@ && name == "IPQoS"@
    ||| key == "proxyjump"@ && name == "ProxyJump"@
    ||| key == "serveralivecountmax"@ && name == "ServerAliveCountMax"@
    ||| key == "serveraliveinterval"@ && name == "ServerAliveInterval"@
    ||| key == "stricthostkeychecking"@ && name == "StrictHostKeyChecking"@
    ||| key == "userknownhostsfile"@ && name == "UserKnownHostsFile"@
    ||| key == "identityfile"@ && name == "IdentityFile"@
}

proof fn lemma_named(j: int)
    requires
        0 <= j < repeated_options().len(),
    ensures
        is_option(repeated_options()[j], directive_of(repeated_options()[j])),
{
    let keys = repeated_options();
    assert(keys.len() == 20);
    lemma_table("addressfamily"@, "AddressFamily"@);
    lemma_table("bindaddress"@, "BindAddress"@);
    lemma_table("canonicalizehostname"@, "CanonicalizeHostname"@);
    lemma_table("compression"@, "Compression"@);
    lemma_table("connectionattempts"@, "ConnectionAttempts"@);
    lemma_table("connecttimeout"@, "ConnectTimeout"@);
    lemma_table("controlmaster"@, "ControlMaster"@);
    lemma_table("controlpath"@, "ControlPath"@);
    lemma_table("controlpersist"@, "ControlPersist"@);
    lemma_table("forwardagent"@, "ForwardAgent"@);
    lemma_table("hostkeyalias"@, "HostKeyAlias"@);
    lemma_table("identitiesonly"@, "IdentitiesOnly"@);
    lemma_table("identityagent"@, "IdentityAgent"@);
    lemma_table("ipqos"@, "IPQoS"@);
    lemma_table("proxyjump"@, "ProxyJump"@);
    lemma_table("serveralivecountmax"@, "ServerAliveCountMax"@);
    lemma_table("serveraliveinterval"@, "ServerAliveInterval"@);
    lemma_table("stricthostkeychecking"@, "StrictHostKeyChecking"@);
    lemma_table("userknownhostsfile"@, "UserKnownHostsFile"@);
    lemma_table("identityfile"@, "IdentityFile"@);
}

proof fn lemma_lines_of_head(
    profile: ProfileView,
    hostname: Seq<char>,
    user: Seq<char>,
    port: Seq<char>,
)
    requires
        fits_in_block(profile),
        block_head(profile, hostname, user, port) is Ok,
    ensures
        lines(block_head(profile, hostname, user, port)->Ok_0) == seq![
            "# profile="@ + profile.name + " source="@ + profile.source_host + " status="@
                + profile.status.name(),
            "Host "@ + profile.app_alias,
            "  HostName "@ + config_word(hostname),
            "  User "@ + config_word(user),
            "  Port "@ + config_word(port),
        ],
{
    reveal_strlit("\nHost ");
    reveal_strlit("Host ");
    reveal_strlit("\n  HostName ");
    reveal_strlit("\n  User ");
    reveal_strlit("\n  Port ");
    reveal_strlit("  HostName ");
    reveal_strlit("  User ");
    reveal_strlit("  Port ");
    reveal_strlit("\n");
    let comment = block_comment(profile);
    let host = "Host "@ + profile.app_alias;
    let one = "  HostName "@ + config_word(hostname);
    let two = "  User "@ + config_word(user);
    let three = "  Port "@ + config_word(port);
    lemma_comment(profile);
    lemma_word_no_control(hostname);
    lemma_word_no_control(user);
    lemma_word_no_control(port);
    assert(!has_control("  HostName "@));
    assert(!has_control("  User "@));
    assert(!has_control("  Port "@));
    lemma_no_control_join("  HostName "@, config_word(hostname));
    lemma_no_control_join("  User "@, config_word(user));
    lemma_no_control_join("  Port "@, config_word(port));
    lemma_no_control_is_line(one);
    lemma_no_control_is_line(two);
    lemma_no_control_is_line(three);
    lemma_host_line(profile.app_alias);
    let all = seq![comment, host, one, two, three];
    let a = Seq::<Seq<char>>::empty().push(comment);
    let b = a.push(host);
    let c = b.push(one);
    let d = c.push(two);
    let e = d.push(three);
    assert(all =~= e);
    assert(e.drop_last() =~= d && d.drop_last() =~= c && c.drop_last() =~= b && b.drop_last() =~= a
        && a.drop_last() =~= Seq::empty());
    let none = line_text(Seq::<Seq<char>>::empty());
    assert(none =~= Seq::empty());
    assert(line_text(a) =~= comment + seq!['\n']);
    assert(line_text(b) =~= comment + seq!['\n'] + host + seq!['\n']);
    assert(line_text(c) =~= line_text(b) + one + seq!['\n']);
    assert(line_text(d) =~= line_text(c) + two + seq!['\n']);
    assert(line_text(e) =~= line_text(d) + three + seq!['\n']);
    assert("\nHost "@ =~= seq!['\n'] + "Host "@);
    assert("\n  HostName "@ =~= seq!['\n'] + "  HostName "@);
    assert("\n  User "@ =~= seq!['\n'] + "  User "@);
    assert("\n  Port "@ =~= seq!['\n'] + "  Port "@);
    assert("\n"@ =~= seq!['\n']);
    assert(block_head(profile, hostname, user, port)->Ok_0 =~= line_text(all));
    assert forall|i: int| 0 <= i < all.len() implies is_line(#[trigger] all[i]) by {}
    lemma_lines_of_text(all);
}

proof fn lemma_host_line(alias: Seq<char>)
    requires
        is_line(alias),
    ensures
        is_line("Host "@ + alias),
{
    reveal_strlit("Host ");
    let line = "Host "@ + alias;
    if has_newline(line) {
        let i = choose|i: int| 0 <= i < line.len() && #[trigger] line[i] == '\n';
        if i >= 5 {
            assert(alias[i - 5] == '\n');
            assert(has_newline(alias));
        }
    }
    if alias.len() > 0 {
        assert(line.last() == alias.last());
    }
}

// ---------------------------------------------------------------------------
// When a block can be written
// ---------------------------------------------------------------------------

/// A block is written whenever the source host says how it is reached and no
/// value holds a line ending or a null.
pub proof fn law_when_a_block_is_written(
    profile: ProfileView,
    source_host: Seq<char>,
    values: Seq<(Seq<char>, Seq<Seq<char>>)>,
    inherited: Seq<(Seq<char>, Seq<Seq<char>>)>,
)
    ensures
        profile.source_host != source_host ==> host_block(
            profile,
            source_host,
            values,
            inherited,
        ) is Err,
        first_of_key(values, "hostname"@) is None || first_of_key(values, "user"@) is None
            || first_of_key(values, "port"@) is None ==> host_block(
            profile,
            source_host,
            values,
            inherited,
        ) is Err,
        profile.source_host == source_host && first_of_key(values, "hostname"@) is Some
            && first_of_key(values, "user"@) is Some && first_of_key(values, "port"@) is Some && (
        forall|key: Seq<char>, i: int|
            #![trigger value_of(values, key)->Some_0[i]]
            value_of(values, key) is Some && 0 <= i < value_of(values, key)->Some_0.len()
                ==> !has_control(value_of(values, key)->Some_0[i])) ==> host_block(
            profile,
            source_host,
            values,
            inherited,
        ) is Ok,
{
    let clean = forall|key: Seq<char>, i: int|
        #![trigger value_of(values, key)->Some_0[i]]
        value_of(values, key) is Some && 0 <= i < value_of(values, key)->Some_0.len()
            ==> !has_control(value_of(values, key)->Some_0[i]);
    if clean && first_of_key(values, "hostname"@) is Some && first_of_key(values, "user"@) is Some
        && first_of_key(values, "port"@) is Some {
        assert(!has_control(value_of(values, "hostname"@)->Some_0[0]));
        assert(!has_control(value_of(values, "user"@)->Some_0[0]));
        assert(!has_control(value_of(values, "port"@)->Some_0[0]));
        if first_of_key(values, "proxycommand"@) is Some {
            assert(!has_control(value_of(values, "proxycommand"@)->Some_0[0]));
        }
        let head = block_head(
            profile,
            first_of_key(values, "hostname"@)->Some_0,
            first_of_key(values, "user"@)->Some_0,
            first_of_key(values, "port"@)->Some_0,
        );
        lemma_clean_options(head, values, inherited, repeated_options().len());
    }
}

proof fn lemma_clean_options(
    text: Result<Seq<char>, Seq<char>>,
    values: Seq<(Seq<char>, Seq<Seq<char>>)>,
    inherited: Seq<(Seq<char>, Seq<Seq<char>>)>,
    n: nat,
)
    requires
        text is Ok,
        n <= repeated_options().len(),
        forall|key: Seq<char>, i: int|
            #![trigger value_of(values, key)->Some_0[i]]
            value_of(values, key) is Some && 0 <= i < value_of(values, key)->Some_0.len()
                ==> !has_control(value_of(values, key)->Some_0[i]),
    ensures
        with_options(text, values, inherited, repeated_options(), n) is Ok,
    decreases n,
{
    if n > 0 {
        lemma_clean_options(text, values, inherited, (n - 1) as nat);
        let key = repeated_options()[n - 1];
        let own = carried(values, inherited, key);
        if value_of(values, key) is Some {
            let list = value_of(values, key)->Some_0;
            assert forall|i: int| 0 <= i < own.len() implies !has_control(#[trigger] own[i]) by {
                if own != list {
                    let items = value_of(inherited, key)->Some_0;
                    assert(own.contains(own[i]));
                    list.lemma_filter_contains_rev(
                        |value: Seq<char>| !items.contains(value),
                        own[i],
                    );
                    let k = list.index_of(own[i]);
                    assert(!has_control(value_of(values, key)->Some_0[k]));
                } else {
                    assert(!has_control(value_of(values, key)->Some_0[i]));
                }
            }
            lemma_clean_lines(
                with_options(text, values, inherited, repeated_options(), (n - 1) as nat),
                key,
                own,
                own.len(),
            );
        }
    }
}

proof fn lemma_clean_lines(
    text: Result<Seq<char>, Seq<char>>,
    key: Seq<char>,
    list: Seq<Seq<char>>,
    n: nat,
)
    requires
        text is Ok,
        n <= list.len(),
        forall|i: int| 0 <= i < list.len() ==> !has_control(#[trigger] list[i]),
    ensures
        option_lines(text, key, list, n) is Ok,
    decreases n,
{
    if n > 0 {
        lemma_clean_lines(text, key, list, (n - 1) as nat);
        assert(!has_control(list[n - 1]));
    }
}

/// The managed file starts with a warning, and each profile adds its block and
/// a blank line at the end. Where one block is refused, so is the file.
pub proof fn law_the_managed_file_holds_every_block(
    profiles: Seq<(Profile, SshSnapshot)>,
    more: (Profile, SshSnapshot),
)
    ensures
        managed_config(Seq::empty()) == Ok::<Seq<char>, Seq<char>>(
            "# Managed by Codex Shuttle. Manual edits will be replaced.\n\n"@,
        ),
        ({
            let block = host_block(
                more.0@,
                more.1.source_host@,
                more.1.values@,
                more.1.inherited_values@,
            );
            match (managed_config(profiles), block) {
                (Ok(text), Ok(block)) => managed_config(profiles.push(more)) == Ok::<
                    Seq<char>,
                    Seq<char>,
                >(text + block + "\n"@),
                _ => managed_config(profiles.push(more)) is Err,
            }
        }),
{
    let start = "# Managed by Codex Shuttle. Manual edits will be replaced.\n\n"@;
    lemma_same_blocks(start, profiles, profiles.push(more), profiles.len());
}

proof fn lemma_same_blocks(
    text: Seq<char>,
    profiles: Seq<(Profile, SshSnapshot)>,
    longer: Seq<(Profile, SshSnapshot)>,
    n: nat,
)
    requires
        n <= profiles.len() <= longer.len(),
        forall|i: int| 0 <= i < profiles.len() ==> #[trigger] longer[i] == profiles[i],
    ensures
        host_blocks(text, profiles, n) == host_blocks(text, longer, n),
    decreases n,
{
    if n > 0 {
        lemma_same_blocks(text, profiles, longer, (n - 1) as nat);
        assert(longer[n - 1] == profiles[n - 1]);
    }
}

} // verus!
