//! What becomes of the arguments that a program is called with.

use vstd::prelude::*;
use crate::arguments::{argument_use, bridge_options, kept_arguments};
use crate::runtime::overrides;
use crate::shim::{
    ShimActionView, action_for, agent_pid_in, app_server_at, asks_for_listener, has_argument,
    host_app_server_options, inode_in, is_zombie, no_mark_after, signed_in,
};
use crate::text::{all_digits, decimal, digits_value, words};
use crate::text_laws::law_numbers_are_read_back;

verus! {

// ---------------------------------------------------------------------------
// Arguments for the local App Server
// ---------------------------------------------------------------------------

/// The arguments by name: what selects a transport is dropped, what configures
/// passes, and nothing else does.
pub proof fn law_arguments_by_name(argument: Seq<char>, value: Seq<char>)
    ensures
        argument_use("--stdio"@) is Skipped,
        argument_use("--listen="@ + value) is Skipped,
        argument_use("--listen"@) is SkippedWithValue,
        argument_use("-c"@) is KeptWithValue,
        argument_use("--config"@) is KeptWithValue,
        argument_use("--enable"@) is KeptWithValue,
        argument_use("--disable"@) is KeptWithValue,
        argument_use("--code-mode-host"@) is KeptWithValue,
        argument_use("--strict-config"@) is Kept,
        argument_use("--analytics-default-enabled"@) is Kept,
        argument_use("--config="@ + value) is Kept,
        argument_use("--enable="@ + value) is Kept,
        argument_use("--disable="@ + value) is Kept,
        argument_use("--code-mode-host="@ + value) is Kept,
        !(argument_use(argument) is Refused) ==> {
            ||| argument == "--stdio"@
            ||| argument == "--listen"@
            ||| "--listen="@.is_prefix_of(argument)
            ||| argument == "-c"@
            ||| argument == "--config"@
            ||| "--config="@.is_prefix_of(argument)
            ||| argument == "--enable"@
            ||| "--enable="@.is_prefix_of(argument)
            ||| argument == "--disable"@
            ||| "--disable="@.is_prefix_of(argument)
            ||| argument == "--code-mode-host"@
            ||| "--code-mode-host="@.is_prefix_of(argument)
            ||| argument == "--strict-config"@
            ||| argument == "--analytics-default-enabled"@
        },
{
    lemma_not_listen("--stdio"@);
    lemma_not_listen("--listen"@);
    lemma_not_listen("-c"@);
    lemma_not_listen("--config"@);
    lemma_not_listen("--enable"@);
    lemma_not_listen("--disable"@);
    lemma_not_listen("--code-mode-host"@);
    lemma_not_listen("--strict-config"@);
    lemma_not_listen("--analytics-default-enabled"@);
    lemma_not_listen("--config="@ + value);
    lemma_not_listen("--enable="@ + value);
    lemma_not_listen("--disable="@ + value);
    lemma_not_listen("--code-mode-host="@ + value);
    lemma_names_and_lengths(value);
    lemma_begins("--listen="@, value);
    lemma_begins("--config="@, value);
    lemma_begins("--enable="@, value);
    lemma_begins("--disable="@, value);
    lemma_begins("--code-mode-host="@, value);
}

proof fn lemma_begins(head: Seq<char>, tail: Seq<char>)
    ensures
        head.is_prefix_of(head + tail),
{
    assert((head + tail).subrange(0, head.len() as int) =~= head);
}

/// What has another third or ninth character does not select a listener.
proof fn lemma_not_listen(argument: Seq<char>)
    ensures
        argument.len() < 9 ==> !"--listen="@.is_prefix_of(argument),
        argument.len() > 2 && argument[2] != 'l' ==> !"--listen="@.is_prefix_of(argument),
{
    reveal_strlit("--listen=");
    let head = "--listen="@;
    assert(head.len() == 9 && head[2] == 'l');
    if head.is_prefix_of(argument) {
        assert(head =~= argument.subrange(0, 9));
        assert(argument[2] == head[2]);
    }
}

proof fn lemma_names_and_lengths(value: Seq<char>)
    ensures
        "--stdio"@.len() == 7,
        "--listen"@.len() == 8,
        "-c"@.len() == 2,
        "--config"@.len() == 8 && "--config"@[2] == 'c',
        "--enable"@.len() == 8 && "--enable"@[2] == 'e',
        "--disable"@.len() == 9 && "--disable"@[2] == 'd',
        "--code-mode-host"@.len() == 16 && "--code-mode-host"@[2] == 'c' && "--code-mode-host"@[8]
            == 'o',
        "--strict-config"@.len() == 15 && "--strict-config"@[2] == 's',
        "--analytics-default-enabled"@.len() == 27 && "--analytics-default-enabled"@[2] == 'a',
        "--listen"@[2] == 'l',
        "--stdio"@[2] == 's',
        "--config="@.len() == 9 && ("--config="@ + value)[2] == 'c' && ("--config="@ + value)[8]
            == '=',
        "--enable="@.len() == 9 && ("--enable="@ + value)[2] == 'e' && ("--enable="@ + value)[8]
            == '=',
        "--disable="@.len() == 10 && ("--disable="@ + value)[2] == 'd' && ("--disable="@
            + value)[9] == '=',
        "--code-mode-host="@.len() == 17 && ("--code-mode-host="@ + value)[2] == 'c' && (
        "--code-mode-host="@ + value)[8] == 'o',
        "--listen="@.len() == 9 && ("--listen="@ + value)[2] == 'l',
{
    reveal_strlit("--stdio");
    reveal_strlit("--listen");
    reveal_strlit("--listen=");
    reveal_strlit("-c");
    reveal_strlit("--config");
    reveal_strlit("--enable");
    reveal_strlit("--disable");
    reveal_strlit("--code-mode-host");
    reveal_strlit("--strict-config");
    reveal_strlit("--analytics-default-enabled");
    reveal_strlit("--config=");
    reveal_strlit("--enable=");
    reveal_strlit("--disable=");
    reveal_strlit("--code-mode-host=");
}

/// An argument is dropped, passes, or is refused, with its value where it has
/// one, and what follows is taken by itself.
pub proof fn law_arguments_one_by_one(
    argument: Seq<char>,
    value: Seq<char>,
    rest: Seq<Seq<char>>,
)
    ensures
        kept_arguments(Seq::empty()) == Ok::<Seq<Seq<char>>, Seq<char>>(Seq::empty()),
        argument_use(argument) is Skipped ==> kept_arguments(seq![argument] + rest)
            == kept_arguments(rest),
        argument_use(argument) is SkippedWithValue ==> kept_arguments(seq![argument, value] + rest)
            == kept_arguments(rest) && kept_arguments(seq![argument]) is Err,
        argument_use(argument) is Kept ==> match kept_arguments(rest) {
            Ok(kept) => kept_arguments(seq![argument] + rest) == Ok::<Seq<Seq<char>>, Seq<char>>(
                seq![argument] + kept,
            ),
            Err(e) => kept_arguments(seq![argument] + rest) is Err,
        },
        argument_use(argument) is KeptWithValue ==> match kept_arguments(rest) {
            Ok(kept) => kept_arguments(seq![argument, value] + rest) == Ok::<
                Seq<Seq<char>>,
                Seq<char>,
            >(seq![argument, value] + kept),
            Err(e) => kept_arguments(seq![argument, value] + rest) is Err,
        },
        argument_use(argument) is KeptWithValue ==> kept_arguments(seq![argument]) is Err,
        argument_use(argument) is Refused ==> kept_arguments(seq![argument] + rest) is Err,
{
    let one = seq![argument] + rest;
    assert(one[0] == argument);
    assert(one.skip(1) =~= rest);
    let two = seq![argument, value] + rest;
    assert(two[0] == argument && two[1] == value);
    assert(two.skip(2) =~= rest);
    assert(seq![argument][0] == argument);
}

/// The bridge reaches the local App Server over its own pipes, or where it
/// listens, and switches on what the remote environment needs.
pub proof fn law_options_of_the_bridge(url: Seq<char>)
    ensures
        bridge_options(None) == seq![
            "--stdio"@,
            "--enable"@,
            "deferred_executor"@,
            "--enable"@,
            "executor_capability_discovery"@,
        ],
        bridge_options(Some(url)) == seq![
            "--listen"@,
            url,
            "--enable"@,
            "deferred_executor"@,
            "--enable"@,
            "executor_capability_discovery"@,
        ],
{
    assert(bridge_options(None) =~= seq![
        "--stdio"@,
        "--enable"@,
        "deferred_executor"@,
        "--enable"@,
        "executor_capability_discovery"@,
    ]);
    assert(bridge_options(Some(url)) =~= seq![
        "--listen"@,
        url,
        "--enable"@,
        "deferred_executor"@,
        "--enable"@,
        "executor_capability_discovery"@,
    ]);
}

/// Each feature that is switched on or off becomes one override, behind those
/// given; what is switched off comes last, so that it wins.
pub proof fn law_features_become_overrides(
    given: Seq<Seq<char>>,
    enable: Seq<Seq<char>>,
    disable: Seq<Seq<char>>,
    i: int,
)
    ensures
        ({
            let all = overrides(given, enable, disable);
            let n = given.len() as int;
            let m = enable.len() as int;
            &&& all.len() == n + m + disable.len()
            &&& 0 <= i < n ==> all[i] == given[i]
            &&& 0 <= i < m ==> all[n + i] == "features."@ + enable[i] + "=true"@
            &&& 0 <= i < disable.len() ==> all[n + m + i] == "features."@ + disable[i] + "=false"@
        }),
{
}

// ---------------------------------------------------------------------------
// The remote program
// ---------------------------------------------------------------------------

proof fn lemma_app_server_at(arguments: Seq<Seq<char>>, n: nat)
    requires
        n <= arguments.len(),
        forall|i: int| 0 <= i < n ==> #[trigger] arguments[i] != "app-server"@,
        n < arguments.len() ==> arguments[n as int] == "app-server"@,
    ensures
        app_server_at(arguments) == n,
    decreases n,
{
    if n > 0 {
        let rest = arguments.skip(1);
        assert forall|i: int| 0 <= i < n - 1 implies #[trigger] rest[i] != "app-server"@ by {
            assert(rest[i] == arguments[i + 1]);
        }
        lemma_app_server_at(rest, (n - 1) as nat);
    }
}

/// Called for the App Server, the remote program is its proxy where that is
/// asked for, serves where a Unix listener is, and else relays; the options on
/// either side of the name go along, in order. Called without it, the program
/// passes the call on.
pub proof fn law_what_a_call_asks_for(before: Seq<Seq<char>>, after: Seq<Seq<char>>)
    requires
        forall|i: int| 0 <= i < before.len() ==> #[trigger] before[i] != "app-server"@,
    ensures
        ({
            let action = action_for(before + seq!["app-server"@] + after);
            &&& after.len() > 0 && after[0] == "proxy"@ ==> action == ShimActionView::Proxy
            &&& !(after.len() > 0 && after[0] == "proxy"@) && asks_for_listener(after) ==> action
                == ShimActionView::Serve(before + after)
            &&& !(after.len() > 0 && after[0] == "proxy"@) && !asks_for_listener(after) ==> action
                == ShimActionView::Relay(before + after)
        }),
        before != seq!["__cxs-agent"@] && before != seq!["__cxs-agent"@, "--replace"@] && before
            != seq!["--version"@] && before != seq!["-V"@] ==> action_for(before)
            == ShimActionView::Delegate,
        action_for(seq!["__cxs-agent"@]) == ShimActionView::Agent(false),
        action_for(seq!["__cxs-agent"@, "--replace"@]) == ShimActionView::Agent(true),
        action_for(seq!["--version"@]) == ShimActionView::Version,
        action_for(seq!["-V"@]) == ShimActionView::Version,
{
    let all = before + seq!["app-server"@] + after;
    let n = before.len();
    assert(all[n as int] == "app-server"@);
    assert forall|i: int| 0 <= i < n implies #[trigger] all[i] != "app-server"@ by {
        assert(all[i] == before[i]);
    }
    lemma_app_server_at(all, n);
    lemma_app_server_at(before, n);
    assert(all.take(n as int) =~= before);
    assert(all.skip(n as int + 1) =~= after);
    reveal_strlit("app-server");
    reveal_strlit("__cxs-agent");
    reveal_strlit("--replace");
    reveal_strlit("--version");
    reveal_strlit("-V");
    assert("app-server"@.len() == 10 && "__cxs-agent"@.len() == 11 && "--replace"@.len() == 9
        && "--version"@.len() == 9 && "-V"@.len() == 2);
    let agent = seq!["__cxs-agent"@];
    let replace = seq!["__cxs-agent"@, "--replace"@];
    let version = seq!["--version"@];
    let short = seq!["-V"@];
    assert(replace.len() == 2 && agent.len() == 1);
    if all == agent {
        assert(agent[n as int] == "app-server"@);
    }
    if all == replace {
        assert(replace[n as int] == "app-server"@);
    }
    if all == version {
        assert(version[n as int] == "app-server"@);
    }
    if all == short {
        assert(short[n as int] == "app-server"@);
    }
    assert("--version"@[2] == 'v');
    assert(version[0] != agent[0] && short[0] != agent[0]);
}

/// A Unix listener is asked for by one argument or by two.
pub proof fn law_unix_listeners(a: Seq<Seq<char>>, b: Seq<Seq<char>>, path: Seq<char>)
    ensures
        asks_for_listener(a + seq!["--listen"@, "unix://"@ + path] + b),
        asks_for_listener(a + seq!["--listen=unix://"@ + path] + b),
        !asks_for_listener(Seq::empty()),
        !asks_for_listener(seq!["--stdio"@]),
{
    let two = a + seq!["--listen"@, "unix://"@ + path] + b;
    let n = a.len() as int;
    lemma_begins("unix://"@, path);
    assert(two[n] == "--listen"@);
    assert(two[n + 1] == "unix://"@ + path);
    let one = a + seq!["--listen=unix://"@ + path] + b;
    lemma_begins("--listen=unix://"@, path);
    assert(one[n] == "--listen=unix://"@ + path);
    reveal_strlit("--stdio");
    reveal_strlit("--listen=unix://");
    let other = seq!["--stdio"@];
    assert(other[0].len() == 7);
}

/// The App Server of the host speaks over its own pipes, and has plugins and
/// apps switched off.
pub proof fn law_options_of_the_hosts_server()
    ensures
        host_app_server_options() == seq![
            "app-server"@,
            "--stdio"@,
            "--disable"@,
            "plugins"@,
            "--disable"@,
            "remote_plugin"@,
            "--disable"@,
            "plugin_sharing"@,
            "--disable"@,
            "apps"@,
        ],
{
}

/// An agent is replaced only where its file names a process that can be one.
pub proof fn law_agents_are_real_processes(n: nat, path: Seq<char>)
    ensures
        signed_in(decimal(n)) == (if n <= 0x7fff_ffff {
            Some(n as int)
        } else {
            None::<int>
        }),
        signed_in("-"@ + decimal(n)) == (if n <= 0x8000_0000 {
            Some(-(n as int))
        } else {
            None::<int>
        }),
        forall|contents: Seq<char>| #[trigger]
            agent_pid_in(contents, path) matches Ok(pid) ==> 1 < pid <= 0x7fff_ffff,
{
    law_numbers_are_read_back(n, 0x7fff_ffff);
    law_numbers_are_read_back(n, 0x8000_0000);
    reveal_strlit("-");
    let s = "-"@ + decimal(n);
    assert(s[0] == '-');
    assert(s.skip(1) =~= decimal(n));
    assert(decimal(n)[0] != '-' && decimal(n)[0] != '+');
    assert(all_digits(decimal(n)));
    if n > 0x8000_0000 {
        assert(digits_value(decimal(n)) != n || digits_value(decimal(n)) > 0x8000_0000);
    }
    law_numbers_are_read_back(n, n);
}

/// A process is an agent where the word stands among its arguments, as a whole.
pub proof fn law_arguments_of_processes(before: Seq<u8>, word: Seq<u8>, after: Seq<u8>)
    ensures
        (before.len() > 0 ==> before.last() == 0) && (after.len() > 0 ==> after[0] == 0)
            ==> has_argument(before + word + after, word),
        has_argument(before, word) ==> exists|a: Seq<u8>, b: Seq<u8>|
            before == #[trigger] (a + word + b) && (a.len() > 0 ==> a.last() == 0) && (b.len() > 0
                ==> b[0] == 0),
{
    let all = before + word + after;
    let n = before.len() as int;
    assert(all.subrange(n, n + word.len()) =~= word);
    if n > 0 {
        assert(all[n - 1] == before.last());
    }
    if after.len() > 0 {
        assert(all[n + word.len()] == after[0]);
    }
    if has_argument(before, word) {
        let i = choose|i: int|
            0 <= i && i + word.len() <= before.len() && #[trigger] before.subrange(
                i,
                i + word.len(),
            ) == word && (i == 0 || before[i - 1] == 0) && (i + word.len() == before.len()
                || before[i + word.len()] == 0);
        let a = before.take(i);
        let b = before.skip(i + word.len());
        assert(before =~= a + word + b) by {
            assert forall|k: int| 0 <= k < before.len() implies before[k] == (a + word + b)[k] by {
                if i <= k < i + word.len() {
                    assert(before.subrange(i, i + word.len())[k - i] == before[k]);
                }
            }
        }
    }
}

/// A process has ended where its state is `Z`: the letter behind the name, which
/// stands in brackets and may itself hold brackets.
pub proof fn law_ended_processes(before: Seq<char>, state: char, after: Seq<char>)
    requires
        forall|i: int| 0 <= i < after.len() ==> #[trigger] after[i] != ')',
        state != ')',
    ensures
        is_zombie(before + seq![')', ' ', state] + after) <==> state == 'Z',
{
    let stat = before + seq![')', ' ', state] + after;
    let n = before.len() as int;
    assert(stat[n] == ')' && stat[n + 1] == ' ' && stat[n + 2] == state);
    assert forall|j: int| n < j && j + 1 < stat.len() implies !(#[trigger] stat[j] == ')'
        && stat[j + 1] == ' ') by {
        if j >= n + 3 {
            assert(stat[j] == after[j - n - 3]);
        }
    }
    if is_zombie(stat) {
        let i = choose|i: int|
            0 <= i && i + 2 < stat.len() && #[trigger] stat[i] == ')' && stat[i + 1] == ' '
                && stat[i + 2] == 'Z' && no_mark_after(stat, i);
        if i < n {
            assert(!(stat[n] == ')' && stat[n + 1] == ' '));
        }
        if i > n {
            assert(!(stat[i] == ')' && stat[i + 1] == ' '));
        }
    }
}

/// The inode of a socket is the seventh word of the first line whose eighth is
/// its path.
pub proof fn law_sockets_are_found(line: Seq<char>, rest: Seq<Seq<char>>, path: Seq<char>)
    ensures
        ({
            let fields = words(line, false);
            &&& fields.len() > 7 && fields[7] == path ==> inode_in(seq![line] + rest, path) == Some(
                fields[6],
            )
            &&& !(fields.len() > 7 && fields[7] == path) ==> inode_in(seq![line] + rest, path)
                == inode_in(rest, path)
        }),
        inode_in(Seq::empty(), path) is None,
{
    let all = seq![line] + rest;
    assert(all[0] == line);
    assert(all.skip(1) =~= rest);
}

} // verus!
