//! Which of the client's App Server options reach the local App Server.

use vstd::prelude::*;
use crate::failure::{Failure, refuse, refuse_naming};
use crate::ssh::copy_texts;
use crate::text::{lemma_texts_push, same_text, starts_with, texts};

verus! {

/// What becomes of an option that the client gave to its App Server.
pub enum ArgumentUse {
    Skipped,
    SkippedWithValue,
    Kept,
    KeptWithValue,
    Refused,
}

/// The transport is the bridge's own business, configuration passes, and
/// nothing else does.
pub open spec fn argument_use(argument: Seq<char>) -> ArgumentUse {
    if argument == "--stdio"@ || "--listen="@.is_prefix_of(argument) {
        ArgumentUse::Skipped
    } else if argument == "--listen"@ {
        ArgumentUse::SkippedWithValue
    } else if argument == "-c"@ || argument == "--config"@ || argument == "--enable"@ || argument
        == "--disable"@ || argument == "--code-mode-host"@ {
        ArgumentUse::KeptWithValue
    } else if argument == "--strict-config"@ || argument == "--analytics-default-enabled"@
        || "--config="@.is_prefix_of(argument) || "--enable="@.is_prefix_of(argument)
        || "--disable="@.is_prefix_of(argument) || "--code-mode-host="@.is_prefix_of(argument) {
        ArgumentUse::Kept
    } else {
        ArgumentUse::Refused
    }
}

pub fn use_of_argument(argument: &str) -> (r: ArgumentUse)
    ensures
        r == argument_use(argument@),
{
    if same_text(argument, "--stdio") || starts_with(argument, "--listen=") {
        ArgumentUse::Skipped
    } else if same_text(argument, "--listen") {
        ArgumentUse::SkippedWithValue
    } else if same_text(argument, "-c") || same_text(argument, "--config") || same_text(
        argument,
        "--enable",
    ) || same_text(argument, "--disable") || same_text(argument, "--code-mode-host") {
        ArgumentUse::KeptWithValue
    } else if same_text(argument, "--strict-config") || same_text(
        argument,
        "--analytics-default-enabled",
    ) || starts_with(argument, "--config=") || starts_with(argument, "--enable=") || starts_with(
        argument,
        "--disable=",
    ) || starts_with(argument, "--code-mode-host=") {
        ArgumentUse::Kept
    } else {
        ArgumentUse::Refused
    }
}

/// `head` before the arguments of an accepted outcome.
pub open spec fn prefixed(
    head: Seq<Seq<char>>,
    tail: Result<Seq<Seq<char>>, Seq<char>>,
) -> Result<Seq<Seq<char>>, Seq<char>> {
    match tail {
        Ok(arguments) => Ok(head + arguments),
        Err(e) => Err(e),
    }
}

/// The arguments that pass, or why the first bad one is refused.
pub open spec fn kept_arguments(arguments: Seq<Seq<char>>) -> Result<Seq<Seq<char>>, Seq<char>>
    decreases arguments.len(),
{
    if arguments.len() == 0 {
        Ok(Seq::empty())
    } else {
        let first = arguments[0];
        match argument_use(first) {
            ArgumentUse::Skipped => kept_arguments(arguments.skip(1)),
            ArgumentUse::SkippedWithValue => if arguments.len() < 2 {
                Err("app-server --listen did not include a value"@)
            } else {
                kept_arguments(arguments.skip(2))
            },
            ArgumentUse::Kept => prefixed(seq![first], kept_arguments(arguments.skip(1))),
            ArgumentUse::KeptWithValue => if arguments.len() < 2 {
                Err("app-server argument '"@ + first + "' did not include a value"@)
            } else {
                prefixed(seq![first, arguments[1]], kept_arguments(arguments.skip(2)))
            },
            ArgumentUse::Refused => Err(
                "unsupported app-server argument '"@ + first + "' from the remote client"@,
            ),
        }
    }
}

/// The command line of the local App Server: its name and the options that
/// pass.
pub fn app_server_arguments(arguments: &Vec<String>) -> (r: Result<Vec<String>, Failure>)
    ensures
        match r {
            Ok(forwarded) => prefixed(seq!["app-server"@], kept_arguments(texts(arguments@))) == Ok::<
                Seq<Seq<char>>,
                Seq<char>,
            >(texts(forwarded@)),
            Err(e) => kept_arguments(texts(arguments@)) == Err::<Seq<Seq<char>>, Seq<char>>(e@),
        },
{
    broadcast use lemma_texts_push;

    let ghost given = texts(arguments@);
    let ghost wanted = prefixed(seq!["app-server"@], kept_arguments(given));
    let mut forwarded: Vec<String> = Vec::new();
    forwarded.push("app-server".to_owned());
    assert(texts(forwarded@) =~= seq!["app-server"@]);
    assert(given.skip(0) =~= given);
    let mut index: usize = 0;
    while index < arguments.len()
        invariant
            index <= arguments.len(),
            given == texts(arguments@),
            wanted == prefixed(seq!["app-server"@], kept_arguments(given)),
            prefixed(texts(forwarded@), kept_arguments(given.skip(index as int))) == wanted,
        decreases arguments.len() - index,
    {
        let argument = arguments[index].as_str();
        let ghost rest = given.skip(index as int);
        let ghost before = texts(forwarded@);
        assert(rest[0] == argument@);
        match use_of_argument(argument) {
            ArgumentUse::Skipped => {
                assert(rest.skip(1) =~= given.skip(index as int + 1));
                index = index + 1;
            },
            ArgumentUse::SkippedWithValue => {
                if arguments.len() - index < 2 {
                    return Err(refuse("app-server --listen did not include a value"));
                }
                assert(rest.skip(2) =~= given.skip(index as int + 2));
                index = index + 2;
            },
            ArgumentUse::Kept => {
                forwarded.push(arguments[index].clone());
                proof {
                    let tail = given.skip(index as int + 1);
                    assert(rest.skip(1) =~= tail);
                    assert(texts(forwarded@) == before.push(argument@));
                    if let Ok(more) = kept_arguments(tail) {
                        assert(before + (seq![argument@] + more) =~= before.push(argument@) + more);
                    }
                }
                index = index + 1;
            },
            ArgumentUse::KeptWithValue => {
                if arguments.len() - index < 2 {
                    return Err(
                        refuse_naming("app-server argument '", argument, "' did not include a value"),
                    );
                }
                forwarded.push(arguments[index].clone());
                forwarded.push(arguments[index + 1].clone());
                proof {
                    let tail = given.skip(index as int + 2);
                    let value = given[index as int + 1];
                    assert(rest.skip(2) =~= tail);
                    assert(rest[1] == value);
                    assert(texts(forwarded@) == before.push(argument@).push(value));
                    if let Ok(more) = kept_arguments(tail) {
                        assert(before + (seq![argument@, value] + more) =~= before.push(argument@).push(
                            value,
                        ) + more);
                    }
                }
                index = index + 2;
            },
            ArgumentUse::Refused => {
                return Err(
                    refuse_naming(
                        "unsupported app-server argument '",
                        argument,
                        "' from the remote client",
                    ),
                );
            },
        }
    }
    assert(given.skip(index as int) =~= Seq::empty());
    assert(texts(forwarded@) + Seq::<Seq<char>>::empty() =~= texts(forwarded@));
    Ok(forwarded)
}

/// The options that the bridge gives the local App Server: how to be reached,
/// and the features that the remote environment needs.
pub open spec fn bridge_options(listen: Option<Seq<char>>) -> Seq<Seq<char>> {
    (match listen {
        Some(url) => seq!["--listen"@, url],
        None => seq!["--stdio"@],
    }) + seq![
        "--enable"@,
        "deferred_executor"@,
        "--enable"@,
        "executor_capability_discovery"@,
    ]
}

/// The whole command line of the local App Server.
pub fn app_server_command(forwarded: &Vec<String>, listen: Option<&str>) -> (r: Vec<String>)
    ensures
        texts(r@) == texts(forwarded@) + bridge_options(
            match listen {
                Some(url) => Some(url@),
                None => None,
            },
        ),
{
    let mut command = copy_texts(forwarded);
    let ghost head = texts(command@);
    match listen {
        Some(url) => {
            command.push("--listen".to_owned());
            command.push(url.to_owned());
        },
        None => {
            command.push("--stdio".to_owned());
        },
    }
    command.push("--enable".to_owned());
    command.push("deferred_executor".to_owned());
    command.push("--enable".to_owned());
    command.push("executor_capability_discovery".to_owned());
    assert(texts(command@) =~= head + bridge_options(
        match listen {
            Some(url) => Some(url@),
            None => None,
        },
    ));
    command
}

/// What passes would pass again unchanged: no option that selects a transport
/// and no option that is refused is left among the arguments that pass.
pub proof fn law_kept_arguments_pass_unchanged(arguments: Seq<Seq<char>>, kept: Seq<Seq<char>>)
    requires
        kept_arguments(arguments) == Ok::<Seq<Seq<char>>, Seq<char>>(kept),
    ensures
        kept_arguments(kept) == Ok::<Seq<Seq<char>>, Seq<char>>(kept),
    decreases arguments.len(),
{
    if arguments.len() > 0 {
        let first = arguments[0];
        match argument_use(first) {
            ArgumentUse::Skipped => law_kept_arguments_pass_unchanged(arguments.skip(1), kept),
            ArgumentUse::SkippedWithValue => law_kept_arguments_pass_unchanged(
                arguments.skip(2),
                kept,
            ),
            ArgumentUse::Kept => {
                let more = kept_arguments(arguments.skip(1))->Ok_0;
                law_kept_arguments_pass_unchanged(arguments.skip(1), more);
                assert(kept[0] == first);
                assert(kept.skip(1) =~= more);
                assert(seq![first] + more =~= kept);
            },
            ArgumentUse::KeptWithValue => {
                let more = kept_arguments(arguments.skip(2))->Ok_0;
                law_kept_arguments_pass_unchanged(arguments.skip(2), more);
                assert(kept[0] == first);
                assert(kept[1] == arguments[1]);
                assert(kept.skip(2) =~= more);
                assert(seq![first, arguments[1]] + more =~= kept);
            },
            ArgumentUse::Refused => {},
        }
    }
}

} // verus!
