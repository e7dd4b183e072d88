//! Which side owns an App Server method. The schema that Codex generates shows
//! that a method exists; who answers it is decided here.

use vstd::prelude::*;
use crate::text::same_text;

verus! {

/// The requests that the remote host answers.
pub open spec fn host_request_methods() -> Seq<Seq<char>> {
    seq![
        "command/exec"@,
        "command/exec/resize"@,
        "command/exec/terminate"@,
        "command/exec/write"@,
        "fs/copy"@,
        "fs/createDirectory"@,
        "fs/getMetadata"@,
        "fs/readDirectory"@,
        "fs/readFile"@,
        "fs/remove"@,
        "fs/unwatch"@,
        "fs/watch"@,
        "fs/writeFile"@,
        "fuzzyFileSearch"@,
        "fuzzyFileSearch/sessionStart"@,
        "fuzzyFileSearch/sessionStop"@,
        "fuzzyFileSearch/sessionUpdate"@,
        "process/kill"@,
        "process/resizePty"@,
        "process/spawn"@,
        "process/writeStdin"@,
    ]
}

/// The notifications that the remote host may send to the client.
pub open spec fn host_notification_methods() -> Seq<Seq<char>> {
    seq![
        "command/exec/outputDelta"@,
        "fs/changed"@,
        "fuzzyFileSearch/sessionCompleted"@,
        "fuzzyFileSearch/sessionUpdated"@,
        "process/exited"@,
        "process/outputDelta"@,
    ]
}

/// The fields of an initialize response that tell which host answers.
pub open spec fn required_initialize_fields() -> Seq<Seq<char>> {
    seq!["userAgent"@, "codexHome"@, "platformFamily"@, "platformOs"@]
}

/// The views of a list of string slices.
pub open spec fn slices(list: Seq<&'static str>) -> Seq<Seq<char>> {
    list.map_values(|s: &'static str| s@)
}

pub fn host_request_list() -> (r: Vec<&'static str>)
    ensures
        slices(r@) == host_request_methods(),
{
    let r: Vec<&'static str> = vec![
        "command/exec",
        "command/exec/resize",
        "command/exec/terminate",
        "command/exec/write",
        "fs/copy",
        "fs/createDirectory",
        "fs/getMetadata",
        "fs/readDirectory",
        "fs/readFile",
        "fs/remove",
        "fs/unwatch",
        "fs/watch",
        "fs/writeFile",
        "fuzzyFileSearch",
        "fuzzyFileSearch/sessionStart",
        "fuzzyFileSearch/sessionStop",
        "fuzzyFileSearch/sessionUpdate",
        "process/kill",
        "process/resizePty",
        "process/spawn",
        "process/writeStdin",
    ];
    assert(slices(r@) =~= host_request_methods());
    r
}

pub fn host_notification_list() -> (r: Vec<&'static str>)
    ensures
        slices(r@) == host_notification_methods(),
{
    let r: Vec<&'static str> = vec![
        "command/exec/outputDelta",
        "fs/changed",
        "fuzzyFileSearch/sessionCompleted",
        "fuzzyFileSearch/sessionUpdated",
        "process/exited",
        "process/outputDelta",
    ];
    assert(slices(r@) =~= host_notification_methods());
    r
}

pub fn required_initialize_list() -> (r: Vec<&'static str>)
    ensures
        slices(r@) == required_initialize_fields(),
{
    let r: Vec<&'static str> = vec!["userAgent", "codexHome", "platformFamily", "platformOs"];
    assert(slices(r@) =~= required_initialize_fields());
    r
}

fn listed(list: &Vec<&'static str>, method: &str) -> (r: bool)
    ensures
        r == slices(list@).contains(method@),
{
    let mut i: usize = 0;
    while i < list.len()
        invariant
            i <= list.len(),
            forall|j: int| 0 <= j < i ==> slices(list@)[j] != method@,
        decreases list.len() - i,
    {
        if same_text(list[i], method) {
            assert(slices(list@)[i as int] == method@);
            return true;
        }
        i = i + 1;
    }
    false
}

/// Whether the remote host answers `method`.
pub fn is_host_request(method: &str) -> (r: bool)
    ensures
        r == host_request_methods().contains(method@),
{
    listed(&host_request_list(), method)
}

/// Whether `method` is a notification that the remote host may send.
pub fn is_host_notification(method: &str) -> (r: bool)
    ensures
        r == host_notification_methods().contains(method@),
{
    listed(&host_notification_list(), method)
}

} // verus!
