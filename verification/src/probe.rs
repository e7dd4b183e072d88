//! Probes: whether a local Codex offers what Shuttle builds on, and whether
//! requests reach the remote host and come back.

use vstd::prelude::*;
use vstd::string::*;
use vstd::utf8::*;
use crate::failure::{Failure, outcome, refuse, refused};
use crate::json::{
    Json, JsonObject, JsonView, array_view, field, json_view, lemma_array_view, lookup, nested,
    parse_json, parsed_json, text_of,
};
use crate::routing::{host_request_list, host_request_methods, slices};
use crate::ssh::RemoteFacts;
use crate::text::{contains_text, occurs, same_text, text_of_utf8, trim, trimmed};

verus! {

/// One finding.
#[derive(Debug, Clone, PartialEq, Eq)]
pub struct Check {
    pub name: String,
    pub passed: bool,
    pub detail: String,
}

pub struct CheckView {
    pub name: Seq<char>,
    pub passed: bool,
    pub detail: Seq<char>,
}

impl View for Check {
    type V = CheckView;

    open spec fn view(&self) -> CheckView {
        CheckView { name: self.name@, passed: self.passed, detail: self.detail@ }
    }
}

pub open spec fn check_views(checks: Seq<Check>) -> Seq<CheckView> {
    checks.map_values(|c: Check| c@)
}

fn check(name: &str, passed: bool, detail: String) -> (r: Check)
    ensures
        r@ == (CheckView { name: name@, passed, detail: detail@ }),
{
    Check { name: name.to_owned(), passed, detail }
}

// ---------------------------------------------------------------------------
// The local Codex
// ---------------------------------------------------------------------------

/// The Codex that comes with the desktop application.
pub const DESKTOP_CODEX: &'static str = "/Applications/ChatGPT.app/Contents/Resources/codex";

/// The local Codex: the one that comes with the desktop application, unless
/// another is configured.
pub fn desktop_codex_path(configured: Option<&str>) -> (r: String)
    ensures
        r@ == match configured {
            Some(path) => path@,
            None => DESKTOP_CODEX@,
        },
{
    match configured {
        Some(path) => path.to_owned(),
        None => DESKTOP_CODEX.to_owned(),
    }
}

/// The version that a Codex reports on its output.
pub fn codex_version(output: &[u8]) -> (r: Result<String, Failure>)
    ensures
        outcome(r) == (if valid_utf8(output@) {
            Ok::<Seq<char>, Seq<char>>(trim(decode_utf8(output@)))
        } else {
            Err("Codex version output was not UTF-8"@)
        }),
{
    match text_of_utf8(vstd::slice::slice_to_vec(output)) {
        Some(text) => {
            proof {
                encode_utf8_valid_utf8(text@);
                encode_utf8_decode_utf8(text@);
            }
            Ok(trimmed(&text))
        },
        None => Err(refuse("Codex version output was not UTF-8")),
    }
}

/// One step of a JSON pointer along the number zero.
pub open spec fn first_item(value: JsonView) -> Option<JsonView> {
    match value {
        JsonView::Array(items) => if items.len() > 0 {
            Some(items[0])
        } else {
            None
        },
        JsonView::Object(map) => lookup(map, "0"@),
        _ => None,
    }
}

/// The method that a variant of the client's requests is for.
pub open spec fn variant_method(variant: JsonView) -> Option<Seq<char>> {
    match nested(variant, "properties"@, "method"@) {
        Some(method) => match field(method, "enum"@) {
            Some(names) => text_of(first_item(names)),
            None => None,
        },
        None => None,
    }
}

pub open spec fn has_variant(variants: Seq<JsonView>, method: Seq<char>) -> bool {
    exists|i: int| 0 <= i < variants.len() && variant_method(#[trigger] variants[i]) == Some(method)
}

pub open spec fn has_property(
    definitions: Map<Seq<char>, JsonView>,
    definition: Seq<char>,
    property: Seq<char>,
) -> bool {
    match lookup(definitions, definition) {
        Some(value) => nested(value, "properties"@, property) is Some,
        None => false,
    }
}

/// Whether a schema offers the requests about environments.
pub open spec fn offers_environments(variants: Seq<JsonView>) -> bool {
    &&& has_variant(variants, "environment/add"@)
    &&& has_variant(variants, "environment/status"@)
    &&& has_variant(variants, "environment/info"@)
}

/// Whether the schema of the client's requests offers all that Shuttle builds
/// on: environments, and the requests that the host answers.
pub open spec fn schema_refusal(schema: JsonView) -> Option<Seq<char>> {
    match field(schema, "definitions"@) {
        Some(JsonView::Object(definitions)) => match field(schema, "oneOf"@) {
            Some(JsonView::Array(variants)) => if has_property(
                definitions,
                "EnvironmentAddParams"@,
                "execServerUrl"@,
            ) && has_property(definitions, "TurnEnvironmentParams"@, "environmentId"@)
                && has_property(definitions, "ThreadStartParams"@, "environments"@)
                && offers_environments(variants) && forall|i: int|
                0 <= i < host_request_methods().len() ==> has_variant(
                    variants,
                    #[trigger] host_request_methods()[i],
                ) {
                None
            } else {
                Some("required execution-environment or remote host RPC contracts are missing"@)
            },
            _ => Some("schema did not contain client request variants"@),
        },
        _ => Some("schema did not contain definitions"@),
    }
}

fn method_of_variant<'a>(variant: &'a Json) -> (r: Option<&'a str>)
    ensures
        match r {
            Some(s) => variant_method(variant@) == Some(s@),
            None => variant_method(variant@) is None,
        },
{
    let names = match variant.get_nested("properties", "method") {
        Some(method) => match method.get("enum") {
            Some(names) => names,
            None => return None,
        },
        None => return None,
    };
    let first = match names {
        Json::Array(items) => {
            proof {
                lemma_array_view(items@);
            }
            if items.len() > 0 {
                assert(array_view(items@)[0] == items@[0]@);
                &items[0]
            } else {
                return None;
            }
        },
        Json::Object(object) => match object.get("0") {
            Some(value) => value,
            None => return None,
        },
        _ => return None,
    };
    match first {
        Json::Text(s) => Some(s.as_str()),
        _ => None,
    }
}

fn offers(variants: &Vec<Json>, method: &str) -> (r: bool)
    ensures
        r == has_variant(array_view(variants@), method@),
{
    proof {
        lemma_array_view(variants@);
    }
    let ghost views = array_view(variants@);
    let mut i: usize = 0;
    while i < variants.len()
        invariant
            i <= variants.len(),
            views == array_view(variants@),
            views.len() == variants.len(),
            forall|j: int| 0 <= j < variants.len() ==> #[trigger] views[j] == json_view(variants@[j]),
            forall|j: int| 0 <= j < i ==> variant_method(#[trigger] views[j]) != Some(method@),
        decreases variants.len() - i,
    {
        assert(views[i as int] == variants@[i as int]@);
        match method_of_variant(&variants[i]) {
            Some(found) => if same_text(found, method) {
                return true;
            },
            None => {},
        }
        i = i + 1;
    }
    false
}

fn defines(definitions: &JsonObject, definition: &str, property: &str) -> (r: bool)
    ensures
        r == has_property(definitions@, definition@, property@),
{
    match definitions.get(definition) {
        Some(value) => value.get_nested("properties", property).is_some(),
        None => false,
    }
}

/// Holds the schema of the client's requests against what Shuttle builds on.
pub fn app_server_environment_contract(schema: &Json) -> (r: Result<(), Failure>)
    ensures
        match schema_refusal(schema@) {
            Some(message) => refused(r, message),
            None => r is Ok,
        },
{
    let definitions = match schema.get("definitions") {
        Some(Json::Object(definitions)) => definitions,
        _ => return Err(refuse("schema did not contain definitions")),
    };
    let variants = match schema.get("oneOf") {
        Some(Json::Array(variants)) => variants,
        _ => return Err(refuse("schema did not contain client request variants")),
    };
    let mut complete = defines(definitions, "EnvironmentAddParams", "execServerUrl") && defines(
        definitions,
        "TurnEnvironmentParams",
        "environmentId",
    ) && defines(definitions, "ThreadStartParams", "environments") && offers(
        variants,
        "environment/add",
    ) && offers(variants, "environment/status") && offers(variants, "environment/info");
    let methods = host_request_list();
    let ghost names = host_request_methods();
    let ghost defined = complete;
    let mut i: usize = 0;
    while i < methods.len()
        invariant
            i <= methods.len(),
            names == host_request_methods(),
            slices(methods@) == names,
            complete == (defined && forall|j: int|
                0 <= j < i ==> has_variant(array_view(variants@), #[trigger] names[j])),
        decreases methods.len() - i,
    {
        assert(slices(methods@)[i as int] == methods@[i as int]@);
        if !offers(variants, methods[i]) {
            assert(!has_variant(array_view(variants@), names[i as int]));
            complete = false;
        }
        i = i + 1;
    }
    assert(names.len() == methods@.len());
    if complete {
        Ok(())
    } else {
        Err(refuse("required execution-environment or remote host RPC contracts are missing"))
    }
}

/// The contract of the schema in this file.
pub fn check_schema_file(contents: &[u8]) -> (r: Result<(), Failure>)
    ensures
        match parsed_json(contents@) {
            None => refused(r, "could not parse the App Server schema"@),
            Some(schema) => match schema_refusal(schema) {
                Some(message) => refused(r, message),
                None => r is Ok,
            },
        },
{
    match parse_json(contents) {
        Some(schema) => app_server_environment_contract(&schema),
        None => Err(refuse("could not parse the App Server schema")),
    }
}

/// Whether the help of the Exec Server names the options that Shuttle uses.
pub open spec fn supports_stdio(succeeded: bool, help: Seq<char>) -> bool {
    succeeded && occurs(help, "--listen"@) && occurs(help, "stdio"@) && occurs(
        help,
        "--exit-on-stdin-close"@,
    )
}

/// What is found out about a Codex that reports its version: the help of its
/// Exec Server (and whether printing it succeeded), and the contract of its
/// schema.
#[derive(Debug)]
pub struct CodexFindings {
    pub exec_server_help: Result<(bool, String), Failure>,
    pub schema: Result<(), Failure>,
}

pub open spec fn version_finding(version: Result<String, Failure>) -> CheckView {
    match version {
        Ok(version) => CheckView { name: "codex-version"@, passed: true, detail: version@ },
        Err(e) => CheckView { name: "codex-version"@, passed: false, detail: e@ },
    }
}

pub open spec fn stdio_finding(help: Result<(bool, String), Failure>) -> CheckView {
    match help {
        Ok((succeeded, help)) => if supports_stdio(succeeded, help@) {
            CheckView {
                name: "exec-server-stdio"@,
                passed: true,
                detail: "exec-server exposes stdio and exit-on-stdin-close"@,
            }
        } else {
            CheckView {
                name: "exec-server-stdio"@,
                passed: false,
                detail: "required experimental exec-server flags were not found"@,
            }
        },
        Err(e) => CheckView { name: "exec-server-stdio"@, passed: false, detail: e@ },
    }
}

pub open spec fn adapter_finding(schema: Result<(), Failure>) -> CheckView {
    match schema {
        Ok(_) => CheckView {
            name: "app-exec-adapter"@,
            passed: true,
            detail: "execution-environment and remote host RPC contracts are present"@,
        },
        Err(e) => CheckView { name: "app-exec-adapter"@, passed: false, detail: e@ },
    }
}

/// The findings about a local Codex. One that does not report its version is
/// not asked for more.
pub fn local_codex_checks(version: Result<String, Failure>, findings: Option<CodexFindings>) -> (r:
    Vec<Check>)
    ensures
        check_views(r@) == match (version, findings) {
            (Ok(_), Some(found)) => seq![
                version_finding(version),
                stdio_finding(found.exec_server_help),
                adapter_finding(found.schema),
            ],
            _ => seq![version_finding(version)],
        },
{
    let mut checks: Vec<Check> = Vec::new();
    let ghost first = version_finding(version);
    match version {
        Ok(version) => checks.push(check("codex-version", true, version)),
        Err(e) => {
            checks.push(check("codex-version", false, e.message));
            assert(check_views(checks@) =~= seq![first]);
            return checks;
        },
    }
    match findings {
        Some(found) => {
            let ghost second = stdio_finding(found.exec_server_help);
            let ghost third = adapter_finding(found.schema);
            match found.exec_server_help {
                Ok((succeeded, help)) => if succeeded && contains_text(&help, "--listen")
                    && contains_text(&help, "stdio") && contains_text(
                    &help,
                    "--exit-on-stdin-close",
                ) {
                    checks.push(
                        check(
                            "exec-server-stdio",
                            true,
                            "exec-server exposes stdio and exit-on-stdin-close".to_owned(),
                        ),
                    );
                } else {
                    checks.push(
                        check(
                            "exec-server-stdio",
                            false,
                            "required experimental exec-server flags were not found".to_owned(),
                        ),
                    );
                },
                Err(e) => checks.push(check("exec-server-stdio", false, e.message)),
            }
            match found.schema {
                Ok(_) => checks.push(
                    check(
                        "app-exec-adapter",
                        true,
                        "execution-environment and remote host RPC contracts are present".to_owned(),
                    ),
                ),
                Err(e) => checks.push(check("app-exec-adapter", false, e.message)),
            }
            assert(check_views(checks@) =~= seq![first, second, third]);
        },
        None => {
            assert(check_views(checks@) =~= seq![first]);
        },
    }
    checks
}

/// The first check that failed, as a refusal to go on.
pub open spec fn failed_check(checks: Seq<CheckView>) -> Option<Seq<char>>
    decreases checks.len(),
{
    if checks.len() == 0 {
        None
    } else if !checks[0].passed {
        Some(
            "local Codex compatibility check '"@ + checks[0].name + "' failed: "@
                + checks[0].detail,
        )
    } else {
        failed_check(checks.skip(1))
    }
}

pub fn require_checks(checks: &Vec<Check>) -> (r: Result<(), Failure>)
    ensures
        match failed_check(check_views(checks@)) {
            Some(message) => refused(r, message),
            None => r is Ok,
        },
{
    let ghost all = check_views(checks@);
    let mut i: usize = 0;
    assert(all.skip(0) =~= all);
    while i < checks.len()
        invariant
            i <= checks.len(),
            all == check_views(checks@),
            failed_check(all.skip(i as int)) == failed_check(all),
        decreases checks.len() - i,
    {
        let ghost rest = all.skip(i as int);
        assert(rest[0] == checks@[i as int]@);
        assert(rest.skip(1) =~= all.skip(i as int + 1));
        if !checks[i].passed {
            let mut message = "local Codex compatibility check '".to_owned();
            message.push_str(&checks[i].name);
            message.push_str("' failed: ");
            message.push_str(&checks[i].detail);
            return Err(Failure { message });
        }
        i = i + 1;
    }
    Ok(())
}

/// How a finding is marked in print.
pub fn mark(passed: bool) -> (r: &'static str)
    ensures
        r@ == if passed {
            "PASS"@
        } else {
            "FAIL"@
        },
{
    if passed {
        "PASS"
    } else {
        "FAIL"
    }
}

// ---------------------------------------------------------------------------
// The remote host
// ---------------------------------------------------------------------------

/// Whether Shuttle runs on hosts with this kernel.
pub open spec fn is_supported_kernel(kernel: Seq<char>) -> bool {
    kernel == "Linux"@ || kernel == "Darwin"@
}

/// Whether Shuttle runs on this processor under this kernel, both by the names
/// that the host has for them: macOS on Apple Silicon alone.
pub open spec fn is_supported_arch(kernel: Seq<char>, arch: Seq<char>) -> bool {
    if kernel == "Darwin"@ {
        arch == "arm64"@
    } else {
        arch == "x86_64"@ || arch == "aarch64"@
    }
}

pub fn supported_kernel(kernel: &str) -> (r: bool)
    ensures
        r == is_supported_kernel(kernel@),
{
    same_text(kernel, "Linux") || same_text(kernel, "Darwin")
}

pub fn supported_arch(kernel: &str, arch: &str) -> (r: bool)
    ensures
        r == is_supported_arch(kernel@, arch@),
{
    if same_text(kernel, "Darwin") {
        same_text(arch, "arm64")
    } else {
        same_text(arch, "x86_64") || same_text(arch, "aarch64")
    }
}

/// What a host says of itself, as a finding.
pub fn remote_report(host: &str, facts: &Result<RemoteFacts, Failure>) -> (r: Check)
    ensures
        r@ == (CheckView {
            name: "ssh:"@ + host@,
            passed: match *facts {
                Ok(facts) => is_supported_kernel(facts.kernel@) && is_supported_arch(
                    facts.kernel@,
                    facts.arch@,
                ),
                Err(_) => false,
            },
            detail: match *facts {
                Ok(facts) => "kernel="@ + facts.kernel@ + " arch="@ + facts.arch@ + " home="@
                    + facts.home@,
                Err(e) => e@,
            },
        }),
{
    let mut name = "ssh:".to_owned();
    name.push_str(host);
    match facts {
        Ok(facts) => {
            let mut detail = "kernel=".to_owned();
            detail.push_str(&facts.kernel);
            detail.push_str(" arch=");
            detail.push_str(&facts.arch);
            detail.push_str(" home=");
            detail.push_str(&facts.home);
            let passed = supported_kernel(&facts.kernel) && supported_arch(
                &facts.kernel,
                &facts.arch,
            );
            check(&name, passed, detail)
        },
        Err(e) => check(&name, false, e.message.clone()),
    }
}

} // verus!
