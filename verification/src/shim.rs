//! The shim that stands in for Codex on the host, and the agent that connects
//! it to the bridge.

use vstd::prelude::*;
use vstd::string::*;
use vstd::utf8::*;
use crate::failure::{Failure, refuse, refuse_about, refuse_naming, refused};
use crate::mux::ChannelKind;
use crate::profile::{
    AGENT_MAGIC, AGENT_PROTOCOL_VERSION, AgentHandshake, SHIM_MAGIC, SHIM_PROTOCOL_VERSION,
    ShimHandshake, ShimTransport,
};
use crate::routing::slices;
use crate::ssh::{copy_texts, has_text};
use crate::text::{
    all_digits, chars_of, decimal, decimal_text, digits_value, is_ascii_digit, lemma_texts_push,
    lines, number_in, optional_text, parse_number, same_text, split_lines, split_words, starts_with,
    string_of, texts, trim, trimmed, words,
};

verus! {

// ---------------------------------------------------------------------------
// What the shim is asked to do
// ---------------------------------------------------------------------------

/// What an invocation of the shim asks for.
#[derive(Debug)]
pub enum ShimAction {
    /// Run the agent, in the place of one that runs already or not.
    Agent(bool),
    /// Print the version.
    Version,
    /// Hand the invocation to the Codex that was here before.
    Delegate,
    /// Connect to the control socket.
    Proxy,
    /// Serve the control socket, with these options for the App Server.
    Serve(Vec<String>),
    /// Speak for the App Server, with these options for it.
    Relay(Vec<String>),
}

/// Whether these options ask for a Unix listener.
pub open spec fn asks_for_listener(arguments: Seq<Seq<char>>) -> bool {
    ||| exists|i: int|
        0 <= i && i + 1 < arguments.len() && #[trigger] arguments[i] == "--listen"@
            && "unix://"@.is_prefix_of(arguments[i + 1])
    ||| exists|i: int|
        0 <= i < arguments.len() && "--listen=unix://"@.is_prefix_of(#[trigger] arguments[i])
}

pub fn requests_unix_listener(arguments: &Vec<String>) -> (r: bool)
    ensures
        r == asks_for_listener(texts(arguments@)),
{
    let ghost all = texts(arguments@);
    let mut i: usize = 0;
    assert(all.len() == arguments@.len());
    while i < arguments.len()
        invariant
            i <= arguments.len(),
            all == texts(arguments@),
            all.len() == arguments@.len(),
            forall|j: int|
                0 <= j < i && j + 1 < all.len() ==> !(#[trigger] all[j] == "--listen"@
                    && "unix://"@.is_prefix_of(all[j + 1])),
            forall|j: int|
                0 <= j < i ==> !("--listen=unix://"@.is_prefix_of(#[trigger] all[j])),
        decreases arguments.len() - i,
    {
        assert(all[i as int] == arguments@[i as int]@);
        if starts_with(&arguments[i], "--listen=unix://") {
            return true;
        }
        if i + 1 < arguments.len() && same_text(&arguments[i], "--listen") {
            assert(all[i + 1] == arguments@[i + 1]@);
            if starts_with(&arguments[i + 1], "unix://") {
                assert(all[i as int] == "--listen"@ && "unix://"@.is_prefix_of(all[i + 1]));
                return true;
            }
        }
        i = i + 1;
    }
    false
}

/// Where the first `app-server` stands (behind all where there is none).
pub open spec fn app_server_at(arguments: Seq<Seq<char>>) -> nat
    decreases arguments.len(),
{
    if arguments.len() == 0 || arguments[0] == "app-server"@ {
        0
    } else {
        1 + app_server_at(arguments.skip(1))
    }
}

pub enum ShimActionView {
    Agent(bool),
    Version,
    Delegate,
    Proxy,
    Serve(Seq<Seq<char>>),
    Relay(Seq<Seq<char>>),
}

impl View for ShimAction {
    type V = ShimActionView;

    open spec fn view(&self) -> ShimActionView {
        match *self {
            ShimAction::Agent(replace) => ShimActionView::Agent(replace),
            ShimAction::Version => ShimActionView::Version,
            ShimAction::Delegate => ShimActionView::Delegate,
            ShimAction::Proxy => ShimActionView::Proxy,
            ShimAction::Serve(arguments) => ShimActionView::Serve(texts(arguments@)),
            ShimAction::Relay(arguments) => ShimActionView::Relay(texts(arguments@)),
        }
    }
}

/// What these arguments ask for: the options of the App Server stand on both
/// sides of its name.
pub open spec fn action_for(arguments: Seq<Seq<char>>) -> ShimActionView {
    let n = app_server_at(arguments) as int;
    if arguments == seq!["__cxs-agent"@] {
        ShimActionView::Agent(false)
    } else if arguments == seq!["__cxs-agent"@, "--replace"@] {
        ShimActionView::Agent(true)
    } else if arguments == seq!["--version"@] || arguments == seq!["-V"@] {
        ShimActionView::Version
    } else if n >= arguments.len() {
        ShimActionView::Delegate
    } else {
        let options = arguments.take(n) + arguments.skip(n + 1);
        let after = arguments.skip(n + 1);
        if after.len() > 0 && after[0] == "proxy"@ {
            ShimActionView::Proxy
        } else if asks_for_listener(after) {
            ShimActionView::Serve(options)
        } else {
            ShimActionView::Relay(options)
        }
    }
}

proof fn lemma_app_server_at(arguments: Seq<Seq<char>>, n: nat)
    requires
        n <= arguments.len(),
        forall|i: int| 0 <= i < n ==> #[trigger] arguments[i] != "app-server"@,
        n < arguments.len() ==> arguments[n as int] == "app-server"@,
    ensures
        app_server_at(arguments) == n,
    decreases n,
{
    if n > 0 {
        assert forall|i: int| 0 <= i < n - 1 implies #[trigger] arguments.skip(1)[i]
            != "app-server"@ by {
            assert(arguments.skip(1)[i] == arguments[i + 1]);
        }
        lemma_app_server_at(arguments.skip(1), (n - 1) as nat);
    }
}

fn are(arguments: &Vec<String>, first: &str, second: Option<&str>) -> (r: bool)
    ensures
        r == (texts(arguments@) == match second {
            Some(second) => seq![first@, second@],
            None => seq![first@],
        }),
{
    let ghost all = texts(arguments@);
    assert(all.len() == arguments@.len());
    match second {
        Some(second) => {
            let r = arguments.len() == 2 && same_text(&arguments[0], first) && same_text(
                &arguments[1],
                second,
            );
            proof {
                if all.len() == 2 {
                    assert(all[0] == arguments@[0]@ && all[1] == arguments@[1]@);
                    assert(r ==> all =~= seq![first@, second@]);
                    assert(seq![first@, second@][0] == first@);
                    assert(seq![first@, second@][1] == second@);
                }
            }
            r
        },
        None => {
            let r = arguments.len() == 1 && same_text(&arguments[0], first);
            proof {
                if all.len() == 1 {
                    assert(all[0] == arguments@[0]@);
                    assert(r ==> all =~= seq![first@]);
                    assert(seq![first@][0] == first@);
                }
            }
            r
        },
    }
}

/// The arguments `arguments[from..to]`.
fn some_of(arguments: &Vec<String>, from: usize, to: usize) -> (r: Vec<String>)
    requires
        from <= to <= arguments@.len(),
    ensures
        texts(r@) == texts(arguments@).subrange(from as int, to as int),
{
    broadcast use lemma_texts_push;

    let mut r: Vec<String> = Vec::new();
    let ghost all = texts(arguments@);
    let mut i: usize = from;
    assert(texts(r@) =~= all.subrange(from as int, from as int));
    while i < to
        invariant
            from <= i <= to <= arguments@.len(),
            all == texts(arguments@),
            texts(r@) == all.subrange(from as int, i as int),
        decreases to - i,
    {
        r.push(arguments[i].clone());
        assert(all.subrange(from as int, i as int + 1) =~= all.subrange(from as int, i as int).push(
            all[i as int],
        ));
        i = i + 1;
    }
    r
}

/// Decides what an invocation of the shim asks for.
pub fn shim_action(arguments: &Vec<String>) -> (r: ShimAction)
    ensures
        r@ == action_for(texts(arguments@)),
{
    let ghost all = texts(arguments@);
    assert(all.len() == arguments@.len());
    if are(arguments, "__cxs-agent", None) {
        return ShimAction::Agent(false);
    }
    if are(arguments, "__cxs-agent", Some("--replace")) {
        return ShimAction::Agent(true);
    }
    if are(arguments, "--version", None) || are(arguments, "-V", None) {
        return ShimAction::Version;
    }
    let mut n: usize = 0;
    while n < arguments.len() && !same_text(&arguments[n], "app-server")
        invariant
            n <= arguments.len(),
            all == texts(arguments@),
            all.len() == arguments@.len(),
            forall|i: int| 0 <= i < n ==> #[trigger] all[i] != "app-server"@,
        decreases arguments.len() - n,
    {
        n = n + 1;
    }
    proof {
        if n < all.len() {
            assert(all[n as int] == arguments@[n as int]@);
        }
        lemma_app_server_at(all, n as nat);
    }
    if n == arguments.len() {
        return ShimAction::Delegate;
    }
    let after = some_of(arguments, n + 1, arguments.len());
    assert(texts(after@) =~= all.skip(n as int + 1));
    assert(texts(after@).len() == after@.len());
    if after.len() > 0 {
        assert(texts(after@)[0] == after@[0]@);
        if same_text(&after[0], "proxy") {
            return ShimAction::Proxy;
        }
    }
    let mut options = some_of(arguments, 0, n);
    assert(texts(options@) =~= all.take(n as int));
    let ghost head = options@;
    let ghost tail = after@;
    let listens = requests_unix_listener(&after);
    let mut rest = after;
    options.append(&mut rest);
    assert(texts(options@) =~= texts(head) + texts(tail));
    if listens {
        ShimAction::Serve(options)
    } else {
        ShimAction::Relay(options)
    }
}

/// Which socket the desktop client connects to.
#[derive(Debug)]
pub enum ControlSocket {
    /// The one that the environment names.
    Environment,
    /// The one that is configured.
    Configured(String),
    /// One beside that of the agent.
    BesideAgent,
}

/// Chooses the socket that the desktop client connects to: what the
/// environment names comes before what is configured.
pub fn choose_control_socket(environment_set: bool, configured: &Option<String>) -> (r:
    ControlSocket)
    ensures
        match (environment_set, *configured) {
            (true, _) => r is Environment,
            (false, Some(path)) => r matches ControlSocket::Configured(found) && found@ == path@,
            (false, None) => r is BesideAgent,
        },
{
    if environment_set {
        return ControlSocket::Environment;
    }
    match configured {
        Some(path) => ControlSocket::Configured(path.clone()),
        None => ControlSocket::BesideAgent,
    }
}

/// A command that the shim hands on.
#[derive(Debug)]
pub struct Delegation {
    pub program: String,
    pub arguments: Vec<String>,
}

/// Hands an invocation that is not for the shim to the managed Codex, with the
/// arguments as they are.
pub fn delegate_or_reject(exec_server: &str, arguments: &Vec<String>) -> (r: Delegation)
    ensures
        r.program@ == exec_server@,
        texts(r.arguments@) == texts(arguments@),
{
    Delegation { program: exec_server.to_owned(), arguments: copy_texts(arguments) }
}

/// What a command that was handed on came to: `run` tells whether it could be
/// run, whether it succeeded, and how it exited.
pub fn delegation_outcome(program: &str, run: &Result<(bool, String), Failure>) -> (r: Result<
    (),
    Failure,
>)
    ensures
        match *run {
            Ok((true, _)) => r is Ok,
            Ok((false, status)) => refused(
                r,
                "delegated Codex command exited with "@ + status@,
            ),
            Err(e) => refused(r, "could not delegate to "@ + program@ + ": "@ + e@),
        },
{
    match run {
        Ok((succeeded, status)) => if *succeeded {
            Ok(())
        } else {
            Err(refuse_about("delegated Codex command exited with ", status))
        },
        Err(e) => {
            let mut message = "could not delegate to ".to_owned();
            message.push_str(program);
            message.push_str(": ");
            message.push_str(&e.message);
            Err(Failure { message })
        },
    }
}

// ---------------------------------------------------------------------------
// Introductions
// ---------------------------------------------------------------------------

/// How the shim introduces itself to the bridge; `token` is what the token
/// file holds.
pub fn shim_hello(
    profile: &str,
    token: &str,
    arguments: Vec<String>,
    transport: ShimTransport,
) -> (r: ShimHandshake)
    ensures
        r.magic@ == SHIM_MAGIC@,
        r.protocol_version == SHIM_PROTOCOL_VERSION,
        r.profile@ == profile@,
        r.token@ == trim(token@),
        r.app_server_args == arguments,
        r.transport == transport,
{
    ShimHandshake {
        magic: SHIM_MAGIC.to_owned(),
        protocol_version: SHIM_PROTOCOL_VERSION,
        profile: profile.to_owned(),
        token: trimmed(token),
        app_server_args: arguments,
        transport,
    }
}

/// How the agent introduces itself to the bridge.
pub fn agent_hello(profile: &str, token: &str) -> (r: AgentHandshake)
    ensures
        r.magic@ == AGENT_MAGIC@,
        r.protocol_version == AGENT_PROTOCOL_VERSION,
        r.profile@ == profile@,
        r.token@ == trim(token@),
{
    AgentHandshake {
        magic: AGENT_MAGIC.to_owned(),
        protocol_version: AGENT_PROTOCOL_VERSION,
        profile: profile.to_owned(),
        token: trimmed(token),
    }
}

// ---------------------------------------------------------------------------
// Clients of the control socket
// ---------------------------------------------------------------------------

/// How many clients the control socket has.
#[derive(Debug)]
pub struct ControlClients {
    pub active: usize,
}

impl ControlClients {
    pub fn new() -> (r: ControlClients)
        ensures
            r.active == 0,
    {
        ControlClients { active: 0 }
    }

    /// A client came.
    pub fn connected(&mut self)
        ensures
            final(self).active == if old(self).active == usize::MAX {
                usize::MAX
            } else {
                (old(self).active + 1) as usize
            },
    {
        if self.active < usize::MAX {
            self.active = self.active + 1;
        }
    }

    /// A client went.
    pub fn disconnected(&mut self)
        ensures
            final(self).active == if old(self).active == 0 {
                0
            } else {
                (old(self).active - 1) as usize
            },
    {
        if self.active > 0 {
            self.active = self.active - 1;
        }
    }

    /// Whether nobody is there, so that the socket may be given up.
    pub fn is_idle(&self) -> (r: bool)
        ensures
            r == (self.active == 0),
    {
        self.active == 0
    }
}

/// How a connection can break.
#[derive(Debug, Clone, Copy, PartialEq, Eq, Structural)]
pub enum IoFailure {
    BrokenPipe,
    ConnectionAborted,
    ConnectionReset,
    NotConnected,
    UnexpectedEof,
    NotFound,
    Other,
}

/// Whether a connection broke because the other side went away.
pub fn normal_disconnect(failure: IoFailure) -> (r: bool)
    ensures
        r == (failure == IoFailure::BrokenPipe || failure == IoFailure::ConnectionAborted
            || failure == IoFailure::ConnectionReset || failure == IoFailure::NotConnected
            || failure == IoFailure::UnexpectedEof),
{
    match failure {
        IoFailure::BrokenPipe => true,
        IoFailure::ConnectionAborted => true,
        IoFailure::ConnectionReset => true,
        IoFailure::NotConnected => true,
        IoFailure::UnexpectedEof => true,
        IoFailure::NotFound => false,
        IoFailure::Other => false,
    }
}

/// What is not there need not be removed.
pub fn ignore_not_found(failure: IoFailure) -> (r: Result<(), IoFailure>)
    ensures
        r == if failure == IoFailure::NotFound {
            Ok::<(), IoFailure>(())
        } else {
            Err::<(), IoFailure>(failure)
        },
{
    if failure == IoFailure::NotFound {
        Ok(())
    } else {
        Err(failure)
    }
}

// ---------------------------------------------------------------------------
// Channels of the agent
// ---------------------------------------------------------------------------

/// What the agent connects a channel to.
#[derive(Debug, Clone, Copy, PartialEq, Eq, Structural)]
pub enum ChannelTarget {
    ExecServer,
    HostAppServer,
}

pub fn incoming_channel(kind: ChannelKind) -> (r: Result<ChannelTarget, Failure>)
    ensures
        match kind {
            ChannelKind::Exec => r == Ok::<ChannelTarget, Failure>(ChannelTarget::ExecServer),
            ChannelKind::Host => r == Ok::<ChannelTarget, Failure>(ChannelTarget::HostAppServer),
            ChannelKind::App => refused(r, "Mac opened an unsupported App channel"@),
        },
{
    match kind {
        ChannelKind::Exec => Ok(ChannelTarget::ExecServer),
        ChannelKind::Host => Ok(ChannelTarget::HostAppServer),
        ChannelKind::App => Err(refuse("Mac opened an unsupported App channel")),
    }
}

/// The arguments of the Exec Server: those configured, and where to listen.
pub fn exec_server_command(configured: &Vec<String>, port: u16) -> (r: Vec<String>)
    ensures
        texts(r@) == texts(configured@) + seq![
            "--listen"@,
            "ws://127.0.0.1:"@ + decimal(port as nat),
        ],
{
    let mut url = "ws://127.0.0.1:".to_owned();
    url.push_str(&decimal_text(port as u64));
    let mut arguments = copy_texts(configured);
    let ghost head = texts(arguments@);
    let ghost address = url@;
    arguments.push("--listen".to_owned());
    arguments.push(url);
    assert(texts(arguments@) =~= head + seq!["--listen"@, address]);
    arguments
}

pub open spec fn host_app_server_options() -> Seq<Seq<char>> {
    seq![
        "app-server"@,
        "--stdio"@,
        "--disable"@,
        "plugins"@,
        "--disable"@,
        "remote_plugin"@,
        "--disable"@,
        "plugin_sharing"@,
        "--disable"@,
        "apps"@,
    ]
}

/// The arguments of the host's App Server.
pub fn host_app_server_command() -> (r: Vec<&'static str>)
    ensures
        slices(r@) == host_app_server_options(),
{
    let r: Vec<&'static str> = vec![
        "app-server",
        "--stdio",
        "--disable",
        "plugins",
        "--disable",
        "remote_plugin",
        "--disable",
        "plugin_sharing",
        "--disable",
        "apps",
    ];
    assert(slices(r@) =~= host_app_server_options());
    r
}

// ---------------------------------------------------------------------------
// The process of another agent
// ---------------------------------------------------------------------------

/// The number that `s` writes in decimal, with or without a sign, where it fits
/// 32 bits.
pub open spec fn signed_in(s: Seq<char>) -> Option<int> {
    if s.len() > 0 && s[0] == '-' {
        let digits = s.skip(1);
        if all_digits(digits) && digits_value(digits) <= 0x8000_0000 {
            Some(-(digits_value(digits) as int))
        } else {
            None
        }
    } else {
        match number_in(s, 0x7fff_ffff) {
            Some(n) => Some(n as int),
            None => None,
        }
    }
}

pub fn parse_signed(s: &str) -> (r: Option<i64>)
    ensures
        match r {
            Some(n) => signed_in(s@) == Some(n as int),
            None => signed_in(s@) is None,
        },
{
    let chars = chars_of(s);
    if chars.len() > 0 && chars[0] == '-' {
        let rest = string_of(&chars, 1, chars.len());
        assert(rest@ =~= s@.skip(1));
        if chars.len() > 1 && chars[1] == '+' {
            assert(!is_ascii_digit(rest@[0]));
            return None;
        }
        match parse_number(&rest, 0x8000_0000) {
            Some(n) => Some(-(n as i64)),
            None => None,
        }
    } else {
        match parse_number(s, 0x7fff_ffff) {
            Some(n) => Some(n as i64),
            None => None,
        }
    }
}

/// The process of the agent that its pid file names.
pub open spec fn agent_pid_in(contents: Seq<char>, path: Seq<char>) -> Result<int, Seq<char>> {
    match signed_in(trim(contents)) {
        None => Err("invalid active agent PID in "@ + path),
        Some(pid) => if pid <= 1 {
            Err("refusing to replace invalid cxs-agent PID "@ + signed_decimal(pid))
        } else {
            Ok(pid)
        },
    }
}

pub open spec fn signed_decimal(n: int) -> Seq<char> {
    if n < 0 {
        "-"@ + decimal((-n) as nat)
    } else {
        decimal(n as nat)
    }
}

pub fn active_agent_pid(contents: &str, path: &str) -> (r: Result<i32, Failure>)
    ensures
        match r {
            Ok(pid) => agent_pid_in(contents@, path@) == Ok::<int, Seq<char>>(pid as int),
            Err(e) => agent_pid_in(contents@, path@) == Err::<int, Seq<char>>(e@),
        },
{
    match parse_signed(&trimmed(contents)) {
        None => Err(refuse_about("invalid active agent PID in ", path)),
        Some(pid) => if pid <= 1 {
            let mut number = String::new();
            if pid < 0 {
                let mut negative = "-".to_owned();
                negative.push_str(&decimal_text((-pid) as u64));
                number = negative;
            } else {
                number = decimal_text(pid as u64);
            }
            Err(refuse_about("refusing to replace invalid cxs-agent PID ", &number))
        } else {
            Ok(pid as i32)
        },
    }
}

/// Whether `word` stands in `bytes` between zeros or the ends.
pub open spec fn has_argument(bytes: Seq<u8>, word: Seq<u8>) -> bool {
    exists|i: int|
        0 <= i && i + word.len() <= bytes.len() && #[trigger] bytes.subrange(i, i + word.len())
            == word && (i == 0 || bytes[i - 1] == 0) && (i + word.len() == bytes.len() || bytes[i
            + word.len()] == 0)
}

/// Whether a command line, as Linux shows it, is that of an agent.
pub fn is_agent_command_line(command_line: &[u8]) -> (r: bool)
    ensures
        r == has_argument(command_line@, encode_utf8("__cxs-agent"@)),
{
    let word = "__cxs-agent".as_bytes();
    let length: usize = command_line.len();
    let size: usize = word.len();
    if size > length {
        return false;
    }
    let mut i: usize = 0;
    while i <= length - size
        invariant
            length == command_line@.len(),
            size == word@.len(),
            size <= length,
            i <= length - size + 1,
            word@ == encode_utf8("__cxs-agent"@),
            forall|k: int|
                0 <= k < i ==> !(#[trigger] command_line@.subrange(k, k + size) == word@ && (k == 0
                    || command_line@[k - 1] == 0) && (k + size == length || command_line@[k + size]
                    == 0)),
        decreases length - i,
    {
        let mut j: usize = 0;
        while j < size && command_line[i + j] == word[j]
            invariant
                j <= size,
                length == command_line@.len(),
                size == word@.len(),
                i + size <= length,
                forall|k: int| 0 <= k < j ==> word@[k] == #[trigger] command_line@[i + k],
            decreases size - j,
        {
            j = j + 1;
        }
        let ghost window = command_line@.subrange(i as int, i + size);
        if j == size {
            assert(window =~= word@) by {
                assert forall|k: int| 0 <= k < size implies window[k] == word@[k] by {
                    assert(word@[k] == command_line@[i + k]);
                }
            }
            if (i == 0 || command_line[i - 1] == 0) && (i + size == length || command_line[i + size]
                == 0) {
                return true;
            }
        } else {
            assert(window[j as int] != word@[j as int]);
        }
        if i == length - size {
            assert forall|k: int| 0 <= k && k + size <= length implies !(
            #[trigger] command_line@.subrange(k, k + size) == word@ && (k == 0 || command_line@[k
                - 1] == 0) && (k + size == length || command_line@[k + size] == 0)) by {}
            return false;
        }
        i = i + 1;
    }
    false
}

/// Refuses to stop a process that is no agent.
pub fn validate_agent_process(pid: u32, command_line: &[u8]) -> (r: Result<(), Failure>)
    ensures
        if has_argument(command_line@, encode_utf8("__cxs-agent"@)) {
            r is Ok
        } else {
            refused(
                r,
                "refusing to replace PID "@ + decimal(pid as nat)
                    + " because it is not cxs-agent"@,
            )
        },
{
    if is_agent_command_line(command_line) {
        Ok(())
    } else {
        Err(
            refuse_naming(
                "refusing to replace PID ",
                &decimal_text(pid as u64),
                " because it is not cxs-agent",
            ),
        )
    }
}

/// Refuses to stop a process that is no agent, by the arguments that `ps`
/// prints for it; `found` tells whether `ps` knows the process.
pub fn validate_agent_arguments(pid: u32, found: bool, arguments: &str) -> (r: Result<(), Failure>)
    ensures
        if found && words(arguments@, true).contains("__cxs-agent"@) {
            r is Ok
        } else {
            refused(
                r,
                "refusing to replace PID "@ + decimal(pid as nat)
                    + " because it is not cxs-agent"@,
            )
        },
{
    if found && has_text(&split_words(arguments, true), "__cxs-agent") {
        Ok(())
    } else {
        Err(
            refuse_naming(
                "refusing to replace PID ",
                &decimal_text(pid as u64),
                " because it is not cxs-agent",
            ),
        )
    }
}

/// Whether a process is another agent of this user.
pub fn is_other_agent(
    pid: i32,
    current_pid: i32,
    owner: u32,
    current_user: u32,
    command_line: &[u8],
) -> (r: bool)
    ensures
        r == (pid > 1 && pid != current_pid && owner == current_user && has_argument(
            command_line@,
            encode_utf8("__cxs-agent"@),
        )),
{
    pid > 1 && pid != current_pid && owner == current_user && is_agent_command_line(command_line)
}

/// Whether the state that `ps` prints for a process is that of one that has
/// ended but is still listed.
pub fn state_has_ended(state: &str) -> (r: bool)
    ensures
        r == "Z"@.is_prefix_of(trim(state@)),
{
    starts_with(&trimmed(state), "Z")
}

/// Whether the state behind the last `) ` of a process's status line is that of
/// a process that has ended but is still listed.
pub open spec fn is_zombie(stat: Seq<char>) -> bool {
    exists|i: int|
        0 <= i && i + 2 < stat.len() && #[trigger] stat[i] == ')' && stat[i + 1] == ' ' && stat[i
            + 2] == 'Z' && no_mark_after(stat, i)
}

pub open spec fn no_mark_after(stat: Seq<char>, i: int) -> bool {
    forall|j: int| i < j && j + 1 < stat.len() ==> !(#[trigger] stat[j] == ')' && stat[j + 1] == ' ')
}

pub fn has_ended(stat: &str) -> (r: bool)
    ensures
        r == is_zombie(stat@),
{
    let chars = chars_of(stat);
    if chars.len() < 2 {
        return false;
    }
    let mut i: usize = chars.len() - 1;
    while i > 0
        invariant
            i < chars.len(),
            chars@ == stat@,
            no_mark_after(stat@, i - 1),
        decreases i,
    {
        i = i - 1;
        if chars[i] == ')' && chars[i + 1] == ' ' {
            let r = chars.len() - i > 2 && chars[i + 2] == 'Z';
            proof {
                if r {
                    assert(stat@[i as int] == ')');
                    assert(no_mark_after(stat@, i as int));
                } else if is_zombie(stat@) {
                    let k = choose|k: int|
                        0 <= k && k + 2 < stat@.len() && #[trigger] stat@[k] == ')' && stat@[k + 1]
                            == ' ' && stat@[k + 2] == 'Z' && no_mark_after(stat@, k);
                    assert(stat@[i as int] == ')');
                    assert(k >= i);
                    assert(k == i);
                }
            }
            return r;
        }
        assert(no_mark_after(stat@, i - 1));
    }
    proof {
        if is_zombie(stat@) {
            let k = choose|k: int|
                0 <= k && k + 2 < stat@.len() && #[trigger] stat@[k] == ')' && stat@[k + 1] == ' '
                    && stat@[k + 2] == 'Z' && no_mark_after(stat@, k);
            assert(stat@[k] == ')');
        }
    }
    false
}

/// The inode of the socket at `path` in the first of these lines that has it.
pub open spec fn inode_in(all: Seq<Seq<char>>, path: Seq<char>) -> Option<Seq<char>>
    decreases all.len(),
{
    if all.len() == 0 {
        None
    } else {
        let fields = words(all[0], false);
        if fields.len() >= 8 && fields[7] == path {
            Some(fields[6])
        } else {
            inode_in(all.skip(1), path)
        }
    }
}

/// Looks a socket up in the table of sockets that Linux shows, behind its
/// heading.
pub fn find_unix_socket_inode(table: &str, path: &str) -> (r: Option<String>)
    ensures
        optional_text(r) == inode_in(
            if lines(table@).len() > 0 {
                lines(table@).skip(1)
            } else {
                Seq::empty()
            },
            path@,
        ),
{
    let found = split_lines(table);
    let ghost all = lines(table@);
    assert(all.len() == found@.len());
    if found.len() == 0 {
        return None;
    }
    let mut i: usize = 1;
    while i < found.len()
        invariant
            1 <= i <= found.len(),
            all == texts(found@),
            all == lines(table@),
            all.len() == found@.len(),
            inode_in(all.skip(i as int), path@) == inode_in(all.skip(1), path@),
        decreases found.len() - i,
    {
        let fields = split_words(&found[i], false);
        let ghost rest = all.skip(i as int);
        assert(rest[0] == found@[i as int]@);
        assert(rest.skip(1) =~= all.skip(i as int + 1));
        assert(texts(fields@).len() == fields@.len());
        if fields.len() >= 8 {
            assert(texts(fields@)[6] == fields@[6]@ && texts(fields@)[7] == fields@[7]@);
            if same_text(&fields[7], path) {
                return Some(fields[6].clone());
            }
        }
        i = i + 1;
    }
    assert(all.skip(i as int) =~= Seq::empty());
    None
}

} // verus!
