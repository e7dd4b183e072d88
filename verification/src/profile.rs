//! Profiles: what is known of one remote host, and the two handshakes that
//! name a profile.

use vstd::prelude::*;
use vstd::string::*;
use vstd::utf8::*;
use crate::digest::{all_hex, hex_of, hex_text, is_digest, is_sha256};
use crate::failure::{Failure, outcome, refuse, refuse_about, refuse_naming, refused};
use crate::text::{
    ascii_alphanumeric, blank, chars_of, decimal, decimal_text, is_ascii_alphanumeric, is_blank,
    optional_text, same_text, trim, trimmed,
};

verus! {

pub const PROFILE_SCHEMA_VERSION: u32 = 1;

pub const SHIM_PROTOCOL_VERSION: u32 = 1;

pub const SHIM_MAGIC: &'static str = "CXS1";

pub const AGENT_PROTOCOL_VERSION: u32 = 1;

pub const AGENT_MAGIC: &'static str = "CXS-AGENT1";

#[derive(Debug, Clone, Copy, PartialEq, Eq, Structural)]
pub enum ProfileStatus {
    Prepared,
    Installed,
    Ready,
    Broken,
}

/// One remote host as the local side knows it. Paths are held as text.
#[derive(Debug, Clone, PartialEq, Eq)]
pub struct Profile {
    pub schema_version: u32,
    pub name: String,
    pub source_host: String,
    pub app_alias: String,
    pub status: ProfileStatus,
    pub codex_version: String,
    pub local_socket: String,
    pub remote_socket: String,
    pub environment_id: String,
    pub local_exec_port: u16,
    pub remote_exec_port: u16,
    pub token_file: String,
    pub codex_home: String,
    pub installed_target: Option<String>,
    pub remote_home: Option<String>,
    pub remote_release: Option<String>,
    pub package_sha256: Option<String>,
    pub shim_sha256: Option<String>,
    pub executor_source: Option<String>,
    pub executor_path: Option<String>,
}

/// How the client behind a shim speaks to its App Server.
#[derive(Debug, Clone, Copy, PartialEq, Eq, Structural)]
pub enum ShimTransport {
    Jsonl,
    WebSocket,
}

impl Default for ShimTransport {
    fn default() -> (r: ShimTransport)
        ensures
            r == ShimTransport::Jsonl,
    {
        ShimTransport::Jsonl
    }
}

/// What a shim says when it connects to the bridge.
#[derive(Debug, Clone, PartialEq, Eq)]
pub struct ShimHandshake {
    pub magic: String,
    pub protocol_version: u32,
    pub profile: String,
    pub token: String,
    pub app_server_args: Vec<String>,
    pub transport: ShimTransport,
}

/// What the remote agent says when the bridge starts it.
#[derive(Debug, Clone, PartialEq, Eq)]
pub struct AgentHandshake {
    pub magic: String,
    pub protocol_version: u32,
    pub profile: String,
    pub token: String,
}

/// A profile as a mathematical object.
pub struct ProfileView {
    pub schema_version: u32,
    pub name: Seq<char>,
    pub source_host: Seq<char>,
    pub app_alias: Seq<char>,
    pub status: ProfileStatus,
    pub codex_version: Seq<char>,
    pub local_socket: Seq<char>,
    pub remote_socket: Seq<char>,
    pub environment_id: Seq<char>,
    pub local_exec_port: u16,
    pub remote_exec_port: u16,
    pub token_file: Seq<char>,
    pub codex_home: Seq<char>,
    pub installed_target: Option<Seq<char>>,
    pub remote_home: Option<Seq<char>>,
    pub remote_release: Option<Seq<char>>,
    pub package_sha256: Option<Seq<char>>,
    pub shim_sha256: Option<Seq<char>>,
    pub executor_source: Option<Seq<char>>,
    pub executor_path: Option<Seq<char>>,
}

impl View for Profile {
    type V = ProfileView;

    open spec fn view(&self) -> ProfileView {
        ProfileView {
            schema_version: self.schema_version,
            name: self.name@,
            source_host: self.source_host@,
            app_alias: self.app_alias@,
            status: self.status,
            codex_version: self.codex_version@,
            local_socket: self.local_socket@,
            remote_socket: self.remote_socket@,
            environment_id: self.environment_id@,
            local_exec_port: self.local_exec_port,
            remote_exec_port: self.remote_exec_port,
            token_file: self.token_file@,
            codex_home: self.codex_home@,
            installed_target: optional_text(self.installed_target),
            remote_home: optional_text(self.remote_home),
            remote_release: optional_text(self.remote_release),
            package_sha256: optional_text(self.package_sha256),
            shim_sha256: optional_text(self.shim_sha256),
            executor_source: optional_text(self.executor_source),
            executor_path: optional_text(self.executor_path),
        }
    }
}

/// A text of its own that equals this one.
pub fn copy_text(value: &Option<String>) -> (r: Option<String>)
    ensures
        optional_text(r) == optional_text(*value),
{
    match value {
        Some(s) => Some(s.clone()),
        None => None,
    }
}

impl Profile {
    /// A profile of its own that equals this one.
    pub fn copy(&self) -> (r: Profile)
        ensures
            r@ == self@,
    {
        Profile {
            schema_version: self.schema_version,
            name: self.name.clone(),
            source_host: self.source_host.clone(),
            app_alias: self.app_alias.clone(),
            status: self.status,
            codex_version: self.codex_version.clone(),
            local_socket: self.local_socket.clone(),
            remote_socket: self.remote_socket.clone(),
            environment_id: self.environment_id.clone(),
            local_exec_port: self.local_exec_port,
            remote_exec_port: self.remote_exec_port,
            token_file: self.token_file.clone(),
            codex_home: self.codex_home.clone(),
            installed_target: copy_text(&self.installed_target),
            remote_home: copy_text(&self.remote_home),
            remote_release: copy_text(&self.remote_release),
            package_sha256: copy_text(&self.package_sha256),
            shim_sha256: copy_text(&self.shim_sha256),
            executor_source: copy_text(&self.executor_source),
            executor_path: copy_text(&self.executor_path),
        }
    }
}

impl ProfileStatus {
    pub open spec fn name(&self) -> Seq<char> {
        match self {
            ProfileStatus::Prepared => "prepared"@,
            ProfileStatus::Installed => "installed"@,
            ProfileStatus::Ready => "ready"@,
            ProfileStatus::Broken => "broken"@,
        }
    }

    /// The status as the user reads it.
    pub fn label(&self) -> (r: &'static str)
        ensures
            r@ == self.name(),
    {
        match self {
            ProfileStatus::Prepared => "prepared",
            ProfileStatus::Installed => "installed",
            ProfileStatus::Ready => "ready",
            ProfileStatus::Broken => "broken",
        }
    }
}

// ---------------------------------------------------------------------------
// Names
// ---------------------------------------------------------------------------

/// Why a text is no name of a profile.
#[derive(Debug, Clone, Copy, PartialEq, Eq, Structural)]
pub enum NameError {
    InvalidLength,
    InvalidStart,
    InvalidCharacter,
}

impl NameError {
    pub open spec fn text(&self) -> Seq<char> {
        match self {
            NameError::InvalidLength => "profile name must be 1-48 characters"@,
            NameError::InvalidStart => "profile name must start with an ASCII letter or digit"@,
            NameError::InvalidCharacter =>
                "profile name may contain only ASCII letters, digits, '.', '_' and '-'"@,
        }
    }

    pub fn message(&self) -> (r: &'static str)
        ensures
            r@ == self.text(),
    {
        match self {
            NameError::InvalidLength => "profile name must be 1-48 characters",
            NameError::InvalidStart => "profile name must start with an ASCII letter or digit",
            NameError::InvalidCharacter =>
                "profile name may contain only ASCII letters, digits, '.', '_' and '-'",
        }
    }
}

pub open spec fn is_name_char(c: char) -> bool {
    is_ascii_alphanumeric(c) || c == '.' || c == '_' || c == '-'
}

/// Whether `name` can be the name of a profile, and if not, why.
pub open spec fn name_error(name: Seq<char>) -> Option<NameError> {
    if name.len() == 0 || encode_utf8(name).len() > 48 {
        Some(NameError::InvalidLength)
    } else if !is_ascii_alphanumeric(name[0]) {
        Some(NameError::InvalidStart)
    } else if exists|i: int| 0 < i < name.len() && !is_name_char(#[trigger] name[i]) {
        Some(NameError::InvalidCharacter)
    } else {
        None
    }
}

pub fn validate_profile_name(name: &str) -> (r: Result<(), NameError>)
    ensures
        r == match name_error(name@) {
            Some(e) => Err::<(), NameError>(e),
            None => Ok::<(), NameError>(()),
        },
{
    let chars = chars_of(name);
    if chars.len() == 0 || name.as_bytes().len() > 48 {
        return Err(NameError::InvalidLength);
    }
    if !ascii_alphanumeric(chars[0]) {
        return Err(NameError::InvalidStart);
    }
    let mut i: usize = 1;
    while i < chars.len()
        invariant
            1 <= i <= chars.len(),
            chars@ == name@,
            encode_utf8(name@).len() <= 48,
            is_ascii_alphanumeric(name@[0]),
            forall|j: int| 0 < j < i ==> is_name_char(#[trigger] name@[j]),
        decreases chars.len() - i,
    {
        let c: char = chars[i];
        if !(ascii_alphanumeric(c) || c == '.' || c == '_' || c == '-') {
            assert(!is_name_char(name@[i as int]));
            return Err(NameError::InvalidCharacter);
        }
        i = i + 1;
    }
    Ok(())
}

/// Refuses what is no name of a profile.
pub fn require_profile_name(name: &str) -> (r: Result<(), Failure>)
    ensures
        match name_error(name@) {
            Some(e) => refused(r, e.text()),
            None => r is Ok,
        },
{
    match validate_profile_name(name) {
        Ok(_) => Ok(()),
        Err(e) => Err(refuse(e.message())),
    }
}

/// Whether a text can stand for a host on the command line of `ssh`.
pub open spec fn host_refusal(host: Seq<char>) -> Option<Seq<char>> {
    if host.len() == 0 || encode_utf8(host).len() > 255 {
        Some("SSH host alias must be 1-255 characters"@)
    } else if host[0] == '-' || exists|i: int|
        0 <= i < host.len() && (is_blank(#[trigger] host[i], true) || host[i] == '\0') {
        Some("SSH host alias contains unsafe characters"@)
    } else {
        None
    }
}

pub fn validate_host_alias(host: &str) -> (r: Result<(), Failure>)
    ensures
        match host_refusal(host@) {
            Some(message) => refused(r, message),
            None => r is Ok,
        },
{
    let chars = chars_of(host);
    if chars.len() == 0 || host.as_bytes().len() > 255 {
        return Err(refuse("SSH host alias must be 1-255 characters"));
    }
    if chars[0] == '-' {
        return Err(refuse("SSH host alias contains unsafe characters"));
    }
    let mut i: usize = 0;
    while i < chars.len()
        invariant
            i <= chars.len(),
            chars@ == host@,
            host@.len() > 0,
            encode_utf8(host@).len() <= 255,
            host@[0] != '-',
            forall|j: int|
                0 <= j < i ==> !(is_blank(#[trigger] host@[j], true) || host@[j] == '\0'),
        decreases chars.len() - i,
    {
        if blank(chars[i], true) || chars[i] == '\0' {
            assert(is_blank(host@[i as int], true) || host@[i as int] == '\0');
            return Err(refuse("SSH host alias contains unsafe characters"));
        }
        i = i + 1;
    }
    Ok(())
}

/// A profile's name is one path component: it holds no slash, and is neither
/// the current directory nor the one above.
pub proof fn law_names_are_path_components(name: Seq<char>)
    requires
        name_error(name) is None,
    ensures
        !name.contains('/'),
        name != seq!['.'],
        name != seq!['.', '.'],
        name[0] != '-',
{
    if name.contains('/') {
        let i = choose|i: int| 0 <= i < name.len() && name[i] == '/';
        assert(!is_name_char(name[i]));
    }
    assert(seq!['.'][0] == '.');
    assert(seq!['.', '.'][0] == '.');
}

// ---------------------------------------------------------------------------
// Paths
// ---------------------------------------------------------------------------

/// `part` below the directory `base`; an absolute `part` stands for itself.
pub open spec fn joined(base: Seq<char>, part: Seq<char>) -> Seq<char> {
    if part.len() > 0 && part[0] == '/' {
        part
    } else if base.len() == 0 || base.last() == '/' {
        base + part
    } else {
        base + "/"@ + part
    }
}

pub fn join(base: &str, part: &str) -> (r: String)
    ensures
        r@ == joined(base@, part@),
{
    let head = chars_of(base);
    let tail = chars_of(part);
    if tail.len() > 0 && tail[0] == '/' {
        return part.to_owned();
    }
    let mut path = base.to_owned();
    if head.len() > 0 && head[head.len() - 1] != '/' {
        path.push_str("/");
    }
    path.push_str(part);
    path
}

/// Where the local side keeps its files.
#[derive(Debug, Clone)]
pub struct AppPaths {
    pub state_root: String,
    pub ssh_config: String,
    pub managed_ssh_config: String,
    pub default_codex_home: String,
}

pub open spec fn profile_directory(state_root: Seq<char>, name: Seq<char>) -> Seq<char> {
    joined(joined(state_root, "profiles"@), name)
}

impl AppPaths {
    /// The paths of a user with this home directory.
    pub fn under(home: &str, state_home: Option<&str>) -> (r: AppPaths)
        ensures
            r.state_root@ == joined(
                match state_home {
                    Some(state_home) => state_home@,
                    None => joined(home@, ".local/state"@),
                },
                "codex-shuttle"@,
            ),
            r.ssh_config@ == joined(joined(home@, ".ssh"@), "config"@),
            r.managed_ssh_config@ == joined(joined(home@, ".ssh"@), "codex-shuttle.conf"@),
            r.default_codex_home@ == joined(home@, ".codex"@),
    {
        let state = match state_home {
            Some(state_home) => state_home.to_owned(),
            None => join(home, ".local/state"),
        };
        let ssh = join(home, ".ssh");
        AppPaths {
            state_root: join(&state, "codex-shuttle"),
            ssh_config: join(&ssh, "config"),
            managed_ssh_config: join(&ssh, "codex-shuttle.conf"),
            default_codex_home: join(home, ".codex"),
        }
    }

    pub fn profile_dir(&self, name: &str) -> (r: String)
        ensures
            r@ == profile_directory(self.state_root@, name@),
    {
        join(&join(&self.state_root, "profiles"), name)
    }

    pub fn bridge_pid(&self, name: &str) -> (r: String)
        ensures
            r@ == joined(profile_directory(self.state_root@, name@), "bridge.pid"@),
    {
        join(&self.profile_dir(name), "bridge.pid")
    }

    pub fn bridge_log(&self, name: &str) -> (r: String)
        ensures
            r@ == joined(profile_directory(self.state_root@, name@), "bridge.log"@),
    {
        join(&self.profile_dir(name), "bridge.log")
    }
}

/// The longest path that a local socket may have, in bytes.
pub const SOCKET_PATH_LIMIT: usize = 100;

pub open spec fn socket_refusal(path: Seq<char>) -> Option<Seq<char>> {
    let length = encode_utf8(path).len();
    if length > SOCKET_PATH_LIMIT {
        Some(
            "Unix socket path is too long ("@ + decimal(length) + " bytes): "@ + path
                + ". Set XDG_STATE_HOME to a shorter path"@,
        )
    } else {
        None
    }
}

pub fn ensure_unix_socket_path_is_short(path: &str) -> (r: Result<(), Failure>)
    ensures
        match socket_refusal(path@) {
            Some(message) => refused(r, message),
            None => r is Ok,
        },
{
    let length: usize = path.as_bytes().len();
    if length > SOCKET_PATH_LIMIT {
        let mut message = "Unix socket path is too long (".to_owned();
        message.push_str(&decimal_text(length as u64));
        message.push_str(" bytes): ");
        message.push_str(path);
        message.push_str(". Set XDG_STATE_HOME to a shorter path");
        return Err(Failure { message });
    }
    Ok(())
}

// ---------------------------------------------------------------------------
// The store
// ---------------------------------------------------------------------------

/// How an operation holds a profile.
#[derive(Debug, Clone, Copy, PartialEq, Eq, Structural)]
pub enum OperationLockMode {
    Shared,
    Exclusive,
}

/// `getrandom::fill` on `count` bytes: as many bytes as asked for, or the error
/// as text. Nothing is said of the bytes: they are random. Left out are counts
/// that no allocation can hold on every machine.
#[verifier::external_body]
fn random_bytes(count: usize) -> (r: Result<Vec<u8>, String>)
    requires
        count <= 0x3fff_ffff,
    ensures
        r matches Ok(bytes) ==> bytes@.len() == count,
{
    let mut bytes = vec![0u8; count];
    match getrandom::fill(&mut bytes) {
        Ok(()) => Ok(bytes),
        Err(error) => Err(error.to_string()),
    }
}

/// Whether a refusal says that the machine gave no random bytes, and then why.
pub open spec fn no_random_bytes(message: Seq<char>) -> bool {
    "could not obtain secure random bytes: "@.is_prefix_of(message)
}

/// Whether a refusal says that the machine gave no random port, and then why.
pub open spec fn no_random_port(message: Seq<char>) -> bool {
    "could not obtain a random remote port: "@.is_prefix_of(message)
}

proof fn lemma_begins(head: Seq<char>, tail: Seq<char>)
    ensures
        head.is_prefix_of(head + tail),
{
    assert(head =~= (head + tail).subrange(0, head.len() as int));
}

/// The identifier that bytes make, in hexadecimal: `drawn` is what drawing
/// them came to.
pub fn id_of(drawn: Result<Vec<u8>, String>) -> (r: Result<String, Failure>)
    requires
        drawn matches Ok(bytes) ==> bytes@.len() <= 0x3fff_ffff,
    ensures
        match drawn {
            Ok(bytes) => r matches Ok(id) && id@ == hex_text(bytes@) && id@.len() == 2
                * bytes@.len() && all_hex(id@),
            Err(error) => refused(r, "could not obtain secure random bytes: "@ + error@),
        },
{
    match drawn {
        Ok(bytes) => Ok(hex_of(&bytes)),
        Err(error) => Err(refuse_about("could not obtain secure random bytes: ", &error)),
    }
}

/// An identifier of `byte_count` random bytes, in hexadecimal.
pub fn random_id(byte_count: usize) -> (r: Result<String, Failure>)
    requires
        byte_count <= 0x3fff_ffff,
    ensures
        r matches Ok(id) ==> id@.len() == 2 * byte_count && all_hex(id@),
        r matches Err(e) ==> no_random_bytes(e@),
{
    let drawn = random_bytes(byte_count);
    proof {
        if drawn is Err {
            lemma_begins("could not obtain secure random bytes: "@, drawn->Err_0@);
        }
    }
    id_of(drawn)
}

/// A token: 32 random bytes, in hexadecimal.
pub fn random_token() -> (r: Result<String, Failure>)
    ensures
        r matches Ok(token) ==> is_digest(token@),
        r matches Err(e) ==> no_random_bytes(e@),
{
    random_id(32)
}

/// A port in the upper range, from two random bytes.
pub fn high_port(high: u8, low: u8) -> (r: u16)
    ensures
        r == 30_000 + (high * 256 + low) % 30_000,
        30_000 <= r < 60_000,
{
    let value: u16 = high as u16 * 256 + low as u16;
    30_000 + value % 30_000
}

/// The port that two bytes make: `drawn` is what drawing them came to.
pub fn port_of(drawn: Result<Vec<u8>, String>) -> (r: Result<u16, Failure>)
    requires
        drawn matches Ok(bytes) ==> bytes@.len() == 2,
    ensures
        match drawn {
            Ok(bytes) => r == Ok::<u16, Failure>(
                (30_000 + (bytes@[0] * 256 + bytes@[1]) % 30_000) as u16,
            ),
            Err(error) => refused(r, "could not obtain a random remote port: "@ + error@),
        },
{
    match drawn {
        Ok(bytes) => Ok(high_port(bytes[0], bytes[1])),
        Err(error) => Err(refuse_about("could not obtain a random remote port: ", &error)),
    }
}

pub fn random_high_port() -> (r: Result<u16, Failure>)
    ensures
        r matches Ok(port) ==> 30_000 <= port < 60_000,
        r matches Err(e) ==> no_random_port(e@),
{
    let drawn = random_bytes(2);
    proof {
        if drawn is Err {
            lemma_begins("could not obtain a random remote port: "@, drawn->Err_0@);
        }
    }
    port_of(drawn)
}

/// A token as its file holds it.
pub open spec fn token_in(contents: Seq<char>) -> Result<Seq<char>, Seq<char>> {
    if is_digest(trim(contents)) {
        Ok(trim(contents))
    } else {
        Err("profile token is malformed"@)
    }
}

/// All profiles of a user.
#[derive(Debug, Clone)]
pub struct ProfileStore {
    paths: AppPaths,
}

/// The profile of a host that was added but has nothing installed.
pub open spec fn prepared(
    paths: AppPaths,
    name: Seq<char>,
    source_host: Seq<char>,
    codex_version: Seq<char>,
    remote_id: Seq<char>,
    local_exec_port: u16,
    remote_exec_port: u16,
) -> ProfileView {
    let directory = profile_directory(paths.state_root@, name);
    ProfileView {
        schema_version: PROFILE_SCHEMA_VERSION,
        name,
        source_host,
        app_alias: "cxs-"@ + name,
        status: ProfileStatus::Prepared,
        codex_version,
        local_socket: joined(directory, "bridge.sock"@),
        remote_socket: "/tmp/cxs-"@ + remote_id + ".sock"@,
        environment_id: "cxs-"@ + name,
        local_exec_port,
        remote_exec_port,
        token_file: joined(directory, "bridge.token"@),
        codex_home: paths.default_codex_home@,
        installed_target: None,
        remote_home: None,
        remote_release: None,
        package_sha256: None,
        shim_sha256: None,
        executor_source: None,
        executor_path: None,
    }
}

/// Why a profile cannot be created.
pub open spec fn create_refusal(
    paths: AppPaths,
    name: Seq<char>,
    source_host: Seq<char>,
    exists: bool,
) -> Option<Seq<char>> {
    match name_error(name) {
        Some(e) => Some(e.text()),
        None => match host_refusal(source_host) {
            Some(message) => Some(message),
            None => if exists {
                Some("profile '"@ + name + "' already exists"@)
            } else {
                socket_refusal(
                    joined(profile_directory(paths.state_root@, name), "bridge.sock"@),
                )
            },
        },
    }
}

impl ProfileStore {
    pub closed spec fn view(&self) -> AppPaths {
        self.paths
    }

    pub fn new(paths: AppPaths) -> (r: ProfileStore)
        ensures
            r@ == paths,
    {
        ProfileStore { paths }
    }

    pub fn paths(&self) -> (r: &AppPaths)
        ensures
            *r == self@,
    {
        &self.paths
    }

    /// The profile of a host that was added, from all that is random in it.
    pub fn prepared_profile(
        &self,
        name: &str,
        source_host: &str,
        codex_version: &str,
        remote_id: &str,
        local_exec_port: u16,
        remote_exec_port: u16,
    ) -> (r: Profile)
        ensures
            r@ == prepared(
                self@,
                name@,
                source_host@,
                codex_version@,
                remote_id@,
                local_exec_port,
                remote_exec_port,
            ),
    {
        let directory = self.paths.profile_dir(name);
        let mut alias = "cxs-".to_owned();
        alias.push_str(name);
        let mut remote_socket = "/tmp/cxs-".to_owned();
        remote_socket.push_str(remote_id);
        remote_socket.push_str(".sock");
        Profile {
            schema_version: PROFILE_SCHEMA_VERSION,
            name: name.to_owned(),
            source_host: source_host.to_owned(),
            app_alias: alias.clone(),
            status: ProfileStatus::Prepared,
            codex_version: codex_version.to_owned(),
            local_socket: join(&directory, "bridge.sock"),
            remote_socket,
            environment_id: alias,
            local_exec_port,
            remote_exec_port,
            token_file: join(&directory, "bridge.token"),
            codex_home: self.paths.default_codex_home.clone(),
            installed_target: None,
            remote_home: None,
            remote_release: None,
            package_sha256: None,
            shim_sha256: None,
            executor_source: None,
            executor_path: None,
        }
    }

    /// Creates the profile of a host, and the token that goes with it.
    /// `exists` tells whether the profile's directory is there already.
    pub fn create_prepared(
        &self,
        name: &str,
        source_host: &str,
        codex_version: &str,
        exists: bool,
        local_exec_port: u16,
    ) -> (r: Result<(Profile, String), Failure>)
        ensures
            create_refusal(self@, name@, source_host@, exists) matches Some(message) ==> refused(
                r,
                message,
            ),
            create_refusal(self@, name@, source_host@, exists) is None ==> (r matches Err(e)
                ==> no_random_bytes(e@) || no_random_port(e@)),
            r matches Ok((profile, token)) ==> {
                &&& create_refusal(self@, name@, source_host@, exists) is None
                &&& is_digest(token@)
                &&& exists|remote_id: Seq<char>, remote_exec_port: u16|
                    remote_id.len() == 24 && all_hex(remote_id) && 30_000 <= remote_exec_port
                        < 60_000 && profile@ == #[trigger] prepared(
                        self@,
                        name@,
                        source_host@,
                        codex_version@,
                        remote_id,
                        local_exec_port,
                        remote_exec_port,
                    )
            },
    {
        match require_profile_name(name) {
            Ok(_) => {},
            Err(e) => return Err(e),
        }
        match validate_host_alias(source_host) {
            Ok(_) => {},
            Err(e) => return Err(e),
        }
        if exists {
            return Err(refuse_naming("profile '", name, "' already exists"));
        }
        let socket = join(&self.paths.profile_dir(name), "bridge.sock");
        match ensure_unix_socket_path_is_short(&socket) {
            Ok(_) => {},
            Err(e) => return Err(e),
        }
        let token = match random_token() {
            Ok(token) => token,
            Err(e) => return Err(e),
        };
        let remote_id = match random_id(12) {
            Ok(id) => id,
            Err(e) => return Err(e),
        };
        let remote_exec_port: u16 = match random_high_port() {
            Ok(port) => port,
            Err(e) => return Err(e),
        };
        Ok(
            (
                self.prepared_profile(
                    name,
                    source_host,
                    codex_version,
                    &remote_id,
                    local_exec_port,
                    remote_exec_port,
                ),
                token,
            ),
        )
    }

    /// The file that holds a profile.
    pub fn profile_file(&self, name: &str) -> (r: Result<String, Failure>)
        ensures
            match name_error(name@) {
                Some(e) => refused(r, e.text()),
                None => r matches Ok(path) && path@ == joined(
                    profile_directory(self@.state_root@, name@),
                    "profile.json"@,
                ),
            },
    {
        match require_profile_name(name) {
            Ok(_) => Ok(join(&self.paths.profile_dir(name), "profile.json")),
            Err(e) => Err(e),
        }
    }

    /// The file whose lock guards operations on a profile.
    pub fn lock_file(&self, name: &str) -> (r: Result<String, Failure>)
        ensures
            match name_error(name@) {
                Some(e) => refused(r, e.text()),
                None => r matches Ok(path) && path@ == joined(
                    joined(self@.state_root@, "locks"@),
                    name@ + ".lock"@,
                ),
            },
    {
        match require_profile_name(name) {
            Ok(_) => {
                let mut file = name.to_owned();
                file.push_str(".lock");
                Ok(join(&join(&self.paths.state_root, "locks"), &file))
            },
            Err(e) => Err(e),
        }
    }

    /// Accepts a profile that was read from the directory `name`.
    pub fn accept_loaded(&self, name: &str, profile: Profile) -> (r: Result<Profile, Failure>)
        ensures
            if profile.schema_version != PROFILE_SCHEMA_VERSION {
                refused(
                    r,
                    "profile '"@ + profile.name@ + "' uses unsupported schema version "@ + decimal(
                        profile.schema_version as nat,
                    ),
                )
            } else if profile.name@ != name@ {
                refused(r, "profile file name does not match its directory"@)
            } else {
                r matches Ok(accepted) && accepted@ == profile@
            },
    {
        if profile.schema_version != PROFILE_SCHEMA_VERSION {
            let mut message = "profile '".to_owned();
            message.push_str(&profile.name);
            message.push_str("' uses unsupported schema version ");
            message.push_str(&decimal_text(profile.schema_version as u64));
            return Err(Failure { message });
        }
        if !same_text(&profile.name, name) {
            return Err(refuse("profile file name does not match its directory"));
        }
        Ok(profile)
    }

    /// The token that the contents of a token file hold.
    pub fn read_token(&self, contents: &str) -> (r: Result<String, Failure>)
        ensures
            outcome(r) == token_in(contents@),
    {
        let token = trimmed(contents);
        if is_sha256(&token) {
            Ok(token)
        } else {
            Err(refuse("profile token is malformed"))
        }
    }
}

// ---------------------------------------------------------------------------
// Order
// ---------------------------------------------------------------------------

/// The order of texts: by the first character in which they differ, a prefix
/// before what it begins.
pub open spec fn text_le(a: Seq<char>, b: Seq<char>) -> bool
    decreases a.len(),
{
    if a.len() == 0 {
        true
    } else if b.len() == 0 {
        false
    } else if a[0] == b[0] {
        text_le(a.skip(1), b.skip(1))
    } else {
        a[0] < b[0]
    }
}

pub proof fn lemma_text_le_total(a: Seq<char>, b: Seq<char>)
    ensures
        text_le(a, b) || text_le(b, a),
    decreases a.len(),
{
    if a.len() > 0 && b.len() > 0 && a[0] == b[0] {
        lemma_text_le_total(a.skip(1), b.skip(1));
    }
}

pub proof fn lemma_text_le_transitive(a: Seq<char>, b: Seq<char>, c: Seq<char>)
    requires
        text_le(a, b),
        text_le(b, c),
    ensures
        text_le(a, c),
    decreases a.len(),
{
    if a.len() > 0 && b.len() > 0 && c.len() > 0 && a[0] == b[0] && b[0] == c[0] {
        lemma_text_le_transitive(a.skip(1), b.skip(1), c.skip(1));
    }
}

/// Whether `a` stands no later than `b`.
pub fn not_after(a: &str, b: &str) -> (r: bool)
    ensures
        r == text_le(a@, b@),
{
    let x = chars_of(a);
    let y = chars_of(b);
    let mut i: usize = 0;
    assert(a@.skip(0) =~= a@);
    assert(b@.skip(0) =~= b@);
    loop
        invariant
            i <= x.len(),
            i <= y.len(),
            x@ == a@,
            y@ == b@,
            text_le(a@.skip(i as int), b@.skip(i as int)) == text_le(a@, b@),
        decreases x.len() - i,
    {
        if i == x.len() {
            return true;
        }
        if i == y.len() {
            return false;
        }
        if x[i] != y[i] {
            return x[i] < y[i];
        }
        assert(a@.skip(i as int).skip(1) =~= a@.skip(i as int + 1));
        assert(b@.skip(i as int).skip(1) =~= b@.skip(i as int + 1));
        i = i + 1;
    }
}

pub open spec fn sorted_by_name(profiles: Seq<Profile>) -> bool {
    forall|i: int, j: int|
        0 <= i < j < profiles.len() ==> text_le(
            (#[trigger] profiles[i]).name@,
            (#[trigger] profiles[j]).name@,
        )
}

/// The profiles in the order of their names.
pub fn sort_profiles(profiles: Vec<Profile>) -> (r: Vec<Profile>)
    ensures
        sorted_by_name(r@),
        r@.to_multiset() == profiles@.to_multiset(),
{
    broadcast use vstd::seq_lib::group_to_multiset_ensures;

    let mut r: Vec<Profile> = Vec::new();
    assert(profiles@.take(0) =~= Seq::empty());
    for profile in it: profiles
        invariant
            it.seq() == profiles@,
            sorted_by_name(r@),
            r@.to_multiset() == profiles@.take(it.index() as int).to_multiset(),
    {
        let ghost n = it.index() as int;
        let mut k: usize = 0;
        while k < r.len() && not_after(&r[k].name, &profile.name)
            invariant
                k <= r.len(),
                forall|i: int| 0 <= i < k ==> text_le((#[trigger] r@[i]).name@, profile.name@),
            decreases r.len() - k,
        {
            k = k + 1;
        }
        let ghost before = r@;
        proof {
            if k < before.len() {
                lemma_text_le_total(before[k as int].name@, profile.name@);
                assert forall|i: int| k <= i < before.len() implies text_le(
                    profile.name@,
                    (#[trigger] before[i]).name@,
                ) by {
                    if i > k {
                        lemma_text_le_transitive(
                            profile.name@,
                            before[k as int].name@,
                            before[i].name@,
                        );
                    }
                }
            }
        }
        r.insert(k, profile);
        proof {
            assert(r@ == before.insert(k as int, profile));
            assert forall|i: int, j: int| 0 <= i < j < r@.len() implies text_le(
                (#[trigger] r@[i]).name@,
                (#[trigger] r@[j]).name@,
            ) by {
                let p = if i < k { i } else { i - 1 };
                let q = if j < k { j } else { j - 1 };
                if i != k && j != k {
                    assert(r@[i] == before[p] && r@[j] == before[q]);
                } else if i == k {
                    assert(r@[j] == before[q]);
                } else {
                    assert(r@[i] == before[p]);
                }
            }
            assert(profiles@.take(n + 1) =~= profiles@.take(n).push(profile));
            vstd::seq_lib::to_multiset_insert(before, k as int, profile);
            vstd::seq_lib::to_multiset_build(profiles@.take(n), profile);
        }
    }
    assert(profiles@.take(profiles@.len() as int) =~= profiles@);
    r
}

} // verus!
