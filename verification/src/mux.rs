//! The channels inside one SSH connection: each begins with a header that
//! tells what it carries.

use vstd::prelude::*;
use crate::failure::{Failure, refuse, refuse_about, refuse_naming, refused};
use crate::text::{decimal, decimal_text};

verus! {

pub const STREAM_HEADER_BYTES: usize = 5;

pub const MAX_STREAMS: usize = 32;

pub const MAX_CONNECTION_RECEIVE_WINDOW: usize = 33_554_432;

/// Which end of the connection this is.
#[derive(Debug, Clone, Copy, PartialEq, Eq, Structural)]
pub enum Role {
    Bridge,
    Agent,
}

impl Role {
    /// Whether this end numbers its channels as the client of the connection.
    pub fn is_client(self) -> (r: bool)
        ensures
            r == (self == Role::Bridge),
    {
        self == Role::Bridge
    }
}

/// What a channel carries: a client of the bridge, a connection to the Exec
/// Server, or a connection to the host's App Server.
#[derive(Debug, Clone, Copy, PartialEq, Eq, Structural)]
pub enum ChannelKind {
    App,
    Exec,
    Host,
}

pub open spec fn code_of(kind: ChannelKind) -> u8 {
    match kind {
        ChannelKind::App => 1,
        ChannelKind::Exec => 2,
        ChannelKind::Host => 3,
    }
}

pub open spec fn kind_of(code: u8) -> Option<ChannelKind> {
    if code == 1 {
        Some(ChannelKind::App)
    } else if code == 2 {
        Some(ChannelKind::Exec)
    } else if code == 3 {
        Some(ChannelKind::Host)
    } else {
        None
    }
}

impl ChannelKind {
    pub fn code(self) -> (r: u8)
        ensures
            r == code_of(self),
    {
        match self {
            ChannelKind::App => 1,
            ChannelKind::Exec => 2,
            ChannelKind::Host => 3,
        }
    }

    pub fn from_code(code: u8) -> (r: Result<ChannelKind, Failure>)
        ensures
            match kind_of(code) {
                Some(kind) => r == Ok::<ChannelKind, Failure>(kind),
                None => refused(r, "unknown Yamux channel kind "@ + decimal(code as nat)),
            },
    {
        if code == 1 {
            Ok(ChannelKind::App)
        } else if code == 2 {
            Ok(ChannelKind::Exec)
        } else if code == 3 {
            Ok(ChannelKind::Host)
        } else {
            Err(refuse_about("unknown Yamux channel kind ", &decimal_text(code as u64)))
        }
    }

    pub open spec fn name(&self) -> Seq<char> {
        match self {
            ChannelKind::App => "App"@,
            ChannelKind::Exec => "Exec"@,
            ChannelKind::Host => "Host"@,
        }
    }

    pub fn label(&self) -> (r: &'static str)
        ensures
            r@ == self.name(),
    {
        match self {
            ChannelKind::App => "App",
            ChannelKind::Exec => "Exec",
            ChannelKind::Host => "Host",
        }
    }
}

/// The header of a channel: the letters `CXS2` and the code of its kind.
pub open spec fn header_of(kind: ChannelKind) -> Seq<u8> {
    seq![67u8, 88, 83, 50, code_of(kind)]
}

pub fn stream_header(kind: ChannelKind) -> (r: Vec<u8>)
    ensures
        r@ == header_of(kind),
{
    let mut header: Vec<u8> = Vec::new();
    header.push(67);
    header.push(88);
    header.push(83);
    header.push(50);
    header.push(kind.code());
    assert(header@ =~= header_of(kind));
    header
}

/// What a channel with this header carries.
pub open spec fn identified(header: Seq<u8>) -> Result<ChannelKind, Seq<char>> {
    if header.take(4) != seq![67u8, 88, 83, 50] {
        Err("Yamux stream used an incompatible Shuttle protocol"@)
    } else {
        match kind_of(header[4]) {
            Some(kind) => Ok(kind),
            None => Err("unknown Yamux channel kind "@ + decimal(header[4] as nat)),
        }
    }
}

pub fn identify_inbound(header: &[u8]) -> (r: Result<ChannelKind, Failure>)
    requires
        header@.len() == STREAM_HEADER_BYTES,
    ensures
        match r {
            Ok(kind) => identified(header@) == Ok::<ChannelKind, Seq<char>>(kind),
            Err(e) => identified(header@) == Err::<ChannelKind, Seq<char>>(e@),
        },
{
    if header[0] != 67 || header[1] != 88 || header[2] != 83 || header[3] != 50 {
        proof {
            let magic = seq![67u8, 88, 83, 50];
            if header@.take(4) == magic {
                assert(header@.take(4)[0] == header@[0] && header@.take(4)[1] == header@[1]
                    && header@.take(4)[2] == header@[2] && header@.take(4)[3] == header@[3]);
            }
        }
        return Err(refuse("Yamux stream used an incompatible Shuttle protocol"));
    }
    assert(header@.take(4) =~= seq![67u8, 88, 83, 50]);
    ChannelKind::from_code(header[4])
}

/// Whether the bridge accepts a channel that the agent opens.
pub fn bridge_accepts(kind: ChannelKind) -> (r: Result<(), Failure>)
    ensures
        if kind == ChannelKind::App {
            r is Ok
        } else {
            refused(
                r,
                "remote Shuttle agent opened an unsupported "@ + kind.name() + " channel"@,
            )
        },
{
    if kind == ChannelKind::App {
        Ok(())
    } else {
        Err(
            refuse_naming(
                "remote Shuttle agent opened an unsupported ",
                kind.label(),
                " channel",
            ),
        )
    }
}

/// The header of a channel tells its kind, and no other header does.
pub proof fn law_headers_identify_channels(kind: ChannelKind, header: Seq<u8>)
    requires
        header.len() == STREAM_HEADER_BYTES,
    ensures
        header_of(kind).len() == STREAM_HEADER_BYTES,
        kind_of(code_of(kind)) == Some(kind),
        identified(header) == Ok::<ChannelKind, Seq<char>>(kind) <==> header == header_of(kind),
{
    let magic = seq![67u8, 88, 83, 50];
    assert(header_of(kind).take(4) =~= magic);
    if identified(header) == Ok::<ChannelKind, Seq<char>>(kind) {
        assert(header.take(4) == magic);
        assert(header[0] == header.take(4)[0] && header[1] == header.take(4)[1] && header[2]
            == header.take(4)[2] && header[3] == header.take(4)[3]);
        assert(header =~= header_of(kind));
    }
}

} // verus!
