//! Framing of lines, and the handshakes by which shim, bridge and agent know
//! each other.

use vstd::prelude::*;
use vstd::string::*;
use vstd::utf8::*;
use crate::arguments::{app_server_arguments, kept_arguments};
use crate::failure::{Failure, refuse, refuse_naming, refused};
use crate::profile::{
    AGENT_MAGIC, AGENT_PROTOCOL_VERSION, AgentHandshake, Profile, SHIM_MAGIC, SHIM_PROTOCOL_VERSION,
    ShimHandshake,
};
use crate::text::{decimal, decimal_text, same_text, texts};

verus! {

pub const MAX_HANDSHAKE_BYTES: usize = 8192;

pub const MAX_JSON_LINE_BYTES: usize = 16_777_216;

// ---------------------------------------------------------------------------
// Lines
// ---------------------------------------------------------------------------

/// How many bytes stand before the first newline (all where there is none).
pub open spec fn before_newline(bytes: Seq<u8>) -> nat
    decreases bytes.len(),
{
    if bytes.len() == 0 || bytes[0] == 10 {
        0
    } else {
        1 + before_newline(bytes.skip(1))
    }
}

pub proof fn lemma_before_newline(bytes: Seq<u8>, n: nat)
    requires
        n <= bytes.len(),
        forall|i: int| 0 <= i < n ==> #[trigger] bytes[i] != 10,
        n < bytes.len() ==> bytes[n as int] == 10,
    ensures
        before_newline(bytes) == n,
    decreases n,
{
    if n > 0 {
        assert forall|i: int| 0 <= i < n - 1 implies #[trigger] bytes.skip(1)[i] != 10 by {
            assert(bytes.skip(1)[i] == bytes[i + 1]);
        }
        lemma_before_newline(bytes.skip(1), (n - 1) as nat);
    }
}

pub proof fn lemma_before_newline_bounds(bytes: Seq<u8>)
    ensures
        before_newline(bytes) <= bytes.len(),
        forall|i: int| 0 <= i < before_newline(bytes) ==> #[trigger] bytes[i] != 10,
        before_newline(bytes) < bytes.len() ==> bytes[before_newline(bytes) as int] == 10,
    decreases bytes.len(),
{
    if bytes.len() > 0 && bytes[0] != 10 {
        let tail = bytes.skip(1);
        lemma_before_newline_bounds(tail);
        assert forall|i: int| 0 <= i < before_newline(bytes) implies #[trigger] bytes[i] != 10 by {
            if i > 0 {
                assert(tail[i - 1] == bytes[i]);
            }
        }
    }
}

/// A line without the carriage return at its end.
pub open spec fn without_return(line: Seq<u8>) -> Seq<u8> {
    if line.len() > 0 && line.last() == 13 {
        line.drop_last()
    } else {
        line
    }
}

/// What one more piece of input makes of a line begun.
pub enum LineStep {
    /// No newline yet: this much of the line is known.
    Open(Seq<u8>),
    /// The line, and how many bytes of the piece belong to it.
    Closed(Seq<u8>, nat),
    /// The line is longer than the limit.
    TooLong,
}

pub open spec fn line_step(line: Seq<u8>, piece: Seq<u8>, maximum: nat) -> LineStep {
    let n = before_newline(piece);
    if n < piece.len() {
        if line.len() + n + 1 > maximum {
            LineStep::TooLong
        } else {
            LineStep::Closed(without_return(line + piece.take(n as int)), n + 1)
        }
    } else if line.len() + piece.len() > maximum {
        LineStep::TooLong
    } else {
        LineStep::Open(line + piece)
    }
}

pub open spec fn line_too_long(maximum: nat) -> Seq<char> {
    "JSONL message exceeded "@ + decimal(maximum) + " bytes"@
}

/// Takes the bytes of the line begun from `piece`. Returns how many bytes of
/// `piece` were taken, and whether the line is complete.
pub fn take_line(line: &mut Vec<u8>, piece: &[u8], maximum: usize) -> (r: Result<
    (usize, bool),
    Failure,
>)
    ensures
        match line_step(old(line)@, piece@, maximum as nat) {
            LineStep::Open(known) => final(line)@ == known && r == Ok::<(usize, bool), Failure>(
                (piece@.len() as usize, false),
            ),
            LineStep::Closed(whole, taken) => final(line)@ == whole && r == Ok::<
                (usize, bool),
                Failure,
            >((taken as usize, true)),
            LineStep::TooLong => final(line)@ == old(line)@ && refused(
                r,
                line_too_long(maximum as nat),
            ),
        },
{
    let ghost start = line@;
    let mut n: usize = 0;
    while n < piece.len() && piece[n] != 10
        invariant
            n <= piece@.len(),
            forall|i: int| 0 <= i < n ==> #[trigger] piece@[i] != 10,
        decreases piece.len() - n,
    {
        n = n + 1;
    }
    proof {
        lemma_before_newline(piece@, n as nat);
    }
    let closed = n < piece.len();
    let taken: usize = if closed {
        n + 1
    } else {
        n
    };
    if taken > maximum || line.len() > maximum - taken {
        return Err(
            refuse_naming("JSONL message exceeded ", &decimal_text(maximum as u64), " bytes"),
        );
    }
    let mut i: usize = 0;
    assert(start + piece@.take(0) =~= start);
    while i < n
        invariant
            i <= n <= piece@.len(),
            line@ == start + piece@.take(i as int),
        decreases n - i,
    {
        line.push(piece[i]);
        assert(start + piece@.take(i as int + 1) =~= (start + piece@.take(i as int)).push(
            piece@[i as int],
        ));
        i = i + 1;
    }
    assert(piece@.take(piece@.len() as int) =~= piece@);
    if closed && line.len() > 0 && line[line.len() - 1] == 13 {
        let _ = line.pop();
        assert(line@ =~= (start + piece@.take(n as int)).drop_last());
    }
    Ok((taken, closed))
}

/// The line that the end of the input leaves: none where nothing was read.
pub fn last_line(line: Vec<u8>) -> (r: Option<Vec<u8>>)
    ensures
        match r {
            None => line@.len() == 0,
            Some(rest) => line@.len() > 0 && rest@ == line@,
        },
{
    if line.len() == 0 {
        None
    } else {
        Some(line)
    }
}

/// How the input is cut into pieces makes no difference: a piece in two parts
/// gives what the whole piece gives.
pub proof fn law_lines_do_not_depend_on_pieces(
    line: Seq<u8>,
    first: Seq<u8>,
    second: Seq<u8>,
    maximum: nat,
)
    ensures
        line_step(line, first + second, maximum) == match line_step(line, first, maximum) {
            LineStep::Open(known) => match line_step(known, second, maximum) {
                LineStep::Closed(whole, taken) => LineStep::Closed(whole, taken + first.len()),
                other => other,
            },
            other => other,
        },
{
    let both = first + second;
    let n = before_newline(first);
    lemma_before_newline_bounds(first);
    lemma_before_newline_bounds(second);
    if n < first.len() {
        assert(both[n as int] == first[n as int]);
        assert forall|i: int| 0 <= i < n implies #[trigger] both[i] != 10 by {
            assert(both[i] == first[i]);
        }
        lemma_before_newline(both, n);
        assert(both.take(n as int) =~= first.take(n as int));
    } else {
        let m = before_newline(second);
        assert forall|i: int| 0 <= i < n + m implies #[trigger] both[i] != 10 by {
            if i < n {
                assert(both[i] == first[i]);
            } else {
                assert(both[i] == second[i - n]);
            }
        }
        if m < second.len() {
            assert(both[(n + m) as int] == second[m as int]);
        }
        lemma_before_newline(both, n + m);
        assert(line + both =~= line + first + second);
        if m < second.len() {
            assert(line + both.take((n + m) as int) =~= line + first + second.take(m as int));
        }
    }
}

// ---------------------------------------------------------------------------
// The handshake of a shim
// ---------------------------------------------------------------------------

/// What one more byte makes of the handshake read so far.
pub enum HandshakeStep {
    More(Seq<u8>),
    Complete,
    TooLong,
}

pub open spec fn handshake_step(read: Seq<u8>, byte: u8) -> HandshakeStep {
    if byte == 10 {
        HandshakeStep::Complete
    } else if read.len() + 1 >= MAX_HANDSHAKE_BYTES {
        HandshakeStep::TooLong
    } else {
        HandshakeStep::More(read.push(byte))
    }
}

/// Takes one byte of a shim's handshake; true once the handshake is complete.
pub fn handshake_byte(read: &mut Vec<u8>, byte: u8) -> (r: Result<bool, Failure>)
    ensures
        match handshake_step(old(read)@, byte) {
            HandshakeStep::More(known) => r == Ok::<bool, Failure>(false) && final(read)@ == known,
            HandshakeStep::Complete => r == Ok::<bool, Failure>(true) && final(read)@ == old(read)@,
            HandshakeStep::TooLong => refused(r, "shim handshake exceeded 8192 bytes"@)
                && final(read)@ == old(read)@,
        },
{
    if byte == 10 {
        return Ok(true);
    }
    if read.len() >= MAX_HANDSHAKE_BYTES - 1 {
        return Err(refuse("shim handshake exceeded 8192 bytes"));
    }
    read.push(byte);
    Ok(false)
}

/// What a reader that has `read` makes of the bytes of `stream`: the
/// handshake and what follows it, or nothing where none is complete.
pub open spec fn handshake_in(read: Seq<u8>, stream: Seq<u8>) -> Option<(Seq<u8>, Seq<u8>)>
    decreases stream.len(),
{
    if stream.len() == 0 {
        None
    } else {
        match handshake_step(read, stream[0]) {
            HandshakeStep::More(known) => handshake_in(known, stream.skip(1)),
            HandshakeStep::Complete => Some((read, stream.skip(1))),
            HandshakeStep::TooLong => None,
        }
    }
}

/// Whether a shim may send this handshake: one line that leaves room for the
/// newline.
pub open spec fn sendable(handshake: Seq<u8>) -> bool {
    handshake.len() <= MAX_HANDSHAKE_BYTES - 1
}

/// Whatever a shim may send is read back whole, and not one byte more.
pub proof fn law_sent_handshakes_are_read(handshake: Seq<u8>, rest: Seq<u8>)
    requires
        sendable(handshake),
        forall|i: int| 0 <= i < handshake.len() ==> #[trigger] handshake[i] != 10,
    ensures
        handshake_in(Seq::empty(), handshake.push(10) + rest) == Some((handshake, rest)),
{
    lemma_handshake_in(Seq::empty(), handshake, rest);
    assert(Seq::<u8>::empty() + handshake =~= handshake);
}

proof fn lemma_handshake_in(read: Seq<u8>, more: Seq<u8>, rest: Seq<u8>)
    requires
        read.len() + more.len() <= MAX_HANDSHAKE_BYTES - 1,
        forall|i: int| 0 <= i < more.len() ==> #[trigger] more[i] != 10,
    ensures
        handshake_in(read, more.push(10) + rest) == Some((read + more, rest)),
    decreases more.len(),
{
    let stream = more.push(10) + rest;
    if more.len() == 0 {
        assert(stream.skip(1) =~= rest);
        assert(read + more =~= read);
    } else {
        let tail = more.skip(1);
        assert(stream[0] == more[0]);
        assert(stream.skip(1) =~= tail.push(10) + rest);
        assert forall|i: int| 0 <= i < tail.len() implies #[trigger] tail[i] != 10 by {
            assert(tail[i] == more[i + 1]);
        }
        lemma_handshake_in(read.push(more[0]), tail, rest);
        assert(read.push(more[0]) + tail =~= read + more);
    }
}

/// Whether `encoded` may go out as a handshake.
pub fn check_sendable(encoded: &[u8]) -> (r: Result<(), Failure>)
    ensures
        r is Ok == sendable(encoded@),
        r is Err ==> refused(r, "app-server arguments are too large for the shim handshake"@),
{
    if encoded.len() > MAX_HANDSHAKE_BYTES - 1 {
        Err(refuse("app-server arguments are too large for the shim handshake"))
    } else {
        Ok(())
    }
}

// ---------------------------------------------------------------------------
// Authentication
// ---------------------------------------------------------------------------

/// `subtle::ConstantTimeEq::ct_eq` on byte slices: whether the two are equal,
/// found in a time that does not depend on where they differ.
#[verifier::external_body]
fn same_secret(a: &[u8], b: &[u8]) -> (r: bool)
    ensures
        r == (a@ == b@),
{
    subtle::ConstantTimeEq::ct_eq(a, b).into()
}

fn same_token(token: &str, expected: &str) -> (r: bool)
    ensures
        r == (token@ == expected@),
{
    proof {
        encode_utf8_decode_utf8(token@);
        encode_utf8_decode_utf8(expected@);
    }
    same_secret(token.as_bytes(), expected.as_bytes())
}

/// Whether the bridge serves the shim that sent this handshake.
pub fn validate_handshake(
    handshake: &ShimHandshake,
    profile: &Profile,
    expected_token: &str,
) -> (r: Result<(), Failure>)
    ensures
        if handshake.magic@ != SHIM_MAGIC@ || handshake.protocol_version != SHIM_PROTOCOL_VERSION {
            refused(r, "shim protocol version mismatch"@)
        } else if handshake.profile@ != profile.name@ {
            refused(r, "shim requested the wrong profile"@)
        } else if handshake.token@ != expected_token@ {
            refused(r, "shim authentication failed"@)
        } else {
            r is Ok
        },
{
    if !same_text(&handshake.magic, SHIM_MAGIC) || handshake.protocol_version
        != SHIM_PROTOCOL_VERSION {
        return Err(refuse("shim protocol version mismatch"));
    }
    if !same_text(&handshake.profile, &profile.name) {
        return Err(refuse("shim requested the wrong profile"));
    }
    if !same_token(&handshake.token, expected_token) {
        return Err(refuse("shim authentication failed"));
    }
    Ok(())
}

/// Whether the bridge trusts the agent that sent this handshake.
pub fn validate_agent_handshake(
    handshake: &AgentHandshake,
    profile: &Profile,
    expected_token: &str,
) -> (r: Result<(), Failure>)
    ensures
        if handshake.magic@ != AGENT_MAGIC@ || handshake.protocol_version
            != AGENT_PROTOCOL_VERSION {
            refused(r, "remote agent protocol version mismatch"@)
        } else if handshake.profile@ != profile.name@ {
            refused(r, "remote agent belongs to the wrong profile"@)
        } else if handshake.token@ != expected_token@ {
            refused(r, "remote agent authentication failed"@)
        } else {
            r is Ok
        },
{
    if !same_text(&handshake.magic, AGENT_MAGIC) || handshake.protocol_version
        != AGENT_PROTOCOL_VERSION {
        return Err(refuse("remote agent protocol version mismatch"));
    }
    if !same_text(&handshake.profile, &profile.name) {
        return Err(refuse("remote agent belongs to the wrong profile"));
    }
    if !same_token(&handshake.token, expected_token) {
        return Err(refuse("remote agent authentication failed"));
    }
    Ok(())
}

/// The handshake of a shim that the bridge serves, down to the command line of
/// the App Server that it starts for it.
pub fn accept_shim(handshake: &ShimHandshake, profile: &Profile, expected_token: &str) -> (r: Result<
    Vec<String>,
    Failure,
>)
    ensures
        if handshake.magic@ != SHIM_MAGIC@ || handshake.protocol_version != SHIM_PROTOCOL_VERSION {
            refused(r, "shim protocol version mismatch"@)
        } else if handshake.profile@ != profile.name@ {
            refused(r, "shim requested the wrong profile"@)
        } else if handshake.token@ != expected_token@ {
            refused(r, "shim authentication failed"@)
        } else {
            match kept_arguments(texts(handshake.app_server_args@)) {
                Ok(kept) => r matches Ok(forwarded) && texts(forwarded@) == seq!["app-server"@]
                    + kept,
                Err(e) => refused(r, e),
            }
        },
{
    match validate_handshake(handshake, profile, expected_token) {
        Ok(_) => app_server_arguments(&handshake.app_server_args),
        Err(e) => Err(e),
    }
}

} // verus!
