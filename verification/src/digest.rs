//! Digests and identifiers in hexadecimal.

use vstd::prelude::*;
use crate::failure::{Failure, outcome, refuse, refuse_about, refused};
use crate::text::{
    chars_of, hex_digit, is_hex_digit, lines, lower, lower_char, lowered, same_text, split_lines,
    split_words, strip_start, stripped_start, texts, words,
};

verus! {

/// The hexadecimal digit of a number below sixteen.
pub open spec fn hex_char(n: u8) -> char {
    if n < 10 {
        (48 + n) as u8 as char
    } else {
        (87 + n) as u8 as char
    }
}

/// Bytes in hexadecimal, two digits each, the high one first.
pub open spec fn hex_text(bytes: Seq<u8>) -> Seq<char>
    decreases bytes.len(),
{
    if bytes.len() == 0 {
        Seq::empty()
    } else {
        hex_text(bytes.drop_last()).push(hex_char(bytes.last() / 16)).push(
            hex_char(bytes.last() % 16),
        )
    }
}

pub proof fn lemma_hex_text(bytes: Seq<u8>)
    ensures
        hex_text(bytes).len() == 2 * bytes.len(),
        all_hex(hex_text(bytes)),
        lower(hex_text(bytes)) == hex_text(bytes),
    decreases bytes.len(),
{
    if bytes.len() > 0 {
        lemma_hex_text(bytes.drop_last());
        let before = hex_text(bytes.drop_last());
        let high = hex_char(bytes.last() / 16);
        let low = hex_char(bytes.last() % 16);
        let all = before.push(high).push(low);
        assert(is_hex_digit(high) && is_hex_digit(low));
        assert(lower_char(high) == high && lower_char(low) == low);
        assert forall|i: int| 0 <= i < all.len() implies lower(all)[i] == all[i] by {
            if i < before.len() {
                assert(lower(before)[i] == before[i]);
            }
        }
        assert(lower(all) =~= all);
    }
    assert(lower(hex_text(bytes)) =~= hex_text(bytes));
}

pub open spec fn all_hex(s: Seq<char>) -> bool {
    forall|i: int| 0 <= i < s.len() ==> is_hex_digit(#[trigger] s[i])
}

/// Whether `s` is 32 bytes in hexadecimal.
pub open spec fn is_digest(s: Seq<char>) -> bool {
    s.len() == 64 && all_hex(s)
}

/// `hex::encode`: each byte as two lower-case hexadecimal digits. Left out are
/// inputs whose text no allocation can hold on every machine.
#[verifier::external_body]
fn encode_hex(bytes: &Vec<u8>) -> (r: String)
    requires
        bytes@.len() <= 0x3fff_ffff,
    ensures
        r@ == hex_text(bytes@),
{
    hex::encode(bytes)
}

/// Bytes in hexadecimal.
pub fn hex_of(bytes: &Vec<u8>) -> (r: String)
    requires
        bytes@.len() <= 0x3fff_ffff,
    ensures
        r@ == hex_text(bytes@),
        r@.len() == 2 * bytes@.len(),
        all_hex(r@),
{
    proof {
        lemma_hex_text(bytes@);
    }
    encode_hex(bytes)
}

/// The SHA-256 digest of a message.
pub uninterp spec fn sha256(message: Seq<u8>) -> Seq<u8>;

/// `sha2::Sha256::digest`: 32 bytes that rest on the message alone.
#[verifier::external_body]
fn digest_of(message: &[u8]) -> (r: Vec<u8>)
    ensures
        r@ == sha256(message@),
        r@.len() == 32,
{
    <sha2::Sha256 as sha2::Digest>::digest(message).to_vec()
}

/// The digest of a message, in hexadecimal.
pub fn sha256_bytes(message: &[u8]) -> (r: String)
    ensures
        r@ == hex_text(sha256(message@)),
        is_digest(r@),
{
    hex_of(&digest_of(message))
}

/// Whether `value` is a digest: 64 hexadecimal digits.
pub fn is_sha256(value: &str) -> (r: bool)
    ensures
        r == is_digest(value@),
{
    let chars = chars_of(value);
    if chars.len() != 64 {
        return false;
    }
    let mut i: usize = 0;
    while i < chars.len()
        invariant
            i <= chars.len(),
            chars@ == value@,
            forall|j: int| 0 <= j < i ==> is_hex_digit(#[trigger] chars@[j]),
        decreases chars.len() - i,
    {
        if !hex_digit(chars[i]) {
            assert(!is_hex_digit(value@[i as int]));
            return false;
        }
        i = i + 1;
    }
    true
}

/// Refuses what is no digest.
pub fn validate_sha256(value: &str) -> (r: Result<(), Failure>)
    ensures
        r is Ok == is_digest(value@),
        r is Err ==> refused(r, "invalid SHA-256 digest in manifest"@),
{
    if is_sha256(value) {
        Ok(())
    } else {
        Err(refuse("invalid SHA-256 digest in manifest"))
    }
}

/// Refuses contents that do not have the expected digest, in whatever case it
/// is written.
pub fn verify_sha256(path: &str, contents: &[u8], expected: &str) -> (r: Result<(), Failure>)
    ensures
        r is Ok == (hex_text(sha256(contents@)) == lower(expected@)),
        r is Err ==> refused(
            r,
            "SHA-256 mismatch for "@ + path@ + ": expected "@ + expected@ + ", got "@ + hex_text(
                sha256(contents@),
            ),
        ),
{
    let actual = sha256_bytes(contents);
    if same_text(&actual, &lowered(expected)) {
        return Ok(());
    }
    let mut message = "SHA-256 mismatch for ".to_owned();
    message.push_str(path);
    message.push_str(": expected ");
    message.push_str(expected);
    message.push_str(", got ");
    message.push_str(&actual);
    Err(Failure { message })
}

/// The digest that a checksum manifest gives for a file: that of the first
/// line whose second word names it, with or without a star before it.
pub open spec fn manifest_digest(lines: Seq<Seq<char>>, filename: Seq<char>) -> Result<
    Seq<char>,
    Seq<char>,
>
    decreases lines.len(),
{
    if lines.len() == 0 {
        Err("checksum manifest did not contain "@ + filename)
    } else {
        let fields = words(lines[0], true);
        if fields.len() >= 2 && strip_start(fields[1], '*') == filename {
            if is_digest(fields[0]) {
                Ok(lower(fields[0]))
            } else {
                Err("invalid SHA-256 digest in manifest"@)
            }
        } else {
            manifest_digest(lines.skip(1), filename)
        }
    }
}

/// Looks a file up in the text of a checksum manifest.
pub fn checksum_from_file(contents: &str, filename: &str) -> (r: Result<String, Failure>)
    ensures
        outcome(r) == manifest_digest(lines(contents@), filename@),
{
    let found = split_lines(contents);
    let ghost all = lines(contents@);
    let mut i: usize = 0;
    assert(all.skip(0) =~= all);
    while i < found.len()
        invariant
            i <= found.len(),
            all == texts(found@),
            all == lines(contents@),
            manifest_digest(all.skip(i as int), filename@) == manifest_digest(all, filename@),
        decreases found.len() - i,
    {
        let fields = split_words(&found[i], true);
        let ghost rest = all.skip(i as int);
        assert(rest[0] == found@[i as int]@);
        assert(rest.skip(1) =~= all.skip(i as int + 1));
        assert(texts(fields@).len() == fields@.len());
        if fields.len() >= 2 {
            assert(texts(fields@)[0] == fields@[0]@ && texts(fields@)[1] == fields@[1]@);
            if same_text(&stripped_start(&fields[1], '*'), filename) {
                return match validate_sha256(&fields[0]) {
                    Ok(_) => Ok(lowered(&fields[0])),
                    Err(e) => Err(e),
                };
            }
        }
        i = i + 1;
    }
    assert(all.skip(i as int) =~= Seq::empty());
    Err(refuse_about("checksum manifest did not contain ", filename))
}

} // verus!
