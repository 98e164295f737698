//! What the texts and messages of this crate say.

use vstd::prelude::*;
use vstd::arithmetic::div_mod::{
    lemma_div_denominator, lemma_fundamental_div_mod, lemma_basic_div,
};
use vstd::arithmetic::power::{
    lemma_pow0, lemma_pow1, lemma_pow_adds, lemma_pow_multiplies, lemma_pow_positive, pow,
};
use crate::download::{pump_error_text, PumpError};
use crate::error::{error_text, BlobsError, ErrorView};
use crate::hash::{base32_digit, bytes_number, hash_of, hash_text, lemma_hash_of_view, BlobHash};
use crate::text::decimal;
use crate::wire::{data_message, request_message, status_message};

verus! {

/// The number that a text of digits stands for.
pub open spec fn numeral_value(text: Seq<char>) -> int
    decreases text.len(),
{
    if text.len() == 0 {
        0
    } else {
        numeral_value(text.drop_last()) * 10 + (text.last() as int - '0' as int)
    }
}

/// The decimal text of a number consists of digits, stands for the number, and has no needless zero
/// in front.
pub proof fn law_decimal(value: nat)
    ensures
        numeral_value(decimal(value)) == value,
        decimal(value).len() > 0,
        forall|i: int| 0 <= i < decimal(value).len() ==> '0' <= #[trigger] decimal(value)[i] <= '9',
        decimal(value).len() > 1 ==> decimal(value)[0] != '0',
    decreases value,
{
    let text = decimal(value);
    if value < 10 {
        reveal_with_fuel(numeral_value, 2);
        assert(text.drop_last() =~= Seq::empty());
    } else {
        law_decimal(value / 10);
        let front = decimal(value / 10);
        assert(text.drop_last() =~= front);
        assert(text[0] == front[0]);
        assert forall|i: int| 0 <= i < text.len() implies '0' <= #[trigger] text[i] <= '9' by {
            if i < front.len() {
                assert(text[i] == front[i]);
            }
        }
        if front.len() == 1 && front[0] == '0' {
            reveal_with_fuel(numeral_value, 2);
            assert(front.drop_last() =~= Seq::empty());
        }
    }
}

/// The number that a digit in base 32 stands for.
pub open spec fn base32_value(digit: char) -> int {
    if 'a' <= digit <= 'z' {
        digit as int - 'a' as int
    } else {
        digit as int - '2' as int + 26
    }
}

/// The number that a text in base 32 stands for.
pub open spec fn base32_number(text: Seq<char>) -> int
    decreases text.len(),
{
    if text.len() == 0 {
        0
    } else {
        base32_number(text.drop_last()) * 32 + base32_value(text.last())
    }
}

/// The first digits of a hash's text stand for the first bits of the hash.
proof fn lemma_hash_digits(bytes: Seq<u8>, count: nat)
    requires
        count <= 52,
        0 <= bytes_number(bytes) * 16 < pow(32, 52),
    ensures
        base32_number(hash_text(bytes).take(count as int)) == bytes_number(bytes) * 16 / pow(
            32,
            (52 - count) as nat,
        ),
    decreases count,
{
    let number = bytes_number(bytes) * 16;
    let text = hash_text(bytes);
    if count == 0 {
        assert(text.take(0) =~= Seq::empty());
        lemma_pow_positive(32, 52);
        lemma_basic_div(number, pow(32, 52));
    } else {
        let fewer = (count - 1) as nat;
        let place = (52 - count) as nat;
        lemma_hash_digits(bytes, fewer);
        assert(text.take(count as int).drop_last() =~= text.take(fewer as int));
        let power = pow(32, place);
        lemma_pow_positive(32, place);
        lemma_pow_adds(32, place, 1);
        lemma_pow1(32);
        assert(pow(32, (place + 1) as nat) == power * 32);
        let quotient = number / power;
        lemma_div_denominator(number, power, 32);
        lemma_fundamental_div_mod(quotient, 32);
        let digit = quotient % 32;
        assert(0 <= digit < 32);
        assert(text.take(count as int).last() == base32_digit(digit));
        assert(base32_value(base32_digit(digit)) == digit);
    }
}

/// The number that bytes stand for is as large as their count allows, and no larger.
proof fn lemma_bytes_bound(bytes: Seq<u8>)
    ensures
        0 <= bytes_number(bytes) < pow(256, bytes.len()),
    decreases bytes.len(),
{
    if bytes.len() == 0 {
        lemma_pow0(256);
    } else {
        let front = bytes.drop_last();
        lemma_bytes_bound(front);
        lemma_pow_adds(256, front.len(), 1);
        lemma_pow1(256);
    }
}

/// The text of a hash has 52 characters, each a digit in base 32, and stands for the number that the
/// bytes of the hash stand for, with four zero bits behind it.
pub proof fn law_hash_text(hash: BlobHash)
    ensures
        hash_text(hash@).len() == 52,
        base32_number(hash_text(hash@)) == bytes_number(hash@) * 16,
        forall|i: int|
            0 <= i < 52 ==> ('a' <= #[trigger] hash_text(hash@)[i] <= 'z' || '2' <= hash_text(
                hash@,
            )[i] <= '7'),
{
    let bytes = hash@;
    let text = hash_text(bytes);
    lemma_bytes_bound(bytes);
    assert(pow(256, 32) * 16 == pow(32, 52)) by {
        assert(pow(2, 8) == 256 && pow(2, 5) == 32 && pow(2, 4) == 16) by {
            reveal_with_fuel(pow, 9);
        }
        lemma_pow_multiplies(2, 8, 32);
        lemma_pow_multiplies(2, 5, 52);
        lemma_pow_adds(2, 256, 4);
    }
    lemma_hash_digits(bytes, 52);
    assert(text.take(52) =~= text);
    lemma_pow0(32);
    assert(bytes_number(bytes) * 16 / 1 == bytes_number(bytes) * 16);
    assert forall|i: int| 0 <= i < 52 implies ('a' <= #[trigger] text[i] <= 'z' || '2' <= text[i]
        <= '7') by {
        let digit = bytes_number(bytes) * 16 / pow(32, (51 - i) as nat) % 32;
        assert(0 <= digit < 32);
        assert(text[i] == base32_digit(digit));
    }
}

/// The hash that is made of as many bytes as a hash has, has those bytes, and two hashes with the same
/// bytes are the same hash.
pub proof fn law_hash_bytes(hash: BlobHash, other: BlobHash)
    ensures
        hash@.len() == 32,
        hash_of(hash@) == hash,
        hash@ == other@ ==> hash == other,
{
    lemma_hash_of_view(hash);
    lemma_hash_of_view(other);
}

/// A message is its command, in its first byte, and behind it what it carries: nothing, a hash, or a
/// piece of a blob.
pub proof fn law_messages(command: u8, hash: BlobHash, chunk: Seq<u8>)
    ensures
        status_message(command) == seq![command],
        request_message(command, hash@).len() == 33,
        request_message(command, hash@)[0] == command,
        request_message(command, hash@).skip(1) == hash@,
        data_message(chunk).len() == chunk.len() + 1,
        data_message(chunk)[0] == 0x20,
        data_message(chunk).skip(1) == chunk,
{
    assert(status_message(command) =~= seq![command]);
    assert(request_message(command, hash@).skip(1) =~= hash@);
    assert(data_message(chunk).skip(1) =~= chunk);
}

/// Every error that an operation finds itself has its own text, which ends with what the error
/// carries. An error of the network or the store has none.
pub proof fn law_error_text(error: ErrorView)
    ensures
        match error {
            BlobsError::InvalidResponseLength(length) => error_text(error) == Some(
                "Invalid response length from peer "@ + decimal(length as nat),
            ),
            BlobsError::InvalidResponseCode(code) => error_text(error) == Some(
                "Invalid response code from peer "@ + decimal(code as nat),
            ),
            BlobsError::UnableToAsk => error_text(error) == Some("Unable to ask peer"@),
            BlobsError::PeerLacksHash => error_text(error) == Some("Peer does not have hash"@),
            BlobsError::InvalidHash(hash) => error_text(error) == Some(
                "Peer returned invalid hash "@ + hash_text(hash@),
            ),
            BlobsError::HashNotFound => error_text(error) == Some("Unable to find hash"@),
            BlobsError::ReadTag(cause) => error_text(error) == Some(
                "Error reading tags: "@ + cause,
            ),
            BlobsError::TagNotFound(name) => error_text(error) == Some(
                "Tag not found for collection: "@ + name,
            ),
            BlobsError::DecodeCollection(cause) => error_text(error) == Some(
                "Failed to deserialize collection: "@ + cause,
            ),
            BlobsError::FileNotFound => error_text(error) == Some("File not found"@),
            BlobsError::OpenTunnel
            | BlobsError::SendRequest
            | BlobsError::Import
            | BlobsError::Delete
            | BlobsError::LookUp
            | BlobsError::BlobSize
            | BlobsError::ReadBlob
            | BlobsError::ListTags
            | BlobsError::StoreTag
            | BlobsError::EncodeCollection => error_text(error) is None,
        },
{
}

/// A refused message is reported as empty, or with its command in decimal.
pub proof fn law_pump_error_text(command: u8)
    ensures
        pump_error_text(PumpError::EmptyMessage) == "Peer sent empty message"@,
        pump_error_text(PumpError::UnexpectedCommand(command)) == "Peer sent unexpected command "@
            + decimal(command as nat),
{
}

} // verus!
