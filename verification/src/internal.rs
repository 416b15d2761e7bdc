//! The rule shared by resource labels and distributed-context entries:
//! printable ASCII text of bounded length.

use crate::error::ValidationError;
use vstd::prelude::*;
use vstd::string::*;
use vstd::utf8::*;

verus! {

/// The longest text, in bytes, that `validate_and_convert_str` accepts.
pub const MAX_LEN: usize = 254;

/// A printable ASCII character: from the space to the tilde.
pub open spec fn is_printable(c: char) -> bool {
    ' ' <= c <= '~'
}

/// Every character is printable ASCII.
pub open spec fn all_printable(text: Seq<char>) -> bool {
    forall|i: int| 0 <= i < text.len() ==> is_printable(#[trigger] text[i])
}

/// The length of the text in bytes, as UTF-8.
pub open spec fn byte_len(text: Seq<char>) -> nat {
    encode_utf8(text).len()
}

/// What is wrong with `text` as printable ASCII of at most `limit` bytes,
/// if anything. Length is judged first.
pub open spec fn text_fault(text: Seq<char>, limit: nat) -> Option<ValidationError> {
    if byte_len(text) > limit {
        Some(ValidationError::TooLong)
    } else if !all_printable(text) {
        Some(ValidationError::InvalidChar)
    } else {
        None
    }
}

/// Printable text takes one byte per character.
pub proof fn lemma_printable_byte_len(text: Seq<char>)
    requires
        all_printable(text),
    ensures
        byte_len(text) == text.len(),
{
    assert(is_ascii_chars(text)) by {
        assert forall|i: int| 0 <= i < text.len() implies '\0' <= #[trigger] text[i]
            <= '\u{7f}' by {
            assert(is_printable(text[i]));
        }
    }
    is_ascii_chars_encode_utf8(text);
}

/// Text is accepted exactly when it is printable and has at most `limit`
/// characters.
pub proof fn lemma_text_fault_none(text: Seq<char>, limit: nat)
    ensures
        text_fault(text, limit) is None <==> (all_printable(text) && text.len() <= limit),
{
    if all_printable(text) {
        lemma_printable_byte_len(text);
    }
}

/// Text with a character outside printable ASCII, such as a control
/// character or one beyond ASCII, is rejected at every limit.
pub proof fn lemma_text_fault_unprintable(text: Seq<char>, limit: nat, at: int)
    requires
        0 <= at < text.len(),
        text[at] < ' ' || text[at] > '~',
    ensures
        text_fault(text, limit) is Some,
{
    assert(!is_printable(text[at]));
}

/// The length of `text` in bytes.
pub fn byte_count(text: &str) -> (r: usize)
    ensures
        r == byte_len(text@),
{
    text.as_bytes().len()
}

/// Whether every character of `text` is printable ASCII.
pub fn is_all_printable(text: &str) -> (r: bool)
    ensures
        r == all_printable(text@),
{
    if !text.is_ascii() {
        proof {
            let i = choose|i: int|
                0 <= i < text@.len() && !('\0' <= #[trigger] text@[i] <= '\u{7f}');
            assert(!is_printable(text@[i]));
        }
        return false;
    }
    proof {
        is_ascii_chars_encode_utf8(text@);
    }
    let n: usize = byte_count(text);
    let mut i: usize = 0;
    while i < n
        invariant
            i <= n,
            n == text@.len(),
            is_ascii(text),
            forall|j: int| 0 <= j < i ==> is_printable(#[trigger] text@[j]),
        decreases n - i,
    {
        let b: u8 = text.get_ascii(i);
        if b < 0x20 || b > 0x7e {
            proof {
                assert(!is_printable(text@[i as int]));
            }
            return false;
        }
        i = i + 1;
    }
    true
}

/// What is wrong with `text` as printable ASCII of at most `limit` bytes,
/// if anything.
pub fn check_text(text: &str, limit: usize) -> (r: Option<ValidationError>)
    ensures
        r == text_fault(text@, limit as nat),
{
    if byte_count(text) > limit {
        Some(ValidationError::TooLong)
    } else if !is_all_printable(text) {
        Some(ValidationError::InvalidChar)
    } else {
        None
    }
}

/// Accepts `to_check` if it is printable ASCII of at most `MAX_LEN` bytes and
/// hands it back unchanged; otherwise says what is wrong with it.
pub fn validate_and_convert_str(to_check: String) -> (r: Result<String, ValidationError>)
    ensures
        match text_fault(to_check@, MAX_LEN as nat) {
            Some(fault) => r == Err::<String, ValidationError>(fault),
            None => r == Ok::<String, ValidationError>(to_check),
        },
{
    match check_text(to_check.as_str(), MAX_LEN) {
        Some(fault) => Err(fault),
        None => Ok(to_check),
    }
}

} // verus!
