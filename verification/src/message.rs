use vstd::prelude::*;
use vstd::string::*;
use vstd::utf8::*;

use crate::error::CrudError;

verus! {

/// The least length, in bytes, of a message that may be stored.
pub const MIN_MESSAGE_LEN: usize = 10;

/// The length of a text as the board measures it: the number of bytes of its
/// UTF-8 encoding, not the number of its characters.
pub open spec fn byte_len(text: Seq<char>) -> nat {
    encode_utf8(text).len()
}

/// Why a text may not be stored, if it may not: a text without characters is
/// named empty and never short.
pub open spec fn message_fault(text: Seq<char>) -> Option<CrudError> {
    if text.len() == 0 {
        Some(CrudError::YourMessageIsEmpty)
    } else if byte_len(text) < MIN_MESSAGE_LEN {
        Some(CrudError::YourMessageIsTooShort)
    } else {
        None
    }
}

/// A text measures zero bytes exactly when it has no characters.
pub proof fn lemma_byte_len_zero(text: Seq<char>)
    ensures
        byte_len(text) == 0 <==> text.len() == 0,
{
    if text.len() > 0 {
        assert(encode_scalar(text[0] as u32).len() >= 1);
    }
}

/// A text of ASCII characters alone measures as many bytes as it has characters.
pub proof fn lemma_byte_len_ascii(text: Seq<char>)
    requires
        is_ascii_chars(text),
    ensures
        byte_len(text) == text.len(),
{
    is_ascii_chars_encode_utf8(text);
}

/// Tests a text against the rules for stored messages.
pub fn check_message(text: &str) -> (r: Result<(), CrudError>)
    ensures
        r == match message_fault(text@) {
            Some(fault) => Err::<(), CrudError>(fault),
            None => Ok::<(), CrudError>(()),
        },
{
    let n: usize = text.as_bytes().len();
    proof {
        lemma_byte_len_zero(text@);
    }
    if n == 0 {
        Err(CrudError::YourMessageIsEmpty)
    } else if n < MIN_MESSAGE_LEN {
        Err(CrudError::YourMessageIsTooShort)
    } else {
        Ok(())
    }
}

} // verus!
