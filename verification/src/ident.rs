//! Session identifiers: how a fresh one is made, and which ones fit the
//! session-key format of the middleware.

use actix_session::storage::SessionKey;
use vstd::prelude::*;
use vstd::utf8::{encode_utf8, is_ascii_chars, is_ascii_chars_encode_utf8};

verus! {

/// The longest session key that fits into a cookie, in bytes.
pub const MAX_KEY_BYTES: usize = 4064;

/// Whether an identifier can be encoded as a session key: its UTF-8 form is
/// at most `MAX_KEY_BYTES` bytes long.
pub open spec fn key_fits(id: Seq<char>) -> bool {
    encode_utf8(id).len() <= MAX_KEY_BYTES
}

/// A decimal digit or one of the letters `a` to `f`.
pub open spec fn is_lower_hex(c: char) -> bool {
    ('0' <= c && c <= '9') || ('a' <= c && c <= 'f')
}

/// The shape of a generated identifier: 32 lower-case hexadecimal digits in
/// groups of 8, 4, 4, 4 and 12, with a hyphen between the groups, the third
/// group beginning with the version digit `4` and the fourth with one of the
/// variant digits `8`, `9`, `a`, `b`.
pub open spec fn is_session_id(id: Seq<char>) -> bool {
    &&& id.len() == 36
    &&& forall|i: int|
        0 <= i < 36 ==> if i == 8 || i == 13 || i == 18 || i == 23 {
            #[trigger] id[i] == '-'
        } else {
            is_lower_hex(#[trigger] id[i])
        }
    &&& id[14] == '4'
    &&& (id[19] == '8' || id[19] == '9' || id[19] == 'a' || id[19] == 'b')
}

/// An identifier of ASCII characters takes one byte for each of them, and
/// so fits where it has at most `MAX_KEY_BYTES` characters.
pub proof fn lemma_ascii_fits(id: Seq<char>)
    requires
        is_ascii_chars(id),
    ensures
        key_fits(id) <==> id.len() <= MAX_KEY_BYTES,
{
    is_ascii_chars_encode_utf8(id);
}

/// A generated identifier always fits the session-key format.
pub proof fn lemma_session_id_fits(id: Seq<char>)
    requires
        is_session_id(id),
    ensures
        key_fits(id),
{
    assert(is_ascii_chars(id)) by {
        assert forall|i: int| 0 <= i < id.len() implies '\0' <= #[trigger] id[i] <= '\u{7f}' by {
            if i == 8 || i == 13 || i == 18 || i == 23 {
                assert(id[i] == '-');
            } else {
                assert(is_lower_hex(id[i]));
            }
        }
    }
    lemma_ascii_fits(id);
}

/// `uuid::Uuid::new_v4()` rendered by `to_string()`: a random version-4 UUID
/// in its hyphenated lower-case form. Which one comes back is left open; its
/// shape is the same every time. The call panics where the operating system
/// has no random bytes to give.
#[verifier::external_body]
pub(crate) fn new_session_id() -> (id: String)
    ensures
        is_session_id(id@),
{
    uuid::Uuid::new_v4().to_string()
}

/// `SessionKey::try_from(String)` of actix-session, and `String::from` on the
/// key that it made: a key of at most 4064 bytes is accepted and keeps its
/// text, a longer one is refused.
#[verifier::external_body]
pub(crate) fn encode_key(id: String) -> (key: Option<String>)
    ensures
        key is Some <==> key_fits(id@),
        key matches Some(k) ==> k@ == id@,
{
    match SessionKey::try_from(id) {
        Ok(key) => Some(String::from(key)),
        Err(_) => None,
    }
}

} // verus!
