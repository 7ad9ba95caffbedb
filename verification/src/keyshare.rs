//! Per-recipient key-share material. The cryptographic primitives themselves
//! are outside this library's scope; the share derivation here is the
//! deterministic binding of a note id and a recipient identity that the
//! record-keeping contracts are stated over.

use vstd::prelude::*;
use crate::errors::NoteError;

verus! {

/// The low byte of each character's code point.
pub open spec fn char_code_bytes(s: Seq<char>) -> Seq<u8> {
    Seq::new(s.len(), |i: int| (s[i] as int % 256) as u8)
}

/// The key-share material handed to `recipient` for `note_id`: the two
/// identifiers' byte forms joined by a separator, binding the share to both.
pub open spec fn key_share_bytes(note_id: Seq<char>, recipient: Seq<char>) -> Seq<u8> {
    char_code_bytes(note_id) + seq![47u8] + char_code_bytes(recipient)
}

/// The low bytes of a string's characters.
fn char_bytes(s: &str) -> (r: Vec<u8>)
    ensures
        r@ == char_code_bytes(s@),
{
    let n = s.unicode_len();
    let mut r: Vec<u8> = Vec::new();
    let mut i: usize = 0;
    while i < n
        invariant
            n == s@.len(),
            i <= n,
            r@.len() == i,
            forall|j: int| 0 <= j < i ==> r@[j] == (s@[j] as int % 256) as u8,
        decreases n - i,
    {
        let c = s.get_char(i);
        let cv: u32 = c as u32;
        r.push((cv % 256) as u8);
        i = i + 1;
    }
    proof {
        assert(r@ =~= char_code_bytes(s@));
    }
    r
}

/// Derives the key-share record content for one recipient of one note.
pub fn derive_key_share(note_id: &str, recipient: &str) -> (r: Vec<u8>)
    ensures
        r@ == key_share_bytes(note_id@, recipient@),
{
    let mut r = char_bytes(note_id);
    r.push(47u8);
    let mut tail = char_bytes(recipient);
    r.append(&mut tail);
    proof {
        assert(r@ =~= key_share_bytes(note_id@, recipient@));
    }
    r
}

/// The textual key-share form handed out for a user, used where the caller
/// wants a printable share.
pub open spec fn key_share_text(user: Seq<char>) -> Seq<char> {
    "share:"@ + user
}

/// Produces the printable key share bound to `user`'s identity.
pub fn generate_key_share_for_user(user: &str) -> (r: Result<String, NoteError>)
    ensures
        r is Ok,
        r->Ok_0@ == key_share_text(user@),
{
    let prefix: String = "share:".to_owned();
    Ok(prefix.concat(user))
}

} // verus!
