//! Assembly of an encrypted note from plain content, a symmetric key, and
//! the recipients it is to be shared with. The key itself comes from the
//! surrounding runtime's randomness; everything from there on is a pure
//! function of its inputs.

use vstd::prelude::*;
use crate::errors::NoteError;
use crate::lists::clone_string_vec;

verus! {

/// A note's metadata as the encryption layer carries it.
pub struct NoteMetadata {
    pub title: String,
    pub owner: String,
    pub shared_with: Vec<String>,
    pub context_id: Option<String>,
}

/// An encrypted note ready for storage: ciphertext, one key share per
/// recipient, and its metadata.
pub struct EncryptedNote {
    pub content: Vec<u8>,
    pub key_shares: Vec<Vec<u8>>,
    pub metadata: NoteMetadata,
}

/// The ciphertext of `s` under `key`: each character's low byte combined
/// with the key byte at its position, the key repeating.
pub open spec fn cipher_bytes(s: Seq<char>, key: Seq<u8>) -> Seq<u8>
    recommends
        key.len() > 0,
{
    Seq::new(s.len(), |i: int| ((s[i] as int % 256) as u8) ^ key[i % (key.len() as int)])
}

/// Encrypts `content` under `key`. An empty key cannot encrypt anything and
/// is rejected.
pub fn encrypt_content(content: &str, key: &[u8]) -> (r: Result<Vec<u8>, NoteError>)
    ensures
        r is Ok <==> key@.len() > 0,
        r is Ok ==> r->Ok_0@ == cipher_bytes(content@, key@),
        r is Err ==> r->Err_0 == NoteError::InvalidAction,
{
    let klen = key.len();
    if klen == 0 {
        return Err(NoteError::InvalidAction);
    }
    let n = content.unicode_len();
    let mut out: Vec<u8> = Vec::new();
    let mut i: usize = 0;
    while i < n
        invariant
            n == content@.len(),
            i <= n,
            klen == key@.len(),
            klen > 0,
            out@.len() == i,
            forall|j: int| 0 <= j < i
                ==> out@[j] == ((content@[j] as int % 256) as u8)
                    ^ key@[j % (klen as int)],
        decreases n - i,
    {
        let c = content.get_char(i);
        let cb: u8 = ((c as u32) % 256) as u8;
        out.push(cb ^ key[i % klen]);
        i = i + 1;
    }
    proof {
        assert(out@ =~= cipher_bytes(content@, key@));
    }
    Ok(out)
}

/// The `i`th share of `key`: the share index followed by the key bytes, so
/// each recipient's share is distinct and the key recoverable from any one.
pub open spec fn key_share_at(key: Seq<u8>, i: int) -> Seq<u8> {
    seq![i as u8] + key
}

/// Splits `key` into `num_shares` indexed shares. The index is one byte, so
/// at most 256 shares can be cut.
pub fn generate_key_shares(key: &[u8], num_shares: usize) -> (r: Result<Vec<Vec<u8>>, NoteError>)
    ensures
        r is Ok <==> num_shares <= 256,
        r is Ok ==> r->Ok_0@.len() == num_shares
            && (forall|i: int| 0 <= i < num_shares
                ==> (#[trigger] r->Ok_0@[i])@ == key_share_at(key@, i)),
        r is Err ==> r->Err_0 == NoteError::InvalidAction,
{
    if num_shares > 256 {
        return Err(NoteError::InvalidAction);
    }
    let mut shares: Vec<Vec<u8>> = Vec::new();
    let mut i: usize = 0;
    while i < num_shares
        invariant
            num_shares <= 256,
            i <= num_shares,
            shares@.len() == i,
            forall|j: int| 0 <= j < i
                ==> (#[trigger] shares@[j])@ == key_share_at(key@, j),
        decreases num_shares - i,
    {
        let mut share: Vec<u8> = Vec::new();
        share.push((i % 256) as u8);
        let mut k: usize = 0;
        let klen = key.len();
        while k < klen
            invariant
                klen == key@.len(),
                k <= klen,
                share@.len() == 1 + k,
                share@[0] == (i % 256) as u8,
                forall|j: int| 0 <= j < k ==> share@[j + 1] == key@[j],
            decreases klen - k,
        {
            share.push(key[k]);
            k = k + 1;
        }
        proof {
            assert(share@ =~= key_share_at(key@, i as int));
        }
        shares.push(share);
        i = i + 1;
    }
    Ok(shares)
}

/// Assembles an encrypted note: the content enciphered under `key`, one key
/// share per recipient, and the metadata binding it to its owner and
/// sharing context. The key and the context id come from the surrounding
/// runtime; everything here is a function of the arguments.
pub fn create_encrypted_note(
    content: &str,
    title: &str,
    recipients: &Vec<String>,
    key: &[u8],
    owner: &str,
    context_id: Option<String>,
) -> (r: Result<EncryptedNote, NoteError>)
    ensures
        r is Ok <==> key@.len() > 0 && recipients@.len() <= 256,
        r is Ok ==> r->Ok_0.content@ == cipher_bytes(content@, key@)
            && r->Ok_0.key_shares@.len() == recipients@.len()
            && (forall|i: int| 0 <= i < recipients@.len()
                ==> (#[trigger] r->Ok_0.key_shares@[i])@ == key_share_at(key@, i))
            && r->Ok_0.metadata.title@ == title@
            && r->Ok_0.metadata.owner@ == owner@
            && r->Ok_0.metadata.shared_with.deep_view() == recipients.deep_view()
            && r->Ok_0.metadata.context_id == context_id,
        r is Err ==> r->Err_0 == NoteError::InvalidAction,
{
    let encrypted = match encrypt_content(content, key) {
        Ok(c) => c,
        Err(e) => {
            return Err(e);
        },
    };
    let key_shares = match generate_key_shares(key, recipients.len()) {
        Ok(s) => s,
        Err(e) => {
            return Err(e);
        },
    };
    Ok(EncryptedNote {
        content: encrypted,
        key_shares,
        metadata: NoteMetadata {
            title: title.to_owned(),
            owner: owner.to_owned(),
            shared_with: clone_string_vec(recipients),
            context_id,
        },
    })
}

} // verus!
