//! PUT KEY (GPCS v2.3.1 §11.8, Amendment D §7.2).
use vstd::prelude::*;

use crate::buffers::{capdu_bytes, capdu_new};
use crate::command::{build_from, built, push, BuildError, Capdu};

verus! {

/// Key type of an AES key; its block carries the clear key length.
pub const KEY_TYPE_AES: u8 = 0x88;

/// One encrypted key with its check value.
pub struct KeyBlock<'a> {
    /// `88` for AES, `80` for triple DES.
    pub key_type: u8,
    pub encrypted_key: &'a [u8],
    pub kcv: [u8; 3],
    /// Length of the key before encryption; written for AES only, where it
    /// differs from the ciphertext's length for a 24-byte key.
    pub clear_key_len: u8,
}

/// The content of a [`KeyBlock`].
pub struct KeyBlockFields {
    pub key_type: u8,
    pub encrypted_key: Seq<u8>,
    pub kcv: Seq<u8>,
    pub clear_key_len: u8,
}

impl<'a> View for KeyBlock<'a> {
    type V = KeyBlockFields;

    open spec fn view(&self) -> KeyBlockFields {
        KeyBlockFields {
            key_type: self.key_type,
            encrypted_key: self.encrypted_key@,
            kcv: self.kcv@,
            clear_key_len: self.clear_key_len,
        }
    }
}

/// The octets of one key block.
pub open spec fn key_block_octets(b: KeyBlockFields) -> Seq<u8> {
    let head = if b.key_type == KEY_TYPE_AES {
        seq![b.key_type, (b.encrypted_key.len() + 1) as u8, b.clear_key_len]
    } else {
        seq![b.key_type, b.encrypted_key.len() as u8]
    };
    head + b.encrypted_key + seq![0x03u8] + b.kcv
}

/// The data field of PUT KEY: the new version and the three blocks.
pub open spec fn key_data(
    new_kvn: u8,
    enc: KeyBlockFields,
    mac: KeyBlockFields,
    dek: KeyBlockFields,
) -> Seq<u8> {
    seq![new_kvn] + key_block_octets(enc) + key_block_octets(mac) + key_block_octets(dek)
}

/// Appends one key block.
fn push_block(data: &mut Capdu, block: &KeyBlock<'_>) -> (r: Result<(), BuildError>)
    ensures
        r is Ok ==> capdu_bytes(*final(data)) == capdu_bytes(*old(data)) + key_block_octets(block@),
        r matches Err(e) ==> e == BuildError::Overflow && capdu_bytes(*old(data)).len()
            + key_block_octets(block@).len() > 255,
{
    if block.encrypted_key.len() > 255 {
        return Err(BuildError::Overflow);
    }
    let enc_len: u8 = block.encrypted_key.len() as u8;
    if block.key_type == KEY_TYPE_AES {
        if enc_len == 255 {
            return Err(BuildError::Overflow);
        }
        push(data, &[block.key_type, enc_len + 1, block.clear_key_len])?;
    } else {
        push(data, &[block.key_type, enc_len])?;
    }
    push(data, block.encrypted_key)?;
    push(data, &[0x03])?;
    push(data, &block.kcv)?;
    assert(capdu_bytes(*data) =~= capdu_bytes(*old(data)) + key_block_octets(block@));
    Ok(())
}

/// PUT KEY of a set of three keys under the version `new_kvn`.
pub fn put_key(p1: u8, new_kvn: u8, blocks: &[KeyBlock<'_>; 3]) -> (r: Result<Capdu, BuildError>)
    ensures
        built(
            r,
            0x84,
            0xD8,
            p1,
            0x81,
            key_data(new_kvn, blocks@[0]@, blocks@[1]@, blocks@[2]@),
            true,
        ),
{
    let mut data: Capdu = capdu_new();
    push(&mut data, &[new_kvn])?;
    push_block(&mut data, &blocks[0])?;
    push_block(&mut data, &blocks[1])?;
    push_block(&mut data, &blocks[2])?;
    assert(capdu_bytes(data) =~= key_data(new_kvn, blocks@[0]@, blocks@[1]@, blocks@[2]@));
    build_from(0x84, 0xD8, p1, 0x81, &data, true)
}

} // verus!
