//! Batch compression. Every batch is compressed with Zstd at level 1 for
//! storage efficiency; no encryption is applied (the store is embedded, and
//! volume encryption protects data at rest), so the key types only keep the
//! interface of earlier versions.

use vstd::prelude::*;

use crate::store::error::Error;

verus! {

/// Codec identifier for Zstd compression (level 1).
pub const CODEC_ZSTD_L1: i32 = 1;

/// Cipher identifier, kept for schema compatibility; nothing is encrypted.
pub const CIPHER_AES256GCM: i32 = 0;

/// Nonce size in bytes, kept for interface compatibility.
pub const AES_GCM_NONCE_SIZE: usize = 12;

/// Zstd compression level (1 = fastest).
pub const ZSTD_COMPRESSION_LEVEL: i32 = 1;

#[verifier::external_type_specification]
#[verifier::external_body]
pub struct ExIoError(std::io::Error);

/// The Zstd frame that `zstd::encode_all` produces for `data` at `level`
/// (compression is deterministic for a given library version and level).
pub uninterp spec fn spec_zstd_frame(data: Seq<u8>, level: i32) -> Seq<u8>;

/// `zstd::encode_all` of a byte slice at `level`: when it succeeds, the frame
/// of `data` at that level. At level 1 it succeeds: reading a slice and
/// writing into a `Vec` cannot fail, and level 1 is a compression level zstd
/// accepts; only a failure of zstd to allocate memory is left aside. At other
/// levels success is not stated.
#[verifier::external_body]
fn zstd_encode_all(data: &[u8], level: i32) -> (r: Result<Vec<u8>, std::io::Error>)
    ensures
        r matches Ok(out) ==> out@ == spec_zstd_frame(data@, level),
        level == 1 ==> r is Ok,
{
    zstd::encode_all(data, level)
}

/// `zstd::decode_all` of a byte slice. Zstd is lossless: a frame produced at
/// level 1 decodes to the data it was produced from. Of other input nothing
/// is stated.
#[verifier::external_body]
fn zstd_decode_all(data: &[u8]) -> (r: Result<Vec<u8>, std::io::Error>)
    ensures
        (exists|x: Seq<u8>| data@ == #[trigger] spec_zstd_frame(x, 1)) ==> r is Ok,
        r matches Ok(out) ==> forall|x: Seq<u8>| data@ == #[trigger] spec_zstd_frame(x, 1) ==> out@ == x,
{
    zstd::decode_all(data)
}

/// The message of an I/O error (`to_string`); nothing is stated of it.
#[verifier::external_body]
fn io_error_text(e: &std::io::Error) -> String {
    e.to_string()
}

/// Compresses and decompresses batch data.
pub struct BatchCryptor {}

impl BatchCryptor {
    /// A compressor; the key provider is ignored.
    pub fn new<T>(key_provider: T) -> (r: BatchCryptor) {
        BatchCryptor {  }
    }

    /// A compressor; no key is needed, so this always succeeds.
    pub fn from_env() -> (r: Result<BatchCryptor, Error>)
        ensures
            r is Ok,
    {
        Ok(BatchCryptor {  })
    }

    /// Another compressor that works the same.
    pub fn clone_with_same_key(&self) -> (r: BatchCryptor) {
        BatchCryptor {  }
    }

    /// Compresses `plaintext` (Zstd level 1); this always succeeds. The nonce
    /// is all zeros and the batch id is ignored.
    pub fn seal(&self, plaintext: &[u8], batch_id: i64) -> (r: Result<(Vec<u8>, [u8; AES_GCM_NONCE_SIZE]), Error>)
        ensures
            r matches Ok((compressed, nonce)) && compressed@ == spec_zstd_frame(plaintext@, ZSTD_COMPRESSION_LEVEL)
                && forall|i: int| 0 <= i < 12 ==> nonce@[i] == 0u8,
    {
        match zstd_encode_all(plaintext, ZSTD_COMPRESSION_LEVEL) {
            Ok(compressed) => {
                let nonce = [0u8; 12];
                Ok((compressed, nonce))
            },
            Err(e) => Err(Error::Compression(io_error_text(&e))),
        }
    }

    /// Decompresses `compressed`; the nonce and batch id are ignored. What
    /// `seal` produced opens to the data it was sealed from.
    pub fn open(&self, compressed: &[u8], nonce: &[u8; AES_GCM_NONCE_SIZE], batch_id: i64) -> (r: Result<Vec<u8>, Error>)
        ensures
            forall|x: Seq<u8>|
                compressed@ == #[trigger] spec_zstd_frame(x, ZSTD_COMPRESSION_LEVEL) ==> (r matches Ok(p) && p@ == x),
            r matches Err(e) ==> e is Compression,
    {
        match zstd_decode_all(compressed) {
            Ok(plaintext) => Ok(plaintext),
            Err(e) => Err(Error::Compression(io_error_text(&e))),
        }
    }
}

/// The key source of earlier versions; no key is used any more.
pub trait KeyProvider {
    /// The master key.
    fn get_master_key(&self) -> Result<[u8; 32], Error>;

    /// The key of a batch.
    fn derive_batch_key(&self, batch_id: i64, nonce: &[u8; AES_GCM_NONCE_SIZE]) -> Result<[u8; 32], Error>;
}

/// A key provider holding a fixed key.
pub struct EnvKeyProvider {
    key: [u8; 32],
}

impl EnvKeyProvider {
    /// The key the provider holds.
    pub closed spec fn held_key(&self) -> [u8; 32] {
        self.key
    }

    /// A provider of `key`.
    pub fn from_key(key: [u8; 32]) -> (r: EnvKeyProvider)
        ensures
            r.held_key() == key,
    {
        EnvKeyProvider { key }
    }

    /// A provider of the all-zero key; always succeeds.
    pub fn from_env() -> (r: Result<EnvKeyProvider, Error>)
        ensures
            r matches Ok(p) && forall|i: int| 0 <= i < 32 ==> p.held_key()@[i] == 0u8,
    {
        Ok(EnvKeyProvider { key: [0u8; 32] })
    }
}

impl KeyProvider for EnvKeyProvider {
    fn get_master_key(&self) -> (r: Result<[u8; 32], Error>)
        ensures
            r matches Ok(k) && k == self.held_key(),
    {
        Ok(self.key)
    }

    fn derive_batch_key(&self, batch_id: i64, nonce: &[u8; AES_GCM_NONCE_SIZE]) -> (r: Result<[u8; 32], Error>)
        ensures
            r matches Ok(k) && k == self.held_key(),
    {
        Ok(self.key)
    }
}

} // verus!
