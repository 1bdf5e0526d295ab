//! Stream encryption for the connection: AES-128 in 8-bit cipher
//! feedback mode, one stateful cipher per direction, both keyed and
//! seeded with the shared secret. The keystream depends only on the key
//! and the ciphertext bytes carried so far, which the ghost state of
//! each stream records.

use vstd::prelude::*;
use crate::Error;

verus! {

/// Holds the outside encryptor object. Verus refuses the declaration of
/// `cfb8::Encryptor` itself (its type parameter carries an outside trait
/// bound), so the object lives opaquely in this struct instead.
#[verifier::external_body]
pub struct RawEncryptor {
    inner: cfb8::Encryptor<aes::Aes128>,
}

/// Holds the outside decryptor object, as [`RawEncryptor`] does.
#[verifier::external_body]
pub struct RawDecryptor {
    inner: cfb8::Decryptor<aes::Aes128>,
}

/// What the AES-128/CFB-8 encryptor emits for `data`, after `history`
/// has already passed over the wire under `key` (key doubling as IV).
pub uninterp spec fn cfb8_encrypt(key: Seq<u8>, history: Seq<u8>, data: Seq<u8>) -> Seq<u8>;

/// What the AES-128/CFB-8 decryptor recovers from `data`, after
/// `history` has already passed over the wire under `key`.
pub uninterp spec fn cfb8_decrypt(key: Seq<u8>, history: Seq<u8>, data: Seq<u8>) -> Seq<u8>;

/// The sending half of the cipher. `sent` records every ciphertext byte
/// emitted so far; the cipher state is a function of the key and those
/// bytes.
pub struct EncryptStream {
    pub raw: RawEncryptor,
    pub key: Ghost<Seq<u8>>,
    pub sent: Ghost<Seq<u8>>,
}

/// The receiving half of the cipher. `seen` records every ciphertext
/// byte consumed so far.
pub struct DecryptStream {
    pub raw: RawDecryptor,
    pub key: Ghost<Seq<u8>>,
    pub seen: Ghost<Seq<u8>>,
}

/// Relies on cipher::KeyIvInit::new_from_slices for cfb8::Encryptor
/// with aes::Aes128: construction succeeds exactly for 16-byte key
/// material (used here as both key and IV).
#[verifier::external_body]
fn new_encryptor_raw(key: &Vec<u8>) -> (r: Result<RawEncryptor, Error>)
    ensures
        (r is Ok) <==> key@.len() == 16,
        r matches Err(e) ==> e == Error::Auth,
{
    match <cfb8::Encryptor<aes::Aes128> as cfb8::cipher::KeyIvInit>::new_from_slices(
        &key[..],
        &key[..],
    ) {
        Ok(inner) => Ok(RawEncryptor { inner }),
        Err(_) => Err(Error::Auth),
    }
}

/// Relies on cipher::KeyIvInit::new_from_slices for cfb8::Decryptor
/// with aes::Aes128: construction succeeds exactly for 16-byte key
/// material (used here as both key and IV).
#[verifier::external_body]
fn new_decryptor_raw(key: &Vec<u8>) -> (r: Result<RawDecryptor, Error>)
    ensures
        (r is Ok) <==> key@.len() == 16,
        r matches Err(e) ==> e == Error::Auth,
{
    match <cfb8::Decryptor<aes::Aes128> as cfb8::cipher::KeyIvInit>::new_from_slices(
        &key[..],
        &key[..],
    ) {
        Ok(inner) => Ok(RawDecryptor { inner }),
        Err(_) => Err(Error::Auth),
    }
}

impl EncryptStream {
    /// A fresh sending cipher; succeeds exactly for a 16-byte secret.
    pub fn new(key: &Vec<u8>) -> (r: Result<EncryptStream, Error>)
        ensures
            (r is Ok) <==> key@.len() == 16,
            r matches Ok(c) ==> c.key@ == key@ && c.sent@ == Seq::<u8>::empty(),
            r matches Err(e) ==> e == Error::Auth,
    {
        match new_encryptor_raw(key) {
            Ok(raw) => Ok(
                EncryptStream { raw, key: Ghost(key@), sent: Ghost(Seq::empty()) },
            ),
            Err(e) => Err(e),
        }
    }

    /// Relies on cfb8::Encryptor::encrypt: in-place, length-preserving,
    /// deterministic in the key and the bytes processed so far, and
    /// inverted by the decryptor holding the same stream state.
    #[verifier::external_body]
    pub fn encrypt(&mut self, data: &mut Vec<u8>)
        ensures
            final(self).key@ == old(self).key@,
            final(data)@ == cfb8_encrypt(old(self).key@, old(self).sent@, old(data)@),
            final(data)@.len() == old(data)@.len(),
            final(self).sent@ == old(self).sent@ + final(data)@,
            cfb8_decrypt(old(self).key@, old(self).sent@, final(data)@) == old(data)@,
    {
        self.raw.inner.encrypt(&mut data[..]);
    }
}

impl DecryptStream {
    /// A fresh receiving cipher; succeeds exactly for a 16-byte secret.
    pub fn new(key: &Vec<u8>) -> (r: Result<DecryptStream, Error>)
        ensures
            (r is Ok) <==> key@.len() == 16,
            r matches Ok(c) ==> c.key@ == key@ && c.seen@ == Seq::<u8>::empty(),
            r matches Err(e) ==> e == Error::Auth,
    {
        match new_decryptor_raw(key) {
            Ok(raw) => Ok(
                DecryptStream { raw, key: Ghost(key@), seen: Ghost(Seq::empty()) },
            ),
            Err(e) => Err(e),
        }
    }

    /// Relies on cfb8::Decryptor::decrypt: in-place, length-preserving
    /// and deterministic in the key and the ciphertext consumed so far.
    #[verifier::external_body]
    pub fn decrypt(&mut self, data: &mut Vec<u8>)
        ensures
            final(self).key@ == old(self).key@,
            final(data)@ == cfb8_decrypt(old(self).key@, old(self).seen@, old(data)@),
            final(data)@.len() == old(data)@.len(),
            final(self).seen@ == old(self).seen@ + old(data)@,
    {
        self.raw.inner.decrypt(&mut data[..]);
    }
}

} // verus!
