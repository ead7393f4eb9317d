//! Key derivation: a password of any positive length is stretched to the
//! cipher's key size by repeating its bytes.

use crate::error::VaultError;
use crate::settings::IV_SIZE;
use vstd::prelude::*;

verus! {

/// Size of the symmetric key in bytes.
pub const PASSWORD_SIZE: usize = 32;

/// The key for a password: byte `i` of the key is byte `i mod len` of the
/// password, so a short password repeats and a long one is cut.
pub open spec fn stretched(src: Seq<u8>) -> Seq<u8>
    recommends
        src.len() > 0,
{
    Seq::new(PASSWORD_SIZE as nat, |i: int| src[i % src.len() as int])
}

/// Stretches or cuts `src` to exactly [`PASSWORD_SIZE`] bytes.
pub fn make_password_complient(src: &[u8]) -> (result: [u8; PASSWORD_SIZE])
    requires
        src@.len() > 0,
    ensures
        result@ == stretched(src@),
{
    let mut result = [0u8; PASSWORD_SIZE];
    let mut pos: usize = 0;
    let mut result_pos: usize = 0;
    while result_pos < PASSWORD_SIZE
        invariant
            src@.len() > 0,
            result_pos <= PASSWORD_SIZE,
            pos < src@.len(),
            pos == result_pos as int % src@.len() as int,
            forall|i: int| 0 <= i < result_pos ==> result@[i] == src@[i % src@.len() as int],
        decreases PASSWORD_SIZE - result_pos,
    {
        result[result_pos] = src[pos];
        pos += 1;
        result_pos += 1;
        if pos == src.len() {
            pos = 0;
        }
        assert(pos == result_pos as int % src@.len() as int) by (nonlinear_arith)
            requires
                src@.len() > 0,
                result_pos >= 1,
                (pos == 0 && ((result_pos - 1) % src@.len() as int) + 1 == src@.len()) || (pos
                    == ((result_pos - 1) % src@.len() as int) + 1 && pos < src@.len()),
        ;
    }
    assert(result@ =~= stretched(src@));
    result
}

/// A symmetric key with the initialization vector that goes with it.
#[derive(Clone, Copy, Debug, PartialEq, Eq)]
pub struct AesKey {
    pub key: [u8; PASSWORD_SIZE],
    pub iv: [u8; IV_SIZE],
}

/// What [`derive`] returns for a password and a shared secret.
pub open spec fn derived(password: Seq<u8>, shared_secret: Seq<u8>) -> Result<
    (Seq<u8>, Seq<u8>),
    VaultError,
> {
    if password.len() == 0 {
        Err(VaultError::InvalidPassword)
    } else {
        Ok((stretched(password), shared_secret))
    }
}

/// Derives key and initialization vector: the key is the password
/// stretched to [`PASSWORD_SIZE`] bytes, the vector is the shared secret.
/// An empty password is refused with `InvalidPassword`.
pub fn derive(password: &[u8], shared_secret: &[u8; IV_SIZE]) -> (result: Result<
    AesKey,
    VaultError,
>)
    ensures
        match derived(password@, shared_secret@) {
            Ok((key, iv)) => result matches Ok(k) && k.key@ == key && k.iv@ == iv,
            Err(e) => result matches Err(f) && f == e,
        },
{
    if password.len() == 0 {
        return Err(VaultError::InvalidPassword);
    }
    Ok(AesKey { key: make_password_complient(password), iv: *shared_secret })
}

} // verus!
