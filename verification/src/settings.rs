//! The settings handed to the vault at startup: the shared secret that
//! supplies the cipher's initialization vector.

use vstd::prelude::*;
use vstd::utf8::encode_utf8;

verus! {

/// Size of the initialization vector in bytes.
pub const IV_SIZE: usize = 16;

/// Settings of the vault.
#[derive(Debug)]
pub struct SettingsModel {
    /// The shared secret; it has to be exactly [`IV_SIZE`] bytes long.
    pub shared_key: String,
}

impl SettingsModel {
    /// The bytes of the shared secret.
    pub open spec fn shared_key_bytes(&self) -> Seq<u8> {
        encode_utf8(self.shared_key@)
    }

    /// The shared secret has exactly the length the cipher asks for.
    pub open spec fn valid(&self) -> bool {
        self.shared_key_bytes().len() == IV_SIZE
    }

    /// Whether the shared secret has exactly the length the cipher asks
    /// for. Startup has to check this before anything else is done.
    pub fn has_valid_shared_key(&self) -> (ok: bool)
        ensures
            ok == self.valid(),
    {
        self.shared_key.as_str().as_bytes().len() == IV_SIZE
    }

    /// The initialization vector: the first [`IV_SIZE`] bytes of the shared
    /// secret, as they are.
    pub fn get_iv(&self) -> (iv: [u8; IV_SIZE])
        requires
            self.shared_key_bytes().len() >= IV_SIZE,
        ensures
            iv@ == self.shared_key_bytes().take(IV_SIZE as int),
    {
        let mut result = [0u8; IV_SIZE];
        let bytes = self.shared_key.as_str().as_bytes();
        for i in 0..IV_SIZE
            invariant
                bytes@ == self.shared_key_bytes(),
                bytes@.len() >= IV_SIZE,
                forall|j: int| 0 <= j < i ==> result@[j] == bytes@[j],
        {
            result[i] = bytes[i];
        }
        assert(result@ =~= self.shared_key_bytes().take(IV_SIZE as int));
        result
    }
}

} // verus!
