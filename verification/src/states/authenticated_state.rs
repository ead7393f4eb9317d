//! What exists only after the store has been opened.

use crate::password_utils::AesKey;
use crate::tree::{SecretsTree, TreeModel};
use vstd::prelude::*;

verus! {

/// The key the store was opened with, and the secrets it held.
#[derive(Debug)]
pub struct AuthenticatedState {
    pub aes_key: AesKey,
    pub content: SecretsTree,
}

/// An [`AuthenticatedState`] as plain values.
pub struct SessionView {
    pub key: Seq<u8>,
    pub iv: Seq<u8>,
    pub tree: TreeModel,
}

impl View for AuthenticatedState {
    type V = SessionView;

    open spec fn view(&self) -> SessionView {
        SessionView { key: self.aes_key.key@, iv: self.aes_key.iv@, tree: self.content@ }
    }
}

} // verus!
