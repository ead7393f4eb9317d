//! The modal dialog that is open, if any.

use crate::states::authenticate_state::{AuthenticateState, AuthenticateView};
use vstd::prelude::*;

verus! {

/// The modal dialogs. Exactly one value is current at any time; `Closed`
/// means that no dialog is open.
#[derive(Clone, Debug, PartialEq, Eq)]
pub enum ModalWindowState {
    Authenticate(AuthenticateState),
    CreateCategory(String),
    RenameCategory(String),
    CreateSubCategory(String),
    Closed,
}

/// A [`ModalWindowState`] as plain values.
pub enum ModalView {
    Authenticate(AuthenticateView),
    CreateCategory(Seq<char>),
    RenameCategory(Seq<char>),
    CreateSubCategory(Seq<char>),
    Closed,
}

impl View for ModalWindowState {
    type V = ModalView;

    open spec fn view(&self) -> ModalView {
        match self {
            ModalWindowState::Authenticate(state) => ModalView::Authenticate(state@),
            ModalWindowState::CreateCategory(draft) => ModalView::CreateCategory(draft@),
            ModalWindowState::RenameCategory(draft) => ModalView::RenameCategory(draft@),
            ModalWindowState::CreateSubCategory(draft) => ModalView::CreateSubCategory(draft@),
            ModalWindowState::Closed => ModalView::Closed,
        }
    }
}

/// Which dialog is open, without what it holds.
#[derive(Clone, Copy, Debug, PartialEq, Eq, Structural)]
pub enum ModalKind {
    Authenticate,
    CreateCategory,
    RenameCategory,
    CreateSubCategory,
    Closed,
}

impl ModalView {
    /// Which dialog this is.
    pub open spec fn kind(self) -> ModalKind {
        match self {
            ModalView::Authenticate(_) => ModalKind::Authenticate,
            ModalView::CreateCategory(_) => ModalKind::CreateCategory,
            ModalView::RenameCategory(_) => ModalKind::RenameCategory,
            ModalView::CreateSubCategory(_) => ModalKind::CreateSubCategory,
            ModalView::Closed => ModalKind::Closed,
        }
    }

    /// The draft of a naming dialog.
    pub open spec fn draft(self) -> Option<Seq<char>> {
        match self {
            ModalView::CreateCategory(draft) => Some(draft),
            ModalView::RenameCategory(draft) => Some(draft),
            ModalView::CreateSubCategory(draft) => Some(draft),
            _ => None,
        }
    }
}

impl ModalWindowState {
    /// Which dialog this is.
    pub fn kind(&self) -> (kind: ModalKind)
        ensures
            kind == self@.kind(),
    {
        match self {
            ModalWindowState::Authenticate(_) => ModalKind::Authenticate,
            ModalWindowState::CreateCategory(_) => ModalKind::CreateCategory,
            ModalWindowState::RenameCategory(_) => ModalKind::RenameCategory,
            ModalWindowState::CreateSubCategory(_) => ModalKind::CreateSubCategory,
            ModalWindowState::Closed => ModalKind::Closed,
        }
    }

    /// The draft of a naming dialog.
    pub fn draft(&self) -> (draft: Option<&String>)
        ensures
            match draft {
                Some(d) => self@.draft() == Some(d@),
                None => self@.draft() is None,
            },
    {
        match self {
            ModalWindowState::CreateCategory(draft) => Some(draft),
            ModalWindowState::RenameCategory(draft) => Some(draft),
            ModalWindowState::CreateSubCategory(draft) => Some(draft),
            _ => None,
        }
    }
}

/// Holder of the current modal dialog.
pub struct ModalDialog {
    inner: ModalWindowState,
}

impl ModalDialog {
    /// The current dialog.
    pub closed spec fn state(&self) -> ModalWindowState {
        self.inner
    }

    /// The current dialog.
    pub fn get(&self) -> (state: &ModalWindowState)
        ensures
            *state == self.state(),
    {
        &self.inner
    }

    /// The current dialog, for the form that is shown to edit it.
    pub fn get_mut(&mut self) -> (state: &mut ModalWindowState)
        ensures
            *state == old(self).state(),
            final(self).state() == *final(state),
    {
        &mut self.inner
    }

    /// Makes `value` the current dialog.
    pub fn set(&mut self, value: ModalWindowState)
        ensures
            final(self).state() == value,
    {
        self.inner = value;
    }

    /// Closes the dialog.
    pub fn set_none(&mut self)
        ensures
            final(self).state() == ModalWindowState::Closed,
    {
        self.inner = ModalWindowState::Closed;
    }
}

impl Default for ModalDialog {
    /// A vault starts by asking for the password.
    fn default() -> (dialog: Self)
        ensures
            dialog.state()@ == ModalView::Authenticate(AuthenticateView::fresh()),
    {
        ModalDialog { inner: ModalWindowState::Authenticate(AuthenticateState::default()) }
    }
}

} // verus!
