//! The commands of the bottom panel: which of them a state offers, and
//! what each does.

use crate::app::{AppModel, MyApp};
use crate::error::VaultError;
use crate::file::json_of;
use crate::states::dialog_state::{ModalView, ModalWindowState};
use vstd::prelude::*;

verus! {

/// The buttons of the bottom panel.
#[derive(Clone, Copy, Debug, PartialEq, Eq, Structural)]
pub enum BottomPanelButton {
    StopEditing,
    AddCategory,
    RenameCategory,
    AddSubCategory,
    Edit,
    /// Save, pressed and confirmed.
    Save,
    /// Cancel, pressed and confirmed.
    Cancel,
}

impl AppModel {
    /// Whether the panel offers a button. During an edit it offers to
    /// stop, but only while nothing is unsaved; otherwise it offers the
    /// dialogs, as far as a selection is there for them, and to edit the
    /// selected subcategory. Save is offered while something is unsaved,
    /// Cancel while an edit has unsaved changes. Nothing is offered while
    /// a dialog is open.
    pub open spec fn button_shown(self, button: BottomPanelButton) -> bool {
        self.modal is Closed && match button {
            BottomPanelButton::StopEditing => self.editing is Some && !self.has_not_saved_data,
            BottomPanelButton::AddCategory => self.editing is None,
            BottomPanelButton::RenameCategory => self.editing is None
                && self.selected_category is Some,
            BottomPanelButton::AddSubCategory => self.editing is None
                && self.selected_category is Some,
            BottomPanelButton::Edit => self.editing is None && self.selected_sub_category is Some,
            BottomPanelButton::Save => self.has_not_saved_data,
            BottomPanelButton::Cancel => self.has_not_saved_data && self.editing is Some,
        }
    }

    /// The state after a button is pressed. A button that is not offered
    /// is an `InvariantViolation`.
    pub open spec fn render_bottom_panel(self, button: BottomPanelButton, now: u64) -> Result<
        AppModel,
        VaultError,
    > {
        if !self.button_shown(button) {
            Err(VaultError::InvariantViolation)
        } else {
            match button {
                BottomPanelButton::StopEditing => self.finish_editing(),
                BottomPanelButton::AddCategory => Ok(
                    self.with_modal(ModalView::CreateCategory(Seq::empty())),
                ),
                BottomPanelButton::RenameCategory => Ok(
                    self.with_modal(ModalView::RenameCategory(self.selected_category.unwrap())),
                ),
                BottomPanelButton::AddSubCategory => Ok(
                    self.with_modal(ModalView::CreateSubCategory(Seq::empty())),
                ),
                BottomPanelButton::Edit => self.start_editing(now),
                BottomPanelButton::Save => self.prepare_save(),
                BottomPanelButton::Cancel => self.cancel_not_saved_data(),
            }
        }
    }
}

impl MyApp {
    /// Whether the bottom panel offers a button.
    pub fn button_shown(&self, button: BottomPanelButton) -> (shown: bool)
        ensures
            shown == self@.button_shown(button),
    {
        if !self.modal_is_closed() {
            return false;
        }
        let editing = self.edit_state.is_editing();
        match button {
            BottomPanelButton::StopEditing => editing && !self.has_not_saved_data,
            BottomPanelButton::AddCategory => !editing,
            BottomPanelButton::RenameCategory => !editing && self.selected_category.is_some(),
            BottomPanelButton::AddSubCategory => !editing && self.selected_category.is_some(),
            BottomPanelButton::Edit => !editing && self.selected_sub_category.is_some(),
            BottomPanelButton::Save => self.has_not_saved_data,
            BottomPanelButton::Cancel => self.has_not_saved_data && editing,
        }
    }

    /// Carries out a button of the bottom panel. After Save it hands out
    /// the bytes that have to be encrypted and written; how the write went
    /// is then told to [`MyApp::save_to_file`].
    pub fn render_bottom_panel(&mut self, button: BottomPanelButton, now: u64) -> (result: Result<
        Option<Vec<u8>>,
        VaultError,
    >)
        requires
            old(self).wf(),
        ensures
            final(self).wf(),
            match old(self)@.render_bottom_panel(button, now) {
                Ok(m) => final(self)@ == m && match result {
                    Ok(Some(plain)) => button == BottomPanelButton::Save && plain@ == json_of(
                        final(self).listing(),
                    ),
                    Ok(None) => button != BottomPanelButton::Save,
                    Err(_) => false,
                },
                Err(e) => result matches Err(f) && f == e && final(self)@ == old(self)@,
            },
    {
        if !self.button_shown(button) {
            return Err(VaultError::InvariantViolation);
        }
        match button {
            BottomPanelButton::StopEditing => match self.finish_editing() {
                Ok(()) => Ok(None),
                Err(e) => Err(e),
            },
            BottomPanelButton::AddCategory => {
                self.modal_dialog.set(ModalWindowState::CreateCategory(String::new()));
                Ok(None)
            },
            BottomPanelButton::RenameCategory => {
                let name = match &self.selected_category {
                    Some(name) => name.clone(),
                    None => String::new(),
                };
                self.modal_dialog.set(ModalWindowState::RenameCategory(name));
                Ok(None)
            },
            BottomPanelButton::AddSubCategory => {
                self.modal_dialog.set(ModalWindowState::CreateSubCategory(String::new()));
                Ok(None)
            },
            BottomPanelButton::Edit => match self.start_editing(now) {
                Ok(()) => Ok(None),
                Err(e) => Err(e),
            },
            BottomPanelButton::Save => match self.prepare_save() {
                Ok(plain) => Ok(Some(plain)),
                Err(e) => Err(e),
            },
            BottomPanelButton::Cancel => match self.cancel_not_saved_data() {
                Ok(()) => Ok(None),
                Err(e) => Err(e),
            },
        }
    }
}

} // verus!
