//! The dialog flow: what a tick does while a dialog is open, and what
//! becomes of the dialog's outcome.

use crate::app::{AppModel, MyApp};
use crate::error::VaultError;
use crate::file::{load_file, loaded, StoreRead};
use crate::password_utils::{derived, AesKey};
use crate::settings::IV_SIZE;
use crate::states::authenticate_state::AuthenticateView;
use crate::states::authenticated_state::{AuthenticatedState, SessionView};
use crate::states::dialog_state::{ModalKind, ModalView, ModalWindowState};
use crate::states::editing_state::expired;
use crate::tree::{created_category, created_subcategory, renamed_category, tree_of};
use crate::tree::{SecretsTree, TreeModel};
use vstd::prelude::*;
use vstd::string::StringExecFns;
use vstd::utf8::encode_utf8;

verus! {

/// The button that closed a dialog.
#[derive(Clone, Copy, Debug, PartialEq, Eq, Structural)]
pub enum DialogResult {
    Confirm,
    Cancel,
}

/// What the form of the open dialog reports for one tick.
#[derive(Debug)]
pub enum DialogInput {
    /// No button was pressed.
    Idle,
    /// A button of a naming dialog was pressed.
    Clicked(DialogResult),
    /// The password was submitted; this is what was found where the store
    /// is kept, read with the key that [`MyApp::derive_key`] gives for it.
    Submitted(StoreRead),
}

/// The outcome of a tick of the dialog flow.
#[derive(Debug)]
pub enum ShowDialogResult {
    /// The dialog stays open.
    DialogIsBeingRendered,
    /// A category of that name was created.
    CreatedCategory(String),
    /// The selected category is to get that name.
    RenameCategory(String),
    /// A subcategory of that name was created under the selected category.
    CreatedSubCategory(String),
    /// The store was opened.
    Authenticated { aes_key: AesKey, data: SecretsTree },
    /// The dialog was cancelled.
    Cancel,
    /// The dialog was confirmed, and what it asked for was refused.
    Rejected(VaultError),
}

/// A [`ShowDialogResult`] as plain values.
pub enum ShowDialogView {
    DialogIsBeingRendered,
    CreatedCategory(Seq<char>),
    RenameCategory(Seq<char>),
    CreatedSubCategory(Seq<char>),
    Authenticated { key: Seq<u8>, iv: Seq<u8>, data: TreeModel },
    Cancel,
    Rejected(VaultError),
}

impl View for ShowDialogResult {
    type V = ShowDialogView;

    open spec fn view(&self) -> ShowDialogView {
        match self {
            ShowDialogResult::DialogIsBeingRendered => ShowDialogView::DialogIsBeingRendered,
            ShowDialogResult::CreatedCategory(name) => ShowDialogView::CreatedCategory(name@),
            ShowDialogResult::RenameCategory(name) => ShowDialogView::RenameCategory(name@),
            ShowDialogResult::CreatedSubCategory(name) => ShowDialogView::CreatedSubCategory(name@),
            ShowDialogResult::Authenticated { aes_key, data } => ShowDialogView::Authenticated {
                key: aes_key.key@,
                iv: aes_key.iv@,
                data: data@,
            },
            ShowDialogResult::Cancel => ShowDialogView::Cancel,
            ShowDialogResult::Rejected(error) => ShowDialogView::Rejected(*error),
        }
    }
}

impl ShowDialogResult {
    /// A tree that comes with the outcome is well formed.
    pub open spec fn wf(&self) -> bool {
        match self {
            ShowDialogResult::Authenticated { aes_key, data } => data.wf(),
            _ => true,
        }
    }
}

/// The outcome of a tick as plain values.
pub open spec fn outcome_of(result: Option<ShowDialogResult>) -> Option<ShowDialogView> {
    match result {
        Some(r) => Some(r@),
        None => None,
    }
}

/// The message shown after a failed attempt to authenticate.
pub open spec fn invalid_password_message() -> Seq<char> {
    "Invalid password"@
}

impl AppModel {
    /// The same state with another dialog.
    pub open spec fn with_modal(self, modal: ModalView) -> AppModel {
        AppModel { modal: modal, ..self }
    }

    /// What submitting a password does. The key is derived from the
    /// password and the shared secret; with it and a store that opens, the
    /// outcome carries key and tree. An empty password and a store that
    /// does not open leave the dialog open with the same message.
    pub open spec fn password_submitted(self, state: AuthenticateView, read: StoreRead) -> (
        AppModel,
        Option<ShowDialogView>,
    ) {
        match (
            derived(encode_utf8(state.password), encode_utf8(self.shared_key).take(IV_SIZE as int)),
            loaded(read),
        ) {
            (Ok((key, iv)), Ok(listing)) => (
                self,
                Some(ShowDialogView::Authenticated { key: key, iv: iv, data: tree_of(listing) }),
            ),
            _ => (
                self.with_modal(
                    ModalView::Authenticate(
                        AuthenticateView {
                            error_message: Some(invalid_password_message()),
                            ..state
                        },
                    ),
                ),
                Some(ShowDialogView::DialogIsBeingRendered),
            ),
        }
    }

    /// What confirming a naming dialog does. An empty draft keeps the
    /// dialog open. Creation happens at once and marks the state as
    /// changed; a refusal is handed on as the outcome. Renaming is left to
    /// the handling of the outcome.
    pub open spec fn draft_confirmed(self) -> (AppModel, Option<ShowDialogView>) {
        match self.modal {
            ModalView::CreateCategory(draft) if draft.len() > 0 => match created_category(
                self.tree(),
                draft,
            ) {
                Ok(tree) => (
                    AppModel { has_not_saved_data: true, ..self.with_tree(tree) },
                    Some(ShowDialogView::CreatedCategory(draft)),
                ),
                Err(e) => (self, Some(ShowDialogView::Rejected(e))),
            },
            ModalView::RenameCategory(draft) if draft.len() > 0 => (
                self,
                Some(ShowDialogView::RenameCategory(draft)),
            ),
            ModalView::CreateSubCategory(draft) if draft.len() > 0 => match self.selected_category {
                Some(c) => match created_subcategory(self.tree(), c, draft) {
                    Ok(tree) => (
                        AppModel { has_not_saved_data: true, ..self.with_tree(tree) },
                        Some(ShowDialogView::CreatedSubCategory(draft)),
                    ),
                    Err(e) => (self, Some(ShowDialogView::Rejected(e))),
                },
                None => (self, Some(ShowDialogView::Rejected(VaultError::NotFound))),
            },
            _ => (self, Some(ShowDialogView::DialogIsBeingRendered)),
        }
    }

    /// One tick of the dialog flow: the state after it, and its outcome.
    ///
    /// With no dialog open there is no outcome; the tick only checks
    /// whether the session has expired, and if so tears it down. With a
    /// dialog open the outcome says what the form's input came to.
    pub open spec fn render_dialog(self, input: DialogInput, now: u64) -> (
        AppModel,
        Option<ShowDialogView>,
    ) {
        match self.modal {
            ModalView::Closed => (
                if expired(self.editing is Some, self.last_active, now) {
                    self.torn_down()
                } else {
                    self
                },
                None,
            ),
            ModalView::Authenticate(state) => match input {
                DialogInput::Submitted(read) => self.password_submitted(state, read),
                _ => (self, Some(ShowDialogView::DialogIsBeingRendered)),
            },
            _ => match input {
                DialogInput::Clicked(DialogResult::Confirm) => self.draft_confirmed(),
                DialogInput::Clicked(DialogResult::Cancel) => (self, Some(ShowDialogView::Cancel)),
                _ => (self, Some(ShowDialogView::DialogIsBeingRendered)),
            },
        }
    }

    /// The selected category gets the name `new_name`. Whether the tree
    /// allows the rename is decided first; a refused rename changes
    /// nothing. Otherwise the subcategory selection is reconciled and
    /// cleared, the category renamed in the tree and selected under its new
    /// name.
    pub open spec fn category_renamed(self, new_name: Seq<char>, now: u64) -> (
        AppModel,
        Result<(), VaultError>,
    ) {
        match self.selected_category {
            Some(from) => match renamed_category(self.tree(), from, new_name) {
                Ok(_) => {
                    let r = self.reconciled();
                    (
                        AppModel {
                            selected_category: Some(new_name),
                            selected_sub_category: None,
                            has_not_saved_data: true,
                            last_active: now,
                            ..r.with_tree(r.tree().remove(from).insert(new_name, r.tree()[from]))
                        },
                        Ok(()),
                    )
                },
                Err(e) => (self, Err(e)),
            },
            None => (self, Err(VaultError::NotFound)),
        }
    }

    /// What becomes of the outcome of a tick: the state after it, and
    /// whether it could be carried out.
    ///
    /// An outcome closes the dialog it comes from; one that does not fit
    /// the open dialog is an `InvariantViolation` and changes nothing.
    /// Authentication sets up the session. A created category or
    /// subcategory becomes the selection. A rename is carried out here; if
    /// it is refused, closing the dialog is all that happens.
    pub open spec fn handle_dialog_result(self, result: ShowDialogView, now: u64) -> (
        AppModel,
        Result<(), VaultError>,
    ) {
        match (result, self.modal) {
            (ShowDialogView::DialogIsBeingRendered, _) => (self, Ok(())),
            (ShowDialogView::Authenticated { key, iv, data }, ModalView::Authenticate(_)) => (
                AppModel {
                    session: Some(SessionView { key: key, iv: iv, tree: data }),
                    last_active: now,
                    modal: ModalView::Closed,
                    ..self
                },
                Ok(()),
            ),
            (ShowDialogView::CreatedCategory(name), ModalView::CreateCategory(_)) => {
                match self.category_changed(Some(name), now) {
                    Ok(m) => (m.with_modal(ModalView::Closed), Ok(())),
                    Err(e) => (self.with_modal(ModalView::Closed), Err(e)),
                }
            },
            (ShowDialogView::CreatedSubCategory(name), ModalView::CreateSubCategory(_)) => {
                match self.sub_category_changed(Some(name), now) {
                    Ok(m) => (m.with_modal(ModalView::Closed), Ok(())),
                    Err(e) => (self.with_modal(ModalView::Closed), Err(e)),
                }
            },
            (ShowDialogView::RenameCategory(name), ModalView::RenameCategory(_)) => {
                let (m, outcome) = self.category_renamed(name, now);
                (m.with_modal(ModalView::Closed), outcome)
            },
            (ShowDialogView::Cancel, ModalView::CreateCategory(_))
            | (ShowDialogView::Cancel, ModalView::RenameCategory(_))
            | (ShowDialogView::Cancel, ModalView::CreateSubCategory(_))
            | (ShowDialogView::Rejected(_), ModalView::CreateCategory(_))
            | (ShowDialogView::Rejected(_), ModalView::RenameCategory(_))
            | (ShowDialogView::Rejected(_), ModalView::CreateSubCategory(_)) => (
                self.with_modal(ModalView::Closed),
                Ok(()),
            ),
            _ => (self, Err(VaultError::InvariantViolation)),
        }
    }
}

impl MyApp {
    /// The key for the password typed into the authentication dialog.
    pub fn derive_key(&self) -> (result: Result<AesKey, VaultError>)
        requires
            self.wf(),
        ensures
            match self@.modal {
                ModalView::Authenticate(state) => match derived(
                    encode_utf8(state.password),
                    encode_utf8(self@.shared_key).take(IV_SIZE as int),
                ) {
                    Ok((key, iv)) => result matches Ok(k) && k.key@ == key && k.iv@ == iv,
                    Err(e) => result matches Err(f) && f == e,
                },
                _ => result matches Err(f) && f == VaultError::InvariantViolation,
            },
    {
        match self.modal_dialog.get() {
            ModalWindowState::Authenticate(state) => {
                let iv = self.settings.get_iv();
                crate::password_utils::derive(state.password.as_str().as_bytes(), &iv)
            },
            _ => Err(VaultError::InvariantViolation),
        }
    }

    /// Ends the session: key, tree and selection are dropped and the
    /// authentication dialog opens.
    fn tear_down(&mut self)
        requires
            old(self).wf(),
        ensures
            final(self).wf(),
            final(self)@ == old(self)@.torn_down(),
    {
        self.authenticated = None;
        self.selected_category = None;
        self.selected_sub_category = None;
        self.has_not_saved_data = false;
        self.edit_state.stop_editing();
        self.modal_dialog.set(ModalWindowState::Authenticate(Default::default()));
    }

    /// Leaves the authentication dialog open with the message of a failed
    /// attempt.
    fn refuse_password(&mut self)
        requires
            old(self).wf(),
            old(self)@.modal is Authenticate,
        ensures
            final(self).wf(),
            final(self)@ == old(self)@.with_modal(
                ModalView::Authenticate(
                    AuthenticateView {
                        error_message: Some(invalid_password_message()),
                        ..old(self)@.modal->Authenticate_0
                    },
                ),
            ),
    {
        match self.modal_dialog.get_mut() {
            ModalWindowState::Authenticate(state) => {
                state.error_message = Some(String::from_str("Invalid password"));
            },
            _ => {},
        }
    }

    /// Carries out what a confirmed naming dialog asks for.
    fn confirm_draft(&mut self) -> (result: Option<ShowDialogResult>)
        requires
            old(self).wf(),
            !(old(self)@.modal is Closed),
            !(old(self)@.modal is Authenticate),
        ensures
            final(self).wf(),
            final(self)@ == old(self)@.draft_confirmed().0,
            outcome_of(result) == old(self)@.draft_confirmed().1,
            result matches Some(r) ==> r.wf(),
    {
        let kind = self.modal_dialog.get().kind();
        let draft = match self.modal_dialog.get().draft() {
            Some(draft) => draft.clone(),
            None => String::new(),
        };
        if draft.as_str().is_empty() {
            return Some(ShowDialogResult::DialogIsBeingRendered);
        }
        if kind == ModalKind::RenameCategory {
            return Some(ShowDialogResult::RenameCategory(draft));
        }
        let session = match &mut self.authenticated {
            Some(session) => session,
            None => {
                return Some(ShowDialogResult::Rejected(VaultError::NotFound));
            },
        };
        if kind == ModalKind::CreateCategory {
            match session.content.create_category(draft.as_str()) {
                Ok(()) => {
                    self.has_not_saved_data = true;
                    Some(ShowDialogResult::CreatedCategory(draft))
                },
                Err(e) => Some(ShowDialogResult::Rejected(e)),
            }
        } else {
            let under = match &self.selected_category {
                Some(under) => under,
                None => {
                    return Some(ShowDialogResult::Rejected(VaultError::NotFound));
                },
            };
            match session.content.create_subcategory(under.as_str(), draft.as_str()) {
                Ok(()) => {
                    self.has_not_saved_data = true;
                    Some(ShowDialogResult::CreatedSubCategory(draft))
                },
                Err(e) => Some(ShowDialogResult::Rejected(e)),
            }
        }
    }

    /// One tick of the dialog flow. With no dialog open it returns `None`,
    /// after tearing the session down if it has expired; the panels are
    /// then shown. With a dialog open it takes the input of the dialog's
    /// form and returns the outcome, to be handed to
    /// [`MyApp::handle_dialog_result`].
    pub fn render_dialog(&mut self, input: DialogInput, now: u64) -> (result: Option<
        ShowDialogResult,
    >)
        requires
            old(self).wf(),
        ensures
            final(self).wf(),
            final(self)@ == old(self)@.render_dialog(input, now).0,
            outcome_of(result) == old(self)@.render_dialog(input, now).1,
            result matches Some(r) ==> r.wf(),
    {
        match self.modal_dialog.get() {
            ModalWindowState::Closed => {
                if self.edit_state.activity_expired(now) {
                    self.tear_down();
                }
                None
            },
            ModalWindowState::Authenticate(_) => match input {
                DialogInput::Submitted(read) => {
                    match (self.derive_key(), load_file(&read)) {
                        (Ok(aes_key), Ok(data)) => Some(
                            ShowDialogResult::Authenticated { aes_key, data },
                        ),
                        _ => {
                            self.refuse_password();
                            Some(ShowDialogResult::DialogIsBeingRendered)
                        },
                    }
                },
                _ => Some(ShowDialogResult::DialogIsBeingRendered),
            },
            _ => match input {
                DialogInput::Clicked(DialogResult::Confirm) => self.confirm_draft(),
                DialogInput::Clicked(DialogResult::Cancel) => Some(ShowDialogResult::Cancel),
                _ => Some(ShowDialogResult::DialogIsBeingRendered),
            },
        }
    }
    /// Gives the selected category the name `new_name`. Nothing is touched
    /// before it is known that the tree allows the rename.
    fn rename_selected_category(&mut self, new_name: String, now: u64) -> (result: Result<
        (),
        VaultError,
    >)
        requires
            old(self).wf(),
            old(self)@.modal is RenameCategory,
        ensures
            final(self).wf(),
            final(self)@ == old(self)@.category_renamed(new_name@, now).0,
            result == old(self)@.category_renamed(new_name@, now).1,
    {
        proof {
            crate::app::lemma_reconciled(self@);
        }
        let known = match &self.selected_category {
            Some(from) => self.has_category(from.as_str()),
            None => {
                return Err(VaultError::NotFound);
            },
        };
        if new_name.as_str().is_empty() {
            return Err(VaultError::InvariantViolation);
        }
        if !known {
            return Err(VaultError::NotFound);
        }
        if self.has_category(new_name.as_str()) {
            return Err(VaultError::DuplicateName);
        }
        self.update_edited_content();
        let session = match &mut self.authenticated {
            Some(session) => session,
            None => {
                return Err(VaultError::NotFound);
            },
        };
        let from = match &self.selected_category {
            Some(from) => from,
            None => {
                return Err(VaultError::NotFound);
            },
        };
        match session.content.rename_category(from.as_str(), new_name.as_str()) {
            Ok(()) => {
                self.selected_sub_category = None;
                self.selected_category = Some(new_name);
                self.has_not_saved_data = true;
                self.edit_state.extend_expiration_time(now);
                Ok(())
            },
            Err(e) => Err(e),
        }
    }

    /// Carries out the outcome of a tick of the dialog flow and closes the
    /// dialog it comes from.
    pub fn handle_dialog_result(&mut self, dialog_result: ShowDialogResult, now: u64) -> (result:
        Result<(), VaultError>)
        requires
            old(self).wf(),
            dialog_result.wf(),
        ensures
            final(self).wf(),
            final(self)@ == old(self)@.handle_dialog_result(dialog_result@, now).0,
            match old(self)@.handle_dialog_result(dialog_result@, now).1 {
                Ok(_) => result is Ok,
                Err(e) => result == Err::<(), VaultError>(e),
            },
    {
        let open = self.modal_dialog.get().kind();
        match dialog_result {
            ShowDialogResult::DialogIsBeingRendered => Ok(()),
            ShowDialogResult::Authenticated { aes_key, data } => {
                if open != ModalKind::Authenticate {
                    return Err(VaultError::InvariantViolation);
                }
                self.authenticated = Some(AuthenticatedState { aes_key, content: data });
                self.edit_state.extend_expiration_time(now);
                self.modal_dialog.set_none();
                Ok(())
            },
            ShowDialogResult::CreatedSubCategory(sub_category) => {
                if open != ModalKind::CreateSubCategory {
                    return Err(VaultError::InvariantViolation);
                }
                let result = self.change_sub_category(Some(sub_category), now);
                self.modal_dialog.set_none();
                result
            },
            ShowDialogResult::CreatedCategory(category) => {
                if open != ModalKind::CreateCategory {
                    return Err(VaultError::InvariantViolation);
                }
                let result = self.change_category(Some(category), now);
                self.modal_dialog.set_none();
                result
            },
            ShowDialogResult::RenameCategory(new_category_name) => {
                if open != ModalKind::RenameCategory {
                    return Err(VaultError::InvariantViolation);
                }
                let result = self.rename_selected_category(new_category_name, now);
                self.modal_dialog.set_none();
                result
            },
            ShowDialogResult::Cancel | ShowDialogResult::Rejected(_) => {
                if open == ModalKind::Authenticate || open == ModalKind::Closed {
                    return Err(VaultError::InvariantViolation);
                }
                self.modal_dialog.set_none();
                Ok(())
            },
        }
    }
}

} // verus!
