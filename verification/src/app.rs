//! The vault as one owned value: settings, session, selection, editing
//! state and the modal dialog, with every operation on them. The state has
//! a mathematical model, [`AppModel`], and each operation is stated as a
//! function on that model.

use crate::error::VaultError;
use crate::file::{json_of, save_to_file};
use crate::settings::{SettingsModel, IV_SIZE};
use crate::states::authenticate_state::AuthenticateView;
use crate::states::authenticated_state::{AuthenticatedState, SessionView};
use crate::states::dialog_state::{ModalDialog, ModalKind, ModalView, ModalWindowState};
use crate::states::editing_state::EditingState;
use crate::states::selected_sub_category::{SelectedSubCategoryState, SelectedView};
use crate::text_buffer::{delete_from, insert_into, with_deletion, with_insertion};
use crate::tree::{listing_valid, stored_text, tree_of, with_text, Listing, TreeModel};
use vstd::prelude::*;
use vstd::utf8::encode_utf8;

pub mod laws;
pub mod render_bottom_panel;
pub mod render_dialog;
pub mod side_panel;

verus! {

/// The state of the vault as plain values.
pub struct AppModel {
    /// The shared secret of the settings.
    pub shared_key: Seq<char>,
    /// Key and tree; they exist only while authenticated.
    pub session: Option<SessionView>,
    pub selected_category: Option<Seq<char>>,
    /// The selected subcategory with its in-flight text.
    pub selected_sub_category: Option<SelectedView>,
    /// Set by every change that has not been saved.
    pub has_not_saved_data: bool,
    pub modal: ModalView,
    /// The text as it was before the edit in flight, if there is one.
    pub editing: Option<Seq<char>>,
    /// When the user was last active, in microseconds.
    pub last_active: u64,
}

/// The text of an optional string.
pub open spec fn text_of(value: Option<String>) -> Option<Seq<char>> {
    match value {
        Some(text) => Some(text@),
        None => None,
    }
}

impl AppModel {
    /// The tree of the session; without a session, the empty tree.
    pub open spec fn tree(self) -> TreeModel {
        match self.session {
            Some(session) => session.tree,
            None => Map::empty(),
        }
    }

    /// The same state with another tree in its session.
    pub open spec fn with_tree(self, tree: TreeModel) -> AppModel {
        match self.session {
            Some(session) => AppModel {
                session: Some(SessionView { tree: tree, ..session }),
                ..self
            },
            None => self,
        }
    }

    /// What holds of every state of a vault.
    ///
    /// The session exists exactly while the authentication dialog is not
    /// shown. A selected category exists in the tree, a selected
    /// subcategory under the selected category. An edit in flight is an
    /// edit of the selected subcategory, and no dialog is open during it.
    /// The dialogs that work on the selected category are open only while
    /// there is one.
    pub open spec fn valid(self) -> bool {
        &&& encode_utf8(self.shared_key).len() == IV_SIZE
        &&& (self.session is None <==> self.modal is Authenticate)
        &&& (self.session is None ==> !self.has_not_saved_data)
        &&& (self.selected_category matches Some(c) ==> self.tree().contains_key(c))
        &&& (self.selected_sub_category matches Some(s) ==> self.selected_category matches Some(c)
            && stored_text(self.tree(), c, s.id) is Some)
        &&& (self.editing is Some ==> self.selected_sub_category is Some)
        &&& (self.modal is RenameCategory || self.modal is CreateSubCategory
            ==> self.selected_category is Some)
        &&& (!(self.modal is Closed) ==> self.editing is None)
    }

    /// Reconciliation: the in-flight text of the selected subcategory is
    /// written into the tree at its place. Without a selected subcategory
    /// nothing changes.
    pub open spec fn reconciled(self) -> AppModel {
        match (self.selected_category, self.selected_sub_category) {
            (Some(c), Some(s)) => match with_text(self.tree(), c, s.id, s.text) {
                Ok(tree) => self.with_tree(tree),
                Err(_) => self,
            },
            _ => self,
        }
    }

    /// The state after the subcategory selection changes to `id`, whatever
    /// dialog is open. The in-flight text of the subcategory selected
    /// before is reconciled first; then the text of the new one is loaded
    /// from the tree. An edit in flight ends with the selection it belongs
    /// to. A subcategory that does not exist under the selected category is
    /// `NotFound`.
    pub open spec fn sub_category_changed(self, id: Option<Seq<char>>, now: u64) -> Result<
        AppModel,
        VaultError,
    > {
        match id {
            None => Ok(
                AppModel {
                    selected_sub_category: None,
                    editing: None,
                    last_active: now,
                    ..self.reconciled()
                },
            ),
            Some(x) => match self.selected_category {
                Some(c) if stored_text(self.tree(), c, x) is Some => {
                    let r = self.reconciled();
                    Ok(
                        AppModel {
                            selected_sub_category: Some(
                                SelectedView { id: x, text: stored_text(r.tree(), c, x).unwrap() },
                            ),
                            editing: None,
                            last_active: now,
                            ..r
                        },
                    )
                },
                _ => Err(VaultError::NotFound),
            },
        }
    }

    /// The state after the category selection changes to `id`, whatever
    /// dialog is open. The subcategory selection is reconciled and
    /// cleared first. A category that does not exist is `NotFound`.
    pub open spec fn category_changed(self, id: Option<Seq<char>>, now: u64) -> Result<
        AppModel,
        VaultError,
    > {
        match id {
            Some(c) if !self.tree().contains_key(c) => Err(VaultError::NotFound),
            _ => Ok(
                AppModel {
                    selected_category: id,
                    selected_sub_category: None,
                    editing: None,
                    last_active: now,
                    ..self.reconciled()
                },
            ),
        }
    }

    /// While a dialog is open, every operation but the dialog's own is
    /// refused with `InvariantViolation`.
    pub open spec fn guarded(self, outcome: Result<AppModel, VaultError>) -> Result<
        AppModel,
        VaultError,
    > {
        if self.modal is Closed {
            outcome
        } else {
            Err(VaultError::InvariantViolation)
        }
    }

    /// Selecting a subcategory, or none.
    pub open spec fn select_sub_category(self, id: Option<Seq<char>>, now: u64) -> Result<
        AppModel,
        VaultError,
    > {
        self.guarded(self.sub_category_changed(id, now))
    }

    /// Selecting a category, or none.
    pub open spec fn select_category(self, id: Option<Seq<char>>, now: u64) -> Result<
        AppModel,
        VaultError,
    > {
        self.guarded(self.category_changed(id, now))
    }

    /// Beginning an edit: there has to be a selected subcategory and no
    /// edit in flight. The in-flight text is kept as the snapshot.
    pub open spec fn start_editing(self, now: u64) -> Result<AppModel, VaultError> {
        self.guarded(
            match (self.selected_sub_category, self.editing) {
                (Some(s), None) => Ok(
                    AppModel { editing: Some(s.text), last_active: now, ..self },
                ),
                _ => Err(VaultError::InvariantViolation),
            },
        )
    }

    /// The state with another in-flight text, marked as changed. Only an
    /// edit in flight may change the text.
    pub open spec fn text_changed(self, text: Seq<char>) -> Result<AppModel, VaultError> {
        self.guarded(
            match (self.selected_sub_category, self.editing) {
                (Some(s), Some(_)) => Ok(
                    AppModel {
                        selected_sub_category: Some(SelectedView { id: s.id, text: text }),
                        has_not_saved_data: true,
                        ..self
                    },
                ),
                _ => Err(VaultError::InvariantViolation),
            },
        )
    }

    /// Inserting `text` into the in-flight text at a character position.
    pub open spec fn insert_text(self, text: Seq<char>, position: int) -> Result<
        AppModel,
        VaultError,
    > {
        match self.selected_sub_category {
            Some(s) => self.text_changed(with_insertion(s.text, text, position)),
            None => Err(VaultError::InvariantViolation),
        }
    }

    /// Deleting a range of character positions from the in-flight text.
    /// A range that ends before it starts is an `InvariantViolation`.
    pub open spec fn delete_char_range(self, start: int, end: int) -> Result<AppModel, VaultError> {
        match self.selected_sub_category {
            Some(s) if start <= end => self.text_changed(with_deletion(s.text, start, end)),
            _ => Err(VaultError::InvariantViolation),
        }
    }

    /// Ending an edit without changes: refused while there are unsaved
    /// changes, and when no edit is in flight.
    pub open spec fn finish_editing(self) -> Result<AppModel, VaultError> {
        self.guarded(
            if self.editing is Some && !self.has_not_saved_data {
                Ok(AppModel { editing: None, ..self })
            } else {
                Err(VaultError::InvariantViolation)
            },
        )
    }

    /// Cancelling an edit: the in-flight text goes back to the snapshot,
    /// and the state counts as unchanged.
    pub open spec fn cancel_not_saved_data(self) -> Result<AppModel, VaultError> {
        self.guarded(
            match (self.selected_sub_category, self.editing) {
                (Some(s), Some(snapshot)) => Ok(
                    AppModel {
                        selected_sub_category: Some(SelectedView { id: s.id, text: snapshot }),
                        editing: None,
                        has_not_saved_data: false,
                        ..self
                    },
                ),
                _ => Err(VaultError::InvariantViolation),
            },
        )
    }

    /// First half of a save: the state is reconciled, so that the tree
    /// holds what has to be written.
    pub open spec fn prepare_save(self) -> Result<AppModel, VaultError> {
        self.guarded(Ok(self.reconciled()))
    }

    /// Second half of a save, once the write has been tried. After a
    /// successful write nothing is unsaved and no edit is in flight. After
    /// a failed one the state stays as it is, unsaved changes included, and
    /// the outcome is `IoError`.
    pub open spec fn save_to_file(self, written: bool) -> Result<AppModel, VaultError> {
        self.guarded(
            if written {
                Ok(AppModel { has_not_saved_data: false, editing: None, ..self })
            } else {
                Err(VaultError::IoError)
            },
        )
    }

    /// The state after the session has been torn down: no key, no tree, no
    /// selection, and the authentication dialog open again.
    pub open spec fn torn_down(self) -> AppModel {
        AppModel {
            session: None,
            selected_category: None,
            selected_sub_category: None,
            has_not_saved_data: false,
            modal: ModalView::Authenticate(AuthenticateView::fresh()),
            editing: None,
            ..self
        }
    }

    /// The state in which a vault starts.
    pub open spec fn initial(shared_key: Seq<char>, now: u64) -> AppModel {
        AppModel {
            shared_key: shared_key,
            session: None,
            selected_category: None,
            selected_sub_category: None,
            has_not_saved_data: false,
            modal: ModalView::Authenticate(AuthenticateView::fresh()),
            editing: None,
            last_active: now,
        }
    }

    /// The state with `text` typed into the field of the open dialog: the
    /// password of the authentication dialog, the draft of the others.
    pub open spec fn modal_text_set(self, text: Seq<char>) -> AppModel {
        AppModel {
            modal: match self.modal {
                ModalView::Authenticate(state) => ModalView::Authenticate(
                    AuthenticateView { password: text, ..state },
                ),
                ModalView::CreateCategory(_) => ModalView::CreateCategory(text),
                ModalView::RenameCategory(_) => ModalView::RenameCategory(text),
                ModalView::CreateSubCategory(_) => ModalView::CreateSubCategory(text),
                ModalView::Closed => ModalView::Closed,
            },
            ..self
        }
    }
}

/// Reconciliation changes no name: every category and subcategory exists
/// after it exactly if it existed before, so a valid state stays valid.
pub proof fn lemma_reconciled(m: AppModel)
    requires
        m.valid(),
    ensures
        m.reconciled().valid(),
        m.reconciled().tree().dom() == m.tree().dom(),
        forall|c: Seq<char>, x: Seq<char>|
            stored_text(m.reconciled().tree(), c, x) is Some <==> #[trigger] stored_text(
                m.tree(),
                c,
                x,
            ) is Some,
        match (m.selected_category, m.selected_sub_category) {
            (Some(c), Some(s)) => stored_text(m.reconciled().tree(), c, s.id) == Some(s.text),
            _ => m.reconciled() == m,
        },
        forall|c: Seq<char>, x: Seq<char>|
            !(m.selected_category == Some(c) && m.selected_sub_category is Some
                && m.selected_sub_category.unwrap().id == x) ==> #[trigger] stored_text(
                m.reconciled().tree(),
                c,
                x,
            ) == stored_text(m.tree(), c, x),
{
    let r = m.reconciled();
    assert(r.tree().dom() =~= m.tree().dom());
    match (m.selected_category, m.selected_sub_category) {
        (Some(c), Some(s)) => {
            assert(r.tree()[c].dom() =~= m.tree()[c].dom());
        },
        _ => {},
    }
}

/// The vault: settings, session, selection, editing state and dialog.
pub struct MyApp {
    settings: SettingsModel,
    authenticated: Option<AuthenticatedState>,
    selected_category: Option<String>,
    selected_sub_category: Option<SelectedSubCategoryState>,
    has_not_saved_data: bool,
    modal_dialog: ModalDialog,
    edit_state: EditingState,
}

impl View for MyApp {
    type V = AppModel;

    closed spec fn view(&self) -> AppModel {
        AppModel {
            shared_key: self.settings.shared_key@,
            session: match self.authenticated {
                Some(session) => Some(session@),
                None => None,
            },
            selected_category: text_of(self.selected_category),
            selected_sub_category: match self.selected_sub_category {
                Some(selected) => Some(selected@),
                None => None,
            },
            has_not_saved_data: self.has_not_saved_data,
            modal: self.modal_dialog.state()@,
            editing: self.edit_state.snapshot(),
            last_active: self.edit_state.last_active(),
        }
    }
}

impl MyApp {
    /// The categories of the session's tree in name order, each with its
    /// subcategories; empty without a session.
    pub closed spec fn listing(&self) -> Listing {
        match self.authenticated {
            Some(session) => session.content.listing(),
            None => Seq::empty(),
        }
    }

    /// The tree is well formed and the state is valid.
    pub closed spec fn wf(&self) -> bool {
        &&& self.authenticated matches Some(session) ==> session.content.wf()
        &&& self@.valid()
    }

    /// A well-formed vault is in a valid state, and its tree is the one
    /// that its valid listing stands for.
    pub proof fn lemma_wf(&self)
        requires
            self.wf(),
        ensures
            self@.valid(),
            listing_valid(self.listing()),
            self@.tree() == tree_of(self.listing()),
    {
        assert(tree_of(Seq::<(Seq<char>, crate::tree::SecretList)>::empty())
            =~= Map::<Seq<char>, crate::tree::Secrets>::empty());
    }

    /// A vault at startup: not authenticated, asking for the password. The
    /// shared secret of the settings has to have been checked.
    pub fn new(settings: SettingsModel, now: u64) -> (app: Self)
        requires
            settings.valid(),
        ensures
            app.wf(),
            app@ == AppModel::initial(settings.shared_key@, now),
    {
        MyApp {
            settings,
            authenticated: None,
            selected_category: None,
            selected_sub_category: None,
            has_not_saved_data: false,
            modal_dialog: ModalDialog::default(),
            edit_state: EditingState::new(now),
        }
    }

    /// The open dialog.
    pub fn modal_dialog(&self) -> (dialog: &ModalWindowState)
        ensures
            dialog@ == self@.modal,
    {
        self.modal_dialog.get()
    }

    /// Whether no dialog is open.
    pub fn modal_is_closed(&self) -> (closed: bool)
        ensures
            closed == (self@.modal is Closed),
    {
        self.modal_dialog.get().kind() == ModalKind::Closed
    }

    /// The session, while authenticated.
    pub fn authenticated(&self) -> (session: Option<&AuthenticatedState>)
        ensures
            match session {
                Some(s) => self@.session == Some(s@) && s.content.listing() == self.listing(),
                None => self@.session is None,
            },
            self.wf() && session is Some ==> session.unwrap().content.wf(),
    {
        self.authenticated.as_ref()
    }

    /// The selected category.
    pub fn selected_category(&self) -> (category: Option<&String>)
        ensures
            match category {
                Some(c) => self@.selected_category == Some(c@),
                None => self@.selected_category is None,
            },
    {
        self.selected_category.as_ref()
    }

    /// The selected subcategory with its in-flight text.
    pub fn selected_sub_category(&self) -> (selected: Option<&SelectedSubCategoryState>)
        ensures
            match selected {
                Some(s) => self@.selected_sub_category == Some(s@),
                None => self@.selected_sub_category is None,
            },
    {
        self.selected_sub_category.as_ref()
    }

    /// Whether there are changes that have not been saved.
    pub fn has_not_saved_data(&self) -> (unsaved: bool)
        ensures
            unsaved == self@.has_not_saved_data,
    {
        self.has_not_saved_data
    }

    /// The editing state.
    pub fn edit_state(&self) -> (state: &EditingState)
        ensures
            state.snapshot() == self@.editing,
            state.last_active() == self@.last_active,
    {
        &self.edit_state
    }

    /// The settings.
    pub fn settings(&self) -> (settings: &SettingsModel)
        ensures
            settings.shared_key@ == self@.shared_key,
    {
        &self.settings
    }

    /// Takes over what was typed into the field of the open dialog.
    pub fn set_modal_text(&mut self, text: String)
        requires
            old(self).wf(),
        ensures
            final(self).wf(),
            final(self)@ == old(self)@.modal_text_set(text@),
    {
        match self.modal_dialog.get_mut() {
            ModalWindowState::Authenticate(state) => {
                state.password = text;
            },
            ModalWindowState::CreateCategory(draft) => {
                *draft = text;
            },
            ModalWindowState::RenameCategory(draft) => {
                *draft = text;
            },
            ModalWindowState::CreateSubCategory(draft) => {
                *draft = text;
            },
            ModalWindowState::Closed => {},
        }
    }

    /// The persisted text of a subcategory of the selected category.
    pub fn get_selected_content(&self, sub_category_id: &str) -> (text: Option<&str>)
        requires
            self.wf(),
        ensures
            match (self@.selected_category, text) {
                (Some(c), Some(t)) => stored_text(self@.tree(), c, sub_category_id@) == Some(t@),
                (Some(c), None) => stored_text(self@.tree(), c, sub_category_id@) is None,
                (None, Some(_)) => false,
                (None, None) => true,
            },
    {
        let session = match self.authenticated.as_ref() {
            Some(session) => session,
            None => {
                return None;
            },
        };
        let category = match self.selected_category.as_ref() {
            Some(category) => category,
            None => {
                return None;
            },
        };
        match session.content.text(category.as_str(), sub_category_id) {
            Some(text) => Some(text.as_str()),
            None => None,
        }
    }

    /// Reconciles: writes the in-flight text of the selected subcategory
    /// into the tree. This is the only way an edit reaches the tree.
    pub fn update_edited_content(&mut self)
        requires
            old(self).wf(),
        ensures
            final(self).wf(),
            final(self)@ == old(self)@.reconciled(),
    {
        proof {
            lemma_reconciled(self@);
        }
        if let Some(session) = &mut self.authenticated {
            if let Some(category) = &self.selected_category {
                if let Some(selected) = &self.selected_sub_category {
                    let _ = session.content.set_text(
                        category.as_str(),
                        selected.id.as_str(),
                        selected.text.clone(),
                    );
                }
            }
        }
    }

    /// Whether the session's tree holds a category of that name.
    pub fn has_category(&self, name: &str) -> (found: bool)
        requires
            self.wf(),
        ensures
            found == self@.tree().contains_key(name@),
    {
        match self.authenticated.as_ref() {
            Some(session) => session.content.contains_category(name),
            None => false,
        }
    }

    /// Changes the category selection, whatever dialog is open.
    pub(crate) fn change_category(&mut self, category_id: Option<String>, now: u64) -> (result:
        Result<(), VaultError>)
        requires
            old(self).wf(),
            category_id is None ==> !(old(self)@.modal is RenameCategory || old(
                self,
            )@.modal is CreateSubCategory),
        ensures
            final(self).wf(),
            match old(self)@.category_changed(text_of(category_id), now) {
                Ok(m) => result is Ok && final(self)@ == m,
                Err(e) => result == Err::<(), VaultError>(e) && final(self)@ == old(self)@,
            },
    {
        if let Some(category) = &category_id {
            if !self.has_category(category.as_str()) {
                return Err(VaultError::NotFound);
            }
        }
        proof {
            lemma_reconciled(self@);
        }
        self.update_edited_content();
        self.selected_sub_category = None;
        self.edit_state.stop_editing();
        self.edit_state.extend_expiration_time(now);
        self.selected_category = category_id;
        Ok(())
    }

    /// Changes the subcategory selection, whatever dialog is open.
    pub(crate) fn change_sub_category(&mut self, sub_category_id: Option<String>, now: u64) -> (result:
        Result<(), VaultError>)
        requires
            old(self).wf(),
        ensures
            final(self).wf(),
            match old(self)@.sub_category_changed(text_of(sub_category_id), now) {
                Ok(m) => result is Ok && final(self)@ == m,
                Err(e) => result == Err::<(), VaultError>(e) && final(self)@ == old(self)@,
            },
    {
        proof {
            lemma_reconciled(self@);
        }
        match sub_category_id {
            Some(id) => {
                if self.get_selected_content(id.as_str()).is_none() {
                    return Err(VaultError::NotFound);
                }
                self.update_edited_content();
                let text = match self.get_selected_content(id.as_str()) {
                    Some(text) => text.to_owned(),
                    None => String::new(),
                };
                self.selected_sub_category = Some(SelectedSubCategoryState { id, text });
            },
            None => {
                self.update_edited_content();
                self.selected_sub_category = None;
            },
        }
        self.edit_state.stop_editing();
        self.edit_state.extend_expiration_time(now);
        Ok(())
    }

    /// Selects a category, or none. The subcategory selection is
    /// reconciled and cleared first.
    pub fn select_category(&mut self, category_id: Option<String>, now: u64) -> (result: Result<
        (),
        VaultError,
    >)
        requires
            old(self).wf(),
        ensures
            final(self).wf(),
            match old(self)@.select_category(text_of(category_id), now) {
                Ok(m) => result is Ok && final(self)@ == m,
                Err(e) => result == Err::<(), VaultError>(e) && final(self)@ == old(self)@,
            },
    {
        if !self.modal_is_closed() {
            return Err(VaultError::InvariantViolation);
        }
        self.change_category(category_id, now)
    }

    /// Selects a subcategory of the selected category, or none. The
    /// in-flight text of the subcategory selected before is reconciled
    /// before the text of the new one is loaded.
    pub fn select_sub_category(&mut self, sub_category_id: Option<String>, now: u64) -> (result:
        Result<(), VaultError>)
        requires
            old(self).wf(),
        ensures
            final(self).wf(),
            match old(self)@.select_sub_category(text_of(sub_category_id), now) {
                Ok(m) => result is Ok && final(self)@ == m,
                Err(e) => result == Err::<(), VaultError>(e) && final(self)@ == old(self)@,
            },
    {
        if !self.modal_is_closed() {
            return Err(VaultError::InvariantViolation);
        }
        self.change_sub_category(sub_category_id, now)
    }

    /// Begins an edit of the selected subcategory.
    pub fn start_editing(&mut self, now: u64) -> (result: Result<(), VaultError>)
        requires
            old(self).wf(),
        ensures
            final(self).wf(),
            match old(self)@.start_editing(now) {
                Ok(m) => result is Ok && final(self)@ == m,
                Err(e) => result == Err::<(), VaultError>(e) && final(self)@ == old(self)@,
            },
    {
        if !self.modal_is_closed() || self.edit_state.is_editing() {
            return Err(VaultError::InvariantViolation);
        }
        match &self.selected_sub_category {
            Some(selected) => self.edit_state.start_editing(selected.text.clone(), now),
            None => Err(VaultError::InvariantViolation),
        }
    }

    /// Whether the in-flight text may be changed: only during an edit.
    pub fn is_mutable(&self) -> (mutable: bool)
        ensures
            mutable == (self@.editing is Some),
    {
        self.edit_state.is_editing()
    }

    /// The in-flight text; empty without a selected subcategory.
    pub fn as_str(&self) -> (text: &str)
        ensures
            text@ == match self@.selected_sub_category {
                Some(s) => s.text,
                None => Seq::<char>::empty(),
            },
    {
        match &self.selected_sub_category {
            Some(selected) => selected.text.as_str(),
            None => {
                proof {
                    reveal_strlit("");
                }
                assert(""@ =~= Seq::<char>::empty());
                ""
            },
        }
    }

    /// Inserts `text` into the in-flight text at a character position and
    /// returns the number of characters inserted. Refused unless an edit is
    /// in flight.
    pub fn insert_text(&mut self, text: &str, char_index: usize) -> (result: Result<
        usize,
        VaultError,
    >)
        requires
            old(self).wf(),
        ensures
            final(self).wf(),
            match old(self)@.insert_text(text@, char_index as int) {
                Ok(m) => result == Ok::<usize, VaultError>(text@.len() as usize) && final(self)@
                    == m,
                Err(e) => result == Err::<usize, VaultError>(e) && final(self)@ == old(self)@,
            },
    {
        if !self.modal_is_closed() || !self.edit_state.is_editing() {
            return Err(VaultError::InvariantViolation);
        }
        match &mut self.selected_sub_category {
            Some(selected) => {
                let count = insert_into(&mut selected.text, text, char_index);
                self.has_not_saved_data = true;
                Ok(count)
            },
            None => Err(VaultError::InvariantViolation),
        }
    }

    /// Deletes the characters from position `start` up to `end` from the
    /// in-flight text. Refused unless an edit is in flight, and for a range
    /// that ends before it starts.
    pub fn delete_char_range(&mut self, start: usize, end: usize) -> (result: Result<
        (),
        VaultError,
    >)
        requires
            old(self).wf(),
        ensures
            final(self).wf(),
            match old(self)@.delete_char_range(start as int, end as int) {
                Ok(m) => result is Ok && final(self)@ == m,
                Err(e) => result == Err::<(), VaultError>(e) && final(self)@ == old(self)@,
            },
    {
        if !self.modal_is_closed() || !self.edit_state.is_editing() || start > end {
            return Err(VaultError::InvariantViolation);
        }
        match &mut self.selected_sub_category {
            Some(selected) => {
                delete_from(&mut selected.text, start, end);
                self.has_not_saved_data = true;
                Ok(())
            },
            None => Err(VaultError::InvariantViolation),
        }
    }

    /// Ends an edit that changed nothing. Refused while there are unsaved
    /// changes: those have to be saved or cancelled first.
    pub fn finish_editing(&mut self) -> (result: Result<(), VaultError>)
        requires
            old(self).wf(),
        ensures
            final(self).wf(),
            match old(self)@.finish_editing() {
                Ok(m) => result is Ok && final(self)@ == m,
                Err(e) => result == Err::<(), VaultError>(e) && final(self)@ == old(self)@,
            },
    {
        if !self.modal_is_closed() || !self.edit_state.is_editing() || self.has_not_saved_data {
            return Err(VaultError::InvariantViolation);
        }
        self.edit_state.stop_editing();
        Ok(())
    }

    /// Cancels the edit in flight: the in-flight text goes back to what it
    /// was when the edit began.
    pub fn cancel_not_saved_data(&mut self) -> (result: Result<(), VaultError>)
        requires
            old(self).wf(),
        ensures
            final(self).wf(),
            match old(self)@.cancel_not_saved_data() {
                Ok(m) => result is Ok && final(self)@ == m,
                Err(e) => result == Err::<(), VaultError>(e) && final(self)@ == old(self)@,
            },
    {
        if !self.modal_is_closed() || !self.edit_state.is_editing() {
            return Err(VaultError::InvariantViolation);
        }
        let prev_content = self.edit_state.finish_editing();
        if let Some(sub_category_content) = &mut self.selected_sub_category {
            sub_category_content.text = prev_content;
        }
        self.has_not_saved_data = false;
        Ok(())
    }

    /// First half of a save: reconciles, and hands out the bytes that have
    /// to be encrypted and written in place of the store.
    pub fn prepare_save(&mut self) -> (result: Result<Vec<u8>, VaultError>)
        requires
            old(self).wf(),
        ensures
            final(self).wf(),
            match old(self)@.prepare_save() {
                Ok(m) => final(self)@ == m && (result matches Ok(plain) && plain@ == json_of(
                    final(self).listing(),
                )),
                Err(e) => result matches Err(f) && f == e && final(self)@ == old(self)@,
            },
    {
        if !self.modal_is_closed() {
            return Err(VaultError::InvariantViolation);
        }
        self.update_edited_content();
        match &self.authenticated {
            Some(session) => Ok(save_to_file(&session.content)),
            None => Err(VaultError::InvariantViolation),
        }
    }

    /// Second half of a save: takes note of how the write went. `written`
    /// says whether the store now holds the bytes of [`MyApp::prepare_save`].
    pub fn save_to_file(&mut self, written: bool) -> (result: Result<(), VaultError>)
        requires
            old(self).wf(),
        ensures
            final(self).wf(),
            match old(self)@.save_to_file(written) {
                Ok(m) => result is Ok && final(self)@ == m,
                Err(e) => result == Err::<(), VaultError>(e) && final(self)@ == old(self)@,
            },
    {
        if !self.modal_is_closed() {
            return Err(VaultError::InvariantViolation);
        }
        if !written {
            return Err(VaultError::IoError);
        }
        self.edit_state.stop_editing();
        self.has_not_saved_data = false;
        Ok(())
    }
}

} // verus!
