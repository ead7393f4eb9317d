//! Laws of the vault's state machine, proved of its model.

use crate::app::{lemma_reconciled, AppModel};
use crate::app::render_dialog::{invalid_password_message, DialogInput, ShowDialogView};
use crate::app::render_bottom_panel::BottomPanelButton;
use crate::app::side_panel::SizePanelEvent;
use crate::file::{loaded, StoreRead};
use crate::error::VaultError;
use crate::states::dialog_state::ModalView;
use crate::states::editing_state::{IDLE_LIMIT_MINUTES, MICROS_PER_MINUTE};
use crate::states::selected_sub_category::SelectedView;
use crate::text_buffer::with_insertion;
use crate::tree::stored_text;
use vstd::prelude::*;

verus! {

/// When the subcategory selection changes, the in-flight text of the
/// subcategory selected before is in the tree afterwards, and the in-flight
/// text of the new selection is what the tree holds for it after that.
pub proof fn law_selection_change_reconciles(m: AppModel, next: Seq<char>, now: u64)
    requires
        m.valid(),
        m.selected_category is Some,
        m.selected_sub_category is Some,
        m.select_sub_category(Some(next), now) is Ok,
    ensures
        ({
            let after = m.select_sub_category(Some(next), now).unwrap();
            let category = m.selected_category.unwrap();
            let before = m.selected_sub_category.unwrap();
            &&& stored_text(after.tree(), category, before.id) == Some(before.text)
            &&& after.selected_sub_category == Some(
                SelectedView {
                    id: next,
                    text: stored_text(after.tree(), category, next).unwrap(),
                },
            )
            &&& after.valid()
        }),
{
    lemma_reconciled(m);
}

/// With no dialog open, selecting a subcategory that exists under the
/// selected category succeeds. The category stays selected, and the
/// in-flight text is the text that the tree held for the new selection
/// before; only where the subcategory selected before is selected again is
/// it the in-flight text of before, which reconciliation has written to
/// the tree by then.
pub proof fn law_selecting_loads_persisted_text(m: AppModel, next: Seq<char>, now: u64)
    requires
        m.valid(),
        m.modal is Closed,
        m.selected_category is Some,
        stored_text(m.tree(), m.selected_category.unwrap(), next) is Some,
    ensures
        ({
            let category = m.selected_category.unwrap();
            let result = m.select_sub_category(Some(next), now);
            let persisted = stored_text(m.tree(), category, next).unwrap();
            &&& result is Ok
            &&& result.unwrap().selected_category == Some(category)
            &&& result.unwrap().selected_sub_category == Some(
                SelectedView {
                    id: next,
                    text: match m.selected_sub_category {
                        Some(before) if before.id == next => before.text,
                        _ => persisted,
                    },
                },
            )
            &&& result.unwrap().editing is None
            &&& result.unwrap().last_active == now
        }),
{
    lemma_reconciled(m);
}

/// With the rename dialog open, handling its outcome for a new name that
/// is not empty and not taken succeeds. The new name then holds every
/// subcategory and text that the reconciled tree held under the old name,
/// the old name is gone, every other category is as it was, and the
/// category is selected under its new name.
pub proof fn law_rename_dialog_keeps_content(m: AppModel, new_name: Seq<char>, now: u64)
    requires
        m.valid(),
        m.modal is RenameCategory,
        new_name.len() > 0,
        !m.tree().contains_key(new_name),
    ensures
        ({
            let old_name = m.selected_category.unwrap();
            let before = m.reconciled().tree();
            let (after, outcome) = m.handle_dialog_result(
                ShowDialogView::RenameCategory(new_name),
                now,
            );
            &&& outcome is Ok
            &&& m.selected_sub_category is None ==> before == m.tree()
            &&& after.tree().contains_key(new_name)
            &&& after.tree()[new_name] == before[old_name]
            &&& !after.tree().contains_key(old_name)
            &&& after.tree().dom() == m.tree().dom().remove(old_name).insert(new_name)
            &&& forall|k: Seq<char>|
                k != old_name && k != new_name && m.tree().contains_key(k)
                    ==> #[trigger] after.tree()[k] == m.tree()[k]
            &&& after.selected_category == Some(new_name)
            &&& after.selected_sub_category is None
            &&& after.has_not_saved_data
            &&& after.modal is Closed
        }),
{
    lemma_reconciled(m);
    let old_name = m.selected_category.unwrap();
    let (after, outcome) = m.handle_dialog_result(ShowDialogView::RenameCategory(new_name), now);
    assert(after.tree().dom() =~= m.tree().dom().remove(old_name).insert(new_name));
}

/// With the rename dialog open, a rename that the tree refuses changes
/// nothing but the dialog, which closes: the tree, the selection and its
/// in-flight text are as they were, whatever the in-flight text is. The
/// refusal is the tree's own: an empty name, or a name that is taken.
pub proof fn law_refused_rename_changes_nothing(m: AppModel, new_name: Seq<char>, now: u64)
    requires
        m.valid(),
        m.modal is RenameCategory,
        new_name.len() == 0 || m.tree().contains_key(new_name),
    ensures
        ({
            let (after, outcome) = m.handle_dialog_result(
                ShowDialogView::RenameCategory(new_name),
                now,
            );
            &&& outcome == Err::<(), VaultError>(
                if new_name.len() == 0 {
                    VaultError::InvariantViolation
                } else {
                    VaultError::DuplicateName
                },
            )
            &&& after == m.with_modal(ModalView::Closed)
            &&& after.tree() == m.tree()
            &&& after.selected_category == m.selected_category
            &&& after.selected_sub_category == m.selected_sub_category
            &&& after.has_not_saved_data == m.has_not_saved_data
        }),
{
}

/// Selecting a subcategory, editing its text and selecting another one
/// leaves the edited text in the tree at the place of the first.
pub proof fn law_edit_reaches_tree(
    m: AppModel,
    first: Seq<char>,
    inserted: Seq<char>,
    position: int,
    second: Seq<char>,
    now: u64,
)
    requires
        m.valid(),
        m.select_sub_category(Some(first), now) is Ok,
        m.select_sub_category(Some(first), now).unwrap().start_editing(now) is Ok,
        m.select_sub_category(Some(first), now).unwrap().start_editing(now).unwrap().insert_text(
            inserted,
            position,
        ) is Ok,
        m.select_sub_category(Some(first), now).unwrap().start_editing(now).unwrap().insert_text(
            inserted,
            position,
        ).unwrap().select_sub_category(Some(second), now) is Ok,
    ensures
        ({
            let selected = m.select_sub_category(Some(first), now).unwrap();
            let edited = selected.start_editing(now).unwrap().insert_text(
                inserted,
                position,
            ).unwrap();
            let after = edited.select_sub_category(Some(second), now).unwrap();
            let category = m.selected_category.unwrap();
            let loaded = selected.selected_sub_category.unwrap().text;
            &&& Some(loaded) == stored_text(selected.tree(), category, first)
            &&& stored_text(after.tree(), category, first) == Some(
                with_insertion(loaded, inserted, position),
            )
            &&& after.selected_sub_category.unwrap().text == stored_text(
                after.tree(),
                category,
                second,
            ).unwrap()
        }),
{
    lemma_reconciled(m);
    let selected = m.select_sub_category(Some(first), now).unwrap();
    assert(selected.valid());
    let editing = selected.start_editing(now).unwrap();
    assert(editing.valid());
    let edited = editing.insert_text(inserted, position).unwrap();
    assert(edited.valid());
    lemma_reconciled(edited);
}

/// Once an edit has changed the text, it cannot simply be ended: ending
/// it is an `InvariantViolation` until the change is saved or cancelled.
pub proof fn law_changed_edit_cannot_finish(
    m: AppModel,
    inserted: Seq<char>,
    position: int,
    now: u64,
)
    requires
        m.start_editing(now) is Ok,
        m.start_editing(now).unwrap().insert_text(inserted, position) is Ok,
    ensures
        ({
            let edited = m.start_editing(now).unwrap().insert_text(inserted, position).unwrap();
            &&& edited.has_not_saved_data
            &&& edited.finish_editing() == Err::<AppModel, VaultError>(
                VaultError::InvariantViolation,
            )
            &&& edited.cancel_not_saved_data() is Ok
            &&& edited.cancel_not_saved_data().unwrap().selected_sub_category
                == m.selected_sub_category
            &&& !edited.cancel_not_saved_data().unwrap().has_not_saved_data
            &&& edited.save_to_file(true) is Ok
            &&& !edited.save_to_file(true).unwrap().has_not_saved_data
            &&& edited.save_to_file(false) == Err::<AppModel, VaultError>(VaultError::IoError)
        }),
{
}

/// With unsaved changes no edit can be ended, in whatever state.
pub proof fn law_finish_editing_needs_saved(m: AppModel)
    requires
        m.has_not_saved_data,
    ensures
        m.finish_editing() == Err::<AppModel, VaultError>(VaultError::InvariantViolation),
{
}

/// A session that has been idle for the limit is torn down by the next
/// tick if no edit is in flight, and left as it is if one is.
pub proof fn law_idle_session_expires(m: AppModel, input: DialogInput, now: u64)
    requires
        m.valid(),
        m.modal is Closed,
        now - m.last_active >= IDLE_LIMIT_MINUTES * MICROS_PER_MINUTE,
    ensures
        m.editing is None ==> m.render_dialog(input, now).0 == m.torn_down(),
        m.editing is None ==> m.render_dialog(input, now).0.session is None && m.render_dialog(
            input,
            now,
        ).0.modal is Authenticate,
        m.editing is Some ==> m.render_dialog(input, now).0 == m,
        m.render_dialog(input, now).0.valid(),
{
    assert((now - m.last_active) / (MICROS_PER_MINUTE as int) >= 10) by (nonlinear_arith)
        requires
            now - m.last_active >= 10 * MICROS_PER_MINUTE,
            MICROS_PER_MINUTE == 60_000_000,
    ;
}

/// Before the limit no tick ends the session.
pub proof fn law_active_session_stays(m: AppModel, input: DialogInput, now: u64)
    requires
        m.modal is Closed,
        now - m.last_active < IDLE_LIMIT_MINUTES * MICROS_PER_MINUTE,
    ensures
        m.render_dialog(input, now).0 == m,
{
    if now >= m.last_active {
        assert((now - m.last_active) / (MICROS_PER_MINUTE as int) < 10) by (nonlinear_arith)
            requires
                0 <= now - m.last_active < 10 * MICROS_PER_MINUTE,
                MICROS_PER_MINUTE == 60_000_000,
        ;
    }
}

/// Every operation takes a valid state to a valid state. So in every state
/// that a vault reaches, a selected subcategory has its category selected
/// and exists under it, an edit in flight has its subcategory selected, and
/// there is a tree exactly while the authentication dialog is not shown.
pub proof fn law_state_stays_valid(
    m: AppModel,
    id: Option<Seq<char>>,
    text: Seq<char>,
    start: int,
    end: int,
    written: bool,
    input: DialogInput,
    outcome: ShowDialogView,
    button: BottomPanelButton,
    event: SizePanelEvent,
    now: u64,
)
    requires
        m.valid(),
    ensures
        m.reconciled().valid(),
        m.torn_down().valid(),
        m.modal_text_set(text).valid(),
        m.select_category(id, now) is Ok ==> m.select_category(id, now).unwrap().valid(),
        m.select_sub_category(id, now) is Ok ==> m.select_sub_category(id, now).unwrap().valid(),
        m.start_editing(now) is Ok ==> m.start_editing(now).unwrap().valid(),
        m.insert_text(text, start) is Ok ==> m.insert_text(text, start).unwrap().valid(),
        m.delete_char_range(start, end) is Ok ==> m.delete_char_range(start, end).unwrap().valid(),
        m.finish_editing() is Ok ==> m.finish_editing().unwrap().valid(),
        m.cancel_not_saved_data() is Ok ==> m.cancel_not_saved_data().unwrap().valid(),
        m.prepare_save() is Ok ==> m.prepare_save().unwrap().valid(),
        m.save_to_file(written) is Ok ==> m.save_to_file(written).unwrap().valid(),
        m.update(event, now) is Ok ==> m.update(event, now).unwrap().valid(),
        m.render_bottom_panel(button, now) is Ok ==> m.render_bottom_panel(
            button,
            now,
        ).unwrap().valid(),
        m.render_dialog(input, now).0.valid(),
        m.handle_dialog_result(outcome, now).0.valid(),
{
    lemma_reconciled(m);
}

/// A store that does not open gives no session, whatever password was
/// typed: the authentication dialog stays open, keeps the password and
/// shows its message.
pub proof fn law_unopened_store_gives_no_session(m: AppModel, read: StoreRead, now: u64)
    requires
        m.valid(),
        m.modal is Authenticate,
        loaded(read) is Err,
    ensures
        ({
            let (after, outcome) = m.render_dialog(DialogInput::Submitted(read), now);
            &&& outcome == Some(ShowDialogView::DialogIsBeingRendered)
            &&& after.session is None
            &&& after.modal matches ModalView::Authenticate(state) && state.error_message == Some(
                invalid_password_message(),
            ) && state.password == m.modal->Authenticate_0.password
            &&& after.shared_key == m.shared_key
            &&& after.selected_category is None
            &&& after.selected_sub_category is None
            &&& after.valid()
        }),
{
}

/// A store that the key does not decrypt and a store whose contents are
/// no tree cannot be told apart by what the vault does.
pub proof fn law_failures_look_alike(m: AppModel, damaged: StoreRead, now: u64)
    requires
        loaded(damaged) is Err,
    ensures
        m.render_dialog(DialogInput::Submitted(damaged), now) == m.render_dialog(
            DialogInput::Submitted(StoreRead::Undecryptable),
            now,
        ),
{
}

/// While a dialog is open, the operations on selection, text and store
/// are all refused.
pub proof fn law_open_dialog_refuses_operations(m: AppModel, id: Option<Seq<char>>, now: u64)
    requires
        !(m.modal is Closed),
    ensures
        m.select_category(id, now) is Err,
        m.select_sub_category(id, now) is Err,
        m.start_editing(now) is Err,
        m.finish_editing() is Err,
        m.cancel_not_saved_data() is Err,
        m.prepare_save() is Err,
        m.save_to_file(true) is Err,
        forall|text: Seq<char>, position: int| (#[trigger] m.insert_text(text, position)) is Err,
        forall|start: int, end: int| (#[trigger] m.delete_char_range(start, end)) is Err,
{
}

/// A tree exists exactly while the authentication dialog is not shown: a
/// valid state without a session has no selection, no edit and nothing
/// unsaved.
pub proof fn law_no_tree_before_authentication(m: AppModel)
    requires
        m.valid(),
        m.session is None,
    ensures
        m.modal is Authenticate,
        m.selected_category is None,
        m.selected_sub_category is None,
        m.editing is None,
        !m.has_not_saved_data,
{
}

} // verus!
