use my_secrets::error::VaultError;
use my_secrets::states::authenticate_state::AuthenticateState;
use my_secrets::states::dialog_state::{ModalDialog, ModalWindowState};
use my_secrets::states::editing_state::{EditingState, IDLE_LIMIT_MINUTES, MICROS_PER_MINUTE};

const MINUTE: u64 = 60_000_000;

#[test]
fn dialog_starts_with_authentication() {
    let dialog = ModalDialog::default();
    assert_eq!(
        dialog.get(),
        &ModalWindowState::Authenticate(AuthenticateState {
            error_message: None,
            password: String::new()
        })
    );
}

#[test]
fn dialog_set_and_close() {
    let mut dialog = ModalDialog::default();
    dialog.set(ModalWindowState::CreateCategory("draft".to_string()));
    assert_eq!(dialog.get(), &ModalWindowState::CreateCategory("draft".to_string()));
    dialog.set_none();
    assert_eq!(dialog.get(), &ModalWindowState::Closed);
}

#[test]
fn dialog_is_edited_in_place() {
    let mut dialog = ModalDialog::default();
    dialog.set(ModalWindowState::RenameCategory("work".to_string()));
    if let ModalWindowState::RenameCategory(draft) = dialog.get_mut() {
        draft.push_str("shop");
    }
    assert_eq!(dialog.get(), &ModalWindowState::RenameCategory("workshop".to_string()));
    *dialog.get_mut() = ModalWindowState::Closed;
    assert_eq!(dialog.get(), &ModalWindowState::Closed);
}

#[test]
fn authenticate_state_starts_empty() {
    let state = AuthenticateState::default();
    assert_eq!(state.password, "");
    assert_eq!(state.error_message, None);
}

#[test]
fn limits_are_ten_minutes_in_microseconds() {
    assert_eq!(MICROS_PER_MINUTE, MINUTE);
    assert_eq!(IDLE_LIMIT_MINUTES, 10);
}

#[test]
fn new_editing_state_is_read_only() {
    let state = EditingState::new(5);
    assert!(!state.is_editing());
    assert_eq!(state.last_active_at(), 5);
    assert_eq!(state.editing_value(), "");
}

#[test]
fn idle_session_expires_after_ten_full_minutes() {
    let state = EditingState::new(1_000);
    assert!(!state.activity_expired(1_000));
    assert!(!state.activity_expired(1_000 + 10 * MINUTE - 1));
    assert!(state.activity_expired(1_000 + 10 * MINUTE));
    assert!(state.activity_expired(1_000 + 11 * MINUTE));
    assert!(state.activity_expired(u64::MAX));
}

#[test]
fn clock_that_went_back_does_not_expire() {
    let state = EditingState::new(20 * MINUTE);
    assert!(!state.activity_expired(0));
}

#[test]
fn edit_in_flight_suppresses_expiry() {
    let mut state = EditingState::new(0);
    assert_eq!(state.start_editing("text".to_string(), 7), Ok(()));
    assert!(state.is_editing());
    assert_eq!(state.last_active_at(), 7);
    assert!(!state.activity_expired(7 + 10 * MINUTE));
    assert!(!state.activity_expired(u64::MAX));
    assert_eq!(state.finish_editing(), "text");
    assert!(!state.is_editing());
    assert!(state.activity_expired(7 + 10 * MINUTE));
}

#[test]
fn activity_extends_the_session() {
    let mut state = EditingState::new(0);
    state.extend_expiration_time(5 * MINUTE);
    assert!(!state.activity_expired(10 * MINUTE));
    assert!(state.activity_expired(15 * MINUTE));
}

#[test]
fn editing_value_is_the_snapshot() {
    let mut state = EditingState::new(0);
    assert_eq!(state.start_editing("before".to_string(), 1), Ok(()));
    assert_eq!(state.editing_value(), "before");
    assert_eq!(state.editing_value_mut(), "before");
    state.stop_editing();
    assert!(!state.is_editing());
    assert_eq!(state.editing_value(), "");
}

#[test]
fn second_edit_is_refused_and_keeps_the_snapshot() {
    let mut state = EditingState::new(0);
    assert_eq!(state.start_editing("first".to_string(), 3), Ok(()));
    assert_eq!(
        state.start_editing("second".to_string(), 9),
        Err(VaultError::InvariantViolation)
    );
    assert!(state.is_editing());
    assert_eq!(state.editing_value(), "first");
    assert_eq!(state.last_active_at(), 3);
    assert_eq!(state.finish_editing(), "first");
    assert_eq!(state.start_editing("second".to_string(), 9), Ok(()));
    assert_eq!(state.editing_value(), "second");
    assert_eq!(state.last_active_at(), 9);
}
