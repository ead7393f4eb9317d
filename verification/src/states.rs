//! The pieces of state that make up a running vault.

pub mod authenticate_state;
pub mod authenticated_state;
pub mod dialog_state;
pub mod editing_state;
pub mod selected_sub_category;
