//! The selected subcategory with the working copy of its text.

use vstd::prelude::*;

verus! {

/// The selected subcategory and its in-flight text: a working copy that
/// reaches the tree only when it is reconciled.
#[derive(Clone, Debug, PartialEq, Eq)]
pub struct SelectedSubCategoryState {
    pub id: String,
    pub text: String,
}

/// A [`SelectedSubCategoryState`] as plain values.
pub struct SelectedView {
    pub id: Seq<char>,
    pub text: Seq<char>,
}

impl View for SelectedSubCategoryState {
    type V = SelectedView;

    open spec fn view(&self) -> SelectedView {
        SelectedView { id: self.id@, text: self.text@ }
    }
}

} // verus!
