//! The side panel: the clicks it passes on, and what they select.

use crate::app::{text_of, AppModel, MyApp};
use crate::error::VaultError;
use crate::names::{compare_names, NameOrder};
use crate::tree::{Listing, SecretList};
use vstd::prelude::*;

verus! {

/// A click on the side panel.
#[derive(Clone, Debug, PartialEq, Eq)]
pub enum SizePanelEvent {
    CategorySelected(String),
    SubCategorySelected(Option<String>),
}

impl AppModel {
    /// The side panel passes clicks on only while there is a session and
    /// no edit in flight.
    pub open spec fn side_panel_active(self) -> bool {
        self.session is Some && self.editing is None
    }

    /// The state after a click that the side panel passed on.
    pub open spec fn update(self, event: SizePanelEvent, now: u64) -> Result<AppModel, VaultError> {
        match event {
            SizePanelEvent::CategorySelected(category) => self.select_category(
                Some(category@),
                now,
            ),
            SizePanelEvent::SubCategorySelected(sub_category) => self.select_sub_category(
                text_of(sub_category),
                now,
            ),
        }
    }
}

/// A row of the side panel.
#[derive(Clone, Debug, PartialEq, Eq)]
pub enum PanelRow {
    /// A category; checked if it is the selected one.
    Category { name: String, checked: bool },
    /// A subcategory of the selected category; checked if it is the
    /// selected one.
    SubCategory { name: String, checked: bool },
    /// The line that ends the subcategories of the selected category.
    Separator,
}

/// A [`PanelRow`] as plain values.
pub enum PanelRowView {
    Category { name: Seq<char>, checked: bool },
    SubCategory { name: Seq<char>, checked: bool },
    Separator,
}

impl View for PanelRow {
    type V = PanelRowView;

    open spec fn view(&self) -> PanelRowView {
        match self {
            PanelRow::Category { name, checked } => PanelRowView::Category {
                name: name@,
                checked: *checked,
            },
            PanelRow::SubCategory { name, checked } => PanelRowView::SubCategory {
                name: name@,
                checked: *checked,
            },
            PanelRow::Separator => PanelRowView::Separator,
        }
    }
}

/// Rows as plain values.
pub open spec fn rows_of(rows: Seq<PanelRow>) -> Seq<PanelRowView> {
    Seq::new(rows.len(), |i: int| rows[i]@)
}

/// One row for each subcategory, in name order.
pub open spec fn sub_category_rows(secrets: SecretList, selected: Option<Seq<char>>) -> Seq<
    PanelRowView,
> {
    Seq::new(
        secrets.len(),
        |i: int|
            PanelRowView::SubCategory {
                name: secrets[i].0,
                checked: selected == Some(secrets[i].0),
            },
    )
}

/// The rows of one category: its own, and for the selected category its
/// subcategories and a separator.
pub open spec fn category_rows(
    category: (Seq<char>, SecretList),
    selected_category: Option<Seq<char>>,
    selected_sub_category: Option<Seq<char>>,
) -> Seq<PanelRowView> {
    let open = selected_category == Some(category.0);
    let head = seq![PanelRowView::Category { name: category.0, checked: open }];
    if open {
        head + sub_category_rows(category.1, selected_sub_category).push(PanelRowView::Separator)
    } else {
        head
    }
}

/// The rows of the side panel, top to bottom: the categories in name
/// order, the selected one unfolded.
pub open spec fn panel_rows(
    listing: Listing,
    selected_category: Option<Seq<char>>,
    selected_sub_category: Option<Seq<char>>,
) -> Seq<PanelRowView>
    decreases listing.len(),
{
    if listing.len() == 0 {
        Seq::empty()
    } else {
        panel_rows(listing.drop_last(), selected_category, selected_sub_category) + category_rows(
            listing.last(),
            selected_category,
            selected_sub_category,
        )
    }
}

/// The name of the selected subcategory.
pub open spec fn selected_id(app: AppModel) -> Option<Seq<char>> {
    match app.selected_sub_category {
        Some(selected) => Some(selected.id),
        None => None,
    }
}

/// Whether `name` is the selected name.
fn is_selected(selected: Option<&String>, name: &String) -> (checked: bool)
    ensures
        checked == match selected {
            Some(s) => s@ == name@,
            None => false,
        },
{
    match selected {
        Some(s) => match compare_names(s.as_str(), name.as_str()) {
            NameOrder::Same => true,
            _ => false,
        },
        None => false,
    }
}

/// The rows that the side panel shows; without a session, none.
pub fn rows(app: &MyApp) -> (rows: Vec<PanelRow>)
    ensures
        rows_of(rows@) == panel_rows(app.listing(), app@.selected_category, selected_id(app@)),
{
    let mut rows: Vec<PanelRow> = Vec::new();
    let session = match app.authenticated() {
        Some(session) => session,
        None => {
            assert(rows_of(rows@) =~= Seq::<PanelRowView>::empty());
            return rows;
        },
    };
    let selected_category = app.selected_category();
    let selected_sub_category = match app.selected_sub_category() {
        Some(selected) => Some(&selected.id),
        None => None,
    };
    let entries = session.content.entries();
    let ghost listing = app.listing();
    let ghost sc = app@.selected_category;
    let ghost ss = selected_id(app@);
    assert(rows_of(rows@) =~= panel_rows(listing.take(0), sc, ss));
    let mut i: usize = 0;
    while i < entries.len()
        invariant
            i <= entries@.len(),
            entries.deep_view() == listing,
            sc == match selected_category {
                Some(s) => Some(s@),
                None => None,
            },
            ss == match selected_sub_category {
                Some(s) => Some(s@),
                None => None,
            },
            rows_of(rows@) == panel_rows(listing.take(i as int), sc, ss),
        decreases entries@.len() - i,
    {
        let ghost before = rows_of(rows@);
        let category = &entries[i];
        assert(listing[i as int] == (category.0@, category.1.deep_view()));
        let open = is_selected(selected_category, &category.0);
        rows.push(PanelRow::Category { name: category.0.clone(), checked: open });
        let ghost head = seq![PanelRowView::Category { name: category.0@, checked: open }];
        assert(rows_of(rows@) =~= before + head);
        if open {
            let ghost subs = sub_category_rows(listing[i as int].1, ss);
            let mut j: usize = 0;
            while j < category.1.len()
                invariant
                    j <= category.1@.len(),
                    category.1.deep_view() == listing[i as int].1,
                    subs == sub_category_rows(listing[i as int].1, ss),
                    ss == match selected_sub_category {
                        Some(s) => Some(s@),
                        None => None,
                    },
                    rows_of(rows@) == before + head + subs.take(j as int),
                decreases category.1@.len() - j,
            {
                let ghost sofar = rows_of(rows@);
                let secret = &category.1[j];
                assert(listing[i as int].1[j as int] == (secret.0@, secret.1@));
                let checked = is_selected(selected_sub_category, &secret.0);
                rows.push(PanelRow::SubCategory { name: secret.0.clone(), checked });
                assert(rows_of(rows@) =~= sofar.push(subs[j as int]));
                assert(subs.take(j + 1) =~= subs.take(j as int).push(subs[j as int]));
                assert(rows_of(rows@) =~= before + head + subs.take(j + 1));
                j += 1;
            }
            let ghost sofar = rows_of(rows@);
            rows.push(PanelRow::Separator);
            assert(subs.take(j as int) =~= subs);
            assert(rows_of(rows@) =~= sofar.push(PanelRowView::Separator));
            assert(rows_of(rows@) =~= before + (head + subs.push(PanelRowView::Separator)));
        }
        proof {
            let next = listing.take(i + 1);
            assert(next.drop_last() =~= listing.take(i as int));
            assert(next.last() == listing[i as int]);
            assert(rows_of(rows@) =~= before + category_rows(listing[i as int], sc, ss));
        }
        i += 1;
    }
    assert(listing.take(i as int) =~= listing);
    rows
}

/// What the side panel makes of a click: nothing during an edit and
/// without a session, else the click itself.
pub fn render(app: &MyApp, clicked: Option<SizePanelEvent>) -> (event: Option<SizePanelEvent>)
    ensures
        event == if app@.side_panel_active() {
            clicked
        } else {
            None
        },
{
    if app.edit_state().is_editing() || app.authenticated().is_none() {
        None
    } else {
        clicked
    }
}

impl MyApp {
    /// Applies a click that the side panel passed on: the selection
    /// changes, and the user counts as active.
    pub fn update(&mut self, event: SizePanelEvent, now: u64) -> (result: Result<(), VaultError>)
        requires
            old(self).wf(),
        ensures
            final(self).wf(),
            match old(self)@.update(event, now) {
                Ok(m) => result is Ok && final(self)@ == m,
                Err(e) => result == Err::<(), VaultError>(e) && final(self)@ == old(self)@,
            },
    {
        match event {
            SizePanelEvent::SubCategorySelected(sub_category) => self.select_sub_category(
                sub_category,
                now,
            ),
            SizePanelEvent::CategorySelected(category) => self.select_category(
                Some(category),
                now,
            ),
        }
    }
}

} // verus!
