//! The visual states the presentation layer needs picked for it: which
//! sidebar button is highlighted, and how table rows are striped. The
//! colors themselves belong to the presentation layer; choosing the
//! state for each widget is view logic and is decided here.

use vstd::prelude::*;

verus! {

use crate::views::Tab;

/// The visual state of one sidebar tab button.
#[derive(Debug, Clone, Copy, PartialEq, Eq, Structural)]
pub enum SidebarButton {
    Deselected,
    Selected,
}

/// The visual state of one table row: the header, or one of the two
/// alternating body shades.
#[derive(Debug, Clone, Copy, PartialEq, Eq, Structural)]
pub enum TableRow {
    Header,
    Darker,
    Lighter,
}

/// A sidebar button is highlighted exactly when its tab is the one shown.
pub fn sidebar_button_style(button_tab: Tab, current_tab: Tab) -> (r: SidebarButton)
    ensures
        r is Selected <==> button_tab == current_tab,
{
    if button_tab == current_tab {
        SidebarButton::Selected
    } else {
        SidebarButton::Deselected
    }
}

/// Body rows alternate, starting light: even positions are lighter,
/// odd ones darker.
pub fn table_row_style(row_index: usize) -> (r: TableRow)
    ensures
        r is Lighter <==> row_index % 2 == 0,
        r is Darker <==> row_index % 2 != 0,
{
    if row_index % 2 == 0 {
        TableRow::Lighter
    } else {
        TableRow::Darker
    }
}

} // verus!
