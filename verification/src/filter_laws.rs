//! What is done to the conditions of a filter, one at a time.
use crate::lists::group_views;
use crate::pane::{
    chip_column_set, chip_committed, chip_op_set, chip_opened, chip_removed, filter_cleared,
    filter_mode_toggled, join_flipped, ChipView, PaneView,
};
use crate::showing::group_showing;
use crate::window::group_window;
use vstd::prelude::*;

verus! {

broadcast use {group_views, group_window, group_showing};

/// The conditions of the tab that shows.
pub open spec fn chips_of(pane: PaneView) -> Seq<ChipView> {
    pane.tabs[pane.active_tab as int].filter.chips
}

/// A condition that is finished goes to the end of the filter, or over the one
/// that was being changed, with the value that was typed; one that is not
/// finished adds nothing, and takes away the one that was being changed. The
/// others stay as they are, and the composer closes.
pub proof fn a_finished_condition_joins_the_filter(pane: PaneView, complete: bool)
    requires
        pane.active_tab < pane.tabs.len(),
        pane.composer is Some,
    ensures
        ({
            let composer = pane.composer->Some_0;
            let chip = ChipView { value: pane.chip_value, ..composer.chip };
            let was = chips_of(pane);
            let after = chip_committed(pane, complete);
            let chips = chips_of(after);
            &&& after.composer is None
            &&& after.tabs.len() == pane.tabs.len()
            &&& composer.editing is None && complete ==> {
                &&& chips.len() == was.len() + 1
                &&& chips.last() == chip
                &&& forall|i: int| 0 <= i < was.len() ==> chips[i] == was[i]
            }
            &&& composer.editing is None && !complete ==> chips == was
            &&& composer.editing matches Some(index) ==> (index < was.len() ==> {
                &&& complete ==> chips.len() == was.len() && chips[index as int] == chip && (
                forall|i: int| 0 <= i < was.len() && i != index ==> chips[i] == was[i])
                &&& !complete ==> chips == was.remove(index as int)
            })
        }),
{
}

/// Taking a condition off takes that one and no other.
pub proof fn a_condition_is_taken_off(pane: PaneView, index: usize)
    requires
        pane.active_tab < pane.tabs.len(),
    ensures
        ({
            let was = chips_of(pane);
            let after = chip_removed(pane, index);
            &&& index < was.len() ==> chips_of(after).len() == was.len() - 1
            &&& index < was.len() ==> forall|i: int| 0 <= i < index ==> chips_of(after)[i] == was[i]
            &&& index < was.len() ==> forall|i: int|
                index <= i < was.len() - 1 ==> chips_of(after)[i] == was[i + 1]
            &&& index >= was.len() ==> chips_of(after) == was
            &&& (pane.composer matches Some(composer) && composer.editing == Some(index))
                ==> after.composer is None
            &&& (pane.composer matches Some(composer) && composer.editing != Some(index))
                ==> after.composer == pane.composer
        }),
{
}

/// Turning a join over turns `and` into `or` and `or` into `and`, of that
/// condition and no other; twice is not at all.
pub proof fn a_join_is_turned_over(pane: PaneView, index: usize)
    requires
        pane.active_tab < pane.tabs.len(),
        index < chips_of(pane).len(),
    ensures
        ({
            let was = chips_of(pane);
            let chips = chips_of(join_flipped(pane, index));
            &&& chips.len() == was.len()
            &&& was[index as int].join is And ==> chips[index as int].join is Or
            &&& was[index as int].join is Or ==> chips[index as int].join is And
            &&& chips[index as int].column == was[index as int].column
            &&& chips[index as int].op == was[index as int].op
            &&& chips[index as int].value == was[index as int].value
            &&& forall|i: int| 0 <= i < was.len() && i != index ==> chips[i] == was[i]
            &&& chips_of(join_flipped(join_flipped(pane, index), index)) == was
        }),
{
    let was = chips_of(pane);
    let once = join_flipped(pane, index);
    assert(chips_of(join_flipped(once, index)) =~= was);
}

/// Clearing a filter leaves nothing of it, and nothing being written.
pub proof fn a_cleared_filter_filters_nothing(pane: PaneView)
    requires
        pane.active_tab < pane.tabs.len(),
    ensures
        ({
            let after = filter_cleared(pane);
            let filter = after.tabs[pane.active_tab as int].filter;
            &&& filter.chips.len() == 0
            &&& filter.text.len() == 0
            &&& after.clause.len() == 0
            &&& after.composer is None
            &&& filter.raw == pane.tabs[pane.active_tab as int].filter.raw
        }),
{
}

/// Going over to a clause written by hand starts it as what the conditions
/// spell, and the conditions are there again on the way back.
pub proof fn conditions_outlive_the_clause(pane: PaneView, spelled: Seq<char>, again: Seq<char>)
    requires
        pane.active_tab < pane.tabs.len(),
        !pane.tabs[pane.active_tab as int].filter.raw,
    ensures
        ({
            let raw = filter_mode_toggled(pane, spelled);
            let back = filter_mode_toggled(raw, again);
            let at = pane.active_tab as int;
            &&& raw.tabs[at].filter.raw
            &&& raw.tabs[at].filter.text == spelled
            &&& raw.clause == spelled
            &&& raw.tabs[at].filter.chips == pane.tabs[at].filter.chips
            &&& !back.tabs[at].filter.raw
            &&& back.tabs[at].filter.chips == pane.tabs[at].filter.chips
        }),
{
}

/// The composer opens on the condition that was picked, with its value in the
/// box, and otherwise on a new one about the first column that joins the way the
/// last one does.
pub proof fn the_composer_opens_on_what_was_picked(
    pane: PaneView,
    index: Option<usize>,
    column: Seq<char>,
)
    requires
        pane.active_tab < pane.tabs.len(),
    ensures
        ({
            let was = chips_of(pane);
            let after = chip_opened(pane, index, column);
            let composer = after.composer->Some_0;
            &&& after.composer is Some
            &&& composer.editing == index
            &&& after.chip_value == composer.chip.value
            &&& after.tabs == pane.tabs
            &&& (index matches Some(i) && i < was.len()) ==> composer.chip
                == was[index->Some_0 as int]
            &&& index is None ==> {
                &&& composer.chip.column == column
                &&& composer.chip.value.len() == 0
                &&& was.len() > 0 ==> composer.chip.join == was.last().join
                &&& was.len() == 0 ==> composer.chip.join is And
            }
        }),
        pane.composer matches Some(composer) ==> {
            let other = chip_column_set(pane, column);
            &&& other.composer matches Some(next) && next.chip == (ChipView {
                column,
                ..composer.chip
            }) && next.editing == composer.editing
            &&& other.tabs == pane.tabs
        },
{
}

/// Another operator changes the operator of the condition being written, and
/// nothing else.
pub proof fn an_operator_is_picked(pane: PaneView, op: usize)
    ensures
        pane.composer matches Some(composer) ==> {
            let after = chip_op_set(pane, op);
            &&& after.composer matches Some(next) && next.chip == (ChipView {
                op,
                ..composer.chip
            }) && next.editing == composer.editing
            &&& after.tabs == pane.tabs
        },
        pane.composer is None ==> chip_op_set(pane, op) == pane,
{
}

} // verus!
