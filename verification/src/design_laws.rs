//! What becomes of a table's design, from the tab it is drawn in to the
//! transaction it is sent as.
use crate::catalog::catalog_has;
use crate::designing::{
    design_tab, designs, editor_reported, preview_cancelled, structure_committed, structure_opened,
    structure_previewed, table_started, StructureEvent,
};
use crate::lists::{first, group_views, lemma_first_bounds};
use crate::outcome::{asks, asks_only, grows, lemma_asks, lemma_grows};
use crate::pane::{with_tab, TabView};
use crate::pane_laws::{a_tab_that_is_shown_is_in_front, lemma_saved, same_subject};
use crate::running_laws::on_a_server;
use crate::showing::{group_showing, session_saved, shown};
use crate::structure::EditorView;
use crate::tabbing::tab_added;
use crate::window::{
    active_pane, catalog, described, group_window, then_do, well_formed, with_active, Act,
    OrderView, PreviewView, WindowView,
};
use vstd::prelude::*;

verus! {

broadcast use {group_views, group_window, group_showing};

/// A table is designed in one tab: one that is open in the pane is shown, one
/// that is not gets a tab behind the others, with the editor that was made for
/// it, and a table that the catalog does not have gets none.
pub proof fn a_table_is_designed_in_one_tab(
    window: WindowView,
    relation: (Seq<char>, Seq<char>),
    editor: usize,
)
    requires
        well_formed(window),
        active_pane(window).tabs.len() < usize::MAX,
        window.pending.page is None,
    ensures
        ({
            let pane = active_pane(window);
            let after = structure_opened(window, relation, editor);
            let left = active_pane(after);
            let known = catalog(window) matches Some(snapshot) && catalog_has(snapshot, relation);
            let open = exists|i: int|
                0 <= i < pane.tabs.len() && (#[trigger] pane.tabs[i]).kind is Structure
                    && pane.tabs[i].relation == Some(relation);
            &&& !known ==> after == window
            &&& known && open ==> {
                &&& left.tabs.len() == pane.tabs.len()
                &&& left.active_tab < left.tabs.len()
                &&& pane.tabs[left.active_tab as int].kind is Structure
                &&& pane.tabs[left.active_tab as int].relation == Some(relation)
            }
            &&& known && !open ==> {
                let tab = left.tabs.last();
                &&& left.tabs.len() == pane.tabs.len() + 1
                &&& left.active_tab == pane.tabs.len()
                &&& tab.kind is Structure
                &&& tab.relation == Some(relation)
                &&& tab.title == relation.1
                &&& tab.structure == Some(editor)
                &&& asks(window, after, Act::FocusStructure(editor))
            }
        }),
{
    let pane = active_pane(window);
    assert(pane.id == window.active_pane);
    let meant = designs(relation);
    lemma_first_bounds(pane.tabs, meant);
    let at = first(pane.tabs, meant);
    if crate::events::knows_table(catalog(window), relation) {
        if at < pane.tabs.len() {
            assert(meant(pane.tabs[at]));
            a_tab_that_is_shown_is_in_front(window, at);
        } else {
            assert forall|i: int| 0 <= i < pane.tabs.len() implies !((
            #[trigger] pane.tabs[i]).kind is Structure && pane.tabs[i].relation == Some(relation)) by {
                assert(!meant(pane.tabs[i]));
            }
            let tab = design_tab(
                relation.1,
                Some(relation.0),
                Some(relation),
                editor,
                window.session,
            );
            lemma_design_added(window, tab, editor);
        }
    }
}

/// A design tab is the last one, and shows.
proof fn lemma_design_added(window: WindowView, tab: TabView, editor: usize)
    requires
        well_formed(window),
        active_pane(window).tabs.len() < usize::MAX,
        window.pending.page is None,
    ensures
        ({
            let pane = active_pane(window);
            let after = crate::designing::design_added(window, tab, editor);
            let left = active_pane(after);
            &&& left.tabs.len() == pane.tabs.len() + 1
            &&& left.active_tab == pane.tabs.len()
            &&& same_subject(left.tabs.last(), tab)
            &&& asks(window, after, Act::FocusStructure(editor))
        }),
{
    let pane = active_pane(window);
    assert(pane.id == window.active_pane);
    let more = with_active(window, with_tab(pane, tab));
    assert(active_pane(more) == with_tab(pane, tab));
    let last = pane.tabs.len() as int;
    a_tab_that_is_shown_is_in_front(more, last);
    let up = tab_added(window, tab);
    assert(up == shown(more, last));
    let keyed = then_do(up, Act::FocusStructure(editor));
    lemma_saved(keyed);
    let after = crate::designing::design_added(window, tab, editor);
    assert(keyed.outbox[up.outbox.len() as int] == Act::FocusStructure(editor));
    assert(more.outbox == window.outbox);
    assert(asks(window, keyed, Act::FocusStructure(editor)));
    assert(grows(window, keyed));
    assert(grows(session_saved(keyed), after));
    lemma_grows(keyed, session_saved(keyed), after);
    lemma_asks(window, keyed, after, Act::FocusStructure(editor));
    assert(same_subject(active_pane(up).tabs[last], tab));
    assert(same_subject(active_pane(after).tabs[last], active_pane(up).tabs[last]));
}

/// A table that does not exist yet gets a tab behind the others, about no table.
pub proof fn a_new_table_gets_a_tab(window: WindowView, editor: usize)
    requires
        well_formed(window),
        active_pane(window).tabs.len() < usize::MAX,
        window.pending.page is None,
    ensures
        ({
            let left = active_pane(table_started(window, editor));
            let tab = left.tabs.last();
            &&& left.tabs.len() == active_pane(window).tabs.len() + 1
            &&& left.active_tab == active_pane(window).tabs.len()
            &&& tab.kind is Structure
            &&& tab.title == "New Table"@
            &&& tab.relation is None
            &&& tab.structure == Some(editor)
        }),
{
    let tab = design_tab(
        "New Table"@,
        Some(crate::designing::landing_schema(window)),
        None,
        editor,
        window.session,
    );
    lemma_design_added(window, tab, editor);
}

/// A save shows its statements before it sends them: nothing goes to a server
/// until they are committed, and a save with nothing to send shows nothing.
pub proof fn a_save_is_shown_before_it_is_sent(window: WindowView, preview: PreviewView)
    ensures
        ({
            let after = structure_previewed(window, preview);
            &&& preview.statements.len() == 0 ==> after == window
            &&& preview.statements.len() > 0 ==> after.structure_preview == Some(preview)
            &&& asks_only(window, after, |act: Act| act is Notify)
            &&& after.panes == window.panes
        }),
{
}

/// What a save shows is what its editor is about: the statements, from where
/// the table is to where it is meant to be, and that it is created where it is
/// nowhere yet. A change keeps every tab of that editor in step, and no other.
pub proof fn an_editor_is_heard(
    window: WindowView,
    number: usize,
    editor: EditorView,
    statements: Seq<Seq<char>>,
    i: int,
    j: int,
)
    requires
        0 <= i < window.panes.len(),
        0 <= j < window.panes[i].tabs.len(),
    ensures
        statements.len() > 0 ==> (editor_reported(
            window,
            number,
            editor,
            StructureEvent::Save,
            statements,
        ).structure_preview matches Some(preview) && preview.editor == number
            && preview.statements == statements && preview.creating == (editor.reference is None)
            && preview.from == editor.reference && preview.to == (
            editor.draft.schema,
            editor.draft.name,
        )),
        ({
            let was = window.panes[i].tabs[j];
            let tab = editor_reported(
                window,
                number,
                editor,
                StructureEvent::Changed,
                statements,
            ).panes[i].tabs[j];
            &&& was.structure != Some(number) ==> tab == was
            &&& was.structure == Some(number) ==> tab.detail == Some(editor.draft.schema)
                && tab.relation == editor.reference && tab.structure == was.structure && tab.kind
                == was.kind && tab.sql == was.sql
        }),
{
}

/// Statements that are put away are not sent, and the keyboard is back in the
/// editor they came from.
pub proof fn statements_put_away_are_not_sent(window: WindowView)
    ensures
        ({
            let after = preview_cancelled(window);
            &&& after.structure_preview is None
            &&& after.pending_structure == window.pending_structure
            &&& asks_only(window, after, |act: Act| act is Notify || act is FocusStructure)
            &&& window.structure_preview matches Some(preview) ==> asks(
                window,
                after,
                Act::FocusStructure(preview.editor),
            )
        }),
{
    let after = preview_cancelled(window);
    if window.structure_preview is Some {
        assert(after.outbox[window.outbox.len() as int] is FocusStructure);
    }
}

/// A design that is committed is sent whole, as one transaction, to the server
/// the window is on, and the window waits for its answer. With nobody to send
/// it to, or somebody who is busy, nothing is sent.
pub proof fn a_design_is_sent_whole(window: WindowView, preview: PreviewView)
    requires
        window.structure_preview == Some(preview),
    ensures
        ({
            let after = structure_committed(window);
            let idle = on_a_server(window) && window.sessions[window.session->Some_0 as int].session.activity
                is Idle;
            &&& after.structure_preview is None
            &&& idle ==> {
                &&& asks(
                    window,
                    after,
                    Act::Tell(window.session->Some_0, OrderView::Commit(preview.statements)),
                )
                &&& after.pending_structure matches Some(pending) && pending.editor
                    == preview.editor && pending.from == preview.from && pending.to == preview.to
            }
            &&& !idle ==> after.outbox == window.outbox && after.pending_structure
                == window.pending_structure
        }),
{
    let after = structure_committed(window);
    assert(on_a_server(window) <==> described(window) is Some);
    let n = window.outbox.len() as int;
    if after.outbox.len() > n {
        assert(after.outbox[n + 1] is Tell);
    }
}

} // verus!
