//! What is on screen and what is written down, told by what there is.
use crate::catalog::ConfigView;
use crate::clock::heading;
use crate::designing::structure_synced;
use crate::elide::{first_end, fitted, head_len, is_cut, measures, without_trailing, Measure};
use crate::frame::{
    caret_text, dock_showing, dot_of, handles_of, layer, location_path, outcome_count, regions_of,
    safety_badge, server_text, stacked, window_titlebar, Layer, Region,
};
use crate::history::{
    asides, day, entry_line, history_lines, is_config, query_rows, HistoryView, LineView,
};
use crate::lists::{group_views, lemma_first};
use crate::pane::PaneView;
use crate::record::session_record;
use crate::session::{SessionView, StateView};
use crate::showing::group_showing;
use crate::sidebar_face::tab_heads;
use crate::text::{decimal, starts};
use crate::window::{active_pane, group_window, SavedView, SidebarTab, Surfaces, WindowView};
use crate::wording::{count_text, grouped};
use vstd::prelude::*;

verus! {

broadcast use {group_views, group_window, group_showing};

/// What a name without its last underscores is.
proof fn lemma_trailing(text: Seq<char>) -> (to: int)
    ensures
        0 <= to <= text.len(),
        without_trailing(text) == text.take(to),
        forall|i: int| to <= i < text.len() ==> (#[trigger] text[i]) == '_',
        to > 0 ==> text[to - 1] != '_',
    decreases text.len(),
{
    if text.len() > 0 && text.last() == '_' {
        let rest = text.drop_last();
        let to = lemma_trailing(rest);
        assert(rest.take(to) =~= text.take(to));
        assert forall|i: int| to <= i < text.len() implies (#[trigger] text[i]) == '_' by {
            if i < rest.len() {
                assert(rest[i] == text[i]);
            }
        }
        to
    } else {
        assert(text.take(text.len() as int) =~= text);
        text.len() as int
    }
}

/// The end that is chosen is the longest that fits.
proof fn lemma_longest_end(measure: Measure, room: u64, at: int, len: int)
    requires
        0 <= at <= len,
    ensures
        at <= first_end(measure, room, at, len) <= len,
        forall|i: int|
            at <= i < first_end(measure, room, at, len) ==> (#[trigger] measure.ends@[i])
                + measure.ellipsis > room,
    decreases len - at,
{
    if at < len && !(measure.ends@[at] + measure.ellipsis <= room) {
        lemma_longest_end(measure, room, at + 1, len);
    }
}

/// The head that is chosen is the longest that fits.
proof fn lemma_longest_head(measure: Measure, budget: int, at: int, cut: int)
    requires
        0 <= at <= cut,
    ensures
        at <= head_len(measure, budget, at, cut) <= cut,
        head_len(measure, budget, at, cut) < cut ==> measure.starts@[head_len(
            measure,
            budget,
            at,
            cut,
        ) + 1] > budget,
    decreases cut - at,
{
    if at < cut && !(measure.starts@[at + 1] > budget) {
        lemma_longest_head(measure, budget, at + 1, cut);
    }
}

/// A name that fits is drawn whole. One that does not is drawn with an ellipsis:
/// where its last word fits behind one, as much of the start as fits, without the
/// underscores that would stand before it, the ellipsis and the last word; and
/// where it does not, the ellipsis and the longest end of the word that fits.
/// The numbers are how much of the start is drawn, where the end begins, and how
/// much of the start fits.
pub proof fn as_much_of_a_name_is_drawn_as_fits(
    text: Seq<char>,
    room: u64,
    measure: Measure,
    cut: int,
) -> (ends: (int, int, int))
    requires
        is_cut(text, cut),
        measures(measure, text),
    ensures
        measure.starts@[text.len() as int] <= room ==> fitted(text, room, measure, cut) == text,
        measure.starts@[text.len() as int] > room ==> {
            &&& 0 <= ends.0 <= cut <= ends.1 <= text.len()
            &&& fitted(text, room, measure, cut) == text.take(ends.0) + "…"@ + text.skip(ends.1)
            &&& measure.ends@[cut] + measure.ellipsis < room ==> {
                &&& ends.1 == cut
                &&& ends.0 > 0 ==> text[ends.0 - 1] != '_'
                &&& ends.0 <= ends.2 <= cut
                &&& forall|i: int| ends.0 <= i < ends.2 ==> (#[trigger] text[i]) == '_'
                &&& ends.2 < cut ==> measure.starts@[ends.2 + 1] + measure.ends@[cut]
                    + measure.ellipsis > room
            }
            &&& measure.ends@[cut] + measure.ellipsis >= room ==> {
                &&& ends.0 == 0
                &&& forall|i: int|
                    cut <= i < ends.1 ==> (#[trigger] measure.ends@[i]) + measure.ellipsis > room
            }
        },
{
    let len = text.len() as int;
    let dots = "…"@;
    if measure.starts@[len] <= room {
        (0, 0, 0)
    } else if measure.ends@[cut] + measure.ellipsis >= room {
        let from = first_end(measure, room, cut, len);
        lemma_longest_end(measure, room, cut, len);
        assert(text.take(0) + dots + text.skip(from) =~= dots + text.skip(from));
        (0, from, 0)
    } else {
        let budget = room - measure.ends@[cut] - measure.ellipsis;
        let head = head_len(measure, budget, 0, cut);
        lemma_longest_head(measure, budget, 0, cut);
        let kept = text.take(head);
        let to = lemma_trailing(kept);
        assert(kept.take(to) =~= text.take(to));
        if to > 0 {
            assert(kept[to - 1] == text[to - 1]);
        }
        assert forall|i: int| to <= i < head implies (#[trigger] text[i]) == '_' by {
            assert(kept[i] == text[i]);
        }
        (to, cut, head)
    }
}

/// A window that is written down is written down whole: every pane with its
/// tabs, the one in front and where each of them belongs, how the panes stand
/// and which is active. One that is not to come back is not written down.
pub proof fn a_window_is_written_down_whole(window: WindowView, at: int, tab: int)
    requires
        0 <= at < window.panes.len(),
        0 <= tab < window.panes[at].tabs.len(),
    ensures
        window.settings.restore_session == Some(false) ==> session_record(window) is None,
        window.settings.restore_session != Some(false) ==> {
            let record = session_record(window)->Some_0;
            let pane = record.panes[at];
            let held = window.panes[at].tabs[tab];
            &&& session_record(window) is Some
            &&& record.panes.len() == window.panes.len()
            &&& record.layout == window.layout
            &&& record.active_pane == window.active_pane
            &&& pane.id == window.panes[at].id
            &&& pane.tabs == window.panes[at].tabs
            &&& pane.active == window.panes[at].active_tab
            &&& pane.sources.len() == window.panes[at].tabs.len()
            &&& held.session is Some && held.session->Some_0 < window.sessions.len()
                ==> pane.sources[tab] == Some(
                (
                    window.sessions[held.session->Some_0 as int].session.config.id,
                    window.sessions[held.session->Some_0 as int].session.config.database,
                ),
            )
            &&& held.session is None ==> pane.sources[tab] == held.reconnect
            &&& window.session is Some && window.session->Some_0 < window.sessions.len()
                ==> record.source == Some(
                (
                    window.sessions[window.session->Some_0 as int].session.config.id,
                    window.sessions[window.session->Some_0 as int].session.config.database,
                ),
            )
            &&& window.session is None ==> record.source is None
        },
{
}

/// Every entry that is listed has its row, under a heading where its day is not
/// that of the one before it, and under none where it is.
pub proof fn every_entry_stands_under_its_day(
    list: Seq<HistoryView>,
    places: Seq<usize>,
    count: int,
    connections: Seq<ConfigView>,
    named: bool,
    today: int,
    offset: i64,
    at: int,
) -> (row: int)
    requires
        0 <= at < count <= places.len(),
    ensures
        ({
            let lines = history_lines(list, places, count, connections, named, today, offset);
            let entry = list[places[at] as int];
            let own = day(entry.started_at, offset);
            &&& 0 <= row < lines.len()
            &&& lines[row] is Entry && lines[row]->Entry_0 == places[at]
            &&& at == 0 || day(list[places[at - 1] as int].started_at, offset) != own ==> row > 0
                && lines[row - 1] == LineView::Heading(heading(today, own))
            &&& at > 0 && day(list[places[at - 1] as int].started_at, offset) == own ==> row > 0
                && !(lines[row - 1] is Heading)
        }),
    decreases count,
{
    let before = history_lines(list, places, count - 1, connections, named, today, offset);
    let lines = history_lines(list, places, count, connections, named, today, offset);
    if at < count - 1 {
        let row = every_entry_stands_under_its_day(
            list,
            places,
            count - 1,
            connections,
            named,
            today,
            offset,
            at,
        );
        assert(lines[row] == before[row]);
        if row > 0 {
            assert(lines[row - 1] == before[row - 1]);
        }
        row
    } else {
        let entry = list[places[at] as int];
        let own = day(entry.started_at, offset);
        let same = count >= 2 && day(list[places[count - 2] as int].started_at, offset) == own;
        let row = if same {
            before.len() as int
        } else {
            before.len() as int + 1
        };
        assert(lines[row] == entry_line(entry, places[at]));
        if same {
            lemma_last_line(list, places, count - 1, connections, named, today, offset);
            assert(lines[row - 1] == before[row - 1]);
        } else {
            assert(lines[row - 1] == LineView::Heading(heading(today, own)));
        }
        row
    }
}

/// A history never ends in a heading.
proof fn lemma_last_line(
    list: Seq<HistoryView>,
    places: Seq<usize>,
    count: int,
    connections: Seq<ConfigView>,
    named: bool,
    today: int,
    offset: i64,
)
    requires
        0 < count <= places.len(),
    ensures
        history_lines(list, places, count, connections, named, today, offset).len() > 0,
        !(history_lines(list, places, count, connections, named, today, offset).last() is Heading),
{
    let entry = list[places[count - 1] as int];
    let side = asides(entry, connections, named);
    assert forall|i: int| 0 <= i < side.len() implies !((#[trigger] side[i]) is Heading) by {}
    let lines = history_lines(list, places, count, connections, named, today, offset);
    if side.len() > 0 {
        assert(lines.last() == side.last());
    } else {
        assert(lines.last() == entry_line(entry, places[count - 1]));
    }
}

/// An entry says which connection it was on where there is more than one, by its
/// name; then what went wrong; and then everything the server said besides.
pub proof fn an_entry_says_what_hangs_off_it(
    entry: HistoryView,
    connections: Seq<ConfigView>,
    at: int,
    notice: int,
)
    requires
        0 <= at < connections.len(),
        entry.connection == Some(connections[at].id),
        forall|i: int| 0 <= i < at ==> (#[trigger] connections[i]).id != connections[at].id,
    ensures
        ({
            let named = asides(entry, connections, true);
            let plain = asides(entry, connections, false);
            let wrong = if entry.error is Some {
                1int
            } else {
                0
            };
            &&& named.len() == 1 + wrong + entry.notices.len()
            &&& plain.len() == wrong + entry.notices.len()
            &&& named[0] is Aside && named[0]->Aside_0 == connections[at].name
            &&& entry.error is Some ==> plain[0]->Aside_0 == entry.error->Some_0 && named[1]->Aside_0
                == entry.error->Some_0
            &&& 0 <= notice < entry.notices.len() ==> plain[wrong + notice]->Aside_0
                == entry.notices[notice]
        }),
{
    lemma_first(connections, is_config(connections[at].id), at);
}

/// The saved queries are listed as they are, and the one the showing tab edits
/// is lit.
pub proof fn a_query_that_is_open_is_lit(saved: Seq<SavedView>, open: Option<u128>, at: int)
    requires
        0 <= at < saved.len() <= usize::MAX,
    ensures
        query_rows(saved, open).len() == saved.len(),
        query_rows(saved, open)[at].place == at,
        query_rows(saved, open)[at].selected == (open == Some(saved[at].id)),
        query_rows(saved, open)[at].anywhere == (saved[at].connection is None),
{
}

/// One list of the left panel is lit, and it is the one that is picked.
pub proof fn the_list_that_is_picked_is_lit(picked: SidebarTab, at: int)
    requires
        0 <= at < tab_heads(picked).len(),
    ensures
        tab_heads(picked).len() == 3,
        tab_heads(picked)[0].tab is Database && tab_heads(picked)[1].tab is Queries
            && tab_heads(picked)[2].tab is History,
        tab_heads(picked)[at].active == (tab_heads(picked)[at].tab == picked),
{
}

/// The bars say which session the window is on: its connection, its database
/// once there is a catalog, and the table in front by its own schema. Without a
/// session they say that there is none.
pub proof fn the_bars_say_where_the_window_is(window: WindowView, at: usize)
    requires
        window.session is None || (window.session == Some(at) && at < window.sessions.len()),
    ensures
        window.session is None || !window.sessions[at as int].open ==> {
            &&& window_titlebar(window).connection == "no connection"@
            &&& !window_titlebar(window).connected
            &&& server_text(window) == "No connection"@
            &&& location_path(window).len() == 0
        },
        window.session is Some && window.sessions[at as int].open ==> {
            let session = window.sessions[at as int].session;
            let pane = active_pane(window);
            let path = location_path(window);
            &&& window_titlebar(window).connection == session.config.display_name
            &&& window_titlebar(window).connected == (session.state is Connected)
            &&& session.snapshot is Some ==> {
                &&& window_titlebar(window).database == Some(session.snapshot->Some_0.database@)
                &&& path[0] == session.snapshot->Some_0.database@
                &&& pane.active_tab < pane.tabs.len() && pane.tabs[pane.active_tab as int].kind
                    is Table && pane.tabs[pane.active_tab as int].relation is Some ==> path.len()
                    == 3 && path[1] == pane.tabs[pane.active_tab as int].relation->Some_0.0
                    && path[2] == pane.tabs[pane.active_tab as int].relation->Some_0.1
                &&& pane.active_tab >= pane.tabs.len() ==> path.len() == 2 && path[1]
                    == session.snapshot->Some_0.current_schema@
            }
            &&& session.snapshot is None ==> path.len() == 0
            &&& session.snapshot is None && session.state is Connecting ==> server_text(window)
                == "Connecting…"@
            &&& session.snapshot is None && session.state is Failed ==> server_text(window)
                == session.state->Failed_0
        },
        window_titlebar(window).left_panel_open == window.left_open,
        window_titlebar(window).right_panel_open == window.right_open,
        window_titlebar(window).bottom_dock_open == dock_showing(window),
{
}

/// The dot says how the session is: one colour for each state, and no two the
/// same.
pub proof fn every_state_has_a_dot(one: StateView, other: StateView)
    ensures
        dot_of(StateView::Connected) is Success,
        dot_of(StateView::Offline) is Disabled,
        one is Failed ==> dot_of(one) is Danger,
        one is Connecting ==> dot_of(one) is Warning,
        dot_of(one) == dot_of(other) ==> (one is Connected) == (other is Connected) && (one
            is Failed) == (other is Failed) && (one is Connecting) == (other is Connecting),
{
}

/// The status bar says how many rows came back, with a plus where there are
/// more, or how many were changed; and where the caret is, counted from one.
pub proof fn the_status_bar_counts(pane: PaneView, row: nat, column: nat)
    ensures
        pane.affected is None && !pane.truncated ==> outcome_count(pane) == count_text(
            pane.row_count as nat,
            "row"@,
        ),
        pane.affected is None && pane.truncated ==> outcome_count(pane) == grouped(
            pane.row_count as nat,
            ',',
        ) + "+ rows"@,
        pane.affected matches Some(count) ==> outcome_count(pane) == count_text(
            count as usize as nat,
            "row"@,
        ) + " affected"@,
        caret_text(row, column) == "Ln "@ + decimal(row + 1) + ", Col "@ + decimal(column + 1),
{
}

/// A session that is not safe to write to says so, and an ordinary one says
/// nothing.
pub proof fn a_guarded_session_wears_a_badge(session: SessionView)
    ensures
        safety_badge(None) is None,
        session.config.safety is Normal ==> safety_badge(Some(session)) is None,
        session.config.safety is Confirm ==> safety_badge(Some(session)) is Some && safety_badge(
            Some(session),
        )->Some_0.0 == "confirm"@,
        session.config.safety is ReadOnly ==> safety_badge(Some(session)) is Some && safety_badge(
            Some(session),
        )->Some_0.0 == "read-only"@,
{
}

/// The regions of a window stand in order, each where it is open, with the
/// centre always there; and a seam can be dragged beside each that is. A design
/// has the dock's room to itself.
pub proof fn a_region_is_there_where_it_is_open(window: WindowView)
    ensures
        window.left_open && window.right_open ==> regions_of(window) == seq![
            Region::Sidebar,
            Region::Center,
            Region::Inspector,
        ] && handles_of(window) == seq![Region::Sidebar, Region::Inspector],
        window.left_open && !window.right_open ==> regions_of(window) == seq![
            Region::Sidebar,
            Region::Center,
        ] && handles_of(window) == seq![Region::Sidebar],
        !window.left_open && window.right_open ==> regions_of(window) == seq![
            Region::Center,
            Region::Inspector,
        ] && handles_of(window) == seq![Region::Inspector],
        !window.left_open && !window.right_open ==> regions_of(window) == seq![Region::Center]
            && handles_of(window).len() == 0,
        !window.dock_open ==> !dock_showing(window),
        window.dock_open ==> (dock_showing(window) <==> !(active_pane(window).active_tab
            < active_pane(window).tabs.len() && active_pane(
            window,
        ).tabs[active_pane(window).active_tab as int].kind is Structure)),
{
}

/// Whether a layer is over the window is whether its surface is up.
pub proof fn a_layer_is_there_where_its_surface_is_up(
    surfaces: Surfaces,
    preview: bool,
    database: bool,
    filter: bool,
    one: Layer,
)
    ensures
        stacked(surfaces, preview, database, filter).contains(one) <==> match one {
            Layer::DragShield => surfaces.dragging,
            Layer::SaveSheet => surfaces.save_sheet,
            Layer::ExportSheet => surfaces.export_sheet,
            Layer::ImportSheet => surfaces.import_sheet,
            Layer::Palette => surfaces.palette,
            Layer::CommitPreview => surfaces.commit_preview,
            Layer::ObjectSheet => surfaces.object_sheet,
            Layer::StructurePreview => preview,
            Layer::ObjectMenu => surfaces.object_menu,
            Layer::RowMenu => surfaces.row_menu,
            Layer::DatabaseMenu => database,
            Layer::FilterMenu => filter,
            Layer::DecoderMenu => surfaces.decoder_menu,
        },
{
    let o0 = layer(surfaces.dragging, Layer::DragShield);
    lemma_one_more(Seq::empty(), surfaces.dragging, Layer::DragShield, one);
    assert(Seq::<Layer>::empty() + o0 =~= o0);
    let o1 = o0 + layer(surfaces.save_sheet, Layer::SaveSheet);
    lemma_one_more(o0, surfaces.save_sheet, Layer::SaveSheet, one);
    let o2 = o1 + layer(surfaces.export_sheet, Layer::ExportSheet);
    lemma_one_more(o1, surfaces.export_sheet, Layer::ExportSheet, one);
    let o3 = o2 + layer(surfaces.import_sheet, Layer::ImportSheet);
    lemma_one_more(o2, surfaces.import_sheet, Layer::ImportSheet, one);
    let o4 = o3 + layer(surfaces.palette, Layer::Palette);
    lemma_one_more(o3, surfaces.palette, Layer::Palette, one);
    let o5 = o4 + layer(surfaces.commit_preview, Layer::CommitPreview);
    lemma_one_more(o4, surfaces.commit_preview, Layer::CommitPreview, one);
    let o6 = o5 + layer(surfaces.object_sheet, Layer::ObjectSheet);
    lemma_one_more(o5, surfaces.object_sheet, Layer::ObjectSheet, one);
    let o7 = o6 + layer(preview, Layer::StructurePreview);
    lemma_one_more(o6, preview, Layer::StructurePreview, one);
    let o8 = o7 + layer(surfaces.object_menu, Layer::ObjectMenu);
    lemma_one_more(o7, surfaces.object_menu, Layer::ObjectMenu, one);
    let o9 = o8 + layer(surfaces.row_menu, Layer::RowMenu);
    lemma_one_more(o8, surfaces.row_menu, Layer::RowMenu, one);
    let o10 = o9 + layer(database, Layer::DatabaseMenu);
    lemma_one_more(o9, database, Layer::DatabaseMenu, one);
    let o11 = o10 + layer(filter, Layer::FilterMenu);
    lemma_one_more(o10, filter, Layer::FilterMenu, one);
    let o12 = o11 + layer(surfaces.decoder_menu, Layer::DecoderMenu);
    lemma_one_more(o11, surfaces.decoder_menu, Layer::DecoderMenu, one);
}

/// One more layer, where it is up.
proof fn lemma_one_more(under: Seq<Layer>, up: bool, over: Layer, one: Layer)
    ensures
        (under + layer(up, over)).contains(one) <==> under.contains(one) || (up && one == over),
{
    let all = under + layer(up, over);
    if under.contains(one) {
        let k = choose|k: int| 0 <= k < under.len() && under[k] == one;
        assert(all[k] == one);
    }
    if up {
        assert(all[under.len() as int] == over);
    }
    if all.contains(one) && !under.contains(one) {
        let k = choose|k: int| 0 <= k < all.len() && all[k] == one;
        if k < under.len() {
            assert(under[k] == one);
        }
    }
}

/// Every tab of an editor is kept in step with its draft, in every pane, and no
/// other tab hears of it.
pub proof fn a_draft_s_tabs_keep_in_step(
    window: WindowView,
    editor: usize,
    title: Seq<char>,
    schema: Seq<char>,
    dirty: bool,
    relation: Option<(Seq<char>, Seq<char>)>,
    pane: int,
    tab: int,
)
    requires
        0 <= pane < window.panes.len(),
        0 <= tab < window.panes[pane].tabs.len(),
    ensures
        ({
            let after = structure_synced(window, editor, title, schema, dirty, relation);
            let was = window.panes[pane].tabs[tab];
            let now = after.panes[pane].tabs[tab];
            &&& after.panes.len() == window.panes.len()
            &&& after.panes[pane].tabs.len() == window.panes[pane].tabs.len()
            &&& after.panes[pane].active_tab == window.panes[pane].active_tab
            &&& was.structure != Some(editor) ==> now == was
            &&& was.structure == Some(editor) ==> {
                &&& now.title == title
                &&& now.detail == Some(schema)
                &&& now.dirty == dirty
                &&& now.relation == relation
                &&& now.structure == was.structure && now.kind == was.kind && now.pinned
                    == was.pinned
            }
        }),
{
}

} // verus!
