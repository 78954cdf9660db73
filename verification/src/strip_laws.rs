//! What is done to one tab of a strip, and what a strip shows.
use crate::catalog::{catalog_has, Capabilities, SchemaSnapshot};
use crate::connecting::{settled, KEY_BROWSER_LIMIT};
use crate::following::{described_relation, goes_by, schema_holds};
use crate::icon::{side_of, IconSize};
use crate::list::{list_face, ListItem};
use crate::lists::{first, group_views, lemma_first_bounds};
use crate::outcome::asks;
use crate::pane::{
    cleared, pin_turned, stashed, tab_bound, tab_claimed, tab_moved, tab_removed, Join, PaneView,
};
use crate::running::{is_connected, is_running};
use crate::session::Activity;
use crate::showing::{group_showing, results_cleared, session_saved, typed_back};
use crate::tab::{tab_face, Tab};
use crate::tabbing::{pane_closed, tab_closed};
use crate::window::{active_pane, group_window, well_formed, with_active, Act, WindowView};
use vstd::prelude::*;

verus! {

broadcast use {group_views, group_window, group_showing};

/// A tab that is moved stands where it was moved to, the others keep their order
/// around it, and the tab that shows is the one that showed.
pub proof fn a_moved_tab_stands_where_it_was_put(pane: PaneView, from: int, to: int, other: int)
    requires
        0 <= from < pane.tabs.len() <= usize::MAX,
        0 <= to < pane.tabs.len(),
        0 <= other < pane.tabs.len(),
        other != from,
        pane.active_tab < pane.tabs.len(),
    ensures
        ({
            let after = tab_moved(pane, from, to);
            &&& after.tabs.len() == pane.tabs.len()
            &&& after.tabs[to] == pane.tabs[from]
            &&& from < other <= to ==> after.tabs[other - 1] == pane.tabs[other]
            &&& to <= other < from ==> after.tabs[other + 1] == pane.tabs[other]
            &&& other < from && other < to ==> after.tabs[other] == pane.tabs[other]
            &&& other > from && other > to ==> after.tabs[other] == pane.tabs[other]
            &&& after.active_tab < after.tabs.len()
            &&& after.tabs[after.active_tab as int] == pane.tabs[pane.active_tab as int]
            &&& after.console == pane.console
        }),
{
}

/// A tab that is removed is gone and the others keep their order. The tab that
/// shows is the one that showed, and where that is the one that went, the one
/// that stood behind it, or before it where none did, with its text in the
/// console.
pub proof fn a_removed_tab_is_gone(pane: PaneView, index: int, other: int)
    requires
        0 <= index < pane.tabs.len() <= usize::MAX,
        0 <= other < pane.tabs.len(),
        pane.active_tab < pane.tabs.len(),
    ensures
        ({
            let after = tab_removed(pane, index);
            &&& after.tabs.len() == pane.tabs.len() - 1
            &&& other < index ==> after.tabs[other] == pane.tabs[other]
            &&& other > index ==> after.tabs[other - 1] == pane.tabs[other]
            &&& pane.active_tab != index ==> after.active_tab < after.tabs.len()
                && after.tabs[after.active_tab as int] == pane.tabs[pane.active_tab as int]
                && after.console == pane.console
            &&& pane.active_tab == index && index + 1 < pane.tabs.len()
                ==> after.tabs[after.active_tab as int] == pane.tabs[index + 1] && after.console
                == pane.tabs[index + 1].sql
            &&& pane.active_tab == index && index + 1 == pane.tabs.len() && index > 0
                ==> after.tabs[after.active_tab as int] == pane.tabs[index - 1] && after.console
                == pane.tabs[index - 1].sql
            &&& pane.tabs.len() == 1 ==> after.console.len() == 0
        }),
{
}

/// Closing the tab that shows puts the text of the one that shows instead into
/// the console; closing another leaves the console alone. The last tab of the
/// only pane leaves an empty console and an empty grid, and the last tab of a
/// pane beside others takes the pane along.
pub proof fn closing_a_tab_shows_another_s_text(window: WindowView, index: usize)
    requires
        well_formed(window),
        active_pane(window).active_tab < active_pane(window).tabs.len() <= usize::MAX,
        index < active_pane(window).tabs.len(),
    ensures
        ({
            let pane = active_pane(window);
            let after = tab_closed(window, index);
            let left = active_pane(after);
            &&& pane.tabs.len() == 1 && window.panes.len() > 1 ==> after == pane_closed(
                window,
                window.active_pane,
            )
            &&& pane.tabs.len() > 1 && index != pane.active_tab ==> left.console == pane.console
            &&& pane.tabs.len() > 1 && index == pane.active_tab ==> {
                &&& index + 1 < pane.tabs.len() ==> left.console == pane.tabs[index + 1].sql
                &&& index + 1 == pane.tabs.len() ==> left.console == pane.tabs[index - 1].sql
                &&& asks(window, after, Act::SetConsole(window.active_pane))
            }
            &&& pane.tabs.len() == 1 && window.panes.len() == 1 ==> {
                &&& left.tabs.len() == 0
                &&& left.console.len() == 0
                &&& left.row_count == 0
                &&& asks(window, after, Act::SetConsole(window.active_pane))
                &&& asks(window, after, Act::SetGrid(window.active_pane, None))
            }
        }),
{
    let pane = active_pane(window);
    assert(pane.id == window.active_pane);
    if !(pane.tabs.len() == 1 && window.panes.len() > 1) {
        reveal(session_saved);
        reveal(results_cleared);
        let typed = typed_back(window);
        assert(active_pane(typed) == stashed(pane));
        let gone = with_active(typed, tab_removed(stashed(pane), index as int));
        assert(active_pane(gone) == tab_removed(stashed(pane), index as int));
        let after = tab_closed(window, index);
        let n = window.outbox.len() as int;
        if index == pane.active_tab {
            assert(after.outbox[n] == Act::SetConsole(window.active_pane));
        }
        if pane.tabs.len() == 1 {
            assert(after.outbox[n + 1] == Act::SetGrid(window.active_pane, None));
        }
    }
}

/// A tab's pin is turned over, a tab is put on a session, and a tab is taken for
/// a saved query, each by itself: no other tab hears of it, and the tab that
/// shows still does.
pub proof fn one_tab_is_changed(
    pane: PaneView,
    index: int,
    session: Option<usize>,
    title: Seq<char>,
    query: u128,
    other: int,
)
    requires
        0 <= index < pane.tabs.len(),
        0 <= other < pane.tabs.len(),
        other != index,
    ensures
        ({
            let was = pane.tabs[index];
            let pinned = pin_turned(pane, index);
            let bound = tab_bound(pane, index, session);
            let claimed = tab_claimed(pane, index, title, query);
            &&& pinned.tabs[index].pinned == !was.pinned
            &&& pinned.tabs[index].title == was.title
            &&& bound.tabs[index].session == session && bound.tabs[index].reconnect is None
            &&& bound.tabs[index].title == was.title && bound.tabs[index].pinned == was.pinned
            &&& claimed.tabs[index].kind is Query && claimed.tabs[index].title == title
            &&& claimed.tabs[index].saved_query == Some(query) && !claimed.tabs[index].dirty
            &&& claimed.tabs[index].relation is None && claimed.tabs[index].pinned == was.pinned
            &&& pinned.tabs[other] == pane.tabs[other]
            &&& bound.tabs[other] == pane.tabs[other]
            &&& claimed.tabs[other] == pane.tabs[other]
            &&& pinned.active_tab == pane.active_tab && bound.active_tab == pane.active_tab
                && claimed.active_tab == pane.active_tab
        }),
{
}

/// An emptied pane reports nothing, and keeps its tabs and what is typed.
pub proof fn an_emptied_pane_reports_nothing(pane: PaneView)
    ensures
        ({
            let after = cleared(pane);
            &&& after.row_count == 0 && after.selected_row is None && after.selected_column == 0
            &&& after.elapsed is None && after.affected is None && !after.truncated
            &&& after.last_sql is None && after.error is None
            &&& after.queue.len() == 0 && after.results.len() == 0 && after.result_index == 0
            &&& after.tabs == pane.tabs && after.console == pane.console && after.clause
                == pane.clause && after.active_tab == pane.active_tab
        }),
{
}

/// The other way to join is the other one, and turning it over twice is not
/// turning it.
pub proof fn a_join_has_two_ways(join: Join)
    ensures
        join.spec_flipped() != join,
        join.spec_flipped().spec_flipped() == join,
{
}

/// A tab says that it is pinned before it says that it is unsaved, and only one
/// that is neither offers to close; the one in front stands out.
pub proof fn a_tab_says_one_thing_at_its_end(tab: Tab)
    ensures
        tab.pinned ==> tab_face(tab).trailing is Pin,
        !tab.pinned && tab.dirty ==> tab_face(tab).trailing is Dot,
        !tab.pinned && !tab.dirty && tab.closable ==> tab_face(tab).trailing is Close,
        !tab.pinned && !tab.dirty && !tab.closable ==> tab_face(tab).trailing is Nothing,
        tab_face(tab).bg is Some <==> tab.active,
        !(tab.icon_color is Muted) ==> tab_face(tab).icon == tab.icon_color,
        !tab.active ==> !tab_face(tab).left_seam && !tab_face(tab).right_seam,
{
}

/// A row that is selected has a ground of its own and does not answer the
/// pointer; one that can be opened or closed says which it is.
pub proof fn a_row_says_what_it_is(item: ListItem)
    ensures
        list_face(item).bg is Some <==> item.selected,
        list_face(item).hovers == !item.selected,
        item.disclosure is Absent ==> list_face(item).affordance is Nothing,
        item.disclosure is Leaf ==> list_face(item).affordance is Room,
        item.disclosure is Expanded || item.disclosure is Collapsed ==> list_face(item).affordance
            is Glyph,
        item.icon is Some ==> list_face(item).icon is Some && list_face(item).icon->Some_0.0
            == item.icon->Some_0,
        item.icon is None ==> list_face(item).icon is None,
        item.icon is Some && !item.selected ==> list_face(item).icon->Some_0.1 == item.icon_color,
{
}

/// Whether the window is busy, and whether it is connected, is whether the
/// session it is on is.
pub proof fn the_window_is_as_its_session_is(window: WindowView, at: usize)
    requires
        window.session is None || (window.session == Some(at) && at < window.sessions.len()),
    ensures
        window.session is None || !window.sessions[at as int].open ==> !is_running(window)
            && !is_connected(window) && settled(window),
        window.session is Some && window.sessions[at as int].open ==> {
            let session = window.sessions[at as int].session;
            &&& is_running(window) <==> session.activity == Activity::Running
            &&& is_connected(window) <==> session.state is Connected
            &&& session.keyspace is None ==> settled(window)
            &&& session.keyspace is Some && !session.keys_complete && session.keys.len()
                < KEY_BROWSER_LIMIT ==> !settled(window)
            &&& session.keyspace is Some && window.pending.key is Some ==> !settled(window)
        },
{
}

/// A relation is described by the first of its name in the first schema of its
/// schema's name that has one, and one that the catalog lacks by nothing.
pub proof fn a_relation_is_described_by_its_names(
    snapshot: SchemaSnapshot,
    relation: (Seq<char>, Seq<char>),
)
    ensures
        described_relation(snapshot, relation) is Some <==> catalog_has(snapshot, relation),
        described_relation(snapshot, relation) matches Some(found) ==> found.reference.name@
            == relation.1,
{
    let schemas = snapshot.schemas@;
    lemma_first_bounds(schemas, schema_holds(relation));
    let at = first(schemas, schema_holds(relation));
    if at < schemas.len() {
        let relations = schemas[at].relations@;
        lemma_first_bounds(relations, goes_by(relation.1));
        let j = first(relations, goes_by(relation.1));
        if j >= relations.len() {
            assert(schema_holds(relation)(schemas[at]));
            let k = choose|k: int|
                0 <= k < relations.len() && (#[trigger] relations[k]).reference.name@
                    == relation.1;
            assert(!goes_by(relation.1)(relations[k]));
        }
    } else if catalog_has(snapshot, relation) {
        let i = choose|i: int|
            0 <= i < schemas.len() && (#[trigger] schemas[i]).name@ == relation.0
                && crate::catalog::schema_has(schemas[i], relation.1);
        assert(!schema_holds(relation)(schemas[i]));
    }
}

/// A server of databases runs statements and can be told to stop; a server of
/// keys has neither, and is walked page by page.
pub proof fn a_server_is_one_kind_or_the_other()
    ensures
        Capabilities::spec_postgres().databases && Capabilities::spec_postgres().sql
            && Capabilities::spec_postgres().cancel && Capabilities::spec_postgres().roles
            && !Capabilities::spec_postgres().paged_catalog,
        !Capabilities::spec_redis().databases && !Capabilities::spec_redis().sql
            && !Capabilities::spec_redis().cancel && !Capabilities::spec_redis().roles
            && Capabilities::spec_redis().paged_catalog,
{
}

/// Icons grow with their sizes.
pub proof fn icons_grow_with_their_sizes()
    ensures
        side_of(IconSize::XSmall) < side_of(IconSize::Small) < side_of(IconSize::Medium) < side_of(
            IconSize::Large,
        ) < side_of(IconSize::XLarge),
{
}

} // verus!
