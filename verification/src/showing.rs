//! Which tab is in front, which connection the window describes because of it,
//! and what showing it asks the server for.
use crate::catalog::{ConfigView, KeyType};
use crate::folding::closed_from;
use crate::lists::group_views;
use crate::pane::{cleared, fronted, paged, stashed, tab_bound, CenterKind, PaneView};
use crate::settings::Settings;
use crate::session::{fresh, SessionView};
use crate::tree::{keyspace_root, server_entries, snapshot_root, Entry};
use crate::window::{
    active_pane, described, group_window, has_pane, here, known_absent, lemma_place_bounds,
    lemma_place_of, lemma_same_frame, place_of, same_frame, then_do, well_formed, with_active, Act,
    HeldView, OrderView, PendingView, WindowView,
};
use vstd::prelude::*;

verus! {

broadcast use {group_views, group_window};

/// The grid of the active pane emptied, and everything that describes what was
/// in it.
#[verifier::opaque]
pub open spec fn results_cleared(window: WindowView) -> WindowView {
    then_do(
        then_do(
            then_do(
                with_active(window, cleared(active_pane(window))),
                Act::SetGrid(window.active_pane, None),
            ),
            Act::RefreshEditability(window.active_pane),
        ),
        Act::Notify,
    )
}

/// The showing tab on a page.
pub open spec fn page_set(window: WindowView, page: usize) -> WindowView {
    with_active(window, paged(active_pane(window), page))
}

/// What is typed put back into the tab it belongs to.
pub open spec fn typed_back(window: WindowView) -> WindowView {
    with_active(window, stashed(active_pane(window)))
}

/// The page a launch asked for, taken up.
#[verifier::opaque]
pub open spec fn page_taken(window: WindowView) -> WindowView {
    match window.pending.page {
        Some(page) => page_set(
            WindowView { pending: PendingView { page: None, ..window.pending }, ..window },
            page,
        ),
        None => window,
    }
}

/// A browsed table asked for again. Without a session there is nobody to ask,
/// and a table the catalog does not have is not asked for: its tab goes empty
/// instead.
#[verifier::opaque]
pub open spec fn relation_reloaded(
    window: WindowView,
    relation: (Seq<char>, Seq<char>),
) -> WindowView {
    if window.session is None {
        window
    } else if known_absent(window, relation) {
        results_cleared(window)
    } else {
        then_do(typed_back(page_taken(window)), Act::Browse(relation))
    }
}

/// A key asked for again.
#[verifier::opaque]
pub open spec fn key_reloaded(window: WindowView, key: Seq<u8>, kind: KeyType) -> WindowView {
    match window.session {
        Some(session) => then_do(
            WindowView { running_pane: Some(window.active_pane), ..window },
            Act::Tell(session, OrderView::OpenKey(key, kind)),
        ),
        None => window,
    }
}

/// The tree of whatever a session is holding: a schema, a keyspace, or nothing
/// yet.
#[verifier::opaque]
pub open spec fn tree_of(session: Option<SessionView>) -> Seq<Entry> {
    match session {
        None => Seq::empty(),
        Some(session) => match (session.snapshot, session.keyspace) {
            (Some(snapshot), _) => server_entries(
                snapshot_root(
                    session.config.display_name,
                    snapshot,
                    session.roles,
                    session.config.capabilities.databases,
                ),
            ),
            (None, Some(keyspace)) => server_entries(
                keyspace_root(
                    session.config.display_name,
                    match session.connection {
                        Some(connection) => connection.version@,
                        None => Seq::empty(),
                    },
                    keyspace,
                    session.keys,
                    session.keys_complete,
                ),
            ),
            (None, None) => Seq::empty(),
        },
    }
}

/// The window with the tree of its session drawn afresh.
pub open spec fn tree_rebuilt(window: WindowView) -> WindowView {
    WindowView { tree: tree_of(described(window)), ..window }
}

/// The window describing a connection: the tree, the completions, and nothing
/// selected. Already describing it changes nothing.
#[verifier::opaque]
pub open spec fn describing(window: WindowView, session: Option<usize>) -> WindowView {
    if window.session == session {
        window
    } else {
        let rebuilt = tree_rebuilt(WindowView { session, ..window });
        then_do(
            then_do(
                WindowView {
                    collapsed: closed_from(rebuilt.tree, 0),
                    selected_node: None,
                    ..rebuilt
                },
                Act::SetCatalog(session),
            ),
            Act::Notify,
        )
    }
}

/// Whether a held session is open on a connection's database.
pub open spec fn serves(held: HeldView, config: ConfigView) -> bool {
    held.open && held.session.config.id == config.id && held.session.config.database
        == config.database
}

/// The first open session on a connection's database, and the length of the
/// list where there is none.
pub open spec fn session_place(sessions: Seq<HeldView>, config: ConfigView) -> int
    decreases sessions.len(),
{
    if sessions.len() == 0 {
        0
    } else if serves(sessions[0], config) {
        0
    } else {
        1 + session_place(sessions.drop_first(), config)
    }
}

/// The window with a session for a database: the one it has, or a new one that
/// is told to connect.
#[verifier::opaque]
pub open spec fn with_session(
    window: WindowView,
    config: ConfigView,
    password: Option<Seq<char>>,
) -> WindowView {
    let at = session_place(window.sessions, config);
    if at < window.sessions.len() {
        window
    } else {
        then_do(
            WindowView {
                sessions: window.sessions.push(
                    HeldView { open: true, session: fresh(config, password) },
                ),
                ..window
            },
            Act::Tell(at as usize, OrderView::Connect),
        )
    }
}

/// The first connection with an id, and the length of the list where there is
/// none.
pub open spec fn connection_place(connections: Seq<ConfigView>, id: u128) -> int
    decreases connections.len(),
{
    if connections.len() == 0 {
        0
    } else if connections[0].id == id {
        0
    } else {
        1 + connection_place(connections.drop_first(), id)
    }
}

/// A tab put on the session of a database, and the window with it.
#[verifier::opaque]
pub open spec fn tab_connected(window: WindowView, index: int, config: ConfigView) -> WindowView {
    let opened = with_session(window, config, None);
    let session = Some(session_place(window.sessions, config) as usize);
    describing(with_active(opened, tab_bound(active_pane(opened), index, session)), session)
}

/// A tab made the one the window is describing.
///
/// Its session becomes the window's. A tab that was restored opens the
/// connection it was on; a tab that has none takes the one the window is on
/// already, and so does a restored one whose connection is gone.
#[verifier::opaque]
pub open spec fn tab_adopted(window: WindowView, index: int) -> WindowView {
    let pane = active_pane(window);
    if index >= pane.tabs.len() {
        window
    } else {
        let tab = pane.tabs[index];
        let joined = with_active(window, tab_bound(pane, index, window.session));
        match (tab.session, tab.reconnect) {
            (Some(session), _) => describing(window, Some(session)),
            (None, Some(place)) => {
                let at = connection_place(window.connections, place.0);
                if at < window.connections.len() {
                    tab_connected(
                        window,
                        index,
                        ConfigView { database: place.1, ..window.connections[at] },
                    )
                } else {
                    joined
                }
            },
            (None, None) => joined,
        }
    }
}

/// A tab brought to the front, with nothing asked of the server yet.
#[verifier::opaque]
pub open spec fn brought_up(window: WindowView, index: int) -> WindowView {
    let unmarked = then_do(typed_back(window), Act::ClearMark(window.active_pane));
    let raised = then_do(
        with_active(unmarked, fronted(active_pane(unmarked), index)),
        Act::RevealTab(window.active_pane, index as usize),
    );
    then_do(
        then_do(tab_adopted(raised, index), Act::SetConsole(window.active_pane)),
        Act::SetClause(window.active_pane),
    )
}

/// A tab shown. A table or a key is asked for again: the grid is the pane's,
/// and whatever is in it belongs to the tab that last ran something. Any other
/// tab starts on an empty grid.
#[verifier::opaque]
pub open spec fn shown(window: WindowView, index: int) -> WindowView {
    let up = brought_up(window, index);
    let tab = active_pane(up).tabs[index];
    match (tab.kind, tab.relation, tab.key) {
        (CenterKind::Table, Some(relation), _) => relation_reloaded(up, relation),
        (CenterKind::Key, _, Some(key)) => key_reloaded(up, key.0, key.1),
        _ => results_cleared(up),
    }
}

/// Everything typed in every pane put back into its tab.
pub open spec fn all_typed_back(panes: Seq<PaneView>) -> Seq<PaneView> {
    Seq::new(panes.len(), |i: int| stashed(panes[i]))
}

/// What the window is showing written down, where the settings ask for it.
#[verifier::opaque]
pub open spec fn session_saved(window: WindowView) -> WindowView {
    if remembers(window.settings) {
        then_do(
            WindowView { panes: all_typed_back(window.panes), ..window },
            Act::SaveSession,
        )
    } else {
        window
    }
}

/// Whether the settings ask for the window to come back as it was.
pub open spec fn remembers(settings: Settings) -> bool {
    match settings.restore_session {
        Some(on) => on,
        None => true,
    }
}

/// Panes that go by the same ids are found in the same places.
pub proof fn lemma_same_ids(a: Seq<PaneView>, b: Seq<PaneView>, id: usize)
    requires
        a.len() == b.len(),
        forall|i: int| 0 <= i < a.len() ==> (#[trigger] a[i]).id == b[i].id,
    ensures
        place_of(a, id) == place_of(b, id),
{
    lemma_place_bounds(a, id);
    let at = place_of(a, id);
    assert forall|i: int| 0 <= i < at implies (#[trigger] b[i]).id != id by {
        assert(a[i].id != id);
    }
    if at < a.len() {
        assert(a[at].id == b[at].id);
    }
    lemma_place_of(b, id, at);
}

/// Two windows with the same settings, connections and sessions, describing
/// the same one.
pub open spec fn same_place(a: WindowView, b: WindowView) -> bool {
    &&& a.settings == b.settings
    &&& a.connections == b.connections
    &&& a.sessions == b.sessions
    &&& a.session == b.session
}

/// Describing another connection moves no pane.
pub broadcast proof fn lemma_describing(window: WindowView, session: Option<usize>)
    ensures
        #![trigger describing(window, session)]
        same_frame(describing(window, session), window),
        describing(window, session).session == session,
        describing(window, session).sessions == window.sessions,
        describing(window, session).settings == window.settings,
        describing(window, session).connections == window.connections,
        describing(window, session).pending == window.pending,
        well_formed(window) ==> well_formed(describing(window, session)),
        active_pane(describing(window, session)) == active_pane(window),
{
    reveal(describing);
    lemma_same_frame(describing(window, session), window);
}

/// Opening a session moves no pane.
pub broadcast proof fn lemma_with_session(
    window: WindowView,
    config: ConfigView,
    password: Option<Seq<char>>,
)
    ensures
        #![trigger with_session(window, config, password)]
        same_frame(with_session(window, config, password), window),
        with_session(window, config, password).session == window.session,
        with_session(window, config, password).settings == window.settings,
        with_session(window, config, password).connections == window.connections,
        with_session(window, config, password).pending == window.pending,
        well_formed(window) ==> well_formed(with_session(window, config, password)),
        active_pane(with_session(window, config, password)) == active_pane(window),
{
    reveal(with_session);
    lemma_same_frame(with_session(window, config, password), window);
}

/// What stays of the active pane while another tab comes to the front.
pub open spec fn same_strip(a: WindowView, b: WindowView) -> bool {
    &&& a.active_pane == b.active_pane
    &&& a.next_pane == b.next_pane
    &&& a.settings == b.settings
    &&& active_pane(a).tabs.len() == active_pane(b).tabs.len()
    &&& active_pane(a).active_tab == active_pane(b).active_tab
    &&& a.panes.len() == b.panes.len()
}

/// Adopting a tab leaves the window well formed.
pub broadcast proof fn lemma_tab_adopted(window: WindowView, index: int)
    requires
        well_formed(window),
        0 <= index,
    ensures
        #![trigger tab_adopted(window, index)]
        well_formed(tab_adopted(window, index)),
        same_strip(tab_adopted(window, index), window),
{
    broadcast use lemma_describing, lemma_with_session;

    reveal(tab_adopted);
    reveal(tab_connected);
}

/// Clearing the results leaves the window well formed.
pub broadcast proof fn lemma_results_cleared(window: WindowView)
    requires
        well_formed(window),
    ensures
        #![trigger results_cleared(window)]
        well_formed(results_cleared(window)),
        same_strip(results_cleared(window), window),
        same_place(results_cleared(window), window),
        results_cleared(window).pending == window.pending,
        active_pane(results_cleared(window)) == cleared(active_pane(window)),
{
    reveal(results_cleared);
}

/// Asking for a table again leaves the window well formed.
pub broadcast proof fn lemma_relation_reloaded(
    window: WindowView,
    relation: (Seq<char>, Seq<char>),
)
    requires
        well_formed(window),
    ensures
        #![trigger relation_reloaded(window, relation)]
        well_formed(relation_reloaded(window, relation)),
        same_strip(relation_reloaded(window, relation), window),
        same_place(relation_reloaded(window, relation), window),
{
    broadcast use lemma_results_cleared;

    reveal(relation_reloaded);
    reveal(page_taken);
    lemma_same_frame(
        WindowView { pending: PendingView { page: None, ..window.pending }, ..window },
        window,
    );
}

/// Asking for a key again moves no pane.
pub broadcast proof fn lemma_key_reloaded(window: WindowView, key: Seq<u8>, kind: KeyType)
    ensures
        #![trigger key_reloaded(window, key, kind)]
        same_frame(key_reloaded(window, key, kind), window),
        same_place(key_reloaded(window, key, kind), window),
        well_formed(window) ==> well_formed(key_reloaded(window, key, kind)),
        active_pane(key_reloaded(window, key, kind)) == active_pane(window),
{
    reveal(key_reloaded);
    lemma_same_frame(key_reloaded(window, key, kind), window);
}

/// Saving the session leaves the window well formed.
pub broadcast proof fn lemma_session_saved(window: WindowView)
    requires
        well_formed(window),
    ensures
        #![trigger session_saved(window)]
        well_formed(session_saved(window)),
        here(session_saved(window)) == here(window),
        same_strip(session_saved(window), window),
        same_place(session_saved(window), window),
        session_saved(window).pending == window.pending,
        active_pane(session_saved(window)) == if remembers(window.settings) {
            stashed(active_pane(window))
        } else {
            active_pane(window)
        },
{
    reveal(session_saved);
    reveal(well_formed);
    let after = session_saved(window);
    assert forall|i: int| 0 <= i < window.panes.len() implies (#[trigger] window.panes[i]).id
        == after.panes[i].id by {}
    lemma_same_ids(window.panes, after.panes, window.active_pane);
    assert forall|i: int, j: int| 0 <= i < j < after.panes.len() implies (
    #[trigger] after.panes[i]).id != (#[trigger] after.panes[j]).id by {
        assert(window.panes[i].id != window.panes[j].id);
    }
    assert forall|i: int| 0 <= i < after.panes.len() implies (#[trigger] after.panes[i]).id
        < after.next_pane by {
        assert(window.panes[i].id < window.next_pane);
    }
    assert forall|i: int| 0 <= i < after.layout.len() implies has_pane(
        after.panes,
        #[trigger] after.layout[i],
    ) by {
        assert(has_pane(window.panes, window.layout[i]));
        lemma_same_ids(window.panes, after.panes, window.layout[i]);
    }
    lemma_place_bounds(window.panes, window.active_pane);
}

/// Bringing a tab up leaves the window well formed.
pub broadcast proof fn lemma_brought_up(window: WindowView, index: int)
    requires
        well_formed(window),
        0 <= index < active_pane(window).tabs.len(),
    ensures
        #![trigger brought_up(window, index)]
        well_formed(brought_up(window, index)),
        active_pane(brought_up(window, index)).tabs.len() == active_pane(window).tabs.len(),
        brought_up(window, index).active_pane == window.active_pane,
        brought_up(window, index).settings == window.settings,
        active_pane(brought_up(window, index)).active_tab == index as usize,
{
    broadcast use lemma_tab_adopted;

    reveal(brought_up);
}

/// Showing a tab leaves the window well formed, and the tab in front.
pub broadcast proof fn lemma_shown(window: WindowView, index: int)
    requires
        well_formed(window),
        0 <= index < active_pane(window).tabs.len(),
    ensures
        #![trigger shown(window, index)]
        well_formed(shown(window, index)),
        active_pane(shown(window, index)).tabs.len() == active_pane(window).tabs.len(),
        shown(window, index).active_pane == window.active_pane,
        shown(window, index).settings == window.settings,
        active_pane(shown(window, index)).active_tab == index as usize,
{
    broadcast use
        lemma_brought_up,
        lemma_results_cleared,
        lemma_relation_reloaded,
        lemma_key_reloaded,
    ;

    reveal(shown);
}

pub broadcast group group_showing {
    lemma_describing,
    lemma_with_session,
    lemma_tab_adopted,
    lemma_results_cleared,
    lemma_relation_reloaded,
    lemma_key_reloaded,
    lemma_session_saved,
    lemma_brought_up,
    lemma_shown,
}

} // verus!
