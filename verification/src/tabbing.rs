//! Opening, closing, pinning and moving tabs, and the panes they are in.
use crate::lists::{first, group_views, lemma_first, lemma_first_bounds, views};
use crate::pane::{
    console_follows, empty_pane, pin_turned, pinned_besides, script_tab, showing, stashed,
    surviving, tab_moved, tab_removed, with_tab, CenterTab, Pane, PaneView, TabView,
};
use crate::preferences::dressing;
use crate::showing::{group_showing, results_cleared, session_saved, shown, tab_adopted, typed_back};
use crate::tabs::{one_tab_shows_after_closing, shows_after, tab_after_closing};
use crate::window::{
    active_pane, all_laid_out, group_window, has_pane, here, lemma_place_bounds, lemma_place_kept,
    lemma_place_of, place_of, then_do, well_formed, with_active, Act, Effect, Focus, WindowView,
    Workspace,
};
use vstd::prelude::*;

verus! {

broadcast use {group_views, group_window, group_showing};

/// A tab shown because it was asked for. One that is showing already, or is
/// not there, changes nothing.
pub open spec fn tab_activated(window: WindowView, index: usize) -> WindowView {
    if index >= active_pane(window).tabs.len() || index == active_pane(window).active_tab {
        window
    } else {
        then_do(session_saved(shown(window, index as int)), Act::Notify)
    }
}

/// One more tab in the active pane, shown.
pub open spec fn tab_added(window: WindowView, tab: TabView) -> WindowView {
    shown(
        with_active(window, with_tab(active_pane(window), tab)),
        active_pane(window).tabs.len() as int,
    )
}

/// A new script, shown, with the keyboard in it.
pub open spec fn script_opened(window: WindowView) -> WindowView {
    then_do(
        session_saved(
            then_do(
                tab_added(window, script_tab("Untitled"@, window.session)),
                Act::Focus(Focus::Console),
            ),
        ),
        Act::Notify,
    )
}

/// Whether a number is a pane's.
pub open spec fn is_pane(id: usize) -> spec_fn(usize) -> bool {
    |other: usize| other == id
}

/// Which pane the eye lands on once one goes away: its neighbour to the right,
/// or to the left if it was last.
pub open spec fn neighbour(layout: Seq<usize>, id: usize) -> usize {
    let at = first(layout, is_pane(id));
    if at + 1 < layout.len() {
        layout[at + 1]
    } else {
        layout[at - 1]
    }
}

/// A pane closed, and its room handed back to its neighbours. The last pane
/// stays, the last in the layout stays, and so does one that is not there. An
/// answer on its way to the pane has nowhere to land.
pub open spec fn pane_closed(window: WindowView, id: usize) -> WindowView {
    if window.panes.len() <= 1 || window.layout.len() <= 1 || !window.layout.contains(id) {
        window
    } else {
        then_do(session_saved(then_do(without_pane(window, id), Act::Focus(Focus::Console))), Act::Notify)
    }
}

/// The window without one of its panes.
pub open spec fn without_pane(window: WindowView, id: usize) -> WindowView {
    WindowView {
        layout: window.layout.remove(first(window.layout, is_pane(id))),
        panes: window.panes.remove(place_of(window.panes, id)),
        running_pane: if window.running_pane == Some(id) {
            None
        } else {
            window.running_pane
        },
        active_pane: if window.active_pane == id {
            neighbour(window.layout, id)
        } else {
            window.active_pane
        },
        ..window
    }
}

/// A pane made the one the dock, the inspector and the keyboard are about.
pub open spec fn pane_activated(window: WindowView, id: usize) -> WindowView {
    if window.active_pane == id || !has_pane(window.panes, id) {
        window
    } else {
        let moved = WindowView { active_pane: id, ..typed_back(window) };
        then_do(
            then_do(
                tab_adopted(moved, active_pane(moved).active_tab as int),
                Act::Focus(Focus::Console),
            ),
            Act::Notify,
        )
    }
}

/// The pane split in two: the new half has a script of its own, on the same
/// connection, its settings, and the keyboard. A pane that is not in the layout has no room
/// to share.
pub open spec fn pane_split(window: WindowView) -> WindowView {
    if window.layout.contains(window.active_pane) {
        split_apart(window)
    } else {
        typed_back(window)
    }
}

/// A pane that is in the layout split in two.
pub open spec fn split_apart(window: WindowView) -> WindowView {
    let typed = typed_back(window);
    let id = window.next_pane;
    let at = first(window.layout, is_pane(window.active_pane));
    let split = WindowView {
        layout: window.layout.insert(at + 1, id),
        panes: typed.panes.push(
            with_tab(empty_pane(id), script_tab("Untitled"@, window.session)),
        ),
        next_pane: (id + 1) as usize,
        active_pane: id,
        ..typed
    };
    then_do(
        session_saved(
            then_do(then_do(split, dressing(window.settings, id)), Act::Focus(Focus::Console)),
        ),
        Act::Notify,
    )
}

/// A tab closed. Closing the last tab of a split closes the split; the last
/// pane of all stays and goes empty.
pub open spec fn tab_closed(window: WindowView, index: usize) -> WindowView {
    let pane = active_pane(window);
    if index >= pane.tabs.len() {
        window
    } else if pane.tabs.len() == 1 && window.panes.len() > 1 {
        pane_closed(window, window.active_pane)
    } else {
        let typed = typed_back(window);
        let gone = with_active(typed, tab_removed(active_pane(typed), index as int));
        let told = if index == pane.active_tab {
            then_do(gone, Act::SetConsole(window.active_pane))
        } else {
            gone
        };
        let emptied = if pane.tabs.len() == 1 {
            results_cleared(told)
        } else {
            told
        };
        then_do(session_saved(emptied), Act::Notify)
    }
}

/// Which tab is showing once some are closed, in the numbering it had before.
pub open spec fn left_showing(active: int, doomed: Seq<usize>, len: nat) -> Option<usize> {
    choose|index: Option<usize>| shows_after(active, doomed, len, index)
}

/// The pane without some of its tabs, its neighbour showing where the showing
/// tab went.
pub open spec fn tabs_removed(pane: PaneView, doomed: Seq<usize>) -> PaneView {
    let len = pane.tabs.len();
    let left = PaneView {
        tabs: surviving(pane.tabs, doomed, len as int),
        active_tab: match left_showing(pane.active_tab as int, doomed, len) {
            Some(index) => surviving(pane.tabs, doomed, index as int).len() as usize,
            None => 0,
        },
        ..pane
    };
    if doomed.contains(pane.active_tab) {
        console_follows(left)
    } else {
        left
    }
}

/// Some tabs closed at once.
pub open spec fn tabs_closed(window: WindowView, doomed: Seq<usize>) -> WindowView {
    let pane = active_pane(window);
    let empties = left_showing(pane.active_tab as int, doomed, pane.tabs.len()) is None;
    if doomed.len() == 0 {
        window
    } else if empties && window.panes.len() > 1 {
        pane_closed(window, window.active_pane)
    } else {
        let typed = typed_back(window);
        let gone = with_active(typed, tabs_removed(active_pane(typed), doomed));
        let told = if doomed.contains(pane.active_tab) {
            then_do(gone, Act::SetConsole(window.active_pane))
        } else {
            gone
        };
        let emptied = if empties {
            results_cleared(told)
        } else {
            told
        };
        then_do(session_saved(emptied), Act::Notify)
    }
}

/// The places of the tabs that are named and not pinned, in order.
pub open spec fn unpinned(tabs: Seq<TabView>, named: spec_fn(int) -> bool) -> Seq<usize>
    decreases tabs.len(),
{
    if tabs.len() == 0 {
        Seq::empty()
    } else {
        let before = unpinned(tabs.drop_last(), named);
        let last = tabs.len() - 1;
        if !tabs[last].pinned && named(last) {
            before.push(last as usize)
        } else {
            before
        }
    }
}

/// Which tabs a bulk close is about.
#[derive(Clone, Copy, PartialEq, Eq, Structural, Debug)]
pub enum Closing {
    /// All but one.
    Others(usize),
    /// The ones to the left of one.
    Left(usize),
    /// The ones to the right of one.
    Right(usize),
    /// The ones without unsaved changes.
    Unchanged,
    All,
}

/// Whether a bulk close is about a tab.
pub open spec fn names(closing: Closing, tab: TabView, index: int) -> bool {
    match closing {
        Closing::Others(one) => index != one,
        Closing::Left(one) => index < one,
        Closing::Right(one) => index > one,
        Closing::Unchanged => !tab.dirty,
        Closing::All => true,
    }
}

/// The tabs a bulk close is about, as a predicate on their places.
pub open spec fn named_in(closing: Closing, tabs: Seq<TabView>) -> spec_fn(int) -> bool {
    |index: int| names(closing, tabs[index], index)
}

/// The places of the tabs a bulk close takes.
pub open spec fn doomed_by(closing: Closing, tabs: Seq<TabView>) -> Seq<usize> {
    unpinned(tabs, named_in(closing, tabs))
}

/// The tabs that are named and not pinned are exactly the ones listed.
pub proof fn lemma_unpinned(tabs: Seq<TabView>, named: spec_fn(int) -> bool)
    requires
        tabs.len() <= usize::MAX,
    ensures
        forall|i: int|
            0 <= i <= usize::MAX ==> (#[trigger] unpinned(tabs, named).contains(i as usize) <==> i
                < tabs.len() && !tabs[i].pinned && named(i)),
    decreases tabs.len(),
{
    if tabs.len() > 0 {
        let rest = tabs.drop_last();
        let last = tabs.len() - 1;
        lemma_unpinned(rest, named);
        let before = unpinned(rest, named);
        let all = unpinned(tabs, named);
        assert forall|i: int| 0 <= i <= usize::MAX implies (#[trigger] all.contains(i as usize)
            <==> i < tabs.len() && !tabs[i].pinned && named(i)) by {
            assert(before.contains(i as usize) <==> i < rest.len() && !rest[i].pinned && named(i));
            if !tabs[last].pinned && named(last) {
                assert(all[before.len() as int] == last as usize);
                if before.contains(i as usize) {
                    let at = choose|at: int| 0 <= at < before.len() && before[at] == i as usize;
                    assert(all[at] == i as usize);
                }
                if all.contains(i as usize) && i != last {
                    let at = choose|at: int| 0 <= at < all.len() && all[at] == i as usize;
                    assert(at < before.len());
                    assert(before[at] == i as usize);
                }
            }
        }
    }
}

/// A bulk close takes the tabs it is about, and of those every one that is not
/// pinned: a pinned tab survives whatever is done to the rest.
pub proof fn a_pinned_tab_survives_every_bulk_close(
    tabs: Seq<TabView>,
    closing: Closing,
    index: int,
)
    requires
        0 <= index < tabs.len() <= usize::MAX,
    ensures
        tabs[index].pinned ==> !doomed_by(closing, tabs).contains(index as usize),
        !tabs[index].pinned ==> (doomed_by(closing, tabs).contains(index as usize) <==> names(
            closing,
            tabs[index],
            index,
        )),
{
    lemma_unpinned(tabs, named_in(closing, tabs));
}

/// The indices the predicate names that can be closed: pinned tabs cannot.
pub fn closable<F: Fn(usize, &CenterTab) -> bool>(tabs: &[CenterTab], doomed: F) -> (indices: Vec<
    usize,
>)
    requires
        forall|i: usize, tab: &CenterTab| #[trigger] doomed.requires((i, tab)),
    ensures
        forall|named: spec_fn(int) -> bool|
            (forall|i: int, answer: bool|
                0 <= i < tabs@.len() && #[trigger] doomed.ensures(
                    (i as usize, &tabs@[i]),
                    answer,
                ) ==> answer == named(i)) ==> indices@ == #[trigger] unpinned(views(tabs@), named),
{
    let ghost all = views(tabs@);
    let mut indices: Vec<usize> = Vec::new();
    let mut at: usize = 0;
    while at < tabs.len()
        invariant
            at <= tabs@.len(),
            all == views(tabs@),
            forall|i: usize, tab: &CenterTab| #[trigger] doomed.requires((i, tab)),
            forall|named: spec_fn(int) -> bool|
                (forall|i: int, answer: bool|
                    0 <= i < tabs@.len() && #[trigger] doomed.ensures(
                        (i as usize, &tabs@[i]),
                        answer,
                    ) ==> answer == named(i)) ==> indices@ == #[trigger] unpinned(
                    all.take(at as int),
                    named,
                ),
        decreases tabs@.len() - at,
    {
        let ghost had = indices@;
        let tab = &tabs[at];
        assert(all[at as int] == tab@);
        assert(all.take(at + 1).drop_last() =~= all.take(at as int));
        let ghost mut asked: Option<bool> = None;
        if !tab.pinned {
            let answer = doomed(at, tab);
            proof {
                asked = Some(answer);
            }
            if answer {
                indices.push(at);
            }
        }
        assert forall|named: spec_fn(int) -> bool|
            (forall|i: int, answer: bool|
                0 <= i < tabs@.len() && #[trigger] doomed.ensures(
                    (i as usize, &tabs@[i]),
                    answer,
                ) ==> answer == named(i)) implies indices@ == #[trigger] unpinned(
            all.take(at + 1),
            named,
        ) by {
            assert(had == unpinned(all.take(at as int), named));
            if let Some(answer) = asked {
                assert(doomed.ensures((at as int as usize, &tabs@[at as int]), answer));
            }
        }
        at += 1;
    }
    assert(all.take(at as int) =~= all);
    indices
}
/// The places of the tabs a bulk close would take out of a strip.
pub(crate) fn doomed_in(tabs: &[CenterTab], closing: Closing) -> (doomed: Vec<usize>)
    ensures
        doomed@ == doomed_by(closing, views(tabs@)),
{
    let takes = |index: usize, tab: &CenterTab| -> (answer: bool)
        ensures
            answer == names(closing, tab@, index as int),
        {
            match closing {
                Closing::Others(one) => index != one,
                Closing::Left(one) => index < one,
                Closing::Right(one) => index > one,
                Closing::Unchanged => !tab.dirty,
                Closing::All => true,
            }
        };
    let len = tabs.len();
    let doomed = closable(tabs, takes);
    proof {
        let named = named_in(closing, views(tabs@));
        assert forall|i: int, answer: bool|
            0 <= i < tabs@.len() && #[trigger] takes.ensures(
                (i as usize, &tabs@[i]),
                answer,
            ) implies answer == named(i) by {
            assert(views(tabs@)[i] == tabs@[i]@);
            assert(i < len);
        }
        assert(doomed@ == unpinned(views(tabs@), named));
    }
    doomed
}


/// Where a pane is in the layout.
pub(crate) fn slot(layout: &Vec<usize>, id: usize) -> (at: usize)
    ensures
        at == first(layout@, is_pane(id)),
        at <= layout@.len(),
        at < layout@.len() ==> layout@[at as int] == id,
{
    let mut at: usize = 0;
    while at < layout.len() && layout[at] != id
        invariant
            at <= layout@.len(),
            forall|i: int| 0 <= i < at ==> (#[trigger] layout@[i]) != id,
        decreases layout@.len() - at,
    {
        at += 1;
    }
    proof {
        lemma_first(layout@, is_pane(id), at as int);
    }
    at
}

/// Which pane the eye lands on once one goes away.
fn next_to(layout: &Vec<usize>, id: usize) -> (next: usize)
    requires
        layout@.len() > 1,
        first(layout@, is_pane(id)) < layout@.len(),
    ensures
        next == neighbour(layout@, id),
{
    let seat = slot(layout, id);
    if layout.len() - seat > 1 {
        layout[seat + 1]
    } else {
        layout[seat - 1]
    }
}

/// A pane of the layout has a slot there, and any other has none.
pub proof fn lemma_slot(layout: Seq<usize>, id: usize)
    ensures
        0 <= first(layout, is_pane(id)) <= layout.len(),
        layout.contains(id) == (first(layout, is_pane(id)) < layout.len()),
        layout.contains(id) ==> layout[first(layout, is_pane(id))] == id,
{
    lemma_first_bounds(layout, is_pane(id));
    let seat = first(layout, is_pane(id));
    if seat < layout.len() {
        assert(is_pane(id)(layout[seat]));
        assert(layout[seat] == id);
    } else if layout.contains(id) {
        let slot = choose|i: int| 0 <= i < layout.len() && layout[i] == id;
        assert(!is_pane(id)(layout[slot]));
    }
}

/// A window without one of its panes is well formed, as long as one is left.
proof fn lemma_without_pane(window: WindowView, id: usize)
    requires
        well_formed(window),
        window.layout.contains(id),
        window.layout.len() > 1,
    ensures
        well_formed(without_pane(window, id)),
{
    reveal(well_formed);
    let slot = first(window.layout, is_pane(id));
    lemma_slot(window.layout, id);
    assert(has_pane(window.panes, window.layout[slot]));
    lemma_place_bounds(window.panes, id);
    let at = place_of(window.panes, id);
    let after = without_pane(window, id);
    // Every other pane is still found.
    assert forall|one: usize| one != id && has_pane(window.panes, one) implies #[trigger] has_pane(
        after.panes,
        one,
    ) by {
        lemma_place_bounds(window.panes, one);
        let place = place_of(window.panes, one);
        lemma_place_of(
            after.panes,
            one,
            if place < at {
                place
            } else {
                place - 1
            },
        );
    }
    assert forall|i: int| 0 <= i < after.layout.len() implies has_pane(
        after.panes,
        #[trigger] after.layout[i],
    ) by {
        let from = if i < slot {
            i
        } else {
            i + 1
        };
        assert(after.layout[i] == window.layout[from]);
        assert(has_pane(window.panes, window.layout[from]));
    }
    assert forall|i: int, j: int| 0 <= i < j < after.panes.len() implies (
    #[trigger] after.panes[i]).id != (#[trigger] after.panes[j]).id by {
        let a = if i < at {
            i
        } else {
            i + 1
        };
        let b = if j < at {
            j
        } else {
            j + 1
        };
        assert(window.panes[a].id != window.panes[b].id);
    }
    assert forall|i: int| 0 <= i < after.panes.len() implies (#[trigger] after.panes[i]).id
        < after.next_pane by {
        let a = if i < at {
            i
        } else {
            i + 1
        };
        assert(window.panes[a].id < window.next_pane);
    }
    assert(after.layout.no_duplicates());
    if window.active_pane == id {
        let next = neighbour(window.layout, id);
        if slot + 1 < window.layout.len() {
            assert(has_pane(window.panes, window.layout[slot + 1]));
        } else {
            assert(has_pane(window.panes, window.layout[slot - 1]));
        }
        assert(next != id);
        assert(has_pane(after.panes, next));
    } else {
        assert(has_pane(after.panes, window.active_pane));
    }
}

impl Workspace {
    /// Show a tab, carrying what is typed back to the tab that is leaving.
    pub fn activate_tab(&mut self, index: usize)
        requires
            well_formed(old(self)@),
        ensures
            final(self)@ == tab_activated(old(self)@, index),
            well_formed(final(self)@),
    {
        let at = self.active_at();
        if index >= self.panes[at].tabs.len() || index == self.panes[at].active_tab {
            return ;
        }
        self.show_tab(index);
        self.save_session();
        self.say(Effect::Notify);
    }

    /// Add a tab to the active pane and show it.
    pub(crate) fn add_tab(&mut self, tab: CenterTab)
        requires
            well_formed(old(self)@),
        ensures
            final(self)@ == tab_added(old(self)@, tab@),
            well_formed(final(self)@),
    {
        let at = self.active_at();
        let ghost before = self.panes@;
        let index: usize = self.panes[at].tabs.len();
        self.panes[at].push_tab(tab);
        assert(self.panes@ =~= before.update(at as int, self.panes@[at as int]));
        assert(self@ =~= with_active(
            old(self)@,
            with_tab(active_pane(old(self)@), tab@),
        ));
        self.show_tab(index);
    }

    /// Open a new script.
    pub fn new_query_tab(&mut self)
        requires
            well_formed(old(self)@),
        ensures
            final(self)@ == script_opened(old(self)@),
            well_formed(final(self)@),
    {
        let tab = CenterTab::script("Untitled", self.session);
        self.add_tab(tab);
        self.say(Effect::Focus(Focus::Console));
        self.save_session();
        self.say(Effect::Notify);
    }

    /// Take a pane out of the window.
    fn drop_pane(&mut self, id: usize)
        requires
            well_formed(old(self)@),
            old(self)@.layout.contains(id),
            old(self)@.layout.len() > 1,
        ensures
            final(self)@ == without_pane(old(self)@, id),
    {
        proof {
            reveal(well_formed);
            lemma_slot(self@.layout, id);
            let seat = first(self@.layout, is_pane(id));
            assert(has_pane(self@.panes, self@.layout[seat]));
        }
        let at = self.find(id);
        // Worked out while the order still has the pane that goes away.
        let next = next_to(&self.layout, id);
        let seat = slot(&self.layout, id);
        let running = match self.running_pane {
            Some(pane) => if pane == id {
                None
            } else {
                Some(pane)
            },
            None => None,
        };
        let active = if self.active_pane == id {
            next
        } else {
            self.active_pane
        };
        self.take_pane(at);
        self.layout.remove(seat);
        self.running_pane = running;
        self.active_pane = active;
        assert(self@ =~= without_pane(old(self)@, id));
    }

    /// Take a pane out of the list.
    fn take_pane(&mut self, at: usize)
        requires
            at < old(self)@.panes.len(),
        ensures
            final(self)@ == (WindowView {
                panes: old(self)@.panes.remove(at as int),
                ..old(self)@
            }),
    {
        self.panes.remove(at);
        assert(self@ =~= (WindowView {
            panes: old(self)@.panes.remove(at as int),
            ..old(self)@
        }));
    }

    /// Close a pane and hand its room back to its neighbours.
    ///
    /// The last pane stays: a centre with no editor in it is not a window with
    /// one fewer split, it is a window with nothing in it. So does one that has
    /// no room to hand back.
    pub fn close_pane(&mut self, id: usize)
        requires
            well_formed(old(self)@),
        ensures
            final(self)@ == pane_closed(old(self)@, id),
            well_formed(final(self)@),
    {
        let seat = slot(&self.layout, id);
        proof {
            lemma_slot(self@.layout, id);
        }
        if self.panes.len() <= 1 || self.layout.len() <= 1 || seat >= self.layout.len() {
            return ;
        }
        proof {
            lemma_without_pane(self@, id);
        }
        self.drop_pane(id);
        self.say(Effect::Focus(Focus::Console));
        self.save_session();
        self.say(Effect::Notify);
    }

    /// Make a pane the one the dock, the inspector and the keyboard are about.
    ///
    /// Every tab has its own connection, so crossing a split moves the
    /// sidebar, the titlebar and where a statement would go, all at once.
    pub fn activate_pane(&mut self, id: usize)
        requires
            well_formed(old(self)@),
        ensures
            final(self)@ == pane_activated(old(self)@, id),
            well_formed(final(self)@),
    {
        let there = self.find(id);
        if self.active_pane == id || there >= self.panes.len() {
            return ;
        }
        self.stash_editor();
        let ghost typed = self@;
        proof {
            lemma_place_kept(
                old(self)@.panes,
                here(old(self)@),
                stashed(active_pane(old(self)@)),
                id,
            );
        }
        self.active_pane = id;
        let ghost moved = WindowView { active_pane: id, ..typed };
        assert(self@ =~= moved);
        proof {
            reveal(well_formed);
        }
        let at = self.active_at();
        let tab = self.panes[at].active_tab;
        self.adopt_tab(tab);
        self.say(Effect::Focus(Focus::Console));
        self.say(Effect::Notify);
    }

    /// Split the active pane. The new half is after it in the layout.
    pub fn split_pane(&mut self)
        requires
            well_formed(old(self)@),
            old(self).next_pane < usize::MAX,
        ensures
            final(self)@ == pane_split(old(self)@),
            well_formed(final(self)@),
    {
        // What is typed belongs to the tab that is showing, and a split is a
        // moment where it could otherwise be left behind.
        self.stash_editor();
        let ghost typed = self@;
        let seat = slot(&self.layout, self.active_pane);
        let seats = self.layout.len();
        proof {
            lemma_slot(typed.layout, typed.active_pane);
        }
        if seat >= seats {
            return ;
        }
        let id = self.next_pane;
        let mut pane = Pane::new(id);
        pane.push_tab(CenterTab::script("Untitled", self.session));
        self.layout.insert(seat + 1, id);
        self.next_pane += 1;
        self.panes.push(pane);
        self.active_pane = id;
        proof {
            lemma_split(typed, pane@);
        }
        self.dress_pane(id);
        self.say(Effect::Focus(Focus::Console));
        self.save_session();
        self.say(Effect::Notify);
    }

    /// Close a tab.
    pub fn close_tab(&mut self, index: usize)
        requires
            well_formed(old(self)@),
        ensures
            final(self)@ == tab_closed(old(self)@, index),
            well_formed(final(self)@),
    {
        let at = self.active_at();
        if index >= self.panes[at].tabs.len() {
            return ;
        }
        let last = self.panes[at].tabs.len() == 1;
        if last && self.panes.len() > 1 {
            let id = self.active_pane;
            self.close_pane(id);
            return ;
        }
        let was_active = index == self.panes[at].active_tab;
        self.stash_editor();
        let ghost typed = self@;
        let at = self.active_at();
        let ghost before = self.panes@;
        self.panes[at].remove_tab(index);
        assert(self.panes@ =~= before.update(at as int, self.panes@[at as int]));
        assert(self@ =~= with_active(typed, tab_removed(active_pane(typed), index as int)));
        if was_active {
            self.say(Effect::SetConsole(self.active_pane));
        }
        if last {
            self.clear_results();
        }
        self.save_session();
        self.say(Effect::Notify);
    }

    /// Close some tabs at once.
    pub fn close_tabs(&mut self, doomed: &Vec<usize>)
        requires
            well_formed(old(self)@),
        ensures
            final(self)@ == tabs_closed(old(self)@, doomed@),
            well_formed(final(self)@),
    {
        if doomed.len() == 0 {
            return ;
        }
        let at = self.active_at();
        let len = self.panes[at].tabs.len();
        let active = self.panes[at].active_tab;
        let showing = tab_after_closing(active, doomed.as_slice(), len);
        proof {
            one_tab_shows_after_closing(
                active as int,
                doomed@,
                len as nat,
                showing,
                left_showing(active as int, doomed@, len as nat),
            );
        }
        if showing.is_none() && self.panes.len() > 1 {
            let id = self.active_pane;
            self.close_pane(id);
            return ;
        }
        let was_active = crate::tabs::is_doomed(doomed.as_slice(), active);
        self.stash_editor();
        let ghost typed = self@;
        let at = self.active_at();
        let ghost before = self.panes@;
        self.panes[at].remove_tabs(doomed, showing);
        assert(self.panes@ =~= before.update(at as int, self.panes@[at as int]));
        assert(self@ =~= with_active(typed, tabs_removed(active_pane(typed), doomed@)));
        if was_active {
            self.say(Effect::SetConsole(self.active_pane));
        }
        if showing.is_none() {
            self.clear_results();
        }
        self.save_session();
        self.say(Effect::Notify);
    }

    /// Close every tab a bulk close is about, except a pinned one, which is
    /// what a pin is for.
    pub fn close_tabs_where(&mut self, closing: Closing)
        requires
            well_formed(old(self)@),
        ensures
            final(self)@ == tabs_closed(
                old(self)@,
                doomed_by(closing, active_pane(old(self)@).tabs),
            ),
            well_formed(final(self)@),
    {
        let doomed = self.doomed(closing);
        self.close_tabs(&doomed);
    }

    /// The places of the tabs a bulk close would take.
    pub fn doomed(&self, closing: Closing) -> (doomed: Vec<usize>)
        requires
            well_formed(self@),
        ensures
            doomed@ == doomed_by(closing, active_pane(self@).tabs),
    {
        let at = self.active_at();
        doomed_in(self.panes[at].tabs.as_slice(), closing)
    }

    /// Close every tab but the showing one.
    pub fn close_other_tabs(&mut self)
        requires
            well_formed(old(self)@),
        ensures
            final(self)@ == tabs_closed(
                old(self)@,
                doomed_by(
                    Closing::Others(active_pane(old(self)@).active_tab),
                    active_pane(old(self)@).tabs,
                ),
            ),
            well_formed(final(self)@),
    {
        let at = self.active_at();
        let active = self.panes[at].active_tab;
        self.close_tabs_where(Closing::Others(active));
    }

    /// Pin or unpin a tab, and move it to where a pinned tab lives: pinning
    /// walks it to the end of the pinned run, and unpinning drops it at the
    /// start of what is left.
    pub fn toggle_pin(&mut self, index: usize)
        requires
            well_formed(old(self)@),
        ensures
            final(self)@ == pin_toggled(old(self)@, index),
            well_formed(final(self)@),
    {
        let at = self.active_at();
        if index >= self.panes[at].tabs.len() {
            return ;
        }
        let ghost before = self.panes@;
        self.panes[at].turn_pin(index);
        assert(self.panes@ =~= before.update(at as int, self.panes@[at as int]));
        let ghost turned = with_active(
            old(self)@,
            pin_turned(active_pane(old(self)@), index as int),
        );
        assert(self@ =~= turned);
        let to = self.panes[at].count_pinned(index);
        if index != to {
            // What is typed belongs to the tab that is showing, and this is
            // the last moment the place it is filed under is still the old
            // one.
            self.stash_editor();
            let ghost typed = self@;
            let at = self.active_at();
            let ghost before = self.panes@;
            self.panes[at].move_tab(index, to);
            assert(self.panes@ =~= before.update(at as int, self.panes@[at as int]));
            assert(self@ =~= with_active(
                typed,
                tab_moved(active_pane(typed), index as int, to as int),
            ));
            let active = self.panes[at].active_tab;
            self.say(Effect::RevealTab(self.active_pane, active));
        }
        self.save_session();
        self.say(Effect::Notify);
    }
}

/// A tab's pin turned over, and the tab moved behind the other pinned ones.
pub open spec fn pin_toggled(window: WindowView, index: usize) -> WindowView {
    let pane = active_pane(window);
    if index >= pane.tabs.len() {
        window
    } else {
        let turned = with_active(window, pin_turned(pane, index as int));
        let to = pinned_besides(
            active_pane(turned).tabs,
            index as int,
            pane.tabs.len() as int,
        );
        let placed = if to == index {
            turned
        } else {
            let typed = typed_back(turned);
            let moved = with_active(
                typed,
                tab_moved(active_pane(typed), index as int, to),
            );
            then_do(
                moved,
                Act::RevealTab(window.active_pane, active_pane(moved).active_tab),
            )
        };
        then_do(session_saved(placed), Act::Notify)
    }
}

/// Splitting a pane leaves the window well formed.
proof fn lemma_split(typed: WindowView, pane: PaneView)
    requires
        well_formed(typed),
        typed.layout.contains(typed.active_pane),
        typed.next_pane < usize::MAX,
        pane.id == typed.next_pane,
    ensures
        ({
            let at = first(typed.layout, is_pane(typed.active_pane));
            well_formed(
                WindowView {
                    layout: typed.layout.insert(at + 1, typed.next_pane),
                    panes: typed.panes.push(pane),
                    next_pane: (typed.next_pane + 1) as usize,
                    active_pane: typed.next_pane,
                    ..typed
                },
            )
        }),
{
    reveal(well_formed);
    let id = typed.next_pane;
    lemma_slot(typed.layout, typed.active_pane);
    let at = first(typed.layout, is_pane(typed.active_pane));
    let after = WindowView {
        layout: typed.layout.insert(at + 1, id),
        panes: typed.panes.push(pane),
        next_pane: (id + 1) as usize,
        active_pane: id,
        ..typed
    };
    assert forall|i: int| 0 <= i < typed.layout.len() implies typed.layout[i] != id by {
        assert(has_pane(typed.panes, typed.layout[i]));
        lemma_place_bounds(typed.panes, typed.layout[i]);
        let place = place_of(typed.panes, typed.layout[i]);
        assert(typed.panes[place].id < typed.next_pane);
    }
    assert forall|i: int| 0 <= i < typed.panes.len() implies (#[trigger] after.panes[i]).id != id by {
        assert(typed.panes[i].id < typed.next_pane);
    }
    lemma_place_of(after.panes, id, typed.panes.len() as int);
    assert forall|one: usize| has_pane(typed.panes, one) implies #[trigger] has_pane(
        after.panes,
        one,
    ) by {
        lemma_place_bounds(typed.panes, one);
        lemma_place_of(after.panes, one, place_of(typed.panes, one));
    }
    assert forall|i: int| 0 <= i < after.layout.len() implies has_pane(
        after.panes,
        #[trigger] after.layout[i],
    ) by {
        if i <= at {
            assert(has_pane(typed.panes, typed.layout[i]));
        } else if i > at + 1 {
            assert(has_pane(typed.panes, typed.layout[i - 1]));
        }
    }
    assert forall|i: int, j: int| 0 <= i < j < after.panes.len() implies (
    #[trigger] after.panes[i]).id != (#[trigger] after.panes[j]).id by {
        if j < typed.panes.len() {
            assert(typed.panes[i].id != typed.panes[j].id);
        }
    }
    assert forall|i: int| 0 <= i < after.panes.len() implies (#[trigger] after.panes[i]).id
        < after.next_pane by {
        if i < typed.panes.len() {
            assert(typed.panes[i].id < typed.next_pane);
        }
    }
}

/// Where every pane is in the layout, splitting one leaves every pane there.
pub proof fn splitting_keeps_every_pane_in_sight(window: WindowView)
    requires
        well_formed(window),
        all_laid_out(window),
        window.next_pane < usize::MAX,
    ensures
        all_laid_out(pane_split(window)),
{
    reveal(well_formed);
    reveal(session_saved);
    let typed = typed_back(window);
    let after = pane_split(window);
    lemma_place_bounds(window.panes, window.active_pane);
    lemma_slot(window.layout, window.active_pane);
    assert(window.layout.contains(window.panes[here(window)].id));
    let at = first(window.layout, is_pane(window.active_pane));
    assert forall|i: int| 0 <= i < after.panes.len() implies after.layout.contains(
        (#[trigger] after.panes[i]).id,
    ) by {
        if i < typed.panes.len() {
            let mine = window.panes[i].id;
            assert(after.panes[i].id == mine);
            assert(window.layout.contains(mine));
            let seat = choose|k: int| 0 <= k < window.layout.len() && window.layout[k] == mine;
            if seat <= at {
                assert(after.layout[seat] == mine);
            } else {
                assert(after.layout[seat + 1] == mine);
            }
        } else {
            assert(after.layout[at + 1] == window.next_pane);
        }
    }
}

/// Where every pane is in the layout, closing one leaves every other there.
pub proof fn closing_keeps_the_rest_in_sight(window: WindowView, id: usize)
    requires
        well_formed(window),
        all_laid_out(window),
    ensures
        all_laid_out(pane_closed(window, id)),
{
    reveal(well_formed);
    reveal(session_saved);
    let after = pane_closed(window, id);
    lemma_slot(window.layout, id);
    if window.panes.len() > 1 && window.layout.len() > 1 && window.layout.contains(id) {
        let slot = first(window.layout, is_pane(id));
        assert(has_pane(window.panes, window.layout[slot]));
        lemma_place_bounds(window.panes, id);
        let at = place_of(window.panes, id);
        assert forall|i: int| 0 <= i < after.panes.len() implies after.layout.contains(
            (#[trigger] after.panes[i]).id,
        ) by {
            let from = if i < at {
                i
            } else {
                i + 1
            };
            assert(after.panes[i].id == window.panes[from].id);
            let mine = window.panes[from].id;
            assert(window.panes[at].id != mine);
            assert(window.layout.contains(mine));
            let seat = choose|k: int| 0 <= k < window.layout.len() && window.layout[k] == mine;
            assert(seat != slot);
            if seat < slot {
                assert(after.layout[seat] == mine);
            } else {
                assert(after.layout[seat - 1] == mine);
            }
        }
    }
}

} // verus!
