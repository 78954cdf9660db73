//! What the loop around the window calls: a session told to do something, an
//! answer taken in, and whether the window is in order.
use crate::absorbing::with_held;
use crate::catalog::{DbError, Grants, RelationRef};
use crate::lists::group_views;
use crate::session::{
    canceling, committed, committing, connected, connecting, deeds, granted, key_read, listed,
    opening, ran, refreshed, refreshing, running, scanning, Answer, Catalog, Counts, Deed, KeyPage,
    Listing, Opened, SessionEffect, SessionView, Statement, Step,
};
use crate::window::{has_pane, lemma_same_frame, well_formed, Order, WindowView, Workspace};
use vstd::prelude::*;

verus! {

broadcast use group_views;

/// The statements of a design, as they are sent: each of them changes as many
/// rows as it changes.
pub open spec fn as_statements(list: Seq<String>) -> Seq<Statement> {
    Seq::new(list.len(), |i: int| Statement { sql: list[i], expect_rows: None })
}

/// What so many statements of a design come to.
pub open spec fn design_counts(count: nat) -> Counts {
    Counts { inserts: 0, updates: 0, deletes: 0, ddl: count as usize }
}

/// A session told to do something.
pub open spec fn carried_out(session: SessionView, order: Order) -> Step {
    match order {
        Order::Connect => connecting(session),
        Order::Run(sql) => running(session, sql@),
        Order::Cancel => canceling(session),
        Order::OpenKey(key, kind) => opening(session, key@, kind),
        Order::Scan(pattern) => scanning(session, pattern@),
        Order::Refresh => refreshing(session),
        Order::Commit(list) => committing(
            session,
            as_statements(list@),
            design_counts(list@.len()),
        ),
    }
}

/// A session of the window told to do something. One that is not there does
/// nothing.
pub open spec fn obeyed(window: WindowView, id: usize, order: Order) -> (WindowView, Seq<Deed>) {
    if id < window.sessions.len() {
        let step = carried_out(window.sessions[id as int].session, order);
        (with_held(window, id, step.0), step.1)
    } else {
        (window, Seq::empty())
    }
}

/// What a server answered.
pub enum Reply {
    Connected(Result<Opened, DbError>),
    Refreshed(Result<Catalog, DbError>),
    Granted(RelationRef, Result<Option<Grants>, DbError>),
    Listed(Result<Listing, DbError>),
    KeyRead(Result<KeyPage, String>),
    Ran(Result<Answer, String>),
    Applied(Result<(Option<DbError>, u128), String>),
}

/// A session that was answered.
pub open spec fn taken_in(session: SessionView, reply: Reply) -> Step {
    match reply {
        Reply::Connected(outcome) => connected(session, outcome),
        Reply::Refreshed(outcome) => refreshed(session, outcome),
        Reply::Granted(relation, outcome) => granted(session, relation, outcome),
        Reply::Listed(outcome) => listed(session, outcome),
        Reply::KeyRead(outcome) => key_read(session, outcome),
        Reply::Ran(answer) => ran(session, answer),
        Reply::Applied(answer) => committed(session, answer),
    }
}

/// A session of the window that was answered. An answer for one that is not
/// there goes nowhere.
pub open spec fn answered(window: WindowView, id: usize, reply: Reply) -> (WindowView, Seq<Deed>) {
    if id < window.sessions.len() {
        let step = taken_in(window.sessions[id as int].session, reply);
        (with_held(window, id, step.0), step.1)
    } else {
        (window, Seq::empty())
    }
}

/// The statements of a design, as they are sent.
fn statements_of(list: Vec<String>) -> (statements: Vec<Statement>)
    ensures
        statements@ == as_statements(list@),
{
    let ghost whole = list@;
    let mut statements: Vec<Statement> = Vec::new();
    for sql in rest: list
        invariant
            rest.seq() == whole,
            statements@ == as_statements(whole).take(rest.index() as int),
    {
        statements.push(Statement { sql, expect_rows: None });
        assert(statements@ =~= as_statements(whole).take(rest.index() + 1));
    }
    assert(statements@ =~= as_statements(whole));
    statements
}

impl Workspace {
    /// Tell a session of the window to do something, and give back what it
    /// asks for. A design goes out as one transaction, and is counted by its
    /// statements.
    pub fn obey(&mut self, id: usize, order: Order) -> (effects: Vec<SessionEffect>)
        ensures
            (final(self)@, deeds(effects@)) == obeyed(old(self)@, id, order),
            well_formed(old(self)@) ==> well_formed(final(self)@),
    {
        if id >= self.sessions.len() {
            assert(deeds(Seq::empty()) =~= Seq::empty());
            return Vec::new();
        }
        let ghost before = self.sessions@;
        assert(self@.sessions[id as int] == before[id as int]@);
        let effects = match order {
            Order::Connect => self.sessions[id].session.connect(),
            Order::Run(sql) => self.sessions[id].session.run(sql),
            Order::Cancel => self.sessions[id].session.cancel(),
            Order::OpenKey(key, kind) => self.sessions[id].session.open_key(key, kind),
            Order::Scan(pattern) => self.sessions[id].session.scan_keys(pattern.as_str()),
            Order::Refresh => self.sessions[id].session.refresh_schema(),
            Order::Commit(list) => {
                let counts = Counts { inserts: 0, updates: 0, deletes: 0, ddl: list.len() };
                let statements = statements_of(list);
                self.sessions[id].session.apply(statements, counts)
            },
        };
        proof {
            self.lemma_session_changed(*old(self), id);
        }
        effects
    }

    /// Give a session of the window what its server answered, and give back
    /// what it asks for then.
    pub fn answer(&mut self, id: usize, reply: Reply) -> (effects: Vec<SessionEffect>)
        ensures
            (final(self)@, deeds(effects@)) == answered(old(self)@, id, reply),
            well_formed(old(self)@) ==> well_formed(final(self)@),
    {
        if id >= self.sessions.len() {
            assert(deeds(Seq::empty()) =~= Seq::empty());
            return Vec::new();
        }
        let ghost before = self.sessions@;
        assert(self@.sessions[id as int] == before[id as int]@);
        let effects = match reply {
            Reply::Connected(outcome) => self.sessions[id].session.connected(outcome),
            Reply::Refreshed(outcome) => self.sessions[id].session.refreshed(outcome),
            Reply::Granted(relation, outcome) => self.sessions[id].session.granted(
                relation,
                outcome,
            ),
            Reply::Listed(outcome) => self.sessions[id].session.listed(outcome),
            Reply::KeyRead(outcome) => self.sessions[id].session.key_read(outcome),
            Reply::Ran(answer) => self.sessions[id].session.ran(answer),
            Reply::Applied(answer) => self.sessions[id].session.applied(answer),
        };
        proof {
            self.lemma_session_changed(*old(self), id);
        }
        effects
    }

    /// A window with one session changed, and nothing else.
    proof fn lemma_session_changed(self, before: Workspace, id: usize)
        requires
            id < before.sessions@.len(),
            self.sessions@.len() == before.sessions@.len(),
            forall|i: int|
                0 <= i < before.sessions@.len() && i != id ==> self.sessions@[i]
                    == before.sessions@[i],
            self.sessions@[id as int].open == before.sessions@[id as int].open,
            self == (Workspace { sessions: self.sessions, ..before }),
        ensures
            self@ == with_held(before@, id, self.sessions@[id as int].session@),
            well_formed(before@) == well_formed(self@),
    {
        assert(self@ =~= with_held(before@, id, self.sessions@[id as int].session@));
        lemma_same_frame(self@, before@);
    }

    /// Whether the window is in order.
    pub fn in_order(&self) -> (answer: bool)
        ensures
            answer == well_formed(self@),
    {
        proof {
            reveal(well_formed);
        }
        if self.find(self.active_pane) >= self.panes.len() || self.layout.len() == 0 {
            return false;
        }
        for at in 0..self.panes.len()
            invariant
                forall|i: int| 0 <= i < at ==> (#[trigger] self@.panes[i]).id < self.next_pane,
                forall|i: int, j: int|
                    0 <= i < j < at ==> (#[trigger] self@.panes[i]).id != (
                    #[trigger] self@.panes[j]).id,
        {
            assert(self@.panes[at as int].id == self.panes@[at as int].id);
            if self.panes[at].id >= self.next_pane {
                proof {
                    reveal(well_formed);
                }
                return false;
            }
            for before in 0..at
                invariant
                    at < self.panes@.len(),
                    self@.panes[at as int].id == self.panes@[at as int].id,
                    forall|i: int|
                        0 <= i < before ==> (#[trigger] self@.panes[i]).id
                            != self@.panes[at as int].id,
            {
                assert(self@.panes[before as int].id == self.panes@[before as int].id);
                if self.panes[before].id == self.panes[at].id {
                    proof {
                        reveal(well_formed);
                    }
                    return false;
                }
            }
        }
        for at in 0..self.layout.len()
            invariant
                forall|i: int|
                    0 <= i < at ==> has_pane(self@.panes, #[trigger] self@.layout[i]),
                forall|i: int, j: int| 0 <= i < j < at ==> self@.layout[i] != self@.layout[j],
        {
            if self.find(self.layout[at]) >= self.panes.len() {
                proof {
                    reveal(well_formed);
                }
                return false;
            }
            for before in 0..at
                invariant
                    at < self.layout@.len(),
                    forall|i: int|
                        0 <= i < before ==> self@.layout[i] != self@.layout[at as int],
            {
                if self.layout[before] == self.layout[at] {
                    proof {
                        reveal(well_formed);
                    }
                    return false;
                }
            }
        }
        true
    }
}

} // verus!
